//! A fixed-weight feed-forward scorer with one hidden layer.
//!
//! The weights are drawn once, at construction, and never change. Each
//! unit applies a rational squashing function to a weighted sum of its
//! inputs, so scoring needs no transcendental arithmetic.

use vstd::prelude::*;
use crate::clock::random_between;
use crate::fixed::{abs, div_floor, isqrt, SCALE};

verus! {

/// No weight or bias lies farther from zero than this.
pub const WEIGHT_LIMIT: i32 = 2_000_000;

/// The squashing function `1/2 + x / (2 (1 + |x|))`, in millionths.
pub open spec fn squash(x: int) -> int {
    SCALE / 2 + x * SCALE / (2 * (SCALE + abs(x)))
}

/// The sum over the first `k` inputs of input times the weight from it to
/// unit `j`.
pub open spec fn dot(inputs: Seq<i32>, weights: Seq<Vec<i32>>, j: int, k: nat) -> int
    decreases k,
{
    if k == 0 {
        0
    } else {
        dot(inputs, weights, j, (k - 1) as nat) + inputs[k - 1] * weights[k - 1]@[j]
    }
}

/// The number of inputs that a layer with these weights reads.
pub open spec fn fan_in(inputs: Seq<i32>, weights: Seq<Vec<i32>>) -> nat {
    if inputs.len() < weights.len() {
        inputs.len()
    } else {
        weights.len()
    }
}

/// The activation of unit `j` of a layer.
pub open spec fn unit(inputs: Seq<i32>, weights: Seq<Vec<i32>>, bias: Seq<i32>, j: int) -> int {
    squash(bias[j] + dot(inputs, weights, j, fan_in(inputs, weights)) / (SCALE as int))
}

/// The activations of a layer of `width` units.
pub open spec fn layer(
    inputs: Seq<i32>,
    weights: Seq<Vec<i32>>,
    bias: Seq<i32>,
    width: nat,
) -> Seq<i32> {
    Seq::new(width, |j: int| unit(inputs, weights, bias, j) as i32)
}

/// Whether `weights` is a matrix with rows of `width` entries, none beyond
/// the weight limit.
pub open spec fn is_matrix(weights: Seq<Vec<i32>>, width: nat) -> bool {
    forall|i: int|
        0 <= i < weights.len() ==> {
            &&& (#[trigger] weights[i])@.len() == width
            &&& forall|j: int|
                0 <= j < width ==> -WEIGHT_LIMIT <= #[trigger] weights[i]@[j] <= WEIGHT_LIMIT
        }
}

/// Whether no entry of `bias` lies beyond the weight limit.
pub open spec fn is_bias(bias: Seq<i32>, width: nat) -> bool {
    &&& bias.len() == width
    &&& forall|j: int| 0 <= j < width ==> -WEIGHT_LIMIT <= #[trigger] bias[j] <= WEIGHT_LIMIT
}

/// Whether every weight was drawn from within `scale` of zero: from
/// `-scale` up to but not including `scale`, or is zero for a scale of zero.
pub open spec fn drawn_within(weights: Seq<Vec<i32>>, scale: int) -> bool {
    forall|i: int, j: int|
        0 <= i < weights.len() && 0 <= j < weights[i]@.len() ==> if scale >= 1 {
            -scale <= #[trigger] weights[i]@[j] < scale
        } else {
            weights[i]@[j] == 0
        }
}

/// The squashing function stays within the unit interval.
pub proof fn lemma_squash_range(x: int)
    ensures
        0 <= squash(x) <= SCALE,
{
    let d = 2 * (SCALE + abs(x));
    assert(-500_000 <= x * 1_000_000 / d <= 500_000) by (nonlinear_arith)
        requires
            d == 2 * (1_000_000 + abs(x)),
            abs(x) >= 0,
            -abs(x) <= x <= abs(x),
    ;
}

/// A scorer with an input layer, one hidden layer and an output layer.
#[derive(Debug, Clone)]
pub struct NeuralNetwork {
    weights1: Vec<Vec<i32>>,
    weights2: Vec<Vec<i32>>,
    bias1: Vec<i32>,
    bias2: Vec<i32>,
    hidden_size: usize,
    output_size: usize,
}

/// The largest weight of a layer with `fan` inputs: the square root of
/// `2 / fan`, in millionths.
pub open spec fn weight_scale(fan: nat) -> int {
    crate::fixed::sqrt_floor(2 * SCALE * SCALE / (fan as int))
}

/// A matrix of `rows` rows of `width` weights, each drawn at random from
/// within `scale` of zero.
fn random_matrix(rows: usize, width: usize, scale: i64) -> (weights: Vec<Vec<i32>>)
    requires
        0 <= scale <= WEIGHT_LIMIT,
    ensures
        weights@.len() == rows,
        is_matrix(weights@, width as nat),
        drawn_within(weights@, scale as int),
{
    let mut weights: Vec<Vec<i32>> = Vec::new();
    let mut i: usize = 0;
    while i < rows
        invariant
            i <= rows,
            weights@.len() == i,
            is_matrix(weights@, width as nat),
            drawn_within(weights@, scale as int),
            0 <= scale <= WEIGHT_LIMIT,
        decreases rows - i,
    {
        let mut row: Vec<i32> = Vec::new();
        let mut j: usize = 0;
        while j < width
            invariant
                j <= width,
                row@.len() == j,
                0 <= scale <= WEIGHT_LIMIT,
                forall|t: int| 0 <= t < j ==> -WEIGHT_LIMIT <= #[trigger] row@[t] <= WEIGHT_LIMIT,
                forall|t: int|
                    0 <= t < j ==> if scale >= 1 {
                        -scale <= #[trigger] row@[t] < scale
                    } else {
                        row@[t] == 0
                    },
            decreases width - j,
        {
            let weight: i64 = if scale >= 1 {
                random_between(-scale, scale - 1)
            } else {
                0
            };
            row.push(weight as i32);
            j = j + 1;
        }
        weights.push(row);
        i = i + 1;
    }
    weights
}

/// A vector of `width` zeros.
fn zeros(width: usize) -> (bias: Vec<i32>)
    ensures
        is_bias(bias@, width as nat),
        forall|j: int| 0 <= j < width ==> bias@[j] == 0,
{
    let mut bias: Vec<i32> = Vec::new();
    let mut j: usize = 0;
    while j < width
        invariant
            j <= width,
            bias@.len() == j,
            forall|t: int| 0 <= t < j ==> bias@[t] == 0,
        decreases width - j,
    {
        bias.push(0);
        j = j + 1;
    }
    bias
}

/// The largest weight of a layer with `fan` inputs.
fn scale_for(fan: usize) -> (scale: i64)
    ensures
        0 <= scale <= WEIGHT_LIMIT,
        fan > 0 ==> scale == weight_scale(fan as nat),
{
    if fan == 0 {
        return 0;
    }
    let ratio: u128 = 2_000_000_000_000 / (fan as u128);
    let root = isqrt(ratio);
    assert(root <= 2_000_000) by (nonlinear_arith)
        requires
            root * root <= ratio,
            ratio <= 2_000_000_000_000,
    ;
    root as i64
}

/// The squashing function `1/2 + x / (2 (1 + |x|))` of a pre-activation of
/// at most a hundred bits.
#[inline(always)]
pub fn fast_sigmoid(x: i128) -> (y: i32)
    requires
        -0x10_0000_0000_0000_0000_0000_0000 <= x <= 0x10_0000_0000_0000_0000_0000_0000,
    ensures
        y == squash(x as int),
        0 <= y <= SCALE,
{
    let magnitude: i128 = if x < 0 {
        -x
    } else {
        x
    };
    proof {
        lemma_squash_range(x as int);
    }
    let swing: i128 = div_floor(x * 1_000_000, 2 * (1_000_000 + magnitude));
    (500_000 + swing) as i32
}

/// The activations of a layer of `width` units.
fn layer_forward(inputs: &[i32], weights: &Vec<Vec<i32>>, bias: &Vec<i32>, width: usize) -> (out:
    Vec<i32>)
    requires
        is_matrix(weights@, width as nat),
        is_bias(bias@, width as nat),
    ensures
        out@ == layer(inputs@, weights@, bias@, width as nat),
        forall|j: int| 0 <= j < width ==> 0 <= #[trigger] out@[j] <= SCALE,
{
    let count = if inputs.len() < weights.len() {
        inputs.len()
    } else {
        weights.len()
    };
    let mut out: Vec<i32> = Vec::new();
    let mut j: usize = 0;
    while j < width
        invariant
            j <= width,
            count == fan_in(inputs@, weights@),
            is_matrix(weights@, width as nat),
            is_bias(bias@, width as nat),
            out@.len() == j,
            forall|t: int|
                0 <= t < j ==> #[trigger] out@[t] == unit(inputs@, weights@, bias@, t) as i32,
            forall|t: int| 0 <= t < j ==> 0 <= #[trigger] out@[t] <= SCALE,
        decreases width - j,
    {
        let mut sum: i128 = 0;
        let mut i: usize = 0;
        while i < count
            invariant
                i <= count,
                j < width,
                count <= inputs@.len(),
                count <= weights@.len(),
                is_matrix(weights@, width as nat),
                sum == dot(inputs@, weights@, j as int, i as nat),
                -0x10_0000_0000_0000 * i <= sum <= 0x10_0000_0000_0000 * i,
            decreases count - i,
        {
            let input: i128 = inputs[i] as i128;
            let weight: i128 = weights[i][j] as i128;
            assert(-0x10_0000_0000_0000 <= input * weight <= 0x10_0000_0000_0000)
                by (nonlinear_arith)
                requires
                    -0x8000_0000 <= input <= 0x7FFF_FFFF,
                    -2_000_000 <= weight <= 2_000_000,
            ;
            sum = sum + input * weight;
            i = i + 1;
        }
        let x: i128 = bias[j] as i128 + div_floor(sum, 1_000_000);
        out.push(fast_sigmoid(x));
        j = j + 1;
    }
    assert(out@ =~= layer(inputs@, weights@, bias@, width as nat));
    out
}

impl NeuralNetwork {
    /// The number of hidden units.
    pub closed spec fn hidden_size(&self) -> nat {
        self.hidden_size as nat
    }

    /// The number of outputs.
    pub closed spec fn output_size(&self) -> nat {
        self.output_size as nat
    }

    /// The number of inputs that are read.
    pub closed spec fn input_size(&self) -> nat {
        self.weights1@.len()
    }

    /// The weights from the inputs to the hidden units, one row per input.
    pub closed spec fn first_layer(&self) -> Seq<Vec<i32>> {
        self.weights1@
    }

    /// The weights from the hidden units to the outputs, one row per
    /// hidden unit.
    pub closed spec fn second_layer(&self) -> Seq<Vec<i32>> {
        self.weights2@
    }

    /// The biases of the hidden units and of the outputs.
    pub closed spec fn biases(&self) -> (Seq<i32>, Seq<i32>) {
        (self.bias1@, self.bias2@)
    }

    /// The score of `inputs`: the output layer's activations on the hidden
    /// layer's.
    pub open spec fn score(&self, inputs: Seq<i32>) -> Seq<i32> {
        layer(
            layer(inputs, self.first_layer(), self.biases().0, self.hidden_size()),
            self.second_layer(),
            self.biases().1,
            self.output_size(),
        )
    }

    /// The network's invariant: the shapes of the weights agree with the
    /// layer sizes and no weight lies beyond the weight limit.
    pub closed spec fn wf(&self) -> bool {
        &&& is_matrix(self.weights1@, self.hidden_size as nat)
        &&& is_bias(self.bias1@, self.hidden_size as nat)
        &&& self.weights2@.len() == self.hidden_size
        &&& is_matrix(self.weights2@, self.output_size as nat)
        &&& is_bias(self.bias2@, self.output_size as nat)
    }

    /// A network of the given layer sizes with zero biases and weights
    /// drawn at random from within `sqrt(2 / fan-in)` of zero.
    pub fn new(input_size: usize, hidden_size: usize, output_size: usize) -> (network: Self)
        ensures
            network.wf(),
            network.input_size() == input_size,
            network.hidden_size() == hidden_size,
            network.output_size() == output_size,
            network.first_layer().len() == input_size,
            network.second_layer().len() == hidden_size,
            is_matrix(network.first_layer(), hidden_size as nat),
            is_matrix(network.second_layer(), output_size as nat),
            input_size > 0 ==> drawn_within(network.first_layer(), weight_scale(input_size as nat)),
            hidden_size > 0 ==> drawn_within(
                network.second_layer(),
                weight_scale(hidden_size as nat),
            ),
            network.biases().0 == Seq::new(hidden_size as nat, |j: int| 0i32),
            network.biases().1 == Seq::new(output_size as nat, |j: int| 0i32),
    {
        let scale1 = scale_for(input_size);
        let scale2 = scale_for(hidden_size);
        let network = NeuralNetwork {
            weights1: random_matrix(input_size, hidden_size, scale1),
            weights2: random_matrix(hidden_size, output_size, scale2),
            bias1: zeros(hidden_size),
            bias2: zeros(output_size),
            hidden_size,
            output_size,
        };
        assert(network.bias1@ =~= Seq::new(hidden_size as nat, |j: int| 0i32));
        assert(network.bias2@ =~= Seq::new(output_size as nat, |j: int| 0i32));
        network
    }

    /// The number of inputs that are read.
    pub fn input_count(&self) -> (count: usize)
        ensures
            count == self.input_size(),
    {
        self.weights1.len()
    }

    /// The number of hidden units.
    pub fn hidden_count(&self) -> (count: usize)
        ensures
            count == self.hidden_size(),
    {
        self.hidden_size
    }

    /// The number of outputs.
    pub fn output_count(&self) -> (count: usize)
        ensures
            count == self.output_size(),
    {
        self.output_size
    }

    /// The score of `inputs`: one activation per output, each within the
    /// unit interval. Inputs beyond the input layer's size are not read.
    pub fn forward(&self, inputs: &[i32]) -> (output: Vec<i32>)
        requires
            self.wf(),
        ensures
            output@ == self.score(inputs@),
            output@.len() == self.output_size(),
            forall|j: int| 0 <= j < output@.len() ==> 0 <= #[trigger] output@[j] <= SCALE,
    {
        let hidden = layer_forward(inputs, &self.weights1, &self.bias1, self.hidden_size);
        layer_forward(hidden.as_slice(), &self.weights2, &self.bias2, self.output_size)
    }

    /// The scores of all vectors of `batch`, in order.
    pub fn forward_batch(&self, batch: &[Vec<i32>]) -> (outputs: Vec<Vec<i32>>)
        requires
            self.wf(),
        ensures
            outputs@.len() == batch@.len(),
            forall|i: int|
                0 <= i < batch@.len() ==> (#[trigger] outputs@[i])@ == self.score(batch@[i]@),
    {
        let mut outputs: Vec<Vec<i32>> = Vec::new();
        let mut i: usize = 0;
        while i < batch.len()
            invariant
                i <= batch@.len(),
                self.wf(),
                outputs@.len() == i,
                forall|t: int|
                    0 <= t < i ==> (#[trigger] outputs@[t])@ == self.score(batch@[t]@),
            decreases batch@.len() - i,
        {
            outputs.push(self.forward(batch[i].as_slice()));
            i = i + 1;
        }
        outputs
    }
}

} // verus!
