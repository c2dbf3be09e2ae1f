//! Simulated multi-modal sensor readings and their fusion into one
//! confidence.
//!
//! A reading is drawn at random within fixed ranges; only the ambient
//! brightness follows the wall clock, as a smooth wave of period 10π
//! seconds.

use vstd::prelude::*;
use crate::clock::{random_between, unix_micros};
use crate::fixed::{abs, clamp, div_floor, SCALE};

verus! {

/// Half the period of the brightness wave in microseconds: 5π seconds.
pub const HALF_PERIOD: u64 = 15_707_963;

/// The weights with which the four features enter the fused confidence.
pub const FUSION_WEIGHTS: [i32; 4] = [300_000, 300_000, 200_000, 200_000];

#[derive(Debug, Clone, Copy, PartialEq, Eq, Structural)]
pub struct VisualData {
    /// The number of objects in view.
    pub objects: u8,
    /// The ambient brightness, in millionths.
    pub brightness: i32,
    /// The amount of motion, in millionths.
    pub motion: i32,
}

#[derive(Debug, Clone, Copy, PartialEq, Eq, Structural)]
pub struct LidarData {
    /// The number of points in the scan.
    pub points: u16,
    /// The farthest return, in millionths of a metre.
    pub max_range: i32,
    /// The number of obstacles.
    pub obstacles: u8,
}

#[derive(Debug, Clone, Copy, PartialEq, Eq, Structural)]
pub struct AudioData {
    /// The amplitude, in millionths.
    pub amplitude: i32,
    /// The dominant frequency, in millionths of a hertz.
    pub frequency: i64,
    /// 0: quiet, 1: normal, 2: loud.
    pub event_type: u8,
}

#[derive(Debug, Clone, Copy, PartialEq, Eq, Structural)]
pub struct ImuData {
    pub accel_x: i32,
    pub accel_y: i32,
    pub accel_z: i32,
    pub gyro: i32,
}

/// One reading of all sensors.
#[derive(Debug, Clone, Copy, PartialEq, Eq, Structural)]
pub struct SensorData {
    pub visual: VisualData,
    pub lidar: LidarData,
    pub audio: AudioData,
    pub imu: ImuData,
    /// Microseconds from the Unix epoch to the reading.
    pub timestamp: u64,
}

/// The features of a reading and the confidence fused from them.
#[derive(Debug, Clone)]
pub struct ProcessedSensorData {
    pub features: Vec<i32>,
    pub fused_confidence: i32,
}

/// The value of the arch `16q / (5h² − 4q)` with `q = p(h − p)`, which
/// follows the sine over half a period `h`, in millionths.
pub open spec fn arch(p: int, h: int) -> int {
    16 * (p * (h - p)) * SCALE / (5 * (h * h) - 4 * (p * (h - p)))
}

/// The brightness at `timestamp`: half way up, raised by 0.3 times the
/// arch in the first half of each period and lowered by it in the second.
pub open spec fn brightness_of(timestamp: u64) -> int {
    let phase = timestamp as int % (2 * HALF_PERIOD);
    if phase < HALF_PERIOD {
        500_000 + 3 * arch(phase, HALF_PERIOD as int) / 10
    } else {
        500_000 - 3 * arch(phase - HALF_PERIOD, HALF_PERIOD as int) / 10
    }
}

/// The four features of a reading: objects by ten, points by 1500, the
/// amplitude, and the magnitude of the first acceleration (at most the
/// largest 32-bit number).
pub open spec fn features_of(data: SensorData) -> Seq<i32> {
    seq![
        (data.visual.objects * SCALE / 10) as i32,
        (data.lidar.points * SCALE / 1500) as i32,
        data.audio.amplitude,
        if abs(data.imu.accel_x as int) > i32::MAX {
            i32::MAX
        } else {
            abs(data.imu.accel_x as int) as i32
        },
    ]
}

/// The sum of the first `k` products of feature and weight.
pub open spec fn weighted_sum(features: Seq<i32>, weights: Seq<i32>, k: nat) -> int
    decreases k,
{
    if k == 0 {
        0
    } else {
        weighted_sum(features, weights, (k - 1) as nat) + features[k - 1] * weights[k - 1]
    }
}

/// The confidence fused from `features`: the weighted sum over as many
/// features as there are weights, limited to 32 bits.
pub open spec fn fused(features: Seq<i32>, weights: Seq<i32>) -> int {
    let k = if features.len() < weights.len() {
        features.len()
    } else {
        weights.len()
    };
    clamp(weighted_sum(features, weights, k) / (SCALE as int), i32::MIN as int, i32::MAX as int)
}

impl SensorData {
    /// Whether every field lies in the range it is drawn from.
    pub open spec fn plausible(&self) -> bool {
        &&& 2 <= self.visual.objects <= 10
        &&& 200_000 <= self.visual.brightness <= 800_000
        &&& 0 <= self.visual.motion < SCALE
        &&& 500 <= self.lidar.points <= 1500
        &&& 10 * SCALE <= self.lidar.max_range < 100 * SCALE
        &&& self.lidar.obstacles <= 5
        &&& 0 <= self.audio.amplitude < SCALE
        &&& 20 * SCALE <= self.audio.frequency < 20_000 * SCALE
        &&& self.audio.event_type <= 2
        &&& -500_000 <= self.imu.accel_x < 500_000
        &&& -500_000 <= self.imu.accel_y < 500_000
        &&& 9_700_000 <= self.imu.accel_z < 9_900_000
        &&& -100_000 <= self.imu.gyro < 100_000
    }

    /// A reading taken now: the brightness follows the wall clock, every
    /// other field is drawn at random from its range.
    pub fn generate() -> (reading: Self)
        ensures
            reading.plausible(),
            reading.visual.brightness == brightness_of(reading.timestamp),
    {
        let timestamp = unix_micros();
        SensorData {
            visual: VisualData {
                objects: random_between(2, 10) as u8,
                brightness: brightness_at(timestamp),
                motion: random_between(0, 999_999) as i32,
            },
            lidar: LidarData {
                points: random_between(500, 1500) as u16,
                max_range: random_between(10_000_000, 99_999_999) as i32,
                obstacles: random_between(0, 5) as u8,
            },
            audio: AudioData {
                amplitude: random_between(0, 999_999) as i32,
                frequency: random_between(20_000_000, 19_999_999_999),
                event_type: random_between(0, 2) as u8,
            },
            imu: ImuData {
                accel_x: random_between(-500_000, 499_999) as i32,
                accel_y: random_between(-500_000, 499_999) as i32,
                accel_z: (9_800_000 + random_between(-100_000, 99_999)) as i32,
                gyro: random_between(-100_000, 99_999) as i32,
            },
            timestamp,
        }
    }
}

proof fn lemma_arch_range(p: int, h: int)
    requires
        0 <= p < h,
    ensures
        0 <= p * (h - p) <= h * h,
        4 * (p * (h - p)) <= h * h,
        5 * (h * h) - 4 * (p * (h - p)) > 0,
        0 <= arch(p, h) <= SCALE,
{
    let q = p * (h - p);
    assert(0 <= q && 4 * q <= h * h && q <= h * h && h * h > 0) by (nonlinear_arith)
        requires
            q == p * (h - p),
            0 <= p < h,
    ;
    let d = 5 * (h * h) - 4 * q;
    assert(0 <= 16 * q * 1_000_000 / d <= 1_000_000) by (nonlinear_arith)
        requires
            d == 5 * (h * h) - 4 * q,
            0 <= q,
            4 * q <= h * h,
            h * h > 0,
    ;
}

/// The ambient brightness at `timestamp`, within `[0.2, 0.8]`.
pub fn brightness_at(timestamp: u64) -> (brightness: i32)
    ensures
        brightness == brightness_of(timestamp),
        200_000 <= brightness <= 800_000,
{
    let h: u128 = HALF_PERIOD as u128;
    let phase: u128 = (timestamp as u128) % (2 * h);
    let rising = phase < h;
    let p: u128 = if rising {
        phase
    } else {
        phase - h
    };
    proof {
        lemma_arch_range(p as int, h as int);
        assert(h * h == 15_707_963 * 15_707_963) by (nonlinear_arith)
            requires
                h == 15_707_963,
        ;
    }
    let q: u128 = p * (h - p);
    let wave: u128 = 16 * q * 1_000_000 / (5 * (h * h) - 4 * q);
    let swing: u128 = 3 * wave / 10;
    if rising {
        (500_000 + swing) as i32
    } else {
        (500_000 - swing) as i32
    }
}

/// The confidence fused from a plausible reading with the standard weights
/// lies in the unit interval.
pub proof fn lemma_plausible_confidence(data: SensorData)
    requires
        data.plausible(),
    ensures
        0 <= fused(features_of(data), FUSION_WEIGHTS@) <= SCALE,
{
    let f = features_of(data);
    let w = FUSION_WEIGHTS@;
    reveal_with_fuel(weighted_sum, 5);
    assert(w.len() == 4);
    assert(w[0] == 300_000 && w[1] == 300_000 && w[2] == 200_000 && w[3] == 200_000);
    assert(0 <= f[0] <= 1_000_000);
    assert(0 <= f[1] <= 1_000_000);
    assert(0 <= f[2] <= 1_000_000);
    assert(0 <= f[3] <= 1_000_000);
    assert(weighted_sum(f, w, 4) == f[0] * w[0] + f[1] * w[1] + f[2] * w[2] + f[3] * w[3]);
}

/// Turns readings into feature vectors and fuses them into a confidence.
pub struct SensorProcessor {
    weights: [i32; 4],
}

impl SensorProcessor {
    /// The weights of the fusion.
    pub closed spec fn weights(&self) -> Seq<i32> {
        self.weights@
    }

    /// A processor with the weights [`FUSION_WEIGHTS`].
    pub fn new() -> (processor: Self)
        ensures
            processor.weights() == FUSION_WEIGHTS@,
    {
        SensorProcessor { weights: FUSION_WEIGHTS }
    }

    /// The features of `data` and the confidence fused from them.
    #[inline]
    pub fn process(&self, data: &SensorData) -> (processed: ProcessedSensorData)
        ensures
            processed.features@ == features_of(*data),
            processed.fused_confidence == fused(features_of(*data), self.weights()),
    {
        let magnitude: i64 = if data.imu.accel_x < 0 {
            -(data.imu.accel_x as i64)
        } else {
            data.imu.accel_x as i64
        };
        let mut features: Vec<i32> = Vec::new();
        features.push((data.visual.objects as i64 * 1_000_000 / 10) as i32);
        features.push((data.lidar.points as i64 * 1_000_000 / 1500) as i32);
        features.push(data.audio.amplitude);
        features.push(
            if magnitude > i32::MAX as i64 {
                i32::MAX
            } else {
                magnitude as i32
            },
        );
        assert(features@ =~= features_of(*data));
        let fused_confidence = self.fuse_sensors(features.as_slice());
        ProcessedSensorData { features, fused_confidence }
    }

    /// The confidence fused from `features`.
    #[inline(always)]
    fn fuse_sensors(&self, features: &[i32]) -> (confidence: i32)
        ensures
            confidence == fused(features@, self.weights@),
    {
        let count = if features.len() < 4 {
            features.len()
        } else {
            4
        };
        let mut sum: i128 = 0;
        let mut i: usize = 0;
        while i < count
            invariant
                i <= count <= 4,
                count <= features@.len(),
                self.weights@.len() == 4,
                sum == weighted_sum(features@, self.weights@, i as nat),
                -0x4000_0000_0000_0000 * i <= sum <= 0x4000_0000_0000_0000 * i,
            decreases count - i,
        {
            let f: i128 = features[i] as i128;
            let w: i128 = self.weights[i] as i128;
            assert(-0x4000_0000_0000_0000 <= f * w <= 0x4000_0000_0000_0000) by (nonlinear_arith)
                requires
                    -0x8000_0000 <= f <= 0x7FFF_FFFF,
                    -0x8000_0000 <= w <= 0x7FFF_FFFF,
            ;
            sum = sum + f * w;
            i = i + 1;
        }
        let scaled = div_floor(sum, 1_000_000);
        if scaled > i32::MAX as i128 {
            i32::MAX
        } else if scaled < i32::MIN as i128 {
            i32::MIN
        } else {
            scaled as i32
        }
    }

    /// The features and the fused confidence of every reading of `batch`,
    /// in order.
    pub fn process_batch(&self, batch: &[SensorData]) -> (all: Vec<ProcessedSensorData>)
        ensures
            all@.len() == batch@.len(),
            forall|i: int|
                0 <= i < batch@.len() ==> {
                    &&& (#[trigger] all@[i]).features@ == features_of(batch@[i])
                    &&& all@[i].fused_confidence == fused(features_of(batch@[i]), self.weights())
                },
    {
        let mut all: Vec<ProcessedSensorData> = Vec::new();
        let mut i: usize = 0;
        while i < batch.len()
            invariant
                i <= batch@.len(),
                all@.len() == i,
                forall|j: int|
                    0 <= j < i ==> {
                        &&& (#[trigger] all@[j]).features@ == features_of(batch@[j])
                        &&& all@[j].fused_confidence == fused(
                            features_of(batch@[j]),
                            self.weights(),
                        )
                    },
            decreases batch@.len() - i,
        {
            all.push(self.process(&batch[i]));
            i = i + 1;
        }
        all
    }
}

} // verus!
