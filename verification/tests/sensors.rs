use std::time::{SystemTime, UNIX_EPOCH};
use env_awareness::sensors::{
    brightness_at, AudioData, ImuData, LidarData, SensorData, SensorProcessor, VisualData,
    HALF_PERIOD,
};

fn reading(objects: u8, points: u16, amplitude: i32, accel_x: i32) -> SensorData {
    SensorData {
        visual: VisualData { objects, brightness: 500_000, motion: 0 },
        lidar: LidarData { points, max_range: 10_000_000, obstacles: 0 },
        audio: AudioData { amplitude, frequency: 440_000_000, event_type: 1 },
        imu: ImuData { accel_x, accel_y: 0, accel_z: 9_800_000, gyro: 0 },
        timestamp: 0,
    }
}

#[test]
fn test_sensor_generation() {
    let data = SensorData::generate();

    assert!(data.visual.objects >= 2 && data.visual.objects <= 10);
    assert!(data.lidar.points >= 500 && data.lidar.points <= 1500);
    assert!(data.audio.amplitude >= 0 && data.audio.amplitude <= 1_000_000);
}

#[test]
fn test_sensor_processing() {
    let processor = SensorProcessor::new();
    let data = SensorData::generate();
    let processed = processor.process(&data);

    assert_eq!(processed.features.len(), 4);
    assert!(processed.fused_confidence >= 0 && processed.fused_confidence <= 1_000_000);
}

#[test]
fn generated_readings_stay_in_range() {
    let mut seen_objects = std::collections::BTreeSet::new();
    for _ in 0..500 {
        let d = SensorData::generate();
        seen_objects.insert(d.visual.objects);
        assert!((2..=10).contains(&d.visual.objects));
        assert!((200_000..=800_000).contains(&d.visual.brightness));
        assert_eq!(d.visual.brightness, brightness_at(d.timestamp));
        assert!((0..1_000_000).contains(&d.visual.motion));
        assert!((500..=1500).contains(&d.lidar.points));
        assert!((10_000_000..100_000_000).contains(&d.lidar.max_range));
        assert!(d.lidar.obstacles <= 5);
        assert!((0..1_000_000).contains(&d.audio.amplitude));
        assert!((20_000_000..20_000_000_000).contains(&d.audio.frequency));
        assert!(d.audio.event_type <= 2);
        assert!((-500_000..500_000).contains(&d.imu.accel_x));
        assert!((-500_000..500_000).contains(&d.imu.accel_y));
        assert!((9_700_000..9_900_000).contains(&d.imu.accel_z));
        assert!((-100_000..100_000).contains(&d.imu.gyro));
        assert!(d.timestamp > 0);
    }
    // The draws vary.
    assert!(seen_objects.len() > 1);
}

#[test]
fn features_and_fusion() {
    let processor = SensorProcessor::new();
    let processed = processor.process(&reading(5, 750, 400_000, -250_000));
    assert_eq!(processed.features, vec![500_000, 500_000, 400_000, 250_000]);
    // 0.3 * 0.5 + 0.3 * 0.5 + 0.2 * 0.4 + 0.2 * 0.25
    assert_eq!(processed.fused_confidence, 430_000);

    let processed = processor.process(&reading(10, 1500, 999_999, 499_999));
    assert_eq!(processed.features, vec![1_000_000, 1_000_000, 999_999, 499_999]);
    assert_eq!(processed.fused_confidence, 899_999);

    let processed = processor.process(&reading(7, 1000, 0, 0));
    assert_eq!(processed.features, vec![700_000, 666_666, 0, 0]);
    assert_eq!(processed.fused_confidence, 409_999);
}

#[test]
fn extreme_readings_do_not_overflow() {
    let processor = SensorProcessor::new();
    let processed = processor.process(&reading(255, u16::MAX, i32::MAX, i32::MIN));
    assert_eq!(processed.features, vec![25_500_000, 43_690_000, i32::MAX, i32::MAX]);
    let processed = processor.process(&reading(0, 0, i32::MIN, 0));
    assert_eq!(processed.features, vec![0, 0, i32::MIN, 0]);
    // 0.2 * -2147.483648, rounded down.
    assert_eq!(processed.fused_confidence, -429_496_730);
}

#[test]
fn batches_are_processed_in_order() {
    let processor = SensorProcessor::new();
    let batch = vec![reading(5, 750, 400_000, -250_000), reading(7, 1000, 0, 0)];
    let all = processor.process_batch(&batch);
    assert_eq!(all.len(), 2);
    assert_eq!(all[0].fused_confidence, 430_000);
    assert_eq!(all[1].features, vec![700_000, 666_666, 0, 0]);
    assert!(processor.process_batch(&[]).is_empty());
}

#[test]
fn brightness_wave() {
    assert_eq!(HALF_PERIOD, 15_707_963);
    assert_eq!(brightness_at(0), 500_000);
    assert_eq!(brightness_at(7_853_981), 799_999);
    assert_eq!(brightness_at(15_707_963), 500_000);
    assert_eq!(brightness_at(23_561_944), 200_001);
    assert_eq!(brightness_at(31_415_926), 500_000);
    assert_eq!(brightness_at(1_700_000_000_000_000), 364_853);
    for t in (0..40_000_000u64).step_by(99_991) {
        assert!((200_000..=800_000).contains(&brightness_at(t)));
    }
    assert!((200_000..=800_000).contains(&brightness_at(u64::MAX)));
}

#[test]
fn timestamp_is_the_wall_clock_in_microseconds() {
    let before = SystemTime::now().duration_since(UNIX_EPOCH).unwrap().as_micros();
    let reading = SensorData::generate();
    let after = SystemTime::now().duration_since(UNIX_EPOCH).unwrap().as_micros();
    assert!(before <= reading.timestamp as u128);
    assert!(reading.timestamp as u128 <= after);
}
