use ray_tracing::color::{channel_byte, clamp};

#[test]
fn clamp_keeps_value_in_range() {
    assert_eq!(clamp(5, 0, 10), 5);
    assert_eq!(clamp(0, 0, 10), 0);
    assert_eq!(clamp(10, 0, 10), 10);
}

#[test]
fn clamp_limits_below_and_above() {
    assert_eq!(clamp(-3, 0, 10), 0);
    assert_eq!(clamp(11, 0, 10), 10);
    assert_eq!(clamp(i64::MIN, -1, 1), -1);
    assert_eq!(clamp(i64::MAX, -1, 1), 1);
}

#[test]
fn channel_byte_quantizes_intensity() {
    // intensity 0.5 gives level 128
    assert_eq!(channel_byte((256.0f64 * 0.5) as i64), 128);
    assert_eq!(channel_byte(0), 0);
    assert_eq!(channel_byte(255), 255);
}

#[test]
fn channel_byte_saturates() {
    assert_eq!(channel_byte(-1), 0);
    assert_eq!(channel_byte(256), 255);
    assert_eq!(channel_byte(1_000_000), 255);
    // an intensity of 0.9995, above the 0.999 ceiling, still gives 255
    assert_eq!(channel_byte((256.0f64 * 0.9995) as i64), 255);
}
