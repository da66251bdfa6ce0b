use udp_mangler::config::{ConfigError, ManglerConfig, LOSS_SCALE, NANOS_PER_MILLI};

#[test]
fn default_config_has_documented_values() {
    let c = ManglerConfig::default();
    assert_eq!(c.buffer_size, 65535);
    assert_eq!(c.max_payload_size, 1472);
    assert_eq!(c.loss_ppb, 5_000_000);
    assert_eq!(c.ping_nanos, 50_000_000);
    assert_eq!(c.jitter_nanos, 20_000_000);
}

#[test]
fn default_config_passes_validation() {
    let d = ManglerConfig::default();
    let c = ManglerConfig::new(
        d.buffer_size,
        d.max_payload_size,
        d.loss_ppb,
        d.ping_nanos,
        d.jitter_nanos,
    );
    assert_eq!(c, Ok(d));
}

#[test]
fn new_keeps_the_values_it_is_given() {
    let c = ManglerConfig::new(2048, 512, 250_000_000, 7, 9).unwrap();
    assert_eq!(
        c,
        ManglerConfig {
            buffer_size: 2048,
            max_payload_size: 512,
            loss_ppb: 250_000_000,
            ping_nanos: 7,
            jitter_nanos: 9,
        }
    );
}

#[test]
fn new_rejects_zero_buffer_size() {
    assert_eq!(ManglerConfig::new(0, 1472, 0, 0, 0), Err(ConfigError::BufferSize));
}

#[test]
fn new_rejects_zero_max_payload_size() {
    assert_eq!(ManglerConfig::new(65535, 0, 0, 0, 0), Err(ConfigError::MaxPayloadSize));
}

#[test]
fn new_rejects_loss_above_one() {
    assert_eq!(
        ManglerConfig::new(65535, 1472, LOSS_SCALE + 1, 0, 0),
        Err(ConfigError::LossFactor)
    );
}

#[test]
fn new_accepts_loss_of_zero_and_of_one() {
    assert!(ManglerConfig::new(1, 1, 0, 0, 0).is_ok());
    assert!(ManglerConfig::new(1, 1, LOSS_SCALE, 0, 0).is_ok());
}

#[test]
fn new_reports_the_first_broken_rule() {
    assert_eq!(ManglerConfig::new(0, 0, LOSS_SCALE + 1, 0, 0), Err(ConfigError::BufferSize));
    assert_eq!(ManglerConfig::new(1, 0, LOSS_SCALE + 1, 0, 0), Err(ConfigError::MaxPayloadSize));
}

#[test]
fn new_accepts_any_delay() {
    let c = ManglerConfig::new(1, 1, 0, u64::MAX, u64::MAX).unwrap();
    assert_eq!(c.ping_nanos, u64::MAX);
    assert_eq!(c.jitter_nanos, u64::MAX);
}

#[test]
fn from_millis_converts_delays_to_nanoseconds() {
    let c = ManglerConfig::from_millis(65535, 1472, 5_000_000, 50, 20).unwrap();
    assert_eq!(c, ManglerConfig::default());
}

#[test]
fn from_millis_accepts_zero_delays() {
    let c = ManglerConfig::from_millis(10, 10, 0, 0, 0).unwrap();
    assert_eq!(c.ping_nanos, 0);
    assert_eq!(c.jitter_nanos, 0);
}

#[test]
fn from_millis_rejects_a_delay_beyond_64_bits() {
    let largest = u64::MAX / NANOS_PER_MILLI;
    assert!(ManglerConfig::from_millis(10, 10, 0, largest, largest).is_ok());
    assert_eq!(
        ManglerConfig::from_millis(10, 10, 0, largest + 1, 0),
        Err(ConfigError::Delay)
    );
    assert_eq!(
        ManglerConfig::from_millis(10, 10, 0, 0, largest + 1),
        Err(ConfigError::Delay)
    );
}

#[test]
fn from_millis_checks_the_other_values_first() {
    assert_eq!(
        ManglerConfig::from_millis(0, 10, 0, u64::MAX, 0),
        Err(ConfigError::BufferSize)
    );
    assert_eq!(
        ManglerConfig::from_millis(10, 0, 0, u64::MAX, 0),
        Err(ConfigError::MaxPayloadSize)
    );
    assert_eq!(
        ManglerConfig::from_millis(10, 10, LOSS_SCALE + 1, u64::MAX, 0),
        Err(ConfigError::LossFactor)
    );
}

#[test]
fn delays_in_milliseconds_round_down() {
    let c = ManglerConfig::new(1, 1, 0, 50_999_999, 999_999).unwrap();
    assert_eq!(c.ping_millis(), 50);
    assert_eq!(c.jitter_millis(), 0);
    let d = ManglerConfig::default();
    assert_eq!(d.ping_millis(), 50);
    assert_eq!(d.jitter_millis(), 20);
}
