use webdrop::models::snowflake::{
    format_decimal, parse_decimal, ClockError, SnowflakeId, RANDOM_SPAN, SESSION_EPOCH_SECONDS,
    TIMESTAMP_SPAN,
};

const EPOCH_MILLIS: u128 = SESSION_EPOCH_SECONDS as u128 * 1000;

#[test]
fn integer_round_trip() {
    for value in [0u64, 1, 65535, 65536, 0xDEAD_BEEF_0123_4567, u64::MAX] {
        assert_eq!(SnowflakeId::from_u64(value).as_u64(), value);
        let id = SnowflakeId::from_u64(value);
        assert_eq!(SnowflakeId::from_u64(id.as_u64()), id);
    }
}

#[test]
fn default_is_zero() {
    assert_eq!(SnowflakeId::default().as_u64(), 0);
}

#[test]
fn from_clock_packs_time_and_fill() {
    let id = SnowflakeId::from_clock(Some(EPOCH_MILLIS + 5), [0x12, 0x34]).unwrap();
    assert_eq!(id.as_u64(), (5u64 << 16) | 0x1234);
    let id = SnowflakeId::from_clock(Some(EPOCH_MILLIS), [0, 0]).unwrap();
    assert_eq!(id.as_u64(), 0);
    let id = SnowflakeId::from_clock(Some(EPOCH_MILLIS + 1), [0xFF, 0xFF]).unwrap();
    assert_eq!(id.as_u64(), 0x1_FFFF);
    assert_eq!(id.as_u64() / RANDOM_SPAN, 1);
    assert_eq!(id.as_u64() % RANDOM_SPAN, 0xFFFF);
    assert_eq!(id.timestamp_millis(), 1);
    assert_eq!(id.random(), 0xFFFF);
}

#[test]
fn from_clock_keeps_low_48_bits_of_time() {
    let elapsed = TIMESTAMP_SPAN as u128 + 7;
    let id = SnowflakeId::from_clock(Some(EPOCH_MILLIS + elapsed), [0, 1]).unwrap();
    assert_eq!(id.as_u64(), (7u64 << 16) | 1);
    let id = SnowflakeId::from_clock(Some(u128::MAX), [0, 0]).unwrap();
    let expected = ((u128::MAX - EPOCH_MILLIS) % (TIMESTAMP_SPAN as u128)) as u64;
    assert_eq!(id.as_u64(), expected << 16);
}

#[test]
fn from_clock_fails_before_epoch() {
    assert_eq!(SnowflakeId::from_clock(Some(EPOCH_MILLIS - 1), [1, 2]), Err(ClockError {}));
    assert_eq!(SnowflakeId::from_clock(Some(0), [1, 2]), Err(ClockError {}));
    assert_eq!(SnowflakeId::from_clock(None, [1, 2]), Err(ClockError {}));
}

#[test]
fn later_clock_gives_larger_id() {
    let a = SnowflakeId::from_clock(Some(EPOCH_MILLIS + 10), [0xFF, 0xFF]).unwrap();
    let b = SnowflakeId::from_clock(Some(EPOCH_MILLIS + 11), [0, 0]).unwrap();
    assert!(a.as_u64() < b.as_u64());
}

#[test]
fn generate_reads_a_clock_past_the_epoch() {
    let id = SnowflakeId::generate().unwrap();
    let now = std::time::SystemTime::now()
        .duration_since(std::time::UNIX_EPOCH)
        .unwrap()
        .as_millis();
    let stamp = (id.as_u64() >> 16) as u128;
    let elapsed = (now - EPOCH_MILLIS) % (TIMESTAMP_SPAN as u128);
    assert!(stamp <= elapsed);
    assert!(elapsed - stamp < 60_000);
}

#[test]
fn decimal_text_is_canonical() {
    assert_eq!(format_decimal(0), "0");
    assert_eq!(format_decimal(7), "7");
    assert_eq!(format_decimal(10), "10");
    assert_eq!(format_decimal(1717340400), "1717340400");
    assert_eq!(format_decimal(u64::MAX), "18446744073709551615");
    assert_eq!(SnowflakeId::from_u64(4711).to_string(), "4711");
}

#[test]
fn decimal_text_reads_back() {
    for value in [0u64, 9, 10, 99, 100, 65536, 1 << 48, u64::MAX - 1, u64::MAX] {
        assert_eq!(parse_decimal(&format_decimal(value)), Some(value));
        let id = SnowflakeId::from_u64(value);
        assert_eq!(SnowflakeId::from_str(&id.to_string()), Some(id));
    }
}

#[test]
fn parse_decimal_accepts_what_integers_parse_from() {
    for text in ["0", "007", "+5", "+0", "18446744073709551615", "42"] {
        assert_eq!(parse_decimal(text), text.parse::<u64>().ok());
        assert!(parse_decimal(text).is_some());
    }
    assert_eq!(parse_decimal("007"), Some(7));
    assert_eq!(parse_decimal("+5"), Some(5));
}

#[test]
fn parse_decimal_rejects_what_integers_do_not_parse_from() {
    for text in [
        "", "+", "-", "-1", "-0", "++1", "1+", " 1", "1 ", "1_000", "0x10", "12a", "a12", "٣",
        "18446744073709551616", "99999999999999999999999", "1.0",
    ] {
        assert_eq!(parse_decimal(text), None);
        assert!(text.parse::<u64>().is_err());
        assert_eq!(SnowflakeId::from_str(text), None);
    }
}

#[test]
fn same_compares_values() {
    let a = SnowflakeId::from_u64(5);
    assert!(a.same(&SnowflakeId::from_u64(5)));
    assert!(!a.same(&SnowflakeId::from_u64(6)));
}
