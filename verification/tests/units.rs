use microbox::duration::Duration;
use microbox::errors::PolicyError;
use microbox::units::{format_bytes, format_duration, parse_human_duration, parse_human_size};

#[test]
fn parses_sizes_and_durations() {
    assert_eq!(parse_human_size("512m").unwrap(), 512 * 1024 * 1024);
    assert_eq!(parse_human_size("1g").unwrap(), 1024 * 1024 * 1024);
    assert_eq!(parse_human_duration("5m").unwrap(), Duration::from_secs(300));
    assert_eq!(parse_human_duration("250ms").unwrap(), Duration::from_millis(250));
}

#[test]
fn sizes_take_every_unit_in_any_case() {
    assert_eq!(parse_human_size("7").unwrap(), 7);
    assert_eq!(parse_human_size(" 2 KB ").unwrap(), 2048);
    assert_eq!(parse_human_size("3k").unwrap(), 3072);
    assert_eq!(parse_human_size("1MB").unwrap(), 1_048_576);
    assert_eq!(parse_human_size("2gb").unwrap(), 2_147_483_648);
    assert_eq!(parse_human_size("1t").unwrap(), 1_099_511_627_776);
    assert_eq!(parse_human_size("1Tb").unwrap(), 1_099_511_627_776);
    assert_eq!(parse_human_size("+4").unwrap(), 4);
}

#[test]
fn sizes_saturate() {
    assert_eq!(parse_human_size("18446744073709551615").unwrap(), u64::MAX);
    assert_eq!(parse_human_size("18446744073709551615k").unwrap(), u64::MAX);
}

#[test]
fn bad_sizes_are_refused_with_the_input() {
    for input in ["", "   ", "m", "1.5g", "-1", "18446744073709551616"] {
        match parse_human_size(input) {
            Err(PolicyError::InvalidSize(text)) => assert_eq!(text, input),
            other => panic!("unexpected {other:?}"),
        }
    }
    assert_eq!(
        parse_human_size("x").unwrap_err().message(),
        "invalid human-readable size: x"
    );
}

#[test]
fn durations_take_every_unit() {
    assert_eq!(parse_human_duration("7").unwrap(), Duration::from_secs(7));
    assert_eq!(parse_human_duration("2H").unwrap(), Duration::from_secs(7200));
    assert_eq!(parse_human_duration("0s").unwrap(), Duration::from_secs(0));
    assert_eq!(parse_human_duration("1500ms").unwrap().as_millis(), 1500);
}

#[test]
fn bad_durations_are_refused_with_the_input() {
    match parse_human_duration(" 5 d ") {
        Err(PolicyError::InvalidDuration(text)) => assert_eq!(text, " 5 d "),
        other => panic!("unexpected {other:?}"),
    }
    assert_eq!(
        parse_human_duration("").unwrap_err().message(),
        "invalid human-readable duration: "
    );
}

#[test]
fn formats_use_the_largest_unit_that_divides() {
    assert_eq!(format_bytes(0), "0");
    assert_eq!(format_bytes(1023), "1023");
    assert_eq!(format_bytes(1024), "1k");
    assert_eq!(format_bytes(1_572_864), "1536k");
    assert_eq!(format_bytes(536_870_912), "512m");
    assert_eq!(format_bytes(2_147_483_648), "2g");
    assert_eq!(format_duration(Duration::from_millis(0)), "0h");
    assert_eq!(format_duration(Duration::from_millis(1)), "1ms");
    assert_eq!(format_duration(Duration::from_secs(90)), "90s");
    assert_eq!(format_duration(Duration::from_secs(300)), "5m");
    assert_eq!(format_duration(Duration::from_secs(7200)), "2h");
}

#[test]
fn formatted_sizes_and_durations_read_back() {
    for bytes in [0u64, 1, 1000, 1024, 1_048_576, 1_048_577, u64::MAX] {
        assert_eq!(parse_human_size(&format_bytes(bytes)).unwrap(), bytes);
    }
    for millis in [0u64, 1, 999, 1000, 60_000, 3_600_000, 3_600_001, u64::MAX] {
        let duration = Duration::from_millis(millis);
        assert_eq!(parse_human_duration(&format_duration(duration)).unwrap(), duration);
    }
}

#[test]
fn durations_keep_their_parts() {
    let d = Duration::new(3, 250_000_001);
    assert_eq!(d.as_secs(), 3);
    assert_eq!(d.subsec_nanos(), 250_000_001);
    assert_eq!(d.as_millis(), 3250);
    assert_eq!(d.as_micros(), 3_250_000);
    assert!(!d.is_zero());
    assert!(Duration::from_secs(0).is_zero());
    assert!(d.at_least(&Duration::from_secs(3)));
    assert!(!Duration::from_micros(5).at_least(&d));
}
