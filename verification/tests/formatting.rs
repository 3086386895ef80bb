use talos_tui::formatting::{format_duration, token_label, TokenLabel};

/// The status-bar token label: the verified decision, with the one-decimal
/// rendering of a scaled count done in floating point as the application does.
fn format_tokens(n: u64) -> String {
    match token_label(n) {
        TokenLabel::Exact(s) => s,
        TokenLabel::Scaled { divisor, suffix } => {
            let scaled = n as f64 / divisor as f64;
            if scaled.fract() == 0.0 {
                format!("{scaled:.0}{suffix}")
            } else {
                format!("{scaled:.1}{suffix}")
            }
        }
    }
}

#[test]
fn test_format_tokens_zero() {
    assert_eq!(format_tokens(0), "0");
}

#[test]
fn test_format_tokens_under_1k() {
    assert_eq!(format_tokens(1), "1");
    assert_eq!(format_tokens(999), "999");
}

#[test]
fn test_format_tokens_exactly_1k() {
    assert_eq!(format_tokens(1_000), "1k");
}

#[test]
fn test_format_tokens_thousands() {
    assert_eq!(format_tokens(1_234), "1.2k");
    assert_eq!(format_tokens(12_345), "12.3k");
    assert_eq!(format_tokens(999_999), "1000.0k");
}

#[test]
fn test_format_tokens_exactly_1m() {
    assert_eq!(format_tokens(1_000_000), "1M");
}

#[test]
fn test_format_tokens_millions() {
    assert_eq!(format_tokens(1_234_567), "1.2M");
    assert_eq!(format_tokens(12_345_678), "12.3M");
}

#[test]
fn test_format_tokens_exactly_1b() {
    assert_eq!(format_tokens(1_000_000_000), "1B");
}

#[test]
fn test_format_tokens_billions() {
    assert_eq!(format_tokens(1_234_567_890), "1.2B");
}

#[test]
fn test_format_tokens_round_trips_clean() {
    assert_eq!(format_tokens(5_000), "5k");
    assert_eq!(format_tokens(50_000), "50k");
    assert_eq!(format_tokens(500_000), "500k");
}

#[test]
fn token_label_decides_exact_and_scaled_cases() {
    assert_eq!(token_label(42), TokenLabel::Exact("42".to_string()));
    assert_eq!(token_label(7_000), TokenLabel::Exact("7k".to_string()));
    assert_eq!(token_label(3_000_000_000), TokenLabel::Exact("3B".to_string()));
    assert_eq!(token_label(1_234), TokenLabel::Scaled { divisor: 1_000, suffix: 'k' });
    assert_eq!(token_label(2_500_000), TokenLabel::Scaled { divisor: 1_000_000, suffix: 'M' });
    // Beyond 2^53 a whole multiple is left to the floating-point rendering.
    assert_eq!(
        token_label(10_000_000_000_000_000),
        TokenLabel::Scaled { divisor: 1_000_000_000, suffix: 'B' }
    );
}

#[test]
fn test_format_duration_zero() {
    assert_eq!(format_duration(0), "0s");
}

#[test]
fn test_format_duration_seconds_only() {
    assert_eq!(format_duration(1), "1s");
    assert_eq!(format_duration(59), "59s");
}

#[test]
fn test_format_duration_exactly_1m() {
    assert_eq!(format_duration(60), "1m");
}

#[test]
fn test_format_duration_minutes_and_seconds() {
    assert_eq!(format_duration(75), "1m 15s");
    assert_eq!(format_duration(125), "2m 5s");
}

#[test]
fn test_format_duration_exactly_1h() {
    assert_eq!(format_duration(3600), "1h");
}

#[test]
fn test_format_duration_hours_minutes_seconds() {
    assert_eq!(format_duration(3661), "1h 1m 1s");
    assert_eq!(format_duration(7325), "2h 2m 5s");
}

#[test]
fn test_format_duration_hours_and_minutes_no_seconds() {
    assert_eq!(format_duration(3660), "1h 1m");
    assert_eq!(format_duration(7200), "2h");
}

#[test]
fn test_format_duration_large_values() {
    assert_eq!(format_duration(86400), "24h");
    assert_eq!(format_duration(90061), "25h 1m 1s");
}

#[test]
fn format_duration_skips_zero_components() {
    assert_eq!(format_duration(3601), "1h 1s");
    assert_eq!(format_duration(u64::MAX), "5124095576030431h 15s");
}

#[test]
fn decimal_string_matches_std() {
    for n in [0u64, 7, 10, 99, 100, 12345, u64::MAX] {
        assert_eq!(talos_tui::formatting::decimal_string(n), n.to_string());
    }
}
