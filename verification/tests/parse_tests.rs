use cowcow::config::{Config, ConfigError, Credentials, LoginResponse};
use cowcow::export::{export_start, ExportFormat, QualityFilter};
use cowcow::parse::{parse_digits, parse_flag, parse_thousandths, parse_unsigned};
use cowcow::quality::QcMetrics;

#[test]
fn digits_are_read_up_to_the_limit() {
    assert_eq!(parse_digits(b"0", 10), Some(0));
    assert_eq!(parse_digits(b"007", 10), Some(7));
    assert_eq!(parse_digits(b"10", 10), Some(10));
    assert_eq!(parse_digits(b"11", 10), None);
    assert_eq!(parse_digits(b"", 10), None);
    assert_eq!(parse_digits(b"1a", 10), None);
    assert_eq!(parse_digits(b"+1", 10), None);
    assert_eq!(parse_digits(b"5", 3), None);
    assert_eq!(parse_digits(b"18446744073709551615", u64::MAX), Some(u64::MAX));
    assert_eq!(parse_digits(b"18446744073709551616", u64::MAX), None);
    assert_eq!(parse_digits(b"99999999999999999999999", u64::MAX), None);
}

#[test]
fn whole_numbers_may_carry_a_plus() {
    assert_eq!(parse_unsigned("42", u64::MAX), Some(42));
    assert_eq!(parse_unsigned("+42", u64::MAX), Some(42));
    assert_eq!(parse_unsigned("-42", u64::MAX), None);
    assert_eq!(parse_unsigned("+", u64::MAX), None);
    assert_eq!(parse_unsigned("", u64::MAX), None);
    assert_eq!(parse_unsigned(" 42", u64::MAX), None);
    assert_eq!(parse_unsigned("42 ", u64::MAX), None);
    assert_eq!(parse_unsigned("++42", u64::MAX), None);
    assert_eq!(parse_unsigned("4.2", u64::MAX), None);
    assert_eq!(parse_unsigned("65535", 65535), Some(65535));
    assert_eq!(parse_unsigned("65536", 65535), None);
    assert_eq!(parse_unsigned("\u{664}\u{662}", u64::MAX), None);
}

#[test]
fn whole_numbers_agree_with_the_standard_reading() {
    for text in ["0", "+0", "1", "+17", "-1", "", "+", "1_000", "0x10", "18446744073709551615",
        "18446744073709551616", "4294967295", "4294967296", "00012", " 1", "1 ", "1e3"] {
        assert_eq!(parse_unsigned(text, u64::MAX), text.parse::<u64>().ok(), "{:?}", text);
        assert_eq!(
            parse_unsigned(text, u32::MAX as u64),
            text.parse::<u32>().ok().map(|n| n as u64),
            "{:?}",
            text
        );
        assert_eq!(
            parse_unsigned(text, u16::MAX as u64),
            text.parse::<u16>().ok().map(|n| n as u64),
            "{:?}",
            text
        );
    }
}

#[test]
fn flags_are_true_or_false() {
    assert_eq!(parse_flag("true"), Some(true));
    assert_eq!(parse_flag("false"), Some(false));
    assert_eq!(parse_flag("True"), None);
    assert_eq!(parse_flag("1"), None);
    assert_eq!(parse_flag(""), None);
    assert_eq!(parse_flag("true "), None);
}

#[test]
fn decimals_are_read_in_thousandths() {
    assert_eq!(parse_thousandths("20"), Some(20_000));
    assert_eq!(parse_thousandths("20.5"), Some(20_500));
    assert_eq!(parse_thousandths("20.05"), Some(20_050));
    assert_eq!(parse_thousandths("20.005"), Some(20_005));
    assert_eq!(parse_thousandths("0.8"), Some(800));
    assert_eq!(parse_thousandths("-12.25"), Some(-12_250));
    assert_eq!(parse_thousandths("+1.0"), Some(1_000));
    assert_eq!(parse_thousandths("-0"), Some(0));
    assert_eq!(parse_thousandths("007.100"), Some(7_100));
}

#[test]
fn decimals_refuse_what_is_no_plain_decimal() {
    for text in ["", "+", "-", ".", ".5", "5.", "1.2345", "1.2.3", "1e3", "inf", "NaN", "1,5",
        " 1", "1 ", "--1", "+-1", "1.-5", "1.+5", "0x10", "1..5"] {
        assert_eq!(parse_thousandths(text), None, "{:?}", text);
    }
}

#[test]
fn decimals_reach_the_ends_of_their_range() {
    assert_eq!(parse_thousandths("9223372036854775.807"), Some(i64::MAX));
    assert_eq!(parse_thousandths("-9223372036854775.807"), Some(-i64::MAX));
    assert_eq!(parse_thousandths("9223372036854775.808"), None);
    assert_eq!(parse_thousandths("-9223372036854775.808"), None);
    assert_eq!(parse_thousandths("9223372036854776"), None);
    assert_eq!(parse_thousandths("9223372036854775"), Some(9_223_372_036_854_775_000));
    assert_eq!(parse_thousandths("99999999999999999999999999"), None);
}

#[test]
fn set_value_sets_each_key() {
    let mut config = Config::default();
    assert_eq!(config.set_value("api.endpoint", "https://collect.example"), Ok(()));
    assert_eq!(config.api.endpoint, "https://collect.example");
    assert_eq!(config.set_value("api.timeout_secs", "45"), Ok(()));
    assert_eq!(config.api.timeout_secs, 45);
    assert_eq!(config.set_value("storage.auto_upload", "true"), Ok(()));
    assert!(config.storage.auto_upload);
    assert_eq!(config.set_value("storage.auto_upload", "false"), Ok(()));
    assert!(!config.storage.auto_upload);
    assert_eq!(config.set_value("audio.sample_rate", "48000"), Ok(()));
    assert_eq!(config.audio.sample_rate, 48000);
    assert_eq!(config.set_value("audio.channels", "2"), Ok(()));
    assert_eq!(config.audio.channels, 2);
    assert_eq!(config.set_value("audio.min_snr_db", "-3.5"), Ok(()));
    assert_eq!(config.audio.min_snr_db, -3_500);
    assert_eq!(config.set_value("audio.max_clipping_pct", "2.5"), Ok(()));
    assert_eq!(config.audio.max_clipping_pct, 2_500);
    assert_eq!(config.set_value("audio.min_vad_ratio", "0.8"), Ok(()));
    assert_eq!(config.audio.min_vad_ratio, 800);
    assert_eq!(config.set_value("upload.max_retries", "5"), Ok(()));
    assert_eq!(config.upload.max_retries, 5);
    assert_eq!(config.set_value("upload.retry_delay_secs", "10"), Ok(()));
    assert_eq!(config.upload.retry_delay_secs, 10);
    assert_eq!(config.set_value("upload.chunk_size", "4096"), Ok(()));
    assert_eq!(config.upload.chunk_size, 4096);
    assert_eq!(config.api.endpoint, "https://collect.example");
    assert_eq!(config.api.timeout_secs, 45);
}

#[test]
fn set_value_refuses_unknown_keys_and_unreadable_values() {
    let mut config = Config::default();
    assert_eq!(config.set_value("api.port", "1"), Err(ConfigError::UnknownKey));
    assert_eq!(config.set_value("", "1"), Err(ConfigError::UnknownKey));
    assert_eq!(config.set_value("api.endpoint", "localhost"), Err(ConfigError::InvalidEndpoint));
    assert_eq!(config.set_value("api.timeout_secs", "soon"), Err(ConfigError::InvalidNumber));
    assert_eq!(config.set_value("api.timeout_secs", "-1"), Err(ConfigError::InvalidNumber));
    assert_eq!(config.set_value("storage.auto_upload", "yes"), Err(ConfigError::InvalidFlag));
    assert_eq!(config.set_value("audio.sample_rate", "4294967296"), Err(ConfigError::InvalidNumber));
    assert_eq!(config.set_value("audio.channels", "65536"), Err(ConfigError::InvalidNumber));
    assert_eq!(config.set_value("audio.min_snr_db", "loud"), Err(ConfigError::InvalidDecimal));
    assert_eq!(config.set_value("audio.max_clipping_pct", "x"), Err(ConfigError::InvalidDecimal));
    assert_eq!(config.set_value("audio.min_vad_ratio", ""), Err(ConfigError::InvalidDecimal));
    assert_eq!(config.set_value("upload.max_retries", "3.0"), Err(ConfigError::InvalidNumber));
    assert_eq!(config.set_value("upload.retry_delay_secs", "1s"), Err(ConfigError::InvalidNumber));
    assert_eq!(config.set_value("upload.chunk_size", "big"), Err(ConfigError::InvalidNumber));
    let fresh = Config::default();
    assert_eq!(config.api.endpoint, fresh.api.endpoint);
    assert_eq!(config.api.timeout_secs, fresh.api.timeout_secs);
    assert_eq!(config.audio, fresh.audio);
    assert_eq!(config.upload, fresh.upload);
    assert_eq!(config.storage.auto_upload, fresh.storage.auto_upload);
}

#[test]
fn set_value_holds_the_limits_of_the_quality_gate() {
    let mut config = Config::default();
    assert_eq!(config.set_value("audio.max_clipping_pct", "100"), Ok(()));
    assert_eq!(config.audio.max_clipping_pct, 100_000);
    assert_eq!(config.set_value("audio.max_clipping_pct", "0"), Ok(()));
    assert_eq!(config.audio.max_clipping_pct, 0);
    assert_eq!(
        config.set_value("audio.max_clipping_pct", "100.001"),
        Err(ConfigError::ClippingOutOfRange)
    );
    assert_eq!(
        config.set_value("audio.max_clipping_pct", "-0.001"),
        Err(ConfigError::ClippingOutOfRange)
    );
    assert_eq!(config.audio.max_clipping_pct, 0);
    assert_eq!(config.set_value("audio.min_vad_ratio", "1"), Ok(()));
    assert_eq!(config.audio.min_vad_ratio, 1_000);
    assert_eq!(
        config.set_value("audio.min_vad_ratio", "1.001"),
        Err(ConfigError::VadRatioOutOfRange)
    );
    assert_eq!(config.set_value("audio.min_vad_ratio", "80"), Err(ConfigError::VadRatioOutOfRange));
    assert_eq!(config.set_value("audio.min_vad_ratio", "-1"), Err(ConfigError::VadRatioOutOfRange));
    assert_eq!(config.audio.min_vad_ratio, 1_000);
}

#[test]
fn set_value_keeps_a_value_that_fails_the_check_of_the_configuration() {
    let mut config = Config::default();
    assert_eq!(config.set_value("api.timeout_secs", "0"), Err(ConfigError::ZeroTimeout));
    assert_eq!(config.api.timeout_secs, 0);
    assert_eq!(config.set_value("audio.sample_rate", "0"), Err(ConfigError::ZeroTimeout));
    assert_eq!(config.audio.sample_rate, 0);
    assert_eq!(config.set_value("api.timeout_secs", "1"), Err(ConfigError::ZeroSampleRate));
    assert_eq!(config.set_value("audio.channels", "0"), Err(ConfigError::ZeroSampleRate));
    assert_eq!(config.set_value("audio.sample_rate", "8000"), Err(ConfigError::ZeroChannels));
    assert_eq!(config.set_value("audio.channels", "1"), Ok(()));
}

#[test]
fn login_lasts_one_day() {
    let response = LoginResponse {
        access_token: "token".to_string(),
        token_type: "bearer".to_string(),
        api_key: "key".to_string(),
    };
    let credentials = Credentials::from_login(response, "amina".to_string(), 1_000);
    assert_eq!(credentials.access_token, Some("token".to_string()));
    assert_eq!(credentials.api_key, Some("key".to_string()));
    assert_eq!(credentials.username, Some("amina".to_string()));
    assert_eq!(credentials.expires_at, Some(87_400));
    assert!(credentials.is_valid_at(87_399));
    assert!(!credentials.is_valid_at(87_400));
}

#[test]
fn export_formats() {
    assert_eq!(ExportFormat::parse("json"), Some(ExportFormat::Json));
    assert_eq!(ExportFormat::parse("wav"), Some(ExportFormat::Wav));
    assert_eq!(ExportFormat::parse("both"), Some(ExportFormat::Both));
    assert_eq!(ExportFormat::parse("JSON"), None);
    assert_eq!(ExportFormat::parse("mp3"), None);
    assert_eq!(ExportFormat::parse(""), None);
    assert!(ExportFormat::Json.writes_json() && !ExportFormat::Json.writes_wav());
    assert!(!ExportFormat::Wav.writes_json() && ExportFormat::Wav.writes_wav());
    assert!(ExportFormat::Both.writes_json() && ExportFormat::Both.writes_wav());
}

#[test]
fn export_filter_holds_each_limit_that_is_set() {
    let metrics = QcMetrics { snr_db: 20_000, clipping_pct: 1_000, vad_ratio: 80_000 };
    let open = QualityFilter { min_snr: None, max_clipping: None, min_vad: None };
    assert!(open.accepts(&metrics));
    let edge = QualityFilter {
        min_snr: Some(20_000),
        max_clipping: Some(1_000),
        min_vad: Some(80_000),
    };
    assert!(edge.accepts(&metrics));
    assert!(!QualityFilter { min_snr: Some(20_001), ..open }.accepts(&metrics));
    assert!(!QualityFilter { max_clipping: Some(999), ..open }.accepts(&metrics));
    assert!(!QualityFilter { min_vad: Some(80_001), ..open }.accepts(&metrics));
    assert!(QualityFilter { min_snr: Some(-1), ..open }.accepts(&metrics));
}

#[test]
fn export_starts_days_before_now() {
    assert_eq!(export_start(1_700_000_000, 30), 1_700_000_000 - 2_592_000);
    assert_eq!(export_start(0, 1), -86_400);
    assert_eq!(export_start(5, 0), 5);
    assert_eq!(export_start(i64::MAX, u32::MAX), i64::MAX - 4_294_967_295 * 86_400);
}
