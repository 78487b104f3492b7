use cowcow::config::{check_endpoint, AudioConfig, Config, ConfigError, Credentials, UploadConfig};
use cowcow::text::{same_text, starts_with};

fn credentials(expires_at: Option<u64>) -> Credentials {
    Credentials {
        access_token: Some("t".to_string()),
        api_key: Some("k".to_string()),
        username: Some("u".to_string()),
        expires_at,
    }
}

#[test]
fn default_configuration() {
    let config = Config::default();
    assert_eq!(config.api.endpoint, "http://localhost:8000");
    assert_eq!(config.api.timeout_secs, 30);
    assert!(!config.storage.auto_upload);
    assert!(config.storage.data_dir.ends_with(".cowcow"));
    assert_eq!(
        config.audio,
        AudioConfig {
            sample_rate: 16000,
            channels: 1,
            min_snr_db: 20_000,
            max_clipping_pct: 1_000,
            min_vad_ratio: 80_000,
        }
    );
    assert_eq!(
        config.upload,
        UploadConfig { max_retries: 3, retry_delay_secs: 2, chunk_size: 1024 * 1024 }
    );
    assert_eq!(config.validate(), Ok(()));
}

#[test]
fn paths_lie_in_the_data_directory() {
    let mut config = Config::default();
    config.storage.data_dir = std::path::PathBuf::from("/var/cowcow");
    assert_eq!(config.data_dir(), &std::path::PathBuf::from("/var/cowcow"));
    assert_eq!(config.recordings_dir(), std::path::PathBuf::from("/var/cowcow/recordings"));
    assert_eq!(config.database_path(), std::path::PathBuf::from("/var/cowcow/cowcow.db"));
    assert_eq!(
        config.credentials_path(),
        std::path::PathBuf::from("/var/cowcow/credentials.json")
    );
}

#[test]
fn validate_names_the_first_broken_rule() {
    let mut config = Config::default();
    config.api.endpoint = "ftp://example".to_string();
    config.api.timeout_secs = 0;
    config.audio.sample_rate = 0;
    config.audio.channels = 0;
    assert_eq!(config.validate(), Err(ConfigError::InvalidEndpoint));
    config.api.endpoint = "https://example".to_string();
    assert_eq!(config.validate(), Err(ConfigError::ZeroTimeout));
    config.api.timeout_secs = 1;
    assert_eq!(config.validate(), Err(ConfigError::ZeroSampleRate));
    config.audio.sample_rate = 8000;
    assert_eq!(config.validate(), Err(ConfigError::ZeroChannels));
    config.audio.channels = 2;
    assert_eq!(config.validate(), Ok(()));
}

#[test]
fn endpoint_names_its_scheme() {
    assert!(check_endpoint("http://localhost:8000"));
    assert!(check_endpoint("https://x"));
    assert!(check_endpoint("http://"));
    assert!(!check_endpoint("http:/"));
    assert!(!check_endpoint("HTTP://x"));
    assert!(!check_endpoint(" http://x"));
    assert!(!check_endpoint(""));
    assert!(!check_endpoint("localhost"));
}

#[test]
fn available_keys() {
    assert_eq!(
        Config::get_available_keys(),
        vec![
            "api.endpoint",
            "api.timeout_secs",
            "storage.auto_upload",
            "audio.sample_rate",
            "audio.channels",
            "audio.min_snr_db",
            "audio.max_clipping_pct",
            "audio.min_vad_ratio",
            "upload.max_retries",
            "upload.retry_delay_secs",
            "upload.chunk_size",
        ]
    );
}

#[test]
fn route_addresses() {
    let config = Config::default();
    assert_eq!(config.api.url_for("/auth/token"), "http://localhost:8000/auth/token");
    assert_eq!(config.api.url_for(""), "http://localhost:8000");
}

#[test]
fn credentials_are_valid_before_their_expiry() {
    assert!(credentials(Some(101)).is_valid_at(100));
    assert!(!credentials(Some(100)).is_valid_at(100));
    assert!(!credentials(Some(99)).is_valid_at(100));
    assert!(!credentials(None).is_valid_at(0));
    assert!(credentials(Some(u64::MAX)).is_valid_at(u64::MAX - 1));
    assert!(!credentials(Some(0)).is_valid_at(0));
}

#[test]
fn credentials_are_held_against_the_clock() {
    assert!(credentials(Some(u64::MAX)).is_valid());
    assert!(!credentials(Some(0)).is_valid());
    assert!(!credentials(Some(1_000_000_000)).is_valid());
    assert!(!credentials(None).is_valid());
}

#[test]
fn texts_are_compared_whole() {
    assert!(same_text("", ""));
    assert!(same_text("abc", "abc"));
    assert!(!same_text("abc", "abd"));
    assert!(!same_text("abc", "ab"));
    assert!(!same_text("ab", "abc"));
    assert!(same_text("sauti ya ng'ombe \u{1f404}", "sauti ya ng'ombe \u{1f404}"));
    assert!(!same_text("\u{e9}", "e"));
}

#[test]
fn prefixes() {
    assert!(starts_with("abc", ""));
    assert!(starts_with("abc", "ab"));
    assert!(starts_with("abc", "abc"));
    assert!(!starts_with("abc", "abcd"));
    assert!(!starts_with("abc", "b"));
    assert!(!starts_with("", "a"));
}

#[test]
fn copy_of_a_configuration_keeps_every_field() {
    let mut config = Config::default();
    config.storage.data_dir = std::path::PathBuf::from("/var/cowcow");
    config.storage.auto_upload = true;
    config.api.endpoint = "https://collect.example".to_string();
    config.api.timeout_secs = 7;
    config.audio.min_snr_db = -1;
    config.upload.max_retries = 9;
    let copy = config.clone();
    assert_eq!(copy.storage.data_dir, std::path::PathBuf::from("/var/cowcow"));
    assert!(copy.storage.auto_upload);
    assert_eq!(copy.api.endpoint, "https://collect.example");
    assert_eq!(copy.api.timeout_secs, 7);
    assert_eq!(copy.audio, config.audio);
    assert_eq!(copy.upload, config.upload);
    let credentials = credentials(Some(5)).clone();
    assert_eq!(credentials.access_token, Some("t".to_string()));
    assert_eq!(credentials.api_key, Some("k".to_string()));
    assert_eq!(credentials.username, Some("u".to_string()));
    assert_eq!(credentials.expires_at, Some(5));
}

#[test]
fn errors_say_what_is_wrong() {
    assert_eq!(
        ConfigError::InvalidEndpoint.message(),
        "API endpoint must start with http:// or https://"
    );
    assert_eq!(ConfigError::ZeroTimeout.message(), "API timeout must be greater than 0");
    assert_eq!(ConfigError::ZeroSampleRate.message(), "Sample rate must be greater than 0");
    assert_eq!(ConfigError::ZeroChannels.message(), "Channel count must be greater than 0");
    assert_eq!(
        ConfigError::ClippingOutOfRange.message(),
        "Clipping percentage must be between 0 and 100"
    );
    assert_eq!(ConfigError::VadRatioOutOfRange.message(), "VAD ratio must be between 0 and 1");
    assert_eq!(ConfigError::UnknownKey.message(), "Unknown configuration key");
    assert_eq!(ConfigError::InvalidNumber.message(), "Invalid value, must be a positive integer");
    assert_eq!(ConfigError::InvalidFlag.message(), "Invalid value, must be true or false");
    assert_eq!(ConfigError::InvalidDecimal.message(), "Invalid value, must be a number");
}
