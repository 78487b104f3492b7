//! Configuration: where the service is, where data lies, what audio is
//! taken, and how uploads are gated and retried. Credentials.

use vstd::prelude::*;
use vstd::string::StringExecFns;
use crate::paths::{
    home_dir, joined_path, path_from, path_join, since_epoch, whole_secs,
};
use crate::parse::{
    flag_of, parse_flag, parse_thousandths, parse_unsigned, thousandths_of, unsigned_of,
};
use crate::text::{begins_with, same_text, starts_with};

verus! {

/// The collection service.
#[derive(Debug)]
pub struct ApiConfig {
    /// Base address of the service.
    pub endpoint: String,
    /// Request timeout in seconds.
    pub timeout_secs: u64,
}

/// Where data lies on this machine.
#[derive(Debug)]
pub struct StorageConfig {
    /// Directory of the database, the recordings and the credentials.
    pub data_dir: std::path::PathBuf,
    /// Whether a recording is uploaded right after it was taken.
    pub auto_upload: bool,
}

/// Audio settings and the quality gate. The three gate values are
/// fixed-point numbers in thousandths, as the metrics they are held against.
#[derive(Clone, Copy, Debug, PartialEq, Eq)]
pub struct AudioConfig {
    /// Samples per second.
    pub sample_rate: u32,
    /// Number of channels.
    pub channels: u16,
    /// Least signal-to-noise estimate for upload, in thousandths of a
    /// decibel.
    pub min_snr_db: i64,
    /// Greatest clipping percentage for upload, in thousandths of a percent.
    pub max_clipping_pct: u32,
    /// Least voice-activity ratio for upload, in thousandths of a percent.
    pub min_vad_ratio: u32,
}

/// How uploads are retried.
#[derive(Clone, Copy, Debug, PartialEq, Eq)]
pub struct UploadConfig {
    /// Attempts after which a recording is given up for the run.
    pub max_retries: u32,
    /// Base of the linear backoff, in seconds.
    pub retry_delay_secs: u64,
    /// Size of an upload chunk in bytes.
    pub chunk_size: usize,
}

/// The whole configuration.
#[derive(Debug)]
pub struct Config {
    pub api: ApiConfig,
    pub storage: StorageConfig,
    pub audio: AudioConfig,
    pub upload: UploadConfig,
}

impl Clone for ApiConfig {
    fn clone(&self) -> (copy: ApiConfig)
        ensures
            copy == *self,
    {
        ApiConfig { endpoint: self.endpoint.clone(), timeout_secs: self.timeout_secs }
    }
}

impl Clone for StorageConfig {
    fn clone(&self) -> (copy: StorageConfig)
        ensures
            copy == *self,
    {
        StorageConfig { data_dir: self.data_dir.clone(), auto_upload: self.auto_upload }
    }
}

impl Clone for Config {
    fn clone(&self) -> (copy: Config)
        ensures
            copy == *self,
    {
        Config {
            api: self.api.clone(),
            storage: self.storage.clone(),
            audio: self.audio,
            upload: self.upload,
        }
    }
}

/// What is wrong with a configuration, or with a value for one of its keys.
#[derive(Clone, Copy, Debug, PartialEq, Eq)]
pub enum ConfigError {
    /// The endpoint must start with `http://` or `https://`.
    InvalidEndpoint,
    /// The timeout must be greater than 0.
    ZeroTimeout,
    /// The sample rate must be greater than 0.
    ZeroSampleRate,
    /// The channel count must be greater than 0.
    ZeroChannels,
    /// The value is not a whole number that the key can hold.
    InvalidNumber,
    /// The value is neither `true` nor `false`.
    InvalidFlag,
    /// The value is not a decimal number with at most three decimals.
    InvalidDecimal,
    /// The clipping percentage must lie between 0 and 100.
    ClippingOutOfRange,
    /// The voice-activity ratio must lie between 0 and 1.
    VadRatioOutOfRange,
    /// No such key.
    UnknownKey,
}

impl ConfigError {
    /// What is wrong, in words.
    pub fn message(&self) -> (text: String)
        ensures
            text@ == match *self {
                ConfigError::InvalidEndpoint => "API endpoint must start with http:// or https://"@,
                ConfigError::ZeroTimeout => "API timeout must be greater than 0"@,
                ConfigError::ZeroSampleRate => "Sample rate must be greater than 0"@,
                ConfigError::ZeroChannels => "Channel count must be greater than 0"@,
                ConfigError::InvalidNumber => "Invalid value, must be a positive integer"@,
                ConfigError::InvalidFlag => "Invalid value, must be true or false"@,
                ConfigError::InvalidDecimal => "Invalid value, must be a number"@,
                ConfigError::ClippingOutOfRange => "Clipping percentage must be between 0 and 100"@,
                ConfigError::VadRatioOutOfRange => "VAD ratio must be between 0 and 1"@,
                ConfigError::UnknownKey => "Unknown configuration key"@,
            },
    {
        match self {
            ConfigError::InvalidEndpoint => "API endpoint must start with http:// or https://".to_owned(),
            ConfigError::ZeroTimeout => "API timeout must be greater than 0".to_owned(),
            ConfigError::ZeroSampleRate => "Sample rate must be greater than 0".to_owned(),
            ConfigError::ZeroChannels => "Channel count must be greater than 0".to_owned(),
            ConfigError::InvalidNumber => "Invalid value, must be a positive integer".to_owned(),
            ConfigError::InvalidFlag => "Invalid value, must be true or false".to_owned(),
            ConfigError::InvalidDecimal => "Invalid value, must be a number".to_owned(),
            ConfigError::ClippingOutOfRange => "Clipping percentage must be between 0 and 100".to_owned(),
            ConfigError::VadRatioOutOfRange => "VAD ratio must be between 0 and 1".to_owned(),
            ConfigError::UnknownKey => "Unknown configuration key".to_owned(),
        }
    }
}

/// Whether an endpoint names the scheme of the service.
pub open spec fn endpoint_ok(endpoint: Seq<char>) -> bool {
    begins_with(endpoint, "http://"@) || begins_with(endpoint, "https://"@)
}

/// Whether an endpoint names the scheme of the service.
pub fn check_endpoint(endpoint: &str) -> (ok: bool)
    ensures
        ok == endpoint_ok(endpoint@),
{
    starts_with(endpoint, "http://") || starts_with(endpoint, "https://")
}

/// What a key holds.
pub enum KeyKind {
    /// The endpoint: a text that names its scheme.
    Endpoint,
    /// A whole number of at most `limit`.
    Unsigned { limit: nat },
    /// `true` or `false`.
    Flag,
    /// A decimal number in thousandths, between `min` and `max`.
    Decimal { min: int, max: int, out_of_range: ConfigError },
}

/// The kind of the value of a key, or `None` for an unknown key.
pub open spec fn kind_of(key: Seq<char>) -> Option<KeyKind> {
    if key == "api.endpoint"@ {
        Some(KeyKind::Endpoint)
    } else if key == "api.timeout_secs"@ {
        Some(KeyKind::Unsigned { limit: u64::MAX as nat })
    } else if key == "storage.auto_upload"@ {
        Some(KeyKind::Flag)
    } else if key == "audio.sample_rate"@ {
        Some(KeyKind::Unsigned { limit: u32::MAX as nat })
    } else if key == "audio.channels"@ {
        Some(KeyKind::Unsigned { limit: u16::MAX as nat })
    } else if key == "audio.min_snr_db"@ {
        Some(
            KeyKind::Decimal {
                min: -i64::MAX,
                max: i64::MAX as int,
                out_of_range: ConfigError::InvalidDecimal,
            },
        )
    } else if key == "audio.max_clipping_pct"@ {
        Some(KeyKind::Decimal { min: 0, max: 100_000, out_of_range: ConfigError::ClippingOutOfRange })
    } else if key == "audio.min_vad_ratio"@ {
        Some(KeyKind::Decimal { min: 0, max: 1_000, out_of_range: ConfigError::VadRatioOutOfRange })
    } else if key == "upload.max_retries"@ {
        Some(KeyKind::Unsigned { limit: u32::MAX as nat })
    } else if key == "upload.retry_delay_secs"@ {
        Some(KeyKind::Unsigned { limit: u64::MAX as nat })
    } else if key == "upload.chunk_size"@ {
        Some(KeyKind::Unsigned { limit: usize::MAX as nat })
    } else {
        None
    }
}

/// Why the text of a value is refused for a key of this kind, if it is.
pub open spec fn refused(kind: KeyKind, value: Seq<char>) -> Option<ConfigError> {
    match kind {
        KeyKind::Endpoint => if endpoint_ok(value) {
            None
        } else {
            Some(ConfigError::InvalidEndpoint)
        },
        KeyKind::Unsigned { limit } => if unsigned_of(value, limit) is Some {
            None
        } else {
            Some(ConfigError::InvalidNumber)
        },
        KeyKind::Flag => if flag_of(value) is Some {
            None
        } else {
            Some(ConfigError::InvalidFlag)
        },
        KeyKind::Decimal { min, max, out_of_range } => match thousandths_of(value) {
            Some(n) => if min <= n <= max {
                None
            } else {
                Some(out_of_range)
            },
            None => Some(ConfigError::InvalidDecimal),
        },
    }
}

/// The whole number a text writes, or 0.
pub open spec fn unsigned_or_zero(value: Seq<char>, max: nat) -> nat {
    match unsigned_of(value, max) {
        Some(n) => n,
        None => 0,
    }
}

/// The decimal number a text writes, in thousandths, or 0.
pub open spec fn thousandths_or_zero(value: Seq<char>) -> int {
    match thousandths_of(value) {
        Some(n) => n,
        None => 0,
    }
}

/// Whether `after` is `before` with the value of `key` set to what `value`
/// writes, and with nothing else changed.
pub open spec fn holds_value(before: Config, after: Config, key: Seq<char>, value: Seq<char>) -> bool {
    &&& after.api.endpoint@ == if key == "api.endpoint"@ {
        value
    } else {
        before.api.endpoint@
    }
    &&& after.api.timeout_secs == if key == "api.timeout_secs"@ {
        unsigned_or_zero(value, u64::MAX as nat)
    } else {
        before.api.timeout_secs as nat
    }
    &&& after.storage.data_dir == before.storage.data_dir
    &&& after.storage.auto_upload == if key == "storage.auto_upload"@ {
        flag_of(value) == Some(true)
    } else {
        before.storage.auto_upload
    }
    &&& after.audio.sample_rate == if key == "audio.sample_rate"@ {
        unsigned_or_zero(value, u32::MAX as nat)
    } else {
        before.audio.sample_rate as nat
    }
    &&& after.audio.channels == if key == "audio.channels"@ {
        unsigned_or_zero(value, u16::MAX as nat)
    } else {
        before.audio.channels as nat
    }
    &&& after.audio.min_snr_db == if key == "audio.min_snr_db"@ {
        thousandths_or_zero(value)
    } else {
        before.audio.min_snr_db as int
    }
    &&& after.audio.max_clipping_pct == if key == "audio.max_clipping_pct"@ {
        thousandths_or_zero(value)
    } else {
        before.audio.max_clipping_pct as int
    }
    &&& after.audio.min_vad_ratio == if key == "audio.min_vad_ratio"@ {
        thousandths_or_zero(value)
    } else {
        before.audio.min_vad_ratio as int
    }
    &&& after.upload.max_retries == if key == "upload.max_retries"@ {
        unsigned_or_zero(value, u32::MAX as nat)
    } else {
        before.upload.max_retries as nat
    }
    &&& after.upload.retry_delay_secs == if key == "upload.retry_delay_secs"@ {
        unsigned_or_zero(value, u64::MAX as nat)
    } else {
        before.upload.retry_delay_secs as nat
    }
    &&& after.upload.chunk_size == if key == "upload.chunk_size"@ {
        unsigned_or_zero(value, usize::MAX as nat)
    } else {
        before.upload.chunk_size as nat
    }
}

/// What `set_value` does. An unknown key and a refused value fail and
/// change nothing. Else the value is set, and the outcome is that of checking
/// the configuration it was set in.
pub open spec fn value_set(
    before: Config,
    after: Config,
    key: Seq<char>,
    value: Seq<char>,
    done: Result<(), ConfigError>,
) -> bool {
    match kind_of(key) {
        None => after == before && done == Err::<(), ConfigError>(ConfigError::UnknownKey),
        Some(kind) => match refused(kind, value) {
            Some(e) => after == before && done == Err::<(), ConfigError>(e),
            None => holds_value(before, after, key, value) && done == after.validated(),
        },
    }
}

impl ApiConfig {
    /// The address of a route of the service: the endpoint followed by the
    /// route.
    pub fn url_for(&self, route: &str) -> (url: String)
        ensures
            url@ == self.endpoint@ + route@,
    {
        self.endpoint.clone().concat(route)
    }
}

impl Config {
    /// What `validate` finds: the first of the four rules that is broken.
    pub open spec fn validated(&self) -> Result<(), ConfigError> {
        if !endpoint_ok(self.api.endpoint@) {
            Err(ConfigError::InvalidEndpoint)
        } else if self.api.timeout_secs == 0 {
            Err(ConfigError::ZeroTimeout)
        } else if self.audio.sample_rate == 0 {
            Err(ConfigError::ZeroSampleRate)
        } else if self.audio.channels == 0 {
            Err(ConfigError::ZeroChannels)
        } else {
            Ok(())
        }
    }

    /// Checks the configuration: the endpoint names its scheme, and the
    /// timeout, the sample rate and the channel count are positive.
    pub fn validate(&self) -> (checked: Result<(), ConfigError>)
        ensures
            checked == self.validated(),
    {
        if !check_endpoint(self.api.endpoint.as_str()) {
            return Err(ConfigError::InvalidEndpoint);
        }
        if self.api.timeout_secs == 0 {
            return Err(ConfigError::ZeroTimeout);
        }
        if self.audio.sample_rate == 0 {
            return Err(ConfigError::ZeroSampleRate);
        }
        if self.audio.channels == 0 {
            return Err(ConfigError::ZeroChannels);
        }
        Ok(())
    }

    /// The data directory.
    pub fn data_dir(&self) -> (dir: &std::path::PathBuf)
        ensures
            *dir == self.storage.data_dir,
    {
        &self.storage.data_dir
    }

    /// The directory of the recordings: `recordings`, joined to the data
    /// directory.
    pub fn recordings_dir(&self) -> (dir: std::path::PathBuf)
        ensures
            dir == joined_path(self.storage.data_dir, "recordings"@),
    {
        path_join(&self.storage.data_dir, "recordings")
    }

    /// The database file: `cowcow.db`, joined to the data directory.
    pub fn database_path(&self) -> (file: std::path::PathBuf)
        ensures
            file == joined_path(self.storage.data_dir, "cowcow.db"@),
    {
        path_join(&self.storage.data_dir, "cowcow.db")
    }

    /// The credentials file: `credentials.json`, joined to the data
    /// directory.
    pub fn credentials_path(&self) -> (file: std::path::PathBuf)
        ensures
            file == joined_path(self.storage.data_dir, "credentials.json"@),
    {
        path_join(&self.storage.data_dir, "credentials.json")
    }

    /// Sets the value of one key from its text, then checks the whole
    /// configuration. A value that cannot be read, or that is out of the
    /// range of its key, changes nothing. A value that was set stays set even
    /// where the check of the configuration then fails.
    pub fn set_value(&mut self, key: &str, value: &str) -> (done: Result<(), ConfigError>)
        ensures
            value_set(*old(self), *final(self), key@, value@, done),
    {
        proof {
            reveal_strlit("api.endpoint");
            reveal_strlit("api.timeout_secs");
            reveal_strlit("storage.auto_upload");
            reveal_strlit("audio.sample_rate");
            reveal_strlit("audio.channels");
            reveal_strlit("audio.min_snr_db");
            reveal_strlit("audio.max_clipping_pct");
            reveal_strlit("audio.min_vad_ratio");
            reveal_strlit("upload.max_retries");
            reveal_strlit("upload.retry_delay_secs");
            reveal_strlit("upload.chunk_size");
            assert("api.endpoint"@.len() == 12);
            assert("api.timeout_secs"@.len() == 16 && "api.timeout_secs"@[1] == 'p');
            assert("storage.auto_upload"@.len() == 19 && "storage.auto_upload"@[0] == 's');
            assert("audio.sample_rate"@.len() == 17 && "audio.sample_rate"@[0] == 'a');
            assert("audio.channels"@.len() == 14);
            assert("audio.min_snr_db"@.len() == 16 && "audio.min_snr_db"@[1] == 'u');
            assert("audio.max_clipping_pct"@.len() == 22);
            assert("audio.min_vad_ratio"@.len() == 19 && "audio.min_vad_ratio"@[0] == 'a');
            assert("upload.max_retries"@.len() == 18);
            assert("upload.retry_delay_secs"@.len() == 23);
            assert("upload.chunk_size"@.len() == 17 && "upload.chunk_size"@[0] == 'u');
        }
        if same_text(key, "api.endpoint") {
            if !check_endpoint(value) {
                return Err(ConfigError::InvalidEndpoint);
            }
            self.api.endpoint = value.to_owned();
        } else if same_text(key, "api.timeout_secs") {
            match parse_unsigned(value, u64::MAX) {
                Some(n) => {
                    self.api.timeout_secs = n;
                },
                None => {
                    return Err(ConfigError::InvalidNumber);
                },
            }
        } else if same_text(key, "storage.auto_upload") {
            match parse_flag(value) {
                Some(flag) => {
                    self.storage.auto_upload = flag;
                },
                None => {
                    return Err(ConfigError::InvalidFlag);
                },
            }
        } else if same_text(key, "audio.sample_rate") {
            match parse_unsigned(value, u32::MAX as u64) {
                Some(n) => {
                    self.audio.sample_rate = n as u32;
                },
                None => {
                    return Err(ConfigError::InvalidNumber);
                },
            }
        } else if same_text(key, "audio.channels") {
            match parse_unsigned(value, u16::MAX as u64) {
                Some(n) => {
                    self.audio.channels = n as u16;
                },
                None => {
                    return Err(ConfigError::InvalidNumber);
                },
            }
        } else if same_text(key, "audio.min_snr_db") {
            match parse_thousandths(value) {
                Some(n) => {
                    self.audio.min_snr_db = n;
                },
                None => {
                    return Err(ConfigError::InvalidDecimal);
                },
            }
        } else if same_text(key, "audio.max_clipping_pct") {
            match parse_thousandths(value) {
                Some(n) => {
                    if n < 0 || n > 100_000 {
                        return Err(ConfigError::ClippingOutOfRange);
                    }
                    self.audio.max_clipping_pct = n as u32;
                },
                None => {
                    return Err(ConfigError::InvalidDecimal);
                },
            }
        } else if same_text(key, "audio.min_vad_ratio") {
            match parse_thousandths(value) {
                Some(n) => {
                    if n < 0 || n > 1_000 {
                        return Err(ConfigError::VadRatioOutOfRange);
                    }
                    self.audio.min_vad_ratio = n as u32;
                },
                None => {
                    return Err(ConfigError::InvalidDecimal);
                },
            }
        } else if same_text(key, "upload.max_retries") {
            match parse_unsigned(value, u32::MAX as u64) {
                Some(n) => {
                    self.upload.max_retries = n as u32;
                },
                None => {
                    return Err(ConfigError::InvalidNumber);
                },
            }
        } else if same_text(key, "upload.retry_delay_secs") {
            match parse_unsigned(value, u64::MAX) {
                Some(n) => {
                    self.upload.retry_delay_secs = n;
                },
                None => {
                    return Err(ConfigError::InvalidNumber);
                },
            }
        } else if same_text(key, "upload.chunk_size") {
            match parse_unsigned(value, usize::MAX as u64) {
                Some(n) => {
                    self.upload.chunk_size = n as usize;
                },
                None => {
                    return Err(ConfigError::InvalidNumber);
                },
            }
        } else {
            return Err(ConfigError::UnknownKey);
        }
        self.validate()
    }

    /// The keys that `set_value` knows.
    pub fn get_available_keys() -> (keys: Vec<&'static str>)
        ensures
            keys@.len() == 11,
            keys@[0]@ == "api.endpoint"@,
            keys@[1]@ == "api.timeout_secs"@,
            keys@[2]@ == "storage.auto_upload"@,
            keys@[3]@ == "audio.sample_rate"@,
            keys@[4]@ == "audio.channels"@,
            keys@[5]@ == "audio.min_snr_db"@,
            keys@[6]@ == "audio.max_clipping_pct"@,
            keys@[7]@ == "audio.min_vad_ratio"@,
            keys@[8]@ == "upload.max_retries"@,
            keys@[9]@ == "upload.retry_delay_secs"@,
            keys@[10]@ == "upload.chunk_size"@,
    {
        let mut keys: Vec<&'static str> = Vec::new();
        keys.push("api.endpoint");
        keys.push("api.timeout_secs");
        keys.push("storage.auto_upload");
        keys.push("audio.sample_rate");
        keys.push("audio.channels");
        keys.push("audio.min_snr_db");
        keys.push("audio.max_clipping_pct");
        keys.push("audio.min_vad_ratio");
        keys.push("upload.max_retries");
        keys.push("upload.retry_delay_secs");
        keys.push("upload.chunk_size");
        keys
    }
}

impl Default for Config {
    /// The configuration of a fresh installation: the service on this
    /// machine, data in `.cowcow` below the home directory (below the
    /// working directory where there is no home), mono audio at 16 kHz, and
    /// a gate of 20 dB, 1 % clipping and 80 % voice activity.
    fn default() -> (config: Config)
        ensures
            config.api.endpoint@ == "http://localhost:8000"@,
            config.api.timeout_secs == 30,
            !config.storage.auto_upload,
            config.audio == (AudioConfig {
                sample_rate: 16000,
                channels: 1,
                min_snr_db: 20_000,
                max_clipping_pct: 1_000,
                min_vad_ratio: 80_000,
            }),
            config.upload == (UploadConfig {
                max_retries: 3,
                retry_delay_secs: 2,
                chunk_size: 1_048_576,
            }),
    {
        let home: std::path::PathBuf = match home_dir() {
            Some(home) => home,
            None => path_from("."),
        };
        Config {
            api: ApiConfig { endpoint: "http://localhost:8000".to_owned(), timeout_secs: 30 },
            storage: StorageConfig { data_dir: path_join(&home, ".cowcow"), auto_upload: false },
            audio: AudioConfig {
                sample_rate: 16000,
                channels: 1,
                min_snr_db: 20_000,
                max_clipping_pct: 1_000,
                min_vad_ratio: 80_000,
            },
            upload: UploadConfig { max_retries: 3, retry_delay_secs: 2, chunk_size: 1_048_576 },
        }
    }
}

/// How long a login lasts, in seconds: one day.
pub const LOGIN_LIFETIME_SECS: u64 = 86_400;

/// What the service answers to a login.
#[derive(Debug)]
pub struct LoginResponse {
    pub access_token: String,
    pub token_type: String,
    pub api_key: String,
}

/// What a login leaves behind: the tokens, and when they expire.
#[derive(Debug)]
pub struct Credentials {
    pub access_token: Option<String>,
    pub api_key: Option<String>,
    pub username: Option<String>,
    /// Expiry, seconds since the epoch.
    pub expires_at: Option<u64>,
}

/// A copy of a text that may be absent.
fn clone_text(text: &Option<String>) -> (copy: Option<String>)
    ensures
        copy == *text,
{
    match text {
        Some(text) => Some(text.clone()),
        None => None,
    }
}

impl Clone for Credentials {
    fn clone(&self) -> (copy: Credentials)
        ensures
            copy == *self,
    {
        Credentials {
            access_token: clone_text(&self.access_token),
            api_key: clone_text(&self.api_key),
            username: clone_text(&self.username),
            expires_at: self.expires_at,
        }
    }
}

impl Credentials {
    /// The credentials that a login at `now` leaves behind: the tokens of
    /// the answer under the name of the user, valid for one day.
    pub fn from_login(response: LoginResponse, username: String, now: u64) -> (credentials:
        Credentials)
        requires
            now + LOGIN_LIFETIME_SECS <= u64::MAX,
        ensures
            credentials.access_token == Some(response.access_token),
            credentials.api_key == Some(response.api_key),
            credentials.username == Some(username),
            credentials.expires_at == Some((now + LOGIN_LIFETIME_SECS) as u64),
            forall|at: u64| credentials.valid_at(at) <==> at < now + LOGIN_LIFETIME_SECS,
    {
        Credentials {
            access_token: Some(response.access_token),
            api_key: Some(response.api_key),
            username: Some(username),
            expires_at: Some(now + LOGIN_LIFETIME_SECS),
        }
    }

    /// Whether the credentials are valid at `now`: they have an expiry, and
    /// it lies after `now`.
    pub open spec fn valid_at(&self, now: u64) -> bool {
        self.expires_at matches Some(expires_at) && expires_at > now
    }

    /// Whether the credentials are valid at `now`, seconds since the epoch.
    pub fn is_valid_at(&self, now: u64) -> (valid: bool)
        ensures
            valid == self.valid_at(now),
    {
        match self.expires_at {
            Some(expires_at) => expires_at > now,
            None => false,
        }
    }

    /// Whether the credentials are valid now. Credentials without an
    /// expiry are never valid; nor are any while the clock of the machine
    /// stands before the epoch.
    pub fn is_valid(&self) -> (valid: bool)
        ensures
            valid ==> exists|now: u64| self.valid_at(now),
            self.expires_at is None ==> !valid,
    {
        match since_epoch() {
            Some(elapsed) => {
                let now: u64 = whole_secs(&elapsed);
                self.is_valid_at(now)
            },
            None => false,
        }
    }
}

} // verus!
