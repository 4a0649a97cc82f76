use vstd::prelude::*;

verus! {

pub open spec fn is_digit(c: char) -> bool {
    '0' <= c && c <= '9'
}

/// The digits of an unsigned number's text: one leading `+` is allowed.
pub open spec fn unsigned_digits(s: Seq<char>) -> Seq<char> {
    if s.len() > 0 && s[0] == '+' {
        s.skip(1)
    } else {
        s
    }
}

/// Whether `s` is the text of an unsigned decimal number.
pub open spec fn is_unsigned_text(s: Seq<char>) -> bool {
    let d = unsigned_digits(s);
    &&& d.len() > 0
    &&& forall|i: int| 0 <= i < d.len() ==> is_digit(#[trigger] d[i])
}

pub open spec fn digits_value(d: Seq<char>) -> nat
    decreases d.len(),
{
    if d.len() == 0 {
        0
    } else {
        digits_value(d.drop_last()) * 10 + (d.last() as nat - '0' as nat) as nat
    }
}

/// The number that an unsigned decimal text denotes.
pub open spec fn unsigned_value(s: Seq<char>) -> nat {
    digits_value(unsigned_digits(s))
}

/// Relies on `str::parse::<u64>` (std's `FromStr` for `u64`): an optional
/// `+` followed by one or more ASCII digits, with no other character, whose
/// value fits in 64 bits; anything else is an error.
#[verifier::external_body]
fn parse_u64(s: &str) -> (r: Option<u64>)
    ensures
        r == (if is_unsigned_text(s@) && unsigned_value(s@) <= u64::MAX {
            Some(unsigned_value(s@) as u64)
        } else {
            None
        }),
{
    s.parse::<u64>().ok()
}

/// The value of a numeric setting: `default` when it is not set, else its
/// text read as a number of at most `max`; `None` when that fails.
pub open spec fn numeric_setting(text: Option<String>, default: u64, max: u64) -> Option<u64> {
    match text {
        None => Some(default),
        Some(t) => if is_unsigned_text(t@) && unsigned_value(t@) <= max {
            Some(unsigned_value(t@) as u64)
        } else {
            None
        },
    }
}

fn read_setting(text: &Option<String>, default: u64, max: u64) -> (r: Option<u64>)
    ensures
        r == numeric_setting(*text, default, max),
{
    match text {
        None => Some(default),
        Some(t) => match parse_u64(t.as_str()) {
            Some(v) => if v <= max {
                Some(v)
            } else {
                None
            },
            None => None,
        },
    }
}

pub const DEFAULT_APP_ID: &'static str = "Mira Network";
pub const DEFAULT_BATCH_SIZE: u64 = 500;
pub const DEFAULT_BATCH_TIMEOUT_SEC: u64 = 600;
pub const DEFAULT_QUEUE_MAX_SIZE: u64 = 10000;
pub const DEFAULT_PORT: u64 = 3000;

/// The settings as found, each `None` when it is not set.
pub struct RawSettings {
    pub rpc_url_http: Option<String>,
    pub rpc_url_ws: Option<String>,
    pub signer_private_key: Option<String>,
    pub app_id: Option<String>,
    pub batch_size: Option<String>,
    pub batch_timeout_sec: Option<String>,
    pub queue_max_size: Option<String>,
    pub port: Option<String>,
}

/// Why the settings do not make a configuration.
#[derive(Debug, Clone, Copy, PartialEq, Eq)]
pub enum ConfigError {
    MissingRpcUrlHttp,
    MissingRpcUrlWs,
    MissingSignerPrivateKey,
    InvalidBatchSize,
    InvalidBatchTimeout,
    InvalidQueueMaxSize,
    InvalidPort,
}

/// The sentence reported for each configuration error.
pub open spec fn config_error_text(e: ConfigError) -> Seq<char> {
    match e {
        ConfigError::MissingRpcUrlHttp => "RPC_URL_HTTP is required"@,
        ConfigError::MissingRpcUrlWs => "RPC_URL_WS is required"@,
        ConfigError::MissingSignerPrivateKey => "SIGNER_PRIVATE_KEY is required"@,
        ConfigError::InvalidBatchSize => "BATCH_SIZE must be a valid number"@,
        ConfigError::InvalidBatchTimeout => "BATCH_TIMEOUT_SEC must be a valid number"@,
        ConfigError::InvalidQueueMaxSize => "QUEUE_MAX_SIZE must be a valid number"@,
        ConfigError::InvalidPort => "PORT must be a valid number"@,
    }
}

impl ConfigError {
    /// A sentence for the operator.
    pub fn message(&self) -> (r: String)
        ensures
            r@ == config_error_text(*self),
    {
        match self {
            ConfigError::MissingRpcUrlHttp => String::from_str("RPC_URL_HTTP is required"),
            ConfigError::MissingRpcUrlWs => String::from_str("RPC_URL_WS is required"),
            ConfigError::MissingSignerPrivateKey => String::from_str("SIGNER_PRIVATE_KEY is required"),
            ConfigError::InvalidBatchSize => String::from_str("BATCH_SIZE must be a valid number"),
            ConfigError::InvalidBatchTimeout => String::from_str("BATCH_TIMEOUT_SEC must be a valid number"),
            ConfigError::InvalidQueueMaxSize => String::from_str("QUEUE_MAX_SIZE must be a valid number"),
            ConfigError::InvalidPort => String::from_str("PORT must be a valid number"),
        }
    }
}

/// The service's configuration.
#[derive(Clone, Debug)]
pub struct Config {
    pub rpc_url_http: String,
    pub rpc_url_ws: String,
    pub signer_private_key: String,
    pub app_id: String,
    pub batch_size: usize,
    pub batch_timeout_sec: u64,
    pub queue_max_size: usize,
    pub port: u16,
}

impl Config {
    /// Builds the configuration from the settings found. The three endpoint
    /// and key settings are required; the others have defaults (app id
    /// "Mira Network", batch size 500, batch timeout 600 s, queue bound
    /// 10000, port 3000). The first missing or unreadable setting, in the
    /// order of the fields, is the error.
    pub fn from_settings(raw: RawSettings) -> (r: Result<Config, ConfigError>)
        ensures
            raw.rpc_url_http is None ==> r == Err::<Config, ConfigError>(ConfigError::MissingRpcUrlHttp),
            raw.rpc_url_http is Some && raw.rpc_url_ws is None ==> r == Err::<Config, ConfigError>(
                ConfigError::MissingRpcUrlWs,
            ),
            raw.rpc_url_http is Some && raw.rpc_url_ws is Some && raw.signer_private_key is None ==> r
                == Err::<Config, ConfigError>(ConfigError::MissingSignerPrivateKey),
            ({
                let bs = numeric_setting(raw.batch_size, DEFAULT_BATCH_SIZE, usize::MAX as u64);
                let bt = numeric_setting(raw.batch_timeout_sec, DEFAULT_BATCH_TIMEOUT_SEC, u64::MAX);
                let qm = numeric_setting(raw.queue_max_size, DEFAULT_QUEUE_MAX_SIZE, usize::MAX as u64);
                let pt = numeric_setting(raw.port, DEFAULT_PORT, u16::MAX as u64);
                raw.rpc_url_http is Some && raw.rpc_url_ws is Some && raw.signer_private_key is Some ==> {
                    &&& bs is None ==> r == Err::<Config, ConfigError>(ConfigError::InvalidBatchSize)
                    &&& bs is Some && bt is None ==> r == Err::<Config, ConfigError>(
                        ConfigError::InvalidBatchTimeout,
                    )
                    &&& bs is Some && bt is Some && qm is None ==> r == Err::<Config, ConfigError>(
                        ConfigError::InvalidQueueMaxSize,
                    )
                    &&& bs is Some && bt is Some && qm is Some && pt is None ==> r == Err::<
                        Config,
                        ConfigError,
                    >(ConfigError::InvalidPort)
                    &&& bs is Some && bt is Some && qm is Some && pt is Some ==> (r matches Ok(c) && {
                        &&& c.rpc_url_http@ == raw.rpc_url_http.unwrap()@
                        &&& c.rpc_url_ws@ == raw.rpc_url_ws.unwrap()@
                        &&& c.signer_private_key@ == raw.signer_private_key.unwrap()@
                        &&& c.app_id@ == match raw.app_id {
                            Some(a) => a@,
                            None => DEFAULT_APP_ID@,
                        }
                        &&& c.batch_size == bs.unwrap()
                        &&& c.batch_timeout_sec == bt.unwrap()
                        &&& c.queue_max_size == qm.unwrap()
                        &&& c.port == pt.unwrap()
                    })
                }
            }),
    {
        let RawSettings {
            rpc_url_http,
            rpc_url_ws,
            signer_private_key,
            app_id,
            batch_size,
            batch_timeout_sec,
            queue_max_size,
            port,
        } = raw;
        let rpc_url_http = match rpc_url_http {
            Some(v) => v,
            None => return Err(ConfigError::MissingRpcUrlHttp),
        };
        let rpc_url_ws = match rpc_url_ws {
            Some(v) => v,
            None => return Err(ConfigError::MissingRpcUrlWs),
        };
        let signer_private_key = match signer_private_key {
            Some(v) => v,
            None => return Err(ConfigError::MissingSignerPrivateKey),
        };
        let app_id = match app_id {
            Some(v) => v,
            None => String::from_str(DEFAULT_APP_ID),
        };
        let batch_size = match read_setting(&batch_size, DEFAULT_BATCH_SIZE, usize::MAX as u64) {
            Some(v) => v as usize,
            None => return Err(ConfigError::InvalidBatchSize),
        };
        let batch_timeout_sec = match read_setting(&batch_timeout_sec, DEFAULT_BATCH_TIMEOUT_SEC, u64::MAX) {
            Some(v) => v,
            None => return Err(ConfigError::InvalidBatchTimeout),
        };
        let queue_max_size = match read_setting(&queue_max_size, DEFAULT_QUEUE_MAX_SIZE, usize::MAX as u64) {
            Some(v) => v as usize,
            None => return Err(ConfigError::InvalidQueueMaxSize),
        };
        let port = match read_setting(&port, DEFAULT_PORT, u16::MAX as u64) {
            Some(v) => v as u16,
            None => return Err(ConfigError::InvalidPort),
        };
        Ok(Config {
            rpc_url_http,
            rpc_url_ws,
            signer_private_key,
            app_id,
            batch_size,
            batch_timeout_sec,
            queue_max_size,
            port,
        })
    }
}

} // verus!
