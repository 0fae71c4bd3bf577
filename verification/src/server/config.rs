//! Service limits, read from environment variables with defaults.
use vstd::prelude::*;

use crate::text::{parse_unsigned, parse_unsigned_decimal};

verus! {

pub const DEFAULT_PORT: u16 = 4000;
pub const DEFAULT_MAX_UPLOAD_BYTES: usize = 26214400;
pub const DEFAULT_MAX_PIXELS: u64 = 80000000;
pub const DEFAULT_MAX_CONCURRENCY: usize = 2;
pub const DEFAULT_QUEUE_TIMEOUT_SECONDS: u64 = 10;
pub const DEFAULT_TIMEOUT_SECONDS: u64 = 120;
pub const MULTIPART_OVERHEAD_BYTES: usize = 1048576;

/// Limits of the conversion service. Time limits are whole seconds.
#[derive(Clone, Copy, Debug, PartialEq, Eq, Structural)]
pub struct ServerConfig {
    pub max_upload_bytes: usize,
    pub max_pixels: u64,
    pub max_concurrency: usize,
    pub queue_timeout_seconds: u64,
    pub conversion_timeout_seconds: u64,
}

/// One environment variable as the process found it.
#[derive(Debug)]
pub enum EnvValue {
    Missing,
    Present(String),
    NotUnicode,
}

/// The environment variables the service reads its limits from.
#[derive(Debug)]
pub struct ConfigEnv {
    /// `CONVERT_QUEUE_TIMEOUT_SECONDS`
    pub queue_timeout_seconds: EnvValue,
    /// `CONVERT_TIMEOUT_SECONDS`
    pub timeout_seconds: EnvValue,
    /// `CONVERT_MAX_UPLOAD_BYTES`
    pub max_upload_bytes: EnvValue,
    /// `CONVERT_MAX_PIXELS`
    pub max_pixels: EnvValue,
    /// `CONVERT_MAX_CONCURRENCY`
    pub max_concurrency: EnvValue,
}

/// Why the configuration could not be read.
#[derive(Debug)]
pub enum ConfigError {
    /// The variable is set but is not Unicode.
    NotUnicode { name: String },
    /// The variable is not a number of the expected type.
    InvalidNumber { name: String, value: String },
}

/// A variable read as a number: missing means the default, a value must
/// parse as an unsigned number no larger than `max`.
pub open spec fn env_number(value: EnvValue, default: nat, max: nat) -> Option<nat> {
    match value {
        EnvValue::Missing => Some(default),
        EnvValue::Present(s) => parse_unsigned(s@, max),
        EnvValue::NotUnicode => None,
    }
}

/// The error reported for a variable that could not be read.
pub open spec fn env_error_matches(e: ConfigError, name: Seq<char>, value: EnvValue) -> bool {
    match value {
        EnvValue::Present(s) => e matches ConfigError::InvalidNumber { name: n, value: v } && n@
            == name && v@ == s@,
        _ => e matches ConfigError::NotUnicode { name: n } && n@ == name,
    }
}

pub open spec fn max_nat(a: nat, b: nat) -> nat {
    if a >= b {
        a
    } else {
        b
    }
}

/// Reads one numeric variable.
pub fn parse_env_number(name: &str, value: &EnvValue, default: u64, max: u64) -> (r: Result<
    u64,
    ConfigError,
>)
    requires
        default <= max,
    ensures
        match env_number(*value, default as nat, max as nat) {
            Some(n) => r == Ok::<u64, ConfigError>(n as u64),
            None => r matches Err(e) && env_error_matches(e, name@, *value),
        },
{
    match value {
        EnvValue::Missing => Ok(default),
        EnvValue::Present(s) => match parse_unsigned_decimal(s.as_str(), max) {
            Some(n) => Ok(n),
            None => Err(ConfigError::InvalidNumber { name: name.to_owned(), value: s.clone() }),
        },
        EnvValue::NotUnicode => Err(ConfigError::NotUnicode { name: name.to_owned() }),
    }
}

impl Default for ServerConfig {
    fn default() -> (c: Self)
        ensures
            c == (ServerConfig {
                max_upload_bytes: DEFAULT_MAX_UPLOAD_BYTES,
                max_pixels: DEFAULT_MAX_PIXELS,
                max_concurrency: DEFAULT_MAX_CONCURRENCY,
                queue_timeout_seconds: DEFAULT_QUEUE_TIMEOUT_SECONDS,
                conversion_timeout_seconds: DEFAULT_TIMEOUT_SECONDS,
            }),
    {
        ServerConfig {
            max_upload_bytes: DEFAULT_MAX_UPLOAD_BYTES,
            max_pixels: DEFAULT_MAX_PIXELS,
            max_concurrency: DEFAULT_MAX_CONCURRENCY,
            queue_timeout_seconds: DEFAULT_QUEUE_TIMEOUT_SECONDS,
            conversion_timeout_seconds: DEFAULT_TIMEOUT_SECONDS,
        }
    }
}

impl ServerConfig {
    /// The limits the environment asks for. Variables are read in the order
    /// queue timeout, conversion timeout, upload size, pixels, concurrency;
    /// the first that cannot be read is the error. Concurrency and both
    /// timeouts are raised to at least one.
    pub fn from_env(env: &ConfigEnv) -> (r: Result<Self, ConfigError>)
        ensures
            ({
                let q = env_number(env.queue_timeout_seconds, 10, u64::MAX as nat);
                let t = env_number(env.timeout_seconds, 120, u64::MAX as nat);
                let u = env_number(env.max_upload_bytes, 26214400, usize::MAX as nat);
                let p = env_number(env.max_pixels, 80000000, u64::MAX as nat);
                let c = env_number(env.max_concurrency, 2, usize::MAX as nat);
                if q is None {
                    r matches Err(e) && env_error_matches(
                        e,
                        "CONVERT_QUEUE_TIMEOUT_SECONDS"@,
                        env.queue_timeout_seconds,
                    )
                } else if t is None {
                    r matches Err(e) && env_error_matches(
                        e,
                        "CONVERT_TIMEOUT_SECONDS"@,
                        env.timeout_seconds,
                    )
                } else if u is None {
                    r matches Err(e) && env_error_matches(
                        e,
                        "CONVERT_MAX_UPLOAD_BYTES"@,
                        env.max_upload_bytes,
                    )
                } else if p is None {
                    r matches Err(e) && env_error_matches(e, "CONVERT_MAX_PIXELS"@, env.max_pixels)
                } else if c is None {
                    r matches Err(e) && env_error_matches(
                        e,
                        "CONVERT_MAX_CONCURRENCY"@,
                        env.max_concurrency,
                    )
                } else {
                    r matches Ok(cfg) && cfg.max_upload_bytes == u->0 && cfg.max_pixels == p->0
                        && cfg.max_concurrency == max_nat(c->0, 1) && cfg.queue_timeout_seconds
                        == max_nat(q->0, 1) && cfg.conversion_timeout_seconds == max_nat(t->0, 1)
                }
            }),
    {
        let queue = parse_env_number(
            "CONVERT_QUEUE_TIMEOUT_SECONDS",
            &env.queue_timeout_seconds,
            DEFAULT_QUEUE_TIMEOUT_SECONDS,
            u64::MAX,
        )?;
        let timeout = parse_env_number(
            "CONVERT_TIMEOUT_SECONDS",
            &env.timeout_seconds,
            DEFAULT_TIMEOUT_SECONDS,
            u64::MAX,
        )?;
        let upload = parse_env_number(
            "CONVERT_MAX_UPLOAD_BYTES",
            &env.max_upload_bytes,
            DEFAULT_MAX_UPLOAD_BYTES as u64,
            usize::MAX as u64,
        )?;
        let pixels = parse_env_number(
            "CONVERT_MAX_PIXELS",
            &env.max_pixels,
            DEFAULT_MAX_PIXELS,
            u64::MAX,
        )?;
        let concurrency = parse_env_number(
            "CONVERT_MAX_CONCURRENCY",
            &env.max_concurrency,
            DEFAULT_MAX_CONCURRENCY as u64,
            usize::MAX as u64,
        )?;
        Ok(
            ServerConfig {
                max_upload_bytes: upload as usize,
                max_pixels: pixels,
                max_concurrency: if concurrency >= 1 {
                    concurrency as usize
                } else {
                    1
                },
                queue_timeout_seconds: if queue >= 1 {
                    queue
                } else {
                    1
                },
                conversion_timeout_seconds: if timeout >= 1 {
                    timeout
                } else {
                    1
                },
            },
        )
    }
}

} // verus!
