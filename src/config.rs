//! Where the server listens: a host and a port, each with a default.
use vstd::prelude::*;
use crate::decimal::{is_number_upto, decimal_value, unsigned_digits, parse_decimal};

verus! {

/// Why a configuration could not be formed.
#[derive(Debug, Clone, Copy, PartialEq, Eq, Structural)]
pub enum ConfigError {
    /// The port is not a number from 0 to 65535.
    InvalidPort,
}

/// The address the server binds to.
#[derive(Debug, Clone)]
pub struct Config {
    pub server_host: String,
    pub server_port: u16,
}

pub const DEFAULT_PORT: u16 = 1337;

pub open spec fn default_host() -> Seq<char> {
    "127.0.0.1"@
}

impl Config {
    /// Forms the configuration from the host and port settings, where they are
    /// given; a missing host is `127.0.0.1`, a missing port 1337.
    pub fn new(host: Option<String>, port: Option<String>) -> (r: Result<Config, ConfigError>)
        ensures
            match port {
                None => r matches Ok(c) && c.server_port == DEFAULT_PORT,
                Some(p) => if is_number_upto(p@, 65535) {
                    r matches Ok(c) && c.server_port == decimal_value(unsigned_digits(p@))
                } else {
                    r == Err::<Config, ConfigError>(ConfigError::InvalidPort)
                },
            },
            r matches Ok(c) ==> c.server_host@ == match host {
                Some(h) => h@,
                None => default_host(),
            },
    {
        let server_port = match port {
            None => DEFAULT_PORT,
            Some(p) => match parse_decimal(p.as_str(), 65535) {
                Some(v) => v as u16,
                None => {
                    return Err(ConfigError::InvalidPort);
                },
            },
        };
        let server_host = match host {
            Some(h) => h,
            None => String::from_str("127.0.0.1"),
        };
        Ok(Config { server_host, server_port })
    }
}

} // verus!
