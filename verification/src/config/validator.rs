//! The checks a configuration must pass, with the message each failure
//! reports.
use super::{BackendConfig, Config};
use crate::text::{decimal, push_decimal, push_str};
use vstd::prelude::*;

verus! {

/// Why a configuration was refused.
#[derive(Debug, Clone, Copy, PartialEq, Eq, Structural)]
pub enum ConfigError {
    NoBackends,
    InvalidListenPort(u16),
    InvalidBackendPort(u16),
    EmptyBackendHost,
    ZeroBackendWeight,
    ZeroHealthInterval,
    ZeroMaxFailures,
}

/// The message reported for each refusal.
pub open spec fn error_message(e: ConfigError) -> Seq<char> {
    match e {
        ConfigError::NoBackends => "At least one backend server is required"@,
        ConfigError::InvalidListenPort(p) => "Invalid listen port: "@ + decimal(p as nat),
        ConfigError::InvalidBackendPort(p) => "Invalid backend port: "@ + decimal(p as nat),
        ConfigError::EmptyBackendHost => "Backend host cannot be empty"@,
        ConfigError::ZeroBackendWeight => "Backend weight must be greater than 0"@,
        ConfigError::ZeroHealthInterval => "Health check interval must be greater than 0"@,
        ConfigError::ZeroMaxFailures => "Health check max failures must be greater than 0"@,
    }
}

impl ConfigError {
    pub fn message(&self) -> (s: String)
        ensures
            s@ == error_message(*self),
    {
        let mut s = String::new();
        match self {
            ConfigError::NoBackends => push_str(&mut s, "At least one backend server is required"),
            ConfigError::InvalidListenPort(p) => {
                push_str(&mut s, "Invalid listen port: ");
                push_decimal(&mut s, *p as u64);
            },
            ConfigError::InvalidBackendPort(p) => {
                push_str(&mut s, "Invalid backend port: ");
                push_decimal(&mut s, *p as u64);
            },
            ConfigError::EmptyBackendHost => push_str(&mut s, "Backend host cannot be empty"),
            ConfigError::ZeroBackendWeight => push_str(&mut s, "Backend weight must be greater than 0"),
            ConfigError::ZeroHealthInterval => push_str(
                &mut s,
                "Health check interval must be greater than 0",
            ),
            ConfigError::ZeroMaxFailures => push_str(
                &mut s,
                "Health check max failures must be greater than 0",
            ),
        }
        assert(s@ =~= error_message(*self));
        s
    }
}

/// The first problem with a list of backends, each checked for its port,
/// then its host, then its weight, in list order.
pub open spec fn backend_error(bs: Seq<BackendConfig>) -> Option<ConfigError>
    decreases bs.len(),
{
    if bs.len() == 0 {
        None
    } else if bs[0].port == 0 {
        Some(ConfigError::InvalidBackendPort(bs[0].port))
    } else if bs[0].host@.len() == 0 {
        Some(ConfigError::EmptyBackendHost)
    } else if bs[0].weight == 0 {
        Some(ConfigError::ZeroBackendWeight)
    } else {
        backend_error(bs.drop_first())
    }
}

/// The first problem with a configuration, in the order the checks run:
/// backends present, listen port, each backend, health check interval and
/// failure limit.
pub open spec fn config_error(c: Config) -> Option<ConfigError> {
    if c.backends@.len() == 0 {
        Some(ConfigError::NoBackends)
    } else if c.listen_port == 0 {
        Some(ConfigError::InvalidListenPort(c.listen_port))
    } else if backend_error(c.backends@) is Some {
        backend_error(c.backends@)
    } else if c.health_check.interval_ms == 0 {
        Some(ConfigError::ZeroHealthInterval)
    } else if c.health_check.max_failures == 0 {
        Some(ConfigError::ZeroMaxFailures)
    } else {
        None
    }
}

pub struct ConfigValidator;

impl ConfigValidator {
    /// Refuses a configuration with the first problem `config_error` finds.
    pub fn validate(config: &Config) -> (r: Result<(), ConfigError>)
        ensures
            match config_error(*config) {
                Some(e) => r == Err::<(), ConfigError>(e),
                None => r is Ok,
            },
    {
        if config.backends.len() == 0 {
            return Err(ConfigError::NoBackends);
        }
        if config.listen_port == 0 {
            return Err(ConfigError::InvalidListenPort(config.listen_port));
        }
        let ghost bs = config.backends@;
        let mut i: usize = 0;
        assert(bs.skip(0) =~= bs);
        while i < config.backends.len()
            invariant
                bs == config.backends@,
                bs.len() > 0,
                config.listen_port != 0,
                i <= bs.len(),
                backend_error(bs) == backend_error(bs.skip(i as int)),
            decreases config.backends.len() - i,
        {
            let b = &config.backends[i];
            assert(bs.skip(i as int)[0] == bs[i as int]);
            assert(bs.skip(i as int).drop_first() =~= bs.skip(i + 1));
            if b.port == 0 {
                return Err(ConfigError::InvalidBackendPort(b.port));
            }
            if b.host.as_str().is_empty() {
                return Err(ConfigError::EmptyBackendHost);
            }
            if b.weight == 0 {
                return Err(ConfigError::ZeroBackendWeight);
            }
            i = i + 1;
        }
        if config.health_check.interval_ms == 0 {
            return Err(ConfigError::ZeroHealthInterval);
        }
        if config.health_check.max_failures == 0 {
            return Err(ConfigError::ZeroMaxFailures);
        }
        Ok(())
    }
}

} // verus!
