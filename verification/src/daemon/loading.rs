//! From the configuration file and the command line to the configuration that the daemon runs
//! with.
use vstd::prelude::*;

use crate::daemon::config::{
    BridgeConfig, Cli, Config, ConfigError, ExecutorConfig, GeneratedTokens, ServerConfig,
};
use crate::daemon::token::{is_token, random_token};
use crate::web_address::parsed_address;

verus! {

/// `upper` where there is one, else `base`.
pub open spec fn preferred<T>(upper: Option<T>, base: T) -> T {
    match upper {
        Some(value) => value,
        None => base,
    }
}

/// `value`, but at least `least`.
pub open spec fn at_least(value: int, least: int) -> int {
    if value < least {
        least
    } else {
        value
    }
}

/// `value`, but within the given bounds.
pub open spec fn within(value: int, least: int, most: int) -> int {
    if value > most {
        most
    } else {
        at_least(value, least)
    }
}

impl Config {
    /// The configuration with what the command line says in place of what it has.
    pub open spec fn overridden(self, cli: Cli) -> Config {
        Config {
            server: ServerConfig {
                listen: preferred(cli.listen, self.server.listen),
                api_token: preferred(cli.api_token, self.server.api_token),
                ..self.server
            },
            bridge: BridgeConfig {
                listen: preferred(cli.bridge_listen, self.bridge.listen),
                extension_token: preferred(cli.extension_token, self.bridge.extension_token),
                ..self.bridge
            },
            executor: ExecutorConfig {
                max_concurrency: preferred(cli.max_concurrency, self.executor.max_concurrency),
                ..self.executor
            },
            search: self.search,
        }
    }

    /// The configuration with numbers that the daemon can work with.
    pub open spec fn bounded(self) -> Config {
        Config {
            executor: ExecutorConfig {
                max_concurrency: at_least(self.executor.max_concurrency as int, 1) as usize,
                max_queue_size: at_least(self.executor.max_queue_size as int, 1) as usize,
                max_timeout_ms: at_least(self.executor.max_timeout_ms as int, 1_000) as u64,
                load_timeout_ms: at_least(self.executor.load_timeout_ms as int, 1_000) as u64,
                selector_timeout_ms: at_least(self.executor.selector_timeout_ms as int, 250) as u64,
                ..self.executor
            },
            bridge: BridgeConfig {
                ping_interval_seconds: within(
                    self.bridge.ping_interval_seconds as int,
                    5,
                    300,
                ) as u64,
                ..self.bridge
            },
            ..self
        }
    }

    /// The configuration with the tokens that were generated for it.
    pub open spec fn equipped(self, generated: GeneratedTokens) -> Config {
        Config {
            server: ServerConfig {
                api_token: preferred(generated.api_token, self.server.api_token),
                ..self.server
            },
            bridge: BridgeConfig {
                extension_token: preferred(generated.extension_token, self.bridge.extension_token),
                ..self.bridge
            },
            ..self
        }
    }

    /// Takes over what the command line says and brings the numbers within their bounds.
    pub fn settled(self, cli: &Cli) -> (result: Config)
        ensures
            result == self.overridden(*cli).bounded(),
    {
        let mut config = self;
        match &cli.listen {
            Some(value) => {
                config.server.listen = value.clone();
            },
            None => {},
        }
        match &cli.bridge_listen {
            Some(value) => {
                config.bridge.listen = value.clone();
            },
            None => {},
        }
        match &cli.api_token {
            Some(value) => {
                config.server.api_token = value.clone();
            },
            None => {},
        }
        match &cli.extension_token {
            Some(value) => {
                config.bridge.extension_token = value.clone();
            },
            None => {},
        }
        match cli.max_concurrency {
            Some(value) => {
                config.executor.max_concurrency = value;
            },
            None => {},
        }
        config.executor.max_concurrency = config.executor.max_concurrency.max(1);
        config.executor.max_queue_size = config.executor.max_queue_size.max(1);
        config.executor.max_timeout_ms = config.executor.max_timeout_ms.max(1_000);
        config.executor.load_timeout_ms = config.executor.load_timeout_ms.max(1_000);
        config.executor.selector_timeout_ms = config.executor.selector_timeout_ms.max(250);
        config.bridge.ping_interval_seconds = config.bridge.ping_interval_seconds.max(5).min(300);
        config
    }

    /// Puts generated tokens in their places.
    pub fn equip(self, generated: &GeneratedTokens) -> (result: Config)
        ensures
            result == self.equipped(*generated),
    {
        let mut config = self;
        match &generated.api_token {
            Some(token) => {
                config.server.api_token = token.clone();
            },
            None => {},
        }
        match &generated.extension_token {
            Some(token) => {
                config.bridge.extension_token = token.clone();
            },
            None => {},
        }
        config
    }

    /// Makes the configuration that the daemon runs with from the one of the file, or the default
    /// where there is no file, and from the command line. Tokens that neither of them gives are
    /// generated, and handed out so that they can be shown.
    pub fn load(self, cli: &Cli) -> (result: Result<(Config, GeneratedTokens), ConfigError>)
        ensures
            ({
                let settled = self.overridden(*cli).bounded();
                match settled.search.fault(parsed_address(settled.search.common.base_url@)) {
                    Some((message, cause)) => {
                        &&& result matches Err(error)
                        &&& error.says(message, cause)
                    },
                    None => {
                        &&& result matches Ok((config, generated))
                        &&& config == settled.equipped(generated)
                        &&& generated.api_token is Some == (settled.server.api_token@.len() == 0)
                        &&& generated.api_token matches Some(token) ==> is_token(token@)
                        &&& generated.extension_token is Some == (
                        settled.bridge.extension_token@.len() == 0)
                        &&& generated.extension_token matches Some(token) ==> is_token(token@)
                    },
                }
            }),
    {
        let config = self.settled(cli);
        match config.search.validate() {
            Ok(()) => {},
            Err(error) => {
                return Err(error);
            },
        }
        let api_token = if config.server.api_token.as_str().is_empty() {
            Some(random_token())
        } else {
            None
        };
        let extension_token = if config.bridge.extension_token.as_str().is_empty() {
            Some(random_token())
        } else {
            None
        };
        let generated = GeneratedTokens { api_token, extension_token };
        Ok((config.equip(&generated), generated))
    }
}

/// A configuration that was loaded has tokens and can be run within its bounds.
pub proof fn loaded_configurations_are_complete(
    config: Config,
    cli: Cli,
    generated: GeneratedTokens,
)
    requires
        ({
            let settled = config.overridden(cli).bounded();
            &&& generated.api_token is Some == (settled.server.api_token@.len() == 0)
            &&& generated.api_token matches Some(token) ==> is_token(token@)
            &&& generated.extension_token is Some == (settled.bridge.extension_token@.len() == 0)
            &&& generated.extension_token matches Some(token) ==> is_token(token@)
        }),
    ensures
        ({
            let loaded = config.overridden(cli).bounded().equipped(generated);
            &&& loaded.server.api_token@.len() > 0
            &&& loaded.bridge.extension_token@.len() > 0
            &&& loaded.executor.max_concurrency >= 1
            &&& loaded.executor.max_queue_size >= 1
            &&& loaded.executor.max_timeout_ms >= 1_000
            &&& loaded.executor.load_timeout_ms >= 1_000
            &&& loaded.executor.selector_timeout_ms >= 250
            &&& 5 <= loaded.bridge.ping_interval_seconds <= 300
        }),
{
}

/// What the command line says comes before the file.
pub proof fn the_command_line_comes_first(config: Config, cli: Cli)
    ensures
        ({
            let settled = config.overridden(cli).bounded();
            &&& cli.listen matches Some(listen) ==> settled.server.listen == listen
            &&& cli.bridge_listen matches Some(listen) ==> settled.bridge.listen == listen
            &&& cli.api_token matches Some(token) ==> settled.server.api_token == token
            &&& cli.extension_token matches Some(token) ==> settled.bridge.extension_token == token
            &&& cli.max_concurrency matches Some(n) ==> settled.executor.max_concurrency
                == at_least(n as int, 1)
            &&& settled.search == config.search
        }),
{
}

/// Settling a configuration again, without a command line, changes nothing.
pub proof fn settled_configurations_stay_as_they_are(config: Config, cli: Cli)
    ensures
        config.overridden(cli).bounded().bounded() == config.overridden(cli).bounded(),
{
}

} // verus!
