//! Configuration, read from a list of named values.

use crate::text::i64_of_text;
use crate::text::kept_parts;
use crate::text::lines_of;
use crate::text::parse_i64;
use crate::text::parse_u16;
use crate::text::split_on;
use crate::text::split_text;
use crate::text::str_equal;
use crate::text::text_lines;
use crate::text::texts;
use crate::text::trim_and_keep;
use crate::text::u16_of_text;
use vstd::prelude::*;
use vstd::string::StringExecFns;

verus! {

/// How fills are attributed to the builder.
#[derive(Debug, Clone, Copy, PartialEq, Eq, Structural)]
pub enum BuilderAttributionMode {
    /// By the builder's logs, with the heuristic to fall back on.
    Auto,
    /// By the builder fee alone.
    Heuristic,
    /// By the builder's logs alone.
    Logs,
}

/// Whether realized profit and loss is reported before or after fees.
#[derive(Debug, Clone, Copy, PartialEq, Eq, Structural)]
pub enum PnlMode {
    /// Before fees.
    Gross,
    /// After fees.
    Net,
}

/// The configuration of the service.
#[derive(Debug)]
pub struct Config {
    pub port: u16,
    pub database_path: String,
    pub hyperliquid_api_url: String,
    pub target_builder: String,
    pub builder_attribution_mode: BuilderAttributionMode,
    pub pnl_mode: PnlMode,
    pub lookback_ms: i64,
    pub leaderboard_users: Vec<String>,
}

/// Why a configuration could not be read.
#[derive(Debug)]
pub enum ConfigError {
    /// A required value is missing; the field is its name.
    MissingEnv(String),
    /// A value is not acceptable; the fields are its name and what is wrong.
    InvalidValue(String, String),
}

/// The value that a list of named values gives a name: that of the last pair
/// with the name.
pub open spec fn env_value(env: Seq<(String, String)>, name: Seq<char>) -> Option<Seq<char>>
    decreases env.len(),
{
    if env.len() == 0 {
        None
    } else if env.last().0@ == name {
        Some(env.last().1@)
    } else {
        env_value(env.drop_last(), name)
    }
}

/// A value, or the default where it is not set.
pub open spec fn value_or(value: Option<Seq<char>>, default: Seq<char>) -> Seq<char> {
    match value {
        Some(v) => v,
        None => default,
    }
}

/// The attribution mode that a text names.
pub open spec fn attribution_mode_of(text: Seq<char>) -> Option<BuilderAttributionMode> {
    if text == "auto"@ {
        Some(BuilderAttributionMode::Auto)
    } else if text == "heuristic"@ {
        Some(BuilderAttributionMode::Heuristic)
    } else if text == "logs"@ {
        Some(BuilderAttributionMode::Logs)
    } else {
        None
    }
}

/// The profit-and-loss mode that a text names.
pub open spec fn pnl_mode_of(text: Seq<char>) -> Option<PnlMode> {
    if text == "gross"@ {
        Some(PnlMode::Gross)
    } else if text == "net"@ {
        Some(PnlMode::Net)
    } else {
        None
    }
}

/// The leaderboard users that the named values list: the comma-separated parts
/// of `LEADERBOARD_USERS`, trimmed, the empty ones left out; none where it is not
/// set.
pub open spec fn listed_users(env: Seq<(String, String)>) -> Seq<Seq<char>> {
    match env_value(env, "LEADERBOARD_USERS"@) {
        Some(list) => kept_parts(split_text(list, ',')),
        None => Seq::empty(),
    }
}

/// What stands in the way of a configuration, the checks made in the order of
/// the fields: the name that is missing, or the name whose value is invalid.
pub enum ConfigFault {
    /// The name of the value that is missing.
    Missing(Seq<char>),
    /// The name of the value that is invalid, and what is wrong with it.
    Invalid(Seq<char>, Seq<char>),
}

/// The first fault of the named values, if any.
pub open spec fn config_fault(env: Seq<(String, String)>) -> Option<ConfigFault> {
    if u16_of_text(value_or(env_value(env, "PORT"@), "8080"@)) is None {
        Some(ConfigFault::Invalid("PORT"@, "must be a valid u16"@))
    } else if env_value(env, "DATABASE_PATH"@) is None {
        Some(ConfigFault::Missing("DATABASE_PATH"@))
    } else if env_value(env, "HYPERLIQUID_API_URL"@) is None {
        Some(ConfigFault::Missing("HYPERLIQUID_API_URL"@))
    } else if env_value(env, "TARGET_BUILDER"@) is None {
        Some(ConfigFault::Missing("TARGET_BUILDER"@))
    } else if attribution_mode_of(value_or(env_value(env, "BUILDER_ATTRIBUTION_MODE"@), "auto"@))
        is None {
        Some(
            ConfigFault::Invalid(
                "BUILDER_ATTRIBUTION_MODE"@,
                "must be auto, heuristic, or logs, got "@ + value_or(
                    env_value(env, "BUILDER_ATTRIBUTION_MODE"@),
                    "auto"@,
                ),
            ),
        )
    } else if pnl_mode_of(value_or(env_value(env, "PNL_MODE"@), "gross"@)) is None {
        Some(
            ConfigFault::Invalid(
                "PNL_MODE"@,
                "must be gross or net, got "@ + value_or(env_value(env, "PNL_MODE"@), "gross"@),
            ),
        )
    } else if i64_of_text(value_or(env_value(env, "LOOKBACK_MS"@), "86400000"@)) is None {
        Some(ConfigFault::Invalid("LOOKBACK_MS"@, "must be a valid i64"@))
    } else {
        None
    }
}

/// The configuration agrees with the named values.
pub open spec fn config_reads(config: Config, env: Seq<(String, String)>) -> bool {
    &&& Some(config.port) == u16_of_text(value_or(env_value(env, "PORT"@), "8080"@))
    &&& Some(config.database_path@) == env_value(env, "DATABASE_PATH"@)
    &&& Some(config.hyperliquid_api_url@) == env_value(env, "HYPERLIQUID_API_URL"@)
    &&& Some(config.target_builder@) == env_value(env, "TARGET_BUILDER"@)
    &&& Some(config.builder_attribution_mode) == attribution_mode_of(
        value_or(env_value(env, "BUILDER_ATTRIBUTION_MODE"@), "auto"@),
    )
    &&& Some(config.pnl_mode) == pnl_mode_of(value_or(env_value(env, "PNL_MODE"@), "gross"@))
    &&& Some(config.lookback_ms) == i64_of_text(
        value_or(env_value(env, "LOOKBACK_MS"@), "86400000"@),
    )
    &&& texts(config.leaderboard_users@) == listed_users(env)
}

/// The error reports the fault.
pub open spec fn error_reports(error: ConfigError, fault: ConfigFault) -> bool {
    match (error, fault) {
        (ConfigError::MissingEnv(name), ConfigFault::Missing(n)) => name@ == n,
        (ConfigError::InvalidValue(name, what), ConfigFault::Invalid(n, w)) => name@ == n && what@
            == w,
        _ => false,
    }
}

/// The value of a name, if it is set.
pub fn lookup<'a>(env: &'a Vec<(String, String)>, name: &str) -> (r: Option<&'a String>)
    ensures
        match r {
            Some(v) => env_value(env@, name@) == Some(v@),
            None => env_value(env@, name@) is None,
        },
{
    let mut i: usize = env.len();
    assert(env@.take(i as int) =~= env@);
    while i > 0
        invariant
            i <= env@.len(),
            env_value(env@, name@) == env_value(env@.take(i as int), name@),
        decreases i,
    {
        let ghost prefix = env@.take(i as int);
        assert(prefix.last() == env@[i - 1]);
        assert(prefix.drop_last() =~= env@.take(i - 1));
        if str_equal(env[i - 1].0.as_str(), name) {
            return Some(&env[i - 1].1);
        }
        i -= 1;
    }
    None
}

fn invalid(name: &str, what: &str) -> (r: ConfigError)
    ensures
        r matches ConfigError::InvalidValue(n, w) && n@ == name@ && w@ == what@,
{
    ConfigError::InvalidValue(name.to_owned(), what.to_owned())
}

fn invalid_choice(name: &str, choices: &str, got: &str) -> (r: ConfigError)
    ensures
        r matches ConfigError::InvalidValue(n, w) && n@ == name@ && w@ == choices@ + got@,
{
    let mut what = choices.to_owned();
    what.append(got);
    ConfigError::InvalidValue(name.to_owned(), what)
}

fn missing(name: &str) -> (r: ConfigError)
    ensures
        r matches ConfigError::MissingEnv(n) && n@ == name@,
{
    ConfigError::MissingEnv(name.to_owned())
}

impl Config {
    /// Reads a configuration from named values. `PORT` defaults to `8080`,
    /// `BUILDER_ATTRIBUTION_MODE` to `auto`, `PNL_MODE` to `gross` and
    /// `LOOKBACK_MS` to `86400000`; `DATABASE_PATH`, `HYPERLIQUID_API_URL` and
    /// `TARGET_BUILDER` are required. The first fault, in the order of the fields,
    /// is the error.
    pub fn from_env_map(env_map: Vec<(String, String)>) -> (r: Result<Config, ConfigError>)
        ensures
            match config_fault(env_map@) {
                Some(fault) => r matches Err(e) && error_reports(e, fault),
                None => r matches Ok(config) && config_reads(config, env_map@),
            },
    {
        let env = &env_map;
        let port_text = match lookup(env, "PORT") {
            Some(v) => v.as_str(),
            None => "8080",
        };
        let port = match parse_u16(port_text) {
            Some(p) => p,
            None => {
                return Err(invalid("PORT", "must be a valid u16"));
            },
        };
        let database_path = match lookup(env, "DATABASE_PATH") {
            Some(v) => v.clone(),
            None => {
                return Err(missing("DATABASE_PATH"));
            },
        };
        let hyperliquid_api_url = match lookup(env, "HYPERLIQUID_API_URL") {
            Some(v) => v.clone(),
            None => {
                return Err(missing("HYPERLIQUID_API_URL"));
            },
        };
        let target_builder = match lookup(env, "TARGET_BUILDER") {
            Some(v) => v.clone(),
            None => {
                return Err(missing("TARGET_BUILDER"));
            },
        };
        let mode_text = match lookup(env, "BUILDER_ATTRIBUTION_MODE") {
            Some(v) => v.as_str(),
            None => "auto",
        };
        let builder_attribution_mode = if str_equal(mode_text, "auto") {
            BuilderAttributionMode::Auto
        } else if str_equal(mode_text, "heuristic") {
            BuilderAttributionMode::Heuristic
        } else if str_equal(mode_text, "logs") {
            BuilderAttributionMode::Logs
        } else {
            return Err(
                invalid_choice(
                    "BUILDER_ATTRIBUTION_MODE",
                    "must be auto, heuristic, or logs, got ",
                    mode_text,
                ),
            );
        };
        let pnl_text = match lookup(env, "PNL_MODE") {
            Some(v) => v.as_str(),
            None => "gross",
        };
        let pnl_mode = if str_equal(pnl_text, "gross") {
            PnlMode::Gross
        } else if str_equal(pnl_text, "net") {
            PnlMode::Net
        } else {
            return Err(invalid_choice("PNL_MODE", "must be gross or net, got ", pnl_text));
        };
        let lookback_text = match lookup(env, "LOOKBACK_MS") {
            Some(v) => v.as_str(),
            None => "86400000",
        };
        let lookback_ms = match parse_i64(lookback_text) {
            Some(v) => v,
            None => {
                return Err(invalid("LOOKBACK_MS", "must be a valid i64"));
            },
        };
        let leaderboard_users = match lookup(env, "LEADERBOARD_USERS") {
            Some(list) => {
                let parts = split_on(list.as_str(), ',');
                trim_and_keep(&parts)
            },
            None => {
                let none: Vec<String> = Vec::new();
                assert(texts(none@) =~= Seq::<Seq<char>>::empty());
                none
            },
        };
        Ok(
            Config {
                port,
                database_path,
                hyperliquid_api_url,
                target_builder,
                builder_attribution_mode,
                pnl_mode,
                lookback_ms,
                leaderboard_users,
            },
        )
    }

    /// The file that lists the leaderboard users, where the users are not listed
    /// by `LEADERBOARD_USERS` itself.
    pub fn users_file(env_map: &Vec<(String, String)>) -> (r: Option<String>)
        ensures
            match r {
                Some(path) => env_value(env_map@, "LEADERBOARD_USERS"@) is None && env_value(
                    env_map@,
                    "LEADERBOARD_USERS_FILE"@,
                ) == Some(path@),
                None => env_value(env_map@, "LEADERBOARD_USERS"@) is Some || env_value(
                    env_map@,
                    "LEADERBOARD_USERS_FILE"@,
                ) is None,
            },
    {
        if lookup(env_map, "LEADERBOARD_USERS").is_some() {
            return None;
        }
        match lookup(env_map, "LEADERBOARD_USERS_FILE") {
            Some(path) => Some(path.clone()),
            None => None,
        }
    }

    /// The users that a users file lists: its lines, trimmed, the empty ones left
    /// out.
    pub fn users_of_file(content: &str) -> (r: Vec<String>)
        ensures
            texts(r@) == kept_parts(text_lines(content@)),
    {
        let lines = lines_of(content);
        trim_and_keep(&lines)
    }
}

impl ConfigError {
    /// The error in words.
    pub fn message(&self) -> (r: String)
        ensures
            r@ == (match *self {
                ConfigError::MissingEnv(name) => "Missing required environment variable: "@
                    + name@,
                ConfigError::InvalidValue(name, what) => "Invalid value for "@ + name@ + ": "@
                    + what@,
            }),
    {
        match self {
            ConfigError::MissingEnv(name) => {
                let mut text = "Missing required environment variable: ".to_owned();
                text.append(name.as_str());
                text
            },
            ConfigError::InvalidValue(name, what) => {
                let mut text = "Invalid value for ".to_owned();
                text.append(name.as_str());
                text.append(": ");
                text.append(what.as_str());
                text
            },
        }
    }
}

impl Clone for Config {
    fn clone(&self) -> (r: Config)
        ensures
            r.port == self.port,
            r.database_path == self.database_path,
            r.hyperliquid_api_url == self.hyperliquid_api_url,
            r.target_builder == self.target_builder,
            r.builder_attribution_mode == self.builder_attribution_mode,
            r.pnl_mode == self.pnl_mode,
            r.lookback_ms == self.lookback_ms,
            r.leaderboard_users@.len() == self.leaderboard_users@.len(),
    {
        Config {
            port: self.port,
            database_path: self.database_path.clone(),
            hyperliquid_api_url: self.hyperliquid_api_url.clone(),
            target_builder: self.target_builder.clone(),
            builder_attribution_mode: self.builder_attribution_mode,
            pnl_mode: self.pnl_mode,
            lookback_ms: self.lookback_ms,
            leaderboard_users: self.leaderboard_users.clone(),
        }
    }
}

} // verus!
