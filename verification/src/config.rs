//! The configuration: which sink names to track and how verbose to log.

use vstd::prelude::*;
use vstd::string::StringExecFns;

verus! {

/// Log verbosity, as the configuration file's `log_level` field names it.
#[derive(Clone, Copy, Debug, PartialEq, Eq, Structural)]
pub enum LogLevel {
    Off,
    Error,
    Warn,
    Info,
    Debug,
    Trace,
}

/// A loaded configuration: the sink names to keep synchronized and an
/// optional verbosity level.
#[derive(Clone, Debug)]
pub struct Config {
    pub sinks: Vec<String>,
    pub log_level: Option<LogLevel>,
}

impl Config {
    /// The configuration in force while no file could be read: no sink is
    /// tracked and logging stays at the default verbosity.
    pub fn default() -> (c: Config)
        ensures
            c.sinks@ == Seq::<String>::empty(),
            c.log_level == Some(LogLevel::Info),
    {
        Config { sinks: Vec::new(), log_level: Some(LogLevel::Info) }
    }
}

/// The verbosity a configuration asks for: its `log_level` field, or the
/// default when the field is absent.
pub open spec fn effective_level(level: Option<LogLevel>) -> LogLevel {
    match level {
        Some(l) => l,
        None => LogLevel::Info,
    }
}

#[verifier::external_type_specification]
#[verifier::external_body]
pub struct ExLevelFilter(log::LevelFilter);

impl LogLevel {
    /// Relies on `log::LevelFilter`: its variants name the same six
    /// verbosity levels, and each level here maps to the filter variant of
    /// the same name.
    #[verifier::external_body]
    pub fn to_level_filter(&self) -> log::LevelFilter {
        match self {
            LogLevel::Off => log::LevelFilter::Off,
            LogLevel::Error => log::LevelFilter::Error,
            LogLevel::Warn => log::LevelFilter::Warn,
            LogLevel::Info => log::LevelFilter::Info,
            LogLevel::Debug => log::LevelFilter::Debug,
            LogLevel::Trace => log::LevelFilter::Trace,
        }
    }
}

/// Where the configuration file lives, given the two directory hints from
/// the environment: under the explicit configuration directory when one is
/// named, else under the home directory's `.config`, else in the current
/// directory.
pub fn config_file_path(xdg_config_home: Option<String>, home: Option<String>) -> (path: String)
    ensures
        xdg_config_home matches Some(x) ==> path@ == x@ + "/volume-sync.toml"@,
        xdg_config_home is None ==> (home matches Some(h) ==> path@ == h@ + "/.config"@
            + "/volume-sync.toml"@),
        xdg_config_home is None && home is None ==> path@ == "."@ + "/volume-sync.toml"@,
{
    let dir: String = match xdg_config_home {
        Some(x) => x,
        None => match home {
            Some(h) => h.concat("/.config"),
            None => String::from_str("."),
        },
    };
    dir.concat("/volume-sync.toml")
}

} // verus!
