//! Settings: what the command line, the config file and the defaults say.
use vstd::prelude::*;
use vstd::string::*;

verus! {

/// The settings that can be given on the command line and in a config file. What is not given
/// there is left to the next source.
#[derive(Debug, Clone, Copy)]
pub struct FileConfig {
    /// Seconds that connecting and the TLS handshake may take.
    pub timeout: Option<u64>,
    /// Certificates with fewer days left than this are a warning.
    pub warn_days: Option<i64>,
    /// Certificates with fewer days left than this are critical.
    pub critical_days: Option<i64>,
    /// Seconds between two scans.
    pub interval: Option<u64>,
}

/// The settings of a run.
#[derive(Debug, Clone, Copy)]
pub struct Settings {
    pub timeout: u64,
    pub warn_days: i64,
    pub critical_days: i64,
    pub interval: Option<u64>,
}

/// The default of the timeout, in seconds.
pub const DEFAULT_TIMEOUT: u64 = 5;

/// The default of the threshold for warnings.
pub const DEFAULT_WARN_DAYS: i64 = 30;

/// The default of the threshold for critical findings.
pub const DEFAULT_CRITICAL_DAYS: i64 = 7;

/// The default of the time between two scans in web mode, in seconds.
pub const DEFAULT_SERVE_INTERVAL: u64 = 300;

/// Where the config file is looked for, from the home directory, where none is asked for by name.
pub const DEFAULT_CONFIG_PATH: &'static str = ".config/certmonitor/config.toml";

/// The first of two optional values that is given.
pub open spec fn first_given<T>(first: Option<T>, second: Option<T>) -> Option<T> {
    match first {
        Some(_) => first,
        None => second,
    }
}

/// The value of an option, or a default.
pub open spec fn or_default<T>(value: Option<T>, default: T) -> T {
    match value {
        Some(v) => v,
        None => default,
    }
}

impl Default for FileConfig {
    fn default() -> (r: Self)
        ensures
            r.timeout is None,
            r.warn_days is None,
            r.critical_days is None,
            r.interval is None,
    {
        FileConfig { timeout: None, warn_days: None, critical_days: None, interval: None }
    }
}

/// Settles the settings of a run: a flag on the command line, else the config file, else the
/// default.
pub fn resolve(flags: FileConfig, file: FileConfig) -> (r: Settings)
    ensures
        r.timeout == or_default(first_given(flags.timeout, file.timeout), DEFAULT_TIMEOUT),
        r.warn_days == or_default(first_given(flags.warn_days, file.warn_days), DEFAULT_WARN_DAYS),
        r.critical_days == or_default(
            first_given(flags.critical_days, file.critical_days),
            DEFAULT_CRITICAL_DAYS,
        ),
        r.interval == first_given(flags.interval, file.interval),
{
    Settings {
        timeout: match (flags.timeout, file.timeout) {
            (Some(v), _) => v,
            (None, Some(v)) => v,
            (None, None) => DEFAULT_TIMEOUT,
        },
        warn_days: match (flags.warn_days, file.warn_days) {
            (Some(v), _) => v,
            (None, Some(v)) => v,
            (None, None) => DEFAULT_WARN_DAYS,
        },
        critical_days: match (flags.critical_days, file.critical_days) {
            (Some(v), _) => v,
            (None, Some(v)) => v,
            (None, None) => DEFAULT_CRITICAL_DAYS,
        },
        interval: match flags.interval {
            Some(v) => Some(v),
            None => file.interval,
        },
    }
}

/// What a run is for.
#[derive(Debug)]
pub enum Mode {
    /// One scan and a report.
    Once,
    /// A web page at the address, with a scan every `interval` seconds.
    Serve { addr: String, interval: u64 },
    /// The terminal interface.
    Interactive,
}

/// Settles what a run is for. A single scan is asked for by `once`, a web page by an address.
pub fn choose_mode(once: bool, serve: Option<String>, interval: Option<u64>) -> (r: Mode)
    ensures
        r == (if once {
            Mode::Once
        } else {
            match serve {
                Some(addr) => Mode::Serve {
                    addr,
                    interval: or_default(interval, DEFAULT_SERVE_INTERVAL),
                },
                None => Mode::Interactive,
            }
        }),
{
    if once {
        return Mode::Once;
    }
    match serve {
        Some(addr) => Mode::Serve {
            addr,
            interval: match interval {
                Some(v) => v,
                None => DEFAULT_SERVE_INTERVAL,
            },
        },
        None => Mode::Interactive,
    }
}

/// What came of reading a config file.
#[derive(Debug)]
pub enum ConfigRead {
    /// The file could not be read.
    Missing,
    /// The file was read and parsed.
    Parsed(FileConfig),
    /// The file was read and is malformed; with the message of the parser.
    Malformed(String),
}

/// What is wrong with the config file, if anything: a malformed file always, a missing one only
/// where it was asked for by name.
pub open spec fn config_complaint(
    path: Seq<char>,
    explicit: bool,
    read: ConfigRead,
) -> Option<Seq<char>> {
    match read {
        ConfigRead::Malformed(message) => Some(
            "failed to parse config file "@ + path + ": "@ + message@,
        ),
        ConfigRead::Missing => if explicit {
            Some("config file "@ + path + " not found"@)
        } else {
            None
        },
        ConfigRead::Parsed(_) => None,
    }
}

/// The settings of a config file: those that were parsed, or none.
pub open spec fn config_settings(read: ConfigRead) -> FileConfig {
    match read {
        ConfigRead::Parsed(file) => file,
        _ => FileConfig { timeout: None, warn_days: None, critical_days: None, interval: None },
    }
}

/// Judges what came of reading the config file at `path`, which was asked for by name or is the
/// default one.
pub fn accept_config(path: &str, explicit: bool, read: ConfigRead) -> (r: Result<
    FileConfig,
    String,
>)
    ensures
        match r {
            Ok(file) => config_complaint(path@, explicit, read) is None && file == config_settings(
                read,
            ),
            Err(message) => config_complaint(path@, explicit, read) == Some(message@),
        },
{
    match read {
        ConfigRead::Parsed(file) => Ok(file),
        ConfigRead::Malformed(message) => {
            let mut out: String = "failed to parse config file ".to_owned();
            out.append(path);
            out.append(": ");
            out.append(message.as_str());
            Err(out)
        },
        ConfigRead::Missing => {
            if explicit {
                let mut out: String = "config file ".to_owned();
                out.append(path);
                out.append(" not found");
                Err(out)
            } else {
                Ok(FileConfig::default())
            }
        },
    }
}

/// The sources of the settings in their order: a value from the command line goes before one from
/// the config file, and that before the default.
pub proof fn law_sources_of_settings<T>(flag: T, file: T, default: T)
    ensures
        or_default(first_given(Some(flag), Some(file)), default) == flag,
        or_default(first_given(Some(flag), None), default) == flag,
        or_default(first_given(None, Some(file)), default) == file,
        or_default(first_given(None, None), default) == default,
        first_given(Some(flag), Some(file)) == Some(flag),
        first_given(Some(flag), None) == Some(flag),
        first_given(None, Some(file)) == Some(file),
        first_given::<T>(None, None) is None,
{
}

/// The defaults: five seconds of timeout, a warning below 30 days, critical below 7, five minutes
/// between the scans of web mode, and the config file under `.config`.
pub proof fn law_defaults()
    ensures
        DEFAULT_TIMEOUT == 5,
        DEFAULT_WARN_DAYS == 30,
        DEFAULT_CRITICAL_DAYS == 7,
        DEFAULT_SERVE_INTERVAL == 300,
        DEFAULT_CONFIG_PATH@ == ".config/certmonitor/config.toml"@,
{
}

/// A malformed config file is always complained about, with its path and what the parser said; a
/// missing one only where it was asked for by name. A file that was parsed gives its settings, and
/// a missing one gives none.
pub proof fn law_config_files(path: Seq<char>, explicit: bool, message: String, file: FileConfig)
    ensures
        config_complaint(path, explicit, ConfigRead::Malformed(message)) == Some(
            "failed to parse config file "@ + path + ": "@ + message@,
        ),
        config_complaint(path, true, ConfigRead::Missing) == Some(
            "config file "@ + path + " not found"@,
        ),
        config_complaint(path, false, ConfigRead::Missing) is None,
        config_complaint(path, explicit, ConfigRead::Parsed(file)) is None,
        config_settings(ConfigRead::Parsed(file)) == file,
        config_settings(ConfigRead::Missing).timeout is None,
        config_settings(ConfigRead::Missing).warn_days is None,
        config_settings(ConfigRead::Missing).critical_days is None,
        config_settings(ConfigRead::Missing).interval is None,
{
}

} // verus!
