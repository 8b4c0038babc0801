//! The configuration: built-in defaults, then the settings of a TOML file,
//! then environment variables, then command-line options, each layer
//! overriding the one before it; and the validation of the result.

use vstd::prelude::*;
use vstd::string::*;

use crate::error::{ErrorData, RqCheckError};
use crate::text::{
    all_ascii, ascii_lowercase, lowercase_text, parse_unsigned, to_lowercase, unsigned_in_range,
};

verus! {

/// Application configuration.
#[derive(Debug, Clone)]
pub struct Config {
    /// How many packages are checked at the same time.
    pub batch_size: usize,
    /// Timeout of one HTTP request.
    pub timeout_seconds: u64,
    /// How many times a failed request is repeated.
    pub max_retries: u32,
    /// Delay before the first repetition; it doubles with each further one.
    pub retry_delay_ms: u64,
    /// Base of the PyPI JSON API.
    pub pypi_base_url: String,
    /// Whether progress is logged.
    pub verbose: bool,
    /// How many of the newest releases are taken into account.
    pub max_versions_to_check: usize,
}

/// The content of a [`Config`].
pub struct ConfigData {
    pub batch_size: usize,
    pub timeout_seconds: u64,
    pub max_retries: u32,
    pub retry_delay_ms: u64,
    pub pypi_base_url: Seq<char>,
    pub verbose: bool,
    pub max_versions_to_check: usize,
}

impl View for Config {
    type V = ConfigData;

    open spec fn view(&self) -> ConfigData {
        ConfigData {
            batch_size: self.batch_size,
            timeout_seconds: self.timeout_seconds,
            max_retries: self.max_retries,
            retry_delay_ms: self.retry_delay_ms,
            pypi_base_url: self.pypi_base_url@,
            verbose: self.verbose,
            max_versions_to_check: self.max_versions_to_check,
        }
    }
}

/// Default number of packages checked at the same time.
pub fn default_batch_size() -> (r: usize)
    ensures
        r == 10,
{
    10
}

/// Default timeout of one request, in seconds.
pub fn default_timeout_seconds() -> (r: u64)
    ensures
        r == 30,
{
    30
}

/// Default number of repetitions of a failed request.
pub fn default_max_retries() -> (r: u32)
    ensures
        r == 3,
{
    3
}

/// Default delay before the first repetition, in milliseconds.
pub fn default_retry_delay_ms() -> (r: u64)
    ensures
        r == 1000,
{
    1000
}

/// Default base URL of the PyPI JSON API.
pub fn default_pypi_base_url() -> (r: String)
    ensures
        r@ == "https://pypi.org/pypi"@,
{
    String::from_str("https://pypi.org/pypi")
}

/// Default number of newest releases taken into account.
pub fn default_max_versions_to_check() -> (r: usize)
    ensures
        r == 10,
{
    10
}

/// The default configuration.
pub open spec fn default_config() -> ConfigData {
    ConfigData {
        batch_size: 10,
        timeout_seconds: 30,
        max_retries: 3,
        retry_delay_ms: 1000,
        pypi_base_url: "https://pypi.org/pypi"@,
        verbose: false,
        max_versions_to_check: 10,
    }
}

impl Default for Config {
    fn default() -> (c: Self)
        ensures
            c@ == default_config(),
    {
        Config {
            batch_size: default_batch_size(),
            timeout_seconds: default_timeout_seconds(),
            max_retries: default_max_retries(),
            retry_delay_ms: default_retry_delay_ms(),
            pypi_base_url: default_pypi_base_url(),
            verbose: false,
            max_versions_to_check: default_max_versions_to_check(),
        }
    }
}

// ---------------------------------------------------------------------------
// The configuration file
// ---------------------------------------------------------------------------

/// The settings that a configuration file gives; a missing key is `None`.
pub struct ConfigFile {
    pub batch_size: Option<usize>,
    pub timeout_seconds: Option<u64>,
    pub max_retries: Option<u32>,
    pub retry_delay_ms: Option<u64>,
    pub pypi_base_url: Option<String>,
    pub verbose: Option<bool>,
    pub max_versions_to_check: Option<usize>,
}

/// The content of a [`ConfigFile`].
pub struct ConfigFileData {
    pub batch_size: Option<usize>,
    pub timeout_seconds: Option<u64>,
    pub max_retries: Option<u32>,
    pub retry_delay_ms: Option<u64>,
    pub pypi_base_url: Option<Seq<char>>,
    pub verbose: Option<bool>,
    pub max_versions_to_check: Option<usize>,
}

impl View for ConfigFile {
    type V = ConfigFileData;

    open spec fn view(&self) -> ConfigFileData {
        ConfigFileData {
            batch_size: self.batch_size,
            timeout_seconds: self.timeout_seconds,
            max_retries: self.max_retries,
            retry_delay_ms: self.retry_delay_ms,
            pypi_base_url: match &self.pypi_base_url {
                Some(s) => Some(s@),
                None => None,
            },
            verbose: self.verbose,
            max_versions_to_check: self.max_versions_to_check,
        }
    }
}

/// A configuration file that sets nothing.
pub open spec fn empty_settings() -> ConfigFileData {
    ConfigFileData {
        batch_size: None,
        timeout_seconds: None,
        max_retries: None,
        retry_delay_ms: None,
        pypi_base_url: None,
        verbose: None,
        max_versions_to_check: None,
    }
}

// ---------------------------------------------------------------------------
// Layers of the configuration
// ---------------------------------------------------------------------------

/// The configuration that a file's settings give: each setting the file
/// leaves out keeps its default.
pub open spec fn config_from_settings(f: ConfigFileData) -> ConfigData {
    let d = default_config();
    ConfigData {
        batch_size: match f.batch_size {
            Some(v) => v,
            None => d.batch_size,
        },
        timeout_seconds: match f.timeout_seconds {
            Some(v) => v,
            None => d.timeout_seconds,
        },
        max_retries: match f.max_retries {
            Some(v) => v,
            None => d.max_retries,
        },
        retry_delay_ms: match f.retry_delay_ms {
            Some(v) => v,
            None => d.retry_delay_ms,
        },
        pypi_base_url: match f.pypi_base_url {
            Some(v) => v,
            None => d.pypi_base_url,
        },
        verbose: match f.verbose {
            Some(v) => v,
            None => d.verbose,
        },
        max_versions_to_check: match f.max_versions_to_check {
            Some(v) => v,
            None => d.max_versions_to_check,
        },
    }
}

/// The values of the environment variables that override the
/// configuration; a variable that is not set (or not valid Unicode) is
/// `None`.
pub struct EnvSettings {
    /// `RQCHECK_BATCH_SIZE`
    pub batch_size: Option<String>,
    /// `RQCHECK_TIMEOUT`
    pub timeout: Option<String>,
    /// `RQCHECK_MAX_RETRIES`
    pub max_retries: Option<String>,
    /// `RQCHECK_VERBOSE`
    pub verbose: Option<String>,
    /// `RQCHECK_PYPI_URL`
    pub pypi_url: Option<String>,
}

impl EnvSettings {
    /// No variable set.
    pub fn unset() -> (r: EnvSettings)
        ensures
            r.batch_size is None,
            r.timeout is None,
            r.max_retries is None,
            r.verbose is None,
            r.pypi_url is None,
    {
        EnvSettings { batch_size: None, timeout: None, max_retries: None, verbose: None, pypi_url: None }
    }
}

/// A numeric override: the variable's value where it parses as a number of
/// the field's type, else the value before.
pub open spec fn numeric_override(var: Option<String>, max: nat, before: nat) -> nat {
    match var {
        Some(s) => match unsigned_in_range(s@, max) {
            Some(v) => v,
            None => before,
        },
        None => before,
    }
}

/// Whether a value of `RQCHECK_VERBOSE` switches logging on: `true` in any
/// case (as `to_lowercase` maps it), or `1`.
pub open spec fn verbose_flag(s: Seq<char>) -> bool {
    lowercase_text(s) == "true"@ || s == "1"@
}

/// The configuration after the environment's overrides.
pub open spec fn config_with_env(c: ConfigData, env: EnvSettings) -> ConfigData {
    ConfigData {
        batch_size: numeric_override(env.batch_size, usize::MAX as nat, c.batch_size as nat) as usize,
        timeout_seconds: numeric_override(env.timeout, u64::MAX as nat, c.timeout_seconds as nat) as u64,
        max_retries: numeric_override(env.max_retries, u32::MAX as nat, c.max_retries as nat) as u32,
        retry_delay_ms: c.retry_delay_ms,
        pypi_base_url: match env.pypi_url {
            Some(s) => s@,
            None => c.pypi_base_url,
        },
        verbose: match env.verbose {
            Some(s) => verbose_flag(s@),
            None => c.verbose,
        },
        max_versions_to_check: c.max_versions_to_check,
    }
}

/// The configuration after the command line's overrides.
pub open spec fn config_with_cli(
    c: ConfigData,
    batch_size: Option<usize>,
    timeout: Option<u64>,
    max_versions: Option<usize>,
    verbose: bool,
) -> ConfigData {
    ConfigData {
        batch_size: match batch_size {
            Some(v) => v,
            None => c.batch_size,
        },
        timeout_seconds: match timeout {
            Some(v) => v,
            None => c.timeout_seconds,
        },
        max_versions_to_check: match max_versions {
            Some(v) => v,
            None => c.max_versions_to_check,
        },
        verbose: c.verbose || verbose,
        ..c
    }
}

/// The error that validation reports for a configuration, if any.
pub open spec fn validation_error(c: ConfigData) -> Option<ErrorData> {
    if c.batch_size == 0 {
        Some(ErrorData::Config("batch_size must be greater than 0"@))
    } else if c.timeout_seconds == 0 {
        Some(ErrorData::Config("timeout_seconds must be greater than 0"@))
    } else {
        None
    }
}

/// Where the configuration file stands, as the caller found it on disk.
pub enum ConfigSource {
    /// No configuration file was named.
    NotGiven,
    /// The named file does not exist; the defaults apply.
    Missing { path: String },
    /// The file exists but could not be read; `reason` is the I/O error's
    /// text.
    Unreadable { path: String, reason: String },
    /// The file was read but is not a valid configuration (a TOML syntax
    /// error, or a value of the wrong type for its key); `reason` is the
    /// deserialiser's message.
    Invalid { path: String, reason: String },
    /// The settings that the file gives.
    Settings(ConfigFile),
}

/// The settings of the configuration file, or the error that loading it
/// reports.
pub open spec fn file_settings(source: ConfigSource) -> Result<ConfigFileData, ErrorData> {
    match source {
        ConfigSource::NotGiven => Ok(empty_settings()),
        ConfigSource::Missing { .. } => Ok(empty_settings()),
        ConfigSource::Unreadable { path, reason } => Err(
            ErrorData::Config("Failed to read config file '"@ + path@ + "': "@ + reason@),
        ),
        ConfigSource::Invalid { path, reason } => Err(
            ErrorData::Config("Failed to parse config file '"@ + path@ + "': "@ + reason@),
        ),
        ConfigSource::Settings(f) => Ok(f@),
    }
}

/// What loading gives: the file's settings over the defaults, then the
/// environment's overrides, then validation.
pub open spec fn loaded_config(source: ConfigSource, env: EnvSettings) -> Result<ConfigData, ErrorData> {
    match file_settings(source) {
        Err(e) => Err(e),
        Ok(f) => {
            let c = config_with_env(config_from_settings(f), env);
            match validation_error(c) {
                Some(e) => Err(e),
                None => Ok(c),
            }
        },
    }
}

fn file_error(prefix: &str, path: &str, reason: &str) -> (r: RqCheckError)
    ensures
        r@ == ErrorData::Config(prefix@ + path@ + "': "@ + reason@),
{
    let mut m = String::from_str(prefix);
    m.append(path);
    m.append("': ");
    m.append(reason);
    RqCheckError::ConfigError(m)
}

fn settings_from_file(source: ConfigSource) -> (r: Result<ConfigFile, RqCheckError>)
    ensures
        match file_settings(source) {
            Ok(f) => r matches Ok(c) && c@ == f,
            Err(e) => r matches Err(err) && err@ == e,
        },
{
    match source {
        ConfigSource::NotGiven | ConfigSource::Missing { .. } => Ok(ConfigFile {
            batch_size: None,
            timeout_seconds: None,
            max_retries: None,
            retry_delay_ms: None,
            pypi_base_url: None,
            verbose: None,
            max_versions_to_check: None,
        }),
        ConfigSource::Unreadable { path, reason } => Err(
            file_error("Failed to read config file '", path.as_str(), reason.as_str()),
        ),
        ConfigSource::Invalid { path, reason } => Err(
            file_error("Failed to parse config file '", path.as_str(), reason.as_str()),
        ),
        ConfigSource::Settings(f) => Ok(f),
    }
}

impl Config {
    /// The configuration that a file's settings give over the defaults.
    pub fn from_settings(f: ConfigFile) -> (c: Config)
        ensures
            c@ == config_from_settings(f@),
    {
        let pypi_base_url = match f.pypi_base_url {
            Some(url) => url,
            None => default_pypi_base_url(),
        };
        Config {
            batch_size: match f.batch_size {
                Some(v) => v,
                None => default_batch_size(),
            },
            timeout_seconds: match f.timeout_seconds {
                Some(v) => v,
                None => default_timeout_seconds(),
            },
            max_retries: match f.max_retries {
                Some(v) => v,
                None => default_max_retries(),
            },
            retry_delay_ms: match f.retry_delay_ms {
                Some(v) => v,
                None => default_retry_delay_ms(),
            },
            pypi_base_url,
            verbose: match f.verbose {
                Some(v) => v,
                None => false,
            },
            max_versions_to_check: match f.max_versions_to_check {
                Some(v) => v,
                None => default_max_versions_to_check(),
            },
        }
    }

    /// Loads the configuration: the file's settings over the defaults (the
    /// defaults alone when no file is named or the named file is missing),
    /// then the environment's overrides, then validation.
    pub fn load(source: ConfigSource, env: &EnvSettings) -> (r: Result<Config, RqCheckError>)
        ensures
            match loaded_config(source, *env) {
                Ok(c) => r matches Ok(config) && config@ == c,
                Err(e) => r matches Err(err) && err@ == e,
            },
            env.verbose matches Some(s) ==> (all_ascii(s@) ==> (r matches Ok(config) ==> config.verbose
                == (ascii_lowercase(s@) == "true"@ || s@ == "1"@))),
            file_settings(source) matches Ok(f) ==> ({
                let c = config_with_env(config_from_settings(f), *env);
                (r is Ok) == (c.batch_size > 0 && c.timeout_seconds > 0)
            }),
    {
        let settings = match settings_from_file(source) {
            Ok(f) => f,
            Err(e) => {
                return Err(e);
            },
        };
        let mut config = Config::from_settings(settings);
        config.apply_env_overrides(env);
        match config.validate() {
            Ok(()) => Ok(config),
            Err(e) => Err(e),
        }
    }

    /// Applies the environment's overrides: a numeric variable that does not
    /// parse leaves its field as it was.
    pub fn apply_env_overrides(&mut self, env: &EnvSettings)
        ensures
            final(self)@ == config_with_env(old(self)@, *env),
            env.verbose matches Some(s) ==> (all_ascii(s@) ==> final(self).verbose == (
            ascii_lowercase(s@) == "true"@ || s@ == "1"@)),
    {
        if let Some(val) = &env.batch_size {
            if let Some(size) = parse_unsigned(val.as_str(), usize::MAX as u64) {
                self.batch_size = size as usize;
            }
        }
        if let Some(val) = &env.timeout {
            if let Some(timeout) = parse_unsigned(val.as_str(), u64::MAX) {
                self.timeout_seconds = timeout;
            }
        }
        if let Some(val) = &env.max_retries {
            if let Some(retries) = parse_unsigned(val.as_str(), u32::MAX as u64) {
                self.max_retries = retries as u32;
            }
        }
        if let Some(val) = &env.verbose {
            let lower = to_lowercase(val.as_str());
            let word_true = String::from_str("true");
            let word_one = String::from_str("1");
            self.verbose = lower == word_true || *val == word_one;
        }
        if let Some(url) = &env.pypi_url {
            self.pypi_base_url = String::from_str(url.as_str());
        }
    }

    /// Checks that requests can be made with the configuration.
    pub fn validate(&self) -> (r: Result<(), RqCheckError>)
        ensures
            match validation_error(self@) {
                Some(e) => r matches Err(err) && err@ == e,
                None => r is Ok,
            },
            (r is Ok) == (self.batch_size > 0 && self.timeout_seconds > 0),
    {
        if self.batch_size == 0 {
            return Err(RqCheckError::ConfigError(String::from_str("batch_size must be greater than 0")));
        }
        if self.timeout_seconds == 0 {
            return Err(RqCheckError::ConfigError(String::from_str("timeout_seconds must be greater than 0")));
        }
        Ok(())
    }

    /// Applies the command line's overrides; `verbose` can only switch
    /// logging on.
    pub fn apply_cli_overrides(
        &mut self,
        batch_size: Option<usize>,
        timeout: Option<u64>,
        max_versions: Option<usize>,
        verbose: bool,
    )
        ensures
            final(self)@ == config_with_cli(old(self)@, batch_size, timeout, max_versions, verbose),
    {
        if let Some(size) = batch_size {
            self.batch_size = size;
        }
        if let Some(t) = timeout {
            self.timeout_seconds = t;
        }
        if let Some(n) = max_versions {
            self.max_versions_to_check = n;
        }
        if verbose {
            self.verbose = true;
        }
    }
}

// ---------------------------------------------------------------------------
// Laws of the configuration
// ---------------------------------------------------------------------------

/// Without a configuration file and without environment variables, loading
/// gives the defaults.
pub proof fn law_defaults_without_file_or_environment(env: EnvSettings)
    requires
        env.batch_size is None,
        env.timeout is None,
        env.max_retries is None,
        env.verbose is None,
        env.pypi_url is None,
    ensures
        loaded_config(ConfigSource::NotGiven, env) == Ok::<ConfigData, ErrorData>(default_config()),
{
    assert(config_from_settings(empty_settings()) == default_config());
}

/// A configuration file that does not exist is the same as none.
pub proof fn law_missing_file_is_no_file(path: String, env: EnvSettings)
    ensures
        loaded_config(ConfigSource::Missing { path }, env) == loaded_config(
            ConfigSource::NotGiven,
            env,
        ),
{
}

/// A configuration that loads is valid: requests are made in batches of at
/// least one, with a timeout of at least a second.
pub proof fn law_loaded_config_is_valid(source: ConfigSource, env: EnvSettings)
    ensures
        loaded_config(source, env) matches Ok(c) ==> c.batch_size > 0 && c.timeout_seconds > 0,
{
}

/// The environment overrides the configuration file: each variable that is
/// set decides its field, where a numeric one parses as a number of the
/// field's type.
pub proof fn law_environment_overrides_file(source: ConfigSource, env: EnvSettings)
    ensures
        loaded_config(source, env) matches Ok(c) ==> (env.batch_size matches Some(s) ==> (
        unsigned_in_range(s@, usize::MAX as nat) matches Some(v) ==> c.batch_size == v)),
        loaded_config(source, env) matches Ok(c) ==> (env.timeout matches Some(s) ==> (
        unsigned_in_range(s@, u64::MAX as nat) matches Some(v) ==> c.timeout_seconds == v)),
        loaded_config(source, env) matches Ok(c) ==> (env.max_retries matches Some(s) ==> (
        unsigned_in_range(s@, u32::MAX as nat) matches Some(v) ==> c.max_retries == v)),
        loaded_config(source, env) matches Ok(c) ==> (env.verbose matches Some(s) ==> c.verbose
            == verbose_flag(s@)),
        loaded_config(source, env) matches Ok(c) ==> (env.pypi_url matches Some(u)
            ==> c.pypi_base_url == u@),
{
}

/// The configuration file overrides the defaults: a setting that the file
/// gives stands where the environment does not override it.
pub proof fn law_file_overrides_defaults(source: ConfigSource, env: EnvSettings, f: ConfigFileData)
    requires
        file_settings(source) == Ok::<ConfigFileData, ErrorData>(f),
    ensures
        loaded_config(source, env) matches Ok(c) ==> {
            &&& env.batch_size is None ==> (f.batch_size matches Some(v) ==> c.batch_size == v)
            &&& env.timeout is None ==> (f.timeout_seconds matches Some(v) ==> c.timeout_seconds == v)
            &&& env.max_retries is None ==> (f.max_retries matches Some(v) ==> c.max_retries == v)
            &&& f.retry_delay_ms matches Some(v) ==> c.retry_delay_ms == v
            &&& env.pypi_url is None ==> (f.pypi_base_url matches Some(v) ==> c.pypi_base_url == v)
            &&& env.verbose is None ==> (f.verbose matches Some(v) ==> c.verbose == v)
            &&& f.max_versions_to_check matches Some(v) ==> c.max_versions_to_check == v
        },
{
}

/// The command line overrides every other layer: each option that is given
/// decides its field, and `verbose` switches logging on; an option that is
/// not given, and every setting without an option, keeps its value.
pub proof fn law_command_line_overrides_all(
    c: ConfigData,
    batch_size: Option<usize>,
    timeout: Option<u64>,
    max_versions: Option<usize>,
    verbose: bool,
)
    ensures
        ({
            let r = config_with_cli(c, batch_size, timeout, max_versions, verbose);
            &&& batch_size matches Some(b) ==> r.batch_size == b
            &&& timeout matches Some(t) ==> r.timeout_seconds == t
            &&& max_versions matches Some(n) ==> r.max_versions_to_check == n
            &&& verbose ==> r.verbose
            &&& batch_size is None ==> r.batch_size == c.batch_size
            &&& timeout is None ==> r.timeout_seconds == c.timeout_seconds
            &&& max_versions is None ==> r.max_versions_to_check == c.max_versions_to_check
            &&& !verbose ==> r.verbose == c.verbose
            &&& r.max_retries == c.max_retries
            &&& r.retry_delay_ms == c.retry_delay_ms
            &&& r.pypi_base_url == c.pypi_base_url
        }),
{
}

/// Command-line options that are all absent leave the configuration as it
/// is.
pub proof fn law_no_cli_options_change_nothing(c: ConfigData)
    ensures
        config_with_cli(c, None, None, None, false) == c,
{
}

/// Validation rejects a configuration exactly where its batch size or its
/// timeout is zero; any other configuration, however large its batch size,
/// is valid.
pub proof fn law_validation_rejects_only_zeros(c: ConfigData)
    ensures
        (validation_error(c) is None) == (c.batch_size > 0 && c.timeout_seconds > 0),
{
}

/// Loading fails only where reading the file fails or the result has a zero
/// batch size or timeout: a file whose settings load, and an environment
/// that keeps both positive, give a configuration.
pub proof fn law_load_succeeds_on_positive_settings(source: ConfigSource, env: EnvSettings)
    ensures
        file_settings(source) matches Ok(f) ==> ({
            let c = config_with_env(config_from_settings(f), env);
            c.batch_size > 0 && c.timeout_seconds > 0 ==> loaded_config(source, env) == Ok::<
                ConfigData,
                ErrorData,
            >(c)
        }),
{
}

} // verus!
