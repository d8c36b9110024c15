//! Configuration with layered precedence:
//! **CLI flag → `MYAPP_*` env → `MYAPP_*_FILE` env → `config.toml` → defaults.**
//!
//! The file is read and parsed by the caller into a [`ConfigFile`]; this module
//! layers it with the environment and decides which secret file, if any, must
//! be read for the API key. Secrets read from files are trimmed.

use vstd::prelude::*;
use crate::env::{env_non_empty, env_non_empty_u64, env_u64, env_value, Env};
use crate::error::Error;
use crate::secret::SecretString;
use crate::store::{clone_opt, opt_view};
use crate::text::{push_str, trim, trim_str};

verus! {

/// Default upstream base URL.
pub const DEFAULT_BASE_URL: &'static str = "http://localhost:8080";
/// Default total-request timeout.
pub const DEFAULT_REQUEST_TIMEOUT_SECS: u64 = 30;
/// Default TCP connect timeout.
pub const DEFAULT_CONNECT_TIMEOUT_SECS: u64 = 10;
/// Default log level.
pub const DEFAULT_LOG_LEVEL: &'static str = "info";

/// Logging configuration.
pub struct LogConfig {
    /// Level filter: trace|debug|info|warn|error.
    pub level: String,
}

/// HTTP timeout configuration.
pub struct HttpConfig {
    /// Total request timeout in seconds.
    pub request_timeout_secs: u64,
    /// TCP connect timeout in seconds.
    pub connect_timeout_secs: u64,
}

/// Top-level configuration for the API client.
pub struct Config {
    /// Upstream API base URL (no trailing slash required).
    pub base_url: String,
    /// API key sent as the `X-Api-Key` header. `None` until resolved.
    pub api_key: Option<SecretString>,
    /// Logging settings.
    pub log: LogConfig,
    /// HTTP transport timeouts.
    pub http: HttpConfig,
}

/// The mathematical form of a [`Config`].
pub struct ConfigView {
    pub base_url: Seq<char>,
    pub api_key: Option<Seq<char>>,
    pub log_level: Seq<char>,
    pub request_timeout_secs: u64,
    pub connect_timeout_secs: u64,
}

/// The text of an optional secret.
pub open spec fn secret_view(s: Option<SecretString>) -> Option<Seq<char>> {
    match s {
        Some(v) => Some(v@),
        None => None,
    }
}

impl View for Config {
    type V = ConfigView;

    open spec fn view(&self) -> ConfigView {
        ConfigView {
            base_url: self.base_url@,
            api_key: secret_view(self.api_key),
            log_level: self.log.level@,
            request_timeout_secs: self.http.request_timeout_secs,
            connect_timeout_secs: self.http.connect_timeout_secs,
        }
    }
}

/// The built-in defaults.
pub open spec fn default_config() -> ConfigView {
    ConfigView {
        base_url: DEFAULT_BASE_URL@,
        api_key: None,
        log_level: DEFAULT_LOG_LEVEL@,
        request_timeout_secs: DEFAULT_REQUEST_TIMEOUT_SECS,
        connect_timeout_secs: DEFAULT_CONNECT_TIMEOUT_SECS,
    }
}

impl Default for Config {
    fn default() -> (c: Self)
        ensures
            c@ == default_config(),
    {
        Config {
            base_url: String::from_str(DEFAULT_BASE_URL),
            api_key: None,
            log: LogConfig { level: String::from_str(DEFAULT_LOG_LEVEL) },
            http: HttpConfig {
                request_timeout_secs: DEFAULT_REQUEST_TIMEOUT_SECS,
                connect_timeout_secs: DEFAULT_CONNECT_TIMEOUT_SECS,
            },
        }
    }
}

/// A copy of an optional secret.
pub fn clone_secret(s: &Option<SecretString>) -> (r: Option<SecretString>)
    ensures
        secret_view(r) == secret_view(*s),
{
    match s {
        Some(v) => Some(v.clone()),
        None => None,
    }
}

impl Clone for Config {
    fn clone(&self) -> (c: Self)
        ensures
            c@ == self@,
    {
        Config {
            base_url: self.base_url.clone(),
            api_key: clone_secret(&self.api_key),
            log: LogConfig { level: self.log.level.clone() },
            http: HttpConfig {
                request_timeout_secs: self.http.request_timeout_secs,
                connect_timeout_secs: self.http.connect_timeout_secs,
            },
        }
    }
}

/// The `[log]` table of `config.toml`.
pub struct LogFile {
    pub level: Option<String>,
}

/// The `[http]` table of `config.toml`.
pub struct HttpFile {
    pub request_timeout_secs: Option<u64>,
    pub connect_timeout_secs: Option<u64>,
}

/// The core settings of `config.toml`. All fields optional; missing fields
/// use defaults.
pub struct ConfigFile {
    pub base_url: Option<String>,
    pub api_key: Option<String>,
    pub api_key_file: Option<String>,
    pub log: LogFile,
    pub http: HttpFile,
}

impl Default for ConfigFile {
    fn default() -> (f: Self)
        ensures
            f.base_url is None,
            f.api_key is None,
            f.api_key_file is None,
            f.log.level is None,
            f.http.request_timeout_secs is None,
            f.http.connect_timeout_secs is None,
    {
        ConfigFile {
            base_url: None,
            api_key: None,
            api_key_file: None,
            log: LogFile { level: None },
            http: HttpFile { request_timeout_secs: None, connect_timeout_secs: None },
        }
    }
}

/// Where the API key comes from.
pub enum ApiKeySource {
    /// The key itself.
    Inline(SecretString),
    /// A file holding the key; its contents, trimmed, are the key.
    File(String),
}

/// The mathematical form of an [`ApiKeySource`].
pub enum KeySource {
    Inline(Seq<char>),
    File(Seq<char>),
}

impl View for ApiKeySource {
    type V = KeySource;

    open spec fn view(&self) -> KeySource {
        match self {
            ApiKeySource::Inline(s) => KeySource::Inline(s@),
            ApiKeySource::File(p) => KeySource::File(p@),
        }
    }
}

/// The error text when `config.toml` sets both `api_key` and `api_key_file`.
pub open spec fn both_key_sources_text() -> Seq<char> {
    "set either api_key or api_key_file, not both"@
}

/// The API key source, by precedence: `MYAPP_API_KEY` env → `MYAPP_API_KEY_FILE`
/// env → `api_key` (toml) → `api_key_file` (toml); the two toml fields are
/// mutually exclusive.
pub open spec fn api_key_source<E: Env>(
    file_value: Option<Seq<char>>,
    file_path: Option<Seq<char>>,
    env: &E,
) -> Result<Option<KeySource>, Seq<char>> {
    match env_value(env, "MYAPP_API_KEY"@) {
        Some(v) => Ok(Some(KeySource::Inline(v))),
        None => match env_value(env, "MYAPP_API_KEY_FILE"@) {
            Some(p) => Ok(Some(KeySource::File(p))),
            None => match (file_value, file_path) {
                (Some(_), Some(_)) => Err(both_key_sources_text()),
                (Some(v), None) => Ok(Some(KeySource::Inline(v))),
                (None, Some(p)) => Ok(Some(KeySource::File(p))),
                (None, None) => Ok(None),
            },
        },
    }
}

/// The view of an optional key source.
pub open spec fn opt_source_view(s: Option<ApiKeySource>) -> Option<KeySource> {
    match s {
        Some(v) => Some(v@),
        None => None,
    }
}

/// The secret a file with contents `raw` holds: `raw` trimmed.
pub fn secret_from_file_contents(raw: &str) -> (s: SecretString)
    ensures
        s@ == trim(raw@),
{
    SecretString::from(trim_str(raw))
}

/// The layered core settings for `file` and `env`, with the file path of the
/// API key when the key must be read from a file (the key is then unset).
pub open spec fn layered_config<E: Env>(file: ConfigFile, env: &E) -> Result<(ConfigView, Option<Seq<char>>), Seq<char>> {
    match api_key_source(opt_view(file.api_key), opt_view(file.api_key_file), env) {
        Err(e) => Err(e),
        Ok(source) => {
            let base_url = match env_value(env, "MYAPP_BASE_URL"@) {
                Some(v) => v,
                None => match file.base_url {
                    Some(v) => v@,
                    None => DEFAULT_BASE_URL@,
                },
            };
            let log_level = match env_value(env, "MYAPP_LOG_LEVEL"@) {
                Some(v) => v,
                None => match file.log.level {
                    Some(v) => v@,
                    None => DEFAULT_LOG_LEVEL@,
                },
            };
            let request_timeout_secs = match env_u64(env, "MYAPP_HTTP_REQUEST_TIMEOUT_SECS"@) {
                Some(v) => v,
                None => match file.http.request_timeout_secs {
                    Some(v) => v,
                    None => DEFAULT_REQUEST_TIMEOUT_SECS,
                },
            };
            let connect_timeout_secs = match env_u64(env, "MYAPP_HTTP_CONNECT_TIMEOUT_SECS"@) {
                Some(v) => v,
                None => match file.http.connect_timeout_secs {
                    Some(v) => v,
                    None => DEFAULT_CONNECT_TIMEOUT_SECS,
                },
            };
            let (api_key, pending) = match source {
                Some(KeySource::Inline(v)) => (Some(v), None),
                Some(KeySource::File(p)) => (None, Some(p)),
                None => (None, None),
            };
            Ok(
                (
                    ConfigView { base_url, api_key, log_level, request_timeout_secs, connect_timeout_secs },
                    pending,
                ),
            )
        },
    }
}

impl Config {
    /// Resolves the API key source with precedence: `MYAPP_API_KEY` env →
    /// `MYAPP_API_KEY_FILE` env → `api_key` (toml) → `api_key_file` (toml).
    pub fn resolve_api_key<E: Env>(file_value: Option<String>, file_path: Option<String>, env: &E) -> (r: Result<
        Option<ApiKeySource>,
        Error,
    >)
        ensures
            match r {
                Ok(s) => api_key_source(opt_view(file_value), opt_view(file_path), env) == Ok::<
                    Option<KeySource>,
                    Seq<char>,
                >(opt_source_view(s)),
                Err(e) => e matches Error::Config(m) && api_key_source(
                    opt_view(file_value),
                    opt_view(file_path),
                    env,
                ) == Err::<Option<KeySource>, Seq<char>>(m@),
            },
    {
        if let Some(v) = env_non_empty(env, "MYAPP_API_KEY") {
            return Ok(Some(ApiKeySource::Inline(SecretString::from(v))));
        }
        if let Some(p) = env_non_empty(env, "MYAPP_API_KEY_FILE") {
            return Ok(Some(ApiKeySource::File(p)));
        }
        match (file_value, file_path) {
            (Some(_), Some(_)) => Err(Error::Config(String::from_str("set either api_key or api_key_file, not both"))),
            (Some(v), None) => Ok(Some(ApiKeySource::Inline(SecretString::from(v)))),
            (None, Some(p)) => Ok(Some(ApiKeySource::File(p))),
            (None, None) => Ok(None),
        }
    }

    /// Layers `file` (the parsed `config.toml`, or its defaults when there is
    /// none) with the environment. When the API key is to be read from a file,
    /// the key is left unset and the file's path is handed back; fill it with
    /// [`Config::fill_api_key`].
    pub fn load_with_env<E: Env>(file: ConfigFile, env: &E) -> (r: Result<(Config, Option<String>), Error>)
        ensures
            match r {
                Ok((c, pending)) => layered_config(file, env) == Ok::<
                    (ConfigView, Option<Seq<char>>),
                    Seq<char>,
                >((c@, opt_view(pending))),
                Err(e) => e matches Error::Config(m) && layered_config(file, env) == Err::<
                    (ConfigView, Option<Seq<char>>),
                    Seq<char>,
                >(m@),
            },
    {
        let ghost f = file;
        let ConfigFile { base_url, api_key, api_key_file, log, http } = file;
        let mut config = Config::default();
        if let Some(v) = base_url {
            config.base_url = v;
        }
        if let Some(v) = log.level {
            config.log.level = v;
        }
        if let Some(v) = http.request_timeout_secs {
            config.http.request_timeout_secs = v;
        }
        if let Some(v) = http.connect_timeout_secs {
            config.http.connect_timeout_secs = v;
        }
        let source = match Config::resolve_api_key(api_key, api_key_file, env) {
            Ok(s) => s,
            Err(e) => {
                return Err(e);
            },
        };
        let pending = match source {
            Some(ApiKeySource::Inline(k)) => {
                config.api_key = Some(k);
                None
            },
            Some(ApiKeySource::File(p)) => Some(p),
            None => None,
        };
        if let Some(v) = env_non_empty(env, "MYAPP_BASE_URL") {
            config.base_url = v;
        }
        if let Some(v) = env_non_empty(env, "MYAPP_LOG_LEVEL") {
            config.log.level = v;
        }
        if let Some(v) = env_non_empty_u64(env, "MYAPP_HTTP_REQUEST_TIMEOUT_SECS") {
            config.http.request_timeout_secs = v;
        }
        if let Some(v) = env_non_empty_u64(env, "MYAPP_HTTP_CONNECT_TIMEOUT_SECS") {
            config.http.connect_timeout_secs = v;
        }
        Ok((config, pending))
    }

    /// Sets the API key from the contents of its file, trimmed.
    pub fn fill_api_key(&mut self, raw: &str)
        ensures
            final(self)@ == (ConfigView { api_key: Some(trim(raw@)), ..old(self)@ }),
    {
        self.api_key = Some(secret_from_file_contents(raw));
    }

    /// Applies the CLI flags `--base-url` and `--api-key`, which take
    /// precedence over every other source.
    pub fn apply_overrides(&mut self, base_url: Option<String>, api_key: Option<String>)
        ensures
            final(self)@ == (ConfigView {
                base_url: match base_url { Some(u) => u@, None => old(self)@.base_url },
                api_key: match api_key { Some(k) => Some(k@), None => old(self)@.api_key },
                ..old(self)@
            }),
    {
        if let Some(url) = base_url {
            self.base_url = url;
        }
        if let Some(key) = api_key {
            self.api_key = Some(SecretString::from(key));
        }
    }
}

/// The user's configuration directory (`dirs::config_dir`), when it exists
/// and is valid UTF-8. It depends on the environment and the platform;
/// nothing is stated of it.
#[verifier::external_body]
fn config_dir() -> Option<String> {
    dirs::config_dir().and_then(|dir| dir.into_os_string().into_string().ok())
}

/// `dir` joined with the relative component `name`, as `Path::join` does on
/// Unix: a separator is added unless `dir` is empty or already ends with one.
pub open spec fn path_join(dir: Seq<char>, name: Seq<char>) -> Seq<char> {
    if dir.len() == 0 || dir.last() == '/' {
        dir + name
    } else {
        dir + seq!['/'] + name
    }
}

/// `dir` joined with the relative component `name`.
pub fn join_path(dir: &str, name: &str) -> (r: String)
    ensures
        r@ == path_join(dir@, name@),
{
    let mut r = String::from_str(dir);
    let n = dir.unicode_len();
    if n > 0 && dir.get_char(n - 1) != '/' {
        crate::text::push_char(&mut r, '/');
    }
    push_str(&mut r, name);
    r
}

/// The configuration file inside the configuration directory `dir`:
/// `{dir}/myapp/config.toml`.
pub open spec fn config_file_in(dir: Seq<char>) -> Seq<char> {
    path_join(path_join(dir, "myapp"@), "config.toml"@)
}

/// The configuration file path: the explicit `path`, else `MYAPP_CONFIG`,
/// else (when `dir` is the user's configuration directory) `{dir}/myapp/config.toml`.
pub open spec fn config_path_choice<E: Env>(path: Option<Seq<char>>, env: &E, dir: Option<Seq<char>>) -> Option<Seq<char>> {
    match path {
        Some(p) => Some(p),
        None => match env_value(env, "MYAPP_CONFIG"@) {
            Some(p) => Some(p),
            None => match dir {
                Some(d) => Some(config_file_in(d)),
                None => None,
            },
        },
    }
}

/// Determines the config file path: explicit arg → `MYAPP_CONFIG` env →
/// `~/.config/myapp/config.toml` (the platform's configuration directory).
pub fn resolve_config_path<E: Env>(path: Option<String>, env: &E) -> (r: Option<String>)
    ensures
        exists|dir: Option<Seq<char>>| opt_view(r) == #[trigger] config_path_choice(opt_view(path), env, dir),
{
    if let Some(p) = path {
        assert(opt_view(Some(p)) == config_path_choice(opt_view(Some(p)), env, None));
        return Some(p);
    }
    if let Some(p) = env_non_empty(env, "MYAPP_CONFIG") {
        assert(opt_view(Some(p)) == config_path_choice(None, env, None));
        return Some(p);
    }
    match config_dir() {
        Some(dir) => {
            let app_dir = join_path(dir.as_str(), "myapp");
            let file = join_path(app_dir.as_str(), "config.toml");
            assert(opt_view(Some(file)) == config_path_choice(None, env, Some(dir@)));
            Some(file)
        },
        None => {
            assert(opt_view(None) == config_path_choice(None, env, None));
            None
        },
    }
}

/// The precedence of the layers: an environment value (set and non-empty)
/// wins over the file, which wins over the default; a key from the
/// environment wins over both key fields of the file.
pub proof fn lemma_config_precedence<E: Env>(file: ConfigFile, env: &E)
    ensures
        layered_config(file, env) matches Ok((c, pending)) ==> {
            &&& env_value(env, "MYAPP_BASE_URL"@) matches Some(v) ==> c.base_url == v
            &&& env_value(env, "MYAPP_BASE_URL"@) is None ==> c.base_url == (match file.base_url {
                Some(v) => v@,
                None => DEFAULT_BASE_URL@,
            })
            &&& env_value(env, "MYAPP_LOG_LEVEL"@) matches Some(v) ==> c.log_level == v
            &&& env_u64(env, "MYAPP_HTTP_REQUEST_TIMEOUT_SECS"@) matches Some(v) ==> c.request_timeout_secs == v
            &&& env_u64(env, "MYAPP_HTTP_CONNECT_TIMEOUT_SECS"@) matches Some(v) ==> c.connect_timeout_secs == v
            &&& env_value(env, "MYAPP_API_KEY"@) matches Some(k) ==> c.api_key == Some(k) && pending is None
        },
        env_value(env, "MYAPP_API_KEY"@) is Some ==> layered_config(file, env) is Ok,
        env_value(env, "MYAPP_API_KEY"@) is None && env_value(env, "MYAPP_API_KEY_FILE"@) is None
            && file.api_key is Some && file.api_key_file is Some ==> layered_config(file, env) == Err::<
            (ConfigView, Option<Seq<char>>),
            Seq<char>,
        >(both_key_sources_text()),
{
}

/// Where the API key comes from, layer by layer: `MYAPP_API_KEY` gives it
/// inline; otherwise `MYAPP_API_KEY_FILE` names the file to read it from;
/// otherwise the file settings decide: `api_key` alone gives it inline,
/// `api_key_file` alone names the file to read it from (the key is then
/// pending on that path), both together are refused, and neither leaves no key.
pub proof fn lemma_key_source_layers<E: Env>(file: ConfigFile, env: &E)
    ensures
        env_value(env, "MYAPP_API_KEY"@) matches Some(k) ==> api_key_source(
            opt_view(file.api_key),
            opt_view(file.api_key_file),
            env,
        ) == Ok::<Option<KeySource>, Seq<char>>(Some(KeySource::Inline(k))),
        env_value(env, "MYAPP_API_KEY"@) is None ==> (env_value(env, "MYAPP_API_KEY_FILE"@) matches Some(p)
            ==> (layered_config(file, env) matches Ok((c, pending)) && c.api_key is None && pending == Some(p))),
        env_value(env, "MYAPP_API_KEY"@) is None && env_value(env, "MYAPP_API_KEY_FILE"@) is None
            && file.api_key is None ==> (file.api_key_file matches Some(p) ==> (api_key_source(
            opt_view(file.api_key),
            opt_view(file.api_key_file),
            env,
        ) == Ok::<Option<KeySource>, Seq<char>>(Some(KeySource::File(p@))) && (layered_config(
            file,
            env,
        ) matches Ok((c, pending)) && c.api_key is None && pending == Some(p@)))),
        env_value(env, "MYAPP_API_KEY"@) is None && env_value(env, "MYAPP_API_KEY_FILE"@) is None
            && file.api_key_file is None ==> (file.api_key matches Some(k) ==> (layered_config(file, env) matches Ok(
            (c, pending),
        ) && c.api_key == Some(k@) && pending is None)),
        env_value(env, "MYAPP_API_KEY"@) is None && env_value(env, "MYAPP_API_KEY_FILE"@) is None
            && file.api_key is None && file.api_key_file is None ==> (layered_config(file, env) matches Ok(
            (c, pending),
        ) && c.api_key is None && pending is None),
{
}

} // verus!
