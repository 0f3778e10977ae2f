//! Decryption-credential resolution for encrypted log versions.
//!
//! A credential may come from three layered sources, first match wins: a
//! runtime environment value, the persisted application config, or a
//! development-only `.env` file with `KEY=value` lines. Empty values and the
//! documentation placeholder count as absent. The resolver caches its first
//! answer for its lifetime: a credential saved later is not picked up until a
//! fresh resolver is built.
//!
//! Reading the environment and the files, and the JSON round trip of the
//! config object, are input/output and stay with the caller; this module gets
//! the raw source values and decides.

use vstd::prelude::*;
use vstd::string::StringExecFns;

verus! {

/// Errors of the credential subsystem.
#[derive(Debug)]
pub enum ApiError {
    /// Transport-level failure of the outbound key request, verbatim.
    Http(String),
    /// Explicit error payload returned by the remote service, verbatim.
    ApiResponse(String),
    /// No credential is configured, or no storage location is available.
    ApiKeyNotConfigured,
    /// Failure reading or writing the persisted config.
    Io(String),
}

impl ApiError {
    /// A human-readable description of the error.
    pub fn message(&self) -> (m: String)
        ensures
            m@.len() > 0,
    {
        let m = match self {
            ApiError::Http(e) => "HTTP error: ".to_owned().concat(e.as_str()),
            ApiError::ApiResponse(e) => "API returned error: ".to_owned().concat(e.as_str()),
            ApiError::ApiKeyNotConfigured => "API key not configured".to_owned(),
            ApiError::Io(e) => "IO error: ".to_owned().concat(e.as_str()),
        };
        proof {
            reveal_strlit("HTTP error: ");
            reveal_strlit("API returned error: ");
            reveal_strlit("API key not configured");
            reveal_strlit("IO error: ");
        }
        m
    }
}

/// Persisted configuration object. The on-disk form is a JSON object with an
/// optional credential field; unknown fields of that object belong to the
/// caller's round trip and are not represented here.
pub struct AppConfig {
    pub dji_api_key: Option<String>,
}

impl AppConfig {
    /// An empty configuration.
    pub fn new() -> (c: AppConfig)
        ensures
            c.dji_api_key is None,
    {
        AppConfig { dji_api_key: None }
    }
}

/// The placeholder value that documentation examples carry; never a real key.
pub open spec fn spec_placeholder() -> Seq<char> {
    "your_api_key_here"@
}

/// The view of an optional credential.
pub open spec fn okv(o: Option<String>) -> Option<Seq<char>> {
    match o {
        Some(s) => Some(s@),
        None => None,
    }
}

/// Whether a source value counts as a usable credential: present, non-empty,
/// and not the documentation placeholder.
pub open spec fn spec_usable(k: Option<Seq<char>>) -> bool {
    match k {
        Some(s) => s.len() > 0 && s != spec_placeholder(),
        None => false,
    }
}

/// Credential precedence, first match wins: environment, then config (which
/// only needs to be non-empty), then the development fallback.
pub open spec fn spec_resolve(
    env: Option<Seq<char>>,
    config: Option<Seq<char>>,
    dotenv: Option<Seq<char>>,
) -> Option<Seq<char>> {
    if spec_usable(env) {
        env
    } else if config is Some && config->0.len() > 0 {
        config
    } else if spec_usable(dotenv) {
        dotenv
    } else {
        None
    }
}

/// Whether a source value is present, non-empty, and not the placeholder.
fn key_usable(k: &Option<String>) -> (r: bool)
    ensures
        r == spec_usable(okv(*k)),
{
    match k {
        Some(s) => {
            let ph: String = "your_api_key_here".to_owned();
            !s.as_str().is_empty() && !(*s == ph)
        },
        None => false,
    }
}

/// Pick a credential from the three layered sources.
pub fn resolve_api_key(env: Option<String>, config: Option<String>, dotenv: Option<String>) -> (r:
    Option<String>)
    ensures
        okv(r) == spec_resolve(okv(env), okv(config), okv(dotenv)),
{
    if key_usable(&env) {
        env
    } else if match &config {
        Some(s) => !s.as_str().is_empty(),
        None => false,
    } {
        config
    } else if key_usable(&dotenv) {
        dotenv
    } else {
        None
    }
}

/// Clone an optional credential, preserving its view.
fn clone_opt_key(o: &Option<String>) -> (r: Option<String>)
    ensures
        okv(r) == okv(*o),
{
    match o {
        Some(s) => Some(s.clone()),
        None => None,
    }
}

/// Credential resolver with a lifetime cache, dependency-injected where the
/// caller needs one.
pub struct DjiApi {
    /// Where the persisted config lives, when the caller has such a place.
    pub app_data_dir: Option<String>,
    /// The first resolution's answer; `None` until a lookup happens.
    pub cached_key: Option<Option<String>>,
}

impl DjiApi {
    /// A resolver with no config storage location.
    pub fn new() -> (api: DjiApi)
        ensures
            api.app_data_dir is None,
            api.cached_key is None,
    {
        DjiApi { app_data_dir: None, cached_key: None }
    }

    /// A resolver whose persisted config lives under the given directory.
    pub fn with_app_data_dir(app_data_dir: String) -> (api: DjiApi)
        ensures
            api.app_data_dir == Some(app_data_dir),
            api.cached_key is None,
    {
        DjiApi { app_data_dir: Some(app_data_dir), cached_key: None }
    }

    /// Resolve the credential from the given source values, caching the first
    /// answer: later calls return the cached value and ignore their arguments.
    pub fn get_api_key(
        &mut self,
        env: Option<String>,
        config: Option<String>,
        dotenv: Option<String>,
    ) -> (r: Option<String>)
        ensures
            final(self).app_data_dir == old(self).app_data_dir,
            match old(self).cached_key {
                Some(c) => final(self).cached_key == old(self).cached_key && okv(r) == okv(c),
                None => {
                    &&& okv(r) == spec_resolve(okv(env), okv(config), okv(dotenv))
                    &&& match final(self).cached_key {
                        Some(c) => okv(c) == okv(r),
                        None => false,
                    }
                },
            },
    {
        match &self.cached_key {
            Some(c) => clone_opt_key(c),
            None => {
                let r = resolve_api_key(env, config, dotenv);
                self.cached_key = Some(clone_opt_key(&r));
                r
            },
        }
    }

    /// Whether a credential is available, resolving and caching like
    /// [`DjiApi::get_api_key`].
    pub fn has_api_key(
        &mut self,
        env: Option<String>,
        config: Option<String>,
        dotenv: Option<String>,
    ) -> (r: bool)
        ensures
            final(self).app_data_dir == old(self).app_data_dir,
            match old(self).cached_key {
                Some(c) => final(self).cached_key == old(self).cached_key && r == (c is Some),
                None => {
                    &&& r == (spec_resolve(okv(env), okv(config), okv(dotenv)) is Some)
                    &&& final(self).cached_key is Some
                },
            },
    {
        let r = self.get_api_key(env, config, dotenv);
        r.is_some()
    }

    /// Merge a credential into the persisted config object. Fails when the
    /// resolver has no storage location. Never refreshes the cache: the
    /// documented limitation that a save is only seen after a restart.
    pub fn save_api_key(&self, config: &mut AppConfig, api_key: &str) -> (res: Result<
        (),
        ApiError,
    >)
        ensures
            match res {
                Ok(()) => {
                    &&& self.app_data_dir is Some
                    &&& okv(final(config).dji_api_key) == Some(api_key@)
                },
                Err(e) => {
                    &&& self.app_data_dir is None
                    &&& e is ApiKeyNotConfigured
                    &&& *final(config) == *old(config)
                },
            },
    {
        match &self.app_data_dir {
            None => Err(ApiError::ApiKeyNotConfigured),
            Some(_) => {
                config.dji_api_key = Some(api_key.to_owned());
                Ok(())
            },
        }
    }
}

impl Default for DjiApi {
    /// A resolver with no config storage location.
    fn default() -> (api: DjiApi)
        ensures
            api.app_data_dir is None,
            api.cached_key is None,
    {
        DjiApi::new()
    }
}

/// Caching law: once a lookup has happened, a second lookup returns the same
/// answer whatever sources it is handed — a credential saved after the first
/// resolution is not picked up in-process.
pub proof fn lemma_cache_is_stable(
    api0: DjiApi,
    api1: DjiApi,
    r1: Option<String>,
    env1: Option<Seq<char>>,
    config1: Option<Seq<char>>,
    dotenv1: Option<Seq<char>>,
    r2: Option<Seq<char>>,
)
    requires
        // after a first lookup: the cache holds that lookup's answer
        api0.cached_key is Some,
        okv(api0.cached_key->0) == okv(r1),
        // a second lookup on any sources behaves as get_api_key ensures
        api1 == api0,
        match api1.cached_key {
            Some(c) => r2 == okv(c),
            None => r2 == spec_resolve(env1, config1, dotenv1),
        },
    ensures
        r2 == okv(r1),
{
}

/// Precedence law: with a usable environment value the environment wins; with
/// none, a non-empty config value wins over the development fallback; the
/// fallback answers only when it is usable and both better sources are not.
pub proof fn lemma_precedence(
    env: Option<Seq<char>>,
    config: Option<Seq<char>>,
    dotenv: Option<Seq<char>>,
)
    ensures
        spec_usable(env) ==> spec_resolve(env, config, dotenv) == env,
        !spec_usable(env) && config is Some && config->0.len() > 0 ==> spec_resolve(
            env,
            config,
            dotenv,
        ) == config,
        !spec_usable(env) && !(config is Some && config->0.len() > 0) && spec_usable(dotenv)
            ==> spec_resolve(env, config, dotenv) == dotenv,
        !spec_usable(env) && !(config is Some && config->0.len() > 0) && !spec_usable(dotenv)
            ==> spec_resolve(env, config, dotenv) is None,
{
}

} // verus!
