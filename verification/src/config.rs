//! Configuration schema and the provider environment overlay. Reading files
//! and the process environment is left to the caller; the functions here say
//! what the values read mean for the configuration.

use vstd::prelude::*;
use crate::utils::env::{nonempty_value, nonempty_spec, opt_str_view};
use crate::utils::text::{trim, trim_spec};

verus! {

/// Declares `std::path::PathBuf`, which the configuration carries unchanged.
#[verifier::external_type_specification]
#[verifier::external_body]
pub struct ExPathBuf(std::path::PathBuf);

/// Configuration schema.
#[derive(Debug)]
pub struct Config {
    /// API key (may be empty for local, unauthenticated endpoints).
    pub api_key: String,
    /// Model name to use.
    pub model: String,
    /// Base URL of the OpenAI-compatible API.
    pub base_url: String,
    /// Logging level.
    pub log_level: String,
    /// Directory where plugins are stored.
    pub plugins_path: std::path::PathBuf,
    /// Optional maximum number of concurrent requests.
    pub max_concurrent_requests: Option<usize>,
}

/// The provider variables as read from the environment (`None` when unset or
/// not valid Unicode).
pub struct ProviderEnv {
    pub openai_api_key: Option<String>,
    pub openai_base_url: Option<String>,
    pub openai_model: Option<String>,
    pub rust_log: Option<String>,
}

pub struct ConfigView {
    pub api_key: Seq<char>,
    pub model: Seq<char>,
    pub base_url: Seq<char>,
    pub log_level: Seq<char>,
    pub plugins_path: std::path::PathBuf,
    pub max_concurrent_requests: Option<usize>,
}

pub struct ProviderEnvView {
    pub openai_api_key: Option<Seq<char>>,
    pub openai_base_url: Option<Seq<char>>,
    pub openai_model: Option<Seq<char>>,
    pub rust_log: Option<Seq<char>>,
}

impl View for Config {
    type V = ConfigView;

    open spec fn view(&self) -> ConfigView {
        ConfigView {
            api_key: self.api_key@,
            model: self.model@,
            base_url: self.base_url@,
            log_level: self.log_level@,
            plugins_path: self.plugins_path,
            max_concurrent_requests: self.max_concurrent_requests,
        }
    }
}

impl View for ProviderEnv {
    type V = ProviderEnvView;

    open spec fn view(&self) -> ProviderEnvView {
        ProviderEnvView {
            openai_api_key: self.openai_api_key.deep_view(),
            openai_base_url: self.openai_base_url.deep_view(),
            openai_model: self.openai_model.deep_view(),
            rust_log: self.rust_log.deep_view(),
        }
    }
}

pub open spec fn or_keep(v: Option<Seq<char>>, old: Seq<char>) -> Seq<char> {
    match v {
        Some(x) => x,
        None => old,
    }
}

/// `RUST_LOG` replaces the level only when it holds more than whitespace.
pub open spec fn log_override(raw: Option<Seq<char>>, old: Seq<char>) -> Seq<char> {
    match raw {
        Some(l) => if trim_spec(l).len() > 0 {
            l
        } else {
            old
        },
        None => old,
    }
}

/// The configuration after the provider variables are laid over it: a
/// non-blank `OPENAI_API_KEY`, `OPENAI_BASE_URL` or `OPENAI_MODEL` replaces the
/// field (trimmed); a non-blank `RUST_LOG` replaces the level (as given).
pub open spec fn overlay(c: ConfigView, env: ProviderEnvView) -> ConfigView {
    ConfigView {
        api_key: or_keep(nonempty_spec(env.openai_api_key), c.api_key),
        base_url: or_keep(nonempty_spec(env.openai_base_url), c.base_url),
        model: or_keep(nonempty_spec(env.openai_model), c.model),
        log_level: log_override(env.rust_log, c.log_level),
        ..c
    }
}

/// The configuration built from the provider variables alone: no provider
/// defaults; the level is `RUST_LOG` as given, or `info` when it is unset.
pub open spec fn from_env_spec(env: ProviderEnvView, plugins_path: std::path::PathBuf) -> ConfigView {
    overlay(
        ConfigView {
            api_key: or_keep(nonempty_spec(env.openai_api_key), Seq::empty()),
            model: or_keep(nonempty_spec(env.openai_model), Seq::empty()),
            base_url: or_keep(nonempty_spec(env.openai_base_url), Seq::empty()),
            log_level: match env.rust_log {
                Some(l) => l,
                None => "info"@,
            },
            plugins_path,
            max_concurrent_requests: None,
        },
        env,
    )
}

fn opt_as_str(o: &Option<String>) -> (r: Option<&str>)
    ensures
        opt_str_view(r) == o.deep_view(),
{
    match o {
        Some(s) => Some(s.as_str()),
        None => None,
    }
}

/// Lays the provider variables over a loaded configuration.
pub fn apply_env_overrides(cfg: &mut Config, env: &ProviderEnv)
    ensures
        final(cfg)@ == overlay(old(cfg)@, env@),
{
    if let Some(k) = nonempty_value(opt_as_str(&env.openai_api_key)) {
        cfg.api_key = k;
    }
    if let Some(u) = nonempty_value(opt_as_str(&env.openai_base_url)) {
        cfg.base_url = u;
    }
    if let Some(m) = nonempty_value(opt_as_str(&env.openai_model)) {
        cfg.model = m;
    }
    if let Some(lvl) = &env.rust_log {
        if trim(lvl.as_str()).as_str().unicode_len() > 0 {
            cfg.log_level = lvl.clone();
        }
    }
}

/// Builds the configuration from the provider variables (after `.env` is loaded
/// by the caller). Missing variables stay empty.
pub fn load_from_env(env: &ProviderEnv, plugins_path: std::path::PathBuf) -> (r: Config)
    ensures
        r@ == from_env_spec(env@, plugins_path),
{
    let model = match nonempty_value(opt_as_str(&env.openai_model)) {
        Some(m) => m,
        None => String::new(),
    };
    let base_url = match nonempty_value(opt_as_str(&env.openai_base_url)) {
        Some(u) => u,
        None => String::new(),
    };
    let log_level = match &env.rust_log {
        Some(l) => l.clone(),
        None => String::from_str("info"),
    };
    let mut cfg = Config {
        api_key: String::new(),
        model,
        base_url,
        log_level,
        plugins_path,
        max_concurrent_requests: None,
    };
    if let Some(k) = nonempty_value(opt_as_str(&env.openai_api_key)) {
        cfg.api_key = k;
    }
    apply_env_overrides(&mut cfg, env);
    cfg
}

/// Laying the provider variables over a configuration twice gives what laying
/// them once gives.
pub proof fn law_overlay_idempotent(c: ConfigView, env: ProviderEnvView)
    ensures
        overlay(overlay(c, env), env) == overlay(c, env),
{
}

/// A configuration built from the environment is unchanged by the overlay.
pub proof fn law_from_env_is_overlay_fixpoint(env: ProviderEnvView, plugins_path: std::path::PathBuf)
    ensures
        overlay(from_env_spec(env, plugins_path), env) == from_env_spec(env, plugins_path),
{
}

/// No provider defaults: a field whose variable is unset or blank is empty.
pub proof fn law_no_provider_defaults(env: ProviderEnvView, plugins_path: std::path::PathBuf)
    requires
        nonempty_spec(env.openai_model) is None,
        nonempty_spec(env.openai_base_url) is None,
        nonempty_spec(env.openai_api_key) is None,
    ensures
        from_env_spec(env, plugins_path).model.len() == 0,
        from_env_spec(env, plugins_path).base_url.len() == 0,
        from_env_spec(env, plugins_path).api_key.len() == 0,
{
}

} // verus!
