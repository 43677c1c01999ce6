//! Settings: the mode, and the section of the model router, with their defaults and rules.
use crate::measure::Threshold;
use crate::text::opt_string_view;
use vstd::prelude::*;

verus! {

/// The file that is read where no other is named.
pub const DEFAULT_CONFIG: &'static str = "vg-mirror.toml";

/// What the proxy does with the model that a request names.
#[derive(Debug, Clone, Copy, Default, PartialEq, Eq, Structural)]
pub enum Mode {
    /// Pass it on.
    #[default]
    Off,
    /// Ask the classifier how hard the request is, and choose a model of that tier.
    ModelRouter,
}

/// The section of the model router.
#[derive(Debug)]
pub struct RouterConfig {
    /// The models of the three tiers.
    pub small: String,
    pub medium: String,
    pub frontier: String,
    /// Whether the classifier sees the conversation, or the last request of the user alone.
    pub include_context: bool,
    /// How many characters the classifier sees at most.
    pub max_state_chars: usize,
    /// A cheap request goes to the small model where it is above this bound.
    pub cheap_threshold: Threshold,
    pub classifier_url: String,
    pub classifier_model: String,
    /// How long the classifier may take.
    pub timeout_ms: u64,
    /// Where training data is written; nowhere when empty.
    pub log_path: Option<String>,
}

/// The settings.
#[derive(Debug)]
pub struct Config {
    pub mode: Mode,
    pub model_router: Option<RouterConfig>,
}

/// What became of reading the settings file.
pub enum ConfigFile {
    /// There is no such file.
    Missing(String),
    /// It could not be read for another reason.
    Unreadable(String),
    /// It does not hold settings.
    Malformed(String),
    /// The settings that it holds.
    Parsed(Config),
}

pub fn yes() -> (r: bool)
    ensures
        r,
{
    true
}

pub fn default_max_state_chars() -> (r: usize)
    ensures
        r == 24_000,
{
    24_000
}

pub fn default_classifier_url() -> (r: String)
    ensures
        r@ == "https://api.typesafe.ai/v1/systemone"@,
{
    "https://api.typesafe.ai/v1/systemone".to_owned()
}

pub fn default_classifier_model() -> (r: String)
    ensures
        r@ == "jev-latest"@,
{
    "jev-latest".to_owned()
}

pub fn default_timeout_ms() -> (r: u64)
    ensures
        r == 5_000,
{
    5_000
}

pub fn default_log_path() -> (r: Option<String>)
    ensures
        opt_string_view(r) == Some("vg-mirror-router.jsonl"@),
{
    Some("vg-mirror-router.jsonl".to_owned())
}

impl Default for Config {
    fn default() -> (r: Config)
        ensures
            r.mode == Mode::Off,
            r.model_router is None,
    {
        Config { mode: Mode::Off, model_router: None }
    }
}

/// The file that the settings are read from.
pub open spec fn config_file(path: Option<Seq<char>>) -> Seq<char> {
    match path {
        Some(p) => p,
        None => DEFAULT_CONFIG@,
    }
}

/// The router is on, but has no section.
pub open spec fn lacks_section(cfg: Config) -> bool {
    cfg.mode == Mode::ModelRouter && cfg.model_router is None
}

/// The message on a settings file that is refused; none where it is taken.
pub open spec fn load_error(path: Option<Seq<char>>, file: ConfigFile) -> Option<Seq<char>> {
    let p = config_file(path);
    match file {
        ConfigFile::Missing(e) => if path is Some {
            Some("read "@ + p + ": "@ + e@)
        } else {
            None
        },
        ConfigFile::Unreadable(e) => Some("read "@ + p + ": "@ + e@),
        ConfigFile::Malformed(e) => Some("parse "@ + p + ": "@ + e@),
        ConfigFile::Parsed(cfg) => if lacks_section(cfg) {
            Some(p + ": mode = \"model-router\" requires a [model-router] section"@)
        } else {
            None
        },
    }
}

/// The file that the settings are read from: the one named, or the default one.
pub fn config_path(path: Option<&str>) -> (r: String)
    ensures
        r@ == config_file(crate::text::opt_view(path)),
{
    match path {
        Some(p) => p.to_owned(),
        None => DEFAULT_CONFIG.to_owned(),
    }
}

fn failed(verb: &str, path: &str, e: &str) -> (r: String)
    ensures
        r@ == verb@ + path@ + ": "@ + e@,
{
    let mut s = verb.to_owned();
    s.push_str(path);
    s.push_str(": ");
    s.push_str(e);
    s
}

impl Config {
    /// The settings that hold after the file was read, and the file that they came from. A file
    /// that is named must be there; the default one may be missing.
    pub fn load(path: Option<&str>, file: ConfigFile) -> (r: Result<(Config, Option<String>), String>)
        ensures
            ({
                let named = crate::text::opt_view(path);
                match r {
                    Err(e) => load_error(named, file) == Some(e@),
                    Ok((cfg, from)) => {
                        &&& load_error(named, file) is None
                        &&& match file {
                            ConfigFile::Parsed(parsed) => cfg == parsed && opt_string_view(from)
                                == Some(config_file(named)),
                            _ => cfg.mode == Mode::Off && cfg.model_router is None && from is None,
                        }
                    },
                }
            }),
    {
        let p = config_path(path);
        match file {
            ConfigFile::Missing(e) => {
                if path.is_some() {
                    Err(failed("read ", p.as_str(), e.as_str()))
                } else {
                    Ok((Config::default(), None))
                }
            },
            ConfigFile::Unreadable(e) => Err(failed("read ", p.as_str(), e.as_str())),
            ConfigFile::Malformed(e) => Err(failed("parse ", p.as_str(), e.as_str())),
            ConfigFile::Parsed(cfg) => {
                if cfg.mode == Mode::ModelRouter && cfg.model_router.is_none() {
                    let mut s = p;
                    s.push_str(": mode = \"model-router\" requires a [model-router] section");
                    return Err(s);
                }
                Ok((cfg, Some(p)))
            },
        }
    }
}

/// Settings that were loaded have a section for the router wherever it is on.
pub proof fn law_loaded_router_has_section(path: Option<Seq<char>>, cfg: Config)
    requires
        load_error(path, ConfigFile::Parsed(cfg)) is None,
        cfg.mode == Mode::ModelRouter,
    ensures
        cfg.model_router is Some,
{
}

/// A settings file that is named must be there and be in order; the default one may be missing,
/// and then the router is off.
pub proof fn law_which_settings_are_refused(path: Option<Seq<char>>, e: String, cfg: Config)
    ensures
        load_error(path, ConfigFile::Missing(e)) is Some <==> path is Some,
        load_error(path, ConfigFile::Unreadable(e)) is Some,
        load_error(path, ConfigFile::Malformed(e)) is Some,
        load_error(path, ConfigFile::Parsed(cfg)) is Some <==> cfg.mode == Mode::ModelRouter
            && cfg.model_router is None,
        path matches Some(p) ==> load_error(path, ConfigFile::Missing(e)) == Some(
            "read "@ + p + ": "@ + e@,
        ) && load_error(path, ConfigFile::Unreadable(e)) == Some("read "@ + p + ": "@ + e@)
            && load_error(path, ConfigFile::Malformed(e)) == Some("parse "@ + p + ": "@ + e@),
{
}

} // verus!
