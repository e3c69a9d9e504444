//! Which sources are switched on.
//!
//! The settings come from a file that the caller reads and deserialises.
//! What counts when the file is missing, empty or broken is decided here.

use vstd::prelude::*;

verus! {

/// The page that the cybersyndrome source reads unless told otherwise.
pub const CYBERSYNDROME_URL: &'static str = "https://www.cybersyndrome.net/plr6.html";

#[derive(Debug)]
pub struct ProviderConfig {
    pub enabled: bool,
    pub url: Option<String>,
}

#[derive(Debug)]
pub struct CybersyndromeConfig {
    pub enabled: bool,
    pub url: String,
}

#[derive(Debug)]
pub struct Providers {
    pub cool_proxy: Option<ProviderConfig>,
    pub free_proxy_list: Option<ProviderConfig>,
    pub cybersyndrome: Option<CybersyndromeConfig>,
    pub proxyscrape: Option<ProviderConfig>,
}

#[derive(Debug)]
pub struct Settings {
    pub providers: Providers,
}

/// The settings for one source as plain values: whether it is switched on,
/// and the page it reads where one is given.
pub type ConfigView = (bool, Option<Seq<char>>);

/// The settings as plain values; a source that the file does not mention is `None`.
pub struct SettingsView {
    pub cool_proxy: Option<ConfigView>,
    pub free_proxy_list: Option<ConfigView>,
    pub cybersyndrome: Option<ConfigView>,
    pub proxyscrape: Option<ConfigView>,
}

impl View for ProviderConfig {
    type V = ConfigView;

    open spec fn view(&self) -> ConfigView {
        (
            self.enabled,
            match self.url {
                Some(url) => Some(url@),
                None => None,
            },
        )
    }
}

impl View for CybersyndromeConfig {
    type V = ConfigView;

    open spec fn view(&self) -> ConfigView {
        (self.enabled, Some(self.url@))
    }
}

impl View for Settings {
    type V = SettingsView;

    open spec fn view(&self) -> SettingsView {
        SettingsView {
            cool_proxy: match self.providers.cool_proxy {
                Some(c) => Some(c@),
                None => None,
            },
            free_proxy_list: match self.providers.free_proxy_list {
                Some(c) => Some(c@),
                None => None,
            },
            cybersyndrome: match self.providers.cybersyndrome {
                Some(c) => Some(c@),
                None => None,
            },
            proxyscrape: match self.providers.proxyscrape {
                Some(c) => Some(c@),
                None => None,
            },
        }
    }
}

/// One of the built-in sources.
#[derive(Debug, Clone, Copy, PartialEq, Eq, Hash, Structural)]
pub enum Source {
    Cybersyndrome,
    ProxyScrape,
    CoolProxy,
    FreeProxyList,
}

/// Why there are no settings.
#[derive(Debug, Clone, Copy, PartialEq, Eq, Hash, Structural)]
pub enum ConfigError {
    /// The file holds text that is no configuration.
    Malformed,
}

/// Whether a source is mentioned and switched on.
pub open spec fn switched_on(config: Option<ConfigView>) -> bool {
    match config {
        Some((enabled, _)) => enabled,
        None => false,
    }
}

impl SettingsView {
    /// Every source switched on, each reading its usual page.
    pub open spec fn builtin() -> SettingsView {
        SettingsView {
            cool_proxy: Some((true, None)),
            free_proxy_list: Some((true, None)),
            cybersyndrome: Some((true, Some(CYBERSYNDROME_URL@))),
            proxyscrape: Some((true, None)),
        }
    }

    /// The sources that are switched on, in the order in which they are started.
    pub open spec fn sources(self) -> Seq<Source> {
        (if switched_on(self.cybersyndrome) {
            seq![Source::Cybersyndrome]
        } else {
            Seq::empty()
        }) + (if switched_on(self.proxyscrape) {
            seq![Source::ProxyScrape]
        } else {
            Seq::empty()
        }) + (if switched_on(self.cool_proxy) {
            seq![Source::CoolProxy]
        } else {
            Seq::empty()
        }) + (if switched_on(self.free_proxy_list) {
            seq![Source::FreeProxyList]
        } else {
            Seq::empty()
        })
    }
}

/// The four sources, in the order in which they are started.
pub open spec fn all_sources() -> Seq<Source> {
    seq![Source::Cybersyndrome, Source::ProxyScrape, Source::CoolProxy, Source::FreeProxyList]
}

impl Settings {
    /// The settings that hold without a file: every source switched on.
    pub fn builtin() -> (settings: Self)
        ensures
            settings@ == SettingsView::builtin(),
    {
        Settings {
            providers: Providers {
                cool_proxy: Some(ProviderConfig { enabled: true, url: None }),
                free_proxy_list: Some(ProviderConfig { enabled: true, url: None }),
                cybersyndrome: Some(
                    CybersyndromeConfig { enabled: true, url: CYBERSYNDROME_URL.to_owned() },
                ),
                proxyscrape: Some(ProviderConfig { enabled: true, url: None }),
            },
        }
    }

    /// The settings in force. `config_data` is the text of the file, empty
    /// where there is no file; `parsed` is what that text deserialises to,
    /// `None` where it does not. An empty text gives the built-in settings,
    /// any other gives what it deserialises to, or an error.
    pub fn new(config_data: &str, parsed: Option<Settings>) -> (settings: Result<
        Settings,
        ConfigError,
    >)
        ensures
            config_data@.len() == 0 ==> (settings matches Ok(s) && s@ == SettingsView::builtin()),
            config_data@.len() > 0 ==> match parsed {
                Some(p) => settings == Ok::<Settings, ConfigError>(p),
                None => settings == Err::<Settings, ConfigError>(ConfigError::Malformed),
            },
    {
        if config_data.is_empty() {
            return Ok(Settings::builtin());
        }
        match parsed {
            Some(settings) => Ok(settings),
            None => Err(ConfigError::Malformed),
        }
    }

    /// The sources that are switched on, in the order in which they are started.
    pub fn sources(&self) -> (list: Vec<Source>)
        ensures
            list@ == self@.sources(),
    {
        let mut list: Vec<Source> = Vec::new();
        match &self.providers.cybersyndrome {
            Some(config) => {
                if config.enabled {
                    list.push(Source::Cybersyndrome);
                }
            },
            None => {},
        }
        match &self.providers.proxyscrape {
            Some(config) => {
                if config.enabled {
                    list.push(Source::ProxyScrape);
                }
            },
            None => {},
        }
        match &self.providers.cool_proxy {
            Some(config) => {
                if config.enabled {
                    list.push(Source::CoolProxy);
                }
            },
            None => {},
        }
        match &self.providers.free_proxy_list {
            Some(config) => {
                if config.enabled {
                    list.push(Source::FreeProxyList);
                }
            },
            None => {},
        }
        assert(list@ =~= self@.sources());
        list
    }
}

/// The sources to start with: those that the settings switch on, or all
/// four where there are no settings.
pub fn startup_sources(settings: &Result<Settings, ConfigError>) -> (list: Vec<Source>)
    ensures
        list@ == match settings {
            Ok(s) => s@.sources(),
            Err(_) => all_sources(),
        },
{
    match settings {
        Ok(s) => s.sources(),
        Err(_) => {
            let mut list: Vec<Source> = Vec::new();
            list.push(Source::Cybersyndrome);
            list.push(Source::ProxyScrape);
            list.push(Source::CoolProxy);
            list.push(Source::FreeProxyList);
            assert(list@ =~= all_sources());
            list
        },
    }
}

/// With the built-in settings all four sources are started.
pub proof fn law_builtin_starts_all()
    ensures
        SettingsView::builtin().sources() == all_sources(),
{
    assert(SettingsView::builtin().sources() =~= all_sources());
}

} // verus!
