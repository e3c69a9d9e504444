use proxyrs::configuration::{
    startup_sources, ConfigError, CybersyndromeConfig, ProviderConfig, Providers, Settings, Source,
};

fn only_proxyscrape() -> Settings {
    Settings {
        providers: Providers {
            cool_proxy: Some(ProviderConfig { enabled: false, url: None }),
            free_proxy_list: None,
            cybersyndrome: Some(CybersyndromeConfig { enabled: false, url: "x".to_string() }),
            proxyscrape: Some(ProviderConfig { enabled: true, url: Some("y".to_string()) }),
        },
    }
}

const ALL: [Source; 4] =
    [Source::Cybersyndrome, Source::ProxyScrape, Source::CoolProxy, Source::FreeProxyList];

#[test]
fn builtin_settings_switch_everything_on() {
    let s = Settings::builtin();
    let cool = s.providers.cool_proxy.as_ref().unwrap();
    assert!(cool.enabled && cool.url.is_none());
    let free = s.providers.free_proxy_list.as_ref().unwrap();
    assert!(free.enabled && free.url.is_none());
    let scrape = s.providers.proxyscrape.as_ref().unwrap();
    assert!(scrape.enabled && scrape.url.is_none());
    let cyber = s.providers.cybersyndrome.as_ref().unwrap();
    assert!(cyber.enabled);
    assert_eq!(cyber.url, "https://www.cybersyndrome.net/plr6.html");
    assert_eq!(s.sources(), ALL.to_vec());
}

#[test]
fn empty_text_gives_builtin_settings() {
    let s = Settings::new("", None).unwrap();
    assert_eq!(s.sources(), ALL.to_vec());
    let s = Settings::new("", Some(only_proxyscrape())).unwrap();
    assert_eq!(s.sources(), ALL.to_vec());
}

#[test]
fn text_gives_what_it_deserialises_to() {
    let s = Settings::new("[providers]", Some(only_proxyscrape())).unwrap();
    assert_eq!(s.sources(), vec![Source::ProxyScrape]);
    assert_eq!(s.providers.proxyscrape.unwrap().url, Some("y".to_string()));
    assert!(s.providers.free_proxy_list.is_none());
}

#[test]
fn broken_text_is_an_error() {
    assert_eq!(Settings::new("[[[", None).err(), Some(ConfigError::Malformed));
    assert_eq!(Settings::new(" ", None).err(), Some(ConfigError::Malformed));
}

#[test]
fn sources_start_in_a_fixed_order() {
    let mut s = Settings::builtin();
    s.providers.proxyscrape = None;
    assert_eq!(s.sources(), vec![Source::Cybersyndrome, Source::CoolProxy, Source::FreeProxyList]);
    s.providers.cybersyndrome.as_mut().unwrap().enabled = false;
    assert_eq!(s.sources(), vec![Source::CoolProxy, Source::FreeProxyList]);
    s.providers.cool_proxy = None;
    s.providers.free_proxy_list = None;
    assert!(s.sources().is_empty());
}

#[test]
fn without_settings_every_source_is_started() {
    assert_eq!(startup_sources(&Err(ConfigError::Malformed)), ALL.to_vec());
    assert_eq!(startup_sources(&Ok(Settings::builtin())), ALL.to_vec());
    assert_eq!(startup_sources(&Ok(only_proxyscrape())), vec![Source::ProxyScrape]);
}
