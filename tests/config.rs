use relay::config::{AdminUrlKind, Config, ConfigError, Settings, UrlKind};
use relay::iri::{set_fragment, strip_fragment};

fn settings(hostname: &str, https: bool) -> Settings {
    Settings {
        hostname: hostname.to_string(),
        addr: "127.0.0.1".to_string(),
        port: 8080,
        debug: true,
        restricted_mode: false,
        validate_signatures: false,
        https,
        publish_blocks: false,
        sled_path: "./sled/db-0-34".to_string(),
        source_repo: "https://git.asonix.dog/asonix/relay".to_string(),
        opentelemetry_url: None,
        telegram_token: None,
        telegram_admin_handle: None,
        api_token: None,
        local_domains: vec!["example.com".to_string()],
    }
}

fn config() -> Config {
    Config::build(settings("example.com", true)).unwrap()
}

#[test]
fn base_uri_uses_scheme_and_hostname() {
    assert_eq!(config().base_uri(), "https://example.com");
    let plain = Config::build(settings("localhost:8080", false)).unwrap();
    assert_eq!(plain.base_uri(), "http://localhost:8080");
}

#[test]
fn invalid_hostname_is_rejected() {
    assert!(matches!(
        Config::build(settings("exa mple.com", true)),
        Err(ConfigError::InvalidBaseUri)
    ));
}

#[test]
fn public_urls() {
    let c = config();
    assert_eq!(c.do_generate_url(UrlKind::Actor).unwrap(), "https://example.com/actor");
    assert_eq!(c.do_generate_url(UrlKind::Followers).unwrap(), "https://example.com/followers");
    assert_eq!(c.do_generate_url(UrlKind::Following).unwrap(), "https://example.com/following");
    assert_eq!(c.do_generate_url(UrlKind::Inbox).unwrap(), "https://example.com/inbox");
    assert_eq!(c.do_generate_url(UrlKind::Outbox).unwrap(), "https://example.com/outbox");
    assert_eq!(c.do_generate_url(UrlKind::Index).unwrap(), "https://example.com");
    assert_eq!(
        c.do_generate_url(UrlKind::NodeInfo).unwrap(),
        "https://example.com/nodeinfo/2.0.json"
    );
    assert_eq!(
        c.do_generate_url(UrlKind::MainKey).unwrap(),
        "https://example.com/actor#main-key"
    );
}

#[test]
fn main_key_is_actor_with_fragment() {
    let c = config();
    let actor = c.do_generate_url(UrlKind::Actor).unwrap();
    let main_key = c.do_generate_url(UrlKind::MainKey).unwrap();
    assert_eq!(set_fragment(&actor, "main-key"), main_key);
    assert_eq!(format!("{}#main-key", actor), main_key);
}

#[test]
fn media_url_holds_the_uuid() {
    let c = config();
    let id: u128 = 0x67e5_5044_10b1_426f_9247_bb68_0e5f_e0c8;
    assert_eq!(
        c.do_generate_url(UrlKind::Media(id)).unwrap(),
        "https://example.com/media/67e55044-10b1-426f-9247-bb680e5fe0c8"
    );
}

#[test]
fn activity_urls_are_fresh() {
    let c = config();
    let a = c.do_generate_url(UrlKind::Activity).unwrap();
    let b = c.do_generate_url(UrlKind::Activity).unwrap();
    assert!(a.starts_with("https://example.com/activity/"));
    assert_eq!(a.len(), "https://example.com/activity/".len() + 36);
    assert_ne!(a, b);
    assert_eq!(
        c.generate_url_with(UrlKind::Activity, 1).unwrap(),
        "https://example.com/activity/00000000-0000-0000-0000-000000000001"
    );
}

#[test]
fn admin_urls() {
    let c = config();
    let cases = [
        (AdminUrlKind::Allow, "allow"),
        (AdminUrlKind::Disallow, "disallow"),
        (AdminUrlKind::Block, "block"),
        (AdminUrlKind::Unblock, "unblock"),
        (AdminUrlKind::Allowed, "allowed"),
        (AdminUrlKind::Blocked, "blocked"),
        (AdminUrlKind::Connected, "connected"),
    ];
    for (kind, path) in cases {
        assert_eq!(
            c.do_generate_admin_url(kind).unwrap(),
            format!("https://example.com/api/v1/admin/{}", path)
        );
    }
}

#[test]
fn set_fragment_replaces_existing_fragment() {
    assert_eq!(set_fragment("http://a/b#x", "main-key"), "http://a/b#main-key");
    assert_eq!(set_fragment("http://a/b", "k"), "http://a/b#k");
    assert_eq!(set_fragment("", "k"), "#k");
}

#[test]
fn user_agent_and_versions() {
    let c = config();
    assert_eq!(Config::software_name(), "AodeRelay");
    assert_eq!(Config::software_version("0.3.1", None, None), "v0.3.1");
    assert_eq!(Config::software_version("0.3.1", Some("main"), None), "v0.3.1");
    assert_eq!(
        Config::software_version("0.3.1", Some("main"), Some("abc123")),
        "v0.3.1-main-abc123"
    );
    assert_eq!(Config::git_version(Some("main"), Some("abc")), Some("main-abc".to_string()));
    assert_eq!(
        c.user_agent("relay", "v0.3.1"),
        "AodeRelay (relay/v0.3.1; +https://example.com)"
    );
    assert_eq!(c.generate_resource(), "relay@example.com");
}

#[test]
fn telegram_info_needs_both_parts() {
    assert_eq!(config().telegram_info(), None);
    let mut s = settings("example.com", true);
    s.telegram_token = Some("tok".to_string());
    assert_eq!(Config::build(s).unwrap().telegram_info(), None);
    let mut s = settings("example.com", true);
    s.telegram_token = Some("tok".to_string());
    s.telegram_admin_handle = Some("admin".to_string());
    assert_eq!(Config::build(s).unwrap().telegram_info(), Some(("tok", "admin")));
}

#[test]
fn accessors_return_settings() {
    let c = config();
    assert_eq!(c.hostname(), "example.com");
    assert_eq!(c.port(), 8080);
    assert!(c.debug());
    assert!(!c.restricted_mode());
    assert!(!c.validate_signatures());
    assert!(!c.publish_blocks());
    assert_eq!(c.addr(), "127.0.0.1");
    assert_eq!(c.sled_path(), "./sled/db-0-34");
    assert_eq!(c.source_code(), "https://git.asonix.dog/asonix/relay");
    assert_eq!(c.opentelemetry_url(), None);
    assert_eq!(c.api_token(), None);
    assert_eq!(c.local_domains(), &vec!["example.com".to_string()]);
}

#[test]
fn key_id_names_its_actor() {
    assert_eq!(strip_fragment("https://a.test/actor#main-key"), "https://a.test/actor");
    assert_eq!(strip_fragment("https://a.test/actor"), "https://a.test/actor");
    assert_eq!(strip_fragment("#x"), "");
    let c = config();
    let main_key = c.do_generate_url(UrlKind::MainKey).unwrap();
    assert_eq!(strip_fragment(&main_key), c.do_generate_url(UrlKind::Actor).unwrap());
}
