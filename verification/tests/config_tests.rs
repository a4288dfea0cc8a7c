use odoo_mcp::config::{profile_name, Config, ConfigError, ConnectionConfig, ProfileUpdate};
use odoo_mcp::sources::SourceConfig;

fn conn(url: &str) -> ConnectionConfig {
    let mut c = ConnectionConfig::default();
    c.url = Some(url.to_string());
    c
}

fn update() -> ProfileUpdate {
    ProfileUpdate { url: None, db: None, username: None, password: None, ext_url: None, cert: None, key: None, safe_mode: None }
}

#[test]
fn insert_replaces_by_name() {
    let mut cfg = Config::new();
    cfg.insert("prod", conn("https://a"));
    cfg.insert("prod", conn("https://b"));
    assert_eq!(cfg.entries().len(), 1);
    assert_eq!(cfg.connection("prod").url, Some("https://b".to_string()));
    assert_eq!(cfg.connection("missing"), ConnectionConfig::default());
    assert!(cfg.contains("prod"));
    assert!(!cfg.contains("dev"));
}

#[test]
fn set_then_get() {
    let mut cfg = Config::new();
    cfg.insert("dev", conn("http://dev"));
    let mut u = update();
    u.url = Some("https://prod".to_string());
    u.password = Some("pw".to_string());
    cfg.set_profile("prod", &u, true);
    let p = cfg.connection("prod");
    assert_eq!(p.url, Some("https://prod".to_string()));
    assert_eq!(p.password, Some("pw".to_string()));
    assert_eq!(p.db, None);
    assert_eq!(cfg.default, Some("prod".to_string()));
    // a second update keeps values it does not give
    let mut u2 = update();
    u2.db = Some("mydb".to_string());
    cfg.set_profile("prod", &u2, false);
    let p = cfg.connection("prod");
    assert_eq!(p.url, Some("https://prod".to_string()));
    assert_eq!(p.db, Some("mydb".to_string()));
    assert_eq!(cfg.default, Some("prod".to_string()));
    // other profiles untouched
    assert_eq!(cfg.connection("dev").url, Some("http://dev".to_string()));
}

#[test]
fn remove_clears_default() {
    let mut cfg = Config::new();
    cfg.insert("a", conn("http://a"));
    cfg.insert("b", conn("http://b"));
    cfg.set_default("a").unwrap();
    assert_eq!(cfg.default, Some("a".to_string()));
    cfg.remove_profile("b").unwrap();
    assert_eq!(cfg.default, Some("a".to_string()));
    cfg.remove_profile("a").unwrap();
    assert_eq!(cfg.default, None);
    assert!(!cfg.contains("a"));
    let e = cfg.remove_profile("a").unwrap_err();
    assert_eq!(e, ConfigError::ProfileNotFound { profile: "a".to_string() });
    assert_eq!(e.message(), "Profile 'a' not found");
    let e = cfg.set_default("zzz").unwrap_err();
    assert_eq!(e.message(), "Profile 'zzz' not found");
}

#[test]
fn masked_hides_secrets() {
    let mut c = conn("http://a");
    c.password = Some("pw".to_string());
    c.key = Some("/k".to_string());
    c.db = Some("db".to_string());
    c.sources = vec![SourceConfig {
        path: "/src".to_string(),
        origin: None,
        branch: None,
        ssh_key: Some("/ssh".to_string()),
        token: Some("ghp".to_string()),
        update_on_serve: true,
    }];
    let mut cfg = Config::new();
    cfg.insert("a", c);
    cfg.insert("b", conn("http://b"));
    let m = cfg.masked();
    let a = m.connection("a");
    assert_eq!(a.password, Some("***".to_string()));
    assert_eq!(a.key, Some("***".to_string()));
    assert_eq!(a.db, Some("db".to_string()));
    assert_eq!(a.sources[0].token, Some("***".to_string()));
    assert_eq!(a.sources[0].ssh_key, Some("/ssh".to_string()));
    let b = m.connection("b");
    assert_eq!(b.password, None);
    assert_eq!(b.key, None);
    // masking twice changes nothing more
    assert_eq!(m.masked().connection("a"), a);
}

#[test]
fn profile_list_is_sorted_and_marks_default() {
    let empty = Config::new();
    assert_eq!(empty.profile_lines(), vec!["No profiles configured. Run: odoo-mcp init".to_string()]);

    let mut cfg = Config::new();
    cfg.insert("staging", conn("https://staging"));
    cfg.insert("local", ConnectionConfig::default());
    cfg.insert("production", conn("https://prod"));
    cfg.default = Some("production".to_string());
    let lines = cfg.profile_lines();
    assert_eq!(
        lines,
        vec![
            format!("  {:<20} {}{}", "local", "(no url)", ""),
            format!("  {:<20} {}{}", "production", "https://prod", "  ← default"),
            format!("  {:<20} {}{}", "staging", "https://staging", ""),
        ]
    );
    assert_eq!(cfg.sorted_names(), vec!["local", "production", "staging"]);
}

#[test]
fn sorted_names_follow_string_order() {
    let mut cfg = Config::new();
    let names = ["b", "B", "ab", "a", "é", "a b", ""];
    for n in names {
        cfg.insert(n, ConnectionConfig::default());
    }
    let mut expected: Vec<String> = names.iter().map(|s| s.to_string()).collect();
    expected.sort();
    assert_eq!(cfg.sorted_names(), expected);
}

#[test]
fn profile_selection() {
    assert_eq!(profile_name(Some("cli"), Some("cfg")), "cli");
    assert_eq!(profile_name(None, Some("cfg")), "cfg");
    assert_eq!(profile_name(None, None), "default");
}

#[test]
fn safe_mode_is_on_unless_disabled() {
    let mut cfg = Config::new();
    cfg.insert("p", conn("http://p"));
    assert!(cfg.connection("p").safe_mode());
    assert!(ConnectionConfig::default().safe_mode());
    let mut u = update();
    u.safe_mode = Some(false);
    cfg.set_profile("p", &u, false);
    assert!(!cfg.connection("p").safe_mode());
    // an update that does not mention it keeps it
    let mut u2 = update();
    u2.db = Some("x".to_string());
    cfg.set_profile("p", &u2, false);
    assert!(!cfg.connection("p").safe_mode());
    let mut u3 = update();
    u3.safe_mode = Some(true);
    cfg.set_profile("p", &u3, false);
    assert!(cfg.connection("p").safe_mode());
}
