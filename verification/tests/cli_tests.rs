use odoo_mcp::cli::{
    auth_summary, check_execute_kw, fields_get_kwargs, needs_auth, parse_header, read_kwargs, require, resolve,
    search_kwargs, search_read_kwargs, settings, single_arg, CliError, CommandKind,
    ConnectionArgs,
};
use odoo_mcp::config::ConnectionConfig;
use odoo_mcp::json::Json;

fn s(v: &str) -> Json {
    Json::Str(v.to_string())
}

fn object(fields: Vec<(&str, Json)>) -> Json {
    Json::Object(fields.into_iter().map(|(k, v)| (k.to_string(), v)).collect())
}

fn no_args() -> ConnectionArgs {
    ConnectionArgs { url: None, ext_url: None, db: None, username: None, password: None, cert: None, key: None }
}

#[test]
fn cli_wins_over_config() {
    assert_eq!(resolve(Some("cli".to_string()), Some("cfg".to_string())), Some("cli".to_string()));
    assert_eq!(resolve(None, Some("cfg".to_string())), Some("cfg".to_string()));
    assert_eq!(resolve(None, None), None);
}

#[test]
fn require_names_flag_and_variable() {
    assert_eq!(require(Some("x".to_string()), "url"), Ok("x".to_string()));
    let e = require(None, "ext-url").unwrap_err();
    assert_eq!(e, CliError::MissingParameter { name: "ext-url".to_string() });
    assert_eq!(e.message(), "Missing required parameter: --ext-url / ODOO_EXT_URL / config file");
    assert_eq!(
        require(None, "password").unwrap_err().message(),
        "Missing required parameter: --password / ODOO_PASSWORD / config file"
    );
}

#[test]
fn which_commands_authenticate() {
    assert!(needs_auth(false, CommandKind::Auth));
    assert!(needs_auth(false, CommandKind::SearchRead));
    assert!(needs_auth(false, CommandKind::Serve));
    assert!(!needs_auth(true, CommandKind::SearchRead));
    assert!(!needs_auth(false, CommandKind::Http));
    assert!(!needs_auth(false, CommandKind::UpdateSources));
    assert!(!needs_auth(false, CommandKind::Init));
    assert!(!needs_auth(false, CommandKind::Config));
}

#[test]
fn settings_resolution() {
    let mut cfg = ConnectionConfig::default();
    cfg.url = Some("https://cfg".to_string());
    cfg.password = Some("cfgpw".to_string());
    cfg.ext_url = Some("https://ext".to_string());

    let st = settings(no_args(), &cfg, false, true).unwrap();
    assert_eq!(st.url, "https://cfg");
    assert_eq!(st.db, "odoo");
    assert_eq!(st.username, "admin");
    assert_eq!(st.password, "cfgpw");

    let mut args = no_args();
    args.url = Some("https://cli".to_string());
    args.db = Some("clidb".to_string());
    let st = settings(args, &cfg, false, true).unwrap();
    assert_eq!(st.url, "https://cli");
    assert_eq!(st.db, "clidb");

    let st = settings(no_args(), &cfg, true, false).unwrap();
    assert_eq!(st.url, "https://ext");
    assert_eq!(st.db, "");
    assert_eq!(st.username, "");

    let e = settings(no_args(), &ConnectionConfig::default(), false, false).unwrap_err();
    assert_eq!(e, CliError::MissingParameter { name: "url".to_string() });

    let mut nopw = ConnectionConfig::default();
    nopw.url = Some("https://x".to_string());
    let e = settings(no_args(), &nopw, false, true).unwrap_err();
    assert_eq!(e, CliError::MissingParameter { name: "password".to_string() });
    assert_eq!(settings(no_args(), &nopw, false, false).unwrap().password, "");
}

#[test]
fn header_parsing() {
    assert_eq!(parse_header("X-Token: abc "), Ok(("X-Token".to_string(), "abc".to_string())));
    assert_eq!(parse_header("a:b:c"), Ok(("a".to_string(), "b:c".to_string())));
    assert_eq!(parse_header(":"), Ok((String::new(), String::new())));
    let e = parse_header("nocolon").unwrap_err();
    assert_eq!(e.message(), "Invalid header (expected KEY:VALUE): nocolon");
}

#[test]
fn query_arguments() {
    let domain = Json::Array(vec![]);
    assert_eq!(
        search_kwargs(domain.duplicate(), Some(10), 0, Some("id desc")),
        object(vec![("domain", Json::Array(vec![])), ("limit", Json::Int(10)), ("order", s("id desc"))])
    );
    assert_eq!(
        search_kwargs(domain.duplicate(), None, 5, None),
        object(vec![("domain", Json::Array(vec![])), ("offset", Json::Int(5))])
    );
    let fields = vec!["id".to_string(), "name".to_string()];
    assert_eq!(
        search_read_kwargs(domain.duplicate(), &fields, None, 0, None),
        object(vec![("domain", Json::Array(vec![])), ("fields", Json::Array(vec![s("id"), s("name")]))])
    );
    assert_eq!(
        search_read_kwargs(domain.duplicate(), &fields, Some(u64::MAX), 0, None).get("limit"),
        Some(&Json::UInt(u64::MAX))
    );
    assert_eq!(
        fields_get_kwargs(&Vec::new(), &vec!["string".to_string()]),
        object(vec![("attributes", Json::Array(vec![s("string")]))])
    );
    assert_eq!(
        fields_get_kwargs(&fields, &vec!["type".to_string()]),
        object(vec![
            ("allfields", Json::Array(vec![s("id"), s("name")])),
            ("attributes", Json::Array(vec![s("type")])),
        ])
    );
    assert_eq!(read_kwargs(&fields), object(vec![("fields", Json::Array(vec![s("id"), s("name")]))]));
    assert_eq!(single_arg(Json::Int(1)), Json::Array(vec![Json::Int(1)]));
    assert_eq!(
        auth_summary(7, "db", "https://x", "default"),
        object(vec![("uid", Json::Int(7)), ("db", s("db")), ("url", s("https://x")), ("profile", s("default"))])
    );
}

#[test]
fn execute_kw_needs_safe_mode_off() {
    let mut conn = ConnectionConfig::default();
    let e = check_execute_kw(&conn, "prod").unwrap_err();
    assert_eq!(e, CliError::SafeMode { profile: "prod".to_string() });
    assert_eq!(
        e.message(),
        "execute-kw is blocked in safe mode; enable it with: odoo-mcp config set --profile prod --safe-mode false"
    );
    conn.safe_mode = Some(true);
    assert!(check_execute_kw(&conn, "prod").is_err());
    conn.safe_mode = Some(false);
    assert_eq!(check_execute_kw(&conn, "prod"), Ok(()));
}
