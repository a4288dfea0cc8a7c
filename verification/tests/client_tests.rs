use odoo_mcp::client::{http_method, status_is_success, HttpMethod, OdooClient, OdooError};
use odoo_mcp::json::Json;

fn s(v: &str) -> Json {
    Json::Str(v.to_string())
}

fn object(fields: Vec<(&str, Json)>) -> Json {
    Json::Object(fields.into_iter().map(|(k, v)| (k.to_string(), v)).collect())
}

fn client(url: &str) -> OdooClient {
    OdooClient::new(url, "mydb", "secret", reqwest::blocking::Client::new())
}

fn ok_status() -> u16 {
    200
}

#[test]
fn new_drops_trailing_slashes() {
    let c = client("https://odoo.example.com//");
    assert_eq!(c.base_url(), "https://odoo.example.com");
    assert_eq!(c.db(), "mydb");
    assert_eq!(c.uid, None);
    assert_eq!(c.jsonrpc_endpoint(), "https://odoo.example.com/jsonrpc");
}

#[test]
fn authenticate_call_envelope() {
    let c = client("http://localhost:8069/");
    let call = c.authenticate_call("admin");
    assert_eq!(call.endpoint, "http://localhost:8069/jsonrpc");
    let expected = object(vec![
        ("jsonrpc", s("2.0")),
        ("method", s("call")),
        ("id", Json::Int(1)),
        (
            "params",
            object(vec![
                ("service", s("common")),
                ("method", s("authenticate")),
                ("args", Json::Array(vec![s("mydb"), s("admin"), s("secret"), Json::Object(vec![])])),
            ]),
        ),
    ]);
    assert_eq!(call.body, expected);
}

#[test]
fn authenticate_stores_positive_uid() {
    let mut c = client("http://x");
    assert_eq!(c.authenticate(&Json::Int(0)), Err(OdooError::AuthenticationFailed));
    assert_eq!(c.authenticate(&Json::Bool(false)), Err(OdooError::AuthenticationFailed));
    assert_eq!(c.authenticate(&Json::UInt(u64::MAX)), Err(OdooError::AuthenticationFailed));
    assert_eq!(c.uid, None);
    assert_eq!(c.authenticate(&Json::Int(7)), Ok(7));
    assert_eq!(c.uid, Some(7));
    // a later failure keeps the uid
    assert!(c.authenticate(&Json::Null).is_err());
    assert_eq!(c.uid, Some(7));
    assert_eq!(
        OdooError::AuthenticationFailed.message(),
        "Authentication failed — check --username / --password / --db"
    );
}

#[test]
fn execute_kw_needs_authentication() {
    let mut c = client("http://x");
    let err = c.execute_kw("res.partner", "read", Json::Array(vec![]), Json::Object(vec![])).unwrap_err();
    assert_eq!(err, OdooError::NotAuthenticated);
    assert_eq!(err.message(), "Not authenticated — call authenticate() first");
    c.authenticate(&Json::Int(2)).unwrap();
    let call = c
        .execute_kw("res.partner", "read", Json::Array(vec![Json::Int(1)]), Json::Object(vec![]))
        .unwrap();
    let params = call.body.get("params").unwrap();
    assert_eq!(params.get_str("service"), Some("object".to_string()));
    assert_eq!(params.get_str("method"), Some("execute_kw".to_string()));
    assert_eq!(
        params.member("args"),
        Json::Array(vec![
            s("mydb"),
            Json::Int(2),
            s("secret"),
            s("res.partner"),
            s("read"),
            Json::Array(vec![Json::Int(1)]),
            Json::Object(vec![]),
        ])
    );
}

#[test]
fn jsonrpc_reply_reading() {
    let result = object(vec![("jsonrpc", s("2.0")), ("result", Json::Int(42))]);
    assert_eq!(OdooClient::read_jsonrpc_reply(ok_status(), &result), Ok(Json::Int(42)));

    let missing = object(vec![("jsonrpc", s("2.0"))]);
    assert_eq!(OdooClient::read_jsonrpc_reply(ok_status(), &missing), Ok(Json::Null));

    let bad: u16 = 500;
    let e = OdooClient::read_jsonrpc_reply(bad, &result).unwrap_err();
    assert_eq!(e.message(), "HTTP 500 Internal Server Error");

    let data_msg = object(vec![(
        "error",
        object(vec![("message", s("Odoo Server Error")), ("data", object(vec![("message", s("Access Denied"))]))]),
    )]);
    let e = OdooClient::read_jsonrpc_reply(ok_status(), &data_msg).unwrap_err();
    assert_eq!(e.message(), "Odoo error: Access Denied");

    let top_msg = object(vec![("error", object(vec![("message", s("Odoo Server Error"))]))]);
    let e = OdooClient::read_jsonrpc_reply(ok_status(), &top_msg).unwrap_err();
    assert_eq!(e.message(), "Odoo error: Odoo Server Error");

    let none = object(vec![("error", Json::Null), ("result", Json::Int(1))]);
    let e = OdooClient::read_jsonrpc_reply(ok_status(), &none).unwrap_err();
    assert_eq!(e, OdooError::Remote { message: "unknown error".to_string() });
}

#[test]
fn http_methods_are_case_insensitive() {
    assert_eq!(http_method("get"), Ok(HttpMethod::Get));
    assert_eq!(http_method("Post"), Ok(HttpMethod::Post));
    assert_eq!(http_method("put"), Ok(HttpMethod::Put));
    assert_eq!(http_method("PATCH"), Ok(HttpMethod::Patch));
    assert_eq!(http_method("delete"), Ok(HttpMethod::Delete));
    assert_eq!(http_method("head"), Ok(HttpMethod::Head));
    // Unicode uppercasing: the long s becomes S
    assert_eq!(http_method("po\u{017f}t"), Ok(HttpMethod::Post));
    let e = http_method("fetch").unwrap_err();
    assert_eq!(e.message(), "Unsupported HTTP method: FETCH");
}

#[test]
fn http_request_plan() {
    let c = client("https://odoo.example.com/");
    let extra = vec![("X-Token".to_string(), "abc".to_string())];
    let req = c.http_request("post", "/api/v2/x", Some("{}"), "application/json", &extra).unwrap();
    assert_eq!(req.method, HttpMethod::Post);
    assert_eq!(req.url, "https://odoo.example.com/api/v2/x");
    assert_eq!(
        req.headers,
        vec![
            ("X-Token".to_string(), "abc".to_string()),
            ("Content-Type".to_string(), "application/json".to_string()),
        ]
    );
    assert_eq!(req.body, Some("{}".to_string()));

    let get = c.http_request("GET", "/web/health", None, "application/json", &Vec::new()).unwrap();
    assert!(get.headers.is_empty());
    assert_eq!(get.body, None);

    assert!(c.http_request("BREW", "/", None, "x", &Vec::new()).is_err());
}

#[test]
fn http_reply_truncates_error_body() {
    let body: String = std::iter::repeat('x').take(600).collect();
    assert_eq!(OdooClient::read_http_reply(ok_status(), body.clone()), Ok(body.clone()));
    let bad: u16 = 404;
    let e = OdooClient::read_http_reply(bad, body).unwrap_err();
    let expected = format!("HTTP 404 Not Found: {}", "x".repeat(500));
    assert_eq!(e.message(), expected);
    let short = OdooClient::read_http_reply(bad, "nope".to_string()).unwrap_err();
    assert_eq!(short.message(), "HTTP 404 Not Found: nope");
}

#[test]
fn status_codes() {
    assert!(status_is_success(200));
    assert!(status_is_success(204));
    assert!(status_is_success(299));
    assert!(!status_is_success(199));
    assert!(!status_is_success(300));
    assert!(!status_is_success(500));
    // a code without a canonical reason
    let e = OdooClient::read_jsonrpc_reply(599, &Json::Null).unwrap_err();
    assert_eq!(e.message(), "HTTP 599 <unknown status code>");
    let e = OdooClient::read_http_reply(302, "moved".to_string()).unwrap_err();
    assert_eq!(e.message(), "HTTP 302 Found: moved");
}
