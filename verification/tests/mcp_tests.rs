use odoo_mcp::json::Json;
use odoo_mcp::mcp::{
    answer_message, err_resp, invalid_json, ok_resp, parse_error_resp, search_read_kwargs,
    split_field_list, tool_call, tool_resp, tools_schema, Step, ToolCall, ToolError,
};

fn s(v: &str) -> Json {
    Json::Str(v.to_string())
}

fn object(fields: Vec<(&str, Json)>) -> Json {
    Json::Object(fields.into_iter().map(|(k, v)| (k.to_string(), v)).collect())
}

fn request(id: Json, method: &str, params: Option<Json>) -> Json {
    let mut fields = vec![("jsonrpc", s("2.0")), ("id", id), ("method", s(method))];
    if let Some(p) = params {
        fields.push(("params", p));
    }
    object(fields)
}

#[test]
fn notifications_get_no_reply() {
    let n = object(vec![("jsonrpc", s("2.0")), ("method", s("notifications/initialized"))]);
    assert_eq!(answer_message(&n, "1.0", false), Step::Silent);
    let with_id = request(Json::Int(3), "notifications/cancelled", None);
    assert_eq!(answer_message(&with_id, "1.0", false), Step::Silent);
    let no_id = object(vec![("method", s("tools/list"))]);
    assert_eq!(answer_message(&no_id, "1.0", false), Step::Silent);
}

#[test]
fn initialize_reply() {
    let msg = request(Json::Int(1), "initialize", None);
    let expected = object(vec![
        ("jsonrpc", s("2.0")),
        ("id", Json::Int(1)),
        (
            "result",
            object(vec![
                ("protocolVersion", s("2024-11-05")),
                ("capabilities", object(vec![("tools", object(vec![]))])),
                ("serverInfo", object(vec![("name", s("odoo-mcp")), ("version", s("0.3.1"))])),
            ]),
        ),
    ]);
    assert_eq!(answer_message(&msg, "0.3.1", false), Step::Reply(expected));
}

#[test]
fn tools_list_reply() {
    let msg = request(s("abc"), "tools/list", None);
    match answer_message(&msg, "1.0", false) {
        Step::Reply(r) => {
            assert_eq!(r.member("id"), s("abc"));
            let tools = r.get("result").unwrap().member("tools");
            assert_eq!(tools, tools_schema(false));
        }
        other => panic!("unexpected {:?}", other),
    }
    let schema = tools_schema(false);
    match &schema {
        Json::Array(tools) => {
            let names: Vec<String> = tools.iter().map(|t| t.get_str("name").unwrap()).collect();
            assert_eq!(
                names,
                vec![
                    "odoo_search_read",
                    "odoo_search",
                    "odoo_search_count",
                    "odoo_read",
                    "odoo_fields_get",
                    "odoo_execute_kw",
                    "odoo_http",
                    "odoo_list_addons",
                    "odoo_addon_structure",
                    "odoo_model_source",
                    "odoo_search_source",
                    "odoo_update_sources",
                ]
            );
            let required = tools[5].get("inputSchema").unwrap().member("required");
            assert_eq!(required, Json::Array(vec![s("model"), s("method")]));
            let offset = tools[0].get("inputSchema").unwrap().get("properties").unwrap().member("offset");
            assert_eq!(
                offset,
                object(vec![
                    ("type", s("integer")),
                    ("description", s("Number of records to skip (for pagination)")),
                    ("default", Json::Int(0)),
                ])
            );
        }
        _ => panic!("not an array"),
    }
}

#[test]
fn unknown_method_error() {
    let msg = request(Json::Int(9), "resources/list", None);
    assert_eq!(
        answer_message(&msg, "1.0", false),
        Step::Reply(err_resp(Json::Int(9), -32601, "Method not found: resources/list"))
    );
    assert_eq!(
        err_resp(Json::Int(9), -32601, "m"),
        object(vec![
            ("jsonrpc", s("2.0")),
            ("id", Json::Int(9)),
            ("error", object(vec![("code", Json::Int(-32601)), ("message", s("m"))])),
        ])
    );
}

#[test]
fn tool_calls_are_read() {
    let args = object(vec![
        ("model", s("res.partner")),
        ("fields", s(" id , name,email ")),
        ("limit", Json::Int(5)),
        ("offset", Json::Int(10)),
    ]);
    let msg = request(
        Json::Int(4),
        "tools/call",
        Some(object(vec![("name", s("odoo_search_read")), ("arguments", args)])),
    );
    let expected_call = ToolCall::SearchRead {
        model: "res.partner".to_string(),
        domain: "[]".to_string(),
        fields: vec!["id".to_string(), "name".to_string(), "email".to_string()],
        limit: Some(5),
        offset: 10,
        order: None,
    };
    assert_eq!(answer_message(&msg, "1.0", false), Step::RunTool { id: Json::Int(4), call: expected_call });

    let http = tool_call("odoo_http", &object(vec![("path", s("/web/health"))]), false).unwrap();
    assert_eq!(
        http,
        ToolCall::Http {
            method: "GET".to_string(),
            path: "/web/health".to_string(),
            body: None,
            content_type: "application/json".to_string(),
        }
    );
    let kw = tool_call("odoo_execute_kw", &object(vec![("model", s("m")), ("method", s("write"))]), false).unwrap();
    assert_eq!(
        kw,
        ToolCall::ExecuteKw {
            model: "m".to_string(),
            method: "write".to_string(),
            args: "[]".to_string(),
            kwargs: "{}".to_string(),
        }
    );
}

#[test]
fn tool_call_errors() {
    let e = tool_call("odoo_execute_kw", &object(vec![("model", s("m"))]), false).unwrap_err();
    assert_eq!(e, ToolError::MissingField { field: "method".to_string() });
    assert_eq!(e.message(), "missing field: method");
    let e = tool_call("odoo_search_read", &Json::Null, false).unwrap_err();
    assert_eq!(e.message(), "missing field: model");
    let e = tool_call("odoo_http", &object(vec![]), false).unwrap_err();
    assert_eq!(e.message(), "missing field: path");
    let e = tool_call("odoo_unknown", &Json::Null, false).unwrap_err();
    assert_eq!(e.message(), "Unknown tool: odoo_unknown");

    let msg = request(Json::Int(5), "tools/call", Some(object(vec![("name", s("nope"))])));
    assert_eq!(
        answer_message(&msg, "1.0", false),
        Step::Reply(tool_resp(Json::Int(5), Err("Unknown tool: nope".to_string())))
    );
}

#[test]
fn tool_replies() {
    assert_eq!(
        tool_resp(Json::Int(1), Ok("done".to_string())),
        ok_resp(
            Json::Int(1),
            object(vec![("content", Json::Array(vec![object(vec![("type", s("text")), ("text", s("done"))])]))])
        )
    );
    assert_eq!(
        tool_resp(Json::Int(1), Err("boom".to_string())),
        ok_resp(
            Json::Int(1),
            object(vec![
                ("content", Json::Array(vec![object(vec![("type", s("text")), ("text", s("Error: boom"))])])),
                ("isError", Json::Bool(true)),
            ])
        )
    );
    assert_eq!(
        parse_error_resp("EOF while parsing"),
        err_resp(Json::Null, -32700, "Parse error: EOF while parsing")
    );
    assert_eq!(invalid_json("domain", "[x"), "Invalid domain JSON: [x");
}

#[test]
fn search_read_tool_kwargs() {
    let fields = split_field_list("id,name");
    assert_eq!(fields, vec!["id".to_string(), "name".to_string()]);
    assert_eq!(
        search_read_kwargs(Json::Array(vec![]), &fields, Some(3), 2, Some("id desc")),
        object(vec![
            ("domain", Json::Array(vec![])),
            ("fields", Json::Array(vec![s("id"), s("name")])),
            ("limit", Json::Int(3)),
            ("offset", Json::Int(2)),
            ("order", s("id desc")),
        ])
    );
    assert_eq!(
        search_read_kwargs(Json::Array(vec![]), &fields, None, 0, None),
        object(vec![("domain", Json::Array(vec![])), ("fields", Json::Array(vec![s("id"), s("name")]))])
    );
}

#[test]
fn listed_tools_are_callable() {
    let tools = match tools_schema(false) {
        Json::Array(items) => items,
        other => panic!("catalogue is not an array: {:?}", other),
    };
    assert_eq!(tools.len(), 12);
    for t in &tools {
        let name = t.get_str("name").unwrap();
        let required = match t.get("inputSchema").unwrap().member("required") {
            Json::Array(keys) => keys,
            other => panic!("required is not an array: {:?}", other),
        };
        let keys: Vec<String> = required
            .iter()
            .map(|k| match k {
                Json::Str(k) => k.clone(),
                other => panic!("key is not a string: {:?}", other),
            })
            .collect();
        let args_without = |skip: Option<usize>| {
            Json::Object(
                keys.iter()
                    .enumerate()
                    .filter(|(i, _)| Some(*i) != skip)
                    .map(|(_, k)| (k.clone(), s("x")))
                    .collect(),
            )
        };
        assert!(tool_call(&name, &args_without(None), false).is_ok(), "{name}");
        // dropping any required member makes the call fail
        for skip in 0..keys.len() {
            assert!(tool_call(&name, &args_without(Some(skip)), false).is_err(), "{name} without member {skip}");
        }
    }
    assert_eq!(
        tool_call("odoo_print_report", &Json::Object(vec![]), false),
        Err(ToolError::UnknownTool { name: "odoo_print_report".to_string() })
    );
}

#[test]
fn safe_mode_hides_and_refuses_execute_kw() {
    let safe = match tools_schema(true) {
        Json::Array(items) => items,
        other => panic!("catalogue is not an array: {:?}", other),
    };
    let names: Vec<String> = safe.iter().map(|t| t.get_str("name").unwrap()).collect();
    assert_eq!(names.len(), 11);
    assert!(!names.contains(&"odoo_execute_kw".to_string()));
    let args = object(vec![("model", s("m")), ("method", s("write"))]);
    let e = tool_call("odoo_execute_kw", &args, true).unwrap_err();
    assert_eq!(e, ToolError::SafeMode);
    assert_eq!(
        e.message(),
        "odoo_execute_kw is blocked in safe mode; set safe_mode: false for this profile to enable it"
    );
    assert!(tool_call("odoo_execute_kw", &args, false).is_ok());
    let msg = request(Json::Int(2), "tools/call", Some(object(vec![("name", s("odoo_execute_kw")), ("arguments", args)])));
    assert_eq!(
        answer_message(&msg, "1.0", true),
        Step::Reply(tool_resp(Json::Int(2), Err(e.message())))
    );
}

#[test]
fn new_tools_are_read() {
    assert_eq!(
        tool_call("odoo_read", &object(vec![("model", s("res.partner")), ("ids", s("[1,2]"))]), true),
        Ok(ToolCall::Read {
            model: "res.partner".to_string(),
            ids: "[1,2]".to_string(),
            fields: vec!["id".to_string(), "name".to_string()],
        })
    );
    assert_eq!(
        tool_call("odoo_fields_get", &object(vec![("model", s("m"))]), true),
        Ok(ToolCall::FieldsGet {
            model: "m".to_string(),
            fields: vec![],
            attributes: ["string", "type", "required", "readonly", "relation"].iter().map(|a| a.to_string()).collect(),
        })
    );
    assert_eq!(
        tool_call("odoo_search_count", &object(vec![("model", s("m"))]), true),
        Ok(ToolCall::SearchCount { model: "m".to_string(), domain: "[]".to_string() })
    );
    assert_eq!(tool_call("odoo_list_addons", &Json::Null, true), Ok(ToolCall::ListAddons));
    assert_eq!(tool_call("odoo_update_sources", &Json::Null, true), Ok(ToolCall::UpdateSources));
    assert_eq!(
        tool_call("odoo_search_source", &object(vec![("pattern", s("def _compute"))]), true),
        Ok(ToolCall::SearchSource { pattern: "def _compute".to_string() })
    );
    let e = tool_call("odoo_addon_structure", &Json::Null, true).unwrap_err();
    assert_eq!(e.message(), "missing field: addon");
}

#[test]
fn listed_defaults_read_like_missing_arguments() {
    let bare = tool_call("odoo_http", &object(vec![("path", s("/x"))]), false);
    let given = tool_call(
        "odoo_http",
        &object(vec![("method", s("GET")), ("content_type", s("application/json")), ("path", s("/x"))]),
        false,
    );
    assert_eq!(bare, given);
    let bare = tool_call("odoo_search_read", &object(vec![("model", s("m"))]), false);
    let given = tool_call(
        "odoo_search_read",
        &object(vec![("domain", s("[]")), ("fields", s("id,name")), ("offset", Json::Int(0)), ("model", s("m"))]),
        false,
    );
    assert_eq!(bare, given);
}
