//! The MCP server's protocol: how each incoming JSON-RPC message is
//! answered, the tool catalogue, and how tool calls are read.
use vstd::prelude::*;

use crate::json::{
    add_field, as_str, as_u64, fields_view, get, index, jstr, obj, push_elem, Json,
    JsonV,
};
use crate::text::{str_concat, owned, split_chars, split_on, starts_with, str_starts_with, string_of, trim, trim_chars};

verus! {

// ── replies ──────────────────────────────────────────────────────────────────

/// A successful JSON-RPC reply.
pub open spec fn ok_reply(id: JsonV, result: JsonV) -> JsonV {
    obj(seq![("jsonrpc"@, jstr("2.0"@)), ("id"@, id), ("result"@, result)])
}

/// A JSON-RPC error reply.
pub open spec fn err_reply(id: JsonV, code: int, message: Seq<char>) -> JsonV {
    obj(
        seq![
            ("jsonrpc"@, jstr("2.0"@)),
            ("id"@, id),
            ("error"@, obj(seq![("code"@, JsonV::Int(code)), ("message"@, jstr(message))])),
        ],
    )
}

/// The reply carrying `result` for the request `id`.
pub fn ok_resp(id: Json, result: Json) -> (r: Json)
    ensures
        r@ == ok_reply(id@, result@),
{
    let ghost iv = id@;
    let ghost rv = result@;
    let mut fields: Vec<(String, Json)> = Vec::new();
    add_field(&mut fields, "jsonrpc", Json::string("2.0"));
    add_field(&mut fields, "id", id);
    add_field(&mut fields, "result", result);
    let r = Json::object(fields);
    proof {
        assert(r@->Object_0 =~= ok_reply(iv, rv)->Object_0);
    }
    r
}

/// The error reply with `code` and `message` for the request `id`.
pub fn err_resp(id: Json, code: i32, message: &str) -> (r: Json)
    ensures
        r@ == err_reply(id@, code as int, message@),
{
    let ghost iv = id@;
    let mut error: Vec<(String, Json)> = Vec::new();
    add_field(&mut error, "code", Json::Int(code as i64));
    add_field(&mut error, "message", Json::string(message));
    let error = Json::object(error);
    let mut fields: Vec<(String, Json)> = Vec::new();
    add_field(&mut fields, "jsonrpc", Json::string("2.0"));
    add_field(&mut fields, "id", id);
    add_field(&mut fields, "error", error);
    let r = Json::object(fields);
    proof {
        assert(r@->Object_0[2].1->Object_0 =~= seq![
            ("code"@, JsonV::Int(code as int)),
            ("message"@, jstr(message@)),
        ]);
        assert(r@->Object_0 =~= err_reply(iv, code as int, message@)->Object_0);
    }
    r
}

/// The reply to a line that is not JSON.
pub fn parse_error_resp(detail: &str) -> (r: Json)
    ensures
        r@ == err_reply(JsonV::Null, -32700, "Parse error: "@ + detail@),
{
    let message = str_concat("Parse error: ", detail);
    err_resp(Json::Null, -32700, message.as_str())
}

/// The result of `initialize`.
pub open spec fn initialize_result(version: Seq<char>) -> JsonV {
    obj(
        seq![
            ("protocolVersion"@, jstr("2024-11-05"@)),
            ("capabilities"@, obj(seq![("tools"@, obj(Seq::empty()))])),
            ("serverInfo"@, obj(seq![("name"@, jstr("odoo-mcp"@)), ("version"@, jstr(version))])),
        ],
    )
}

fn initialize_result_json(version: &str) -> (r: Json)
    ensures
        r@ == initialize_result(version@),
{
    let mut caps: Vec<(String, Json)> = Vec::new();
    add_field(&mut caps, "tools", Json::object(Vec::new()));
    let caps = Json::object(caps);
    let mut info: Vec<(String, Json)> = Vec::new();
    add_field(&mut info, "name", Json::string("odoo-mcp"));
    add_field(&mut info, "version", Json::string(version));
    let info = Json::object(info);
    let mut fields: Vec<(String, Json)> = Vec::new();
    add_field(&mut fields, "protocolVersion", Json::string("2024-11-05"));
    add_field(&mut fields, "capabilities", caps);
    add_field(&mut fields, "serverInfo", info);
    let r = Json::object(fields);
    proof {
        assert(fields_view(Seq::<(String, Json)>::empty()) =~= Seq::empty());
        assert(r@->Object_0[1].1->Object_0 =~= seq![("tools"@, obj(Seq::empty()))]);
        assert(r@->Object_0[2].1->Object_0 =~= seq![
            ("name"@, jstr("odoo-mcp"@)),
            ("version"@, jstr(version@)),
        ]);
        assert(r@->Object_0 =~= initialize_result(version@)->Object_0);
    }
    r
}

/// The result of a tool call: its text, or its error marked `isError`.
pub open spec fn tool_result(outcome: Result<Seq<char>, Seq<char>>) -> JsonV {
    match outcome {
        Ok(text) => obj(
            seq![("content"@, JsonV::Array(seq![obj(seq![("type"@, jstr("text"@)), ("text"@, jstr(text))])]))],
        ),
        Err(e) => obj(
            seq![
                ("content"@, JsonV::Array(seq![obj(seq![("type"@, jstr("text"@)), ("text"@, jstr("Error: "@ + e))])])),
                ("isError"@, JsonV::Bool(true)),
            ],
        ),
    }
}

/// The models of a text outcome.
pub open spec fn outcome_view(outcome: Result<String, String>) -> Result<Seq<char>, Seq<char>> {
    match outcome {
        Ok(t) => Ok(t@),
        Err(e) => Err(e@),
    }
}

/// The reply to a `tools/call` request, from what the tool produced.
pub fn tool_resp(id: Json, outcome: Result<String, String>) -> (r: Json)
    ensures
        r@ == ok_reply(id@, tool_result(outcome_view(outcome))),
{
    let ghost ov = outcome_view(outcome);
    let (text, failed) = match outcome {
        Ok(t) => (t, false),
        Err(e) => (str_concat("Error: ", e.as_str()), true),
    };
    let ghost tv = text@;
    let mut item: Vec<(String, Json)> = Vec::new();
    add_field(&mut item, "type", Json::string("text"));
    add_field(&mut item, "text", Json::from_string(text));
    let item = Json::object(item);
    let mut content: Vec<Json> = Vec::new();
    push_elem(&mut content, item);
    let content = Json::array(content);
    let mut fields: Vec<(String, Json)> = Vec::new();
    add_field(&mut fields, "content", content);
    if failed {
        add_field(&mut fields, "isError", Json::Bool(true));
    }
    let result = Json::object(fields);
    proof {
        let c = obj(seq![("type"@, jstr("text"@)), ("text"@, jstr(tv))]);
        assert(result@->Object_0[0].1->Array_0[0]->Object_0 =~= c->Object_0);
        assert(result@->Object_0[0].1->Array_0 =~= seq![c]);
        assert(result@->Object_0 =~= tool_result(ov)->Object_0);
    }
    ok_resp(id, result)
}

// ── the tool catalogue ───────────────────────────────────────────────────────

/// A property of a tool's input schema.
pub open spec fn prop(name: Seq<char>, ty: Seq<char>, description: Seq<char>, default: Option<JsonV>) -> (
    Seq<char>,
    JsonV,
) {
    (
        name,
        obj(
            match default {
                Some(d) => seq![("type"@, jstr(ty)), ("description"@, jstr(description)), ("default"@, d)],
                None => seq![("type"@, jstr(ty)), ("description"@, jstr(description))],
            },
        ),
    )
}

/// A tool: its name, description and input schema.
pub open spec fn tool(
    name: Seq<char>,
    description: Seq<char>,
    props: Seq<(Seq<char>, JsonV)>,
    required: Seq<Seq<char>>,
) -> JsonV {
    obj(
        seq![
            ("name"@, jstr(name)),
            ("description"@, jstr(description)),
            ("inputSchema"@, obj(
                seq![
                    ("type"@, jstr("object"@)),
                    ("properties"@, obj(props)),
                    ("required"@, JsonV::Array(Seq::new(required.len(), |i: int| jstr(required[i])))),
                ],
            )),
        ],
    )
}

fn prop_json(
    props: &mut Vec<(String, Json)>,
    name: &str,
    ty: &str,
    description: &str,
    default: Option<Json>,
)
    ensures
        fields_view(final(props)@) == fields_view(old(props)@).push(
            prop(
                name@,
                ty@,
                description@,
                match default {
                    Some(d) => Some(d@),
                    None => None,
                },
            ),
        ),
{
    let ghost dv = match &default {
        Some(d) => Some(d@),
        None => None::<JsonV>,
    };
    let mut fields: Vec<(String, Json)> = Vec::new();
    add_field(&mut fields, "type", Json::string(ty));
    add_field(&mut fields, "description", Json::string(description));
    match default {
        Some(d) => add_field(&mut fields, "default", d),
        None => {},
    }
    let value = Json::object(fields);
    proof {
        assert(value@->Object_0 =~= prop(name@, ty@, description@, dv).1->Object_0);
    }
    add_field(props, name, value);
}

fn tool_json(name: &str, description: &str, props: Vec<(String, Json)>, required: Vec<String>) -> (r:
    Json)
    ensures
        r@ == tool(name@, description@, fields_view(props@), crate::text::views(required@)),
{
    let ghost pv = fields_view(props@);
    let req = Json::string_array(&required);
    let mut schema: Vec<(String, Json)> = Vec::new();
    add_field(&mut schema, "type", Json::string("object"));
    add_field(&mut schema, "properties", Json::object(props));
    add_field(&mut schema, "required", req);
    let schema = Json::object(schema);
    let mut fields: Vec<(String, Json)> = Vec::new();
    add_field(&mut fields, "name", Json::string(name));
    add_field(&mut fields, "description", Json::string(description));
    add_field(&mut fields, "inputSchema", schema);
    let r = Json::object(fields);
    proof {
        let rv = crate::text::views(required@);
        assert(r@->Object_0[2].1->Object_0[2].1->Array_0 =~= Seq::new(
            rv.len(),
            |i: int| jstr(rv[i]),
        ));
        assert(r@->Object_0[2].1->Object_0 =~= tool(name@, description@, pv, rv)->Object_0[2].1->Object_0);
        assert(r@->Object_0 =~= tool(name@, description@, pv, rv)->Object_0);
    }
    r
}

fn strings(items: Vec<&str>) -> (r: Vec<String>)
    ensures
        crate::text::views(r@) == items@.map_values(|s: &str| s@),
{
    let mut out: Vec<String> = Vec::new();
    let mut i: usize = 0;
    while i < items.len()
        invariant
            i <= items@.len(),
            crate::text::views(out@) =~= items@.map_values(|s: &str| s@).take(i as int),
        decreases items@.len() - i,
    {
        crate::text::push_string(&mut out, owned(items[i]));
        proof {
            assert(crate::text::views(out@) =~= items@.map_values(|s: &str| s@).take(i + 1));
        }
        i += 1;
    }
    proof {
        assert(items@.map_values(|s: &str| s@).take(items@.len() as int) =~= items@.map_values(
            |s: &str| s@,
        ));
    }
    out
}

/// The catalogue entry of `odoo_search_read`.
pub open spec fn search_read_tool() -> JsonV {
    tool(
        "odoo_search_read"@,
        "Search and read records from an Odoo model. Returns a JSON array of matching records."@,
        seq![
            prop("model"@, "string"@, "Odoo model technical name, e.g. account.move, res.partner, sale.order"@, None),
            prop("domain"@, "string"@, "Domain filter as JSON array, e.g. [[\"state\",\"=\",\"posted\"],[\"amount_total\",\">\",100]]"@, Some(jstr("[]"@))),
            prop("fields"@, "string"@, "Comma-separated field names to return, e.g. id,name,amount_total,partner_id"@, Some(jstr("id,name"@))),
            prop("limit"@, "integer"@, "Maximum number of records to return"@, None),
            prop("offset"@, "integer"@, "Number of records to skip (for pagination)"@, Some(JsonV::Int(0))),
            prop("order"@, "string"@, "Sort order, e.g. \"id desc\" or \"invoice_date asc\""@, None),
        ],
        seq!["model"@],
    )
}

fn search_read_tool_json() -> (r: Json)
    ensures
        r@ == search_read_tool(),
{
    let mut props: Vec<(String, Json)> = Vec::new();
    prop_json(&mut props, "model", "string", "Odoo model technical name, e.g. account.move, res.partner, sale.order", None);
    prop_json(&mut props, "domain", "string", "Domain filter as JSON array, e.g. [[\"state\",\"=\",\"posted\"],[\"amount_total\",\">\",100]]", Some(Json::string("[]")));
    prop_json(&mut props, "fields", "string", "Comma-separated field names to return, e.g. id,name,amount_total,partner_id", Some(Json::string("id,name")));
    prop_json(&mut props, "limit", "integer", "Maximum number of records to return", None);
    prop_json(&mut props, "offset", "integer", "Number of records to skip (for pagination)", Some(Json::Int(0)));
    prop_json(&mut props, "order", "string", "Sort order, e.g. \"id desc\" or \"invoice_date asc\"", None);
    let required = strings(vec!["model"]);
    proof {
        assert(fields_view(props@) =~= seq![
            prop("model"@, "string"@, "Odoo model technical name, e.g. account.move, res.partner, sale.order"@, None),
            prop("domain"@, "string"@, "Domain filter as JSON array, e.g. [[\"state\",\"=\",\"posted\"],[\"amount_total\",\">\",100]]"@, Some(jstr("[]"@))),
            prop("fields"@, "string"@, "Comma-separated field names to return, e.g. id,name,amount_total,partner_id"@, Some(jstr("id,name"@))),
            prop("limit"@, "integer"@, "Maximum number of records to return"@, None),
            prop("offset"@, "integer"@, "Number of records to skip (for pagination)"@, Some(JsonV::Int(0))),
            prop("order"@, "string"@, "Sort order, e.g. \"id desc\" or \"invoice_date asc\""@, None),
        ]);
        assert(crate::text::views(required@) =~= seq!["model"@]);
    }
    tool_json("odoo_search_read", "Search and read records from an Odoo model. Returns a JSON array of matching records.", props, required)
}

/// The catalogue entry of `odoo_search`.
pub open spec fn search_tool() -> JsonV {
    tool(
        "odoo_search"@,
        "Return the IDs of the records matching a domain, fetching every page."@,
        seq![
            prop("model"@, "string"@, "Odoo model technical name, e.g. account.move"@, None),
            prop("domain"@, "string"@, "Domain filter as JSON array, e.g. [[\"state\",\"=\",\"posted\"]]"@, Some(jstr("[]"@))),
            prop("limit"@, "integer"@, "Maximum number of IDs to return"@, None),
            prop("offset"@, "integer"@, "Number of records to skip"@, Some(JsonV::Int(0))),
            prop("order"@, "string"@, "Sort order, e.g. \"id desc\""@, None),
        ],
        seq!["model"@],
    )
}

fn search_tool_json() -> (r: Json)
    ensures
        r@ == search_tool(),
{
    let mut props: Vec<(String, Json)> = Vec::new();
    prop_json(&mut props, "model", "string", "Odoo model technical name, e.g. account.move", None);
    prop_json(&mut props, "domain", "string", "Domain filter as JSON array, e.g. [[\"state\",\"=\",\"posted\"]]", Some(Json::string("[]")));
    prop_json(&mut props, "limit", "integer", "Maximum number of IDs to return", None);
    prop_json(&mut props, "offset", "integer", "Number of records to skip", Some(Json::Int(0)));
    prop_json(&mut props, "order", "string", "Sort order, e.g. \"id desc\"", None);
    let required = strings(vec!["model"]);
    proof {
        assert(fields_view(props@) =~= seq![
            prop("model"@, "string"@, "Odoo model technical name, e.g. account.move"@, None),
            prop("domain"@, "string"@, "Domain filter as JSON array, e.g. [[\"state\",\"=\",\"posted\"]]"@, Some(jstr("[]"@))),
            prop("limit"@, "integer"@, "Maximum number of IDs to return"@, None),
            prop("offset"@, "integer"@, "Number of records to skip"@, Some(JsonV::Int(0))),
            prop("order"@, "string"@, "Sort order, e.g. \"id desc\""@, None),
        ]);
        assert(crate::text::views(required@) =~= seq!["model"@]);
    }
    tool_json("odoo_search", "Return the IDs of the records matching a domain, fetching every page.", props, required)
}

/// The catalogue entry of `odoo_search_count`.
pub open spec fn search_count_tool() -> JsonV {
    tool(
        "odoo_search_count"@,
        "Count the records matching a domain."@,
        seq![
            prop("model"@, "string"@, "Odoo model technical name, e.g. account.move"@, None),
            prop("domain"@, "string"@, "Domain filter as JSON array, e.g. [[\"state\",\"=\",\"posted\"]]"@, Some(jstr("[]"@))),
        ],
        seq!["model"@],
    )
}

fn search_count_tool_json() -> (r: Json)
    ensures
        r@ == search_count_tool(),
{
    let mut props: Vec<(String, Json)> = Vec::new();
    prop_json(&mut props, "model", "string", "Odoo model technical name, e.g. account.move", None);
    prop_json(&mut props, "domain", "string", "Domain filter as JSON array, e.g. [[\"state\",\"=\",\"posted\"]]", Some(Json::string("[]")));
    let required = strings(vec!["model"]);
    proof {
        assert(fields_view(props@) =~= seq![
            prop("model"@, "string"@, "Odoo model technical name, e.g. account.move"@, None),
            prop("domain"@, "string"@, "Domain filter as JSON array, e.g. [[\"state\",\"=\",\"posted\"]]"@, Some(jstr("[]"@))),
        ]);
        assert(crate::text::views(required@) =~= seq!["model"@]);
    }
    tool_json("odoo_search_count", "Count the records matching a domain.", props, required)
}

/// The catalogue entry of `odoo_read`.
pub open spec fn read_tool() -> JsonV {
    tool(
        "odoo_read"@,
        "Read records by their IDs."@,
        seq![
            prop("model"@, "string"@, "Odoo model technical name, e.g. res.partner"@, None),
            prop("ids"@, "string"@, "Record IDs as JSON array, e.g. [1,2,3]"@, None),
            prop("fields"@, "string"@, "Comma-separated field names to return"@, Some(jstr("id,name"@))),
        ],
        seq!["model"@, "ids"@],
    )
}

fn read_tool_json() -> (r: Json)
    ensures
        r@ == read_tool(),
{
    let mut props: Vec<(String, Json)> = Vec::new();
    prop_json(&mut props, "model", "string", "Odoo model technical name, e.g. res.partner", None);
    prop_json(&mut props, "ids", "string", "Record IDs as JSON array, e.g. [1,2,3]", None);
    prop_json(&mut props, "fields", "string", "Comma-separated field names to return", Some(Json::string("id,name")));
    let required = strings(vec!["model", "ids"]);
    proof {
        assert(fields_view(props@) =~= seq![
            prop("model"@, "string"@, "Odoo model technical name, e.g. res.partner"@, None),
            prop("ids"@, "string"@, "Record IDs as JSON array, e.g. [1,2,3]"@, None),
            prop("fields"@, "string"@, "Comma-separated field names to return"@, Some(jstr("id,name"@))),
        ]);
        assert(crate::text::views(required@) =~= seq!["model"@, "ids"@]);
    }
    tool_json("odoo_read", "Read records by their IDs.", props, required)
}

/// The catalogue entry of `odoo_fields_get`.
pub open spec fn fields_get_tool() -> JsonV {
    tool(
        "odoo_fields_get"@,
        "Field definitions of a model."@,
        seq![
            prop("model"@, "string"@, "Odoo model technical name, e.g. account.move"@, None),
            prop("fields"@, "string"@, "Comma-separated field names to describe (all fields when omitted)"@, None),
            prop("attributes"@, "string"@, "Comma-separated attributes to report"@, Some(jstr("string,type,required,readonly,relation"@))),
        ],
        seq!["model"@],
    )
}

fn fields_get_tool_json() -> (r: Json)
    ensures
        r@ == fields_get_tool(),
{
    let mut props: Vec<(String, Json)> = Vec::new();
    prop_json(&mut props, "model", "string", "Odoo model technical name, e.g. account.move", None);
    prop_json(&mut props, "fields", "string", "Comma-separated field names to describe (all fields when omitted)", None);
    prop_json(&mut props, "attributes", "string", "Comma-separated attributes to report", Some(Json::string("string,type,required,readonly,relation")));
    let required = strings(vec!["model"]);
    proof {
        assert(fields_view(props@) =~= seq![
            prop("model"@, "string"@, "Odoo model technical name, e.g. account.move"@, None),
            prop("fields"@, "string"@, "Comma-separated field names to describe (all fields when omitted)"@, None),
            prop("attributes"@, "string"@, "Comma-separated attributes to report"@, Some(jstr("string,type,required,readonly,relation"@))),
        ]);
        assert(crate::text::views(required@) =~= seq!["model"@]);
    }
    tool_json("odoo_fields_get", "Field definitions of a model.", props, required)
}

/// The catalogue entry of `odoo_execute_kw`.
pub open spec fn execute_kw_tool() -> JsonV {
    tool(
        "odoo_execute_kw"@,
        "Call any method on an Odoo model via execute_kw. Use for create, write, unlink, or any custom model method."@,
        seq![
            prop("model"@, "string"@, "Odoo model technical name, e.g. account.move"@, None),
            prop("method"@, "string"@, "Method name, e.g. write, create, unlink, action_post, read"@, None),
            prop("args"@, "string"@, "Positional args as JSON array, e.g. [[1,2,3]] or [[{\"name\":\"Invoice\"}]]"@, Some(jstr("[]"@))),
            prop("kwargs"@, "string"@, "Keyword args as JSON object, e.g. {\"fields\": [\"name\",\"amount_total\"]}"@, Some(jstr("{}"@))),
        ],
        seq!["model"@, "method"@],
    )
}

fn execute_kw_tool_json() -> (r: Json)
    ensures
        r@ == execute_kw_tool(),
{
    let mut props: Vec<(String, Json)> = Vec::new();
    prop_json(&mut props, "model", "string", "Odoo model technical name, e.g. account.move", None);
    prop_json(&mut props, "method", "string", "Method name, e.g. write, create, unlink, action_post, read", None);
    prop_json(&mut props, "args", "string", "Positional args as JSON array, e.g. [[1,2,3]] or [[{\"name\":\"Invoice\"}]]", Some(Json::string("[]")));
    prop_json(&mut props, "kwargs", "string", "Keyword args as JSON object, e.g. {\"fields\": [\"name\",\"amount_total\"]}", Some(Json::string("{}")));
    let required = strings(vec!["model", "method"]);
    proof {
        assert(fields_view(props@) =~= seq![
            prop("model"@, "string"@, "Odoo model technical name, e.g. account.move"@, None),
            prop("method"@, "string"@, "Method name, e.g. write, create, unlink, action_post, read"@, None),
            prop("args"@, "string"@, "Positional args as JSON array, e.g. [[1,2,3]] or [[{\"name\":\"Invoice\"}]]"@, Some(jstr("[]"@))),
            prop("kwargs"@, "string"@, "Keyword args as JSON object, e.g. {\"fields\": [\"name\",\"amount_total\"]}"@, Some(jstr("{}"@))),
        ]);
        assert(crate::text::views(required@) =~= seq!["model"@, "method"@]);
    }
    tool_json("odoo_execute_kw", "Call any method on an Odoo model via execute_kw. Use for create, write, unlink, or any custom model method.", props, required)
}

/// The catalogue entry of `odoo_http`.
pub open spec fn http_tool() -> JsonV {
    tool(
        "odoo_http"@,
        "Make a direct HTTP request to any Odoo endpoint, bypassing XML-RPC. Useful for custom controllers and public/ext endpoints."@,
        seq![
            prop("method"@, "string"@, "HTTP method: GET, POST, PUT, PATCH, DELETE"@, Some(jstr("GET"@))),
            prop("path"@, "string"@, "Path on the Odoo server, e.g. /web/health or /api/v2/invoices"@, None),
            prop("body"@, "string"@, "Request body for POST/PUT/PATCH (usually JSON string)"@, None),
            prop("content_type"@, "string"@, "Content-Type header for the request body"@, Some(jstr("application/json"@))),
        ],
        seq!["path"@],
    )
}

fn http_tool_json() -> (r: Json)
    ensures
        r@ == http_tool(),
{
    let mut props: Vec<(String, Json)> = Vec::new();
    prop_json(&mut props, "method", "string", "HTTP method: GET, POST, PUT, PATCH, DELETE", Some(Json::string("GET")));
    prop_json(&mut props, "path", "string", "Path on the Odoo server, e.g. /web/health or /api/v2/invoices", None);
    prop_json(&mut props, "body", "string", "Request body for POST/PUT/PATCH (usually JSON string)", None);
    prop_json(&mut props, "content_type", "string", "Content-Type header for the request body", Some(Json::string("application/json")));
    let required = strings(vec!["path"]);
    proof {
        assert(fields_view(props@) =~= seq![
            prop("method"@, "string"@, "HTTP method: GET, POST, PUT, PATCH, DELETE"@, Some(jstr("GET"@))),
            prop("path"@, "string"@, "Path on the Odoo server, e.g. /web/health or /api/v2/invoices"@, None),
            prop("body"@, "string"@, "Request body for POST/PUT/PATCH (usually JSON string)"@, None),
            prop("content_type"@, "string"@, "Content-Type header for the request body"@, Some(jstr("application/json"@))),
        ]);
        assert(crate::text::views(required@) =~= seq!["path"@]);
    }
    tool_json("odoo_http", "Make a direct HTTP request to any Odoo endpoint, bypassing XML-RPC. Useful for custom controllers and public/ext endpoints.", props, required)
}

/// The catalogue entry of `odoo_list_addons`.
pub open spec fn list_addons_tool() -> JsonV {
    tool(
        "odoo_list_addons"@,
        "List all Odoo addons found in the configured source trees."@,
        Seq::empty(),
        Seq::empty(),
    )
}

fn list_addons_tool_json() -> (r: Json)
    ensures
        r@ == list_addons_tool(),
{
    let mut props: Vec<(String, Json)> = Vec::new();
    let required = strings(vec![]);
    proof {
        assert(fields_view(props@) =~= Seq::empty());
        assert(crate::text::views(required@) =~= Seq::empty());
    }
    tool_json("odoo_list_addons", "List all Odoo addons found in the configured source trees.", props, required)
}

/// The catalogue entry of `odoo_addon_structure`.
pub open spec fn addon_structure_tool() -> JsonV {
    tool(
        "odoo_addon_structure"@,
        "Structural overview of an addon: where it lives and the files it contains."@,
        seq![
            prop("addon"@, "string"@, "Technical name of the addon, e.g. sale"@, None),
        ],
        seq!["addon"@],
    )
}

fn addon_structure_tool_json() -> (r: Json)
    ensures
        r@ == addon_structure_tool(),
{
    let mut props: Vec<(String, Json)> = Vec::new();
    prop_json(&mut props, "addon", "string", "Technical name of the addon, e.g. sale", None);
    let required = strings(vec!["addon"]);
    proof {
        assert(fields_view(props@) =~= seq![
            prop("addon"@, "string"@, "Technical name of the addon, e.g. sale"@, None),
        ]);
        assert(crate::text::views(required@) =~= seq!["addon"@]);
    }
    tool_json("odoo_addon_structure", "Structural overview of an addon: where it lives and the files it contains.", props, required)
}

/// The catalogue entry of `odoo_model_source`.
pub open spec fn model_source_tool() -> JsonV {
    tool(
        "odoo_model_source"@,
        "Full Python source of the files that define or inherit a model."@,
        seq![
            prop("model"@, "string"@, "Odoo model technical name, e.g. res.partner"@, None),
        ],
        seq!["model"@],
    )
}

fn model_source_tool_json() -> (r: Json)
    ensures
        r@ == model_source_tool(),
{
    let mut props: Vec<(String, Json)> = Vec::new();
    prop_json(&mut props, "model", "string", "Odoo model technical name, e.g. res.partner", None);
    let required = strings(vec!["model"]);
    proof {
        assert(fields_view(props@) =~= seq![
            prop("model"@, "string"@, "Odoo model technical name, e.g. res.partner"@, None),
        ]);
        assert(crate::text::views(required@) =~= seq!["model"@]);
    }
    tool_json("odoo_model_source", "Full Python source of the files that define or inherit a model.", props, required)
}

/// The catalogue entry of `odoo_search_source`.
pub open spec fn search_source_tool() -> JsonV {
    tool(
        "odoo_search_source"@,
        "Search the Python files of the configured source trees for a text."@,
        seq![
            prop("pattern"@, "string"@, "Text to search for"@, None),
        ],
        seq!["pattern"@],
    )
}

fn search_source_tool_json() -> (r: Json)
    ensures
        r@ == search_source_tool(),
{
    let mut props: Vec<(String, Json)> = Vec::new();
    prop_json(&mut props, "pattern", "string", "Text to search for", None);
    let required = strings(vec!["pattern"]);
    proof {
        assert(fields_view(props@) =~= seq![
            prop("pattern"@, "string"@, "Text to search for"@, None),
        ]);
        assert(crate::text::views(required@) =~= seq!["pattern"@]);
    }
    tool_json("odoo_search_source", "Search the Python files of the configured source trees for a text.", props, required)
}

/// The catalogue entry of `odoo_update_sources`.
pub open spec fn update_sources_tool() -> JsonV {
    tool(
        "odoo_update_sources"@,
        "Pull or clone the configured git source trees."@,
        Seq::empty(),
        Seq::empty(),
    )
}

fn update_sources_tool_json() -> (r: Json)
    ensures
        r@ == update_sources_tool(),
{
    let mut props: Vec<(String, Json)> = Vec::new();
    let required = strings(vec![]);
    proof {
        assert(fields_view(props@) =~= Seq::empty());
        assert(crate::text::views(required@) =~= Seq::empty());
    }
    tool_json("odoo_update_sources", "Pull or clone the configured git source trees.", props, required)
}

/// The tools the server offers; in safe mode `odoo_execute_kw` is hidden.
pub open spec fn tools_catalogue(safe_mode: bool) -> JsonV {
    if safe_mode {
        JsonV::Array(seq![search_read_tool(), search_tool(), search_count_tool(), read_tool(), fields_get_tool(), http_tool(), list_addons_tool(), addon_structure_tool(), model_source_tool(), search_source_tool(), update_sources_tool()])
    } else {
        JsonV::Array(seq![search_read_tool(), search_tool(), search_count_tool(), read_tool(), fields_get_tool(), execute_kw_tool(), http_tool(), list_addons_tool(), addon_structure_tool(), model_source_tool(), search_source_tool(), update_sources_tool()])
    }
}

/// The tool catalogue sent in reply to `tools/list`; in safe mode it leaves
/// out `odoo_execute_kw`.
pub fn tools_schema(safe_mode: bool) -> (r: Json)
    ensures
        r@ == tools_catalogue(safe_mode),
{
    let mut tools: Vec<Json> = Vec::new();
    push_elem(&mut tools, search_read_tool_json());
    push_elem(&mut tools, search_tool_json());
    push_elem(&mut tools, search_count_tool_json());
    push_elem(&mut tools, read_tool_json());
    push_elem(&mut tools, fields_get_tool_json());
    if !safe_mode {
        push_elem(&mut tools, execute_kw_tool_json());
    }
    push_elem(&mut tools, http_tool_json());
    push_elem(&mut tools, list_addons_tool_json());
    push_elem(&mut tools, addon_structure_tool_json());
    push_elem(&mut tools, model_source_tool_json());
    push_elem(&mut tools, search_source_tool_json());
    push_elem(&mut tools, update_sources_tool_json());
    let r = Json::array(tools);
    proof {
        assert(r@->Array_0 =~= tools_catalogue(safe_mode)->Array_0);
    }
    r
}


// ── tool calls ───────────────────────────────────────────────────────────────

/// A tool call, with its arguments read.
#[derive(Debug, PartialEq, Eq)]
pub enum ToolCall {
    SearchRead {
        model: String,
        /// The domain as JSON text.
        domain: String,
        fields: Vec<String>,
        limit: Option<u64>,
        offset: u64,
        order: Option<String>,
    },
    Search { model: String, domain: String, limit: Option<u64>, offset: u64, order: Option<String> },
    SearchCount { model: String, domain: String },
    Read {
        model: String,
        /// The record ids as JSON text.
        ids: String,
        fields: Vec<String>,
    },
    FieldsGet { model: String, fields: Vec<String>, attributes: Vec<String> },
    ExecuteKw {
        model: String,
        method: String,
        /// Positional arguments as JSON text.
        args: String,
        /// Keyword arguments as JSON text.
        kwargs: String,
    },
    Http { method: String, path: String, body: Option<String>, content_type: String },
    ListAddons,
    AddonStructure { addon: String },
    ModelSource { model: String },
    SearchSource { pattern: String },
    UpdateSources,
}

pub enum ToolCallV {
    SearchRead {
        model: Seq<char>,
        domain: Seq<char>,
        fields: Seq<Seq<char>>,
        limit: Option<u64>,
        offset: u64,
        order: Option<Seq<char>>,
    },
    Search { model: Seq<char>, domain: Seq<char>, limit: Option<u64>, offset: u64, order: Option<Seq<char>> },
    SearchCount { model: Seq<char>, domain: Seq<char> },
    Read { model: Seq<char>, ids: Seq<char>, fields: Seq<Seq<char>> },
    FieldsGet { model: Seq<char>, fields: Seq<Seq<char>>, attributes: Seq<Seq<char>> },
    ExecuteKw { model: Seq<char>, method: Seq<char>, args: Seq<char>, kwargs: Seq<char> },
    Http { method: Seq<char>, path: Seq<char>, body: Option<Seq<char>>, content_type: Seq<char> },
    ListAddons,
    AddonStructure { addon: Seq<char> },
    ModelSource { model: Seq<char> },
    SearchSource { pattern: Seq<char> },
    UpdateSources,
}

impl View for ToolCall {
    type V = ToolCallV;

    open spec fn view(&self) -> ToolCallV {
        match self {
            ToolCall::SearchRead { model, domain, fields, limit, offset, order } => ToolCallV::SearchRead {
                model: model@,
                domain: domain@,
                fields: crate::text::views(fields@),
                limit: *limit,
                offset: *offset,
                order: order.deep_view(),
            },
            ToolCall::Search { model, domain, limit, offset, order } => ToolCallV::Search {
                model: model@,
                domain: domain@,
                limit: *limit,
                offset: *offset,
                order: order.deep_view(),
            },
            ToolCall::SearchCount { model, domain } => ToolCallV::SearchCount {
                model: model@,
                domain: domain@,
            },
            ToolCall::Read { model, ids, fields } => ToolCallV::Read {
                model: model@,
                ids: ids@,
                fields: crate::text::views(fields@),
            },
            ToolCall::FieldsGet { model, fields, attributes } => ToolCallV::FieldsGet {
                model: model@,
                fields: crate::text::views(fields@),
                attributes: crate::text::views(attributes@),
            },
            ToolCall::ExecuteKw { model, method, args, kwargs } => ToolCallV::ExecuteKw {
                model: model@,
                method: method@,
                args: args@,
                kwargs: kwargs@,
            },
            ToolCall::Http { method, path, body, content_type } => ToolCallV::Http {
                method: method@,
                path: path@,
                body: body.deep_view(),
                content_type: content_type@,
            },
            ToolCall::ListAddons => ToolCallV::ListAddons,
            ToolCall::AddonStructure { addon } => ToolCallV::AddonStructure { addon: addon@ },
            ToolCall::ModelSource { model } => ToolCallV::ModelSource { model: model@ },
            ToolCall::SearchSource { pattern } => ToolCallV::SearchSource { pattern: pattern@ },
            ToolCall::UpdateSources => ToolCallV::UpdateSources,
        }
    }
}

/// Why a tool call could not be read.
#[derive(Debug, PartialEq, Eq)]
pub enum ToolError {
    UnknownTool { name: String },
    MissingField { field: String },
    /// `odoo_execute_kw` was called on a profile in safe mode.
    SafeMode,
}

/// The message of a call refused by safe mode.
pub open spec fn safe_mode_message() -> Seq<char> {
    "odoo_execute_kw is blocked in safe mode; set safe_mode: false for this profile to enable it"@
}

impl ToolError {
    pub open spec fn spec_message(&self) -> Seq<char> {
        match self {
            ToolError::UnknownTool { name } => "Unknown tool: "@ + name@,
            ToolError::MissingField { field } => "missing field: "@ + field@,
            ToolError::SafeMode => safe_mode_message(),
        }
    }

    /// The error as a line of text.
    pub fn message(&self) -> (r: String)
        ensures
            r@ == self.spec_message(),
    {
        match self {
            ToolError::UnknownTool { name } => str_concat("Unknown tool: ", name.as_str()),
            ToolError::MissingField { field } => str_concat("missing field: ", field.as_str()),
            ToolError::SafeMode => owned(
                "odoo_execute_kw is blocked in safe mode; set safe_mode: false for this profile to enable it",
            ),
        }
    }
}

/// A string member, or `default` where it is missing or not a string.
pub open spec fn str_or(v: JsonV, default: Seq<char>) -> Seq<char> {
    match as_str(v) {
        Some(s) => s,
        None => default,
    }
}

/// The comma-separated names in `s`, each trimmed.
pub open spec fn field_list(s: Seq<char>) -> Seq<Seq<char>> {
    Seq::new(split_on(s, ',').len(), |i: int| trim(split_on(s, ',')[i]))
}

/// An optional non-negative integer member.
pub open spec fn u64_member(args: JsonV, key: Seq<char>) -> Option<u64> {
    match as_u64(index(args, key)) {
        Some(n) => Some(n as u64),
        None => None,
    }
}

/// An offset member, `0` where it is missing.
pub open spec fn offset_member(args: JsonV) -> u64 {
    match as_u64(index(args, "offset"@)) {
        Some(n) => n as u64,
        None => 0,
    }
}

/// How the arguments of a tool call are read: the required members must be
/// strings, the others take their defaults. In safe mode `odoo_execute_kw`
/// is refused.
pub open spec fn read_tool_call(name: Seq<char>, args: JsonV, safe_mode: bool) -> Result<ToolCallV, Seq<char>> {
    let missing = "missing field: "@;
    if name == "odoo_search_read"@ {
        match as_str(index(args, "model"@)) {
            None => Err(missing + "model"@),
            Some(model) => Ok(
                ToolCallV::SearchRead {
                    model,
                    domain: str_or(index(args, "domain"@), "[]"@),
                    fields: field_list(str_or(index(args, "fields"@), "id,name"@)),
                    limit: u64_member(args, "limit"@),
                    offset: offset_member(args),
                    order: as_str(index(args, "order"@)),
                },
            ),
        }
    } else if name == "odoo_search"@ {
        match as_str(index(args, "model"@)) {
            None => Err(missing + "model"@),
            Some(model) => Ok(
                ToolCallV::Search {
                    model,
                    domain: str_or(index(args, "domain"@), "[]"@),
                    limit: u64_member(args, "limit"@),
                    offset: offset_member(args),
                    order: as_str(index(args, "order"@)),
                },
            ),
        }
    } else if name == "odoo_search_count"@ {
        match as_str(index(args, "model"@)) {
            None => Err(missing + "model"@),
            Some(model) => Ok(
                ToolCallV::SearchCount { model, domain: str_or(index(args, "domain"@), "[]"@) },
            ),
        }
    } else if name == "odoo_read"@ {
        match (as_str(index(args, "model"@)), as_str(index(args, "ids"@))) {
            (None, _) => Err(missing + "model"@),
            (Some(_), None) => Err(missing + "ids"@),
            (Some(model), Some(ids)) => Ok(
                ToolCallV::Read {
                    model,
                    ids,
                    fields: field_list(str_or(index(args, "fields"@), "id,name"@)),
                },
            ),
        }
    } else if name == "odoo_fields_get"@ {
        match as_str(index(args, "model"@)) {
            None => Err(missing + "model"@),
            Some(model) => Ok(
                ToolCallV::FieldsGet {
                    model,
                    fields: match as_str(index(args, "fields"@)) {
                        Some(f) => field_list(f),
                        None => Seq::empty(),
                    },
                    attributes: field_list(
                        str_or(index(args, "attributes"@), "string,type,required,readonly,relation"@),
                    ),
                },
            ),
        }
    } else if name == "odoo_execute_kw"@ {
        if safe_mode {
            Err(safe_mode_message())
        } else {
            match (as_str(index(args, "model"@)), as_str(index(args, "method"@))) {
                (None, _) => Err(missing + "model"@),
                (Some(_), None) => Err(missing + "method"@),
                (Some(model), Some(method)) => Ok(
                    ToolCallV::ExecuteKw {
                        model,
                        method,
                        args: str_or(index(args, "args"@), "[]"@),
                        kwargs: str_or(index(args, "kwargs"@), "{}"@),
                    },
                ),
            }
        }
    } else if name == "odoo_http"@ {
        match as_str(index(args, "path"@)) {
            None => Err(missing + "path"@),
            Some(path) => Ok(
                ToolCallV::Http {
                    method: str_or(index(args, "method"@), "GET"@),
                    path,
                    body: as_str(index(args, "body"@)),
                    content_type: str_or(index(args, "content_type"@), "application/json"@),
                },
            ),
        }
    } else if name == "odoo_list_addons"@ {
        Ok(ToolCallV::ListAddons)
    } else if name == "odoo_addon_structure"@ {
        match as_str(index(args, "addon"@)) {
            None => Err(missing + "addon"@),
            Some(addon) => Ok(ToolCallV::AddonStructure { addon }),
        }
    } else if name == "odoo_model_source"@ {
        match as_str(index(args, "model"@)) {
            None => Err(missing + "model"@),
            Some(model) => Ok(ToolCallV::ModelSource { model }),
        }
    } else if name == "odoo_search_source"@ {
        match as_str(index(args, "pattern"@)) {
            None => Err(missing + "pattern"@),
            Some(pattern) => Ok(ToolCallV::SearchSource { pattern }),
        }
    } else if name == "odoo_update_sources"@ {
        Ok(ToolCallV::UpdateSources)
    } else {
        Err("Unknown tool: "@ + name)
    }
}

fn str_member_or(args: &Json, key: &str, default: &str) -> (r: String)
    ensures
        r@ == str_or(index(args@, key@), default@),
{
    match args.get_str(key) {
        Some(s) => s,
        None => owned(default),
    }
}

fn required(args: &Json, key: &str) -> (r: Result<String, ToolError>)
    ensures
        match as_str(index(args@, key@)) {
            Some(s) => r matches Ok(x) && x@ == s,
            None => r matches Err(e) && e.spec_message() == "missing field: "@ + key@,
        },
{
    match args.get_str(key) {
        Some(s) => Ok(s),
        None => Err(ToolError::MissingField { field: owned(key) }),
    }
}

fn offset_of(args: &Json) -> (r: u64)
    ensures
        r == offset_member(args@),
{
    match args.get_u64("offset") {
        Some(o) => o,
        None => 0,
    }
}

/// Splits a comma-separated list of names, trimming each.
pub fn split_field_list(s: &str) -> (r: Vec<String>)
    ensures
        crate::text::views(r@) == field_list(s@),
{
    let cs = crate::text::chars_of(s);
    let parts = split_chars(&cs, ',');
    let mut out: Vec<String> = Vec::new();
    let mut i: usize = 0;
    while i < parts.len()
        invariant
            i <= parts@.len(),
            parts@.len() == split_on(s@, ',').len(),
            forall|k: int| 0 <= k < parts@.len() ==> #[trigger] parts@[k]@ == split_on(s@, ',')[k],
            crate::text::views(out@) =~= field_list(s@).take(i as int),
        decreases parts@.len() - i,
    {
        let t = trim_chars(&parts[i]);
        crate::text::push_string(&mut out, string_of(&t));
        proof {
            assert(crate::text::views(out@) =~= field_list(s@).take(i + 1));
        }
        i += 1;
    }
    proof {
        assert(field_list(s@).take(parts@.len() as int) =~= field_list(s@));
    }
    out
}

/// Reads the arguments of a call of the tool `name`; in safe mode
/// `odoo_execute_kw` is refused.
pub fn tool_call(name: &str, args: &Json, safe_mode: bool) -> (r: Result<ToolCall, ToolError>)
    ensures
        match read_tool_call(name@, args@, safe_mode) {
            Ok(c) => r matches Ok(x) && x@ == c,
            Err(m) => r matches Err(e) && e.spec_message() == m,
        },
{
    let n = owned(name);
    if n == owned("odoo_search_read") {
        let model = match required(args, "model") {
            Ok(m) => m,
            Err(e) => return Err(e),
        };
        let domain = str_member_or(args, "domain", "[]");
        let fields_text = str_member_or(args, "fields", "id,name");
        let fields = split_field_list(fields_text.as_str());
        let limit = args.get_u64("limit");
        let offset = offset_of(args);
        let order = args.get_str("order");
        Ok(ToolCall::SearchRead { model, domain, fields, limit, offset, order })
    } else if n == owned("odoo_search") {
        let model = match required(args, "model") {
            Ok(m) => m,
            Err(e) => return Err(e),
        };
        let domain = str_member_or(args, "domain", "[]");
        let limit = args.get_u64("limit");
        let offset = offset_of(args);
        let order = args.get_str("order");
        Ok(ToolCall::Search { model, domain, limit, offset, order })
    } else if n == owned("odoo_search_count") {
        let model = match required(args, "model") {
            Ok(m) => m,
            Err(e) => return Err(e),
        };
        let domain = str_member_or(args, "domain", "[]");
        Ok(ToolCall::SearchCount { model, domain })
    } else if n == owned("odoo_read") {
        let model = match required(args, "model") {
            Ok(m) => m,
            Err(e) => return Err(e),
        };
        let ids = match required(args, "ids") {
            Ok(m) => m,
            Err(e) => return Err(e),
        };
        let fields_text = str_member_or(args, "fields", "id,name");
        let fields = split_field_list(fields_text.as_str());
        Ok(ToolCall::Read { model, ids, fields })
    } else if n == owned("odoo_fields_get") {
        let model = match required(args, "model") {
            Ok(m) => m,
            Err(e) => return Err(e),
        };
        let fields = match args.get_str("fields") {
            Some(f) => split_field_list(f.as_str()),
            None => {
                let v: Vec<String> = Vec::new();
                proof {
                    assert(crate::text::views(v@) =~= Seq::<Seq<char>>::empty());
                }
                v
            },
        };
        let attributes_text = str_member_or(args, "attributes", "string,type,required,readonly,relation");
        let attributes = split_field_list(attributes_text.as_str());
        Ok(ToolCall::FieldsGet { model, fields, attributes })
    } else if n == owned("odoo_execute_kw") {
        if safe_mode {
            return Err(ToolError::SafeMode);
        }
        let model = match required(args, "model") {
            Ok(m) => m,
            Err(e) => return Err(e),
        };
        let method = match required(args, "method") {
            Ok(m) => m,
            Err(e) => return Err(e),
        };
        let call_args = str_member_or(args, "args", "[]");
        let kwargs = str_member_or(args, "kwargs", "{}");
        Ok(ToolCall::ExecuteKw { model, method, args: call_args, kwargs })
    } else if n == owned("odoo_http") {
        let method = str_member_or(args, "method", "GET");
        let path = match required(args, "path") {
            Ok(p) => p,
            Err(e) => return Err(e),
        };
        let body = args.get_str("body");
        let content_type = str_member_or(args, "content_type", "application/json");
        Ok(ToolCall::Http { method, path, body, content_type })
    } else if n == owned("odoo_list_addons") {
        Ok(ToolCall::ListAddons)
    } else if n == owned("odoo_addon_structure") {
        match required(args, "addon") {
            Ok(addon) => Ok(ToolCall::AddonStructure { addon }),
            Err(e) => Err(e),
        }
    } else if n == owned("odoo_model_source") {
        match required(args, "model") {
            Ok(model) => Ok(ToolCall::ModelSource { model }),
            Err(e) => Err(e),
        }
    } else if n == owned("odoo_search_source") {
        match required(args, "pattern") {
            Ok(pattern) => Ok(ToolCall::SearchSource { pattern }),
            Err(e) => Err(e),
        }
    } else if n == owned("odoo_update_sources") {
        Ok(ToolCall::UpdateSources)
    } else {
        Err(ToolError::UnknownTool { name: n })
    }
}

/// The keyword arguments of the `search_read` a tool call makes: domain and
/// fields, then limit, a positive offset and order where given (numbers are
/// stored as `i64`).
pub open spec fn tool_search_read_kwargs(
    domain: JsonV,
    fields: Seq<Seq<char>>,
    limit: Option<u64>,
    offset: u64,
    order: Option<Seq<char>>,
) -> JsonV {
    let base = seq![
        ("domain"@, domain),
        ("fields"@, JsonV::Array(Seq::new(fields.len(), |i: int| jstr(fields[i])))),
    ];
    let with_limit = match limit {
        Some(l) => base.push(("limit"@, JsonV::Int((l as i64) as int))),
        None => base,
    };
    let with_offset = if offset > 0 {
        with_limit.push(("offset"@, JsonV::Int((offset as i64) as int)))
    } else {
        with_limit
    };
    obj(
        match order {
            Some(o) => with_offset.push(("order"@, jstr(o))),
            None => with_offset,
        },
    )
}

/// Builds the keyword arguments of a tool's `search_read`.
pub fn search_read_kwargs(
    domain: Json,
    fields: &Vec<String>,
    limit: Option<u64>,
    offset: u64,
    order: Option<&str>,
) -> (r: Json)
    ensures
        r@ == tool_search_read_kwargs(
            domain@,
            crate::text::views(fields@),
            limit,
            offset,
            match order {
                Some(o) => Some(o@),
                None => None,
            },
        ),
{
    let ghost dv = domain@;
    let mut kwargs: Vec<(String, Json)> = Vec::new();
    add_field(&mut kwargs, "domain", domain);
    add_field(&mut kwargs, "fields", Json::string_array(fields));
    match limit {
        Some(l) => add_field(&mut kwargs, "limit", Json::Int(l as i64)),
        None => {},
    }
    if offset > 0 {
        add_field(&mut kwargs, "offset", Json::Int(offset as i64));
    }
    match order {
        Some(o) => add_field(&mut kwargs, "order", Json::string(o)),
        None => {},
    }
    let r = Json::object(kwargs);
    proof {
        let fv = crate::text::views(fields@);
        assert(r@->Object_0[1].1->Array_0 =~= Seq::new(fv.len(), |i: int| jstr(fv[i])));
        assert(r@->Object_0 =~= tool_search_read_kwargs(
            dv,
            fv,
            limit,
            offset,
            match order {
                Some(o) => Some(o@),
                None => None,
            },
        )->Object_0);
    }
    r
}

/// The error text of an argument that is not valid JSON.
pub fn invalid_json(what: &str, text: &str) -> (r: String)
    ensures
        r@ == "Invalid "@ + what@ + " JSON: "@ + text@,
{
    let mut out = crate::text::str_concat3("Invalid ", what, " JSON: ");
    out.append(text);
    out
}

// ── answering messages ───────────────────────────────────────────────────────

/// What the server does with one message.
#[derive(Debug, PartialEq, Eq)]
pub enum Step {
    /// Nothing: the message is a notification, or has no id.
    Silent,
    /// Send this reply.
    Reply(Json),
    /// Run the tool call, then reply with `tool_resp(id, ..)`.
    RunTool { id: Json, call: ToolCall },
}

pub enum StepV {
    Silent,
    Reply(JsonV),
    RunTool { id: JsonV, call: ToolCallV },
}

impl View for Step {
    type V = StepV;

    open spec fn view(&self) -> StepV {
        match self {
            Step::Silent => StepV::Silent,
            Step::Reply(j) => StepV::Reply(j@),
            Step::RunTool { id, call } => StepV::RunTool { id: id@, call: call@ },
        }
    }
}

/// How the server answers `msg`: notifications and messages without an id
/// get nothing; `initialize`, `tools/list` and `tools/call` are served; other
/// methods get a "method not found" error. `safe_mode` is the profile's: it
/// hides and refuses `odoo_execute_kw`.
pub open spec fn answer(msg: JsonV, version: Seq<char>, safe_mode: bool) -> StepV {
    let method = str_or(index(msg, "method"@), ""@);
    if starts_with(method, "notifications/"@) || get(msg, "id"@) is None {
        StepV::Silent
    } else {
        let id = index(msg, "id"@);
        if method == "initialize"@ {
            StepV::Reply(ok_reply(id, initialize_result(version)))
        } else if method == "tools/list"@ {
            StepV::Reply(ok_reply(id, obj(seq![("tools"@, tools_catalogue(safe_mode))])))
        } else if method == "tools/call"@ {
            let params = index(msg, "params"@);
            match read_tool_call(
                str_or(index(params, "name"@), ""@),
                index(params, "arguments"@),
                safe_mode,
            ) {
                Ok(call) => StepV::RunTool { id, call },
                Err(e) => StepV::Reply(ok_reply(id, tool_result(Err(e)))),
            }
        } else {
            StepV::Reply(err_reply(id, -32601, "Method not found: "@ + method))
        }
    }
}

/// Decides how to answer one incoming message.
pub fn answer_message(msg: &Json, version: &str, safe_mode: bool) -> (r: Step)
    ensures
        r@ == answer(msg@, version@, safe_mode),
{
    let method = str_member_or(msg, "method", "");
    if str_starts_with(method.as_str(), "notifications/") {
        return Step::Silent;
    }
    if msg.get("id").is_none() {
        return Step::Silent;
    }
    let id = msg.member("id");
    if method == owned("initialize") {
        Step::Reply(ok_resp(id, initialize_result_json(version)))
    } else if method == owned("tools/list") {
        let mut fields: Vec<(String, Json)> = Vec::new();
        add_field(&mut fields, "tools", tools_schema(safe_mode));
        let result = Json::object(fields);
        proof {
            assert(result@->Object_0 =~= seq![("tools"@, tools_catalogue(safe_mode))]);
        }
        Step::Reply(ok_resp(id, result))
    } else if method == owned("tools/call") {
        let params = msg.member("params");
        let name = str_member_or(&params, "name", "");
        let arguments = params.member("arguments");
        match tool_call(name.as_str(), &arguments, safe_mode) {
            Ok(call) => Step::RunTool { id, call },
            Err(e) => Step::Reply(tool_resp(id, Err(e.message()))),
        }
    } else {
        let message = str_concat("Method not found: ", method.as_str());
        Step::Reply(err_resp(id, -32601, message.as_str()))
    }
}

/// Every reply answers the request it was made for: it is a JSON-RPC 2.0
/// message carrying the request's id, whether it succeeds or fails.
pub proof fn law_reply_carries_request_id(id: JsonV, result: JsonV, code: int, message: Seq<char>)
    ensures
        index(ok_reply(id, result), "id"@) == id,
        index(ok_reply(id, result), "jsonrpc"@) == jstr("2.0"@),
        index(err_reply(id, code, message), "id"@) == id,
        index(err_reply(id, code, message), "jsonrpc"@) == jstr("2.0"@),
{
    reveal_strlit("id");
    reveal_strlit("jsonrpc");
    assert("jsonrpc"@.len() == 7);
    assert("id"@.len() == 2);
    assert("jsonrpc"@ != "id"@);
    let f = ok_reply(id, result)->Object_0;
    assert(f.drop_first()[0].0 == "id"@);
    assert(crate::json::lookup(f.drop_first(), "id"@) == Some(id));
    assert(crate::json::lookup(f, "id"@) == Some(id));
    let g = err_reply(id, code, message)->Object_0;
    assert(g.drop_first()[0].0 == "id"@);
    assert(crate::json::lookup(g.drop_first(), "id"@) == Some(id));
    assert(crate::json::lookup(g, "id"@) == Some(id));
}

/// Notifications, and messages without an id, are never answered; every
/// other message is answered (directly or after its tool runs) under its
/// own id.
pub proof fn law_requests_answered_under_their_id(msg: JsonV, version: Seq<char>, safe_mode: bool)
    ensures
        answer(msg, version, safe_mode) is Silent <==> (starts_with(
            str_or(index(msg, "method"@), ""@),
            "notifications/"@,
        ) || get(msg, "id"@) is None),
        answer(msg, version, safe_mode) matches StepV::Reply(r) ==> index(r, "id"@) == index(msg, "id"@),
        answer(msg, version, safe_mode) matches StepV::RunTool { id, call } ==> id == index(msg, "id"@),
{
    let id = index(msg, "id"@);
    law_reply_carries_request_id(id, initialize_result(version), -32601, Seq::empty());
    law_reply_carries_request_id(id, obj(seq![("tools"@, tools_catalogue(safe_mode))]), -32601, Seq::empty());
    let method = str_or(index(msg, "method"@), ""@);
    law_reply_carries_request_id(id, JsonV::Null, -32601, "Method not found: "@ + method);
    let params = index(msg, "params"@);
    match read_tool_call(str_or(index(params, "name"@), ""@), index(params, "arguments"@), safe_mode) {
        Ok(_) => {},
        Err(e) => {
            law_reply_carries_request_id(id, tool_result(Err(e)), 0, Seq::empty());
        },
    }
}

/// The name a catalogue entry lists.
pub open spec fn listed_name(t: JsonV) -> Seq<char> {
    str_or(index(t, "name"@), ""@)
}

/// The members a catalogue entry's input schema marks required.
pub open spec fn listed_required(t: JsonV) -> JsonV {
    index(index(t, "inputSchema"@), "required"@)
}

/// Every member named in `required` is a string in `args`.
pub open spec fn required_present(args: JsonV, required: JsonV) -> bool {
    match required {
        JsonV::Array(keys) => forall|i: int|
            0 <= i < keys.len() ==> #[trigger] as_str(index(args, str_or(keys[i], ""@))) is Some,
        _ => false,
    }
}

/// The names of the tools the server knows.
pub open spec fn tool_names() -> Seq<Seq<char>> {
    seq!["odoo_search_read"@, "odoo_search"@, "odoo_search_count"@, "odoo_read"@, "odoo_fields_get"@, "odoo_execute_kw"@, "odoo_http"@, "odoo_list_addons"@, "odoo_addon_structure"@, "odoo_model_source"@, "odoo_search_source"@, "odoo_update_sources"@]
}

/// A catalogue entry that `read_tool_call` accepts exactly when the members
/// its schema marks required are strings.
pub open spec fn callable_entry(t: JsonV, args: JsonV, safe_mode: bool) -> bool {
    read_tool_call(listed_name(t), args, safe_mode) is Ok <==> required_present(args, listed_required(t))
}

/// The catalogue and the reading of calls agree: every listed tool is
/// accepted exactly when the members its schema marks required are strings;
/// safe mode lists every tool but `odoo_execute_kw` and refuses that one; a
/// name that is not a tool's is refused as unknown.
pub proof fn law_listed_tools_are_callable(name: Seq<char>, args: JsonV, safe_mode: bool)
    ensures
        !safe_mode ==> tools_catalogue(false)->Array_0.len() == 12 && forall|i: int|
            0 <= i < 12 ==> listed_name(#[trigger] tools_catalogue(false)->Array_0[i]) == tool_names()[i],
        safe_mode ==> tools_catalogue(true)->Array_0.len() == 11 && forall|i: int|
            0 <= i < 11 ==> listed_name(#[trigger] tools_catalogue(true)->Array_0[i]) != "odoo_execute_kw"@,
        forall|i: int|
            0 <= i < tools_catalogue(safe_mode)->Array_0.len() ==> callable_entry(
                #[trigger] tools_catalogue(safe_mode)->Array_0[i],
                args,
                safe_mode,
            ),
        safe_mode ==> read_tool_call("odoo_execute_kw"@, args, true) == Err::<ToolCallV, Seq<char>>(
            safe_mode_message(),
        ),
        !tool_names().contains(name) ==> read_tool_call(name, args, safe_mode) == Err::<
            ToolCallV,
            Seq<char>,
        >("Unknown tool: "@ + name),
{
    reveal_strlit("odoo_search_read");
    reveal_strlit("odoo_search");
    reveal_strlit("odoo_search_count");
    reveal_strlit("odoo_read");
    reveal_strlit("odoo_fields_get");
    reveal_strlit("odoo_execute_kw");
    reveal_strlit("odoo_http");
    reveal_strlit("odoo_list_addons");
    reveal_strlit("odoo_addon_structure");
    reveal_strlit("odoo_model_source");
    reveal_strlit("odoo_search_source");
    reveal_strlit("odoo_update_sources");
    assert("odoo_search_read"@.len() == 16 && "odoo_search_read"@[5] == 's');
    assert("odoo_search"@.len() == 11 && "odoo_search"@[5] == 's');
    assert("odoo_search_count"@.len() == 17 && "odoo_search_count"@[5] == 's');
    assert("odoo_read"@.len() == 9 && "odoo_read"@[5] == 'r');
    assert("odoo_fields_get"@.len() == 15 && "odoo_fields_get"@[5] == 'f');
    assert("odoo_execute_kw"@.len() == 15 && "odoo_execute_kw"@[5] == 'e');
    assert("odoo_http"@.len() == 9 && "odoo_http"@[5] == 'h');
    assert("odoo_list_addons"@.len() == 16 && "odoo_list_addons"@[5] == 'l');
    assert("odoo_addon_structure"@.len() == 20 && "odoo_addon_structure"@[5] == 'a');
    assert("odoo_model_source"@.len() == 17 && "odoo_model_source"@[5] == 'm');
    assert("odoo_search_source"@.len() == 18 && "odoo_search_source"@[5] == 's');
    assert("odoo_update_sources"@.len() == 19 && "odoo_update_sources"@[5] == 'u');
    assert forall|n: Seq<char>, d: Seq<char>, p: Seq<(Seq<char>, JsonV)>, r: Seq<Seq<char>>|
        #![trigger tool(n, d, p, r)]
        listed_name(tool(n, d, p, r)) == n && listed_required(tool(n, d, p, r)) == JsonV::Array(
            Seq::new(r.len(), |i: int| jstr(r[i])),
        ) by {
        lemma_tool_entry(n, d, p, r);
    }
    assert(callable_entry(search_read_tool(), args, safe_mode)) by {
        let keys = listed_required(search_read_tool())->Array_0;
        assert(keys.len() == 1);
        assert(str_or(keys[0], ""@) == "model"@);
        assert(required_present(args, listed_required(search_read_tool())) <==> (as_str(index(args, "model"@)) is Some));
    }
    assert(callable_entry(search_tool(), args, safe_mode)) by {
        let keys = listed_required(search_tool())->Array_0;
        assert(keys.len() == 1);
        assert(str_or(keys[0], ""@) == "model"@);
        assert(required_present(args, listed_required(search_tool())) <==> (as_str(index(args, "model"@)) is Some));
    }
    assert(callable_entry(search_count_tool(), args, safe_mode)) by {
        let keys = listed_required(search_count_tool())->Array_0;
        assert(keys.len() == 1);
        assert(str_or(keys[0], ""@) == "model"@);
        assert(required_present(args, listed_required(search_count_tool())) <==> (as_str(index(args, "model"@)) is Some));
    }
    assert(callable_entry(read_tool(), args, safe_mode)) by {
        let keys = listed_required(read_tool())->Array_0;
        assert(keys.len() == 2);
        assert(str_or(keys[0], ""@) == "model"@);
        assert(str_or(keys[1], ""@) == "ids"@);
        assert(required_present(args, listed_required(read_tool())) <==> (as_str(index(args, "model"@)) is Some && as_str(index(args, "ids"@)) is Some));
    }
    assert(callable_entry(fields_get_tool(), args, safe_mode)) by {
        let keys = listed_required(fields_get_tool())->Array_0;
        assert(keys.len() == 1);
        assert(str_or(keys[0], ""@) == "model"@);
        assert(required_present(args, listed_required(fields_get_tool())) <==> (as_str(index(args, "model"@)) is Some));
    }
    assert(!safe_mode ==> callable_entry(execute_kw_tool(), args, safe_mode)) by {
        let keys = listed_required(execute_kw_tool())->Array_0;
        assert(keys.len() == 2);
        assert(str_or(keys[0], ""@) == "model"@);
        assert(str_or(keys[1], ""@) == "method"@);
        assert(required_present(args, listed_required(execute_kw_tool())) <==> (as_str(index(args, "model"@)) is Some && as_str(index(args, "method"@)) is Some));
    }
    assert(callable_entry(http_tool(), args, safe_mode)) by {
        let keys = listed_required(http_tool())->Array_0;
        assert(keys.len() == 1);
        assert(str_or(keys[0], ""@) == "path"@);
        assert(required_present(args, listed_required(http_tool())) <==> (as_str(index(args, "path"@)) is Some));
    }
    assert(callable_entry(list_addons_tool(), args, safe_mode)) by {
        let keys = listed_required(list_addons_tool())->Array_0;
        assert(keys.len() == 0);

        assert(required_present(args, listed_required(list_addons_tool())) <==> (true));
    }
    assert(callable_entry(addon_structure_tool(), args, safe_mode)) by {
        let keys = listed_required(addon_structure_tool())->Array_0;
        assert(keys.len() == 1);
        assert(str_or(keys[0], ""@) == "addon"@);
        assert(required_present(args, listed_required(addon_structure_tool())) <==> (as_str(index(args, "addon"@)) is Some));
    }
    assert(callable_entry(model_source_tool(), args, safe_mode)) by {
        let keys = listed_required(model_source_tool())->Array_0;
        assert(keys.len() == 1);
        assert(str_or(keys[0], ""@) == "model"@);
        assert(required_present(args, listed_required(model_source_tool())) <==> (as_str(index(args, "model"@)) is Some));
    }
    assert(callable_entry(search_source_tool(), args, safe_mode)) by {
        let keys = listed_required(search_source_tool())->Array_0;
        assert(keys.len() == 1);
        assert(str_or(keys[0], ""@) == "pattern"@);
        assert(required_present(args, listed_required(search_source_tool())) <==> (as_str(index(args, "pattern"@)) is Some));
    }
    assert(callable_entry(update_sources_tool(), args, safe_mode)) by {
        let keys = listed_required(update_sources_tool())->Array_0;
        assert(keys.len() == 0);

        assert(required_present(args, listed_required(update_sources_tool())) <==> (true));
    }
    let cat = tools_catalogue(safe_mode)->Array_0;
    assert forall|i: int| 0 <= i < cat.len() implies callable_entry(#[trigger] cat[i], args, safe_mode) by {
    }
    if !tool_names().contains(name) {
        assert(tool_names()[0] == "odoo_search_read"@);
        assert(tool_names()[1] == "odoo_search"@);
        assert(tool_names()[2] == "odoo_search_count"@);
        assert(tool_names()[3] == "odoo_read"@);
        assert(tool_names()[4] == "odoo_fields_get"@);
        assert(tool_names()[5] == "odoo_execute_kw"@);
        assert(tool_names()[6] == "odoo_http"@);
        assert(tool_names()[7] == "odoo_list_addons"@);
        assert(tool_names()[8] == "odoo_addon_structure"@);
        assert(tool_names()[9] == "odoo_model_source"@);
        assert(tool_names()[10] == "odoo_search_source"@);
        assert(tool_names()[11] == "odoo_update_sources"@);
    }
}

/// An object with the member `key: value` put in front of `fields`.
pub open spec fn with_member(fields: Seq<(Seq<char>, JsonV)>, key: Seq<char>, value: JsonV) -> JsonV {
    obj(seq![(key, value)] + fields)
}

proof fn lemma_with_member(fields: Seq<(Seq<char>, JsonV)>, key: Seq<char>, value: JsonV)
    ensures
        index(with_member(fields, key, value), key) == value,
        forall|k: Seq<char>| k != key ==> #[trigger] index(with_member(fields, key, value), k) == index(obj(fields), k),
{
    let all = seq![(key, value)] + fields;
    assert(all.drop_first() =~= fields);
}

/// Leaving out an optional argument is the same as giving the default the
/// catalogue lists for it: the call read is the same.
pub proof fn law_defaults_are_the_listed_ones(fields: Seq<(Seq<char>, JsonV)>, safe_mode: bool)
    ensures
        get(obj(fields), "domain"@) is None ==> read_tool_call("odoo_search_read"@, with_member(fields, "domain"@, jstr("[]"@)), safe_mode)
            == read_tool_call("odoo_search_read"@, obj(fields), safe_mode),
        get(obj(fields), "fields"@) is None ==> read_tool_call("odoo_search_read"@, with_member(fields, "fields"@, jstr("id,name"@)), safe_mode)
            == read_tool_call("odoo_search_read"@, obj(fields), safe_mode),
        get(obj(fields), "offset"@) is None ==> read_tool_call("odoo_search_read"@, with_member(fields, "offset"@, JsonV::Int(0)), safe_mode)
            == read_tool_call("odoo_search_read"@, obj(fields), safe_mode),
        get(obj(fields), "domain"@) is None ==> read_tool_call("odoo_search"@, with_member(fields, "domain"@, jstr("[]"@)), safe_mode)
            == read_tool_call("odoo_search"@, obj(fields), safe_mode),
        get(obj(fields), "offset"@) is None ==> read_tool_call("odoo_search"@, with_member(fields, "offset"@, JsonV::Int(0)), safe_mode)
            == read_tool_call("odoo_search"@, obj(fields), safe_mode),
        get(obj(fields), "domain"@) is None ==> read_tool_call("odoo_search_count"@, with_member(fields, "domain"@, jstr("[]"@)), safe_mode)
            == read_tool_call("odoo_search_count"@, obj(fields), safe_mode),
        get(obj(fields), "fields"@) is None ==> read_tool_call("odoo_read"@, with_member(fields, "fields"@, jstr("id,name"@)), safe_mode)
            == read_tool_call("odoo_read"@, obj(fields), safe_mode),
        get(obj(fields), "attributes"@) is None ==> read_tool_call("odoo_fields_get"@, with_member(fields, "attributes"@, jstr("string,type,required,readonly,relation"@)), safe_mode)
            == read_tool_call("odoo_fields_get"@, obj(fields), safe_mode),
        get(obj(fields), "args"@) is None ==> read_tool_call("odoo_execute_kw"@, with_member(fields, "args"@, jstr("[]"@)), safe_mode)
            == read_tool_call("odoo_execute_kw"@, obj(fields), safe_mode),
        get(obj(fields), "kwargs"@) is None ==> read_tool_call("odoo_execute_kw"@, with_member(fields, "kwargs"@, jstr("{}"@)), safe_mode)
            == read_tool_call("odoo_execute_kw"@, obj(fields), safe_mode),
        get(obj(fields), "method"@) is None ==> read_tool_call("odoo_http"@, with_member(fields, "method"@, jstr("GET"@)), safe_mode)
            == read_tool_call("odoo_http"@, obj(fields), safe_mode),
        get(obj(fields), "content_type"@) is None ==> read_tool_call("odoo_http"@, with_member(fields, "content_type"@, jstr("application/json"@)), safe_mode)
            == read_tool_call("odoo_http"@, obj(fields), safe_mode),
{
    reveal_strlit("odoo_search_read");
    reveal_strlit("odoo_search");
    reveal_strlit("odoo_search_count");
    reveal_strlit("odoo_read");
    reveal_strlit("odoo_fields_get");
    reveal_strlit("odoo_execute_kw");
    reveal_strlit("odoo_http");
    assert("odoo_search_read"@.len() == 16 && "odoo_search_read"@[5] == 's');
    assert("odoo_search"@.len() == 11 && "odoo_search"@[5] == 's');
    assert("odoo_search_count"@.len() == 17 && "odoo_search_count"@[5] == 's');
    assert("odoo_read"@.len() == 9 && "odoo_read"@[5] == 'r');
    assert("odoo_fields_get"@.len() == 15 && "odoo_fields_get"@[5] == 'f');
    assert("odoo_execute_kw"@.len() == 15 && "odoo_execute_kw"@[5] == 'e');
    assert("odoo_http"@.len() == 9 && "odoo_http"@[5] == 'h');
    reveal_strlit("model");
    reveal_strlit("domain");
    reveal_strlit("fields");
    reveal_strlit("limit");
    reveal_strlit("offset");
    reveal_strlit("order");
    reveal_strlit("ids");
    reveal_strlit("attributes");
    reveal_strlit("method");
    reveal_strlit("args");
    reveal_strlit("kwargs");
    reveal_strlit("path");
    reveal_strlit("body");
    reveal_strlit("content_type");
    assert("model"@.len() == 5 && "model"@[0] == 'm');
    assert("domain"@.len() == 6 && "domain"@[0] == 'd');
    assert("fields"@.len() == 6 && "fields"@[0] == 'f');
    assert("limit"@.len() == 5 && "limit"@[0] == 'l');
    assert("offset"@.len() == 6 && "offset"@[0] == 'o');
    assert("order"@.len() == 5 && "order"@[0] == 'o');
    assert("ids"@.len() == 3 && "ids"@[0] == 'i');
    assert("attributes"@.len() == 10 && "attributes"@[0] == 'a');
    assert("method"@.len() == 6 && "method"@[0] == 'm');
    assert("args"@.len() == 4 && "args"@[0] == 'a');
    assert("kwargs"@.len() == 6 && "kwargs"@[0] == 'k');
    assert("path"@.len() == 4 && "path"@[0] == 'p');
    assert("body"@.len() == 4 && "body"@[0] == 'b');
    assert("content_type"@.len() == 12 && "content_type"@[0] == 'c');
    lemma_with_member(fields, "domain"@, jstr("[]"@));
    lemma_with_member(fields, "fields"@, jstr("id,name"@));
    lemma_with_member(fields, "offset"@, JsonV::Int(0));
    lemma_with_member(fields, "attributes"@, jstr("string,type,required,readonly,relation"@));
    lemma_with_member(fields, "args"@, jstr("[]"@));
    lemma_with_member(fields, "kwargs"@, jstr("{}"@));
    lemma_with_member(fields, "method"@, jstr("GET"@));
    lemma_with_member(fields, "content_type"@, jstr("application/json"@));
}

/// A tool call carries the arguments it was given: each string member the
/// tool reads (model, domain, order, ids, method, path, body, ...) is passed
/// on unchanged, and an optional one that is missing takes its default.
pub proof fn law_tool_arguments_carried(args: JsonV, safe_mode: bool)
    ensures
        as_str(index(args, "model"@)) is Some ==> (read_tool_call("odoo_search_read"@, args, safe_mode) matches Ok(
            ToolCallV::SearchRead { model, domain, order, .. },
        ) && Some(model) == as_str(index(args, "model"@)) && domain == (match as_str(index(args, "domain"@)) { Some(v) => v, None => "[]"@ }) && order == as_str(
            index(args, "order"@),
        )),
        as_str(index(args, "model"@)) is Some ==> (read_tool_call("odoo_search"@, args, safe_mode) matches Ok(
            ToolCallV::Search { model, domain, order, .. },
        ) && Some(model) == as_str(index(args, "model"@)) && domain == (match as_str(index(args, "domain"@)) { Some(v) => v, None => "[]"@ }) && order == as_str(
            index(args, "order"@),
        )),
        as_str(index(args, "model"@)) is Some ==> (read_tool_call("odoo_search_count"@, args, safe_mode) matches Ok(
            ToolCallV::SearchCount { model, domain },
        ) && Some(model) == as_str(index(args, "model"@)) && domain == (match as_str(index(args, "domain"@)) { Some(v) => v, None => "[]"@ })),
        as_str(index(args, "model"@)) is Some && as_str(index(args, "ids"@)) is Some ==> (read_tool_call(
            "odoo_read"@,
            args,
            safe_mode,
        ) matches Ok(ToolCallV::Read { model, ids, .. }) && Some(model) == as_str(index(args, "model"@))
            && Some(ids) == as_str(index(args, "ids"@))),
        !safe_mode && as_str(index(args, "model"@)) is Some && as_str(index(args, "method"@)) is Some
            ==> (read_tool_call("odoo_execute_kw"@, args, safe_mode) matches Ok(
            ToolCallV::ExecuteKw { model, method, args: a, kwargs },
        ) && Some(model) == as_str(index(args, "model"@)) && Some(method) == as_str(
            index(args, "method"@),
        ) && a == (match as_str(index(args, "args"@)) { Some(v) => v, None => "[]"@ }) && kwargs == (match as_str(index(args, "kwargs"@)) { Some(v) => v, None => "{}"@ })),
        as_str(index(args, "path"@)) is Some ==> (read_tool_call("odoo_http"@, args, safe_mode) matches Ok(
            ToolCallV::Http { method, path, body, content_type },
        ) && Some(path) == as_str(index(args, "path"@)) && method == (match as_str(index(args, "method"@)) { Some(v) => v, None => "GET"@ }) && body == as_str(
            index(args, "body"@),
        ) && content_type == (match as_str(index(args, "content_type"@)) { Some(v) => v, None => "application/json"@ })),
        as_str(index(args, "addon"@)) is Some ==> (read_tool_call("odoo_addon_structure"@, args, safe_mode)
            matches Ok(ToolCallV::AddonStructure { addon }) && Some(addon) == as_str(index(args, "addon"@))),
        as_str(index(args, "model"@)) is Some ==> (read_tool_call("odoo_model_source"@, args, safe_mode)
            matches Ok(ToolCallV::ModelSource { model }) && Some(model) == as_str(index(args, "model"@))),
        as_str(index(args, "pattern"@)) is Some ==> (read_tool_call("odoo_search_source"@, args, safe_mode)
            matches Ok(ToolCallV::SearchSource { pattern }) && Some(pattern) == as_str(
            index(args, "pattern"@),
        )),
{
    reveal_strlit("odoo_search_read");
    reveal_strlit("odoo_search");
    reveal_strlit("odoo_search_count");
    reveal_strlit("odoo_read");
    reveal_strlit("odoo_fields_get");
    reveal_strlit("odoo_execute_kw");
    reveal_strlit("odoo_http");
    reveal_strlit("odoo_list_addons");
    reveal_strlit("odoo_addon_structure");
    reveal_strlit("odoo_model_source");
    reveal_strlit("odoo_search_source");
    reveal_strlit("odoo_update_sources");
    assert("odoo_search_read"@.len() == 16 && "odoo_search_read"@[5] == 's');
    assert("odoo_search"@.len() == 11 && "odoo_search"@[5] == 's');
    assert("odoo_search_count"@.len() == 17 && "odoo_search_count"@[5] == 's');
    assert("odoo_read"@.len() == 9 && "odoo_read"@[5] == 'r');
    assert("odoo_fields_get"@.len() == 15 && "odoo_fields_get"@[5] == 'f');
    assert("odoo_execute_kw"@.len() == 15 && "odoo_execute_kw"@[5] == 'e');
    assert("odoo_http"@.len() == 9 && "odoo_http"@[5] == 'h');
    assert("odoo_list_addons"@.len() == 16 && "odoo_list_addons"@[5] == 'l');
    assert("odoo_addon_structure"@.len() == 20 && "odoo_addon_structure"@[5] == 'a');
    assert("odoo_model_source"@.len() == 17 && "odoo_model_source"@[5] == 'm');
    assert("odoo_search_source"@.len() == 18 && "odoo_search_source"@[5] == 's');
    assert("odoo_update_sources"@.len() == 19 && "odoo_update_sources"@[5] == 'u');
}

proof fn lemma_tool_entry(name: Seq<char>, description: Seq<char>, props: Seq<(Seq<char>, JsonV)>, required: Seq<Seq<char>>)
    ensures
        listed_name(tool(name, description, props, required)) == name,
        listed_required(tool(name, description, props, required)) == JsonV::Array(
            Seq::new(required.len(), |i: int| jstr(required[i])),
        ),
{
    reveal_strlit("name");
    reveal_strlit("description");
    reveal_strlit("inputSchema");
    reveal_strlit("type");
    reveal_strlit("properties");
    reveal_strlit("required");
    assert("name"@.len() == 4 && "inputSchema"@.len() == 11);
    assert("description"@[0] != "inputSchema"@[0]);
    assert("type"@.len() == 4 && "properties"@.len() == 10 && "required"@.len() == 8);
    let f = tool(name, description, props, required)->Object_0;
    let f1 = f.drop_first();
    let f2 = f1.drop_first();
    assert(crate::json::lookup(f2, "inputSchema"@) == Some(f2[0].1));
    assert(crate::json::lookup(f1, "inputSchema"@) == Some(f2[0].1));
    assert(crate::json::lookup(f, "inputSchema"@) == Some(f2[0].1));
    let g = f2[0].1->Object_0;
    let g1 = g.drop_first();
    let g2 = g1.drop_first();
    assert(crate::json::lookup(g2, "required"@) == Some(g2[0].1));
    assert(crate::json::lookup(g1, "required"@) == Some(g2[0].1));
    assert(crate::json::lookup(g, "required"@) == Some(g2[0].1));
}

} // verus!
