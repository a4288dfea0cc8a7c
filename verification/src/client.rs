//! The Odoo connection: what is sent over JSON-RPC and plain HTTP, and how
//! the replies are read. Sending itself is left to the caller.
use vstd::prelude::*;

use crate::json::{
    add_field, as_str, fields_view, get, index, jstr, obj, push_elem, Json, JsonV,
};
use crate::text::{
    ascii_upper, ascii_upper_seq, is_ascii, str_concat, str_concat3, owned, prefix_chars, str_to_uppercase, strip_trailing, strip_trailing_str,
    take_prefix, to_uppercase,
};

verus! {

#[verifier::external_type_specification]
#[verifier::external_body]
pub struct ExHttpClient(reqwest::blocking::Client);

/// `StatusCode::is_success`: a code in 200..=299.
pub open spec fn is_success(code: u16) -> bool {
    200 <= code <= 299
}

/// Whether a status code reports success.
pub fn status_is_success(code: u16) -> (r: bool)
    ensures
        r == is_success(code),
{
    200 <= code && code <= 299
}

/// The text that `reqwest::StatusCode` displays for a code: the code, a
/// space and its canonical reason (such as `404 Not Found`).
pub uninterp spec fn status_display(code: u16) -> Seq<char>;

/// Displays a status code through `reqwest::StatusCode` (`from_u16`, which
/// accepts 100..=999, then `Display`). The text depends on the code alone;
/// the contract names it and says nothing of the reason table.
#[verifier::external_body]
fn status_text(code: u16) -> (r: String)
    requires
        100 <= code <= 999,
    ensures
        r@ == status_display(code),
{
    match reqwest::StatusCode::from_u16(code) {
        Ok(status) => status.to_string(),
        Err(e) => e.to_string(),
    }
}

/// Errors of the connection's own logic.
#[derive(Debug, PartialEq, Eq)]
pub enum OdooError {
    /// The JSON-RPC endpoint answered with a non-success status.
    Status { status: String },
    /// A plain HTTP request got a non-success status; `body` is the start of
    /// the reply.
    StatusWithBody { status: String, body: String },
    /// Odoo reported an error in the JSON-RPC envelope.
    Remote { message: String },
    AuthenticationFailed,
    NotAuthenticated,
    UnsupportedMethod { method: String },
}

impl OdooError {
    pub open spec fn spec_message(&self) -> Seq<char> {
        match self {
            OdooError::Status { status } => "HTTP "@ + status@,
            OdooError::StatusWithBody { status, body } => "HTTP "@ + status@ + ": "@ + body@,
            OdooError::Remote { message } => "Odoo error: "@ + message@,
            OdooError::AuthenticationFailed => "Authentication failed — check --username / --password / --db"@,
            OdooError::NotAuthenticated => "Not authenticated — call authenticate() first"@,
            OdooError::UnsupportedMethod { method } => "Unsupported HTTP method: "@ + method@,
        }
    }

    /// The error as a line of text.
    pub fn message(&self) -> (r: String)
        ensures
            r@ == self.spec_message(),
    {
        match self {
            OdooError::Status { status } => str_concat("HTTP ", status.as_str()),
            OdooError::StatusWithBody { status, body } => {
                let mut out = str_concat3("HTTP ", status.as_str(), ": ");
                out.append(body.as_str());
                out
            },
            OdooError::Remote { message } => str_concat("Odoo error: ", message.as_str()),
            OdooError::AuthenticationFailed => owned(
                "Authentication failed — check --username / --password / --db",
            ),
            OdooError::NotAuthenticated => owned("Not authenticated — call authenticate() first"),
            OdooError::UnsupportedMethod { method } => str_concat(
                "Unsupported HTTP method: ",
                method.as_str(),
            ),
        }
    }
}

/// The methods a plain HTTP request may use.
#[derive(PartialEq, Eq, Structural, Clone, Copy, Debug)]
pub enum HttpMethod {
    Get,
    Post,
    Put,
    Patch,
    Delete,
    Head,
}

/// The method named by an (uppercased) method string.
pub open spec fn method_named(upper: Seq<char>) -> Option<HttpMethod> {
    if upper == "GET"@ {
        Some(HttpMethod::Get)
    } else if upper == "POST"@ {
        Some(HttpMethod::Post)
    } else if upper == "PUT"@ {
        Some(HttpMethod::Put)
    } else if upper == "PATCH"@ {
        Some(HttpMethod::Patch)
    } else if upper == "DELETE"@ {
        Some(HttpMethod::Delete)
    } else if upper == "HEAD"@ {
        Some(HttpMethod::Head)
    } else {
        None
    }
}

/// Reads a method name case-insensitively (by `str::to_uppercase`).
pub fn http_method(method: &str) -> (r: Result<HttpMethod, OdooError>)
    ensures
        is_ascii(method@) ==> str_to_uppercase(method@) == ascii_upper_seq(method@),
        match method_named(str_to_uppercase(method@)) {
            Some(m) => r == Ok::<HttpMethod, OdooError>(m),
            None => r matches Err(OdooError::UnsupportedMethod { method: u }) && u@
                == str_to_uppercase(method@),
        },
{
    let upper = to_uppercase(method);
    if upper == owned("GET") {
        Ok(HttpMethod::Get)
    } else if upper == owned("POST") {
        Ok(HttpMethod::Post)
    } else if upper == owned("PUT") {
        Ok(HttpMethod::Put)
    } else if upper == owned("PATCH") {
        Ok(HttpMethod::Patch)
    } else if upper == owned("DELETE") {
        Ok(HttpMethod::Delete)
    } else if upper == owned("HEAD") {
        Ok(HttpMethod::Head)
    } else {
        Err(OdooError::UnsupportedMethod { method: upper })
    }
}

/// Everything a plain HTTP request sends.
#[derive(Debug, PartialEq, Eq)]
pub struct HttpRequest {
    pub method: HttpMethod,
    pub url: String,
    /// Headers in the order they are added.
    pub headers: Vec<(String, String)>,
    pub body: Option<String>,
}

/// The header list of a plain request: the extra headers, then
/// `Content-Type` where there is a body.
pub open spec fn request_headers(
    extra: Seq<(Seq<char>, Seq<char>)>,
    has_body: bool,
    content_type: Seq<char>,
) -> Seq<(Seq<char>, Seq<char>)> {
    if has_body {
        extra.push(("Content-Type"@, content_type))
    } else {
        extra
    }
}

/// The character sequences of a list of string pairs.
pub open spec fn pairs_view(v: Seq<(String, String)>) -> Seq<(Seq<char>, Seq<char>)> {
    Seq::new(v.len(), |i: int| (v[i].0@, v[i].1@))
}

/// The members of a JSON-RPC call envelope.
pub open spec fn rpc_body(service: Seq<char>, method: Seq<char>, args: JsonV) -> JsonV {
    obj(
        seq![
            ("jsonrpc"@, jstr("2.0"@)),
            ("method"@, jstr("call"@)),
            ("id"@, JsonV::Int(1)),
            ("params"@, obj(seq![("service"@, jstr(service)), ("method"@, jstr(method)), ("args"@, args)])),
        ],
    )
}

/// The message of an error object in a JSON-RPC reply: `/data/message`,
/// else `message`, else `unknown error`.
pub open spec fn remote_message(error: JsonV) -> Seq<char> {
    match as_str(index(index(error, "data"@), "message"@)) {
        Some(m) => m,
        None => match as_str(index(error, "message"@)) {
            Some(m) => m,
            None => "unknown error"@,
        },
    }
}

/// What a JSON-RPC reply comes to: a status failure, the error Odoo
/// reported, or the `result` member (`null` where it is missing).
pub open spec fn reply_outcome(code: u16, envelope: JsonV) -> Result<JsonV, Option<Seq<char>>> {
    if !is_success(code) {
        Err(None)
    } else {
        match get(envelope, "error"@) {
            Some(e) => Err(Some(remote_message(e))),
            None => Ok(index(envelope, "result"@)),
        }
    }
}

/// The uid an `authenticate` reply grants: a positive integer.
pub open spec fn granted_uid(result: JsonV) -> Option<int> {
    match result {
        JsonV::Int(n) => if 0 < n <= i64::MAX {
            Some(n)
        } else {
            None
        },
        _ => None,
    }
}

/// The uid a client holds after `authenticate` took `result`: the granted
/// uid, or the one it held before.
pub open spec fn uid_after(previous: Option<i64>, result: JsonV) -> Option<i64> {
    match granted_uid(result) {
        Some(n) => Some(n as i64),
        None => previous,
    }
}

/// The arguments of `common.authenticate`.
pub open spec fn authenticate_params(db: Seq<char>, username: Seq<char>, password: Seq<char>) -> JsonV {
    JsonV::Array(seq![jstr(db), jstr(username), jstr(password), obj(Seq::empty())])
}

/// The arguments of `object.execute_kw`.
pub open spec fn execute_kw_params(
    db: Seq<char>,
    uid: int,
    password: Seq<char>,
    model: Seq<char>,
    method: Seq<char>,
    args: JsonV,
    kwargs: JsonV,
) -> JsonV {
    JsonV::Array(
        seq![jstr(db), JsonV::Int(uid), jstr(password), jstr(model), jstr(method), args, kwargs],
    )
}

/// A JSON-RPC call ready to be posted: where to, and the envelope.
#[derive(Debug, PartialEq, Eq)]
pub struct RpcCall {
    pub endpoint: String,
    pub body: Json,
}

/// A connection to one Odoo database.
pub struct OdooClient {
    base_url: String,
    db: String,
    password: String,
    http: reqwest::blocking::Client,
    pub uid: Option<i64>,
}

impl OdooClient {
    pub closed spec fn spec_base_url(&self) -> Seq<char> {
        self.base_url@
    }

    pub closed spec fn spec_db(&self) -> Seq<char> {
        self.db@
    }

    pub closed spec fn spec_password(&self) -> Seq<char> {
        self.password@
    }

    pub closed spec fn spec_uid(&self) -> Option<i64> {
        self.uid
    }

    /// The HTTP client the connection was made with.
    pub closed spec fn spec_http(&self) -> reqwest::blocking::Client {
        self.http
    }

    /// A client for the server at `url` (trailing slashes dropped), not yet
    /// authenticated.
    pub fn new(url: &str, db: &str, password: &str, http: reqwest::blocking::Client) -> (c: Self)
        ensures
            c.spec_base_url() == strip_trailing(url@, '/'),
            c.spec_db() == db@,
            c.spec_password() == password@,
            c.spec_uid() is None,
            c.spec_http() == http,
    {
        OdooClient {
            base_url: strip_trailing_str(url, '/'),
            db: owned(db),
            password: owned(password),
            http,
            uid: None,
        }
    }

    pub fn base_url(&self) -> (r: &str)
        ensures
            r@ == self.spec_base_url(),
    {
        self.base_url.as_str()
    }

    pub fn db(&self) -> (r: &str)
        ensures
            r@ == self.spec_db(),
    {
        self.db.as_str()
    }

    /// The HTTP client requests go through.
    pub fn http(&self) -> (r: &reqwest::blocking::Client)
        ensures
            *r == self.spec_http(),
    {
        &self.http
    }

    /// Where JSON-RPC calls are posted.
    pub fn jsonrpc_endpoint(&self) -> (r: String)
        ensures
            r@ == self.spec_base_url() + "/jsonrpc"@,
    {
        str_concat(self.base_url.as_str(), "/jsonrpc")
    }

    /// The body of a JSON-RPC call of `service.method(args)`.
    pub fn jsonrpc_body(service: &str, method: &str, args: Json) -> (r: Json)
        ensures
            r@ == rpc_body(service@, method@, args@),
    {
        let mut params: Vec<(String, Json)> = Vec::new();
        add_field(&mut params, "service", Json::string(service));
        add_field(&mut params, "method", Json::string(method));
        add_field(&mut params, "args", args);
        let params = Json::object(params);
        let mut fields: Vec<(String, Json)> = Vec::new();
        add_field(&mut fields, "jsonrpc", Json::string("2.0"));
        add_field(&mut fields, "method", Json::string("call"));
        add_field(&mut fields, "id", Json::Int(1));
        add_field(&mut fields, "params", params);
        let r = Json::object(fields);
        proof {
            assert(r@->Object_0[3].1->Object_0 =~= seq![
                ("service"@, jstr(service@)),
                ("method"@, jstr(method@)),
                ("args"@, args@),
            ]);
            assert(r@->Object_0 =~= rpc_body(service@, method@, args@)->Object_0);
        }
        r
    }

    /// The call of `service.method(args)` on this server.
    fn jsonrpc(&self, service: &str, method: &str, args: Json) -> (r: RpcCall)
        ensures
            r.endpoint@ == self.spec_base_url() + "/jsonrpc"@,
            r.body@ == rpc_body(service@, method@, args@),
    {
        RpcCall { endpoint: self.jsonrpc_endpoint(), body: Self::jsonrpc_body(service, method, args) }
    }

    /// Reads a JSON-RPC reply: a status other than 2xx fails, then an
    /// `error` member fails with Odoo's message, else `result` is returned.
    pub fn read_jsonrpc_reply(status: u16, envelope: &Json) -> (r: Result<Json, OdooError>)
        requires
            100 <= status <= 999,
        ensures
            match reply_outcome(status, envelope@) {
                Ok(v) => r matches Ok(x) && x@ == v,
                Err(None) => r matches Err(OdooError::Status { status: s }) && s@ == status_display(
                    status,
                ),
                Err(Some(m)) => r matches Err(OdooError::Remote { message }) && message@ == m,
            },
    {
        if !status_is_success(status) {
            return Err(OdooError::Status { status: status_text(status) });
        }
        match envelope.get("error") {
            Some(error) => {
                let message = match error.get("data") {
                    Some(data) => data.get_str("message"),
                    None => None,
                };
                let message = match message {
                    Some(m) => m,
                    None => match error.get_str("message") {
                        Some(m) => m,
                        None => owned("unknown error"),
                    },
                };
                Err(OdooError::Remote { message })
            },
            None => Ok(envelope.member("result")),
        }
    }

    /// The `common.authenticate` call that logs `username` in.
    pub fn authenticate_call(&self, username: &str) -> (r: RpcCall)
        ensures
            r.endpoint@ == self.spec_base_url() + "/jsonrpc"@,
            r.body@ == rpc_body(
                "common"@,
                "authenticate"@,
                authenticate_params(self.spec_db(), username@, self.spec_password()),
            ),
    {
        let args = self.authenticate_args(username);
        self.jsonrpc("common", "authenticate", args)
    }

    fn authenticate_args(&self, username: &str) -> (r: Json)
        ensures
            r@ == authenticate_params(self.spec_db(), username@, self.spec_password()),
    {
        let mut items: Vec<Json> = Vec::new();
        push_elem(&mut items, Json::string(self.db.as_str()));
        push_elem(&mut items, Json::string(username));
        push_elem(&mut items, Json::string(self.password.as_str()));
        push_elem(&mut items, Json::object(Vec::new()));
        let r = Json::array(items);
        proof {
            assert(fields_view(Seq::<(String, Json)>::empty()) =~= Seq::empty());
            assert(r@->Array_0 =~= authenticate_params(
                self.spec_db(),
                username@,
                self.spec_password(),
            )->Array_0);
        }
        r
    }

    /// Authenticate and store uid. Returns the uid.
    ///
    /// Takes the result of the `authenticate_call`: a positive integer is
    /// the uid, which is stored and returned; anything else fails and leaves
    /// the client as it was.
    pub fn authenticate(&mut self, result: &Json) -> (r: Result<i64, OdooError>)
        ensures
            final(self).spec_base_url() == old(self).spec_base_url(),
            final(self).spec_db() == old(self).spec_db(),
            final(self).spec_password() == old(self).spec_password(),
            final(self).spec_http() == old(self).spec_http(),
            final(self).spec_uid() == uid_after(old(self).spec_uid(), result@),
            match granted_uid(result@) {
                Some(n) => r == Ok::<i64, OdooError>(n as i64),
                None => r matches Err(OdooError::AuthenticationFailed),
            },
    {
        match result {
            Json::Int(n) => {
                if *n > 0 {
                    self.uid = Some(*n);
                    return Ok(*n);
                }
            },
            Json::UInt(n) => {
                if *n > 0 && *n <= 0x7fff_ffff_ffff_ffff {
                    let uid = *n as i64;
                    self.uid = Some(uid);
                    return Ok(uid);
                }
            },
            _ => {},
        }
        Err(OdooError::AuthenticationFailed)
    }

    /// Call `execute_kw` on the object endpoint: the call of
    /// `model.method(*args, **kwargs)`; fails when no uid has been obtained
    /// yet.
    pub fn execute_kw(&self, model: &str, method: &str, args: Json, kwargs: Json) -> (r: Result<
        RpcCall,
        OdooError,
    >)
        ensures
            match self.spec_uid() {
                None => r matches Err(OdooError::NotAuthenticated),
                Some(uid) => r matches Ok(call) && call.endpoint@ == self.spec_base_url()
                    + "/jsonrpc"@ && call.body@ == rpc_body(
                    "object"@,
                    "execute_kw"@,
                    execute_kw_params(
                        self.spec_db(),
                        uid as int,
                        self.spec_password(),
                        model@,
                        method@,
                        args@,
                        kwargs@,
                    ),
                ),
            },
    {
        let uid = match self.uid {
            Some(u) => u,
            None => return Err(OdooError::NotAuthenticated),
        };
        let ghost av = args@;
        let ghost kv = kwargs@;
        let mut items: Vec<Json> = Vec::new();
        push_elem(&mut items, Json::string(self.db.as_str()));
        push_elem(&mut items, Json::Int(uid));
        push_elem(&mut items, Json::string(self.password.as_str()));
        push_elem(&mut items, Json::string(model));
        push_elem(&mut items, Json::string(method));
        push_elem(&mut items, args);
        push_elem(&mut items, kwargs);
        let r = Json::array(items);
        proof {
            assert(r@->Array_0 =~= execute_kw_params(
                self.spec_db(),
                uid as int,
                self.spec_password(),
                model@,
                method@,
                av,
                kv,
            )->Array_0);
        }
        Ok(self.jsonrpc("object", "execute_kw", r))
    }

    /// Direct HTTP request to any Odoo endpoint (bypasses JSON-RPC): the
    /// request that `method path` with an optional body and extra headers
    /// makes; an unknown method fails.
    pub fn http_request(
        &self,
        method: &str,
        path: &str,
        body: Option<&str>,
        content_type: &str,
        extra_headers: &Vec<(String, String)>,
    ) -> (r: Result<HttpRequest, OdooError>)
        ensures
            is_ascii(method@) ==> str_to_uppercase(method@) == ascii_upper_seq(method@),
            match method_named(str_to_uppercase(method@)) {
                Some(m) => r matches Ok(req) && req.method == m && req.url@ == self.spec_base_url()
                    + path@ && pairs_view(req.headers@) == request_headers(
                    pairs_view(extra_headers@),
                    body is Some,
                    content_type@,
                ) && match body {
                    Some(b) => req.body matches Some(x) && x@ == b@,
                    None => req.body is None,
                },
                None => r matches Err(OdooError::UnsupportedMethod { method: u }) && u@
                    == str_to_uppercase(method@),
            },
    {
        let verb = match http_method(method) {
            Ok(v) => v,
            Err(e) => return Err(e),
        };
        let url = str_concat(self.base_url.as_str(), path);
        let mut headers: Vec<(String, String)> = Vec::new();
        let mut i: usize = 0;
        while i < extra_headers.len()
            invariant
                i <= extra_headers@.len(),
                headers@.len() == i,
                pairs_view(headers@) =~= pairs_view(extra_headers@).take(i as int),
            decreases extra_headers@.len() - i,
        {
            let k = extra_headers[i].0.clone();
            let v = extra_headers[i].1.clone();
            let ghost before = headers@;
            headers.push((k, v));
            proof {
                assert(headers@ == before.push((k, v)));
                assert(pairs_view(headers@)[i as int] == (extra_headers@[i as int].0@, extra_headers@[i as int].1@));
                assert(pairs_view(headers@) =~= pairs_view(extra_headers@).take(i + 1));
            }
            i += 1;
        }
        proof {
            assert(pairs_view(extra_headers@).take(extra_headers@.len() as int) =~= pairs_view(
                extra_headers@,
            ));
        }
        let body = match body {
            Some(b) => {
                let ghost before = headers@;
                headers.push((owned("Content-Type"), owned(content_type)));
                proof {
                    assert(pairs_view(headers@) =~= pairs_view(before).push(
                        ("Content-Type"@, content_type@),
                    ));
                }
                Some(owned(b))
            },
            None => None,
        };
        Ok(HttpRequest { method: verb, url, headers, body })
    }

    /// Reads a plain HTTP reply: the body on a 2xx status, else an error
    /// quoting the first 500 characters of the body.
    pub fn read_http_reply(status: u16, text: String) -> (r: Result<String, OdooError>)
        requires
            100 <= status <= 999,
        ensures
            is_success(status) ==> (r matches Ok(t) && t@ == text@),
            !is_success(status) ==> (r matches Err(OdooError::StatusWithBody { status: s, body })
                && s@ == status_display(status) && body@ == take_prefix(text@, 500)),
    {
        if status_is_success(status) {
            Ok(text)
        } else {
            Err(
                OdooError::StatusWithBody {
                    status: status_text(status),
                    body: prefix_chars(text.as_str(), 500),
                },
            )
        }
    }
}


/// Authentication gates `execute_kw` (which needs a uid): a fresh client
/// obtains one exactly when the reply grants a positive uid, and a uid once
/// obtained is never lost by a later failed attempt.
pub proof fn law_authentication_gates_execute_kw(previous: Option<i64>, result: JsonV)
    ensures
        uid_after(None, result) is Some <==> (result matches JsonV::Int(n) && 0 < n <= i64::MAX),
        previous is Some ==> uid_after(previous, result) is Some,
        granted_uid(result) is Some ==> uid_after(previous, result) == Some(
            granted_uid(result)->0 as i64,
        ) && granted_uid(result)->0 > 0,
{
}

/// Trailing slashes are dropped once and for all: the stored base URL ends
/// in no slash, and normalizing it again changes nothing.
pub proof fn law_base_url_normalized(url: Seq<char>)
    ensures
        strip_trailing(url, '/').len() == 0 || strip_trailing(url, '/').last() != '/',
        strip_trailing(strip_trailing(url, '/'), '/') == strip_trailing(url, '/'),
    decreases url.len(),
{
    if url.len() > 0 && url.last() == '/' {
        law_base_url_normalized(url.drop_last());
    }
}

/// The case of an (ASCII) method name does not matter: upper-casing it
/// first names the same method, since upper-casing twice changes nothing.
pub proof fn law_method_case_insensitive(m: Seq<char>)
    requires
        is_ascii(m),
    ensures
        is_ascii(ascii_upper_seq(m)),
        ascii_upper_seq(ascii_upper_seq(m)) == ascii_upper_seq(m),
        method_named(ascii_upper_seq(ascii_upper_seq(m))) == method_named(ascii_upper_seq(m)),
{
    let u = ascii_upper_seq(m);
    assert forall|i: int| 0 <= i < u.len() implies (#[trigger] u[i] as u32) < 128 by {
        assert((m[i] as u32) < 128);
    }
    assert forall|i: int| 0 <= i < u.len() implies #[trigger] ascii_upper(u[i]) == u[i] by {
        assert((m[i] as u32) < 128);
    }
    assert(ascii_upper_seq(u) =~= u);
}

/// A request with a body announces the body's type as the caller gave it:
/// its headers are the caller's extra headers, in order, then
/// `Content-Type: content_type`; a request without a body sends the extra
/// headers alone.
pub proof fn law_body_carries_given_content_type(
    extra: Seq<(Seq<char>, Seq<char>)>,
    has_body: bool,
    content_type: Seq<char>,
)
    ensures
        has_body ==> request_headers(extra, has_body, content_type).len() == extra.len() + 1
            && request_headers(extra, has_body, content_type).last() == ("Content-Type"@, content_type)
            && request_headers(extra, has_body, content_type).drop_last() == extra,
        !has_body ==> request_headers(extra, has_body, content_type) == extra,
{
    if has_body {
        assert(request_headers(extra, has_body, content_type).drop_last() =~= extra);
    }
}

} // verus!
