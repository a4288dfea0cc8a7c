//! The command line's decisions: which connection settings apply, which
//! commands authenticate, and the queries the commands send.
use vstd::prelude::*;

use crate::config::{safe_mode_on, ConnectionConfig};
use crate::json::{add_field, fields_view, jstr, obj, push_elem, Json, JsonV};
use crate::sources::copy_opt;
use crate::text::{
    chars_of, str_concat, str_concat3, owned, replace_char, replace_chars, slice_chars, str_to_uppercase,
    string_of, to_uppercase, trim, trim_chars, views,
};

verus! {

/// Errors of the command line's own checks.
#[derive(Debug, PartialEq, Eq)]
pub enum CliError {
    MissingParameter { name: String },
    InvalidHeader { header: String },
    /// `execute-kw` on a profile in safe mode.
    SafeMode { profile: String },
}

/// The environment variable suffix that stands for a parameter: the name in
/// upper case with `-` turned into `_`.
pub open spec fn env_suffix(name: Seq<char>) -> Seq<char> {
    replace_char(str_to_uppercase(name), '-', '_')
}

impl CliError {
    pub open spec fn spec_message(&self) -> Seq<char> {
        match self {
            CliError::MissingParameter { name } => "Missing required parameter: --"@ + name@
                + " / ODOO_"@ + env_suffix(name@) + " / config file"@,
            CliError::InvalidHeader { header } => "Invalid header (expected KEY:VALUE): "@
                + header@,
            CliError::SafeMode { profile } => "execute-kw is blocked in safe mode; enable it with: odoo-mcp config set --profile "@
                + profile@ + " --safe-mode false"@,
        }
    }

    /// The error as a line of text.
    pub fn message(&self) -> (r: String)
        ensures
            r@ == self.spec_message(),
    {
        match self {
            CliError::MissingParameter { name } => {
                let upper = to_uppercase(name.as_str());
                let env = replace_chars(upper.as_str(), '-', '_');
                let mut out = str_concat3("Missing required parameter: --", name.as_str(), " / ODOO_");
                out.append(env.as_str());
                out.append(" / config file");
                out
            },
            CliError::InvalidHeader { header } => str_concat(
                "Invalid header (expected KEY:VALUE): ",
                header.as_str(),
            ),
            CliError::SafeMode { profile } => str_concat3(
                "execute-kw is blocked in safe mode; enable it with: odoo-mcp config set --profile ",
                profile.as_str(),
                " --safe-mode false",
            ),
        }
    }
}

/// A command-line (or environment) value wins over the config file's.
pub open spec fn pick(cli: Option<Seq<char>>, cfg: Option<Seq<char>>) -> Option<Seq<char>> {
    match cli {
        Some(v) => Some(v),
        None => cfg,
    }
}

/// Merge CLI/env value with config file value. CLI wins.
pub fn resolve(cli: Option<String>, cfg: Option<String>) -> (r: Option<String>)
    ensures
        r.deep_view() == pick(cli.deep_view(), cfg.deep_view()),
{
    match cli {
        Some(v) => Some(v),
        None => cfg,
    }
}

/// A value that must be present; its absence names the flag, the variable
/// and the config file that could give it.
pub fn require(value: Option<String>, name: &str) -> (r: Result<String, CliError>)
    ensures
        match value {
            Some(v) => r matches Ok(x) && x@ == v@,
            None => r matches Err(CliError::MissingParameter { name: n }) && n@ == name@,
        },
{
    match value {
        Some(v) => Ok(v),
        None => Err(CliError::MissingParameter { name: owned(name) }),
    }
}

/// The commands of the command line.
#[derive(PartialEq, Eq, Structural, Clone, Copy, Debug)]
pub enum CommandKind {
    Auth,
    SearchRead,
    Search,
    SearchCount,
    Read,
    FieldsGet,
    ExecuteKw,
    Init,
    Config,
    Serve,
    UpdateSources,
    Http,
}

/// Authentication is skipped for `--ext`, direct HTTP, source management
/// and the config commands.
pub open spec fn spec_needs_auth(ext: bool, command: CommandKind) -> bool {
    !ext && command != CommandKind::Http && command != CommandKind::UpdateSources && command
        != CommandKind::Init && command != CommandKind::Config
}

/// Whether `command` authenticates before it runs.
pub fn needs_auth(ext: bool, command: CommandKind) -> (r: bool)
    ensures
        r == spec_needs_auth(ext, command),
{
    let skip = match command {
        CommandKind::Http | CommandKind::UpdateSources | CommandKind::Init | CommandKind::Config => true,
        _ => false,
    };
    !ext && !skip
}

/// `execute-kw` runs only on a profile that sets `safe_mode: false`; on any
/// other it fails, naming the profile.
pub fn check_execute_kw(conn: &ConnectionConfig, profile: &str) -> (r: Result<(), CliError>)
    ensures
        safe_mode_on(conn@) ==> (r matches Err(CliError::SafeMode { profile: p }) && p@ == profile@),
        !safe_mode_on(conn@) ==> r is Ok,
{
    if conn.safe_mode() {
        Err(CliError::SafeMode { profile: owned(profile) })
    } else {
        Ok(())
    }
}

/// Connection values given on the command line or in the environment.
pub struct ConnectionArgs {
    pub url: Option<String>,
    pub ext_url: Option<String>,
    pub db: Option<String>,
    pub username: Option<String>,
    pub password: Option<String>,
    pub cert: Option<String>,
    pub key: Option<String>,
}

/// The settings a command connects with.
#[derive(Debug, PartialEq, Eq)]
pub struct Settings {
    pub url: String,
    pub db: String,
    pub username: String,
    pub password: String,
    pub cert: Option<String>,
    pub key: Option<String>,
}

/// A present value, else `default`.
pub open spec fn or_else(v: Option<Seq<char>>, default: Seq<char>) -> Seq<char> {
    match v {
        Some(x) => x,
        None => default,
    }
}

fn or_default(v: Option<String>, default: &str) -> (r: String)
    ensures
        r@ == or_else(v.deep_view(), default@),
{
    match v {
        Some(x) => x,
        None => owned(default),
    }
}

/// Resolves the connection settings: each value from the command line or
/// environment, else from the profile. The URL is required (the ext URL with
/// `--ext`); when authenticating, the password is required and the database
/// and user default to `odoo` and `admin`; otherwise missing values are
/// empty.
pub fn settings(args: ConnectionArgs, cfg: &ConnectionConfig, ext: bool, needs_auth: bool) -> (r:
    Result<Settings, CliError>)
    ensures
        ({
            let url = if ext {
                pick(args.ext_url.deep_view(), cfg@.ext_url)
            } else {
                pick(args.url.deep_view(), cfg@.url)
            };
            let password = pick(args.password.deep_view(), cfg@.password);
            match url {
                None => r matches Err(CliError::MissingParameter { name }) && name@ == (if ext {
                    "ext-url"@
                } else {
                    "url"@
                }),
                Some(u) => if needs_auth && password is None {
                    r matches Err(CliError::MissingParameter { name }) && name@ == "password"@
                } else {
                    r matches Ok(s) && s.url@ == u && s.cert.deep_view() == pick(
                        args.cert.deep_view(),
                        cfg@.cert,
                    ) && s.key.deep_view() == pick(args.key.deep_view(), cfg@.key) && s.db@
                        == or_else(
                        pick(args.db.deep_view(), cfg@.db),
                        if needs_auth {
                            "odoo"@
                        } else {
                            ""@
                        },
                    ) && s.username@ == or_else(
                        pick(args.username.deep_view(), cfg@.username),
                        if needs_auth {
                            "admin"@
                        } else {
                            ""@
                        },
                    ) && s.password@ == or_else(password, ""@)
                },
            }
        }),
{
    let url = if ext {
        match require(resolve(args.ext_url, copy_opt(&cfg.ext_url)), "ext-url") {
            Ok(u) => u,
            Err(e) => return Err(e),
        }
    } else {
        match require(resolve(args.url, copy_opt(&cfg.url)), "url") {
            Ok(u) => u,
            Err(e) => return Err(e),
        }
    };
    let cert = resolve(args.cert, copy_opt(&cfg.cert));
    let key = resolve(args.key, copy_opt(&cfg.key));
    let db = resolve(args.db, copy_opt(&cfg.db));
    let username = resolve(args.username, copy_opt(&cfg.username));
    let password = resolve(args.password, copy_opt(&cfg.password));
    if needs_auth {
        let db = or_default(db, "odoo");
        let username = or_default(username, "admin");
        let password = match require(password, "password") {
            Ok(p) => p,
            Err(e) => return Err(e),
        };
        Ok(Settings { url, db, username, password, cert, key })
    } else {
        let db = or_default(db, "");
        let username = or_default(username, "");
        let password = or_default(password, "");
        Ok(Settings { url, db, username, password, cert, key })
    }
}

// ── extra headers ────────────────────────────────────────────────────────────

/// The position of the first `c` in `s`.
pub open spec fn first_index(s: Seq<char>, c: char) -> Option<int>
    decreases s.len(),
{
    if s.len() == 0 {
        None
    } else if s[0] == c {
        Some(0)
    } else {
        match first_index(s.drop_first(), c) {
            Some(i) => Some(i + 1),
            None => None,
        }
    }
}

pub proof fn lemma_first_index(s: Seq<char>, c: char, i: int)
    requires
        0 <= i <= s.len(),
        forall|k: int| 0 <= k < i ==> s[k] != c,
    ensures
        first_index(s, c) == match first_index(s.skip(i), c) {
            Some(j) => Some(j + i),
            None => None::<int>,
        },
    decreases i,
{
    if i > 0 {
        lemma_first_index(s, c, i - 1);
        assert(s.skip(i - 1).drop_first() =~= s.skip(i));
    } else {
        assert(s.skip(0) =~= s);
    }
}

/// A header given as `KEY:VALUE`: split at the first colon, both sides
/// trimmed.
pub open spec fn header_parts(h: Seq<char>) -> Option<(Seq<char>, Seq<char>)> {
    match first_index(h, ':') {
        Some(i) => Some((trim(h.take(i)), trim(h.skip(i + 1)))),
        None => None,
    }
}

/// Reads a `KEY:VALUE` header.
pub fn parse_header(h: &str) -> (r: Result<(String, String), CliError>)
    ensures
        match header_parts(h@) {
            Some((k, v)) => r matches Ok(kv) && kv.0@ == k && kv.1@ == v,
            None => r matches Err(CliError::InvalidHeader { header }) && header@ == h@,
        },
{
    let cs = chars_of(h);
    let mut i: usize = 0;
    while i < cs.len() && cs[i] != ':'
        invariant
            i <= cs@.len(),
            cs@ == h@,
            forall|k: int| 0 <= k < i ==> cs@[k] != ':',
        decreases cs@.len() - i,
    {
        i += 1;
    }
    proof {
        lemma_first_index(cs@, ':', i as int);
        if i < cs@.len() {
            assert(cs@.skip(i as int)[0] == ':');
        } else {
            assert(cs@.skip(i as int).len() == 0);
        }
    }
    if i == cs.len() {
        return Err(CliError::InvalidHeader { header: owned(h) });
    }
    let before = slice_chars(&cs, 0, i);
    let after = slice_chars(&cs, i + 1, cs.len());
    proof {
        assert(before@ =~= h@.take(i as int));
        assert(after@ =~= h@.skip(i + 1));
    }
    let k = trim_chars(&before);
    let v = trim_chars(&after);
    Ok((string_of(&k), string_of(&v)))
}

// ── queries ──────────────────────────────────────────────────────────────────

/// Members appended in order where given.
pub open spec fn with_opt(fields: Seq<(Seq<char>, JsonV)>, key: Seq<char>, value: Option<JsonV>) -> Seq<
    (Seq<char>, JsonV),
> {
    match value {
        Some(v) => fields.push((key, v)),
        None => fields,
    }
}

/// A string array.
pub open spec fn str_array(items: Seq<Seq<char>>) -> JsonV {
    JsonV::Array(Seq::new(items.len(), |i: int| jstr(items[i])))
}

/// The members for limit, positive offset and order.
pub open spec fn paging(
    fields: Seq<(Seq<char>, JsonV)>,
    limit: Option<u64>,
    offset: u64,
    order: Option<Seq<char>>,
) -> Seq<(Seq<char>, JsonV)> {
    let a = with_opt(
        fields,
        "limit"@,
        match limit {
            Some(l) => Some(JsonV::Int(l as int)),
            None => None,
        },
    );
    let b = with_opt(
        a,
        "offset"@,
        if offset > 0 {
            Some(JsonV::Int(offset as int))
        } else {
            None
        },
    );
    with_opt(
        b,
        "order"@,
        match order {
            Some(o) => Some(jstr(o)),
            None => None,
        },
    )
}

pub open spec fn opt_view(o: Option<&str>) -> Option<Seq<char>> {
    match o {
        Some(s) => Some(s@),
        None => None,
    }
}

fn add_paging(fields: &mut Vec<(String, Json)>, limit: Option<u64>, offset: u64, order: Option<&str>)
    ensures
        fields_view(final(fields)@) == paging(fields_view(old(fields)@), limit, offset, opt_view(order)),
{
    match limit {
        Some(l) => add_field(fields, "limit", Json::from_u64(l)),
        None => {},
    }
    if offset > 0 {
        add_field(fields, "offset", Json::from_u64(offset));
    }
    match order {
        Some(o) => add_field(fields, "order", Json::string(o)),
        None => {},
    }
}

/// The keyword arguments of `search`: the domain, then limit, a positive
/// offset and order where given.
pub fn search_kwargs(domain: Json, limit: Option<u64>, offset: u64, order: Option<&str>) -> (r: Json)
    ensures
        r@ == obj(paging(seq![("domain"@, domain@)], limit, offset, opt_view(order))),
{
    let ghost dv = domain@;
    let mut fields: Vec<(String, Json)> = Vec::new();
    add_field(&mut fields, "domain", domain);
    proof {
        assert(fields_view(fields@) =~= seq![("domain"@, dv)]);
    }
    add_paging(&mut fields, limit, offset, order);
    Json::object(fields)
}

/// The keyword arguments of `search_read`: domain and fields, then limit, a
/// positive offset and order where given.
pub fn search_read_kwargs(
    domain: Json,
    fields: &Vec<String>,
    limit: Option<u64>,
    offset: u64,
    order: Option<&str>,
) -> (r: Json)
    ensures
        r@ == obj(
            paging(
                seq![("domain"@, domain@), ("fields"@, str_array(views(fields@)))],
                limit,
                offset,
                opt_view(order),
            ),
        ),
{
    let ghost dv = domain@;
    let names = Json::string_array(fields);
    let mut members: Vec<(String, Json)> = Vec::new();
    add_field(&mut members, "domain", domain);
    add_field(&mut members, "fields", names);
    proof {
        assert(str_array(views(fields@))->Array_0 =~= names@->Array_0);
        assert(fields_view(members@) =~= seq![
            ("domain"@, dv),
            ("fields"@, str_array(views(fields@))),
        ]);
    }
    add_paging(&mut members, limit, offset, order);
    Json::object(members)
}

/// The keyword arguments of `fields_get`: the wanted fields (all when none
/// are named) and the attributes to report.
pub fn fields_get_kwargs(fields: &Vec<String>, attributes: &Vec<String>) -> (r: Json)
    ensures
        r@ == obj(
            if fields@.len() > 0 {
                seq![
                    ("allfields"@, str_array(views(fields@))),
                    ("attributes"@, str_array(views(attributes@))),
                ]
            } else {
                seq![("attributes"@, str_array(views(attributes@)))]
            },
        ),
{
    let mut members: Vec<(String, Json)> = Vec::new();
    if fields.len() > 0 {
        let f = Json::string_array(fields);
        proof {
            assert(str_array(views(fields@))->Array_0 =~= f@->Array_0);
        }
        add_field(&mut members, "allfields", f);
    }
    let a = Json::string_array(attributes);
    proof {
        assert(str_array(views(attributes@))->Array_0 =~= a@->Array_0);
    }
    add_field(&mut members, "attributes", a);
    let r = Json::object(members);
    proof {
        if fields@.len() > 0 {
            assert(r@->Object_0 =~= seq![
                ("allfields"@, str_array(views(fields@))),
                ("attributes"@, str_array(views(attributes@))),
            ]);
        } else {
            assert(r@->Object_0 =~= seq![("attributes"@, str_array(views(attributes@)))]);
        }
    }
    r
}

/// The keyword arguments of `read`: the fields to return.
pub fn read_kwargs(fields: &Vec<String>) -> (r: Json)
    ensures
        r@ == obj(seq![("fields"@, str_array(views(fields@)))]),
{
    let f = Json::string_array(fields);
    proof {
        assert(str_array(views(fields@))->Array_0 =~= f@->Array_0);
    }
    let mut members: Vec<(String, Json)> = Vec::new();
    add_field(&mut members, "fields", f);
    let r = Json::object(members);
    proof {
        assert(r@->Object_0 =~= seq![("fields"@, str_array(views(fields@)))]);
    }
    r
}

/// A one-element array of positional arguments.
pub fn single_arg(value: Json) -> (r: Json)
    ensures
        r@ == JsonV::Array(seq![value@]),
{
    let ghost vv = value@;
    let mut items: Vec<Json> = Vec::new();
    push_elem(&mut items, value);
    let r = Json::array(items);
    proof {
        assert(r@->Array_0 =~= seq![vv]);
    }
    r
}

/// What `auth` prints: the uid, database, URL and profile.
pub fn auth_summary(uid: i64, db: &str, url: &str, profile: &str) -> (r: Json)
    ensures
        r@ == obj(
            seq![
                ("uid"@, JsonV::Int(uid as int)),
                ("db"@, jstr(db@)),
                ("url"@, jstr(url@)),
                ("profile"@, jstr(profile@)),
            ],
        ),
{
    let mut members: Vec<(String, Json)> = Vec::new();
    add_field(&mut members, "uid", Json::Int(uid));
    add_field(&mut members, "db", Json::string(db));
    add_field(&mut members, "url", Json::string(url));
    add_field(&mut members, "profile", Json::string(profile));
    let r = Json::object(members);
    proof {
        assert(r@->Object_0 =~= seq![
            ("uid"@, JsonV::Int(uid as int)),
            ("db"@, jstr(db@)),
            ("url"@, jstr(url@)),
            ("profile"@, jstr(profile@)),
        ]);
    }
    r
}

/// Resolution order: a value from the command line or environment always
/// wins; the config file's value is used only when none is given.
pub proof fn law_cli_wins(cli: Option<Seq<char>>, cfg: Option<Seq<char>>)
    ensures
        cli is Some ==> pick(cli, cfg) == cli,
        cli is None ==> pick(cli, cfg) == cfg,
        pick(cli, cfg) is None <==> (cli is None && cfg is None),
{
}

/// Without `--ext`, every command that sends an Odoo query (and `serve`)
/// logs in first, while `http`, `update-sources`, `init` and `config` never
/// do; with `--ext` no command logs in.
pub proof fn law_query_commands_log_in(ext: bool, command: CommandKind)
    ensures
        ext ==> !spec_needs_auth(ext, command),
        !ext && (command == CommandKind::Auth || command == CommandKind::SearchRead || command
            == CommandKind::Search || command == CommandKind::SearchCount || command
            == CommandKind::Read || command == CommandKind::FieldsGet || command
            == CommandKind::ExecuteKw || command == CommandKind::Serve) ==> spec_needs_auth(
            ext,
            command,
        ),
        command == CommandKind::Http || command == CommandKind::UpdateSources || command
            == CommandKind::Init || command == CommandKind::Config ==> !spec_needs_auth(ext, command),
{
}

} // verus!
