//! The JSON-RPC method logic of the local WebSocket endpoint: requests and
//! responses, method routing, and for each method the database request it
//! makes and the answer it gives for what the database returned.

use vstd::prelude::*;

use crate::json::{jobject, jview, jviews, JsonNumber, JsonValue, JsonView, ObjectBuilder};
use crate::text::{str_eq, string_of, chars_of};

verus! {

pub const PARSE_ERROR: i64 = -32700;
pub const METHOD_NOT_FOUND: i64 = -32601;
pub const INVALID_PARAMS: i64 = -32602;
pub const SERVER_ERROR: i64 = -32000;

/// A request: its identifier, the method and its parameters.
#[derive(Debug)]
pub struct RpcRequest {
    pub id: String,
    pub method: String,
    pub params: JsonValue,
}

/// The error member of a response.
#[derive(Debug)]
pub struct RpcError {
    pub code: i64,
    pub message: String,
    pub data: Option<JsonValue>,
}

/// A response: a result or an error, under the request's identifier.
#[derive(Debug)]
pub struct RpcResponse {
    pub id: String,
    pub result: Option<JsonValue>,
    pub error: Option<RpcError>,
}

/// The mathematical form of an error member.
pub struct ErrorView {
    pub code: i64,
    pub message: Seq<char>,
    pub data: Option<JsonView>,
}

/// The mathematical form of a response.
pub struct ResponseView {
    pub id: Seq<char>,
    pub result: Option<JsonView>,
    pub error: Option<ErrorView>,
}

pub open spec fn opt_view(v: Option<JsonValue>) -> Option<JsonView> {
    match v {
        Some(x) => Some(jview(x)),
        None => None,
    }
}

pub open spec fn response_view(r: RpcResponse) -> ResponseView {
    ResponseView {
        id: r.id@,
        result: opt_view(r.result),
        error: match r.error {
            Some(e) => Some(ErrorView { code: e.code, message: e.message@, data: opt_view(e.data) }),
            None => None,
        },
    }
}

/// A successful response.
pub open spec fn ok_view(id: Seq<char>, result: JsonView) -> ResponseView {
    ResponseView { id, result: Some(result), error: None }
}

/// A failed response.
pub open spec fn error_view(id: Seq<char>, code: i64, message: Seq<char>, data: Option<JsonView>) -> ResponseView {
    ResponseView { id, result: None, error: Some(ErrorView { code, message, data }) }
}

/// An object of one member.
pub open spec fn single(key: Seq<char>, value: JsonView) -> JsonView {
    jobject(seq![(key, value)])
}

/// The answer to a database failure.
pub open spec fn db_error_view(id: Seq<char>, detail: Seq<char>) -> ResponseView {
    error_view(id, SERVER_ERROR, "db_error"@, Some(single("detail"@, JsonView::Str(detail))))
}

/// The answer to a request that lacks a parameter.
pub open spec fn invalid_params_view(id: Seq<char>, missing: Seq<char>) -> ResponseView {
    error_view(id, INVALID_PARAMS, "invalid_params"@, Some(single("missing"@, JsonView::Str(missing))))
}

/// A successful response.
pub fn ok_response(id: String, result: JsonValue) -> (r: RpcResponse)
    ensures
        response_view(r) == ok_view(id@, jview(result)),
{
    RpcResponse { id, result: Some(result), error: None }
}

/// A failed response.
pub fn error_response(id: String, code: i64, message: &str, data: Option<JsonValue>) -> (r: RpcResponse)
    ensures
        response_view(r) == error_view(id@, code, message@, opt_view(data)),
{
    RpcResponse { id, result: None, error: Some(RpcError { code, message: String::from_str(message), data }) }
}

/// An object of one member.
pub fn single_member(key: &str, value: JsonValue) -> (v: JsonValue)
    ensures
        jview(v) == single(key@, jview(value)),
{
    let mut b = ObjectBuilder::new();
    b.add(key, value);
    assert(b.view() =~= seq![(key@, jview(value))]);
    b.build()
}

/// The answer to a database failure: code -32000, `db_error`, with the detail.
pub fn db_error(id: String, detail: String) -> (r: RpcResponse)
    ensures
        response_view(r) == db_error_view(id@, detail@),
{
    let data = single_member("detail", JsonValue::String(detail));
    error_response(id, SERVER_ERROR, "db_error", Some(data))
}

/// The answer to a request that lacks a parameter: code -32602, `invalid_params`.
pub fn invalid_params(id: String, missing: &str) -> (r: RpcResponse)
    ensures
        response_view(r) == invalid_params_view(id@, missing@),
{
    let data = single_member("missing", JsonValue::String(String::from_str(missing)));
    error_response(id, INVALID_PARAMS, "invalid_params", Some(data))
}

/// The answer to a frame that is not a request: code -32700 under the id `invalid`.
pub fn parse_error(detail: String) -> (r: RpcResponse)
    ensures
        response_view(r) == error_view("invalid"@, PARSE_ERROR, "parse_error"@, Some(single("detail"@, JsonView::Str(detail@)))),
{
    let data = single_member("detail", JsonValue::String(detail));
    error_response(String::from_str("invalid"), PARSE_ERROR, "parse_error", Some(data))
}

/// The methods the endpoint serves.
#[derive(Clone, Copy, Debug, PartialEq, Eq, Structural)]
pub enum RpcMethod {
    GetUnreadMails,
    GetAgenda,
    IngestMail,
    OpenDocument,
    GetNodeStatus,
    GenerateRemoteToken,
    ListPeers,
    PushChanges,
    PullDelta,
}

/// The method a name selects.
pub open spec fn spec_route(name: Seq<char>) -> Option<RpcMethod> {
    if name == "pim:get_unread_mails"@ {
        Some(RpcMethod::GetUnreadMails)
    } else if name == "pim:get_agenda"@ {
        Some(RpcMethod::GetAgenda)
    } else if name == "pim:ingest_mail"@ {
        Some(RpcMethod::IngestMail)
    } else if name == "doc:open_document"@ {
        Some(RpcMethod::OpenDocument)
    } else if name == "sys:get_node_status"@ {
        Some(RpcMethod::GetNodeStatus)
    } else if name == "sync:generate_remote_token"@ {
        Some(RpcMethod::GenerateRemoteToken)
    } else if name == "sync:list_peers"@ {
        Some(RpcMethod::ListPeers)
    } else if name == "sync:push_changes"@ {
        Some(RpcMethod::PushChanges)
    } else if name == "sync:pull_delta"@ {
        Some(RpcMethod::PullDelta)
    } else {
        None
    }
}

/// The method a name selects, if any.
pub fn route(name: &str) -> (m: Option<RpcMethod>)
    ensures
        m == spec_route(name@),
{
    if str_eq(name, "pim:get_unread_mails") {
        Some(RpcMethod::GetUnreadMails)
    } else if str_eq(name, "pim:get_agenda") {
        Some(RpcMethod::GetAgenda)
    } else if str_eq(name, "pim:ingest_mail") {
        Some(RpcMethod::IngestMail)
    } else if str_eq(name, "doc:open_document") {
        Some(RpcMethod::OpenDocument)
    } else if str_eq(name, "sys:get_node_status") {
        Some(RpcMethod::GetNodeStatus)
    } else if str_eq(name, "sync:generate_remote_token") {
        Some(RpcMethod::GenerateRemoteToken)
    } else if str_eq(name, "sync:list_peers") {
        Some(RpcMethod::ListPeers)
    } else if str_eq(name, "sync:push_changes") {
        Some(RpcMethod::PushChanges)
    } else if str_eq(name, "sync:pull_delta") {
        Some(RpcMethod::PullDelta)
    } else {
        None
    }
}

/// The answer to an unknown method: code -32601, `method_not_found`, naming it.
pub fn method_not_found(req: RpcRequest) -> (r: RpcResponse)
    ensures
        response_view(r) == error_view(
            req.id@,
            METHOD_NOT_FOUND,
            "method_not_found"@,
            Some(single("method"@, JsonView::Str(req.method@))),
        ),
{
    let data = single_member("method", JsonValue::String(req.method));
    error_response(req.id, METHOD_NOT_FOUND, "method_not_found", Some(data))
}

/// An object with the given rows under one key.
pub fn rows_object(key: &str, rows: Vec<JsonValue>) -> (v: JsonValue)
    ensures
        jview(v) == single(key@, JsonView::Array(jviews(rows@))),
{
    single_member(key, JsonValue::Array(rows))
}

/// The answer listing the rows of a query under a key, or the database failure.
pub fn rows_response(id: String, key: &str, outcome: Result<Vec<JsonValue>, String>) -> (r: RpcResponse)
    ensures
        response_view(r) == match outcome {
            Ok(rows) => ok_view(id@, single(key@, JsonView::Array(jviews(rows@)))),
            Err(d) => db_error_view(id@, d@),
        },
{
    match outcome {
        Ok(rows) => ok_response(id, rows_object(key, rows)),
        Err(d) => db_error(id, d),
    }
}

} // verus!

verus! {

/// Index of the last path separator (`/` or `\`), or -1.
pub open spec fn last_separator(s: Seq<char>) -> int
    decreases s.len(),
{
    if s.len() == 0 {
        -1
    } else if s.last() == '/' || s.last() == '\\' {
        s.len() - 1
    } else {
        last_separator(s.drop_last())
    }
}

proof fn lemma_last_separator(s: Seq<char>)
    ensures
        -1 <= last_separator(s) < s.len(),
    decreases s.len(),
{
    if s.len() > 0 {
        lemma_last_separator(s.drop_last());
    }
}

/// The last component of a path: what follows its last `/` or `\`.
pub open spec fn spec_basename(path: Seq<char>) -> Seq<char> {
    path.subrange(last_separator(path) + 1, path.len() as int)
}

/// Paths given by clients, which may use either separator.
pub struct PathLike;

impl PathLike {
    /// The last component of a path.
    pub fn basename(path: &str) -> (b: String)
        ensures
            b@ == spec_basename(path@),
    {
        let cs = chars_of(path);
        let n: usize = cs.len();
        let mut j: usize = n;
        assert(cs@.subrange(0, j as int) =~= cs@);
        while j > 0 && cs[j - 1] != '/' && cs[j - 1] != '\\'
            invariant
                n == cs@.len(),
                j <= n,
                last_separator(cs@) == last_separator(cs@.subrange(0, j as int)),
            decreases j,
        {
            assert(cs@.subrange(0, j as int).drop_last() =~= cs@.subrange(0, j - 1));
            j = j - 1;
        }
        proof {
            lemma_last_separator(cs@);
        }
        string_of(vstd::slice::slice_subrange(cs.as_slice(), j, n))
    }
}

} // verus!

verus! {

use crate::crypto::{spec_decrypt_field, text_result, CryptoEngine, CryptoError};
use crate::json::{jbool, jget, jmember, jmembers, jput, jstring, lemma_jmembers_get, lemma_jmembers_insert,
    lemma_jviews_index, members_lookup, members_set};

/// Members after recording a decryption: the plaintext under `key` when it decrypted.
pub open spec fn put_plain(
    ms: Seq<(Seq<char>, JsonView)>,
    key: Seq<char>,
    r: Result<Seq<char>, CryptoError>,
) -> Seq<(Seq<char>, JsonView)> {
    match r {
        Ok(p) => jput(ms, key, JsonView::Str(p)),
        Err(_) => ms,
    }
}

/// Members after exposing one body: its plaintext when the mail is end-to-end
/// encrypted and the engine holds a key and it decrypts, then its raw text.
pub open spec fn put_body(
    ms: Seq<(Seq<char>, JsonView)>,
    raw: Option<Seq<char>>,
    plain_key: Seq<char>,
    raw_key: Seq<char>,
    key: Option<Seq<u8>>,
    e2ee: bool,
) -> Seq<(Seq<char>, JsonView)> {
    match raw {
        Some(r) => {
            let m = match key {
                Some(k) => if e2ee {
                    put_plain(ms, plain_key, spec_decrypt_field(r, k))
                } else {
                    ms
                },
                None => ms,
            };
            jput(m, raw_key, JsonView::Str(r))
        },
        None => ms,
    }
}

/// Whether mail members mark the mail as end-to-end encrypted.
pub open spec fn members_e2ee(ms: Seq<(Seq<char>, JsonView)>) -> bool {
    jbool(jmember(jget(ms, "encryption_metadata"@), "e2ee"@)) == Some(true)
}

/// The members of a mail row as listed to clients.
pub open spec fn mail_members_view(ms: Seq<(Seq<char>, JsonView)>, key: Option<Seq<u8>>) -> Seq<(Seq<char>, JsonView)> {
    let e2ee = members_e2ee(ms);
    let with_text = put_body(ms, jstring(jget(ms, "body_text"@)), "body_text_plain"@, "body_text_raw"@, key, e2ee);
    let with_html = put_body(with_text, jstring(jget(ms, "body_html"@)), "body_html_plain"@, "body_html_raw"@, key, e2ee);
    jput(with_html, "e2ee_protected"@, JsonView::Bool(e2ee))
}

/// A mail row as listed to clients; rows that are not objects stay as they are.
pub open spec fn mail_item_view(v: JsonView, key: Option<Seq<u8>>) -> JsonView {
    match v {
        JsonView::Object(ms) => JsonView::Object(mail_members_view(ms, key)),
        _ => v,
    }
}

pub open spec fn mail_items_view(vs: Seq<JsonView>, key: Option<Seq<u8>>) -> Seq<JsonView> {
    vs.map_values(|v: JsonView| mail_item_view(v, key))
}

pub open spec fn opt_string(o: Option<String>) -> Option<Seq<char>> {
    match o {
        Some(s) => Some(s@),
        None => None,
    }
}

/// Sets a member by key.
fn set_member(ms: &mut Vec<(String, JsonValue)>, key: &str, value: JsonValue)
    ensures
        jmembers(final(ms)@) == jput(jmembers(old(ms)@), key@, jview(value)),
{
    let k = String::from_str(key);
    proof {
        lemma_jmembers_insert(ms@, k, value);
    }
    members_set(ms, k, value);
}

/// Whether the members mark the mail as end-to-end encrypted.
fn e2ee_flag(ms: &Vec<(String, JsonValue)>) -> (b: bool)
    ensures
        b == members_e2ee(jmembers(ms@)),
{
    proof {
        lemma_jmembers_get(ms@, "encryption_metadata"@);
    }
    match members_lookup(ms, "encryption_metadata") {
        Some(m) => {
            proof {
                if let JsonValue::Object(inner) = m {
                    lemma_jmembers_get(inner@, "e2ee"@);
                }
            }
            match m.get("e2ee") {
                Some(b) => match b.as_bool() {
                    Some(x) => x,
                    None => false,
                },
                None => false,
            }
        },
        None => false,
    }
}

/// The text of a string member, if it is one.
fn member_text(ms: &Vec<(String, JsonValue)>, key: &str) -> (r: Option<String>)
    ensures
        opt_string(r) == jstring(jget(jmembers(ms@), key@)),
{
    proof {
        lemma_jmembers_get(ms@, key@);
    }
    match members_lookup(ms, key) {
        Some(v) => match v.as_str() {
            Some(s) => Some(String::from_str(s)),
            None => None,
        },
        None => None,
    }
}

fn expose_body(
    ms: &mut Vec<(String, JsonValue)>,
    raw: Option<String>,
    plain_key: &str,
    raw_key: &str,
    e2ee: bool,
    crypto: &CryptoEngine,
)
    ensures
        jmembers(final(ms)@) == put_body(jmembers(old(ms)@), opt_string(raw), plain_key@, raw_key@, crypto.key(), e2ee),
{
    match raw {
        Some(r) => {
            if e2ee && crypto.has_user_key() {
                match crypto.decrypt_field(r.as_str()) {
                    Ok(plain) => set_member(ms, plain_key, JsonValue::String(plain)),
                    Err(_) => {},
                }
            }
            set_member(ms, raw_key, JsonValue::String(r));
        },
        None => {},
    }
}

/// A mail row as listed to clients: for an object, the raw body texts under
/// `body_text_raw` and `body_html_raw`, their plaintexts under `..._plain`
/// when the mail is end-to-end encrypted and decrypts with the engine's key,
/// and the flag `e2ee_protected`.
pub fn decrypt_mail_item(item: JsonValue, crypto: &CryptoEngine) -> (out: JsonValue)
    ensures
        jview(out) == mail_item_view(jview(item), crypto.key()),
{
    match item {
        JsonValue::Object(members) => {
            let mut ms = members;
            let e2ee = e2ee_flag(&ms);
            let raw_text = member_text(&ms, "body_text");
            let raw_html = member_text(&ms, "body_html");
            expose_body(&mut ms, raw_text, "body_text_plain", "body_text_raw", e2ee, crypto);
            expose_body(&mut ms, raw_html, "body_html_plain", "body_html_raw", e2ee, crypto);
            set_member(&mut ms, "e2ee_protected", JsonValue::Bool(e2ee));
            JsonValue::Object(ms)
        },
        other => other,
    }
}

/// Lists mail rows as clients see them, each as `decrypt_mail_item` gives it.
pub fn decrypt_mail_items(items: &mut Vec<JsonValue>, crypto: &CryptoEngine)
    ensures
        final(items)@.len() == old(items)@.len(),
        forall|j: int|
            0 <= j < old(items)@.len() ==> #[trigger] jview(final(items)@[j]) == mail_item_view(
                jview(old(items)@[j]),
                crypto.key(),
            ),
{
    let ghost src = items@;
    let ghost key = crypto.key();
    let mut pending: Vec<JsonValue> = Vec::new();
    std::mem::swap(items, &mut pending);
    let n: usize = pending.len();
    let mut done_rev: Vec<JsonValue> = Vec::new();
    while pending.len() > 0
        invariant
            n == src.len(),
            key == crypto.key(),
            pending@ == src.subrange(0, pending@.len() as int),
            done_rev@.len() + pending@.len() == n,
            forall|j: int|
                0 <= j < done_rev@.len() ==> #[trigger] jview(done_rev@[j]) == mail_item_view(
                    jview(src[n - 1 - j]),
                    key,
                ),
        decreases pending@.len(),
    {
        let ghost k = pending@.len();
        let it = pending.pop().unwrap();
        assert(it == src[k - 1]);
        let ghost before = done_rev@;
        let d = decrypt_mail_item(it, crypto);
        done_rev.push(d);
        assert(pending@ =~= src.subrange(0, pending@.len() as int));
        assert forall|j: int| 0 <= j < done_rev@.len() implies #[trigger] jview(done_rev@[j]) == mail_item_view(
            jview(src[n - 1 - j]),
            key,
        ) by {
            if j < before.len() {
                assert(done_rev@[j] == before[j]);
                assert(jview(before[j]) == mail_item_view(jview(src[n - 1 - j]), key));
            } else {
                assert(j == before.len());
                assert(done_rev@[j] == d);
                assert(n - 1 - j == k - 1);
            }
        }
    }
    let ghost rev = done_rev@;
    let mut out: Vec<JsonValue> = Vec::new();
    while done_rev.len() > 0
        invariant
            n == src.len(),
            rev.len() == n,
            done_rev@ == rev.subrange(0, done_rev@.len() as int),
            out@.len() + done_rev@.len() == n,
            forall|j: int| 0 <= j < n ==> #[trigger] jview(rev[j]) == mail_item_view(jview(src[n - 1 - j]), key),
            forall|j: int| 0 <= j < out@.len() ==> #[trigger] jview(out@[j]) == mail_item_view(jview(src[j]), key),
        decreases done_rev@.len(),
    {
        let ghost k = done_rev@.len();
        let it = done_rev.pop().unwrap();
        assert(it == rev[k - 1]);
        assert(jview(rev[k - 1]) == mail_item_view(jview(src[n - 1 - (k - 1)]), key));
        out.push(it);
        assert(done_rev@ =~= rev.subrange(0, done_rev@.len() as int));
    }
    *items = out;
}

/// Unread mails listed to clients: at most `limit` rows (50 when absent, never more than 500).
pub open spec fn spec_unread_limit(params: JsonValue) -> u64 {
    let l = match crate::json::json_u64(crate::json::json_get(params, "limit"@)) {
        Some(n) => n,
        None => 50,
    };
    if l > 500 {
        500
    } else {
        l
    }
}

} // verus!

verus! {

use crate::json::{get_str, json_bool, json_get, json_i64, json_str, json_u64, i64_number, ji64, ju64};
use crate::orchestrator::{query_view, BindValue, BindView, DbQuery};

pub const UNREAD_MAILS_SQL: &'static str = "SELECT id, message_id, subject, body_text, body_html, encryption_metadata, date_received, is_read, size FROM mail WHERE is_read = false ORDER BY date_received DESC LIMIT $limit";

pub const AGENDA_SQL: &'static str = "SELECT id, title, description, start_time, end_time, location FROM calendar_event WHERE start_time >= $start AND start_time <= $end ORDER BY start_time ASC LIMIT 500";

pub const INGEST_MAIL_SQL: &'static str = "\nUPSERT mail SET\n  message_id = $message_id,\n  subject = $subject,\n  body_text = $body_text,\n  body_html = $body_html,\n  date_received = $date_received,\n  is_read = $is_read,\n  size = $size,\n  encryption_metadata = $encryption_metadata\nWHERE message_id = $message_id;\nSELECT id, message_id, subject, date_received, is_read, size, encryption_metadata FROM mail WHERE message_id = $message_id LIMIT 1;\n";

pub const PULL_DELTA_SQL: &'static str = "\nSELECT * FROM document_meta WHERE last_modified > time::parse($since) ORDER BY last_modified ASC LIMIT 1000;\nSELECT in, out, context_anchor, created_at FROM linked_to WHERE created_at > time::parse($since) ORDER BY created_at ASC LIMIT 2000;\n";

/// The string parameter `key`, or the default.
pub open spec fn str_param(params: JsonValue, key: Seq<char>, default: Seq<char>) -> Seq<char> {
    match json_str(json_get(params, key)) {
        Some(s) => s,
        None => default,
    }
}

fn str_param_exec<'a>(params: &'a JsonValue, key: &str, default: &'a str) -> (s: &'a str)
    ensures
        s@ == str_param(*params, key@, default@),
{
    match get_str(params, key) {
        Some(s) => s,
        None => default,
    }
}

/// The query listing unread mails, newest first.
pub fn unread_mails_query(params: &JsonValue) -> (q: DbQuery)
    ensures
        query_view(q) == (UNREAD_MAILS_SQL@, seq![("limit"@, BindView::UInt(spec_unread_limit(*params)))]),
{
    let requested: u64 = match params.get("limit") {
        Some(v) => match v.as_u64() {
            Some(n) => n,
            None => 50,
        },
        None => 50,
    };
    let limit: u64 = if requested > 500 { 500 } else { requested };
    let mut q = DbQuery::new(UNREAD_MAILS_SQL);
    q.bind("limit", BindValue::UInt(limit));
    assert(query_view(q).1 =~= seq![("limit"@, BindView::UInt(spec_unread_limit(*params)))]);
    q
}

/// The answer listing unread mails: the rows as `decrypt_mail_items` exposes
/// them under `items`, or the database failure.
pub fn unread_mails_response(id: String, crypto: &CryptoEngine, outcome: Result<Vec<JsonValue>, String>) -> (r: RpcResponse)
    ensures
        response_view(r) == match outcome {
            Ok(rows) => ok_view(id@, single("items"@, JsonView::Array(mail_items_view(jviews(rows@), crypto.key())))),
            Err(d) => db_error_view(id@, d@),
        },
{
    match outcome {
        Ok(rows) => {
            let ghost src = rows@;
            let mut items = rows;
            decrypt_mail_items(&mut items, crypto);
            proof {
                lemma_jviews_index(src);
                lemma_jviews_index(items@);
                assert(jviews(items@) =~= mail_items_view(jviews(src), crypto.key()));
            }
            ok_response(id, rows_object("items", items))
        },
        Err(d) => db_error(id, d),
    }
}

/// The query listing calendar events between `start` and `end`, or the answer
/// naming the first of the two that is missing.
pub fn agenda_query(id: &str, params: &JsonValue) -> (r: Result<DbQuery, RpcResponse>)
    ensures
        match json_str(json_get(*params, "start"@)) {
            None => r matches Err(e) && response_view(e) == invalid_params_view(id@, "start"@),
            Some(start) => match json_str(json_get(*params, "end"@)) {
                None => r matches Err(e) && response_view(e) == invalid_params_view(id@, "end"@),
                Some(end) => r matches Ok(q) && query_view(q) == (
                    AGENDA_SQL@,
                    seq![("start"@, BindView::Str(start)), ("end"@, BindView::Str(end))],
                ),
            },
        },
{
    let start = match get_str(params, "start") {
        Some(s) => s,
        None => return Err(invalid_params(String::from_str(id), "start")),
    };
    let end = match get_str(params, "end") {
        Some(s) => s,
        None => return Err(invalid_params(String::from_str(id), "end")),
    };
    let mut q = DbQuery::new(AGENDA_SQL);
    q.bind("start", BindValue::Str(String::from_str(start)));
    q.bind("end", BindValue::Str(String::from_str(end)));
    assert(query_view(q).1 =~= seq![("start"@, BindView::Str(start@)), ("end"@, BindView::Str(end@))]);
    Ok(q)
}

/// The query listing what changed since `since` (the epoch when absent).
pub fn pull_delta_query(params: &JsonValue) -> (q: DbQuery)
    ensures
        query_view(q) == (
            PULL_DELTA_SQL@,
            seq![("since"@, BindView::Str(str_param(*params, "since"@, "1970-01-01T00:00:00Z"@)))],
        ),
{
    let since = str_param_exec(params, "since", "1970-01-01T00:00:00Z");
    let mut q = DbQuery::new(PULL_DELTA_SQL);
    q.bind("since", BindValue::Str(String::from_str(since)));
    assert(query_view(q).1 =~= seq![("since"@, BindView::Str(since@))]);
    q
}

/// The answer to a delta pull: the documents and the edges, or the database failure.
pub fn pull_delta_response(id: String, outcome: Result<(Vec<JsonValue>, Vec<JsonValue>), String>) -> (r: RpcResponse)
    ensures
        response_view(r) == match outcome {
            Ok((docs, edges)) => ok_view(
                id@,
                jobject(seq![("documents"@, JsonView::Array(jviews(docs@))), ("edges"@, JsonView::Array(jviews(edges@)))]),
            ),
            Err(d) => db_error_view(id@, d@),
        },
{
    match outcome {
        Ok((docs, edges)) => {
            let ghost dv = jviews(docs@);
            let ghost ev = jviews(edges@);
            let mut b = ObjectBuilder::new();
            b.add("documents", JsonValue::Array(docs));
            b.add("edges", JsonValue::Array(edges));
            assert(b.view() =~= seq![("documents"@, JsonView::Array(dv)), ("edges"@, JsonView::Array(ev))]);
            ok_response(id, b.build())
        },
        Err(d) => db_error(id, d),
    }
}

/// The metadata stored with an ingested mail: its bodies are sealed.
pub open spec fn ingest_metadata() -> JsonView {
    jobject(
        seq![
            ("e2ee"@, JsonView::Bool(true)),
            ("alg"@, JsonView::Str("chacha20poly1305"@)),
            ("encoding"@, JsonView::Str("b64"@)),
            ("v"@, JsonView::Number(JsonNumber::PosInt(1))),
        ],
    )
}

/// Why an ingest stores nothing, given whether the engine holds a key and the
/// outcomes of encrypting the two bodies: no key, or a body that did not
/// encrypt. The store only ever receives sealed bodies.
pub open spec fn ingest_refusal(
    has_key: bool,
    enc: Option<(Result<Seq<char>, CryptoError>, Result<Seq<char>, CryptoError>)>,
) -> Option<Seq<char>> {
    if !has_key {
        Some("crypto_key_unavailable"@)
    } else {
        match enc {
            Some((Ok(_), Ok(_))) => None,
            _ => Some("encrypt_failed"@),
        }
    }
}

/// The mail stored for an ingest request (which carries a message id), with
/// the sealed bodies.
pub open spec fn ingest_query_view(
    params: JsonValue,
    sealed_text: Seq<char>,
    sealed_html: Seq<char>,
) -> (Seq<char>, Seq<(Seq<char>, BindView)>) {
    (
        INGEST_MAIL_SQL@,
        seq![
            ("message_id"@, BindView::Str(str_param(params, "message_id"@, Seq::empty()))),
            ("subject"@, BindView::Str(str_param(params, "subject"@, Seq::empty()))),
            ("body_text"@, BindView::Str(sealed_text)),
            ("body_html"@, BindView::Str(sealed_html)),
            ("date_received"@, BindView::Str(str_param(params, "date_received"@, Seq::empty()))),
            ("is_read"@, BindView::Bool(match json_bool(json_get(params, "is_read"@)) { Some(b) => b, None => false })),
            ("size"@, BindView::Int(match json_i64(json_get(params, "size"@)) { Some(n) => n, None => 0 })),
            ("encryption_metadata"@, BindView::Json(ingest_metadata())),
        ],
    )
}

/// The outcome of an ingest request, given whether the engine holds a key
/// and the outcomes of encrypting the two bodies: the answer to a request
/// without a message id, a server error when nothing may be stored, or the
/// query storing the sealed bodies.
pub open spec fn ingest_outcome_ok(
    r: Result<DbQuery, RpcResponse>,
    id: Seq<char>,
    params: JsonValue,
    has_key: bool,
    enc: Option<(Result<Seq<char>, CryptoError>, Result<Seq<char>, CryptoError>)>,
) -> bool {
    match json_str(json_get(params, "message_id"@)) {
        None => r matches Err(e) && response_view(e) == invalid_params_view(id, "message_id"@),
        Some(_) => match ingest_refusal(has_key, enc) {
            Some(reason) => r matches Err(e) && response_view(e) == error_view(id, SERVER_ERROR, reason, None),
            None => match enc {
                Some((Ok(a), Ok(b))) => r matches Ok(q) && query_view(q) == ingest_query_view(params, a, b),
                _ => false,
            },
        },
    }
}

pub open spec fn enc_pair_view(enc: Option<(Result<String, CryptoError>, Result<String, CryptoError>)>) -> Option<(Result<Seq<char>, CryptoError>, Result<Seq<char>, CryptoError>)> {
    match enc {
        Some((a, b)) => Some((text_result(a), text_result(b))),
        None => None,
    }
}

fn ingest_metadata_value() -> (v: JsonValue)
    ensures
        jview(v) == ingest_metadata(),
{
    let mut b = ObjectBuilder::new();
    b.add("e2ee", JsonValue::Bool(true));
    b.add("alg", JsonValue::String(String::from_str("chacha20poly1305")));
    b.add("encoding", JsonValue::String(String::from_str("b64")));
    b.add("v", ju64(1));
    assert(b.view() =~= seq![
        ("e2ee"@, JsonView::Bool(true)),
        ("alg"@, JsonView::Str("chacha20poly1305"@)),
        ("encoding"@, JsonView::Str("b64"@)),
        ("v"@, JsonView::Number(JsonNumber::PosInt(1))),
    ]);
    b.build()
}

/// The query storing an ingested mail and reading it back, given whether the
/// engine holds a key and the outcomes of encrypting the two bodies; or the
/// answer when the request has no message id, the engine no key, or a body
/// did not encrypt. No plain body is ever bound into the query.
pub fn ingest_mail_query_with(
    id: &str,
    params: &JsonValue,
    has_key: bool,
    enc: Option<(Result<String, CryptoError>, Result<String, CryptoError>)>,
) -> (r: Result<DbQuery, RpcResponse>)
    ensures
        ingest_outcome_ok(r, id@, *params, has_key, enc_pair_view(enc)),
{
    let message_id = match get_str(params, "message_id") {
        Some(s) => s,
        None => return Err(invalid_params(String::from_str(id), "message_id")),
    };
    if !has_key {
        return Err(error_response(String::from_str(id), SERVER_ERROR, "crypto_key_unavailable", None));
    }
    let (sealed_text, sealed_html) = match enc {
        Some((Ok(a), Ok(b))) => (a, b),
        _ => return Err(error_response(String::from_str(id), SERVER_ERROR, "encrypt_failed", None)),
    };
    proof {
        reveal_strlit("");
        assert(""@ =~= Seq::<char>::empty());
    }
    let subject = str_param_exec(params, "subject", "");
    let date_received = str_param_exec(params, "date_received", "");
    let size: i64 = match params.get("size") {
        Some(v) => match v.as_i64() {
            Some(n) => n,
            None => 0,
        },
        None => 0,
    };
    let is_read: bool = match params.get("is_read") {
        Some(v) => match v.as_bool() {
            Some(b) => b,
            None => false,
        },
        None => false,
    };
    let ghost expected = ingest_query_view(*params, sealed_text@, sealed_html@);
    let metadata = ingest_metadata_value();
    let mut q = DbQuery::new(INGEST_MAIL_SQL);
    q.bind("message_id", BindValue::Str(String::from_str(message_id)));
    q.bind("subject", BindValue::Str(String::from_str(subject)));
    q.bind("body_text", BindValue::Str(sealed_text));
    q.bind("body_html", BindValue::Str(sealed_html));
    q.bind("date_received", BindValue::Str(String::from_str(date_received)));
    q.bind("is_read", BindValue::Bool(is_read));
    q.bind("size", BindValue::Int(size));
    q.bind("encryption_metadata", BindValue::Json(metadata));
    assert(query_view(q).1 =~= expected.1);
    Ok(q)
}

/// The query storing an ingested mail with its bodies sealed by the engine;
/// or the answer when the request has no message id, the engine holds no key
/// or a body did not encrypt. The bodies are encrypted only when a message id
/// and a key are present.
pub fn ingest_mail_query(id: &str, params: &JsonValue, crypto: &CryptoEngine) -> (r: Result<DbQuery, RpcResponse>)
    ensures
        exists|enc: Option<(Result<Seq<char>, CryptoError>, Result<Seq<char>, CryptoError>)>|
            #[trigger] ingest_outcomes(
                str_param(*params, "body_text"@, Seq::empty()),
                str_param(*params, "body_html"@, Seq::empty()),
                crypto.key(),
                enc,
            ) && ingest_outcome_ok(r, id@, *params, crypto.key() is Some, enc),
        json_str(json_get(*params, "message_id"@)) is None ==> (r matches Err(e) && response_view(e)
            == invalid_params_view(id@, "message_id"@)),
        crypto.key() is None && json_str(json_get(*params, "message_id"@)) is Some ==> (r matches Err(e)
            && response_view(e) == error_view(id@, SERVER_ERROR, "crypto_key_unavailable"@, None)),
{
    proof {
        reveal_strlit("");
        assert(""@ =~= Seq::<char>::empty());
    }
    let has_key = crypto.has_user_key();
    let enc = if has_key {
        let bt = str_param_exec(params, "body_text", "");
        let bh = str_param_exec(params, "body_html", "");
        Some((crypto.encrypt_field(bt), crypto.encrypt_field(bh)))
    } else {
        None
    };
    let r = ingest_mail_query_with(id, params, has_key, enc);
    assert(ingest_outcomes(
        str_param(*params, "body_text"@, Seq::empty()),
        str_param(*params, "body_html"@, Seq::empty()),
        crypto.key(),
        enc_pair_view(enc),
    ));
    r
}

/// Whether the encryption outcomes of an ingest fit the engine: none without
/// a key, a possible outcome for each body with one.
pub open spec fn ingest_outcomes(
    body_text: Seq<char>,
    body_html: Seq<char>,
    key: Option<Seq<u8>>,
    enc: Option<(Result<Seq<char>, CryptoError>, Result<Seq<char>, CryptoError>)>,
) -> bool {
    match key {
        None => enc is None,
        Some(_) => match enc {
            Some((e1, e2)) => crate::queue::worker::possible_encryption(key, body_text, e1)
                && crate::queue::worker::possible_encryption(key, body_html, e2),
            None => false,
        },
    }
}

/// Whatever the random source gives, an ingest that stores a mail stores its
/// bodies sealed: each stored body decrypts under the engine's key to the
/// body that was sent, and differs from it.
pub proof fn law_ingest_stores_only_ciphertext(
    r: Result<DbQuery, RpcResponse>,
    id: Seq<char>,
    params: JsonValue,
    key: Option<Seq<u8>>,
    enc: Option<(Result<Seq<char>, CryptoError>, Result<Seq<char>, CryptoError>)>,
)
    requires
        ingest_outcomes(
            str_param(params, "body_text"@, Seq::empty()),
            str_param(params, "body_html"@, Seq::empty()),
            key,
            enc,
        ),
        ingest_outcome_ok(r, id, params, key is Some, enc),
        r is Ok,
    ensures
        key is Some,
        enc matches Some((Ok(a), Ok(b))) && {
            &&& query_view(r->Ok_0) == ingest_query_view(params, a, b)
            &&& spec_decrypt_field(a, key->0) == Ok::<Seq<char>, CryptoError>(str_param(params, "body_text"@, Seq::empty()))
            &&& spec_decrypt_field(b, key->0) == Ok::<Seq<char>, CryptoError>(str_param(params, "body_html"@, Seq::empty()))
            &&& a != str_param(params, "body_text"@, Seq::empty())
            &&& b != str_param(params, "body_html"@, Seq::empty())
        },
{
}

} // verus!

verus! {

use crate::network::{ClientMode, PeerInfo, parse_ed25519_signing_key_b64, sign_paseto_v4_public, spec_paseto_token,
    spec_parse_signing_key, new_token_nonce};
use crate::orchestrator::NodeHealthSnapshot;
use crate::queue::{OfficeTask, TaskEnvelope};
use crate::json::{json_string_text, push_json_string};
use crate::codec::{b64_nopad_len, b64_url_text};
use crate::text::{dec_text, push_decimal};
use vstd::utf8::encode_utf8;

/// The task queued for a document request, or the answer to a request without
/// a path. `link_json` is the request's `link` parameter as JSON text, present
/// exactly when the parameter is.
pub fn open_document_task(
    id: &str,
    session_id: &str,
    task_id: String,
    params: &JsonValue,
    link_json: Option<String>,
) -> (r: Result<TaskEnvelope, RpcResponse>)
    requires
        link_json is Some <==> json_get(*params, "link"@) is Some,
    ensures
        match json_str(json_get(*params, "path"@)) {
            None => r matches Err(e) && response_view(e) == invalid_params_view(id@, "path"@),
            Some(path) => {
                &&& r matches Ok(env)
                &&& r->Ok_0.session_id@ == session_id@
                &&& r->Ok_0.task_id@ == task_id@
                &&& r->Ok_0.task matches OfficeTask::ProcessDocument { path: p, link_ctx }
                &&& r->Ok_0.task->ProcessDocument_path@ == path
                &&& r->Ok_0.task->ProcessDocument_link_ctx == link_json
            },
        },
{
    let path = match get_str(params, "path") {
        Some(p) => p,
        None => return Err(invalid_params(String::from_str(id), "path")),
    };
    Ok(TaskEnvelope {
        session_id: String::from_str(session_id),
        task_id,
        task: OfficeTask::ProcessDocument { path: String::from_str(path), link_ctx: link_json },
    })
}

/// The answer to a queued document request.
pub fn queued_response(id: String, task_id: String) -> (r: RpcResponse)
    ensures
        response_view(r) == ok_view(
            id@,
            jobject(seq![("status"@, JsonView::Str("queued"@)), ("task_id"@, JsonView::Str(task_id@))]),
        ),
{
    let ghost t = task_id@;
    let mut b = ObjectBuilder::new();
    b.add("status", JsonValue::String(String::from_str("queued")));
    b.add("task_id", JsonValue::String(task_id));
    assert(b.view() =~= seq![("status"@, JsonView::Str("queued"@)), ("task_id"@, JsonView::Str(t))]);
    ok_response(id, b.build())
}

/// The answer when the task queue no longer takes tasks.
pub fn queue_unavailable(id: String) -> (r: RpcResponse)
    ensures
        response_view(r) == error_view(id@, SERVER_ERROR, "queue_unavailable"@, None),
{
    error_response(id, SERVER_ERROR, "queue_unavailable", None)
}

/// The health report of the node.
pub open spec fn node_status_view(h: NodeHealthSnapshot) -> JsonView {
    jobject(
        seq![
            ("db_status"@, JsonView::Str(h.db_status@)),
            ("lok_status"@, JsonView::Str(h.lok_status@)),
            ("lok_version"@, JsonView::Str(h.lok_version@)),
            ("crypto_status"@, JsonView::Str(h.crypto_status@)),
            ("queue_backlog"@, JsonView::Number(JsonNumber::PosInt(h.queue_backlog as u64))),
            ("active_peers"@, JsonView::Number(JsonNumber::PosInt(h.active_peers as u64))),
        ],
    )
}

/// The health report of the node.
pub fn build_node_status_result(health: NodeHealthSnapshot) -> (v: JsonValue)
    ensures
        jview(v) == node_status_view(health),
{
    let ghost h = health;
    let mut b = ObjectBuilder::new();
    b.add("db_status", JsonValue::String(health.db_status));
    b.add("lok_status", JsonValue::String(health.lok_status));
    b.add("lok_version", JsonValue::String(health.lok_version));
    b.add("crypto_status", JsonValue::String(health.crypto_status));
    b.add("queue_backlog", ju64(health.queue_backlog as u64));
    b.add("active_peers", ju64(health.active_peers as u64));
    assert(b.view() =~= node_status_view(h)->Object_0);
    b.build()
}

/// The JSON of a client mode.
pub open spec fn mode_name(m: ClientMode) -> Seq<char> {
    match m {
        ClientMode::Local => "Local"@,
        ClientMode::Remote => "Remote"@,
    }
}

/// The JSON of a connected peer.
pub open spec fn peer_view(p: PeerInfo) -> JsonView {
    jobject(
        seq![
            ("addr"@, JsonView::Str(p.addr@)),
            ("mode"@, JsonView::Str(mode_name(p.mode))),
            ("connected_at_unix"@, JsonView::Number(JsonNumber::PosInt(p.connected_at_unix))),
        ],
    )
}

fn peer_json(p: &PeerInfo) -> (v: JsonValue)
    ensures
        jview(v) == peer_view(*p),
{
    let mut b = ObjectBuilder::new();
    b.add("addr", JsonValue::String(String::from_str(p.addr.as_str())));
    let mode = match p.mode {
        ClientMode::Local => "Local",
        ClientMode::Remote => "Remote",
    };
    b.add("mode", JsonValue::String(String::from_str(mode)));
    b.add("connected_at_unix", ju64(p.connected_at_unix));
    assert(b.view() =~= peer_view(*p)->Object_0);
    b.build()
}

/// The answer listing the connected remote peers.
pub fn list_peers_response(id: String, peers: &Vec<PeerInfo>) -> (r: RpcResponse)
    ensures
        response_view(r) == ok_view(id@, single("peers"@, JsonView::Array(peers@.map_values(|p: PeerInfo| peer_view(p))))),
{
    let mut items: Vec<JsonValue> = Vec::new();
    let n: usize = peers.len();
    let mut i: usize = 0;
    while i < n
        invariant
            n == peers@.len(),
            i <= n,
            items@.len() == i,
            forall|j: int| 0 <= j < i ==> #[trigger] jview(items@[j]) == peer_view(peers@[j]),
        decreases n - i,
    {
        items.push(peer_json(&peers[i]));
        i = i + 1;
    }
    proof {
        lemma_jviews_index(items@);
        assert(jviews(items@) =~= peers@.map_values(|p: PeerInfo| peer_view(p)));
    }
    ok_response(id, rows_object("peers", items))
}

/// Seconds a remote token stays valid: `ttl_seconds` (900 when absent), at most 1800.
pub open spec fn spec_token_ttl(params: JsonValue) -> u64 {
    let t = match json_u64(json_get(params, "ttl_seconds"@)) {
        Some(n) => n,
        None => 900,
    };
    if t > 1800 {
        1800
    } else {
        t
    }
}

/// The claims of a remote token as JSON text, members in key order.
pub open spec fn token_payload_text(exp: u64, iat: u64, nonce: Seq<char>) -> Seq<char> {
    "{\"aud\":\"neqst-remote\",\"exp\":"@ + dec_text(exp as nat) + ",\"iat\":"@ + dec_text(iat as nat) + ",\"nonce\":"@
        + json_string_text(nonce) + "}"@
}

/// Whether the token of a payload has a length that fits in memory.
pub open spec fn payload_fits(exp: u64, iat: u64, nonce: Seq<char>) -> bool {
    b64_nopad_len(encode_utf8(token_payload_text(exp, iat, nonce)).len()) <= usize::MAX
}

/// The answer to a token request made at `now` with the given nonce.
pub open spec fn remote_token_view(
    id: Seq<char>,
    mode: ClientMode,
    params: JsonValue,
    now: u64,
    nonce: Seq<char>,
    signing_key_setting: Option<Seq<char>>,
) -> ResponseView {
    if mode != ClientMode::Local {
        error_view(id, METHOD_NOT_FOUND, "method_not_available_remote"@, None)
    } else {
        let exp = (now + spec_token_ttl(params)) as u64;
        let key = match signing_key_setting {
            Some(s) => spec_parse_signing_key(s),
            None => None,
        };
        match key {
            None => error_view(
                id,
                SERVER_ERROR,
                "signing_key_unavailable"@,
                Some(single("expected_env"@, JsonView::Str("NEQST_MASTER_PRIVKEY_ED25519_B64"@))),
            ),
            Some(k) => ok_view(
                id,
                jobject(
                    seq![
                        ("token"@, JsonView::Str(spec_paseto_token(encode_utf8(token_payload_text(exp, now, nonce)), k))),
                        ("expires_unix"@, JsonView::Number(JsonNumber::PosInt(exp))),
                    ],
                ),
            ),
        }
    }
}

/// The claims of a remote token as JSON text.
pub fn token_payload(exp: u64, iat: u64, nonce: &str) -> (s: String)
    ensures
        s@ == token_payload_text(exp, iat, nonce@),
{
    let mut s = String::from_str("{\"aud\":\"neqst-remote\",\"exp\":");
    push_decimal(&mut s, exp);
    s.append(",\"iat\":");
    push_decimal(&mut s, iat);
    s.append(",\"nonce\":");
    push_json_string(&mut s, nonce);
    s.append("}");
    s
}

/// The answer to a token request made at `now`, with the nonce given: an error
/// for remote clients, an error naming the setting when no signing key is
/// configured, and otherwise the signed token and its expiry.
pub fn remote_token_response(
    id: String,
    mode: ClientMode,
    params: &JsonValue,
    now: u64,
    nonce: &str,
    signing_key_setting: Option<&str>,
) -> (r: RpcResponse)
    requires
        now + spec_token_ttl(*params) <= u64::MAX,
        payload_fits((now + spec_token_ttl(*params)) as u64, now, nonce@),
    ensures
        response_view(r) == remote_token_view(
            id@,
            mode,
            *params,
            now,
            nonce@,
            match signing_key_setting { Some(s) => Some(s@), None => None },
        ),
{
    match mode {
        ClientMode::Local => {},
        ClientMode::Remote => return error_response(id, METHOD_NOT_FOUND, "method_not_available_remote", None),
    }
    let requested: u64 = match params.get("ttl_seconds") {
        Some(v) => match v.as_u64() {
            Some(n) => n,
            None => 900,
        },
        None => 900,
    };
    let ttl: u64 = if requested > 1800 { 1800 } else { requested };
    let exp: u64 = now + ttl;
    let payload = token_payload(exp, now, nonce);
    let key = match signing_key_setting {
        Some(s) => parse_ed25519_signing_key_b64(s),
        None => None,
    };
    let key = match key {
        Some(k) => k,
        None => {
            let data = single_member("expected_env", JsonValue::String(String::from_str("NEQST_MASTER_PRIVKEY_ED25519_B64")));
            return error_response(id, SERVER_ERROR, "signing_key_unavailable", Some(data));
        },
    };
    let bytes = payload.as_str().as_bytes();
    let token = sign_paseto_v4_public(bytes, key.as_slice());
    let ghost t = token@;
    let mut b = ObjectBuilder::new();
    b.add("token", JsonValue::String(token));
    b.add("expires_unix", ju64(exp));
    assert(b.view() =~= seq![("token"@, JsonView::Str(t)), ("expires_unix"@, JsonView::Number(JsonNumber::PosInt(exp)))]);
    ok_response(id, b.build())
}

} // verus!

verus! {

/// UTF-8 takes at most four bytes per character.
proof fn lemma_encode_utf8_len(s: Seq<char>)
    ensures
        encode_utf8(s).len() <= 4 * s.len(),
    decreases s.len(),
{
    if s.len() > 0 {
        lemma_encode_utf8_len(s.drop_first());
    }
}

/// The claims of a token with a nonce of at most 64 characters fit.
proof fn lemma_payload_fits(exp: u64, iat: u64, nonce: Seq<char>)
    requires
        nonce.len() <= 64,
    ensures
        payload_fits(exp, iat, nonce),
{
    let text = token_payload_text(exp, iat, nonce);
    crate::text::lemma_dec_text_len_u64(exp);
    crate::text::lemma_dec_text_len_u64(iat);
    crate::json::lemma_json_escape_len(nonce);
    reveal_strlit("{\"aud\":\"neqst-remote\",\"exp\":");
    reveal_strlit(",\"iat\":");
    reveal_strlit(",\"nonce\":");
    reveal_strlit("}");
    assert(text.len() <= 1000);
    lemma_encode_utf8_len(text);
}

/// The answer to a token request made at `now`, with a fresh nonce: the
/// answer for some 16-byte nonce, or, for a local client when the random
/// source fails, a server error.
pub fn generate_remote_token(
    id: String,
    mode: ClientMode,
    params: &JsonValue,
    now: u64,
    signing_key_setting: Option<&str>,
) -> (r: RpcResponse)
    requires
        now + spec_token_ttl(*params) <= u64::MAX,
    ensures
        (exists|nonce: Seq<u8>|
            nonce.len() == 16 && response_view(r) == remote_token_view(
                id@,
                mode,
                *params,
                now,
                #[trigger] b64_url_text(nonce),
                match signing_key_setting { Some(s) => Some(s@), None => None },
            )) || (mode == ClientMode::Local && response_view(r) == error_view(
            id@,
            SERVER_ERROR,
            "random_source_unavailable"@,
            None,
        )),
{
    let nonce = match new_token_nonce() {
        Some(n) => n,
        None => {
            match mode {
                ClientMode::Local => {
                    return error_response(id, SERVER_ERROR, "random_source_unavailable", None);
                },
                ClientMode::Remote => {
                    let r = error_response(id, METHOD_NOT_FOUND, "method_not_available_remote", None);
                    proof {
                        let w = Seq::new(16, |i: int| 0u8);
                        assert(response_view(r) == remote_token_view(
                            id@,
                            mode,
                            *params,
                            now,
                            b64_url_text(w),
                            match signing_key_setting { Some(s) => Some(s@), None => None },
                        ));
                    }
                    return r;
                },
            }
        },
    };
    proof {
        lemma_payload_fits((now + spec_token_ttl(*params)) as u64, now, nonce@);
    }
    remote_token_response(id, mode, params, now, nonce.as_str(), signing_key_setting)
}

} // verus!

verus! {

use crate::json::{json_array, json_i64 as json_i64_of};
use crate::text::push_char;

/// `<prefix><i><suffix>`, the name of a parameter of item `i` of a batch.
pub open spec fn indexed_key(prefix: char, i: nat, suffix: Seq<char>) -> Seq<char> {
    seq![prefix] + dec_text(i) + suffix
}

/// The statement upserting document `i` of a batch.
pub open spec fn doc_sql(i: nat) -> Seq<char> {
    "UPSERT document_meta SET filename = $"@ + indexed_key('d', i, "_fn"@) + ", file_size = $"@ + indexed_key(
        'd',
        i,
        "_sz"@,
    ) + ", storage_path = $"@ + indexed_key('d', i, "_sp"@) + ", mime_type = $"@ + indexed_key('d', i, "_mi"@)
        + ", last_modified = time::now() WHERE storage_path = $"@ + indexed_key('d', i, "_sp"@) + ";\n"@
}

/// The parameters of the statement for document `i`.
pub open spec fn doc_bindings(i: nat, doc: JsonValue) -> Seq<(Seq<char>, BindView)> {
    seq![
        (indexed_key('d', i, "_sp"@), BindView::Str(str_param(doc, "storage_path"@, Seq::empty()))),
        (indexed_key('d', i, "_fn"@), BindView::Str(str_param(doc, "filename"@, Seq::empty()))),
        (indexed_key('d', i, "_mi"@), BindView::Str(str_param(doc, "mime_type"@, "application/octet-stream"@))),
        (indexed_key('d', i, "_sz"@), BindView::Int(match json_i64_of(json_get(doc, "file_size"@)) { Some(n) => n, None => 0 })),
    ]
}

/// The upserts of a batch of documents: one per document that is an object.
pub open spec fn docs_upserts(docs: Seq<JsonValue>) -> (Seq<char>, Seq<(Seq<char>, BindView)>)
    decreases docs.len(),
{
    if docs.len() == 0 {
        (Seq::empty(), Seq::empty())
    } else {
        let p = docs_upserts(docs.drop_last());
        let i = (docs.len() - 1) as nat;
        if docs.last() is Object {
            (p.0 + doc_sql(i), p.1 + doc_bindings(i, docs.last()))
        } else {
            p
        }
    }
}

/// The statement relating the endpoints of edge `i` of a batch.
pub open spec fn edge_sql(i: nat) -> Seq<char> {
    "RELATE $"@ + indexed_key('e', i, "_from"@) + " -> linked_to -> $"@ + indexed_key('e', i, "_to"@)
        + " SET created_at = time::now(), context_anchor = $"@ + indexed_key('e', i, "_an"@) + ";\n"@
}

/// The parameters of the statement for edge `i`.
pub open spec fn edge_bindings(i: nat, edge: JsonValue) -> Seq<(Seq<char>, BindView)> {
    seq![
        (indexed_key('e', i, "_from"@), BindView::Record(str_param(edge, "from"@, Seq::empty()))),
        (indexed_key('e', i, "_to"@), BindView::Record(str_param(edge, "to"@, Seq::empty()))),
        (indexed_key('e', i, "_an"@), BindView::Str(str_param(edge, "context_anchor"@, Seq::empty()))),
    ]
}

/// Whether edge `i` is related: it is an object whose endpoints are record
/// identifiers (`ids_ok[i]`).
pub open spec fn edge_kept(edges: Seq<JsonValue>, ids_ok: Seq<bool>, i: int) -> bool {
    edges[i] is Object && i < ids_ok.len() && ids_ok[i]
}

/// The relations of a batch of edges: one per edge that is kept.
pub open spec fn edges_relates(edges: Seq<JsonValue>, ids_ok: Seq<bool>) -> (Seq<char>, Seq<(Seq<char>, BindView)>)
    decreases edges.len(),
{
    if edges.len() == 0 {
        (Seq::empty(), Seq::empty())
    } else {
        let p = edges_relates(edges.drop_last(), ids_ok);
        let i = edges.len() - 1;
        if edge_kept(edges, ids_ok, i) {
            (p.0 + edge_sql(i as nat), p.1 + edge_bindings(i as nat, edges.last()))
        } else {
            p
        }
    }
}

/// The array parameter `key`, or no items.
pub open spec fn param_array(params: JsonValue, key: Seq<char>) -> Seq<JsonValue> {
    match json_array(json_get(params, key)) {
        Some(a) => a,
        None => Seq::empty(),
    }
}

/// The transaction applying a batch of changes, then reporting its size.
pub open spec fn push_changes_view(params: JsonValue, ids_ok: Seq<bool>) -> (Seq<char>, Seq<(Seq<char>, BindView)>) {
    let docs = param_array(params, "documents"@);
    let edges = param_array(params, "edges"@);
    let d = docs_upserts(docs);
    let e = edges_relates(edges, ids_ok);
    (
        "BEGIN TRANSACTION;\n"@ + d.0 + e.0 + "COMMIT TRANSACTION;\n"@
            + "SELECT { documents: $documents_count, edges: $edges_count } AS summary;\n"@,
        d.1 + e.1 + seq![
            ("documents_count"@, BindView::Int(docs.len() as i64)),
            ("edges_count"@, BindView::Int(edges.len() as i64)),
        ],
    )
}

fn indexed_key_exec(prefix: char, i: usize, suffix: &str) -> (k: String)
    ensures
        k@ == indexed_key(prefix, i as nat, suffix@),
{
    let mut k = String::new();
    push_char(&mut k, prefix);
    push_decimal(&mut k, i as u64);
    k.append(suffix);
    k
}

/// The array parameter `key`, or no items.
fn param_array_exec<'a>(params: &'a JsonValue, key: &str) -> (a: Option<&'a Vec<JsonValue>>)
    ensures
        match a {
            Some(v) => v@ == param_array(*params, key@),
            None => param_array(*params, key@) == Seq::<JsonValue>::empty(),
        },
{
    match params.get(key) {
        Some(v) => v.as_array(),
        None => None,
    }
}

/// The endpoints of each edge of a batch, for checking that they are record identifiers.
pub fn push_changes_edge_endpoints(params: &JsonValue) -> (r: Vec<(String, String)>)
    ensures
        r@.len() == param_array(*params, "edges"@).len(),
        forall|i: int|
            0 <= i < r@.len() ==> #[trigger] r@[i].0@ == str_param(param_array(*params, "edges"@)[i], "from"@, Seq::empty())
                && r@[i].1@ == str_param(param_array(*params, "edges"@)[i], "to"@, Seq::empty()),
{
    proof {
        reveal_strlit("");
        assert(""@ =~= Seq::<char>::empty());
    }
    let mut r: Vec<(String, String)> = Vec::new();
    match param_array_exec(params, "edges") {
        None => r,
        Some(edges) => {
            let n: usize = edges.len();
            let mut i: usize = 0;
            while i < n
                invariant
                    n == edges@.len(),
                    edges@ == param_array(*params, "edges"@),
                    ""@ == Seq::<char>::empty(),
                    i <= n,
                    r@.len() == i,
                    forall|j: int|
                        0 <= j < i ==> #[trigger] r@[j].0@ == str_param(edges@[j], "from"@, Seq::empty())
                            && r@[j].1@ == str_param(edges@[j], "to"@, Seq::empty()),
                decreases n - i,
            {
                let from = str_param_exec(&edges[i], "from", "");
                let to = str_param_exec(&edges[i], "to", "");
                r.push((String::from_str(from), String::from_str(to)));
                i = i + 1;
            }
            r
        },
    }
}

} // verus!

verus! {

fn append_doc(q: &mut DbQuery, i: usize, doc: &JsonValue)
    ensures
        query_view(*final(q)) == (query_view(*old(q)).0 + doc_sql(i as nat), query_view(*old(q)).1 + doc_bindings(i as nat, *doc)),
{
    proof {
        reveal_strlit("");
        assert(""@ =~= Seq::<char>::empty());
    }
    let ghost q0 = query_view(*q);
    let sp = str_param_exec(doc, "storage_path", "");
    let fnm = str_param_exec(doc, "filename", "");
    let mime = str_param_exec(doc, "mime_type", "application/octet-stream");
    let size: i64 = match doc.get("file_size") {
        Some(v) => match v.as_i64() {
            Some(n) => n,
            None => 0,
        },
        None => 0,
    };
    let k_sp = indexed_key_exec('d', i, "_sp");
    let k_fn = indexed_key_exec('d', i, "_fn");
    let k_mi = indexed_key_exec('d', i, "_mi");
    let k_sz = indexed_key_exec('d', i, "_sz");
    let mut s = String::from_str("UPSERT document_meta SET filename = $");
    s.append(k_fn.as_str());
    s.append(", file_size = $");
    s.append(k_sz.as_str());
    s.append(", storage_path = $");
    s.append(k_sp.as_str());
    s.append(", mime_type = $");
    s.append(k_mi.as_str());
    s.append(", last_modified = time::now() WHERE storage_path = $");
    s.append(k_sp.as_str());
    s.append(";\n");
    assert(s@ =~= doc_sql(i as nat));
    q.push_sql(s.as_str());
    q.bind(k_sp.as_str(), BindValue::Str(String::from_str(sp)));
    q.bind(k_fn.as_str(), BindValue::Str(String::from_str(fnm)));
    q.bind(k_mi.as_str(), BindValue::Str(String::from_str(mime)));
    q.bind(k_sz.as_str(), BindValue::Int(size));
    assert(query_view(*q).1 =~= q0.1 + doc_bindings(i as nat, *doc));
}

fn append_edge(q: &mut DbQuery, i: usize, edge: &JsonValue)
    ensures
        query_view(*final(q)) == (query_view(*old(q)).0 + edge_sql(i as nat), query_view(*old(q)).1 + edge_bindings(i as nat, *edge)),
{
    proof {
        reveal_strlit("");
        assert(""@ =~= Seq::<char>::empty());
    }
    let ghost q0 = query_view(*q);
    let from = str_param_exec(edge, "from", "");
    let to = str_param_exec(edge, "to", "");
    let anchor = str_param_exec(edge, "context_anchor", "");
    let k_from = indexed_key_exec('e', i, "_from");
    let k_to = indexed_key_exec('e', i, "_to");
    let k_an = indexed_key_exec('e', i, "_an");
    let mut s = String::from_str("RELATE $");
    s.append(k_from.as_str());
    s.append(" -> linked_to -> $");
    s.append(k_to.as_str());
    s.append(" SET created_at = time::now(), context_anchor = $");
    s.append(k_an.as_str());
    s.append(";\n");
    assert(s@ =~= edge_sql(i as nat));
    q.push_sql(s.as_str());
    q.bind(k_from.as_str(), BindValue::Record(String::from_str(from)));
    q.bind(k_to.as_str(), BindValue::Record(String::from_str(to)));
    q.bind(k_an.as_str(), BindValue::Str(String::from_str(anchor)));
    assert(query_view(*q).1 =~= q0.1 + edge_bindings(i as nat, *edge));
}

/// The transaction applying a batch of document upserts and edges. `ids_ok[i]`
/// tells whether both endpoints of edge `i` are record identifiers; edges that
/// are not objects or whose endpoints are not are left out.
pub fn push_changes_query(params: &JsonValue, ids_ok: &Vec<bool>) -> (q: DbQuery)
    ensures
        query_view(q) == push_changes_view(*params, ids_ok@),
{
    let no_docs: Vec<JsonValue> = Vec::new();
    let no_edges: Vec<JsonValue> = Vec::new();
    let docs: &Vec<JsonValue> = match param_array_exec(params, "documents") {
        Some(d) => d,
        None => &no_docs,
    };
    let edges: &Vec<JsonValue> = match param_array_exec(params, "edges") {
        Some(e) => e,
        None => &no_edges,
    };
    assert(docs@ == param_array(*params, "documents"@));
    assert(edges@ == param_array(*params, "edges"@));
    let mut q = DbQuery::new("BEGIN TRANSACTION;\n");
    let nd: usize = docs.len();
    let mut i: usize = 0;
    assert(docs@.subrange(0, 0) =~= Seq::<JsonValue>::empty());
    while i < nd
        invariant
            nd == docs@.len(),
            i <= nd,
            query_view(q) == (
                "BEGIN TRANSACTION;\n"@ + docs_upserts(docs@.subrange(0, i as int)).0,
                docs_upserts(docs@.subrange(0, i as int)).1,
            ),
        decreases nd - i,
    {
        let ghost sub = docs@.subrange(0, i + 1);
        assert(sub.drop_last() =~= docs@.subrange(0, i as int));
        assert(sub.last() == docs@[i as int]);
        match &docs[i] {
            JsonValue::Object(_) => {
                append_doc(&mut q, i, &docs[i]);
                assert(query_view(q).0 =~= "BEGIN TRANSACTION;\n"@ + docs_upserts(sub).0);
            },
            _ => {},
        }
        i = i + 1;
    }
    assert(docs@.subrange(0, nd as int) =~= docs@);
    let ghost dpart = docs_upserts(docs@);
    let ne: usize = edges.len();
    let mut j: usize = 0;
    assert(edges@.subrange(0, 0) =~= Seq::<JsonValue>::empty());
    while j < ne
        invariant
            ne == edges@.len(),
            j <= ne,
            query_view(q) == (
                "BEGIN TRANSACTION;\n"@ + dpart.0 + edges_relates(edges@.subrange(0, j as int), ids_ok@).0,
                dpart.1 + edges_relates(edges@.subrange(0, j as int), ids_ok@).1,
            ),
        decreases ne - j,
    {
        let ghost sub = edges@.subrange(0, j + 1);
        assert(sub.drop_last() =~= edges@.subrange(0, j as int));
        assert(sub.last() == edges@[j as int]);
        assert(edge_kept(sub, ids_ok@, j as int) == edge_kept(edges@, ids_ok@, j as int));
        let is_object = match &edges[j] {
            JsonValue::Object(_) => true,
            _ => false,
        };
        if is_object && j < ids_ok.len() && ids_ok[j] {
            append_edge(&mut q, j, &edges[j]);
            assert(query_view(q).0 =~= "BEGIN TRANSACTION;\n"@ + dpart.0 + edges_relates(sub, ids_ok@).0);
            assert(query_view(q).1 =~= dpart.1 + edges_relates(sub, ids_ok@).1);
        }
        j = j + 1;
    }
    assert(edges@.subrange(0, ne as int) =~= edges@);
    q.push_sql("COMMIT TRANSACTION;\n");
    q.push_sql("SELECT { documents: $documents_count, edges: $edges_count } AS summary;\n");
    q.bind("documents_count", BindValue::Int(nd as i64));
    q.bind("edges_count", BindValue::Int(ne as i64));
    let ghost expected = push_changes_view(*params, ids_ok@);
    assert(query_view(q).0 =~= expected.0);
    assert(query_view(q).1 =~= expected.1);
    q
}

/// The summary of an applied batch: how many documents and edges it carried,
/// the sizes that the transaction reports.
pub open spec fn applied_summary(params: JsonValue) -> JsonView {
    jobject(
        seq![
            ("documents"@, JsonView::Number(JsonNumber::PosInt(param_array(params, "documents"@).len() as u64))),
            ("edges"@, JsonView::Number(JsonNumber::PosInt(param_array(params, "edges"@).len() as u64))),
        ],
    )
}

/// The answer to a batch push, given whether its transaction committed: the
/// batch's summary under `applied`, or the database failure (the batch is one
/// transaction, so nothing of it was applied).
pub open spec fn push_changes_answer(id: Seq<char>, params: JsonValue, outcome: Result<(), Seq<char>>) -> ResponseView {
    match outcome {
        Ok(_) => ok_view(id, single("applied"@, JsonView::Array(seq![applied_summary(params)]))),
        Err(d) => db_error_view(id, d),
    }
}

/// The answer to a batch push, given the outcome of running the transaction
/// of `push_changes_query`.
pub fn push_changes_response(id: String, params: &JsonValue, outcome: Result<(), String>) -> (r: RpcResponse)
    ensures
        response_view(r) == push_changes_answer(
            id@,
            *params,
            match outcome { Ok(_) => Ok(()), Err(d) => Err(d@) },
        ),
{
    match outcome {
        Err(d) => db_error(id, d),
        Ok(()) => {
            let nd: usize = match param_array_exec(params, "documents") {
                Some(d) => d.len(),
                None => 0,
            };
            let ne: usize = match param_array_exec(params, "edges") {
                Some(e) => e.len(),
                None => 0,
            };
            let mut b = ObjectBuilder::new();
            b.add("documents", ju64(nd as u64));
            b.add("edges", ju64(ne as u64));
            assert(b.view() =~= applied_summary(*params)->Object_0);
            let summary = b.build();
            let mut items: Vec<JsonValue> = Vec::new();
            items.push(summary);
            assert(jview(summary) == applied_summary(*params));
            assert(items@.drop_last() =~= Seq::<JsonValue>::empty());
            assert(jviews(items@.drop_last()) =~= Seq::<JsonView>::empty());
            assert(items@.last() == summary);
            assert(jviews(items@) =~= seq![applied_summary(*params)]);
            let result = single_member("applied", JsonValue::Array(items));
            ok_response(id, result)
        },
    }
}

/// The sizes a committed batch is answered with are those its transaction
/// binds as `documents_count` and `edges_count`.
pub proof fn law_push_answer_reports_batch_size(id: Seq<char>, params: JsonValue, ids_ok: Seq<bool>)
    ensures
        push_changes_answer(id, params, Ok(())) == ok_view(
            id,
            single("applied"@, JsonView::Array(seq![applied_summary(params)])),
        ),
        ({
            let b = push_changes_view(params, ids_ok).1;
            &&& b[b.len() - 2] == ("documents_count"@, BindView::Int(param_array(params, "documents"@).len() as i64))
            &&& b[b.len() - 1] == ("edges_count"@, BindView::Int(param_array(params, "edges"@).len() as i64))
        }),
        applied_summary(params) == jobject(
            seq![
                ("documents"@, JsonView::Number(JsonNumber::PosInt(param_array(params, "documents"@).len() as u64))),
                ("edges"@, JsonView::Number(JsonNumber::PosInt(param_array(params, "edges"@).len() as u64))),
            ],
        ),
{
}

} // verus!

verus! {

use crate::json::lemma_jget_jput;

/// At most 500 unread mails are listed.
pub proof fn law_unread_limit_at_most_500(params: JsonValue)
    ensures
        spec_unread_limit(params) <= 500,
{
}

/// A remote token is valid for at most 30 minutes.
pub proof fn law_token_lifetime_at_most_30_minutes(params: JsonValue)
    ensures
        spec_token_ttl(params) <= 1800,
{
}

/// A mail row listed to clients carries `e2ee_protected`, telling whether the
/// row was marked as end-to-end encrypted.
pub proof fn law_listed_mail_reports_protection(ms: Seq<(Seq<char>, JsonView)>, key: Option<Seq<u8>>)
    ensures
        jget(mail_members_view(ms, key), "e2ee_protected"@) == Some(JsonView::Bool(members_e2ee(ms))),
{
    let e2ee = members_e2ee(ms);
    let with_text = put_body(ms, jstring(jget(ms, "body_text"@)), "body_text_plain"@, "body_text_raw"@, key, e2ee);
    let with_html = put_body(with_text, jstring(jget(ms, "body_html"@)), "body_html_plain"@, "body_html_raw"@, key, e2ee);
    lemma_jget_jput(with_html, "e2ee_protected"@, JsonView::Bool(e2ee), "e2ee_protected"@);
}

/// What the node stores for an encrypted mail reads back: when a row is marked
/// end-to-end encrypted and its stored text body decrypts under the engine's key,
/// the listed row carries the plaintext under `body_text_plain` and the stored
/// text under `body_text_raw`.
pub proof fn law_listed_mail_exposes_plaintext(ms: Seq<(Seq<char>, JsonView)>, k: Seq<u8>, stored: Seq<char>, plain: Seq<char>)
    requires
        members_e2ee(ms),
        jget(ms, "body_text"@) == Some(JsonView::Str(stored)),
        spec_decrypt_field(stored, k) == Ok::<Seq<char>, CryptoError>(plain),
    ensures
        jget(mail_members_view(ms, Some(k)), "body_text_plain"@) == Some(JsonView::Str(plain)),
        jget(mail_members_view(ms, Some(k)), "body_text_raw"@) == Some(JsonView::Str(stored)),
{
    reveal_strlit("body_text_plain");
    reveal_strlit("body_text_raw");
    reveal_strlit("body_html_plain");
    reveal_strlit("body_html_raw");
    reveal_strlit("e2ee_protected");
    assert("body_html_plain"@[5] != "body_text_plain"@[5]);
    assert("body_html_raw"@[5] != "body_text_raw"@[5]);
    assert("body_html_plain"@ != "body_text_plain"@);
    assert("body_html_raw"@ != "body_text_raw"@);
    assert("body_html_plain"@ != "body_text_raw"@);
    assert("body_html_raw"@ != "body_text_plain"@);
    assert("e2ee_protected"@ != "body_text_plain"@);
    assert("e2ee_protected"@ != "body_text_raw"@);
    assert("body_text_raw"@.len() != "body_text_plain"@.len());
    let key = Some(k);
    let m1 = jput(ms, "body_text_plain"@, JsonView::Str(plain));
    let with_text = jput(m1, "body_text_raw"@, JsonView::Str(stored));
    assert(with_text == put_body(ms, jstring(jget(ms, "body_text"@)), "body_text_plain"@, "body_text_raw"@, key, true));
    let raw_html = jstring(jget(ms, "body_html"@));
    let with_html = put_body(with_text, raw_html, "body_html_plain"@, "body_html_raw"@, key, true);
    lemma_jget_jput(ms, "body_text_plain"@, JsonView::Str(plain), "body_text_plain"@);
    lemma_jget_jput(m1, "body_text_raw"@, JsonView::Str(stored), "body_text_plain"@);
    lemma_jget_jput(m1, "body_text_raw"@, JsonView::Str(stored), "body_text_raw"@);
    match raw_html {
        Some(r) => {
            let h1 = match spec_decrypt_field(r, k) {
                Ok(p) => jput(with_text, "body_html_plain"@, JsonView::Str(p)),
                Err(_) => with_text,
            };
            match spec_decrypt_field(r, k) {
                Ok(p) => {
                    lemma_jget_jput(with_text, "body_html_plain"@, JsonView::Str(p), "body_text_plain"@);
                    lemma_jget_jput(with_text, "body_html_plain"@, JsonView::Str(p), "body_text_raw"@);
                },
                Err(_) => {},
            }
            lemma_jget_jput(h1, "body_html_raw"@, JsonView::Str(r), "body_text_plain"@);
            lemma_jget_jput(h1, "body_html_raw"@, JsonView::Str(r), "body_text_raw"@);
        },
        None => {},
    }
    assert(mail_members_view(ms, key) == jput(with_html, "e2ee_protected"@, JsonView::Bool(true)));
    lemma_jget_jput(with_html, "e2ee_protected"@, JsonView::Bool(true), "body_text_plain"@);
    lemma_jget_jput(with_html, "e2ee_protected"@, JsonView::Bool(true), "body_text_raw"@);
}

/// The last component of a path holds no separator.
pub proof fn law_basename_has_no_separator(path: Seq<char>)
    ensures
        forall|i: int| 0 <= i < spec_basename(path).len() ==> spec_basename(path)[i] != '/' && spec_basename(path)[i] != '\\',
    decreases path.len(),
{
    lemma_last_separator(path);
    if path.len() > 0 && !(path.last() == '/' || path.last() == '\\') {
        law_basename_has_no_separator(path.drop_last());
        lemma_last_separator(path.drop_last());
        let b = spec_basename(path);
        let b0 = spec_basename(path.drop_last());
        assert(b =~= b0.push(path.last()));
    }
}

} // verus!

verus! {

use crate::lok::DocumentMetaExtract;
use crate::queue::worker::trim_quotes;
use crate::json::{jopt_str, opt_string_json};

pub const LINK_DOCUMENT_SQL: &'static str = "\nRELATE $from -> linked_to -> $to SET created_at = time::now(), context_anchor = $anchor;\n";

/// The file name reported for an opened document: the `filename` parameter,
/// else the last component of the path.
pub open spec fn opened_filename(params: JsonValue, path: Seq<char>) -> Seq<char> {
    str_param(params, "filename"@, spec_basename(path))
}

/// The link requested with an opened document, when the request names a
/// `link` with `from` and `context_anchor` and the document has a record:
/// the source record, the document's record (without quotes) and the anchor.
pub open spec fn spec_document_link(params: JsonValue, record_id: Option<Seq<char>>) -> Option<(Seq<char>, Seq<char>, Seq<char>)> {
    match (json_get(params, "link"@), record_id) {
        (Some(link), Some(doc)) => match (json_str(json_get(link, "from"@)), json_str(json_get(link, "context_anchor"@))) {
            (Some(from), Some(anchor)) => Some((from, trim_quotes(doc), anchor)),
            _ => None,
        },
        _ => None,
    }
}

/// The link requested with an opened document, if any.
pub fn document_link(params: &JsonValue, record_id: &Option<String>) -> (l: Option<(String, String, String)>)
    ensures
        match l {
            Some((f, t, a)) => spec_document_link(*params, opt_string(*record_id)) == Some((f@, t@, a@)),
            None => spec_document_link(*params, opt_string(*record_id)) is None,
        },
{
    let link = match params.get("link") {
        Some(l) => l,
        None => return None,
    };
    let doc = match record_id {
        Some(d) => d,
        None => return None,
    };
    let from = match get_str(link, "from") {
        Some(f) => f,
        None => return None,
    };
    let anchor = match get_str(link, "context_anchor") {
        Some(a) => a,
        None => return None,
    };
    Some((String::from_str(from), crate::queue::worker::trim_quote_chars(doc.as_str()), String::from_str(anchor)))
}

/// The query relating a source record to an opened document.
pub fn link_document_query(from: String, to: String, anchor: String) -> (q: DbQuery)
    ensures
        query_view(q) == (
            LINK_DOCUMENT_SQL@,
            seq![("from"@, BindView::Record(from@)), ("to"@, BindView::Record(to@)), ("anchor"@, BindView::Str(anchor@))],
        ),
{
    let ghost expected = seq![("from"@, BindView::Record(from@)), ("to"@, BindView::Record(to@)), ("anchor"@, BindView::Str(anchor@))];
    let mut q = DbQuery::new(LINK_DOCUMENT_SQL);
    q.bind("from", BindValue::Record(from));
    q.bind("to", BindValue::Record(to));
    q.bind("anchor", BindValue::Str(anchor));
    assert(query_view(q).1 =~= expected);
    q
}

/// The answer describing an opened document.
pub open spec fn opened_document_view(filename: Seq<char>, m: DocumentMetaExtract, linked: bool) -> JsonView {
    jobject(
        seq![
            (
                "meta"@,
                jobject(
                    seq![
                        ("id"@, jopt_str(opt_string(m.record_id))),
                        ("filename"@, JsonView::Str(filename)),
                        ("storage_path"@, JsonView::Str(m.storage_path@)),
                        ("mime_type"@, JsonView::Str(m.mime_type@)),
                        ("file_size"@, JsonView::Number(JsonNumber::PosInt(m.file_size))),
                    ],
                ),
            ),
            (
                "lok"@,
                jobject(
                    seq![
                        ("available"@, JsonView::Bool(m.lok_available)),
                        ("parts"@, JsonView::Number(i64_number(m.parts as i64))),
                        ("structure_hash"@, JsonView::Str(m.structure_hash@)),
                    ],
                ),
            ),
            ("is_graph_enhanced"@, JsonView::Bool(m.is_graph_enhanced)),
            ("linked_to_inserted"@, JsonView::Bool(linked)),
        ],
    )
}

/// The answer describing a document opened in place: its metadata under the
/// reported file name, and whether a link was inserted.
pub fn opened_document_response(id: String, params: &JsonValue, meta: DocumentMetaExtract, linked: bool) -> (r: RpcResponse)
    ensures
        response_view(r) == ok_view(
            id@,
            opened_document_view(opened_filename(*params, meta.storage_path@), meta, linked),
        ),
{
    let ghost m0 = meta;
    let base = PathLike::basename(meta.storage_path.as_str());
    let filename = match get_str(params, "filename") {
        Some(f) => String::from_str(f),
        None => base,
    };
    let ghost fv = filename@;
    assert(fv == opened_filename(*params, meta.storage_path@));
    let mut m = ObjectBuilder::new();
    m.add("id", opt_string_json(meta.record_id));
    m.add("filename", JsonValue::String(filename));
    m.add("storage_path", JsonValue::String(meta.storage_path));
    m.add("mime_type", JsonValue::String(meta.mime_type));
    m.add("file_size", ju64(meta.file_size));
    let ghost mv = m.view();
    let mut l = ObjectBuilder::new();
    l.add("available", JsonValue::Bool(meta.lok_available));
    l.add("parts", ji64(meta.parts as i64));
    l.add("structure_hash", JsonValue::String(meta.structure_hash));
    let ghost lv = l.view();
    let mut top = ObjectBuilder::new();
    top.add("meta", m.build());
    top.add("lok", l.build());
    top.add("is_graph_enhanced", JsonValue::Bool(meta.is_graph_enhanced));
    top.add("linked_to_inserted", JsonValue::Bool(linked));
    let ghost expected = opened_document_view(fv, m0, linked);
    assert(mv =~= expected->Object_0[0].1->Object_0);
    assert(lv =~= expected->Object_0[1].1->Object_0);
    assert(top.view() =~= expected->Object_0);
    ok_response(id, top.build())
}

/// The answer when a document could not be read or stored: code -32000,
/// `lok_or_db_error`, with the detail.
pub fn document_error(id: String, detail: String) -> (r: RpcResponse)
    ensures
        response_view(r) == error_view(id@, SERVER_ERROR, "lok_or_db_error"@, Some(single("detail"@, JsonView::Str(detail@)))),
{
    let data = single_member("detail", JsonValue::String(detail));
    error_response(id, SERVER_ERROR, "lok_or_db_error", Some(data))
}

} // verus!

verus! {

use crate::orchestrator::{bound_value, lemma_bound_value_at};

/// The text member `key` of a JSON object, or nothing.
pub open spec fn text_member(v: JsonValue, key: Seq<char>) -> Seq<char> {
    match json_get(v, key) {
        Some(JsonValue::String(s)) => s@,
        _ => Seq::empty(),
    }
}

/// An ingested mail is stored under the request's own fields: its message id,
/// subject and received date are the request's text parameters of those
/// names (empty when absent), and its bodies are the sealed texts.
pub proof fn law_ingest_stores_request_fields(params: JsonValue, sealed_text: Seq<char>, sealed_html: Seq<char>)
    ensures
        ({
            let b = ingest_query_view(params, sealed_text, sealed_html).1;
            &&& bound_value(b, "message_id"@) == Some(BindView::Str(text_member(params, "message_id"@)))
            &&& bound_value(b, "subject"@) == Some(BindView::Str(text_member(params, "subject"@)))
            &&& bound_value(b, "date_received"@) == Some(BindView::Str(text_member(params, "date_received"@)))
            &&& bound_value(b, "body_text"@) == Some(BindView::Str(sealed_text))
            &&& bound_value(b, "body_html"@) == Some(BindView::Str(sealed_html))
            &&& bound_value(b, "is_read"@) == Some(BindView::Bool(json_get(params, "is_read"@) == Some(JsonValue::Bool(true))))
            &&& bound_value(b, "encryption_metadata"@) == Some(BindView::Json(ingest_metadata()))
        }),
{
    reveal_with_fuel(bound_value, 10);
    reveal_strlit("is_read");
    reveal_strlit("size");
    reveal_strlit("encryption_metadata");
    reveal_strlit("message_id");
    reveal_strlit("subject");
    reveal_strlit("body_text");
    reveal_strlit("body_html");
    reveal_strlit("date_received");
    let b = ingest_query_view(params, sealed_text, sealed_html).1;
    assert("body_text"@[5] != "body_html"@[5]);
    assert("is_read"@[0] != "subject"@[0]);
    assert(b.drop_first()[0] == b[1]);
    assert(b.drop_first().drop_first()[0] == b[2]);
    assert(b.drop_first().drop_first().drop_first()[0] == b[3]);
    assert(b.drop_first().drop_first().drop_first().drop_first()[0] == b[4]);
    assert(b.drop_first().drop_first().drop_first().drop_first().drop_first()[0] == b[5]);
    assert(b.drop_first().drop_first().drop_first().drop_first().drop_first().drop_first()[0] == b[6]);
    assert(b.drop_first().drop_first().drop_first().drop_first().drop_first().drop_first().drop_first()[0] == b[7]);
    assert(str_param(params, "message_id"@, Seq::empty()) == text_member(params, "message_id"@));
    assert(str_param(params, "subject"@, Seq::empty()) == text_member(params, "subject"@));
    assert(str_param(params, "date_received"@, Seq::empty()) == text_member(params, "date_received"@));
    assert(b[5] == ("is_read"@, BindView::Bool(match json_bool(json_get(params, "is_read"@)) { Some(x) => x, None => false })));
    assert(bound_value(b, "is_read"@) == Some(b[5].1));
    let em = "encryption_metadata"@;
    assert(em.len() == 19);
    assert forall|k: int| 0 <= k < 7 implies #[trigger] b[k].0 != em by {
        assert(b[k].0.len() != em.len());
    }
    lemma_bound_value_at(b, em, 7);
}

/// The lifetime a local client asks for: `ttl_seconds` when it is an unsigned
/// number of at most 1800, 1800 when it asks for more, 900 when it asks for none.
pub open spec fn requested_lifetime(params: JsonValue) -> int {
    match json_get(params, "ttl_seconds"@) {
        Some(JsonValue::Number(JsonNumber::PosInt(t))) => if t <= 1800 { t as int } else { 1800 },
        _ => 900,
    }
}

/// A token granted to a local client expires the requested lifetime after it
/// was issued: the answer's `expires_unix` and the token's `exp` claim are both
/// `now` plus that lifetime, and its `iat` claim is `now`.
pub proof fn law_token_expires_after_requested_lifetime(
    id: Seq<char>,
    params: JsonValue,
    now: u64,
    nonce: Seq<char>,
    setting: Seq<char>,
)
    requires
        spec_parse_signing_key(setting) is Some,
        now + requested_lifetime(params) <= u64::MAX,
    ensures
        ({
            let exp = (now + requested_lifetime(params)) as u64;
            remote_token_view(id, ClientMode::Local, params, now, nonce, Some(setting)) == ok_view(
                id,
                jobject(
                    seq![
                        (
                            "token"@,
                            JsonView::Str(
                                spec_paseto_token(
                                    encode_utf8(token_payload_text(exp, now, nonce)),
                                    spec_parse_signing_key(setting)->0,
                                ),
                            ),
                        ),
                        ("expires_unix"@, JsonView::Number(JsonNumber::PosInt(exp))),
                    ],
                ),
            )
        }),
{
}

/// Every document object of a pushed batch is upserted under its own fields:
/// the binding `d<i>_fn` is its `filename`, `d<i>_sp` its `storage_path`
/// (both empty when absent) and `d<i>_mi` its `mime_type`
/// (`application/octet-stream` when absent).
pub proof fn law_pushed_documents_keep_their_fields(params: JsonValue, ids_ok: Seq<bool>, i: int)
    requires
        0 <= i < param_array(params, "documents"@).len(),
        param_array(params, "documents"@)[i] is Object,
    ensures
        ({
            let doc = param_array(params, "documents"@)[i];
            let b = push_changes_view(params, ids_ok).1;
            &&& b.contains((indexed_key('d', i as nat, "_fn"@), BindView::Str(text_member(doc, "filename"@))))
            &&& b.contains((indexed_key('d', i as nat, "_sp"@), BindView::Str(text_member(doc, "storage_path"@))))
            &&& b.contains(
                (
                    indexed_key('d', i as nat, "_mi"@),
                    BindView::Str(
                        match json_get(doc, "mime_type"@) {
                            Some(JsonValue::String(s)) => s@,
                            _ => "application/octet-stream"@,
                        },
                    ),
                ),
            )
            &&& b.contains(
                (
                    indexed_key('d', i as nat, "_sz"@),
                    BindView::Int(
                        match json_get(doc, "file_size"@) {
                            Some(JsonValue::Number(JsonNumber::PosInt(n))) => if n <= i64::MAX as u64 { n as i64 } else { 0 },
                            Some(JsonValue::Number(JsonNumber::NegInt(n))) => n,
                            _ => 0,
                        },
                    ),
                ),
            )
        }),
{
    let docs = param_array(params, "documents"@);
    let doc = docs[i];
    let d = docs_upserts(docs);
    let e = edges_relates(param_array(params, "edges"@), ids_ok);
    lemma_docs_upserts_contain(docs, i);
    let db = doc_bindings(i as nat, doc);
    assert(str_param(doc, "filename"@, Seq::empty()) == text_member(doc, "filename"@));
    assert(str_param(doc, "storage_path"@, Seq::empty()) == text_member(doc, "storage_path"@));
    let all = push_changes_view(params, ids_ok).1;
    let counts = seq![
        ("documents_count"@, BindView::Int(docs.len() as i64)),
        ("edges_count"@, BindView::Int(param_array(params, "edges"@).len() as i64)),
    ];
    assert(all == d.1 + e.1 + counts);
    assert forall|k: int| 0 <= k < 4 implies all.contains(#[trigger] db[k]) by {
        let j = choose|j: int| 0 <= j < d.1.len() && d.1[j] == db[k];
        assert(all[j] == d.1[j]);
    }
}

/// The bindings of each document object of a batch are among the batch's.
proof fn lemma_docs_upserts_contain(docs: Seq<JsonValue>, i: int)
    requires
        0 <= i < docs.len(),
        docs[i] is Object,
    ensures
        forall|k: int| 0 <= k < 4 ==> docs_upserts(docs).1.contains(#[trigger] doc_bindings(i as nat, docs[i])[k]),
    decreases docs.len(),
{
    let p = docs_upserts(docs.drop_last());
    let db = doc_bindings(i as nat, docs[i]);
    if i < docs.len() - 1 {
        assert(docs.drop_last()[i] == docs[i]);
        lemma_docs_upserts_contain(docs.drop_last(), i);
        assert forall|k: int| 0 <= k < 4 implies docs_upserts(docs).1.contains(#[trigger] db[k]) by {
            let j = choose|j: int| 0 <= j < p.1.len() && p.1[j] == db[k];
            if docs.last() is Object {
                assert(docs_upserts(docs).1[j] == p.1[j]);
            }
        }
    } else {
        assert forall|k: int| 0 <= k < 4 implies docs_upserts(docs).1.contains(#[trigger] db[k]) by {
            assert(docs_upserts(docs).1[p.1.len() + k] == db[k]);
        }
    }
}

/// Every edge of a pushed batch that is kept relates its own endpoints, in
/// its direction: `e<i>_from` is bound to its `from` record, `e<i>_to` to its
/// `to` record, and `e<i>_an` to its `context_anchor`.
pub proof fn law_pushed_edges_keep_their_direction(params: JsonValue, ids_ok: Seq<bool>, i: int)
    requires
        0 <= i < param_array(params, "edges"@).len(),
        edge_kept(param_array(params, "edges"@), ids_ok, i),
    ensures
        ({
            let edge = param_array(params, "edges"@)[i];
            let b = push_changes_view(params, ids_ok).1;
            &&& b.contains((indexed_key('e', i as nat, "_from"@), BindView::Record(text_member(edge, "from"@))))
            &&& b.contains((indexed_key('e', i as nat, "_to"@), BindView::Record(text_member(edge, "to"@))))
            &&& b.contains((indexed_key('e', i as nat, "_an"@), BindView::Str(text_member(edge, "context_anchor"@))))
        }),
{
    let edges = param_array(params, "edges"@);
    let edge = edges[i];
    let d = docs_upserts(param_array(params, "documents"@));
    let e = edges_relates(edges, ids_ok);
    lemma_edges_relates_contain(edges, ids_ok, i);
    let eb = edge_bindings(i as nat, edge);
    assert(str_param(edge, "from"@, Seq::empty()) == text_member(edge, "from"@));
    assert(str_param(edge, "to"@, Seq::empty()) == text_member(edge, "to"@));
    assert(str_param(edge, "context_anchor"@, Seq::empty()) == text_member(edge, "context_anchor"@));
    let all = push_changes_view(params, ids_ok).1;
    let counts = seq![
        ("documents_count"@, BindView::Int(param_array(params, "documents"@).len() as i64)),
        ("edges_count"@, BindView::Int(edges.len() as i64)),
    ];
    assert(all == d.1 + e.1 + counts);
    assert forall|k: int| 0 <= k < 3 implies all.contains(#[trigger] eb[k]) by {
        let j = choose|j: int| 0 <= j < e.1.len() && e.1[j] == eb[k];
        assert(all[d.1.len() + j] == e.1[j]);
    }
}

/// The bindings of each kept edge of a batch are among the batch's.
proof fn lemma_edges_relates_contain(edges: Seq<JsonValue>, ids_ok: Seq<bool>, i: int)
    requires
        0 <= i < edges.len(),
        edge_kept(edges, ids_ok, i),
    ensures
        forall|k: int| 0 <= k < 3 ==> edges_relates(edges, ids_ok).1.contains(#[trigger] edge_bindings(i as nat, edges[i])[k]),
    decreases edges.len(),
{
    let d = edges.drop_last();
    let p = edges_relates(d, ids_ok);
    let eb = edge_bindings(i as nat, edges[i]);
    if i < edges.len() - 1 {
        assert(d[i] == edges[i]);
        assert(edge_kept(d, ids_ok, i));
        lemma_edges_relates_contain(d, ids_ok, i);
        assert forall|k: int| 0 <= k < 3 implies edges_relates(edges, ids_ok).1.contains(#[trigger] eb[k]) by {
            let j = choose|j: int| 0 <= j < p.1.len() && p.1[j] == eb[k];
            assert(edges_relates(edges, ids_ok).1[j] == p.1[j]);
        }
    } else {
        assert forall|k: int| 0 <= k < 3 implies edges_relates(edges, ids_ok).1.contains(#[trigger] eb[k]) by {
            assert(edges_relates(edges, ids_ok).1[p.1.len() + k] == eb[k]);
        }
    }
}

/// The number of unread mails listed is the one asked for, at most 500, and
/// 50 when none is asked for.
pub proof fn law_unread_limit_follows_request(params: JsonValue)
    ensures
        spec_unread_limit(params) == match json_get(params, "limit"@) {
            Some(JsonValue::Number(JsonNumber::PosInt(n))) => if n <= 500 { n } else { 500 },
            _ => 50,
        },
{
}

} // verus!
