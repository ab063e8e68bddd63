use base64::Engine;
use ed25519_dalek::SigningKey;

use neqst_core::crypto::CryptoEngine;
use neqst_core::lok::build_document_meta;
use neqst_core::rpc::{document_error, document_link, link_document_query, opened_document_response};
use neqst_core::json::{JsonNumber, JsonValue};
use neqst_core::network::{verify_paseto_v4_public, ClientMode, PasetoClaims, PeerInfo};
use neqst_core::orchestrator::{BindValue, NodeHealthSnapshot};
use neqst_core::queue::OfficeTask;
use neqst_core::rpc::{
    agenda_query, build_node_status_result, decrypt_mail_item, generate_remote_token, ingest_mail_query,
    ingest_mail_query_with, list_peers_response, method_not_found, open_document_task, parse_error,
    pull_delta_query, pull_delta_response, push_changes_edge_endpoints, push_changes_query, push_changes_response,
    queue_unavailable,
    queued_response, remote_token_response, route, rows_response, token_payload, unread_mails_query,
    unread_mails_response, PathLike, RpcMethod, RpcRequest,
};

const KEY7_B64: &str = "BwcHBwcHBwcHBwcHBwcHBwcHBwcHBwcHBwcHBwcHBwc";

fn text(s: &str) -> JsonValue {
    JsonValue::String(s.to_string())
}

fn num(n: u64) -> JsonValue {
    JsonValue::Number(JsonNumber::PosInt(n))
}

fn obj(members: Vec<(&str, JsonValue)>) -> JsonValue {
    JsonValue::Object(members.into_iter().map(|(k, v)| (k.to_string(), v)).collect())
}

#[test]
fn methods_are_routed_by_name() {
    assert_eq!(route("pim:get_unread_mails"), Some(RpcMethod::GetUnreadMails));
    assert_eq!(route("pim:get_agenda"), Some(RpcMethod::GetAgenda));
    assert_eq!(route("pim:ingest_mail"), Some(RpcMethod::IngestMail));
    assert_eq!(route("doc:open_document"), Some(RpcMethod::OpenDocument));
    assert_eq!(route("sys:get_node_status"), Some(RpcMethod::GetNodeStatus));
    assert_eq!(route("sync:generate_remote_token"), Some(RpcMethod::GenerateRemoteToken));
    assert_eq!(route("sync:list_peers"), Some(RpcMethod::ListPeers));
    assert_eq!(route("sync:push_changes"), Some(RpcMethod::PushChanges));
    assert_eq!(route("sync:pull_delta"), Some(RpcMethod::PullDelta));
    assert_eq!(route("pim:unknown"), None);
}

#[test]
fn unknown_method_answer() {
    let r = method_not_found(RpcRequest { id: "1".to_string(), method: "x:y".to_string(), params: JsonValue::Null });
    assert_eq!(r.id, "1");
    assert!(r.result.is_none());
    let e = r.error.unwrap();
    assert_eq!(e.code, -32601);
    assert_eq!(e.message, "method_not_found");
    assert_eq!(e.data, Some(obj(vec![("method", text("x:y"))])));
}

#[test]
fn parse_error_answer() {
    let r = parse_error("expected value".to_string());
    assert_eq!(r.id, "invalid");
    let e = r.error.unwrap();
    assert_eq!(e.code, -32700);
    assert_eq!(e.message, "parse_error");
    assert_eq!(e.data, Some(obj(vec![("detail", text("expected value"))])));
}

#[test]
fn unread_mail_limits() {
    let limit_of = |params: JsonValue| match &unread_mails_query(&params).bindings[0].1 {
        BindValue::UInt(n) => *n,
        _ => panic!("limit expected"),
    };
    assert_eq!(limit_of(JsonValue::Null), 50);
    assert_eq!(limit_of(obj(vec![("limit", num(10))])), 10);
    assert_eq!(limit_of(obj(vec![("limit", num(600))])), 500);
    assert_eq!(limit_of(obj(vec![("limit", text("20"))])), 50);
    assert!(unread_mails_query(&JsonValue::Null).sql.ends_with("LIMIT $limit"));
}

#[test]
fn listed_mails_are_decrypted() {
    let crypto = CryptoEngine::from_env(Some(KEY7_B64)).unwrap();
    let stored = crypto.encrypt_field("hi there").unwrap();
    let row = obj(vec![
        ("id", text("mail:1")),
        ("body_text", text(&stored)),
        ("encryption_metadata", obj(vec![("e2ee", JsonValue::Bool(true))])),
    ]);
    let out = decrypt_mail_item(row, &crypto);
    assert_eq!(out.get("body_text_plain"), Some(&text("hi there")));
    assert_eq!(out.get("body_text_raw"), Some(&text(&stored)));
    assert_eq!(out.get("body_html_raw"), None);
    assert_eq!(out.get("e2ee_protected"), Some(&JsonValue::Bool(true)));

    let plain = obj(vec![("body_text", text("clear")), ("body_html", text("<b>clear</b>"))]);
    let out = decrypt_mail_item(plain, &crypto);
    assert_eq!(out.get("body_text_plain"), None);
    assert_eq!(out.get("body_text_raw"), Some(&text("clear")));
    assert_eq!(out.get("body_html_raw"), Some(&text("<b>clear</b>")));
    assert_eq!(out.get("e2ee_protected"), Some(&JsonValue::Bool(false)));

    assert_eq!(decrypt_mail_item(num(3), &crypto), num(3));

    let r = unread_mails_response("7".to_string(), &CryptoEngine::default(), Ok(vec![obj(vec![("body_text", text("a"))])]));
    let items = r.result.unwrap();
    match items.get("items") {
        Some(JsonValue::Array(v)) => {
            assert_eq!(v.len(), 1);
            assert_eq!(v[0].get("body_text_raw"), Some(&text("a")));
            assert_eq!(v[0].get("e2ee_protected"), Some(&JsonValue::Bool(false)));
        },
        _ => panic!("items expected"),
    }
}

#[test]
fn database_failures_are_reported() {
    let r = unread_mails_response("9".to_string(), &CryptoEngine::default(), Err("connection lost".to_string()));
    let e = r.error.unwrap();
    assert_eq!(e.code, -32000);
    assert_eq!(e.message, "db_error");
    assert_eq!(e.data, Some(obj(vec![("detail", text("connection lost"))])));
    let r = rows_response("9".to_string(), "items", Ok(vec![num(1)]));
    assert_eq!(r.result, Some(obj(vec![("items", JsonValue::Array(vec![num(1)]))])));
}

#[test]
fn agenda_needs_start_and_end() {
    let missing_start = agenda_query("a", &obj(vec![("end", text("e"))])).err().unwrap();
    assert_eq!(missing_start.error.unwrap().data, Some(obj(vec![("missing", text("start"))])));
    let missing_end = agenda_query("a", &obj(vec![("start", text("s"))])).err().unwrap();
    let e = missing_end.error.unwrap();
    assert_eq!(e.code, -32602);
    assert_eq!(e.message, "invalid_params");
    assert_eq!(e.data, Some(obj(vec![("missing", text("end"))])));
    let q = agenda_query("a", &obj(vec![("start", text("s")), ("end", text("e"))])).ok().unwrap();
    assert!(matches!(&q.bindings[..], [(a, BindValue::Str(s)), (b, BindValue::Str(e))] if a == "start" && s == "s" && b == "end" && e == "e"));
}

#[test]
fn ingest_requires_a_message_id() {
    let r = ingest_mail_query("i", &obj(vec![("subject", text("s"))]), &CryptoEngine::default()).err().unwrap();
    assert_eq!(r.error.unwrap().data, Some(obj(vec![("missing", text("message_id"))])));
}

#[test]
fn ingest_without_key_stores_nothing() {
    let params = obj(vec![
        ("message_id", text("<m1>")),
        ("subject", text("Hello")),
        ("body_text", text("plaintext")),
        ("size", num(1234)),
        ("is_read", JsonValue::Bool(true)),
    ]);
    let r = ingest_mail_query("i", &params, &CryptoEngine::default()).err().unwrap();
    assert_eq!(r.id, "i");
    assert!(r.result.is_none());
    let e = r.error.unwrap();
    assert_eq!(e.code, -32000);
    assert_eq!(e.message, "crypto_key_unavailable");
    assert_eq!(e.data, None);
}

#[test]
fn ingest_with_key_stores_encrypted_bodies() {
    let crypto = CryptoEngine::from_env(Some(KEY7_B64)).unwrap();
    let params = obj(vec![
        ("message_id", text("<m1>")),
        ("subject", text("Hello")),
        ("body_text", text("secret")),
        ("body_html", text("<p>secret</p>")),
        ("size", num(1234)),
        ("is_read", JsonValue::Bool(true)),
    ]);
    let q = ingest_mail_query("i", &params, &crypto).ok().unwrap();
    let names: Vec<&str> = q.bindings.iter().map(|(n, _)| n.as_str()).collect();
    assert_eq!(names, vec!["message_id", "subject", "body_text", "body_html", "date_received", "is_read", "size", "encryption_metadata"]);
    match (&q.bindings[2].1, &q.bindings[3].1) {
        (BindValue::Str(bt), BindValue::Str(bh)) => {
            assert_ne!(bt, "secret");
            assert_ne!(bh, "<p>secret</p>");
            assert_eq!(crypto.decrypt_field(bt).unwrap(), "secret");
            assert_eq!(crypto.decrypt_field(bh).unwrap(), "<p>secret</p>");
            let raw = base64::engine::general_purpose::STANDARD_NO_PAD.decode(bt).unwrap();
            assert_eq!(raw.len(), "secret".len() + 28);
        },
        _ => panic!("bodies expected"),
    }
    assert!(matches!(&q.bindings[1].1, BindValue::Str(s) if s == "Hello"));
    assert!(matches!(&q.bindings[5].1, BindValue::Bool(true)));
    assert!(matches!(&q.bindings[6].1, BindValue::Int(1234)));
    match &q.bindings[7].1 {
        BindValue::Json(m) => assert_eq!(
            m,
            &obj(vec![
                ("e2ee", JsonValue::Bool(true)),
                ("alg", text("chacha20poly1305")),
                ("encoding", text("b64")),
                ("v", num(1)),
            ])
        ),
        _ => panic!("metadata expected"),
    }
}

#[test]
fn ingest_refuses_when_a_body_does_not_encrypt() {
    let params = obj(vec![("message_id", text("<m1>")), ("body_text", text("secret"))]);
    let failed = ingest_mail_query_with("i", &params, true, None).err().unwrap();
    assert_eq!(failed.error.as_ref().unwrap().code, -32000);
    assert_eq!(failed.error.unwrap().message, "encrypt_failed");
    let half = ingest_mail_query_with(
        "i",
        &params,
        true,
        Some((Ok("c1".to_string()), Err(neqst_core::crypto::CryptoError::EncryptFailed))),
    )
    .err()
    .unwrap();
    assert_eq!(half.error.unwrap().message, "encrypt_failed");
    let ok = ingest_mail_query_with("i", &params, true, Some((Ok("c1".to_string()), Ok("c2".to_string())))).ok().unwrap();
    assert!(matches!(&ok.bindings[2].1, BindValue::Str(s) if s == "c1"));
    assert!(matches!(&ok.bindings[3].1, BindValue::Str(s) if s == "c2"));
    let no_key = ingest_mail_query_with("i", &params, false, None).err().unwrap();
    assert_eq!(no_key.error.unwrap().message, "crypto_key_unavailable");
    let no_id = ingest_mail_query_with("i", &JsonValue::Null, false, None).err().unwrap();
    assert_eq!(no_id.error.unwrap().message, "invalid_params");
}

#[test]
fn documents_are_queued() {
    let params = obj(vec![("path", text("relative/file.ods")), ("link", obj(vec![("from", text("mail:demo"))]))]);
    let env = open_document_task("d", "sess-1-0", "task-9-1".to_string(), &params, Some("{\"from\":\"mail:demo\"}".to_string()))
        .ok()
        .unwrap();
    assert_eq!(env.session_id, "sess-1-0");
    assert_eq!(env.task_id, "task-9-1");
    match env.task {
        OfficeTask::ProcessDocument { path, link_ctx } => {
            assert_eq!(path, "relative/file.ods");
            assert_eq!(link_ctx.as_deref(), Some("{\"from\":\"mail:demo\"}"));
        },
        _ => panic!("document task expected"),
    }
    let r = open_document_task("d", "s", "t".to_string(), &JsonValue::Null, None).err().unwrap();
    assert_eq!(r.error.unwrap().data, Some(obj(vec![("missing", text("path"))])));
    let ok = queued_response("d".to_string(), "task-9-1".to_string());
    assert_eq!(ok.result, Some(obj(vec![("status", text("queued")), ("task_id", text("task-9-1"))])));
    let e = queue_unavailable("d".to_string()).error.unwrap();
    assert_eq!((e.code, e.message.as_str(), e.data), (-32000, "queue_unavailable", None));
}

#[test]
fn node_status_report() {
    let h = NodeHealthSnapshot {
        db_status: "connected".to_string(),
        lok_status: "ready".to_string(),
        lok_version: "26.2.1".to_string(),
        crypto_status: "active".to_string(),
        queue_backlog: 2,
        active_peers: 1,
    };
    assert_eq!(
        build_node_status_result(h),
        obj(vec![
            ("db_status", text("connected")),
            ("lok_status", text("ready")),
            ("lok_version", text("26.2.1")),
            ("crypto_status", text("active")),
            ("queue_backlog", num(2)),
            ("active_peers", num(1)),
        ])
    );
}

#[test]
fn peers_are_listed() {
    let peers = vec![PeerInfo { addr: "1.2.3.4:55555".to_string(), mode: ClientMode::Remote, connected_at_unix: 1234567890 }];
    let r = list_peers_response("p".to_string(), &peers);
    assert_eq!(
        r.result,
        Some(obj(vec![(
            "peers",
            JsonValue::Array(vec![obj(vec![
                ("addr", text("1.2.3.4:55555")),
                ("mode", text("Remote")),
                ("connected_at_unix", num(1234567890)),
            ])])
        )]))
    );
}

#[test]
fn token_payload_text() {
    assert_eq!(token_payload(1900, 1000, "abc"), "{\"aud\":\"neqst-remote\",\"exp\":1900,\"iat\":1000,\"nonce\":\"abc\"}");
    assert_eq!(token_payload(0, 0, "a\"b\n"), "{\"aud\":\"neqst-remote\",\"exp\":0,\"iat\":0,\"nonce\":\"a\\\"b\\n\"}");
}

#[test]
fn remote_tokens_are_local_only() {
    let r = remote_token_response("t".to_string(), ClientMode::Remote, &JsonValue::Null, 1000, "n", None);
    let e = r.error.unwrap();
    assert_eq!((e.code, e.message.as_str()), (-32601, "method_not_available_remote"));
}

#[test]
fn remote_tokens_need_a_signing_key() {
    let r = generate_remote_token("t".to_string(), ClientMode::Local, &JsonValue::Null, 1000, None);
    let e = r.error.unwrap();
    assert_eq!(e.code, -32000);
    assert_eq!(e.message, "signing_key_unavailable");
    assert_eq!(e.data, Some(obj(vec![("expected_env", text("NEQST_MASTER_PRIVKEY_ED25519_B64"))])));
}

#[test]
fn generated_tokens_verify_and_expire() {
    let sk = SigningKey::from_bytes(&[11u8; 32]);
    let pk = sk.verifying_key().to_bytes();
    let setting = base64::engine::general_purpose::URL_SAFE_NO_PAD.encode(sk.to_bytes());
    let params = obj(vec![("ttl_seconds", num(5000))]);
    let r = generate_remote_token("t".to_string(), ClientMode::Local, &params, 1000, Some(&setting));
    let result = r.result.unwrap();
    assert_eq!(result.get("expires_unix"), Some(&num(2800)));
    let token = match result.get("token") {
        Some(JsonValue::String(t)) => t.clone(),
        _ => panic!("token expected"),
    };
    let claims = PasetoClaims { exp: 2800, iat: 1000, aud: "neqst-remote".to_string(), nonce: "n".to_string() };
    assert_eq!(verify_paseto_v4_public(&token, Some(&claims), &pk, 1500), Ok(()));
    let r = remote_token_response("t".to_string(), ClientMode::Local, &JsonValue::Null, 1000, "nonce", Some(&setting));
    assert_eq!(r.result.unwrap().get("expires_unix"), Some(&num(1900)));
}

#[test]
fn change_batches_become_one_transaction() {
    let params = obj(vec![
        (
            "documents",
            JsonValue::Array(vec![
                obj(vec![("storage_path", text("docs/a.ods")), ("filename", text("a.ods")), ("file_size", num(10))]),
                num(5),
            ]),
        ),
        (
            "edges",
            JsonValue::Array(vec![
                obj(vec![("from", text("mail:demo")), ("to", text("document_meta:xyz")), ("context_anchor", text("R1C1"))]),
                obj(vec![("from", text("bad")), ("to", text("x"))]),
            ]),
        ),
    ]);
    let ends = push_changes_edge_endpoints(&params);
    assert_eq!(ends, vec![("mail:demo".to_string(), "document_meta:xyz".to_string()), ("bad".to_string(), "x".to_string())]);
    let q = push_changes_query(&params, &vec![true, false]);
    assert_eq!(
        q.sql,
        "BEGIN TRANSACTION;\n\
         UPSERT document_meta SET filename = $d0_fn, file_size = $d0_sz, storage_path = $d0_sp, mime_type = $d0_mi, last_modified = time::now() WHERE storage_path = $d0_sp;\n\
         RELATE $e0_from -> linked_to -> $e0_to SET created_at = time::now(), context_anchor = $e0_an;\n\
         COMMIT TRANSACTION;\n\
         SELECT { documents: $documents_count, edges: $edges_count } AS summary;\n"
    );
    let names: Vec<&str> = q.bindings.iter().map(|(n, _)| n.as_str()).collect();
    assert_eq!(names, vec!["d0_sp", "d0_fn", "d0_mi", "d0_sz", "e0_from", "e0_to", "e0_an", "documents_count", "edges_count"]);
    assert!(matches!(&q.bindings[2].1, BindValue::Str(m) if m == "application/octet-stream"));
    assert!(matches!(&q.bindings[4].1, BindValue::Record(r) if r == "mail:demo"));
    assert!(matches!(&q.bindings[7].1, BindValue::Int(2)));
    assert!(matches!(&q.bindings[8].1, BindValue::Int(2)));
    let empty = push_changes_query(&JsonValue::Null, &vec![]);
    assert_eq!(empty.bindings.len(), 2);
}

#[test]
fn pushed_batch_is_answered_with_its_size() {
    let params = obj(vec![
        ("documents", JsonValue::Array(vec![obj(vec![("storage_path", text("docs/a.ods"))])])),
        ("edges", JsonValue::Array(vec![obj(vec![("from", text("mail:demo")), ("to", text("document_meta:xyz"))])])),
    ]);
    let r = push_changes_response("p".to_string(), &params, Ok(()));
    assert_eq!(r.id, "p");
    assert!(r.error.is_none());
    assert_eq!(
        r.result,
        Some(obj(vec![("applied", JsonValue::Array(vec![obj(vec![("documents", num(1)), ("edges", num(1))])]))]))
    );
    let none = push_changes_response("p".to_string(), &JsonValue::Null, Ok(()));
    assert_eq!(
        none.result,
        Some(obj(vec![("applied", JsonValue::Array(vec![obj(vec![("documents", num(0)), ("edges", num(0))])]))]))
    );
    let failed = push_changes_response("p".to_string(), &params, Err("conflict".to_string()));
    assert!(failed.result.is_none());
    let e = failed.error.unwrap();
    assert_eq!(e.code, -32000);
    assert_eq!(e.message, "db_error");
    assert_eq!(e.data, Some(obj(vec![("detail", text("conflict"))])));
}

#[test]
fn deltas_since_a_time() {
    let q = pull_delta_query(&JsonValue::Null);
    assert!(matches!(&q.bindings[..], [(n, BindValue::Str(s))] if n == "since" && s == "1970-01-01T00:00:00Z"));
    let q = pull_delta_query(&obj(vec![("since", text("2026-06-10T00:00:00Z"))]));
    assert!(matches!(&q.bindings[0].1, BindValue::Str(s) if s == "2026-06-10T00:00:00Z"));
    let r = pull_delta_response("p".to_string(), Ok((vec![num(1)], vec![])));
    assert_eq!(
        r.result,
        Some(obj(vec![("documents", JsonValue::Array(vec![num(1)])), ("edges", JsonValue::Array(vec![]))]))
    );
}

#[test]
fn basenames() {
    assert_eq!(PathLike::basename("relative/path/to/file.ods"), "file.ods");
    assert_eq!(PathLike::basename("C:\\docs\\file.ods"), "file.ods");
    assert_eq!(PathLike::basename("file.ods"), "file.ods");
    assert_eq!(PathLike::basename("dir/"), "");
}

#[test]
fn documents_opened_in_place() {
    let params = obj(vec![
        ("path", text("relative/path/to/file.ods")),
        ("link", obj(vec![("from", text("mail:demo")), ("context_anchor", text("sheet:cell=R1C1"))])),
    ]);
    let meta = build_document_meta(
        "relative/path/to/file.ods",
        "/w/relative/path/to/file.ods",
        10,
        Some(1),
        Some(b"x"),
        Some("\"document_meta:xyz\"".to_string()),
    );
    let link = document_link(&params, &meta.record_id).unwrap();
    assert_eq!(link, ("mail:demo".to_string(), "document_meta:xyz".to_string(), "sheet:cell=R1C1".to_string()));
    assert_eq!(document_link(&params, &None), None);
    assert_eq!(document_link(&obj(vec![("link", obj(vec![("from", text("a"))]))]), &meta.record_id), None);
    let q = link_document_query(link.0, link.1, link.2);
    assert!(matches!(&q.bindings[1].1, BindValue::Record(t) if t == "document_meta:xyz"));

    let r = opened_document_response("o".to_string(), &params, meta, true);
    let v = r.result.unwrap();
    assert_eq!(v.get("meta").and_then(|m| m.get("filename")), Some(&text("file.ods")));
    assert_eq!(v.get("meta").and_then(|m| m.get("id")), Some(&text("\"document_meta:xyz\"")));
    assert_eq!(v.get("lok").and_then(|m| m.get("available")), Some(&JsonValue::Bool(true)));
    assert_eq!(v.get("is_graph_enhanced"), Some(&JsonValue::Bool(true)));
    assert_eq!(v.get("linked_to_inserted"), Some(&JsonValue::Bool(true)));

    let named = obj(vec![("path", text("a/b.ods")), ("filename", text("custom.ods"))]);
    let meta = build_document_meta("a/b.ods", "/w/a/b.ods", 1, None, None, None);
    let v = opened_document_response("o".to_string(), &named, meta, false).result.unwrap();
    assert_eq!(v.get("meta").and_then(|m| m.get("filename")), Some(&text("custom.ods")));
    assert_eq!(v.get("meta").and_then(|m| m.get("id")), Some(&JsonValue::Null));

    let e = document_error("o".to_string(), "not found".to_string()).error.unwrap();
    assert_eq!((e.code, e.message.as_str()), (-32000, "lok_or_db_error"));
}
