use neqst_core::crypto::CryptoEngine;
use neqst_core::json::{JsonNumber, JsonValue};
use neqst_core::lok::DocumentMetaExtract;
use neqst_core::orchestrator::BindValue;
use neqst_core::queue::worker::{mail_percentage, trim_quote_chars, TaskRun, WorkerAction, WorkerEvent};
use neqst_core::queue::{new_session_id, new_task_id, progress_notification, OfficeTask, TaskEnvelope, TaskProgress};

fn text(s: &str) -> JsonValue {
    JsonValue::String(s.to_string())
}

fn obj(members: Vec<(&str, JsonValue)>) -> JsonValue {
    JsonValue::Object(members.into_iter().map(|(k, v)| (k.to_string(), v)).collect())
}

fn run(task: OfficeTask) -> TaskRun {
    TaskRun::new(TaskEnvelope { session_id: "sess-1-0".to_string(), task_id: "task-1-0".to_string(), task })
}

fn meta(record_id: Option<&str>) -> DocumentMetaExtract {
    DocumentMetaExtract {
        record_id: record_id.map(str::to_string),
        filename: "demo.ods".to_string(),
        file_size: 14,
        storage_path: "data/demo.ods".to_string(),
        mime_type: "application/vnd.oasis.opendocument.spreadsheet".to_string(),
        parts: 1,
        structure_hash: "abc".to_string(),
        is_graph_enhanced: true,
        lok_available: true,
    }
}

fn is_notice(a: &WorkerAction, expected: &TaskProgress) -> bool {
    match a {
        WorkerAction::Notify { progress, result: None } => format!("{:?}", progress) == format!("{:?}", expected),
        _ => false,
    }
}

#[test]
fn identifiers() {
    assert_eq!(new_task_id(1718000000, 0), "task-1718000000-0");
    assert_eq!(new_session_id(5, 42), "sess-5-42");
    assert_ne!(new_task_id(12, 3), new_task_id(1, 23));
    assert_ne!(new_task_id(7, 1), new_task_id(7, 2));
    assert_ne!(new_session_id(7, 1), new_task_id(7, 1));
}

#[test]
fn events_a_run_does_not_await_change_nothing() {
    let crypto = CryptoEngine::default();
    let pending = run(OfficeTask::NetworkSyncDelta { peer_id: "p".to_string() });
    let (same, actions) = pending.step(&crypto, WorkerEvent::QueryDone);
    assert!(actions.is_empty());
    assert!(!same.is_finished());
    let (started, actions) = same.step(&crypto, WorkerEvent::Start);
    assert!(!actions.is_empty());
    let (_, again) = started.step(&crypto, WorkerEvent::MailIdChecked(true));
    assert!(again.is_empty());
}

#[test]
fn mail_progress_percentages() {
    assert_eq!(mail_percentage(0, 4), 25);
    assert_eq!(mail_percentage(3, 4), 100);
    assert_eq!(mail_percentage(0, 0), 100);
    assert_eq!(mail_percentage(0, 3), 33);
    assert_eq!(mail_percentage(0, 300), 0);
    assert_eq!(mail_percentage(9, 3), 100);
}

#[test]
fn sync_delta_task_completes() {
    let crypto = CryptoEngine::default();
    let (r, acts) = run(OfficeTask::NetworkSyncDelta { peer_id: "sim-peer".to_string() }).step(&crypto, WorkerEvent::Start);
    assert!(r.is_finished());
    assert_eq!(r.task_id(), "task-1-0");
    assert_eq!(r.session_id(), "sess-1-0");
    assert_eq!(acts.len(), 4);
    assert!(is_notice(&acts[0], &TaskProgress::Started { task_id: "task-1-0".to_string() }));
    assert!(is_notice(
        &acts[1],
        &TaskProgress::Processing {
            task_id: "task-1-0".to_string(),
            percentage: 50,
            status_message: "🌐 Syncing delta for peer sim-peer".to_string()
        }
    ));
    assert!(is_notice(
        &acts[2],
        &TaskProgress::Completed { task_id: "task-1-0".to_string(), result_summary: "sync_delta_placeholder".to_string() }
    ));
    assert!(matches!(acts[3], WorkerAction::Finish(true)));
}

#[test]
fn bulk_encryption_needs_a_key() {
    let crypto = CryptoEngine::default();
    let (r, acts) = run(OfficeTask::BulkEncryptMails { mail_ids: vec!["mail:a".to_string()] }).step(&crypto, WorkerEvent::Start);
    assert!(r.is_finished());
    assert!(is_notice(
        &acts[1],
        &TaskProgress::Failed { task_id: "task-1-0".to_string(), error_message: "crypto_key_unavailable".to_string() }
    ));
    assert!(matches!(acts[2], WorkerAction::Finish(false)));
}

#[test]
fn bulk_encryption_encrypts_each_plain_mail() {
    let crypto = CryptoEngine::from_env(Some("BwcHBwcHBwcHBwcHBwcHBwcHBwcHBwcHBwcHBwcHBwc")).unwrap();
    let ids = vec!["mail:a".to_string(), "mail:b".to_string()];
    let (r, acts) = run(OfficeTask::BulkEncryptMails { mail_ids: ids }).step(&crypto, WorkerEvent::Start);
    assert!(is_notice(
        &acts[1],
        &TaskProgress::Processing {
            task_id: "task-1-0".to_string(),
            percentage: 50,
            status_message: "🔒 Encrypting mail mail:a".to_string()
        }
    ));
    assert!(matches!(&acts[2], WorkerAction::CheckRecordId { id } if id == "mail:a"));
    let (r, acts) = r.step(&crypto, WorkerEvent::MailIdChecked(true));
    match &acts[..] {
        [WorkerAction::RunQuery(q)] => {
            assert_eq!(q.sql, "SELECT body_text, body_html, encryption_metadata FROM $id LIMIT 1;");
            assert!(matches!(&q.bindings[0].1, BindValue::Record(s) if s == "mail:a"));
        },
        _ => panic!("select expected"),
    }
    let row = obj(vec![("body_text", text("hello")), ("body_html", text("<p>hello</p>"))]);
    let (r, acts) = r.step(&crypto, WorkerEvent::MailLoaded(Ok(vec![row])));
    match &acts[..] {
        [WorkerAction::RunQuery(q)] => {
            assert!(q.sql.starts_with("UPDATE $id SET body_text = $bt"));
            match (&q.bindings[1].1, &q.bindings[2].1) {
                (BindValue::Str(bt), BindValue::Str(bh)) => {
                    assert_eq!(crypto.decrypt_field(bt).unwrap(), "hello");
                    assert_eq!(crypto.decrypt_field(bh).unwrap(), "<p>hello</p>");
                },
                _ => panic!("encrypted bodies expected"),
            }
        },
        _ => panic!("update expected"),
    }
    let (r, acts) = r.step(&crypto, WorkerEvent::QueryDone);
    assert!(matches!(&acts[1], WorkerAction::CheckRecordId { id } if id == "mail:b"));
    let (r, _) = r.step(&crypto, WorkerEvent::MailIdChecked(true));
    let encrypted = obj(vec![
        ("body_text", text("x")),
        ("encryption_metadata", obj(vec![("e2ee", JsonValue::Bool(true))])),
    ]);
    let (r, acts) = r.step(&crypto, WorkerEvent::MailLoaded(Ok(vec![encrypted])));
    assert!(r.is_finished());
    assert!(is_notice(
        &acts[0],
        &TaskProgress::Completed { task_id: "task-1-0".to_string(), result_summary: "mails_encrypted".to_string() }
    ));
    assert!(matches!(acts[1], WorkerAction::Finish(true)));
}

#[test]
fn invalid_mail_ids_are_skipped() {
    let crypto = CryptoEngine::from_env(Some("BwcHBwcHBwcHBwcHBwcHBwcHBwcHBwcHBwcHBwcHBwc")).unwrap();
    let (r, _) = run(OfficeTask::BulkEncryptMails { mail_ids: vec!["bad id".to_string()] }).step(&crypto, WorkerEvent::Start);
    let (r, acts) = r.step(&crypto, WorkerEvent::MailIdChecked(false));
    assert!(r.is_finished());
    assert!(matches!(acts[1], WorkerAction::Finish(true)));
}

#[test]
fn document_task_without_link() {
    let crypto = CryptoEngine::default();
    let (r, acts) = run(OfficeTask::ProcessDocument { path: "data/demo.ods".to_string(), link_ctx: None }).step(&crypto, WorkerEvent::Start);
    assert!(is_notice(
        &acts[1],
        &TaskProgress::Processing {
            task_id: "task-1-0".to_string(),
            percentage: 10,
            status_message: "📄 Scheduling Headless LibreOfficeKit parsing...".to_string()
        }
    ));
    assert!(matches!(&acts[2], WorkerAction::LoadDocument { path } if path == "data/demo.ods"));
    let (r, acts) = r.step(&crypto, WorkerEvent::DocumentLoaded(Ok(meta(Some("\"document_meta:x\"")))));
    assert!(r.is_finished());
    assert_eq!(acts.len(), 3);
    match &acts[1] {
        WorkerAction::Notify { progress: TaskProgress::Completed { result_summary, .. }, result: Some(v) } => {
            assert_eq!(result_summary, "document_processed");
            assert_eq!(v.get("is_graph_enhanced"), Some(&JsonValue::Bool(true)));
            assert_eq!(v.get("meta").and_then(|m| m.get("filename")), Some(&text("demo.ods")));
            assert_eq!(v.get("lok").and_then(|m| m.get("parts")), Some(&JsonValue::Number(JsonNumber::PosInt(1))));
        },
        _ => panic!("completion expected"),
    }
    assert!(matches!(acts[2], WorkerAction::Finish(true)));
}

#[test]
fn document_task_failure() {
    let crypto = CryptoEngine::default();
    let (r, _) = run(OfficeTask::ProcessDocument { path: "missing.ods".to_string(), link_ctx: None }).step(&crypto, WorkerEvent::Start);
    let (r, acts) = r.step(&crypto, WorkerEvent::DocumentLoaded(Err("No such file".to_string())));
    assert!(r.is_finished());
    assert!(is_notice(&acts[0], &TaskProgress::Failed { task_id: "task-1-0".to_string(), error_message: "No such file".to_string() }));
    assert!(matches!(acts[1], WorkerAction::Finish(false)));
}

#[test]
fn document_task_with_link_relates_the_records() {
    let crypto = CryptoEngine::default();
    let link = "{\"from\":\"mail:demo\",\"context_anchor\":\"sheet:cell=R1C1\"}".to_string();
    let (r, _) = run(OfficeTask::ProcessDocument { path: "a.ods".to_string(), link_ctx: Some(link.clone()) }).step(&crypto, WorkerEvent::Start);
    let (r, acts) = r.step(&crypto, WorkerEvent::DocumentLoaded(Ok(meta(Some("\"document_meta:x\"")))));
    assert!(matches!(&acts[1], WorkerAction::ParseLink { text } if *text == link));
    let parsed = obj(vec![("from", text("mail:demo")), ("context_anchor", text("sheet:cell=R1C1"))]);
    let (r, acts) = r.step(&crypto, WorkerEvent::LinkParsed(Some(parsed)));
    assert!(matches!(&acts[0], WorkerAction::CheckRecordIds { from, to } if from == "mail:demo" && to == "document_meta:x"));
    let (r, acts) = r.step(&crypto, WorkerEvent::RecordIdsChecked(true));
    match &acts[0] {
        WorkerAction::RunQuery(q) => {
            assert!(q.sql.starts_with("RELATE $from -> linked_to -> $to"));
            assert!(matches!(&q.bindings[2].1, BindValue::Str(a) if a == "sheet:cell=R1C1"));
        },
        _ => panic!("relate expected"),
    }
    let (r, acts) = r.step(&crypto, WorkerEvent::QueryDone);
    assert!(r.is_finished());
    assert!(matches!(acts[1], WorkerAction::Finish(true)));
}

#[test]
fn quotes_are_trimmed_from_record_ids() {
    assert_eq!(trim_quote_chars("\"document_meta:x\""), "document_meta:x");
    assert_eq!(trim_quote_chars("\"\"a\"b\"\""), "a\"b");
    assert_eq!(trim_quote_chars("\"\""), "");
    assert_eq!(trim_quote_chars("plain"), "plain");
}

#[test]
fn progress_notifications() {
    let n = progress_notification(TaskProgress::Started { task_id: "t".to_string() }, None);
    assert_eq!(
        n,
        obj(vec![
            ("method", text("task:progress")),
            ("params", obj(vec![("progress", obj(vec![("Started", obj(vec![("task_id", text("t"))]))]))])),
        ])
    );
    let n = progress_notification(
        TaskProgress::Completed { task_id: "t".to_string(), result_summary: "done".to_string() },
        Some(JsonValue::Bool(true)),
    );
    let params = n.get("params").unwrap();
    assert_eq!(params.get("result"), Some(&JsonValue::Bool(true)));
    assert_eq!(
        params.get("progress").and_then(|p| p.get("Completed")).and_then(|c| c.get("result_summary")),
        Some(&text("done"))
    );
}

#[test]
fn a_whole_run_is_announced_once_and_ends_once() {
    let crypto = CryptoEngine::from_env(Some("BwcHBwcHBwcHBwcHBwcHBwcHBwcHBwcHBwcHBwcHBwc")).unwrap();
    let mut all: Vec<WorkerAction> = Vec::new();
    let r = run(OfficeTask::BulkEncryptMails { mail_ids: vec!["mail:a".to_string(), "mail:b".to_string()] });
    let (r, acts) = r.step(&crypto, WorkerEvent::QueryDone);
    assert!(acts.is_empty());
    let (r, acts) = r.step(&crypto, WorkerEvent::Start);
    all.extend(acts);
    let (r, acts) = r.step(&crypto, WorkerEvent::MailIdChecked(false));
    all.extend(acts);
    let (r, acts) = r.step(&crypto, WorkerEvent::MailIdChecked(true));
    all.extend(acts);
    let row = obj(vec![("body_text", text("t")), ("body_html", text("h"))]);
    let (r, acts) = r.step(&crypto, WorkerEvent::MailLoaded(Ok(vec![row])));
    all.extend(acts);
    let (r, acts) = r.step(&crypto, WorkerEvent::QueryDone);
    all.extend(acts);
    assert!(r.is_finished());
    let started = all.iter().filter(|a| matches!(a, WorkerAction::Notify { progress: TaskProgress::Started { .. }, .. })).count();
    let terminal = all
        .iter()
        .filter(|a| matches!(a, WorkerAction::Notify { progress: TaskProgress::Completed { .. } | TaskProgress::Failed { .. }, .. }))
        .count();
    let finishes = all.iter().filter(|a| matches!(a, WorkerAction::Finish(_))).count();
    assert_eq!((started, terminal, finishes), (1, 1, 1));
    assert!(matches!(&all[0], WorkerAction::Notify { progress: TaskProgress::Started { .. }, .. }));
    assert!(matches!(all.last(), Some(WorkerAction::Finish(true))));
    let percentages: Vec<u8> = all
        .iter()
        .filter_map(|a| match a {
            WorkerAction::Notify { progress: TaskProgress::Processing { percentage, .. }, .. } => Some(*percentage),
            _ => None,
        })
        .collect();
    assert_eq!(percentages, vec![50, 100]);
}
