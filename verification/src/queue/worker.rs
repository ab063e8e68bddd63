//! The background worker: how a queued task is carried out. A task run is a
//! state machine; the caller performs each action it asks for (sending a
//! progress notice, loading a document, checking record identifiers, running
//! a query) and hands back what came of it.

use vstd::prelude::*;

use crate::crypto::{possible_field_encryption, text_result, CryptoEngine, CryptoError};
use crate::json::{jobject, jopt_str, jview, json_bool, json_get, json_str, JsonNumber, JsonValue,
    JsonView, ObjectBuilder, i64_number, ji64, ju64, opt_string_json};
use crate::lok::DocumentMetaExtract;
use crate::orchestrator::{query_view, BindValue, BindView, DbQuery};
use crate::queue::{OfficeTask, TaskProgress};

verus! {

/// The mathematical form of a progress notice.
pub enum ProgressView {
    Started(Seq<char>),
    Processing(Seq<char>, u8, Seq<char>),
    Completed(Seq<char>, Seq<char>),
    Failed(Seq<char>, Seq<char>),
}

pub open spec fn progress_view(p: TaskProgress) -> ProgressView {
    match p {
        TaskProgress::Started { task_id } => ProgressView::Started(task_id@),
        TaskProgress::Processing { task_id, percentage, status_message } => ProgressView::Processing(
            task_id@,
            percentage,
            status_message@,
        ),
        TaskProgress::Completed { task_id, result_summary } => ProgressView::Completed(task_id@, result_summary@),
        TaskProgress::Failed { task_id, error_message } => ProgressView::Failed(task_id@, error_message@),
    }
}

/// Something the caller must do for a task run.
#[derive(Debug)]
pub enum WorkerAction {
    /// Send a progress notice (with the task result, if any) to the task's session.
    Notify { progress: TaskProgress, result: Option<JsonValue> },
    /// Extract and store the metadata of the document at the path; answer `DocumentLoaded`.
    LoadDocument { path: String },
    /// Parse the link context as JSON; answer `LinkParsed`.
    ParseLink { text: String },
    /// Check that both texts parse as record identifiers; answer `RecordIdsChecked`.
    CheckRecordIds { from: String, to: String },
    /// Check that the text parses as a record identifier; answer `MailIdChecked`.
    CheckRecordId { id: String },
    /// Run the query; answer `MailLoaded` with the rows of its first statement
    /// while a mail is being loaded, `QueryDone` otherwise.
    RunQuery(DbQuery),
    /// The run is over, successfully or not.
    Finish(bool),
}

/// The mathematical form of an action.
pub enum ActionView {
    Notify(ProgressView, Option<JsonView>),
    LoadDocument(Seq<char>),
    ParseLink(Seq<char>),
    CheckRecordIds(Seq<char>, Seq<char>),
    CheckRecordId(Seq<char>),
    RunQuery((Seq<char>, Seq<(Seq<char>, BindView)>)),
    Finish(bool),
}

pub open spec fn action_view(a: WorkerAction) -> ActionView {
    match a {
        WorkerAction::Notify { progress, result } => ActionView::Notify(
            progress_view(progress),
            match result {
                Some(v) => Some(jview(v)),
                None => None,
            },
        ),
        WorkerAction::LoadDocument { path } => ActionView::LoadDocument(path@),
        WorkerAction::ParseLink { text } => ActionView::ParseLink(text@),
        WorkerAction::CheckRecordIds { from, to } => ActionView::CheckRecordIds(from@, to@),
        WorkerAction::CheckRecordId { id } => ActionView::CheckRecordId(id@),
        WorkerAction::RunQuery(q) => ActionView::RunQuery(query_view(q)),
        WorkerAction::Finish(ok) => ActionView::Finish(ok),
    }
}

pub open spec fn actions_view(acts: Seq<WorkerAction>) -> Seq<ActionView> {
    acts.map_values(|a: WorkerAction| action_view(a))
}

/// What came of an action.
#[derive(Debug)]
pub enum WorkerEvent {
    /// Begin the run.
    Start,
    DocumentLoaded(Result<DocumentMetaExtract, String>),
    LinkParsed(Option<JsonValue>),
    RecordIdsChecked(bool),
    MailIdChecked(bool),
    MailLoaded(Result<Vec<JsonValue>, String>),
    QueryDone,
}

/// Where a task run stands.
#[derive(Debug)]
pub enum RunStage {
    Pending(OfficeTask),
    LoadingDocument { link_ctx: Option<String> },
    ParsingLink { meta: DocumentMetaExtract },
    CheckingLinkIds { meta: DocumentMetaExtract, from: String, to: String, anchor: String },
    Relating { meta: DocumentMetaExtract },
    CheckingMailId { mail_ids: Vec<String>, index: usize },
    LoadingMail { mail_ids: Vec<String>, index: usize },
    UpdatingMail { mail_ids: Vec<String>, index: usize },
    Finished,
}

/// The mathematical form of document metadata.
pub struct MetaView {
    pub record_id: Option<Seq<char>>,
    pub filename: Seq<char>,
    pub file_size: u64,
    pub storage_path: Seq<char>,
    pub mime_type: Seq<char>,
    pub parts: i32,
    pub structure_hash: Seq<char>,
    pub is_graph_enhanced: bool,
    pub lok_available: bool,
}

pub open spec fn meta_view(m: DocumentMetaExtract) -> MetaView {
    MetaView {
        record_id: match m.record_id {
            Some(r) => Some(r@),
            None => None,
        },
        filename: m.filename@,
        file_size: m.file_size,
        storage_path: m.storage_path@,
        mime_type: m.mime_type@,
        parts: m.parts,
        structure_hash: m.structure_hash@,
        is_graph_enhanced: m.is_graph_enhanced,
        lok_available: m.lok_available,
    }
}

pub open spec fn ids_view(ids: Seq<String>) -> Seq<Seq<char>> {
    ids.map_values(|s: String| s@)
}

/// The mathematical form of a stage.
pub enum StageView {
    Pending,
    LoadingDocument(Option<Seq<char>>),
    ParsingLink(MetaView),
    CheckingLinkIds(MetaView, Seq<char>, Seq<char>, Seq<char>),
    Relating(MetaView),
    CheckingMailId(Seq<Seq<char>>, nat),
    LoadingMail(Seq<Seq<char>>, nat),
    UpdatingMail(Seq<Seq<char>>, nat),
    Finished,
}

pub open spec fn stage_view(s: RunStage) -> StageView {
    match s {
        RunStage::Pending(_) => StageView::Pending,
        RunStage::LoadingDocument { link_ctx } => StageView::LoadingDocument(
            match link_ctx {
                Some(l) => Some(l@),
                None => None,
            },
        ),
        RunStage::ParsingLink { meta } => StageView::ParsingLink(meta_view(meta)),
        RunStage::CheckingLinkIds { meta, from, to, anchor } => StageView::CheckingLinkIds(
            meta_view(meta),
            from@,
            to@,
            anchor@,
        ),
        RunStage::Relating { meta } => StageView::Relating(meta_view(meta)),
        RunStage::CheckingMailId { mail_ids, index } => StageView::CheckingMailId(ids_view(mail_ids@), index as nat),
        RunStage::LoadingMail { mail_ids, index } => StageView::LoadingMail(ids_view(mail_ids@), index as nat),
        RunStage::UpdatingMail { mail_ids, index } => StageView::UpdatingMail(ids_view(mail_ids@), index as nat),
        RunStage::Finished => StageView::Finished,
    }
}

/// Whether a stage awaits the event: each stage waits for the outcome of
/// its own action (a pending run for `Start`); any other event leaves the run
/// as it is and asks for nothing.
pub open spec fn awaits(stage: RunStage, ev: WorkerEvent) -> bool {
    match (stage, ev) {
        (RunStage::Pending(_), WorkerEvent::Start) => true,
        (RunStage::LoadingDocument { .. }, WorkerEvent::DocumentLoaded(_)) => true,
        (RunStage::ParsingLink { .. }, WorkerEvent::LinkParsed(_)) => true,
        (RunStage::CheckingLinkIds { .. }, WorkerEvent::RecordIdsChecked(_)) => true,
        (RunStage::Relating { .. }, WorkerEvent::QueryDone) => true,
        (RunStage::CheckingMailId { .. }, WorkerEvent::MailIdChecked(_)) => true,
        (RunStage::LoadingMail { .. }, WorkerEvent::MailLoaded(_)) => true,
        (RunStage::UpdatingMail { .. }, WorkerEvent::QueryDone) => true,
        _ => false,
    }
}

/// Progress of the bulk encryption when mail `i` of `n` starts: `(i + 1) * 100 / n`, at most 100.
pub open spec fn spec_mail_percentage(i: nat, n: nat) -> int {
    let total: int = if n == 0 { 1 } else { n as int };
    let p: int = ((i + 1) * 100) as int / total;
    if p > 100 { 100 } else { p }
}

/// Progress of the bulk encryption when mail `i` of `n` starts.
pub fn mail_percentage(i: usize, n: usize) -> (p: u8)
    ensures
        p as int == spec_mail_percentage(i as nat, n as nat),
{
    let total: u128 = if n == 0 { 1 } else { n as u128 };
    let q: u128 = ((i as u128) + 1) * 100 / total;
    if q > 100 {
        100
    } else {
        q as u8
    }
}

pub open spec fn notify(p: ProgressView) -> ActionView {
    ActionView::Notify(p, None)
}

/// The result reported for a processed document.
pub open spec fn doc_result_view(m: MetaView) -> JsonView {
    jobject(
        seq![
            (
                "meta"@,
                jobject(
                    seq![
                        ("id"@, jopt_str(m.record_id)),
                        ("filename"@, JsonView::Str(m.filename)),
                        ("storage_path"@, JsonView::Str(m.storage_path)),
                        ("mime_type"@, JsonView::Str(m.mime_type)),
                        ("file_size"@, JsonView::Number(JsonNumber::PosInt(m.file_size))),
                    ],
                ),
            ),
            (
                "lok"@,
                jobject(
                    seq![
                        ("available"@, JsonView::Bool(m.lok_available)),
                        ("parts"@, JsonView::Number(i64_number(m.parts as i64))),
                        ("structure_hash"@, JsonView::Str(m.structure_hash)),
                    ],
                ),
            ),
            ("is_graph_enhanced"@, JsonView::Bool(m.is_graph_enhanced)),
        ],
    )
}

/// Completion of a document run.
pub open spec fn doc_complete(task_id: Seq<char>, m: MetaView) -> Seq<ActionView> {
    seq![
        ActionView::Notify(ProgressView::Completed(task_id, "document_processed"@), Some(doc_result_view(m))),
        ActionView::Finish(true),
    ]
}

/// The step to mail `i` of the bulk encryption, or its completion.
pub open spec fn mail_next(task_id: Seq<char>, ids: Seq<Seq<char>>, i: nat) -> (StageView, Seq<ActionView>) {
    if i >= ids.len() {
        (
            StageView::Finished,
            seq![notify(ProgressView::Completed(task_id, "mails_encrypted"@)), ActionView::Finish(true)],
        )
    } else {
        (
            StageView::CheckingMailId(ids, i),
            seq![
                notify(
                    ProgressView::Processing(
                        task_id,
                        spec_mail_percentage(i, ids.len()) as u8,
                        "🔒 Encrypting mail "@ + ids[i as int],
                    ),
                ),
                ActionView::CheckRecordId(ids[i as int]),
            ],
        )
    }
}

/// Text without leading and trailing `"` characters (`str::trim_matches('"')`).
pub open spec fn trim_quotes(s: Seq<char>) -> Seq<char>
    decreases s.len(),
{
    if s.len() > 0 && s[0] == '"' {
        trim_quotes(s.drop_first())
    } else if s.len() > 0 && s.last() == '"' {
        trim_quotes(s.drop_last())
    } else {
        s
    }
}

/// The string of an optional JSON value, or the empty text.
pub open spec fn str_or_empty(v: Option<JsonValue>) -> Seq<char> {
    match json_str(v) {
        Some(s) => s,
        None => Seq::empty(),
    }
}

/// `v.get(key)` on an optional value.
pub open spec fn opt_get(v: Option<JsonValue>, key: Seq<char>) -> Option<JsonValue> {
    match v {
        Some(x) => json_get(x, key),
        None => None,
    }
}

/// The first row, when it is an object.
pub open spec fn first_object(rows: Seq<JsonValue>) -> Option<JsonValue> {
    if rows.len() > 0 && rows[0] is Object {
        Some(rows[0])
    } else {
        None
    }
}

/// Whether a mail row is marked as end-to-end encrypted.
pub open spec fn row_is_e2ee(row: JsonValue) -> bool {
    json_bool(opt_get(json_get(row, "encryption_metadata"@), "e2ee"@)) == Some(true)
}

/// The bodies of the mail to encrypt, when the loaded rows give one that is not yet encrypted.
pub open spec fn mail_bodies(rows: Seq<JsonValue>) -> Option<(Seq<char>, Seq<char>)> {
    match first_object(rows) {
        None => None,
        Some(row) => if row_is_e2ee(row) {
            None
        } else {
            Some((str_or_empty(json_get(row, "body_text"@)), str_or_empty(json_get(row, "body_html"@))))
        },
    }
}

pub open spec fn relate_query_view(from: Seq<char>, to: Seq<char>, anchor: Seq<char>) -> (Seq<char>, Seq<(Seq<char>, BindView)>) {
    (
        "RELATE $from -> linked_to -> $to SET created_at = time::now(), context_anchor = $anchor;"@,
        seq![("from"@, BindView::Record(from)), ("to"@, BindView::Record(to)), ("anchor"@, BindView::Str(anchor))],
    )
}

pub open spec fn select_mail_query_view(id: Seq<char>) -> (Seq<char>, Seq<(Seq<char>, BindView)>) {
    (
        "SELECT body_text, body_html, encryption_metadata FROM $id LIMIT 1;"@,
        seq![("id"@, BindView::Record(id))],
    )
}

pub open spec fn update_mail_query_view(id: Seq<char>, bt: Seq<char>, bh: Seq<char>) -> (Seq<char>, Seq<(Seq<char>, BindView)>) {
    (
        "UPDATE $id SET body_text = $bt, body_html = $bh, encryption_metadata = { e2ee: true, alg: 'chacha20poly1305', encoding: 'b64', v: 1 };"@,
        seq![("id"@, BindView::Record(id)), ("bt"@, BindView::Str(bt)), ("bh"@, BindView::Str(bh))],
    )
}

/// A possible outcome of encrypting a field with the engine's key:
/// `KeyUnavailable` without a key, a possible encryption under it otherwise.
pub open spec fn possible_encryption(key: Option<Seq<u8>>, plaintext: Seq<char>, r: Result<Seq<char>, CryptoError>) -> bool {
    match key {
        None => r == Err::<Seq<char>, CryptoError>(CryptoError::KeyUnavailable),
        Some(k) => possible_field_encryption(plaintext, k, r),
    }
}

/// The bodies a step encrypts, if it encrypts any.
pub open spec fn step_encrypts(stage: RunStage, ev: WorkerEvent) -> Option<(Seq<char>, Seq<char>)> {
    match (stage, ev) {
        (RunStage::LoadingMail { .. }, WorkerEvent::MailLoaded(Ok(rows))) => mail_bodies(rows@),
        _ => None,
    }
}

/// The mathematical form of the encryption outcomes handed to a step.
pub open spec fn enc_view(enc: Option<(Result<String, CryptoError>, Result<String, CryptoError>)>) -> Option<(Result<Seq<char>, CryptoError>, Result<Seq<char>, CryptoError>)> {
    match enc {
        Some((a, b)) => Some((text_result(a), text_result(b))),
        None => None,
    }
}

/// Whether the encryption outcomes fit the bodies a step encrypts: none when
/// there is nothing to encrypt, a possible outcome for each body otherwise.
pub open spec fn encryption_outcomes(
    bodies: Option<(Seq<char>, Seq<char>)>,
    key: Option<Seq<u8>>,
    enc: Option<(Result<Seq<char>, CryptoError>, Result<Seq<char>, CryptoError>)>,
) -> bool {
    match bodies {
        Some((bt, bh)) => match enc {
            Some((e1, e2)) => possible_encryption(key, bt, e1) && possible_encryption(key, bh, e2),
            None => false,
        },
        None => enc is None,
    }
}

/// The first step of a run: announce it and start on its task.
pub open spec fn start_step(task_id: Seq<char>, task: OfficeTask, has_key: bool) -> (StageView, Seq<ActionView>) {
    match task {
        OfficeTask::ProcessDocument { path, link_ctx } => (
            StageView::LoadingDocument(match link_ctx { Some(l) => Some(l@), None => None }),
            seq![
                notify(ProgressView::Started(task_id)),
                notify(ProgressView::Processing(task_id, 10, "📄 Scheduling Headless LibreOfficeKit parsing..."@)),
                ActionView::LoadDocument(path@),
            ],
        ),
        OfficeTask::BulkEncryptMails { mail_ids } => if !has_key {
            (
                StageView::Finished,
                seq![
                    notify(ProgressView::Started(task_id)),
                    notify(ProgressView::Failed(task_id, "crypto_key_unavailable"@)),
                    ActionView::Finish(false),
                ],
            )
        } else {
            let next = mail_next(task_id, ids_view(mail_ids@), 0);
            (next.0, seq![notify(ProgressView::Started(task_id))] + next.1)
        },
        OfficeTask::NetworkSyncDelta { peer_id } => (
            StageView::Finished,
            seq![
                notify(ProgressView::Started(task_id)),
                notify(ProgressView::Processing(task_id, 50, "🌐 Syncing delta for peer "@ + peer_id@)),
                notify(ProgressView::Completed(task_id, "sync_delta_placeholder"@)),
                ActionView::Finish(true),
            ],
        ),
    }
}

/// The step after the document was loaded (or failed to load).
pub open spec fn document_loaded_step(
    task_id: Seq<char>,
    link_ctx: Option<String>,
    r: Result<DocumentMetaExtract, String>,
) -> (StageView, Seq<ActionView>) {
    match r {
        Err(e) => (StageView::Finished, seq![notify(ProgressView::Failed(task_id, e@)), ActionView::Finish(false)]),
        Ok(meta) => {
            let pre = seq![notify(ProgressView::Processing(task_id, 75, "🔗 Building graph context anchors..."@))];
            match (link_ctx, meta.record_id) {
                (Some(l), Some(_)) => (StageView::ParsingLink(meta_view(meta)), pre.push(ActionView::ParseLink(l@))),
                _ => (StageView::Finished, pre + doc_complete(task_id, meta_view(meta))),
            }
        },
    }
}

/// The step after the link context was parsed (`None` when it is no JSON).
pub open spec fn link_parsed_step(task_id: Seq<char>, meta: DocumentMetaExtract, link: Option<JsonValue>) -> (StageView, Seq<ActionView>) {
    match link {
        None => (StageView::Finished, doc_complete(task_id, meta_view(meta))),
        Some(v) => {
            let from = str_or_empty(json_get(v, "from"@));
            let anchor = str_or_empty(json_get(v, "context_anchor"@));
            let to = trim_quotes(match meta.record_id { Some(r) => r@, None => Seq::empty() });
            (StageView::CheckingLinkIds(meta_view(meta), from, to, anchor), seq![ActionView::CheckRecordIds(from, to)])
        },
    }
}

/// The step after mail `index` was loaded, given the outcomes of encrypting its bodies.
pub open spec fn mail_loaded_step(
    task_id: Seq<char>,
    mail_ids: Seq<String>,
    index: nat,
    r: Result<Vec<JsonValue>, String>,
    enc: Option<(Result<Seq<char>, CryptoError>, Result<Seq<char>, CryptoError>)>,
) -> (StageView, Seq<ActionView>) {
    let skip = mail_next(task_id, ids_view(mail_ids), index + 1);
    match r {
        Err(_) => skip,
        Ok(rows) => match mail_bodies(rows@) {
            None => skip,
            Some(_) => match enc {
                Some((Ok(bt), Ok(bh))) => if index < mail_ids.len() {
                    (
                        StageView::UpdatingMail(ids_view(mail_ids), index),
                        seq![ActionView::RunQuery(update_mail_query_view(mail_ids[index as int]@, bt, bh))],
                    )
                } else {
                    skip
                },
                _ => skip,
            },
        },
    }
}

/// One step of a task run: the next stage and the actions, given the event,
/// whether the engine holds a key, and the outcomes of encrypting the bodies
/// of a loaded mail. An event that does not belong to the stage changes nothing.
pub open spec fn spec_step(
    task_id: Seq<char>,
    stage: RunStage,
    has_key: bool,
    ev: WorkerEvent,
    enc: Option<(Result<Seq<char>, CryptoError>, Result<Seq<char>, CryptoError>)>,
) -> (StageView, Seq<ActionView>) {
    match (stage, ev) {
        (RunStage::Pending(task), WorkerEvent::Start) => start_step(task_id, task, has_key),
        (RunStage::LoadingDocument { link_ctx }, WorkerEvent::DocumentLoaded(r)) => document_loaded_step(task_id, link_ctx, r),
        (RunStage::ParsingLink { meta }, WorkerEvent::LinkParsed(link)) => link_parsed_step(task_id, meta, link),
        (RunStage::CheckingLinkIds { meta, from, to, anchor }, WorkerEvent::RecordIdsChecked(ok)) => if ok {
            (StageView::Relating(meta_view(meta)), seq![ActionView::RunQuery(relate_query_view(from@, to@, anchor@))])
        } else {
            (StageView::Finished, doc_complete(task_id, meta_view(meta)))
        },
        (RunStage::Relating { meta }, WorkerEvent::QueryDone) => (StageView::Finished, doc_complete(task_id, meta_view(meta))),
        (RunStage::CheckingMailId { mail_ids, index }, WorkerEvent::MailIdChecked(ok)) => if ok && index < mail_ids@.len() {
            (
                StageView::LoadingMail(ids_view(mail_ids@), index as nat),
                seq![ActionView::RunQuery(select_mail_query_view(mail_ids@[index as int]@))],
            )
        } else {
            mail_next(task_id, ids_view(mail_ids@), index as nat + 1)
        },
        (RunStage::LoadingMail { mail_ids, index }, WorkerEvent::MailLoaded(r)) => mail_loaded_step(
            task_id,
            mail_ids@,
            index as nat,
            r,
            enc,
        ),
        (RunStage::UpdatingMail { mail_ids, index }, WorkerEvent::QueryDone) => mail_next(
            task_id,
            ids_view(mail_ids@),
            index as nat + 1,
        ),
        (s, _) => (stage_view(s), Seq::empty()),
    }
}

} // verus!

verus! {

use crate::queue::TaskEnvelope;
use crate::text::{chars_of, string_of};

fn push_action(acts: &mut Vec<WorkerAction>, a: WorkerAction)
    ensures
        actions_view(final(acts)@) == actions_view(old(acts)@).push(action_view(a)),
{
    let ghost pre = acts@;
    let ghost av = action_view(a);
    acts.push(a);
    assert(actions_view(acts@) =~= actions_view(pre).push(av));
}

fn notice(progress: TaskProgress) -> (a: WorkerAction)
    ensures
        action_view(a) == notify(progress_view(progress)),
{
    WorkerAction::Notify { progress, result: None }
}

fn started(task_id: &String) -> (p: TaskProgress)
    ensures
        progress_view(p) == ProgressView::Started(task_id@),
{
    TaskProgress::Started { task_id: task_id.clone() }
}

fn processing(task_id: &String, percentage: u8, status_message: String) -> (p: TaskProgress)
    ensures
        progress_view(p) == ProgressView::Processing(task_id@, percentage, status_message@),
{
    TaskProgress::Processing { task_id: task_id.clone(), percentage, status_message }
}

fn completed(task_id: &String, summary: &str) -> (p: TaskProgress)
    ensures
        progress_view(p) == ProgressView::Completed(task_id@, summary@),
{
    TaskProgress::Completed { task_id: task_id.clone(), result_summary: String::from_str(summary) }
}

fn failed(task_id: &String, message: String) -> (p: TaskProgress)
    ensures
        progress_view(p) == ProgressView::Failed(task_id@, message@),
{
    TaskProgress::Failed { task_id: task_id.clone(), error_message: message }
}

/// The result reported for a processed document.
pub fn document_result(meta: DocumentMetaExtract) -> (v: JsonValue)
    ensures
        jview(v) == doc_result_view(meta_view(meta)),
{
    let ghost mv = meta_view(meta);
    let mut m = ObjectBuilder::new();
    m.add("id", opt_string_json(meta.record_id));
    m.add("filename", JsonValue::String(meta.filename));
    m.add("storage_path", JsonValue::String(meta.storage_path));
    m.add("mime_type", JsonValue::String(meta.mime_type));
    m.add("file_size", ju64(meta.file_size));
    let mut l = ObjectBuilder::new();
    l.add("available", JsonValue::Bool(meta.lok_available));
    l.add("parts", ji64(meta.parts as i64));
    l.add("structure_hash", JsonValue::String(meta.structure_hash));
    let ghost mview = m.view();
    let ghost lview = l.view();
    assert(mview =~= seq![
        ("id"@, jopt_str(mv.record_id)),
        ("filename"@, JsonView::Str(mv.filename)),
        ("storage_path"@, JsonView::Str(mv.storage_path)),
        ("mime_type"@, JsonView::Str(mv.mime_type)),
        ("file_size"@, JsonView::Number(JsonNumber::PosInt(mv.file_size))),
    ]);
    assert(lview =~= seq![
        ("available"@, JsonView::Bool(mv.lok_available)),
        ("parts"@, JsonView::Number(i64_number(mv.parts as i64))),
        ("structure_hash"@, JsonView::Str(mv.structure_hash)),
    ]);
    let mut top = ObjectBuilder::new();
    top.add("meta", m.build());
    top.add("lok", l.build());
    top.add("is_graph_enhanced", JsonValue::Bool(meta.is_graph_enhanced));
    assert(top.view() =~= seq![
        ("meta"@, JsonView::Object(mview)),
        ("lok"@, JsonView::Object(lview)),
        ("is_graph_enhanced"@, JsonView::Bool(mv.is_graph_enhanced)),
    ]);
    let v = top.build();
    v
}

fn doc_complete_exec(task_id: &String, meta: DocumentMetaExtract, acts: &mut Vec<WorkerAction>)
    ensures
        actions_view(final(acts)@) == actions_view(old(acts)@) + doc_complete(task_id@, meta_view(meta)),
{
    let ghost pre = actions_view(acts@);
    let ghost mv = meta_view(meta);
    let result = document_result(meta);
    push_action(acts, WorkerAction::Notify { progress: completed(task_id, "document_processed"), result: Some(result) });
    push_action(acts, WorkerAction::Finish(true));
    assert(actions_view(acts@) =~= pre + doc_complete(task_id@, mv));
}

/// Mail ids as character sequences.
proof fn lemma_ids_view(ids: Seq<String>, i: int)
    requires
        0 <= i < ids.len(),
    ensures
        ids_view(ids).len() == ids.len(),
        ids_view(ids)[i] == ids[i]@,
{
}

fn mail_next_exec(task_id: &String, mail_ids: Vec<String>, i: usize, acts: &mut Vec<WorkerAction>) -> (s: RunStage)
    requires
        i <= mail_ids@.len(),
    ensures
        (stage_view(s), actions_view(final(acts)@)) == ({
            let n = mail_next(task_id@, ids_view(mail_ids@), i as nat);
            (n.0, actions_view(old(acts)@) + n.1)
        }),
        match s {
            RunStage::CheckingMailId { mail_ids: m, index } => index < m@.len(),
            RunStage::Finished => true,
            _ => false,
        },
{
    let ghost pre = actions_view(acts@);
    let ghost ids = ids_view(mail_ids@);
    let n: usize = mail_ids.len();
    if i >= n {
        push_action(acts, notice(completed(task_id, "mails_encrypted")));
        push_action(acts, WorkerAction::Finish(true));
        assert(actions_view(acts@) =~= pre + mail_next(task_id@, ids, i as nat).1);
        RunStage::Finished
    } else {
        proof {
            lemma_ids_view(mail_ids@, i as int);
        }
        let pct = mail_percentage(i, n);
        let msg = String::from_str("🔒 Encrypting mail ").concat(mail_ids[i].as_str());
        push_action(acts, notice(processing(task_id, pct, msg)));
        push_action(acts, WorkerAction::CheckRecordId { id: mail_ids[i].clone() });
        assert(actions_view(acts@) =~= pre + mail_next(task_id@, ids, i as nat).1);
        RunStage::CheckingMailId { mail_ids, index: i }
    }
}

/// Text without leading and trailing `"` characters.
pub fn trim_quote_chars(s: &str) -> (r: String)
    ensures
        r@ == trim_quotes(s@),
{
    let cs = chars_of(s);
    let n: usize = cs.len();
    let mut i: usize = 0;
    assert(cs@.subrange(0, n as int) =~= cs@);
    while i < n && cs[i] == '"'
        invariant
            n == cs@.len(),
            i <= n,
            trim_quotes(cs@) == trim_quotes(cs@.subrange(i as int, n as int)),
        decreases n - i,
    {
        assert(cs@.subrange(i as int, n as int).drop_first() =~= cs@.subrange(i + 1, n as int));
        i = i + 1;
    }
    let mut j: usize = n;
    while j > i && cs[j - 1] == '"'
        invariant
            n == cs@.len(),
            i <= j <= n,
            i < n ==> cs@[i as int] != '"',
            trim_quotes(cs@.subrange(i as int, n as int)) == trim_quotes(cs@.subrange(i as int, j as int)),
        decreases j - i,
    {
        let ghost t = cs@.subrange(i as int, j as int);
        assert(t[0] == cs@[i as int]);
        assert(t.drop_last() =~= cs@.subrange(i as int, j - 1));
        j = j - 1;
    }
    let ghost t = cs@.subrange(i as int, j as int);
    assert(t.len() > 0 ==> t[0] == cs@[i as int]);
    assert(trim_quotes(t) == t);
    string_of(vstd::slice::slice_subrange(cs.as_slice(), i, j))
}

fn relate_query(from: String, to: String, anchor: String) -> (q: DbQuery)
    ensures
        query_view(q) == relate_query_view(from@, to@, anchor@),
{
    let mut q = DbQuery::new("RELATE $from -> linked_to -> $to SET created_at = time::now(), context_anchor = $anchor;");
    q.bind("from", BindValue::Record(from));
    q.bind("to", BindValue::Record(to));
    q.bind("anchor", BindValue::Str(anchor));
    assert(query_view(q).1 =~= relate_query_view(from@, to@, anchor@).1);
    q
}

fn select_mail_query(id: String) -> (q: DbQuery)
    ensures
        query_view(q) == select_mail_query_view(id@),
{
    let mut q = DbQuery::new("SELECT body_text, body_html, encryption_metadata FROM $id LIMIT 1;");
    q.bind("id", BindValue::Record(id));
    assert(query_view(q).1 =~= select_mail_query_view(id@).1);
    q
}

fn update_mail_query(id: String, bt: String, bh: String) -> (q: DbQuery)
    ensures
        query_view(q) == update_mail_query_view(id@, bt@, bh@),
{
    let mut q = DbQuery::new(
        "UPDATE $id SET body_text = $bt, body_html = $bh, encryption_metadata = { e2ee: true, alg: 'chacha20poly1305', encoding: 'b64', v: 1 };",
    );
    q.bind("id", BindValue::Record(id));
    q.bind("bt", BindValue::Str(bt));
    q.bind("bh", BindValue::Str(bh));
    assert(query_view(q).1 =~= update_mail_query_view(id@, bt@, bh@).1);
    q
}

fn str_or_empty_exec(v: Option<&JsonValue>) -> (s: &str)
    ensures
        s@ == str_or_empty(match v { Some(x) => Some(*x), None => None }),
{
    proof {
        reveal_strlit("");
    }
    match v {
        Some(x) => match x.as_str() {
            Some(t) => t,
            None => "",
        },
        None => "",
    }
}

} // verus!

verus! {

/// A step's outcome after the actions already queued.
pub open spec fn after(prev: Seq<ActionView>, st: (StageView, Seq<ActionView>)) -> (StageView, Seq<ActionView>) {
    (st.0, prev + st.1)
}

proof fn lemma_mail_next_past_end(task_id: Seq<char>, ids: Seq<Seq<char>>, i: nat)
    requires
        i >= ids.len(),
    ensures
        mail_next(task_id, ids, i) == mail_next(task_id, ids, ids.len()),
{
}

/// Moves past mail `index` to the next one.
fn mail_skip_exec(task_id: &String, mail_ids: Vec<String>, index: usize, acts: &mut Vec<WorkerAction>) -> (s: RunStage)
    ensures
        (stage_view(s), actions_view(final(acts)@)) == after(
            actions_view(old(acts)@),
            mail_next(task_id@, ids_view(mail_ids@), index as nat + 1),
        ),
{
    let n: usize = mail_ids.len();
    let next: usize = if index < n { index + 1 } else { n };
    proof {
        if index >= n {
            lemma_mail_next_past_end(task_id@, ids_view(mail_ids@), index as nat + 1);
        }
    }
    mail_next_exec(task_id, mail_ids, next, acts)
}

/// The bodies of the mail to encrypt, read from the loaded rows.
fn mail_body_texts(rows: &Vec<JsonValue>) -> (b: Option<(&str, &str)>)
    ensures
        match mail_bodies(rows@) {
            Some((bt, bh)) => b matches Some((x, y)) && x@ == bt && y@ == bh,
            None => b is None,
        },
{
    if rows.len() == 0 {
        return None;
    }
    let row = &rows[0];
    match row {
        JsonValue::Object(_) => {},
        _ => return None,
    }
    let e2ee: bool = match row.get("encryption_metadata") {
        Some(m) => match m.get("e2ee") {
            Some(b) => match b.as_bool() {
                Some(x) => x,
                None => false,
            },
            None => false,
        },
        None => false,
    };
    if e2ee {
        None
    } else {
        Some((str_or_empty_exec(row.get("body_text")), str_or_empty_exec(row.get("body_html"))))
    }
}

/// The bodies that a step with this stage and event encrypts.
fn bodies_to_encrypt<'a>(stage: &RunStage, event: &'a WorkerEvent) -> (b: Option<(&'a str, &'a str)>)
    ensures
        match step_encrypts(*stage, *event) {
            Some((bt, bh)) => b matches Some((x, y)) && x@ == bt && y@ == bh,
            None => b is None,
        },
{
    match stage {
        RunStage::LoadingMail { .. } => match event {
            WorkerEvent::MailLoaded(Ok(rows)) => mail_body_texts(rows),
            _ => None,
        },
        _ => None,
    }
}

fn start_exec(task_id: &String, task: OfficeTask, has_key: bool, acts: &mut Vec<WorkerAction>) -> (s: RunStage)
    ensures
        (stage_view(s), actions_view(final(acts)@)) == after(actions_view(old(acts)@), start_step(task_id@, task, has_key)),
{
    let ghost pre = actions_view(acts@);
    let ghost t = task;
    push_action(acts, notice(started(task_id)));
    match task {
        OfficeTask::ProcessDocument { path, link_ctx } => {
            let msg = String::from_str("📄 Scheduling Headless LibreOfficeKit parsing...");
            push_action(acts, notice(processing(task_id, 10, msg)));
            push_action(acts, WorkerAction::LoadDocument { path });
            assert(actions_view(acts@) =~= pre + start_step(task_id@, t, has_key).1);
            RunStage::LoadingDocument { link_ctx }
        },
        OfficeTask::BulkEncryptMails { mail_ids } => {
            if !has_key {
                push_action(acts, notice(failed(task_id, String::from_str("crypto_key_unavailable"))));
                push_action(acts, WorkerAction::Finish(false));
                assert(actions_view(acts@) =~= pre + start_step(task_id@, t, has_key).1);
                RunStage::Finished
            } else {
                let ghost mid = actions_view(acts@);
                let s = mail_next_exec(task_id, mail_ids, 0, acts);
                assert(mid == pre + seq![notify(ProgressView::Started(task_id@))]);
                assert(actions_view(acts@) =~= pre + start_step(task_id@, t, has_key).1);
                s
            }
        },
        OfficeTask::NetworkSyncDelta { peer_id } => {
            let msg = String::from_str("🌐 Syncing delta for peer ").concat(peer_id.as_str());
            push_action(acts, notice(processing(task_id, 50, msg)));
            push_action(acts, notice(completed(task_id, "sync_delta_placeholder")));
            push_action(acts, WorkerAction::Finish(true));
            assert(actions_view(acts@) =~= pre + start_step(task_id@, t, has_key).1);
            RunStage::Finished
        },
    }
}

fn document_loaded_exec(
    task_id: &String,
    link_ctx: Option<String>,
    r: Result<DocumentMetaExtract, String>,
    acts: &mut Vec<WorkerAction>,
) -> (s: RunStage)
    ensures
        (stage_view(s), actions_view(final(acts)@)) == after(
            actions_view(old(acts)@),
            document_loaded_step(task_id@, link_ctx, r),
        ),
{
    let ghost pre = actions_view(acts@);
    let ghost lc = link_ctx;
    let ghost rr = r;
    match r {
        Err(e) => {
            push_action(acts, notice(failed(task_id, e)));
            push_action(acts, WorkerAction::Finish(false));
            assert(actions_view(acts@) =~= pre + document_loaded_step(task_id@, lc, rr).1);
            RunStage::Finished
        },
        Ok(meta) => {
            let msg = String::from_str("🔗 Building graph context anchors...");
            push_action(acts, notice(processing(task_id, 75, msg)));
            let ghost mid = actions_view(acts@);
            let has_record = meta.record_id.is_some();
            match link_ctx {
                Some(l) if has_record => {
                    push_action(acts, WorkerAction::ParseLink { text: l });
                    assert(actions_view(acts@) =~= pre + document_loaded_step(task_id@, lc, rr).1);
                    RunStage::ParsingLink { meta }
                },
                _ => {
                    doc_complete_exec(task_id, meta, acts);
                    assert(actions_view(acts@) =~= pre + document_loaded_step(task_id@, lc, rr).1);
                    RunStage::Finished
                },
            }
        },
    }
}

fn link_parsed_exec(task_id: &String, meta: DocumentMetaExtract, link: Option<JsonValue>, acts: &mut Vec<WorkerAction>) -> (s: RunStage)
    ensures
        (stage_view(s), actions_view(final(acts)@)) == after(
            actions_view(old(acts)@),
            link_parsed_step(task_id@, meta, link),
        ),
{
    let ghost pre = actions_view(acts@);
    match link {
        None => {
            doc_complete_exec(task_id, meta, acts);
            RunStage::Finished
        },
        Some(v) => {
            let from = String::from_str(str_or_empty_exec(v.get("from")));
            let anchor = String::from_str(str_or_empty_exec(v.get("context_anchor")));
            let to = match &meta.record_id {
                Some(r) => trim_quote_chars(r.as_str()),
                None => trim_quote_chars(""),
            };
            proof {
                reveal_strlit("");
            }
            assert(from@ == str_or_empty(json_get(v, "from"@)));
            assert(anchor@ == str_or_empty(json_get(v, "context_anchor"@)));
            assert(to@ == trim_quotes(match meta.record_id { Some(r) => r@, None => Seq::empty() }));
            let ghost lp = link_parsed_step(task_id@, meta, Some(v));
            assert(lp.1 == seq![ActionView::CheckRecordIds(from@, to@)]);
            push_action(acts, WorkerAction::CheckRecordIds { from: from.clone(), to: to.clone() });
            assert(actions_view(acts@) =~= pre + link_parsed_step(task_id@, meta, Some(v)).1);
            RunStage::CheckingLinkIds { meta, from, to, anchor }
        },
    }
}

fn mail_loaded_exec(
    task_id: &String,
    mail_ids: Vec<String>,
    index: usize,
    r: Result<Vec<JsonValue>, String>,
    enc: Option<(Result<String, CryptoError>, Result<String, CryptoError>)>,
    acts: &mut Vec<WorkerAction>,
) -> (s: RunStage)
    ensures
        (stage_view(s), actions_view(final(acts)@)) == after(
            actions_view(old(acts)@),
            mail_loaded_step(task_id@, mail_ids@, index as nat, r, enc_view(enc)),
        ),
{
    let ghost pre = actions_view(acts@);
    let has_bodies = match &r {
        Ok(rows) => mail_body_texts(rows).is_some(),
        Err(_) => false,
    };
    if !has_bodies {
        return mail_skip_exec(task_id, mail_ids, index, acts);
    }
    match enc {
        Some((Ok(bt), Ok(bh))) => {
            if index < mail_ids.len() {
                proof {
                    lemma_ids_view(mail_ids@, index as int);
                }
                let id = mail_ids[index].clone();
                push_action(acts, WorkerAction::RunQuery(update_mail_query(id, bt, bh)));
                assert(actions_view(acts@) =~= pre + mail_loaded_step(task_id@, mail_ids@, index as nat, r, enc_view(enc)).1);
                RunStage::UpdatingMail { mail_ids, index }
            } else {
                mail_skip_exec(task_id, mail_ids, index, acts)
            }
        },
        _ => mail_skip_exec(task_id, mail_ids, index, acts),
    }
}

/// A task being carried out for a session.
pub struct TaskRun {
    session_id: String,
    task_id: String,
    stage: RunStage,
}

impl TaskRun {
    pub closed spec fn task_id_view(self) -> Seq<char> {
        self.task_id@
    }

    pub closed spec fn session_view(self) -> Seq<char> {
        self.session_id@
    }

    pub closed spec fn stage_of(self) -> RunStage {
        self.stage
    }

    /// A run of the queued task, not yet started.
    pub fn new(env: TaskEnvelope) -> (r: Self)
        ensures
            r.task_id_view() == env.task_id@,
            r.session_view() == env.session_id@,
            r.stage_of() == RunStage::Pending(env.task),
    {
        TaskRun { session_id: env.session_id, task_id: env.task_id, stage: RunStage::Pending(env.task) }
    }

    pub fn session_id(&self) -> (s: &str)
        ensures
            s@ == self.session_view(),
    {
        self.session_id.as_str()
    }

    pub fn task_id(&self) -> (s: &str)
        ensures
            s@ == self.task_id_view(),
    {
        self.task_id.as_str()
    }

    pub fn is_finished(&self) -> (b: bool)
        ensures
            b == self.stage_of() is Finished,
    {
        match self.stage {
            RunStage::Finished => true,
            _ => false,
        }
    }

    /// Whether the run waits for the rows of a mail (`MailLoaded`) rather than
    /// the completion of a query (`QueryDone`).
    pub fn awaits_rows(&self) -> (b: bool)
        ensures
            b == self.stage_of() is LoadingMail,
    {
        match self.stage {
            RunStage::LoadingMail { .. } => true,
            _ => false,
        }
    }

    /// Advances the run with what came of the last action, given whether the
    /// engine holds a key and the outcomes of encrypting the bodies of a
    /// loaded mail (`None` when there was nothing to encrypt).
    pub fn advance(
        self,
        has_key: bool,
        event: WorkerEvent,
        enc: Option<(Result<String, CryptoError>, Result<String, CryptoError>)>,
    ) -> (r: (TaskRun, Vec<WorkerAction>))
        ensures
            r.0.task_id_view() == self.task_id_view(),
            r.0.session_view() == self.session_view(),
            (stage_view(r.0.stage_of()), actions_view(r.1@)) == spec_step(
                self.task_id_view(),
                self.stage_of(),
                has_key,
                event,
                enc_view(enc),
            ),
            !awaits(self.stage_of(), event) ==> r.0.stage_of() == self.stage_of() && r.1@.len() == 0,
    {
        let TaskRun { session_id, task_id, stage } = self;
        let mut acts: Vec<WorkerAction> = Vec::new();
        assert(actions_view(acts@) =~= Seq::<ActionView>::empty());
        let ghost empty = actions_view(acts@);
        let new_stage: RunStage = match (stage, event) {
            (RunStage::Pending(task), WorkerEvent::Start) => start_exec(&task_id, task, has_key, &mut acts),
            (RunStage::LoadingDocument { link_ctx }, WorkerEvent::DocumentLoaded(r)) => document_loaded_exec(
                &task_id,
                link_ctx,
                r,
                &mut acts,
            ),
            (RunStage::ParsingLink { meta }, WorkerEvent::LinkParsed(link)) => link_parsed_exec(&task_id, meta, link, &mut acts),
            (RunStage::CheckingLinkIds { meta, from, to, anchor }, WorkerEvent::RecordIdsChecked(ok)) => {
                if ok {
                    push_action(&mut acts, WorkerAction::RunQuery(relate_query(from, to, anchor)));
                    RunStage::Relating { meta }
                } else {
                    doc_complete_exec(&task_id, meta, &mut acts);
                    RunStage::Finished
                }
            },
            (RunStage::Relating { meta }, WorkerEvent::QueryDone) => {
                doc_complete_exec(&task_id, meta, &mut acts);
                RunStage::Finished
            },
            (RunStage::CheckingMailId { mail_ids, index }, WorkerEvent::MailIdChecked(ok)) => {
                if ok && index < mail_ids.len() {
                    proof {
                        lemma_ids_view(mail_ids@, index as int);
                    }
                    let id = mail_ids[index].clone();
                    push_action(&mut acts, WorkerAction::RunQuery(select_mail_query(id)));
                    RunStage::LoadingMail { mail_ids, index }
                } else {
                    mail_skip_exec(&task_id, mail_ids, index, &mut acts)
                }
            },
            (RunStage::LoadingMail { mail_ids, index }, WorkerEvent::MailLoaded(r)) => mail_loaded_exec(
                &task_id,
                mail_ids,
                index,
                r,
                enc,
                &mut acts,
            ),
            (RunStage::UpdatingMail { mail_ids, index }, WorkerEvent::QueryDone) => mail_skip_exec(
                &task_id,
                mail_ids,
                index,
                &mut acts,
            ),
            (s, _) => s,
        };
        (TaskRun { session_id, task_id, stage: new_stage }, acts)
    }

    /// Advances the run with what came of the last action; where a loaded
    /// mail is to be encrypted, both its bodies are encrypted with the engine.
    pub fn step(self, crypto: &CryptoEngine, event: WorkerEvent) -> (r: (TaskRun, Vec<WorkerAction>))
        ensures
            r.0.task_id_view() == self.task_id_view(),
            r.0.session_view() == self.session_view(),
            exists|enc: Option<(Result<Seq<char>, CryptoError>, Result<Seq<char>, CryptoError>)>|
                #[trigger] encryption_outcomes(step_encrypts(self.stage_of(), event), crypto.key(), enc)
                && (stage_view(r.0.stage_of()), actions_view(r.1@)) == spec_step(
                    self.task_id_view(),
                    self.stage_of(),
                    crypto.key() is Some,
                    event,
                    enc,
                ),
            !awaits(self.stage_of(), event) ==> r.0.stage_of() == self.stage_of() && r.1@.len() == 0,
    {
        let enc = match bodies_to_encrypt(&self.stage, &event) {
            Some((bt, bh)) => {
                let r1 = crypto.encrypt_field(bt);
                let r2 = crypto.encrypt_field(bh);
                Some((r1, r2))
            },
            None => None,
        };
        assert(encryption_outcomes(step_encrypts(self.stage_of(), event), crypto.key(), enc_view(enc)));
        let has_key = crypto.has_user_key();
        self.advance(has_key, event, enc)
    }
}

} // verus!

verus! {

/// The progress reported while encrypting mails never exceeds 100 percent.
pub proof fn law_mail_percentage_at_most_100(i: nat, n: nat)
    ensures
        0 <= spec_mail_percentage(i, n) <= 100,
{
}

/// Progress never goes backwards: a later mail reports at least the percentage of an earlier one.
pub proof fn law_mail_percentage_monotone(i: nat, j: nat, n: nat)
    requires
        i <= j,
    ensures
        spec_mail_percentage(i, n) <= spec_mail_percentage(j, n),
{
    let total: int = if n == 0 { 1 } else { n as int };
    assert((i + 1) * 100 <= (j + 1) * 100) by (nonlinear_arith)
        requires
            i <= j,
    ;
    assert(((i + 1) * 100) as int / total <= ((j + 1) * 100) as int / total) by (nonlinear_arith)
        requires
            (i + 1) * 100 <= (j + 1) * 100,
            total > 0,
    ;
}

/// The last mail of a batch reports 100 percent.
pub proof fn law_mail_percentage_last_is_100(n: nat)
    requires
        n > 0,
    ensures
        spec_mail_percentage((n - 1) as nat, n) == 100,
{
    assert((n * 100) as int / (n as int) == 100) by (nonlinear_arith)
        requires
            n > 0,
    ;
}

/// A mail already marked as end-to-end encrypted is never encrypted again.
pub proof fn law_encrypted_mail_not_reencrypted(rows: Seq<JsonValue>)
    requires
        rows.len() > 0,
        row_is_e2ee(rows[0]),
    ensures
        mail_bodies(rows) is None,
{
}

} // verus!

verus! {

/// The task a progress notice is about.
pub open spec fn progress_task(p: ProgressView) -> Seq<char> {
    match p {
        ProgressView::Started(t) => t,
        ProgressView::Processing(t, _, _) => t,
        ProgressView::Completed(t, _) => t,
        ProgressView::Failed(t, _) => t,
    }
}

/// Whether every notice among the actions is about the task.
pub open spec fn notices_name(acts: Seq<ActionView>, task_id: Seq<char>) -> bool {
    forall|i: int| 0 <= i < acts.len() && (#[trigger] acts[i]) is Notify ==> progress_task(acts[i]->Notify_0) == task_id
}

proof fn lemma_mail_next_names(task_id: Seq<char>, ids: Seq<Seq<char>>, i: nat)
    ensures
        notices_name(mail_next(task_id, ids, i).1, task_id),
        mail_next(task_id, ids, i).0 is Finished ==> mail_next(task_id, ids, i).1.last() == ActionView::Finish(true),
        mail_next(task_id, ids, i).1.len() > 0,
{
}

/// Every progress notice a task run sends is about the run's own task.
pub proof fn law_notices_name_their_task(
    task_id: Seq<char>,
    stage: RunStage,
    has_key: bool,
    ev: WorkerEvent,
    enc: Option<(Result<Seq<char>, CryptoError>, Result<Seq<char>, CryptoError>)>,
)
    ensures
        notices_name(spec_step(task_id, stage, has_key, ev, enc).1, task_id),
{
    match (stage, ev) {
        (RunStage::Pending(task), WorkerEvent::Start) => {
            if let OfficeTask::BulkEncryptMails { mail_ids } = task {
                lemma_mail_next_names(task_id, ids_view(mail_ids@), 0);
                let n = mail_next(task_id, ids_view(mail_ids@), 0).1;
                let all = seq![notify(ProgressView::Started(task_id))] + n;
                assert forall|i: int| 0 <= i < all.len() && (#[trigger] all[i]) is Notify implies progress_task(all[i]->Notify_0) == task_id by {
                    if i > 0 {
                        assert(all[i] == n[i - 1]);
                    }
                }
            }
        },
        (RunStage::CheckingMailId { mail_ids, index }, WorkerEvent::MailIdChecked(_)) => {
            lemma_mail_next_names(task_id, ids_view(mail_ids@), index as nat + 1);
        },
        (RunStage::LoadingMail { mail_ids, index }, WorkerEvent::MailLoaded(_)) => {
            lemma_mail_next_names(task_id, ids_view(mail_ids@), index as nat + 1);
        },
        (RunStage::UpdatingMail { mail_ids, index }, WorkerEvent::QueryDone) => {
            lemma_mail_next_names(task_id, ids_view(mail_ids@), index as nat + 1);
        },
        _ => {},
    }
}

/// A step that ends a run ends it with its `Finish` action, as the last one.
pub proof fn law_finishing_step_ends_with_finish(
    task_id: Seq<char>,
    stage: RunStage,
    has_key: bool,
    ev: WorkerEvent,
    enc: Option<(Result<Seq<char>, CryptoError>, Result<Seq<char>, CryptoError>)>,
)
    requires
        !(stage is Finished),
        spec_step(task_id, stage, has_key, ev, enc).0 is Finished,
    ensures
        spec_step(task_id, stage, has_key, ev, enc).1.len() > 0,
        spec_step(task_id, stage, has_key, ev, enc).1.last() is Finish,
{
    match (stage, ev) {
        (RunStage::Pending(task), WorkerEvent::Start) => {
            if let OfficeTask::BulkEncryptMails { mail_ids } = task {
                lemma_mail_next_names(task_id, ids_view(mail_ids@), 0);
            }
        },
        (RunStage::CheckingMailId { mail_ids, index }, WorkerEvent::MailIdChecked(_)) => {
            lemma_mail_next_names(task_id, ids_view(mail_ids@), index as nat + 1);
        },
        (RunStage::LoadingMail { mail_ids, index }, WorkerEvent::MailLoaded(_)) => {
            lemma_mail_next_names(task_id, ids_view(mail_ids@), index as nat + 1);
        },
        (RunStage::UpdatingMail { mail_ids, index }, WorkerEvent::QueryDone) => {
            lemma_mail_next_names(task_id, ids_view(mail_ids@), index as nat + 1);
        },
        _ => {},
    }
}

} // verus!
