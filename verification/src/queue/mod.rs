//! Background tasks: what can be queued, the progress notices a task emits,
//! and the identifiers of tasks and sessions.

pub mod run;
pub mod worker;

use vstd::prelude::*;

use crate::text::{dec_text, digit_char, push_decimal};

verus! {

/// Work the background worker performs.
#[derive(Debug)]
pub enum OfficeTask {
    ProcessDocument { path: String, link_ctx: Option<String> },
    BulkEncryptMails { mail_ids: Vec<String> },
    NetworkSyncDelta { peer_id: String },
}

/// A progress notice of a task.
#[derive(Debug)]
pub enum TaskProgress {
    Started { task_id: String },
    Processing { task_id: String, percentage: u8, status_message: String },
    Completed { task_id: String, result_summary: String },
    Failed { task_id: String, error_message: String },
}

/// A queued task with the session that asked for it.
#[derive(Debug)]
pub struct TaskEnvelope {
    pub session_id: String,
    pub task_id: String,
    pub task: OfficeTask,
}

/// `<prefix>-<unix time>-<counter>`.
pub open spec fn spec_prefixed_id(prefix: Seq<char>, unix_time: u64, counter: u64) -> Seq<char> {
    prefix + seq!['-'] + dec_text(unix_time as nat) + seq!['-'] + dec_text(counter as nat)
}

fn prefixed_id(prefix: &str, unix_time: u64, counter: u64) -> (id: String)
    ensures
        id@ == spec_prefixed_id(prefix@, unix_time, counter),
{
    let mut id = String::from_str(prefix);
    crate::text::push_char(&mut id, '-');
    push_decimal(&mut id, unix_time);
    crate::text::push_char(&mut id, '-');
    push_decimal(&mut id, counter);
    assert(id@ =~= spec_prefixed_id(prefix@, unix_time, counter));
    id
}

/// Identifier of a task: `task-<unix time>-<counter>`.
pub fn new_task_id(unix_time: u64, counter: u64) -> (id: String)
    ensures
        id@ == spec_prefixed_id("task"@, unix_time, counter),
{
    prefixed_id("task", unix_time, counter)
}

/// Identifier of a session: `sess-<unix time>-<counter>`.
pub fn new_session_id(unix_time: u64, counter: u64) -> (id: String)
    ensures
        id@ == spec_prefixed_id("sess"@, unix_time, counter),
{
    prefixed_id("sess", unix_time, counter)
}

/// Decimal text is a nonempty run of digits.
proof fn lemma_dec_text_digits(n: nat)
    ensures
        dec_text(n).len() >= 1,
        forall|i: int| 0 <= i < dec_text(n).len() ==> #[trigger] dec_text(n)[i] != '-',
    decreases n,
{
    if n >= 10 {
        lemma_dec_text_digits(n / 10);
        assert forall|i: int| 0 <= i < dec_text(n).len() implies #[trigger] dec_text(n)[i] != '-' by {
            if i < dec_text(n / 10).len() {
                assert(dec_text(n)[i] == dec_text(n / 10)[i]);
            }
        }
    }
}

/// The digit of `d` is the character with code `48 + d`.
proof fn lemma_digit_char_code(d: nat)
    requires
        d < 10,
    ensures
        digit_char(d) as int == 48 + d,
{
    let s = seq!['0', '1', '2', '3', '4', '5', '6', '7', '8', '9'];
    assert(s[0] == '0' && s[1] == '1' && s[2] == '2' && s[3] == '3' && s[4] == '4');
    assert(s[5] == '5' && s[6] == '6' && s[7] == '7' && s[8] == '8' && s[9] == '9');
}

/// Distinct numbers have distinct decimal texts.
proof fn lemma_dec_text_injective(a: nat, b: nat)
    requires
        dec_text(a) == dec_text(b),
    ensures
        a == b,
    decreases a,
{
    lemma_dec_text_digits(a);
    lemma_dec_text_digits(b);
    if a >= 10 && b >= 10 {
        let da = dec_text(a);
        assert(da.drop_last() =~= dec_text(a / 10));
        assert(dec_text(b).drop_last() =~= dec_text(b / 10));
        lemma_dec_text_injective(a / 10, b / 10);
        assert(dec_text(a).last() == digit_char(a % 10));
        assert(dec_text(b).last() == digit_char(b % 10));
        assert(digit_char(a % 10) == digit_char(b % 10));
        lemma_digit_char_code(a % 10);
        lemma_digit_char_code(b % 10);
    } else if a < 10 && b < 10 {
        assert(dec_text(a)[0] == digit_char(a));
        assert(dec_text(b)[0] == digit_char(b));
        assert(digit_char(a) == digit_char(b));
        lemma_digit_char_code(a);
        lemma_digit_char_code(b);
    } else if a < 10 {
        lemma_dec_text_digits(b / 10);
        assert(dec_text(b).len() >= 2);
    } else {
        lemma_dec_text_digits(a / 10);
        assert(dec_text(a).len() >= 2);
    }
}

/// `x-y` determines `x` and `y` when neither holds a `-`.
proof fn lemma_split_at_dash(x1: Seq<char>, y1: Seq<char>, x2: Seq<char>, y2: Seq<char>)
    requires
        x1 + seq!['-'] + y1 == x2 + seq!['-'] + y2,
        forall|i: int| 0 <= i < x1.len() ==> #[trigger] x1[i] != '-',
        forall|i: int| 0 <= i < x2.len() ==> #[trigger] x2[i] != '-',
    ensures
        x1 == x2,
        y1 == y2,
{
    let s = x1 + seq!['-'] + y1;
    let t = x2 + seq!['-'] + y2;
    if x1.len() < x2.len() {
        assert(s[x1.len() as int] == '-');
        assert(t[x1.len() as int] == x2[x1.len() as int]);
    } else if x2.len() < x1.len() {
        assert(t[x2.len() as int] == '-');
        assert(s[x2.len() as int] == x1[x2.len() as int]);
    }
    assert(x1 =~= s.subrange(0, x1.len() as int));
    assert(x2 =~= t.subrange(0, x2.len() as int));
    assert(y1 =~= s.subrange(x1.len() as int + 1, s.len() as int));
    assert(y2 =~= t.subrange(x2.len() as int + 1, t.len() as int));
}

/// Identifiers made with one prefix are equal only when made at the same
/// time with the same counter: distinct counters give distinct task and
/// session identifiers.
pub proof fn law_prefixed_ids_are_distinct(prefix: Seq<char>, t1: u64, c1: u64, t2: u64, c2: u64)
    requires
        spec_prefixed_id(prefix, t1, c1) == spec_prefixed_id(prefix, t2, c2),
    ensures
        t1 == t2,
        c1 == c2,
{
    let d1 = dec_text(t1 as nat) + seq!['-'] + dec_text(c1 as nat);
    let d2 = dec_text(t2 as nat) + seq!['-'] + dec_text(c2 as nat);
    let head = prefix + seq!['-'];
    let s1 = spec_prefixed_id(prefix, t1, c1);
    assert(s1 =~= head + d1);
    assert(spec_prefixed_id(prefix, t2, c2) =~= head + d2);
    assert(d1 =~= s1.subrange(head.len() as int, s1.len() as int));
    assert(d2 =~= s1.subrange(head.len() as int, s1.len() as int));
    lemma_dec_text_digits(t1 as nat);
    lemma_dec_text_digits(t2 as nat);
    lemma_split_at_dash(dec_text(t1 as nat), dec_text(c1 as nat), dec_text(t2 as nat), dec_text(c2 as nat));
    lemma_dec_text_injective(t1 as nat, t2 as nat);
    lemma_dec_text_injective(c1 as nat, c2 as nat);
}

} // verus!

verus! {

use crate::json::{jobject, jview, JsonNumber, JsonValue, JsonView, ObjectBuilder};
use crate::queue::worker::{progress_view, ProgressView};

/// The JSON of a progress notice: its variant's name holding its fields.
pub open spec fn progress_json_view(p: ProgressView) -> JsonView {
    match p {
        ProgressView::Started(t) => jobject(seq![("Started"@, jobject(seq![("task_id"@, JsonView::Str(t))]))]),
        ProgressView::Processing(t, pct, msg) => jobject(
            seq![
                (
                    "Processing"@,
                    jobject(
                        seq![
                            ("task_id"@, JsonView::Str(t)),
                            ("percentage"@, JsonView::Number(JsonNumber::PosInt(pct as u64))),
                            ("status_message"@, JsonView::Str(msg)),
                        ],
                    ),
                ),
            ],
        ),
        ProgressView::Completed(t, summary) => jobject(
            seq![
                (
                    "Completed"@,
                    jobject(seq![("task_id"@, JsonView::Str(t)), ("result_summary"@, JsonView::Str(summary))]),
                ),
            ],
        ),
        ProgressView::Failed(t, e) => jobject(
            seq![("Failed"@, jobject(seq![("task_id"@, JsonView::Str(t)), ("error_message"@, JsonView::Str(e))]))],
        ),
    }
}

/// The `task:progress` notification sent to a session: the notice, and the
/// task's result when there is one.
pub open spec fn progress_notification_view(p: ProgressView, result: Option<JsonView>) -> JsonView {
    jobject(
        seq![
            ("method"@, JsonView::Str("task:progress"@)),
            (
                "params"@,
                match result {
                    Some(r) => jobject(seq![("progress"@, progress_json_view(p)), ("result"@, r)]),
                    None => jobject(seq![("progress"@, progress_json_view(p))]),
                },
            ),
        ],
    )
}

fn one(key: &str, value: JsonValue) -> (v: JsonValue)
    ensures
        jview(v) == jobject(seq![(key@, jview(value))]),
{
    let mut b = ObjectBuilder::new();
    b.add(key, value);
    assert(b.view() =~= seq![(key@, jview(value))]);
    b.build()
}

fn text(s: String) -> (v: JsonValue)
    ensures
        jview(v) == JsonView::Str(s@),
{
    JsonValue::String(s)
}

/// The JSON of a progress notice.
pub fn progress_json(p: TaskProgress) -> (v: JsonValue)
    ensures
        jview(v) == progress_json_view(progress_view(p)),
{
    let ghost pv = progress_view(p);
    match p {
        TaskProgress::Started { task_id } => one("Started", one("task_id", text(task_id))),
        TaskProgress::Processing { task_id, percentage, status_message } => {
            let mut b = ObjectBuilder::new();
            b.add("task_id", text(task_id));
            b.add("percentage", JsonValue::Number(JsonNumber::PosInt(percentage as u64)));
            b.add("status_message", text(status_message));
            let ghost inner = b.view();
            let v = one("Processing", b.build());
            assert(inner =~= seq![
                ("task_id"@, JsonView::Str(pv->Processing_0)),
                ("percentage"@, JsonView::Number(JsonNumber::PosInt(pv->Processing_1 as u64))),
                ("status_message"@, JsonView::Str(pv->Processing_2)),
            ]);
            v
        },
        TaskProgress::Completed { task_id, result_summary } => {
            let mut b = ObjectBuilder::new();
            b.add("task_id", text(task_id));
            b.add("result_summary", text(result_summary));
            let ghost inner = b.view();
            let v = one("Completed", b.build());
            assert(inner =~= seq![
                ("task_id"@, JsonView::Str(pv->Completed_0)),
                ("result_summary"@, JsonView::Str(pv->Completed_1)),
            ]);
            v
        },
        TaskProgress::Failed { task_id, error_message } => {
            let mut b = ObjectBuilder::new();
            b.add("task_id", text(task_id));
            b.add("error_message", text(error_message));
            let ghost inner = b.view();
            let v = one("Failed", b.build());
            assert(inner =~= seq![
                ("task_id"@, JsonView::Str(pv->Failed_0)),
                ("error_message"@, JsonView::Str(pv->Failed_1)),
            ]);
            v
        },
    }
}

/// The `task:progress` notification for a notice and, when there is one, the task's result.
pub fn progress_notification(p: TaskProgress, result: Option<JsonValue>) -> (v: JsonValue)
    ensures
        jview(v) == progress_notification_view(progress_view(p), crate::json::opt_jview(result)),
{
    let ghost pv = progress_view(p);
    let ghost rv_opt = crate::json::opt_jview(result);
    let progress = progress_json(p);
    let ghost progress_v = jview(progress);
    let mut params = ObjectBuilder::new();
    params.add("progress", progress);
    match result {
        Some(r) => {
            let ghost rv = jview(r);
            params.add("result", r);
            assert(params.view() =~= seq![("progress"@, progress_v), ("result"@, rv)]);
        },
        None => {
            assert(params.view() =~= seq![("progress"@, progress_v)]);
        },
    }
    let ghost expected_params = match rv_opt {
        Some(r) => jobject(seq![("progress"@, progress_json_view(pv)), ("result"@, r)]),
        None => jobject(seq![("progress"@, progress_json_view(pv))]),
    };
    assert(JsonView::Object(params.view()) == expected_params);
    let mut b = ObjectBuilder::new();
    b.add("method", JsonValue::String(String::from_str("task:progress")));
    b.add("params", params.build());
    assert(progress_notification_view(pv, rv_opt)->Object_0 =~= b.view());
    b.build()
}

} // verus!
