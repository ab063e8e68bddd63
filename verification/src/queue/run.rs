//! Laws over a whole task run: the sequence of steps from a pending run on,
//! and the actions they ask for, one step after another.

use vstd::prelude::*;

use crate::crypto::CryptoError;
use crate::queue::worker::{
    ids_view, law_mail_percentage_at_most_100, law_mail_percentage_monotone, law_notices_name_their_task, mail_next,
    notices_name, notify, progress_task, spec_mail_percentage, spec_step, stage_view, ActionView, ProgressView, RunStage, StageView, WorkerEvent,
};
use crate::lok::DocumentMetaExtract;
use crate::orchestrator::{bound_value, BindView};
use crate::queue::OfficeTask;
use crate::queue::worker::{encryption_outcomes, link_parsed_step, step_encrypts, trim_quotes};
use crate::crypto::spec_decrypt_field;
use crate::rpc::text_member;
use crate::json::JsonValue;

verus! {

/// The kinds of action a run's bookkeeping speaks of.
pub enum ActionKind {
    /// The `Started` notice.
    Started,
    /// A `Completed` or `Failed` notice.
    Terminal,
    /// The `Finish` action.
    Finish,
}

/// Whether an action is of the kind.
pub open spec fn is_kind(a: ActionView, k: ActionKind) -> bool {
    match k {
        ActionKind::Started => a matches ActionView::Notify(ProgressView::Started(_), _),
        ActionKind::Terminal => a matches ActionView::Notify(ProgressView::Completed(_, _), _)
            || a matches ActionView::Notify(ProgressView::Failed(_, _), _),
        ActionKind::Finish => a is Finish,
    }
}

/// How many actions are of the kind.
pub open spec fn count_kind(s: Seq<ActionView>, k: ActionKind) -> nat
    decreases s.len(),
{
    if s.len() == 0 {
        0
    } else {
        (if is_kind(s[0], k) { 1nat } else { 0nat }) + count_kind(s.drop_first(), k)
    }
}

/// Counting splits over concatenation.
proof fn lemma_count_add(a: Seq<ActionView>, b: Seq<ActionView>, k: ActionKind)
    ensures
        count_kind(a + b, k) == count_kind(a, k) + count_kind(b, k),
    decreases a.len(),
{
    if a.len() > 0 {
        assert((a + b).drop_first() =~= a.drop_first() + b);
        lemma_count_add(a.drop_first(), b, k);
    } else {
        assert(a + b =~= b);
    }
}

/// The outcomes of encrypting the bodies of a loaded mail, as a step takes them.
pub type EncOutcomes = Option<(Result<Seq<char>, CryptoError>, Result<Seq<char>, CryptoError>)>;

/// Whether the stages, events and encryption outcomes form a run of the task:
/// each stage is the one the step before it leads to.
pub open spec fn is_run(
    task_id: Seq<char>,
    stages: Seq<RunStage>,
    has_key: bool,
    events: Seq<WorkerEvent>,
    encs: Seq<EncOutcomes>,
) -> bool {
    &&& stages.len() == events.len() + 1
    &&& encs.len() == events.len()
    &&& forall|k: int|
        0 <= k < events.len() ==> stage_view(stages[k + 1]) == #[trigger] spec_step(
            task_id,
            stages[k],
            has_key,
            events[k],
            encs[k],
        ).0
}

/// The actions of the first `n` steps of a run, in order.
pub open spec fn run_actions(
    task_id: Seq<char>,
    stages: Seq<RunStage>,
    has_key: bool,
    events: Seq<WorkerEvent>,
    encs: Seq<EncOutcomes>,
    n: nat,
) -> Seq<ActionView>
    decreases n,
{
    if n == 0 {
        Seq::empty()
    } else {
        run_actions(task_id, stages, has_key, events, encs, (n - 1) as nat) + spec_step(
            task_id,
            stages[n - 1],
            has_key,
            events[n - 1],
            encs[n - 1],
        ).1
    }
}

/// What one step asks for, as far as a run's bookkeeping goes.
pub open spec fn step_bookkeeping(s: RunStage, v: StageView, a: Seq<ActionView>) -> bool {
    &&& s is Finished ==> v is Finished && a.len() == 0
    &&& s is Pending ==> (a.len() == 0 && v is Pending) || (a.len() > 0 && is_kind(a[0], ActionKind::Started)
        && count_kind(a, ActionKind::Started) == 1 && !(v is Pending))
    &&& !(s is Pending) ==> count_kind(a, ActionKind::Started) == 0 && !(v is Pending)
    &&& !(s is Finished) && v is Finished ==> {
        &&& count_kind(a, ActionKind::Terminal) == 1
        &&& count_kind(a, ActionKind::Finish) == 1
        &&& a.len() >= 2
        &&& a.last() is Finish
        &&& is_kind(a[a.len() - 2], ActionKind::Terminal)
        &&& (a.last() == ActionView::Finish(true)) == (a[a.len() - 2] matches ActionView::Notify(
            ProgressView::Completed(_, _),
            _,
        ))
    }
    &&& !(v is Finished) ==> count_kind(a, ActionKind::Terminal) == 0 && count_kind(a, ActionKind::Finish) == 0
}

proof fn lemma_mail_next_bookkeeping(task_id: Seq<char>, ids: Seq<Seq<char>>, i: nat)
    ensures
        !(mail_next(task_id, ids, i).0 is Pending),
        count_kind(mail_next(task_id, ids, i).1, ActionKind::Started) == 0,
        mail_next(task_id, ids, i).0 is Finished ==> {
            let a = mail_next(task_id, ids, i).1;
            &&& count_kind(a, ActionKind::Terminal) == 1
            &&& count_kind(a, ActionKind::Finish) == 1
            &&& a.len() >= 2
            &&& a.last() is Finish
            &&& is_kind(a[a.len() - 2], ActionKind::Terminal)
        &&& (a.last() == ActionView::Finish(true)) == (a[a.len() - 2] matches ActionView::Notify(
            ProgressView::Completed(_, _),
            _,
        ))
        },
        !(mail_next(task_id, ids, i).0 is Finished) ==> count_kind(mail_next(task_id, ids, i).1, ActionKind::Terminal) == 0
            && count_kind(mail_next(task_id, ids, i).1, ActionKind::Finish) == 0,
{
    reveal_with_fuel(count_kind, 4);
    let a = mail_next(task_id, ids, i).1;
    assert(a.len() == 2);
    assert(a.drop_first().drop_first() =~= Seq::<ActionView>::empty());
}

/// One step keeps the run's bookkeeping.
proof fn lemma_step_bookkeeping(
    task_id: Seq<char>,
    stage: RunStage,
    has_key: bool,
    ev: WorkerEvent,
    enc: EncOutcomes,
)
    ensures
        step_bookkeeping(stage, spec_step(task_id, stage, has_key, ev, enc).0, spec_step(task_id, stage, has_key, ev, enc).1),
{
    reveal_with_fuel(count_kind, 6);
    let st = spec_step(task_id, stage, has_key, ev, enc);
    let a = st.1;
    match (stage, ev) {
        (RunStage::Pending(task), WorkerEvent::Start) => {
            match task {
                OfficeTask::BulkEncryptMails { mail_ids } => {
                    if has_key {
                        let next = mail_next(task_id, ids_view(mail_ids@), 0);
                        lemma_mail_next_bookkeeping(task_id, ids_view(mail_ids@), 0);
                        let head = seq![notify(ProgressView::Started(task_id))];
                        assert(a == head + next.1);
                        lemma_count_add(head, next.1, ActionKind::Started);
                        lemma_count_add(head, next.1, ActionKind::Terminal);
                        lemma_count_add(head, next.1, ActionKind::Finish);
                        assert(a[0] == head[0]);
                        if next.0 is Finished {
                            assert(a.last() == next.1.last());
                            assert(a[a.len() - 2] == next.1[next.1.len() - 2]);
                        }
                    } else {
                        assert(a.drop_first().drop_first().drop_first() =~= Seq::<ActionView>::empty());
                    }
                },
                OfficeTask::ProcessDocument { .. } => {
                    assert(a.drop_first().drop_first().drop_first() =~= Seq::<ActionView>::empty());
                },
                OfficeTask::NetworkSyncDelta { .. } => {
                    assert(a.drop_first().drop_first().drop_first().drop_first() =~= Seq::<ActionView>::empty());
                },
            }
        },
        (RunStage::LoadingDocument { link_ctx }, WorkerEvent::DocumentLoaded(r)) => {
            match r {
                Err(_) => {
                    assert(a.drop_first().drop_first() =~= Seq::<ActionView>::empty());
                },
                Ok(meta) => {
                    if st.0 is Finished {
                        assert(a.len() == 3);
                        assert(a.drop_first().drop_first().drop_first() =~= Seq::<ActionView>::empty());
                    } else {
                        assert(a.len() == 2);
                        assert(a.drop_first().drop_first() =~= Seq::<ActionView>::empty());
                    }
                },
            }
        },
        (RunStage::ParsingLink { .. }, WorkerEvent::LinkParsed(_)) => {
            assert(a.len() <= 2);
            assert(a.len() == 2 ==> a.drop_first().drop_first() =~= Seq::<ActionView>::empty());
            assert(a.len() == 1 ==> a.drop_first() =~= Seq::<ActionView>::empty());
        },
        (RunStage::CheckingLinkIds { .. }, WorkerEvent::RecordIdsChecked(_)) => {
            assert(a.len() <= 2);
            assert(a.len() == 2 ==> a.drop_first().drop_first() =~= Seq::<ActionView>::empty());
            assert(a.len() == 1 ==> a.drop_first() =~= Seq::<ActionView>::empty());
        },
        (RunStage::Relating { .. }, WorkerEvent::QueryDone) => {
            assert(a.drop_first().drop_first() =~= Seq::<ActionView>::empty());
        },
        (RunStage::CheckingMailId { mail_ids, index }, WorkerEvent::MailIdChecked(ok)) => {
            lemma_mail_next_bookkeeping(task_id, ids_view(mail_ids@), index as nat + 1);
            if ok && index < mail_ids@.len() {
                assert(a.drop_first() =~= Seq::<ActionView>::empty());
            }
        },
        (RunStage::LoadingMail { mail_ids, index }, WorkerEvent::MailLoaded(_)) => {
            lemma_mail_next_bookkeeping(task_id, ids_view(mail_ids@), index as nat + 1);
            if st.0 is UpdatingMail {
                assert(a.drop_first() =~= Seq::<ActionView>::empty());
            }
        },
        (RunStage::UpdatingMail { mail_ids, index }, WorkerEvent::QueryDone) => {
            lemma_mail_next_bookkeeping(task_id, ids_view(mail_ids@), index as nat + 1);
        },
        _ => {},
    }
}

/// The percentage of a `Processing` notice.
pub open spec fn percentage_of(a: ActionView) -> Option<int> {
    match a {
        ActionView::Notify(ProgressView::Processing(_, p, _), _) => Some(p as int),
        _ => None,
    }
}

/// Whether the percentages of the `Processing` notices among the actions
/// never go down, start at `lo` or above, and stay at `hi` or below.
pub open spec fn progress_ok(s: Seq<ActionView>, lo: int, hi: int) -> bool
    decreases s.len(),
{
    if s.len() == 0 {
        true
    } else {
        match percentage_of(s[0]) {
            Some(p) => lo <= p <= hi && progress_ok(s.drop_first(), p, hi),
            None => progress_ok(s.drop_first(), lo, hi),
        }
    }
}

/// The least percentage a run may still report from a stage on (and the
/// most it has reported so far).
pub open spec fn view_floor(v: StageView) -> int {
    match v {
        StageView::Pending => 0,
        StageView::LoadingDocument(_) => 10,
        StageView::ParsingLink(_) => 75,
        StageView::CheckingLinkIds(_, _, _, _) => 75,
        StageView::Relating(_) => 75,
        StageView::CheckingMailId(ids, i) => spec_mail_percentage(i, ids.len()),
        StageView::LoadingMail(ids, i) => spec_mail_percentage(i, ids.len()),
        StageView::UpdatingMail(ids, i) => spec_mail_percentage(i, ids.len()),
        StageView::Finished => 100,
    }
}

proof fn lemma_progress_weaken(s: Seq<ActionView>, lo: int, lo2: int, hi: int, hi2: int)
    requires
        progress_ok(s, lo, hi),
        lo2 <= lo,
        hi <= hi2,
    ensures
        progress_ok(s, lo2, hi2),
    decreases s.len(),
{
    if s.len() > 0 {
        match percentage_of(s[0]) {
            Some(p) => lemma_progress_weaken(s.drop_first(), p, p, hi, hi2),
            None => lemma_progress_weaken(s.drop_first(), lo, lo2, hi, hi2),
        }
    }
}

proof fn lemma_progress_add(a: Seq<ActionView>, b: Seq<ActionView>, lo: int, mid: int, hi: int)
    requires
        progress_ok(a, lo, mid),
        progress_ok(b, mid, hi),
        lo <= mid <= hi,
    ensures
        progress_ok(a + b, lo, hi),
    decreases a.len(),
{
    if a.len() == 0 {
        assert(a + b =~= b);
        lemma_progress_weaken(b, mid, lo, hi, hi);
    } else {
        assert((a + b).drop_first() =~= a.drop_first() + b);
        assert((a + b)[0] == a[0]);
        match percentage_of(a[0]) {
            Some(p) => lemma_progress_add(a.drop_first(), b, p, mid, hi),
            None => lemma_progress_add(a.drop_first(), b, lo, mid, hi),
        }
    }
}

proof fn lemma_mail_next_progress(task_id: Seq<char>, ids: Seq<Seq<char>>, i: nat, lo: int)
    requires
        lo <= spec_mail_percentage(i, ids.len()),
    ensures
        progress_ok(mail_next(task_id, ids, i).1, lo, view_floor(mail_next(task_id, ids, i).0)),
        lo <= view_floor(mail_next(task_id, ids, i).0) <= 100,
{
    reveal_with_fuel(progress_ok, 3);
    law_mail_percentage_at_most_100(i, ids.len());
    let a = mail_next(task_id, ids, i).1;
    assert(a.drop_first().drop_first() =~= Seq::<ActionView>::empty());
}

/// One step reports percentages from the floor of its stage up to the floor
/// of the next, never going down.
proof fn lemma_step_progress(
    task_id: Seq<char>,
    stage: RunStage,
    has_key: bool,
    ev: WorkerEvent,
    enc: EncOutcomes,
)
    requires
        view_floor(stage_view(stage)) <= 100,
    ensures
        progress_ok(
            spec_step(task_id, stage, has_key, ev, enc).1,
            view_floor(stage_view(stage)),
            view_floor(spec_step(task_id, stage, has_key, ev, enc).0),
        ),
        view_floor(stage_view(stage)) <= view_floor(spec_step(task_id, stage, has_key, ev, enc).0) <= 100,
{
    reveal_with_fuel(progress_ok, 6);
    let st = spec_step(task_id, stage, has_key, ev, enc);
    let a = st.1;
    match (stage, ev) {
        (RunStage::Pending(task), WorkerEvent::Start) => {
            match task {
                OfficeTask::BulkEncryptMails { mail_ids } => {
                    if has_key {
                        let ids = ids_view(mail_ids@);
                        law_mail_percentage_at_most_100(0, ids.len());
                        lemma_mail_next_progress(task_id, ids, 0, 0);
                        let head = seq![notify(ProgressView::Started(task_id))];
                        assert(a == head + mail_next(task_id, ids, 0).1);
                        assert(head.drop_first() =~= Seq::<ActionView>::empty());
                        lemma_progress_add(head, mail_next(task_id, ids, 0).1, 0, 0, view_floor(st.0));
                    } else {
                        assert(a.drop_first().drop_first().drop_first() =~= Seq::<ActionView>::empty());
                    }
                },
                OfficeTask::ProcessDocument { .. } => {
                    assert(a.drop_first().drop_first().drop_first() =~= Seq::<ActionView>::empty());
                },
                OfficeTask::NetworkSyncDelta { .. } => {
                    assert(a.drop_first().drop_first().drop_first().drop_first() =~= Seq::<ActionView>::empty());
                },
            }
        },
        (RunStage::LoadingDocument { link_ctx }, WorkerEvent::DocumentLoaded(r)) => {
            match r {
                Err(_) => {
                    assert(a.drop_first().drop_first() =~= Seq::<ActionView>::empty());
                },
                Ok(meta) => {
                    if st.0 is Finished {
                        assert(a.drop_first().drop_first().drop_first() =~= Seq::<ActionView>::empty());
                    } else {
                        assert(a.drop_first().drop_first() =~= Seq::<ActionView>::empty());
                    }
                },
            }
        },
        (RunStage::ParsingLink { .. }, WorkerEvent::LinkParsed(_)) => {
            assert(a.len() == 2 ==> a.drop_first().drop_first() =~= Seq::<ActionView>::empty());
            assert(a.len() == 1 ==> a.drop_first() =~= Seq::<ActionView>::empty());
        },
        (RunStage::CheckingLinkIds { .. }, WorkerEvent::RecordIdsChecked(_)) => {
            assert(a.len() == 2 ==> a.drop_first().drop_first() =~= Seq::<ActionView>::empty());
            assert(a.len() == 1 ==> a.drop_first() =~= Seq::<ActionView>::empty());
        },
        (RunStage::Relating { .. }, WorkerEvent::QueryDone) => {
            assert(a.drop_first().drop_first() =~= Seq::<ActionView>::empty());
        },
        (RunStage::CheckingMailId { mail_ids, index }, WorkerEvent::MailIdChecked(ok)) => {
            let ids = ids_view(mail_ids@);
            law_mail_percentage_monotone(index as nat, index as nat + 1, ids.len());
            law_mail_percentage_at_most_100(index as nat, ids.len());
            lemma_mail_next_progress(task_id, ids, index as nat + 1, view_floor(stage_view(stage)));
            if ok && index < mail_ids@.len() {
                assert(a.drop_first() =~= Seq::<ActionView>::empty());
            }
        },
        (RunStage::LoadingMail { mail_ids, index }, WorkerEvent::MailLoaded(_)) => {
            let ids = ids_view(mail_ids@);
            law_mail_percentage_monotone(index as nat, index as nat + 1, ids.len());
            law_mail_percentage_at_most_100(index as nat, ids.len());
            lemma_mail_next_progress(task_id, ids, index as nat + 1, view_floor(stage_view(stage)));
            if st.0 is UpdatingMail {
                assert(a.drop_first() =~= Seq::<ActionView>::empty());
            }
        },
        (RunStage::UpdatingMail { mail_ids, index }, WorkerEvent::QueryDone) => {
            let ids = ids_view(mail_ids@);
            law_mail_percentage_monotone(index as nat, index as nat + 1, ids.len());
            lemma_mail_next_progress(task_id, ids, index as nat + 1, view_floor(stage_view(stage)));
        },
        _ => {},
    }
}

/// The bookkeeping of a run after its first `n` steps.
pub open spec fn run_bookkeeping(stage: RunStage, acts: Seq<ActionView>) -> bool {
    &&& view_floor(stage_view(stage)) <= 100
    &&& progress_ok(acts, 0, view_floor(stage_view(stage)))
    &&& stage is Pending ==> acts.len() == 0
    &&& !(stage is Pending) ==> acts.len() > 0 && is_kind(acts[0], ActionKind::Started) && count_kind(
        acts,
        ActionKind::Started,
    ) == 1
    &&& stage is Finished ==> {
        &&& count_kind(acts, ActionKind::Terminal) == 1
        &&& count_kind(acts, ActionKind::Finish) == 1
        &&& acts.len() >= 2
        &&& acts.last() is Finish
        &&& is_kind(acts[acts.len() - 2], ActionKind::Terminal)
        &&& (acts.last() == ActionView::Finish(true)) == (acts[acts.len() - 2] matches ActionView::Notify(
            ProgressView::Completed(_, _),
            _,
        ))
    }
    &&& !(stage is Finished) ==> count_kind(acts, ActionKind::Terminal) == 0 && count_kind(
        acts,
        ActionKind::Finish,
    ) == 0
}

/// Over a whole run from a pending task: every notice names the task;
/// nothing is sent before the run
/// starts; its first action is the `Started` notice, sent once; while it runs
/// it sends no `Completed` or `Failed` notice and no `Finish`; once it is over
/// it has sent exactly one `Completed` or `Failed` notice and exactly one
/// `Finish`, the notice last among the notices and the `Finish` last of all,
/// reporting success exactly when that notice is `Completed`; the percentages it reports never go down and never exceed 100.
pub proof fn law_run_notices(
    task_id: Seq<char>,
    stages: Seq<RunStage>,
    has_key: bool,
    events: Seq<WorkerEvent>,
    encs: Seq<EncOutcomes>,
)
    requires
        is_run(task_id, stages, has_key, events, encs),
        stages[0] is Pending,
    ensures
        run_bookkeeping(stages.last(), run_actions(task_id, stages, has_key, events, encs, events.len())),
        progress_ok(run_actions(task_id, stages, has_key, events, encs, events.len()), 0, 100),
        notices_name(run_actions(task_id, stages, has_key, events, encs, events.len()), task_id),
    decreases events.len(),
{
    let n = events.len();
    if n > 0 {
        let m = (n - 1) as nat;
        let stages0 = stages.subrange(0, n as int);
        let events0 = events.subrange(0, m as int);
        let encs0 = encs.subrange(0, m as int);
        assert forall|k: int| 0 <= k < events0.len() implies stage_view(stages0[k + 1]) == #[trigger] spec_step(
            task_id,
            stages0[k],
            has_key,
            events0[k],
            encs0[k],
        ).0 by {
            assert(stage_view(stages[k + 1]) == spec_step(task_id, stages[k], has_key, events[k], encs[k]).0);
        }
        law_run_notices(task_id, stages0, has_key, events0, encs0);
        lemma_run_actions_prefix(task_id, stages, stages0, has_key, events, events0, encs, encs0, m);
        let prev = run_actions(task_id, stages, has_key, events, encs, m);
        let st = spec_step(task_id, stages[m as int], has_key, events[m as int], encs[m as int]);
        lemma_step_bookkeeping(task_id, stages[m as int], has_key, events[m as int], encs[m as int]);
        lemma_step_progress(task_id, stages[m as int], has_key, events[m as int], encs[m as int]);
        assert(stage_view(stages[n as int]) == st.0);
        lemma_stage_view_kind(stages[n as int]);
        let all = prev + st.1;
        assert(all == run_actions(task_id, stages, has_key, events, encs, n));
        lemma_count_add(prev, st.1, ActionKind::Started);
        lemma_count_add(prev, st.1, ActionKind::Terminal);
        lemma_count_add(prev, st.1, ActionKind::Finish);
        lemma_progress_add(prev, st.1, 0, view_floor(stage_view(stages[m as int])), view_floor(st.0));
        law_notices_name_their_task(task_id, stages[m as int], has_key, events[m as int], encs[m as int]);
        assert forall|i: int| 0 <= i < all.len() && (#[trigger] all[i]) is Notify implies progress_task(
            all[i]->Notify_0,
        ) == task_id by {
            if i < prev.len() {
                assert(all[i] == prev[i]);
            } else {
                assert(all[i] == st.1[i - prev.len()]);
            }
        }
        if prev.len() > 0 {
            assert(all[0] == prev[0]);
        } else {
            assert(all =~= st.1);
        }
        if st.1.len() == 0 {
            assert(all =~= prev);
        } else if st.1.len() >= 2 {
            assert(all.last() == st.1.last());
            assert(all[all.len() - 2] == st.1[st.1.len() - 2]);
        }
    }
    let acts = run_actions(task_id, stages, has_key, events, encs, events.len());
    lemma_progress_weaken(acts, 0, 0, view_floor(stage_view(stages.last())), 100);
}

/// A stage and its view agree on being pending or finished.
proof fn lemma_stage_view_kind(s: RunStage)
    ensures
        (stage_view(s) is Pending) == (s is Pending),
        (stage_view(s) is Finished) == (s is Finished),
{
}

/// The actions of the first `m` steps depend on the first `m` steps alone.
proof fn lemma_run_actions_prefix(
    task_id: Seq<char>,
    stages: Seq<RunStage>,
    stages0: Seq<RunStage>,
    has_key: bool,
    events: Seq<WorkerEvent>,
    events0: Seq<WorkerEvent>,
    encs: Seq<EncOutcomes>,
    encs0: Seq<EncOutcomes>,
    m: nat,
)
    requires
        m <= events0.len(),
        m <= encs0.len(),
        m <= stages0.len(),
        m <= events.len(),
        m <= encs.len(),
        m <= stages.len(),
        forall|k: int| 0 <= k < m ==> stages0[k] == stages[k] && events0[k] == events[k] && encs0[k] == encs[k],
    ensures
        run_actions(task_id, stages0, has_key, events0, encs0, m) == run_actions(
            task_id,
            stages,
            has_key,
            events,
            encs,
            m,
        ),
    decreases m,
{
    if m > 0 {
        lemma_run_actions_prefix(task_id, stages, stages0, has_key, events, events0, encs, encs0, (m - 1) as nat);
        assert(stages0[m - 1] == stages[m - 1]);
        assert(events0[m - 1] == events[m - 1]);
        assert(encs0[m - 1] == encs[m - 1]);
    }
}

/// Once a document's link context has been read, a positive check of the
/// record ids relates the link's `from` record to the stored document, in
/// that direction: the one query run binds `$from` to the link's `from`
/// member, `$to` to the document's record id (quotes trimmed) and `$anchor`
/// to the link's `context_anchor`, and relates `$from` to `$to`.
pub proof fn law_relation_runs_from_link_to_document(
    task_id: Seq<char>,
    meta: DocumentMetaExtract,
    link: JsonValue,
    stage: RunStage,
    has_key: bool,
    enc: EncOutcomes,
)
    requires
        meta.record_id is Some,
        stage_view(stage) == link_parsed_step(task_id, meta, Some(link)).0,
    ensures
        ({
            let a = spec_step(task_id, stage, has_key, WorkerEvent::RecordIdsChecked(true), enc).1;
            &&& a.len() == 1
            &&& a[0] is RunQuery
            &&& a[0]->RunQuery_0.0 == "RELATE $from -> linked_to -> $to SET created_at = time::now(), context_anchor = $anchor;"@
            &&& bound_value(a[0]->RunQuery_0.1, "from"@) == Some(BindView::Record(text_member(link, "from"@)))
            &&& bound_value(a[0]->RunQuery_0.1, "to"@) == Some(BindView::Record(trim_quotes(meta.record_id->0@)))
            &&& bound_value(a[0]->RunQuery_0.1, "anchor"@) == Some(BindView::Str(text_member(link, "context_anchor"@)))
        }),
{
    reveal_with_fuel(bound_value, 4);
    reveal_strlit("from");
    reveal_strlit("to");
    reveal_strlit("anchor");
    assert("to"@[0] != "from"@[0]);
    assert("anchor"@[0] != "from"@[0]);
    assert("anchor"@[0] != "to"@[0]);
    let a = spec_step(task_id, stage, has_key, WorkerEvent::RecordIdsChecked(true), enc).1;
    match stage {
        RunStage::CheckingLinkIds { meta: m, from, to, anchor } => {
            assert(from@ == text_member(link, "from"@));
            assert(to@ == trim_quotes(meta.record_id->0@));
            assert(anchor@ == text_member(link, "context_anchor"@));
        },
        _ => {},
    }
    let b = a[0]->RunQuery_0.1;
    assert(b.drop_first()[0] == b[1]);
    assert(b.drop_first().drop_first()[0] == b[2]);
    assert(crate::queue::worker::str_or_empty(crate::json::json_get(link, "from"@)) == text_member(link, "from"@));
    assert(crate::queue::worker::str_or_empty(crate::json::json_get(link, "context_anchor"@)) == text_member(
        link,
        "context_anchor"@,
    ));
}

/// When bulk encryption stores a mail it has just loaded, it updates that very mail with
/// its bodies sealed in place, each in its own column: the one query run binds
/// `$id` to the mail's id, and `$bt` and `$bh` to texts that decrypt under the
/// key to the loaded `body_text` and `body_html`.
pub proof fn law_bulk_update_seals_each_body(
    task_id: Seq<char>,
    stage: RunStage,
    ev: WorkerEvent,
    key: Seq<u8>,
    enc: EncOutcomes,
)
    requires
        stage is LoadingMail,
        encryption_outcomes(step_encrypts(stage, ev), Some(key), enc),
        spec_step(task_id, stage, true, ev, enc).0 is UpdatingMail,
    ensures
        step_encrypts(stage, ev) is Some,
        ({
            let a = spec_step(task_id, stage, true, ev, enc).1;
            let bodies = step_encrypts(stage, ev)->0;
            let q = a[0]->RunQuery_0;
            &&& a.len() == 1
            &&& a[0] is RunQuery
            &&& q.0 == "UPDATE $id SET body_text = $bt, body_html = $bh, encryption_metadata = { e2ee: true, alg: 'chacha20poly1305', encoding: 'b64', v: 1 };"@
            &&& bound_value(q.1, "id"@) == Some(BindView::Record(stage->LoadingMail_mail_ids@[stage->LoadingMail_index as int]@))
            &&& bound_value(q.1, "bt"@) matches Some(BindView::Str(t)) && spec_decrypt_field(t, key) == Ok::<
                Seq<char>,
                CryptoError,
            >(bodies.0)
            &&& bound_value(q.1, "bh"@) matches Some(BindView::Str(h)) && spec_decrypt_field(h, key) == Ok::<
                Seq<char>,
                CryptoError,
            >(bodies.1)
        }),
{
    reveal_with_fuel(bound_value, 4);
    reveal_strlit("id");
    reveal_strlit("bt");
    reveal_strlit("bh");
    assert("bt"@[1] != "bh"@[1]);
    assert("bt"@.len() != "id"@.len() || "bt"@[0] != "id"@[0]);
    assert("bh"@[0] != "id"@[0]);
    match (stage, ev) {
        (RunStage::LoadingMail { mail_ids, index }, WorkerEvent::MailLoaded(r)) => {
            let a = spec_step(task_id, stage, true, ev, enc).1;
            assert(a.len() == 1);
            let b = a[0]->RunQuery_0.1;
            assert(b.len() == 3);
            assert(b.drop_first()[0] == b[1]);
            assert(b.drop_first().drop_first()[0] == b[2]);
        },
        _ => {},
    }
}

} // verus!
