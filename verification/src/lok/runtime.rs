//! Bringing up the LibreOfficeKit runtime. A candidate install, when one is
//! configured, is tried first and rolled back to the stable install when it
//! fails; the stable install is the last resort. The caller performs each
//! action (setting the install path, checking the binary's hash, writing a
//! forensic record, initialising the runtime) and reports what came of it.

use vstd::prelude::*;

use crate::json::{jobject, jview, JsonValue, JsonView, ObjectBuilder};
use crate::lok::lifecycle::{lok_binary_name, locate_lok_binary, TargetOs};
use crate::text::path_join;

verus! {

/// What came of initialising the runtime.
#[derive(Debug)]
pub enum InitOutcome {
    Ready,
    Failed(String),
    Panicked,
}

/// What came of an action of the bring-up.
#[derive(Debug)]
pub enum LokBootEvent {
    /// Begin, with the candidate install (if configured) and the stable install.
    Start { candidate: Option<String>, stable: String },
    /// The binary under the install path matched the pinned hash, or not.
    HashChecked(bool),
    /// The runtime was initialised from the install path now set.
    Initialised { outcome: InitOutcome, install_path: String },
}

/// Something the caller must do during the bring-up.
#[derive(Debug)]
pub enum LokBootAction {
    /// Point the runtime at this install directory.
    ApplyInstallPath(String),
    /// Check the binary of this install against the pinned hash; answer `HashChecked`.
    VerifyHash(String),
    /// Write a forensic record.
    ForensicDump { kind: String, data: JsonValue },
    /// Initialise the runtime; answer `Initialised`.
    TryInit,
    /// The bring-up is over: the runtime is ready, or why not.
    Done(Result<(), String>),
}

/// Where the bring-up stands.
#[derive(Debug)]
pub enum LokBootStage {
    Begin,
    VerifyingCandidate { candidate: String, stable: String },
    InitCandidate { stable: String },
    VerifyingStable,
    InitStable,
    Finished,
}

/// The mathematical form of an action.
pub enum BootActionView {
    ApplyInstallPath(Seq<char>),
    VerifyHash(Seq<char>),
    ForensicDump(Seq<char>, JsonView),
    TryInit,
    Done(Result<(), Seq<char>>),
}

pub open spec fn boot_action_view(a: LokBootAction) -> BootActionView {
    match a {
        LokBootAction::ApplyInstallPath(p) => BootActionView::ApplyInstallPath(p@),
        LokBootAction::VerifyHash(p) => BootActionView::VerifyHash(p@),
        LokBootAction::ForensicDump { kind, data } => BootActionView::ForensicDump(kind@, jview(data)),
        LokBootAction::TryInit => BootActionView::TryInit,
        LokBootAction::Done(r) => BootActionView::Done(
            match r {
                Ok(()) => Ok(()),
                Err(e) => Err(e@),
            },
        ),
    }
}

pub open spec fn boot_actions_view(acts: Seq<LokBootAction>) -> Seq<BootActionView> {
    acts.map_values(|a: LokBootAction| boot_action_view(a))
}

/// The mathematical form of a stage.
pub enum BootStageView {
    Begin,
    VerifyingCandidate(Seq<char>, Seq<char>),
    InitCandidate(Seq<char>),
    VerifyingStable,
    InitStable,
    Finished,
}

pub open spec fn boot_stage_view(s: LokBootStage) -> BootStageView {
    match s {
        LokBootStage::Begin => BootStageView::Begin,
        LokBootStage::VerifyingCandidate { candidate, stable } => BootStageView::VerifyingCandidate(candidate@, stable@),
        LokBootStage::InitCandidate { stable } => BootStageView::InitCandidate(stable@),
        LokBootStage::VerifyingStable => BootStageView::VerifyingStable,
        LokBootStage::InitStable => BootStageView::InitStable,
        LokBootStage::Finished => BootStageView::Finished,
    }
}

/// The record written when a candidate install is rolled back to the stable one.
pub open spec fn rollback_record(reason: Seq<char>, detail: Seq<char>, stable: Seq<char>) -> JsonView {
    jobject(
        seq![
            ("reason"@, JsonView::Str(reason)),
            ("detail"@, JsonView::Str(detail)),
            ("stable_install_path"@, JsonView::Str(stable)),
        ],
    )
}

/// Rolling back to the stable install: point the runtime at it, record why,
/// and try again.
pub open spec fn rollback_actions(reason: Seq<char>, detail: Seq<char>, stable: Seq<char>) -> Seq<BootActionView> {
    seq![
        BootActionView::ApplyInstallPath(stable),
        BootActionView::ForensicDump("lok_rollback_to_stable"@, rollback_record(reason, detail, stable)),
        BootActionView::TryInit,
    ]
}

/// One step of the bring-up: the next stage and the actions for the event.
/// An event that does not belong to the stage changes nothing.
pub open spec fn spec_boot_step(stage: LokBootStage, ev: LokBootEvent) -> (BootStageView, Seq<BootActionView>) {
    match (stage, ev) {
        (LokBootStage::Begin, LokBootEvent::Start { candidate, stable }) => match candidate {
            Some(c) => (
                BootStageView::VerifyingCandidate(c@, stable@),
                seq![BootActionView::ApplyInstallPath(c@), BootActionView::VerifyHash(c@)],
            ),
            None => (
                BootStageView::VerifyingStable,
                seq![BootActionView::ApplyInstallPath(stable@), BootActionView::VerifyHash(stable@)],
            ),
        },
        (LokBootStage::VerifyingCandidate { candidate, stable }, LokBootEvent::HashChecked(ok)) => (
            BootStageView::InitCandidate(stable@),
            if ok {
                seq![BootActionView::TryInit]
            } else {
                seq![
                    BootActionView::ForensicDump(
                        "lok_candidate_hash_failed"@,
                        jobject(
                            seq![
                                ("candidate_install_path"@, JsonView::Str(candidate@)),
                                ("reason"@, JsonView::Str("hash_mismatch_or_missing"@)),
                            ],
                        ),
                    ),
                    BootActionView::TryInit,
                ]
            },
        ),
        (LokBootStage::InitCandidate { stable }, LokBootEvent::Initialised { outcome, install_path: _ }) => match outcome {
            InitOutcome::Ready => (BootStageView::Finished, seq![BootActionView::Done(Ok(()))]),
            InitOutcome::Failed(d) => (BootStageView::InitStable, rollback_actions("candidate_init_failed"@, d@, stable@)),
            InitOutcome::Panicked => (
                BootStageView::InitStable,
                rollback_actions("candidate_panic"@, "catch_unwind"@, stable@),
            ),
        },
        (LokBootStage::VerifyingStable, LokBootEvent::HashChecked(_)) => (BootStageView::InitStable, seq![BootActionView::TryInit]),
        (LokBootStage::InitStable, LokBootEvent::Initialised { outcome, install_path }) => match outcome {
            InitOutcome::Ready => (BootStageView::Finished, seq![BootActionView::Done(Ok(()))]),
            InitOutcome::Failed(d) => (
                BootStageView::Finished,
                seq![
                    BootActionView::ForensicDump(
                        "lok_init_failed_stable"@,
                        jobject(seq![("detail"@, JsonView::Str(d@)), ("install_path"@, JsonView::Str(install_path@))]),
                    ),
                    BootActionView::Done(Err(d@)),
                ],
            ),
            InitOutcome::Panicked => (
                BootStageView::Finished,
                seq![
                    BootActionView::ForensicDump(
                        "lok_panic_stable"@,
                        jobject(seq![("install_path"@, JsonView::Str(install_path@))]),
                    ),
                    BootActionView::Done(Err("lok_panic"@)),
                ],
            ),
        },
        (s, _) => (boot_stage_view(s), Seq::empty()),
    }
}

fn push_boot(acts: &mut Vec<LokBootAction>, a: LokBootAction)
    ensures
        boot_actions_view(final(acts)@) == boot_actions_view(old(acts)@).push(boot_action_view(a)),
{
    let ghost pre = acts@;
    let ghost av = boot_action_view(a);
    acts.push(a);
    assert(boot_actions_view(acts@) =~= boot_actions_view(pre).push(av));
}

fn text_member(key: &str, value: &str) -> (m: (String, JsonValue))
    ensures
        m.0@ == key@,
        jview(m.1) == JsonView::Str(value@),
{
    (String::from_str(key), JsonValue::String(String::from_str(value)))
}

fn dump(kind: &str, data: JsonValue) -> (a: LokBootAction)
    ensures
        boot_action_view(a) == BootActionView::ForensicDump(kind@, jview(data)),
{
    LokBootAction::ForensicDump { kind: String::from_str(kind), data }
}

/// The record written when a candidate install is rolled back to the stable one.
pub fn rollback_record_json(reason: &str, detail: &str, stable: &str) -> (v: JsonValue)
    ensures
        jview(v) == rollback_record(reason@, detail@, stable@),
{
    let mut b = ObjectBuilder::new();
    b.add("reason", JsonValue::String(String::from_str(reason)));
    b.add("detail", JsonValue::String(String::from_str(detail)));
    b.add("stable_install_path", JsonValue::String(String::from_str(stable)));
    assert(b.view() =~= rollback_record(reason@, detail@, stable@)->Object_0);
    b.build()
}

fn rollback(acts: &mut Vec<LokBootAction>, reason: &str, detail: &str, stable: &str)
    ensures
        boot_actions_view(final(acts)@) == boot_actions_view(old(acts)@) + rollback_actions(reason@, detail@, stable@),
{
    let ghost pre = boot_actions_view(acts@);
    push_boot(acts, LokBootAction::ApplyInstallPath(String::from_str(stable)));
    push_boot(acts, dump("lok_rollback_to_stable", rollback_record_json(reason, detail, stable)));
    push_boot(acts, LokBootAction::TryInit);
    assert(boot_actions_view(acts@) =~= pre + rollback_actions(reason@, detail@, stable@));
}

/// The bring-up of the runtime, as a sequence of steps.
pub struct LokBoot {
    stage: LokBootStage,
}

impl LokBoot {
    pub closed spec fn stage_of(self) -> LokBootStage {
        self.stage
    }

    /// A bring-up not yet started.
    pub fn new() -> (b: Self)
        ensures
            b.stage_of() is Begin,
    {
        LokBoot { stage: LokBootStage::Begin }
    }

    pub fn is_finished(&self) -> (f: bool)
        ensures
            f == self.stage_of() is Finished,
    {
        match self.stage {
            LokBootStage::Finished => true,
            _ => false,
        }
    }

    /// Advances the bring-up with what came of the last action.
    pub fn step(self, event: LokBootEvent) -> (r: (LokBoot, Vec<LokBootAction>))
        ensures
            (boot_stage_view(r.0.stage_of()), boot_actions_view(r.1@)) == spec_boot_step(self.stage_of(), event),
    {
        let ghost old_stage = self.stage;
        let ghost ev = event;
        let mut acts: Vec<LokBootAction> = Vec::new();
        assert(boot_actions_view(acts@) =~= Seq::<BootActionView>::empty());
        let stage = match (self.stage, event) {
            (LokBootStage::Begin, LokBootEvent::Start { candidate, stable }) => match candidate {
                Some(c) => {
                    push_boot(&mut acts, LokBootAction::ApplyInstallPath(c.clone()));
                    push_boot(&mut acts, LokBootAction::VerifyHash(c.clone()));
                    LokBootStage::VerifyingCandidate { candidate: c, stable }
                },
                None => {
                    push_boot(&mut acts, LokBootAction::ApplyInstallPath(stable.clone()));
                    push_boot(&mut acts, LokBootAction::VerifyHash(stable));
                    LokBootStage::VerifyingStable
                },
            },
            (LokBootStage::VerifyingCandidate { candidate, stable }, LokBootEvent::HashChecked(ok)) => {
                if !ok {
                    let mut data: Vec<(String, JsonValue)> = Vec::new();
                    let m1 = text_member("candidate_install_path", candidate.as_str());
                    let m2 = text_member("reason", "hash_mismatch_or_missing");
                    let ghost v1 = (m1.0@, jview(m1.1));
                    let ghost v2 = (m2.0@, jview(m2.1));
                    data.push(m1);
                    data.push(m2);
                    let obj = JsonValue::Object(data);
                    proof {
                        crate::json::lemma_jmembers_index(data@);
                        assert(crate::json::jmembers(data@) =~= seq![v1, v2]);
                    }
                    push_boot(&mut acts, dump("lok_candidate_hash_failed", obj));
                }
                push_boot(&mut acts, LokBootAction::TryInit);
                LokBootStage::InitCandidate { stable }
            },
            (LokBootStage::InitCandidate { stable }, LokBootEvent::Initialised { outcome, install_path: _ }) => {
                match outcome {
                    InitOutcome::Ready => {
                        push_boot(&mut acts, LokBootAction::Done(Ok(())));
                        LokBootStage::Finished
                    },
                    InitOutcome::Failed(d) => {
                        rollback(&mut acts, "candidate_init_failed", d.as_str(), stable.as_str());
                        LokBootStage::InitStable
                    },
                    InitOutcome::Panicked => {
                        rollback(&mut acts, "candidate_panic", "catch_unwind", stable.as_str());
                        LokBootStage::InitStable
                    },
                }
            },
            (LokBootStage::VerifyingStable, LokBootEvent::HashChecked(_)) => {
                push_boot(&mut acts, LokBootAction::TryInit);
                LokBootStage::InitStable
            },
            (LokBootStage::InitStable, LokBootEvent::Initialised { outcome, install_path }) => {
                match outcome {
                    InitOutcome::Ready => {
                        push_boot(&mut acts, LokBootAction::Done(Ok(())));
                    },
                    InitOutcome::Failed(d) => {
                        let mut b = ObjectBuilder::new();
                        b.add("detail", JsonValue::String(d.clone()));
                        b.add("install_path", JsonValue::String(install_path.clone()));
                        assert(b.view() =~= seq![
                            ("detail"@, JsonView::Str(d@)),
                            ("install_path"@, JsonView::Str(install_path@)),
                        ]);
                        push_boot(&mut acts, dump("lok_init_failed_stable", b.build()));
                        push_boot(&mut acts, LokBootAction::Done(Err(d)));
                    },
                    InitOutcome::Panicked => {
                        let mut b = ObjectBuilder::new();
                        b.add("install_path", JsonValue::String(install_path.clone()));
                        assert(b.view() =~= seq![("install_path"@, JsonView::Str(install_path@))]);
                        push_boot(&mut acts, dump("lok_panic_stable", b.build()));
                        push_boot(&mut acts, LokBootAction::Done(Err(String::from_str("lok_panic"))));
                    },
                }
                LokBootStage::Finished
            },
            (s, _) => s,
        };
        let ghost expected = spec_boot_step(old_stage, ev);
        assert(boot_actions_view(acts@) =~= expected.1);
        (LokBoot { stage }, acts)
    }
}

/// Where the runtime library is looked for: the explicit library path when
/// set and not empty, else the usual names on the operating system, in order.
#[derive(Debug)]
pub enum LibrarySource {
    Explicit(String),
    Candidates(Vec<String>),
}

/// The usual names of the runtime library on each operating system, in the order tried.
pub open spec fn library_candidates(os: TargetOs) -> Seq<Seq<char>> {
    match os {
        TargetOs::Windows => seq!["libreofficekit.dll"@, "libreofficekitlo.dll"@],
        TargetOs::MacOs => seq!["libreofficekit.dylib"@, "libreofficekit.1.dylib"@],
        TargetOs::Other => seq!["libreofficekit.so"@, "libreofficekit.so.1"@],
    }
}

/// Where to load the runtime library from.
pub fn library_source(os: TargetOs, explicit: Option<&str>) -> (s: LibrarySource)
    ensures
        match explicit {
            Some(e) if e@.len() > 0 => s matches LibrarySource::Explicit(p) && p@ == e@,
            _ => s matches LibrarySource::Candidates(v) && v@.map_values(|n: String| n@) == library_candidates(os),
        },
{
    if let Some(e) = explicit {
        if !e.is_empty() {
            return LibrarySource::Explicit(String::from_str(e));
        }
    }
    let (a, b) = match os {
        TargetOs::Windows => ("libreofficekit.dll", "libreofficekitlo.dll"),
        TargetOs::MacOs => ("libreofficekit.dylib", "libreofficekit.1.dylib"),
        TargetOs::Other => ("libreofficekit.so", "libreofficekit.so.1"),
    };
    let mut v: Vec<String> = Vec::new();
    v.push(String::from_str(a));
    v.push(String::from_str(b));
    assert(v@.map_values(|n: String| n@) =~= library_candidates(os));
    LibrarySource::Candidates(v)
}

/// The settings that point the runtime at an install directory: the install
/// path itself and the path of its library.
pub fn install_path_settings(install_path: &str, os: TargetOs) -> (s: (String, String))
    ensures
        s.0@ == install_path@,
        s.1@ == path_join(install_path@, lok_binary_name(os)),
{
    (String::from_str(install_path), locate_lok_binary(install_path, os))
}

/// The runtime can only be initialised with an install path set.
pub fn check_install_path(install_path: &str) -> (r: Result<(), String>)
    ensures
        install_path@.len() == 0 <==> r is Err,
        r matches Err(e) ==> e@ == "NEQST_LOK_INSTALL_PATH_not_set"@,
{
    if install_path.is_empty() {
        Err(String::from_str("NEQST_LOK_INSTALL_PATH_not_set"))
    } else {
        Ok(())
    }
}

} // verus!

verus! {

/// A candidate install that fails to start is always rolled back: the stable
/// install is set again, the rollback is recorded, and the runtime is tried once more.
pub proof fn law_failed_candidate_rolls_back(stable: String, outcome: InitOutcome, install_path: String)
    requires
        !(outcome is Ready),
    ensures
        ({
            let r = spec_boot_step(LokBootStage::InitCandidate { stable }, LokBootEvent::Initialised { outcome, install_path });
            &&& r.0 == BootStageView::InitStable
            &&& r.1.len() == 3
            &&& r.1[0] == BootActionView::ApplyInstallPath(stable@)
            &&& r.1[1] is ForensicDump
            &&& r.1[2] == BootActionView::TryInit
        }),
{
}

/// The stable install is the last attempt: whatever comes of it ends the
/// bring-up, with success exactly when the runtime started.
pub proof fn law_stable_attempt_is_final(outcome: InitOutcome, install_path: String)
    ensures
        ({
            let r = spec_boot_step(LokBootStage::InitStable, LokBootEvent::Initialised { outcome, install_path });
            &&& r.0 == BootStageView::Finished
            &&& r.1.len() > 0
            &&& r.1.last() is Done
            &&& (r.1.last()->Done_0 is Ok <==> outcome is Ready)
        }),
{
}

} // verus!
