//! The privileged apply transaction, as an explicit state machine.
//!
//! The transaction validates the caller's privilege, backs the
//! destination file up, writes the new content, runs the external
//! rebuild command, and on a failed rebuild restores the backup; after a
//! successful rebuild it optionally prunes old generations. The machine
//! decides; the surrounding process performs each emitted action and
//! feeds the result back as the next event.

use vstd::prelude::*;

verus! {

/// The terminal result of one apply transaction.
#[derive(Debug, Clone, PartialEq)]
pub enum ApplyOutcome {
    /// The new content is installed and the rebuild succeeded. Pruning
    /// may still have failed; that does not undo the apply.
    Success { prune_failed: bool },
    /// The caller was not the privileged account; nothing was touched.
    PermissionDenied,
    /// Reading the old content or writing the new one failed.
    IoError,
    /// The rebuild command exited nonzero (or never launched, with no
    /// exit code); the backup was restored.
    RebuildFailed { code: Option<i32> },
    /// The rebuild failed and restoring the backup failed too: the file
    /// is in an unknown state and needs manual recovery.
    RebuildFailedAndRestoreFailed { code: Option<i32> },
}

/// Where the transaction stands; the states that await an outside
/// result carry what later steps still need.
#[derive(Debug, Clone, PartialEq)]
pub enum ApplyState {
    Idle,
    Reading,
    Writing { backup: String },
    Rebuilding { backup: String },
    Restoring { backup: String, code: Option<i32> },
    Pruning,
    Done { outcome: ApplyOutcome },
}

/// What the outside world reports back to the machine.
#[derive(Debug, Clone, PartialEq)]
pub enum ApplyEvent {
    Start { privileged: bool },
    ReadOk { content: String },
    ReadFailed,
    WriteOk,
    WriteFailed,
    RebuildExited { code: i32 },
    RebuildLaunchFailed,
    RestoreOk,
    RestoreFailed,
    PruneOk,
    PruneFailed,
}

/// What the surrounding process must do next.
#[derive(Debug, Clone, PartialEq)]
pub enum ApplyAction {
    ReadFile,
    WriteNewContent,
    RunRebuild,
    RestoreBackup { backup: String },
    RunPrune { keep: u32 },
}

/// Relies on `users::get_effective_uid`: the effective user id of this
/// process. Which id comes back depends on the environment, so nothing
/// more is promised of it.
#[verifier::external_body]
fn effective_uid() -> u32 {
    users::get_effective_uid()
}

/// The start event for a given effective user id: privileged exactly
/// when the id is the superuser's.
pub fn start_event_for(uid: u32) -> (e: ApplyEvent)
    ensures
        e == (ApplyEvent::Start { privileged: uid == 0 }),
{
    ApplyEvent::Start { privileged: uid == 0 }
}

/// The start event for this process: the verified privilege decision
/// applied to whatever effective user id the environment reports.
pub fn start_event() -> (e: ApplyEvent)
    ensures
        e is Start,
{
    start_event_for(effective_uid())
}

/// The transition relation: one state and one event give the next state
/// and at most one action.
pub open spec fn step_spec(s: ApplyState, generations: Option<u32>, e: ApplyEvent) -> (
    ApplyState,
    Option<ApplyAction>,
) {
    match (s, e) {
        (ApplyState::Idle, ApplyEvent::Start { privileged }) => {
            if privileged {
                (ApplyState::Reading, Some(ApplyAction::ReadFile))
            } else {
                (ApplyState::Done { outcome: ApplyOutcome::PermissionDenied }, None)
            }
        },
        (ApplyState::Reading, ApplyEvent::ReadOk { content }) => (
            ApplyState::Writing { backup: content },
            Some(ApplyAction::WriteNewContent),
        ),
        (ApplyState::Reading, ApplyEvent::ReadFailed) => (
            ApplyState::Done { outcome: ApplyOutcome::IoError },
            None,
        ),
        (ApplyState::Writing { backup }, ApplyEvent::WriteOk) => (
            ApplyState::Rebuilding { backup },
            Some(ApplyAction::RunRebuild),
        ),
        (ApplyState::Writing { .. }, ApplyEvent::WriteFailed) => (
            ApplyState::Done { outcome: ApplyOutcome::IoError },
            None,
        ),
        (ApplyState::Rebuilding { backup }, ApplyEvent::RebuildExited { code }) => {
            if code == 0 {
                match generations {
                    Some(g) => {
                        if g > 0 {
                            (ApplyState::Pruning, Some(ApplyAction::RunPrune { keep: g }))
                        } else {
                            (
                                ApplyState::Done {
                                    outcome: ApplyOutcome::Success { prune_failed: false },
                                },
                                None,
                            )
                        }
                    },
                    None => (
                        ApplyState::Done {
                            outcome: ApplyOutcome::Success { prune_failed: false },
                        },
                        None,
                    ),
                }
            } else {
                (
                    ApplyState::Restoring { backup: backup, code: Some(code) },
                    Some(ApplyAction::RestoreBackup { backup }),
                )
            }
        },
        (ApplyState::Rebuilding { backup }, ApplyEvent::RebuildLaunchFailed) => (
            ApplyState::Restoring { backup: backup, code: None },
            Some(ApplyAction::RestoreBackup { backup }),
        ),
        (ApplyState::Restoring { backup, code }, ApplyEvent::RestoreOk) => (
            ApplyState::Done { outcome: ApplyOutcome::RebuildFailed { code } },
            None,
        ),
        (ApplyState::Restoring { backup, code }, ApplyEvent::RestoreFailed) => (
            ApplyState::Done { outcome: ApplyOutcome::RebuildFailedAndRestoreFailed { code } },
            None,
        ),
        (ApplyState::Pruning, ApplyEvent::PruneOk) => (
            ApplyState::Done { outcome: ApplyOutcome::Success { prune_failed: false } },
            None,
        ),
        (ApplyState::Pruning, ApplyEvent::PruneFailed) => (
            ApplyState::Done { outcome: ApplyOutcome::Success { prune_failed: true } },
            None,
        ),
        (s2, _) => (s2, None),
    }
}

/// Performs one transition of the apply transaction.
pub fn step(state: ApplyState, generations: Option<u32>, event: ApplyEvent) -> (r: (
    ApplyState,
    Option<ApplyAction>,
))
    ensures
        r == step_spec(state, generations, event),
{
    match (state, event) {
        (ApplyState::Idle, ApplyEvent::Start { privileged }) => {
            if privileged {
                (ApplyState::Reading, Some(ApplyAction::ReadFile))
            } else {
                (ApplyState::Done { outcome: ApplyOutcome::PermissionDenied }, None)
            }
        },
        (ApplyState::Reading, ApplyEvent::ReadOk { content }) => (
            ApplyState::Writing { backup: content },
            Some(ApplyAction::WriteNewContent),
        ),
        (ApplyState::Reading, ApplyEvent::ReadFailed) => (
            ApplyState::Done { outcome: ApplyOutcome::IoError },
            None,
        ),
        (ApplyState::Writing { backup }, ApplyEvent::WriteOk) => (
            ApplyState::Rebuilding { backup },
            Some(ApplyAction::RunRebuild),
        ),
        (ApplyState::Writing { backup: _ }, ApplyEvent::WriteFailed) => (
            ApplyState::Done { outcome: ApplyOutcome::IoError },
            None,
        ),
        (ApplyState::Rebuilding { backup }, ApplyEvent::RebuildExited { code }) => {
            if code == 0 {
                match generations {
                    Some(g) => {
                        if g > 0 {
                            (ApplyState::Pruning, Some(ApplyAction::RunPrune { keep: g }))
                        } else {
                            (
                                ApplyState::Done {
                                    outcome: ApplyOutcome::Success { prune_failed: false },
                                },
                                None,
                            )
                        }
                    },
                    None => (
                        ApplyState::Done {
                            outcome: ApplyOutcome::Success { prune_failed: false },
                        },
                        None,
                    ),
                }
            } else {
                let saved = backup.clone();
                (
                    ApplyState::Restoring { backup: saved, code: Some(code) },
                    Some(ApplyAction::RestoreBackup { backup }),
                )
            }
        },
        (ApplyState::Rebuilding { backup }, ApplyEvent::RebuildLaunchFailed) => {
            let saved = backup.clone();
            (
                ApplyState::Restoring { backup: saved, code: None },
                Some(ApplyAction::RestoreBackup { backup }),
            )
        },
        (ApplyState::Restoring { backup: _, code }, ApplyEvent::RestoreOk) => (
            ApplyState::Done { outcome: ApplyOutcome::RebuildFailed { code } },
            None,
        ),
        (ApplyState::Restoring { backup: _, code }, ApplyEvent::RestoreFailed) => (
            ApplyState::Done { outcome: ApplyOutcome::RebuildFailedAndRestoreFailed { code } },
            None,
        ),
        (ApplyState::Pruning, ApplyEvent::PruneOk) => (
            ApplyState::Done { outcome: ApplyOutcome::Success { prune_failed: false } },
            None,
        ),
        (ApplyState::Pruning, ApplyEvent::PruneFailed) => (
            ApplyState::Done { outcome: ApplyOutcome::Success { prune_failed: true } },
            None,
        ),
        (s2, _) => (s2, None),
    }
}

/// How the destination file changes when an event arrives in a state:
/// only a confirmed write or a confirmed restore changes it.
pub open spec fn file_effect(
    s: ApplyState,
    e: ApplyEvent,
    new_content: Seq<char>,
    file: Seq<char>,
) -> Seq<char> {
    match (s, e) {
        (ApplyState::Writing { .. }, ApplyEvent::WriteOk) => new_content,
        (ApplyState::Restoring { backup, .. }, ApplyEvent::RestoreOk) => backup@,
        _ => file,
    }
}

/// Runs the machine over a whole event sequence, tracking the modeled
/// file content.
pub open spec fn run_spec(
    s: ApplyState,
    generations: Option<u32>,
    new_content: Seq<char>,
    file: Seq<char>,
    evs: Seq<ApplyEvent>,
) -> (ApplyState, Seq<char>)
    decreases evs.len(),
{
    if evs.len() == 0 {
        (s, file)
    } else {
        let e = evs[0];
        let file2 = file_effect(s, e, new_content, file);
        let next = step_spec(s, generations, e);
        run_spec(next.0, generations, new_content, file2, evs.skip(1))
    }
}

/// A finished machine stays finished and never touches the file again.
proof fn lemma_done_stays(
    outcome: ApplyOutcome,
    generations: Option<u32>,
    new_content: Seq<char>,
    file: Seq<char>,
    evs: Seq<ApplyEvent>,
)
    ensures
        run_spec(ApplyState::Done { outcome }, generations, new_content, file, evs) == (
            ApplyState::Done { outcome },
            file,
        ),
    decreases evs.len(),
{
    if evs.len() > 0 {
        lemma_done_stays(outcome, generations, new_content, file, evs.skip(1));
    }
}

/// Privilege gate: a transaction started without privilege ends in
/// `PermissionDenied` and the file is never changed, whatever else the
/// event sequence holds.
pub proof fn lemma_privilege_gate(
    generations: Option<u32>,
    new_content: Seq<char>,
    file: Seq<char>,
    evs: Seq<ApplyEvent>,
)
    requires
        evs.len() > 0,
        evs[0] == (ApplyEvent::Start { privileged: false }),
    ensures
        run_spec(ApplyState::Idle, generations, new_content, file, evs) == (
            ApplyState::Done { outcome: ApplyOutcome::PermissionDenied },
            file,
        ),
{
    lemma_done_stays(
        ApplyOutcome::PermissionDenied,
        generations,
        new_content,
        file,
        evs.skip(1),
    );
}

/// Every read in the event sequence reports the file's true content at
/// the moment it happens.
pub open spec fn reads_truthful(
    s: ApplyState,
    generations: Option<u32>,
    new_content: Seq<char>,
    file: Seq<char>,
    evs: Seq<ApplyEvent>,
) -> bool
    decreases evs.len(),
{
    if evs.len() == 0 {
        true
    } else {
        let e = evs[0];
        let truthful = match (s, e) {
            (ApplyState::Reading, ApplyEvent::ReadOk { content }) => content@ == file,
            _ => true,
        };
        let file2 = file_effect(s, e, new_content, file);
        let next = step_spec(s, generations, e);
        truthful && reads_truthful(next.0, generations, new_content, file2, evs.skip(1))
    }
}

/// The transaction ended with a failed rebuild and a completed restore.
pub open spec fn reports_rollback(s: ApplyState) -> bool {
    match s {
        ApplyState::Done { outcome } => match outcome {
            ApplyOutcome::RebuildFailed { .. } => true,
            _ => false,
        },
        _ => false,
    }
}

/// What each state guarantees about the retained backup and the file,
/// relative to the content the file had at the start.
pub open spec fn backup_tracks(s: ApplyState, first: Seq<char>, file: Seq<char>) -> bool {
    match s {
        ApplyState::Idle => file == first,
        ApplyState::Reading => file == first,
        ApplyState::Writing { backup } => backup@ == first,
        ApplyState::Rebuilding { backup } => backup@ == first,
        ApplyState::Restoring { backup, .. } => backup@ == first,
        ApplyState::Pruning => true,
        ApplyState::Done { outcome } => match outcome {
            ApplyOutcome::RebuildFailed { .. } => file == first,
            _ => true,
        },
    }
}

/// The backup invariant is inductive: every transition preserves it
/// when reads are truthful.
proof fn lemma_rollback_inv(
    s: ApplyState,
    generations: Option<u32>,
    new_content: Seq<char>,
    first: Seq<char>,
    file: Seq<char>,
    evs: Seq<ApplyEvent>,
)
    requires
        backup_tracks(s, first, file),
        reads_truthful(s, generations, new_content, file, evs),
    ensures
        reports_rollback(run_spec(s, generations, new_content, file, evs).0) ==> run_spec(
            s,
            generations,
            new_content,
            file,
            evs,
        ).1 == first,
    decreases evs.len(),
{
    if evs.len() > 0 {
        let e = evs[0];
        let file2 = file_effect(s, e, new_content, file);
        let next = step_spec(s, generations, e);
        assert(backup_tracks(next.0, first, file2));
        lemma_rollback_inv(next.0, generations, new_content, first, file2, evs.skip(1));
    }
}

/// Rollback, for every event sequence: if the reads were truthful and
/// the transaction reports a failed rebuild with a completed restore,
/// the file holds byte-for-byte what it held at the start.
pub proof fn lemma_rollback_all_traces(
    generations: Option<u32>,
    new_content: Seq<char>,
    file: Seq<char>,
    evs: Seq<ApplyEvent>,
)
    requires
        reads_truthful(ApplyState::Idle, generations, new_content, file, evs),
    ensures
        reports_rollback(run_spec(ApplyState::Idle, generations, new_content, file, evs).0)
            ==> run_spec(ApplyState::Idle, generations, new_content, file, evs).1 == file,
{
    lemma_rollback_inv(ApplyState::Idle, generations, new_content, file, file, evs);
}

/// Rollback: when the read returns the file's true content and the
/// rebuild then exits nonzero, a successful restore leaves the file
/// byte-for-byte as it was, and the outcome names the exit code.
pub proof fn lemma_rebuild_rollback(
    generations: Option<u32>,
    new_content: Seq<char>,
    file: Seq<char>,
    backup: String,
    code: i32,
    rest: Seq<ApplyEvent>,
)
    requires
        backup@ == file,
        code != 0,
    ensures
        run_spec(
            ApplyState::Idle,
            generations,
            new_content,
            file,
            seq![
                ApplyEvent::Start { privileged: true },
                ApplyEvent::ReadOk { content: backup },
                ApplyEvent::WriteOk,
                ApplyEvent::RebuildExited { code },
                ApplyEvent::RestoreOk,
            ] + rest,
        ) == (
            ApplyState::Done { outcome: ApplyOutcome::RebuildFailed { code: Some(code) } },
            file,
        ),
{
    let evs = seq![
        ApplyEvent::Start { privileged: true },
        ApplyEvent::ReadOk { content: backup },
        ApplyEvent::WriteOk,
        ApplyEvent::RebuildExited { code },
        ApplyEvent::RestoreOk,
    ] + rest;
    assert(evs[0] == (ApplyEvent::Start { privileged: true }));
    let evs1 = evs.skip(1);
    assert(evs1 =~= seq![
        ApplyEvent::ReadOk { content: backup },
        ApplyEvent::WriteOk,
        ApplyEvent::RebuildExited { code },
        ApplyEvent::RestoreOk,
    ] + rest);
    let evs2 = evs1.skip(1);
    assert(evs2 =~= seq![
        ApplyEvent::WriteOk,
        ApplyEvent::RebuildExited { code },
        ApplyEvent::RestoreOk,
    ] + rest);
    let evs3 = evs2.skip(1);
    assert(evs3 =~= seq![ApplyEvent::RebuildExited { code }, ApplyEvent::RestoreOk] + rest);
    let evs4 = evs3.skip(1);
    assert(evs4 =~= seq![ApplyEvent::RestoreOk] + rest);
    let evs5 = evs4.skip(1);
    assert(evs5 =~= rest);
    assert(evs1[0] == (ApplyEvent::ReadOk { content: backup }));
    assert(evs2[0] == ApplyEvent::WriteOk);
    assert(evs3[0] == (ApplyEvent::RebuildExited { code }));
    assert(evs4[0] == ApplyEvent::RestoreOk);
    assert(run_spec(ApplyState::Idle, generations, new_content, file, evs) == run_spec(
        ApplyState::Reading,
        generations,
        new_content,
        file,
        evs1,
    ));
    assert(run_spec(ApplyState::Reading, generations, new_content, file, evs1) == run_spec(
        ApplyState::Writing { backup: backup },
        generations,
        new_content,
        file,
        evs2,
    ));
    assert(run_spec(
        ApplyState::Writing { backup: backup },
        generations,
        new_content,
        file,
        evs2,
    ) == run_spec(
        ApplyState::Rebuilding { backup: backup },
        generations,
        new_content,
        new_content,
        evs3,
    ));
    assert(run_spec(
        ApplyState::Rebuilding { backup: backup },
        generations,
        new_content,
        new_content,
        evs3,
    ) == run_spec(
        ApplyState::Restoring { backup: backup, code: Some(code) },
        generations,
        new_content,
        new_content,
        evs4,
    ));
    assert(run_spec(
        ApplyState::Restoring { backup: backup, code: Some(code) },
        generations,
        new_content,
        new_content,
        evs4,
    ) == run_spec(
        ApplyState::Done { outcome: ApplyOutcome::RebuildFailed { code: Some(code) } },
        generations,
        new_content,
        backup@,
        evs5,
    ));
    lemma_done_stays(
        ApplyOutcome::RebuildFailed { code: Some(code) },
        generations,
        new_content,
        file,
        rest,
    );
}

} // verus!
