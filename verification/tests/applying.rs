//! The apply transaction state machine, driven against a mock world.

use module_manager::apply::start_event_for;
use module_manager::apply::step;
use module_manager::apply::ApplyAction;
use module_manager::apply::ApplyEvent;
use module_manager::apply::ApplyOutcome;
use module_manager::apply::ApplyState;

#[test]
fn start_event_reflects_the_identity() {
    assert_eq!(start_event_for(0), ApplyEvent::Start { privileged: true });
    assert_eq!(start_event_for(1), ApplyEvent::Start { privileged: false });
    assert_eq!(start_event_for(1000), ApplyEvent::Start { privileged: false });
}

#[test]
fn rollback_restores_the_file_byte_for_byte() {
    // The rebuild command is made to exit nonzero: the destination file
    // must end up exactly as it started, and the error names the code.
    let original = String::from("{ a = 1; }\n");
    let new_content = String::from("{ a = 2; }\n");
    let mut file = original.clone();
    let generations: Option<u32> = None;

    let (state, action) = step(ApplyState::Idle, generations, ApplyEvent::Start {
        privileged: true,
    });
    assert_eq!(action, Some(ApplyAction::ReadFile));
    let (state, action) = step(state, generations, ApplyEvent::ReadOk {
        content: file.clone(),
    });
    assert_eq!(action, Some(ApplyAction::WriteNewContent));
    file = new_content.clone();
    let (state, action) = step(state, generations, ApplyEvent::WriteOk);
    assert_eq!(action, Some(ApplyAction::RunRebuild));
    let (state, action) = step(state, generations, ApplyEvent::RebuildExited { code: 1 });
    match action {
        Some(ApplyAction::RestoreBackup { backup }) => {
            file = backup;
        },
        other => panic!("expected a restore, got {:?}", other),
    }
    let (state, action) = step(state, generations, ApplyEvent::RestoreOk);
    assert_eq!(action, None);
    assert_eq!(
        state,
        ApplyState::Done { outcome: ApplyOutcome::RebuildFailed { code: Some(1) } }
    );
    assert_eq!(file, original);
}

#[test]
fn unprivileged_start_denies_without_any_action() {
    let (state, action) = step(ApplyState::Idle, Some(3), ApplyEvent::Start {
        privileged: false,
    });
    assert_eq!(action, None);
    assert_eq!(state, ApplyState::Done { outcome: ApplyOutcome::PermissionDenied });
    // Whatever arrives afterwards, the machine stays finished and never
    // asks for a file operation.
    let (state, action) = step(state, Some(3), ApplyEvent::WriteOk);
    assert_eq!(action, None);
    assert_eq!(state, ApplyState::Done { outcome: ApplyOutcome::PermissionDenied });
}

#[test]
fn pruning_failure_does_not_undo_a_successful_apply() {
    // Generation retention 3: after a successful rebuild the machine
    // asks to prune with +3; a pruning failure still reports success,
    // with the failure attached.
    let generations: Option<u32> = Some(3);
    let (state, _) = step(ApplyState::Idle, generations, ApplyEvent::Start {
        privileged: true,
    });
    let (state, _) = step(state, generations, ApplyEvent::ReadOk {
        content: String::from("old"),
    });
    let (state, _) = step(state, generations, ApplyEvent::WriteOk);
    let (state, action) = step(state, generations, ApplyEvent::RebuildExited { code: 0 });
    assert_eq!(action, Some(ApplyAction::RunPrune { keep: 3 }));
    let (state, action) = step(state, generations, ApplyEvent::PruneFailed);
    assert_eq!(action, None);
    assert_eq!(
        state,
        ApplyState::Done { outcome: ApplyOutcome::Success { prune_failed: true } }
    );
}

#[test]
fn no_pruning_requested_means_none_run() {
    for generations in [None, Some(0)] {
        let (state, _) = step(ApplyState::Idle, generations, ApplyEvent::Start {
            privileged: true,
        });
        let (state, _) = step(state, generations, ApplyEvent::ReadOk {
            content: String::from("old"),
        });
        let (state, _) = step(state, generations, ApplyEvent::WriteOk);
        let (state, action) = step(state, generations, ApplyEvent::RebuildExited { code: 0 });
        assert_eq!(action, None);
        assert_eq!(
            state,
            ApplyState::Done { outcome: ApplyOutcome::Success { prune_failed: false } }
        );
    }
}

#[test]
fn read_failure_aborts_before_any_write() {
    let (state, action) = step(ApplyState::Idle, None, ApplyEvent::Start { privileged: true });
    assert_eq!(action, Some(ApplyAction::ReadFile));
    let (state, action) = step(state, None, ApplyEvent::ReadFailed);
    assert_eq!(action, None);
    assert_eq!(state, ApplyState::Done { outcome: ApplyOutcome::IoError });
}

#[test]
fn write_failure_aborts_without_restore() {
    let (state, _) = step(ApplyState::Idle, None, ApplyEvent::Start { privileged: true });
    let (state, _) = step(state, None, ApplyEvent::ReadOk { content: String::from("old") });
    let (state, action) = step(state, None, ApplyEvent::WriteFailed);
    assert_eq!(action, None);
    assert_eq!(state, ApplyState::Done { outcome: ApplyOutcome::IoError });
}

#[test]
fn failed_restore_is_surfaced_as_a_compound_error() {
    let (state, _) = step(ApplyState::Idle, None, ApplyEvent::Start { privileged: true });
    let (state, _) = step(state, None, ApplyEvent::ReadOk { content: String::from("old") });
    let (state, _) = step(state, None, ApplyEvent::WriteOk);
    let (state, _) = step(state, None, ApplyEvent::RebuildExited { code: 7 });
    let (state, action) = step(state, None, ApplyEvent::RestoreFailed);
    assert_eq!(action, None);
    assert_eq!(
        state,
        ApplyState::Done {
            outcome: ApplyOutcome::RebuildFailedAndRestoreFailed { code: Some(7) }
        }
    );
}

#[test]
fn launch_failure_restores_like_a_nonzero_exit() {
    let (state, _) = step(ApplyState::Idle, None, ApplyEvent::Start { privileged: true });
    let (state, _) = step(state, None, ApplyEvent::ReadOk { content: String::from("old") });
    let (state, _) = step(state, None, ApplyEvent::WriteOk);
    let (state, action) = step(state, None, ApplyEvent::RebuildLaunchFailed);
    assert_eq!(
        action,
        Some(ApplyAction::RestoreBackup { backup: String::from("old") })
    );
    let (state, _) = step(state, None, ApplyEvent::RestoreOk);
    assert_eq!(state, ApplyState::Done { outcome: ApplyOutcome::RebuildFailed { code: None } });
}
