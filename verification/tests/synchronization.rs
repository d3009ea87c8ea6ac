use clock_display::device::{DeviceHandle, TransportCommand};
use clock_display::display::DisplayMessage;
use clock_display::sync::{
    sync_display_update, sync_step, SyncAction, SyncEvent, SyncPhase, SyncStatus,
};

#[test]
fn start_triggers_a_restart_from_any_phase() {
    for phase in [SyncPhase::Idle, SyncPhase::Syncing, SyncPhase::Completed] {
        let (next, action) = sync_step(phase, SyncEvent::Start);
        assert_eq!(next, SyncPhase::Syncing);
        assert_eq!(action, SyncAction::Restart);
    }
}

#[test]
fn polling_in_progress_keeps_waiting() {
    let (next, action) = sync_step(
        SyncPhase::Syncing,
        SyncEvent::Polled(SyncStatus::InProgress),
    );
    assert_eq!(next, SyncPhase::Syncing);
    assert_eq!(action, SyncAction::Poll);
}

#[test]
fn polling_completed_finishes_and_shows_the_time() {
    let (next, action) = sync_step(
        SyncPhase::Syncing,
        SyncEvent::Polled(SyncStatus::Completed),
    );
    assert_eq!(next, SyncPhase::Completed);
    assert_eq!(action, SyncAction::ShowTime);
}

#[test]
fn polls_outside_a_sync_are_ignored() {
    for phase in [SyncPhase::Idle, SyncPhase::Completed] {
        for status in [SyncStatus::InProgress, SyncStatus::Completed] {
            let (next, action) = sync_step(phase, SyncEvent::Polled(status));
            assert_eq!(next, phase);
            assert_eq!(action, SyncAction::Ignore);
        }
    }
}

#[test]
fn machine_does_not_complete_before_the_status_does() {
    // Scripted collaborator: two polls still in progress, then completed.
    let script = [
        SyncStatus::InProgress,
        SyncStatus::InProgress,
        SyncStatus::Completed,
    ];
    let mut phase = SyncPhase::Idle;
    let (next, action) = sync_step(phase, SyncEvent::Start);
    phase = next;
    assert_eq!(action, SyncAction::Restart);
    let mut last_action = action;
    for status in script {
        assert_ne!(phase, SyncPhase::Completed);
        let (next, action) = sync_step(phase, SyncEvent::Polled(status));
        phase = next;
        last_action = action;
    }
    assert_eq!(phase, SyncPhase::Completed);
    assert_eq!(last_action, SyncAction::ShowTime);
}

#[test]
fn restart_shows_the_sync_message() {
    let mut handle = DeviceHandle::new();
    let init_cmds = handle.init();
    assert!(!init_cmds.is_empty());
    let cmds = sync_display_update(&mut handle, SyncAction::Restart);
    assert_eq!(
        cmds,
        vec![
            TransportCommand::Clear,
            TransportCommand::Write(DisplayMessage::Sync.as_bytes()),
        ]
    );
}

#[test]
fn show_time_replaces_the_sync_message() {
    let mut handle = DeviceHandle::new();
    let _ = handle.init();
    let _ = sync_display_update(&mut handle, SyncAction::Restart);
    let cmds = sync_display_update(&mut handle, SyncAction::ShowTime);
    assert_eq!(cmds.len(), 2);
    assert_eq!(cmds[0], TransportCommand::Clear);
    match cmds[1] {
        TransportCommand::Write(frame) => {
            assert_ne!(frame, DisplayMessage::Sync.as_bytes());
            // A time frame always lights the separator on the hour-units
            // position; the sync message never does.
            assert_eq!(frame[1] & 0x80, 0x80);
        }
        ref other => panic!("expected a frame write, got {other:?}"),
    }
}

#[test]
fn poll_and_ignore_leave_the_device_alone() {
    let mut handle = DeviceHandle::new();
    let _ = handle.init();
    assert!(sync_display_update(&mut handle, SyncAction::Poll).is_empty());
    assert!(sync_display_update(&mut handle, SyncAction::Ignore).is_empty());
}
