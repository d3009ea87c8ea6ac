//! The time-synchronisation state machine.
//!
//! The network-time collaborator does the actual synchronising; this module
//! decides, from the current phase and each observed event, what the next
//! phase is and what the surrounding loop must do. The loop performs the
//! action (re-trigger the protocol, poll the status, drive a display write)
//! and feeds the next event back in; it may only stop once the machine has
//! reached `Completed`.

use vstd::prelude::*;
use crate::device::{DeviceHandle, TransportCommand, spec_is_write_block, spec_apply_all};
use crate::display::{DisplayMessage, spec_message_frame};
use crate::time::{spec_time_digits, spec_time_frame, update_display_time};

verus! {

/// Status reported by the network-time collaborator on each poll.
#[derive(Clone, Copy, PartialEq, Eq, Structural, Debug)]
pub enum SyncStatus {
    InProgress,
    Completed,
}

/// Phase of the synchronisation state machine.
#[derive(Clone, Copy, PartialEq, Eq, Structural, Debug)]
pub enum SyncPhase {
    /// No synchronisation requested.
    Idle,
    /// The protocol has been (re-)triggered; waiting for completion.
    Syncing,
    /// The collaborator reported completion.
    Completed,
}

/// Event the coordinator observes.
#[derive(Clone, Copy, PartialEq, Eq, Structural, Debug)]
pub enum SyncEvent {
    /// A caller asked for a synchronisation.
    Start,
    /// The collaborator's status was polled.
    Polled(SyncStatus),
}

/// Action the surrounding loop must perform after a step.
#[derive(Clone, Copy, PartialEq, Eq, Structural, Debug)]
pub enum SyncAction {
    /// Re-trigger the collaborator's protocol and show the SYNC frame.
    Restart,
    /// Ask the collaborator for its status again.
    Poll,
    /// Read the clock and show the fresh time; the machine is done.
    ShowTime,
    /// The event does not apply in this phase; do nothing.
    Ignore,
}

/// One step of the state machine. Re-triggering is idempotent: a `Start`
/// while already syncing simply restarts acquisition and stays in
/// `Syncing`. Only a polled `Completed` status moves the machine to
/// `Completed`, and that very step orders the fresh-time display write.
pub open spec fn spec_sync_step(p: SyncPhase, e: SyncEvent) -> (SyncPhase, SyncAction) {
    match (p, e) {
        (_, SyncEvent::Start) => (SyncPhase::Syncing, SyncAction::Restart),
        (SyncPhase::Syncing, SyncEvent::Polled(SyncStatus::InProgress)) => (
            SyncPhase::Syncing,
            SyncAction::Poll,
        ),
        (SyncPhase::Syncing, SyncEvent::Polled(SyncStatus::Completed)) => (
            SyncPhase::Completed,
            SyncAction::ShowTime,
        ),
        (SyncPhase::Idle, SyncEvent::Polled(_)) => (SyncPhase::Idle, SyncAction::Ignore),
        (SyncPhase::Completed, SyncEvent::Polled(_)) => (
            SyncPhase::Completed,
            SyncAction::Ignore,
        ),
    }
}

/// Executable step function; the surrounding loop calls this on every
/// observed event.
pub fn sync_step(p: SyncPhase, e: SyncEvent) -> (r: (SyncPhase, SyncAction))
    ensures
        r == spec_sync_step(p, e),
{
    match (p, e) {
        (_, SyncEvent::Start) => (SyncPhase::Syncing, SyncAction::Restart),
        (SyncPhase::Syncing, SyncEvent::Polled(SyncStatus::InProgress)) => (
            SyncPhase::Syncing,
            SyncAction::Poll,
        ),
        (SyncPhase::Syncing, SyncEvent::Polled(SyncStatus::Completed)) => (
            SyncPhase::Completed,
            SyncAction::ShowTime,
        ),
        (SyncPhase::Idle, SyncEvent::Polled(_)) => (SyncPhase::Idle, SyncAction::Ignore),
        (SyncPhase::Completed, SyncEvent::Polled(_)) => (
            SyncPhase::Completed,
            SyncAction::Ignore,
        ),
    }
}

/// Phase reached after observing a whole trace of events, starting from `p`.
pub open spec fn spec_sync_run(p: SyncPhase, events: Seq<SyncEvent>) -> SyncPhase
    decreases events.len(),
{
    if events.len() == 0 {
        p
    } else {
        spec_sync_run(spec_sync_step(p, events[0]).0, events.drop_first())
    }
}

/// The machine never reports completion early: whatever trace of events is
/// observed, it ends in `Completed` only if the collaborator was at some
/// point polled as `Completed`. A loop that runs until the machine
/// completes therefore cannot return before the polled status was
/// `Completed`.
pub proof fn lemma_sync_completes_only_after_completed(p: SyncPhase, events: Seq<SyncEvent>)
    requires
        !(p is Completed),
        spec_sync_run(p, events) is Completed,
    ensures
        exists|i: int|
            0 <= i < events.len() && events[i] == SyncEvent::Polled(SyncStatus::Completed),
    decreases events.len(),
{
    let next = spec_sync_step(p, events[0]).0;
    if events[0] == SyncEvent::Polled(SyncStatus::Completed) && p is Syncing {
        assert(events[0] == SyncEvent::Polled(SyncStatus::Completed));
    } else {
        assert(!(next is Completed));
        lemma_sync_completes_only_after_completed(next, events.drop_first());
        let j = choose|j: int|
            0 <= j < events.drop_first().len() && events.drop_first()[j] == SyncEvent::Polled(
                SyncStatus::Completed,
            );
        assert(events[j + 1] == SyncEvent::Polled(SyncStatus::Completed));
    }
}

/// The step that first reaches `Completed` is exactly the one that observes
/// a polled `Completed` status, and that same step orders the fresh-time
/// display write: completion and the time display cannot come apart.
pub proof fn lemma_completion_shows_time(p: SyncPhase, e: SyncEvent)
    requires
        !(p is Completed),
        spec_sync_step(p, e).0 is Completed,
    ensures
        e == SyncEvent::Polled(SyncStatus::Completed),
        spec_sync_step(p, e).1 == SyncAction::ShowTime,
{
}

/// Drives the display writes that the sync actions call for. `Restart`
/// shows the SYNC message while the protocol runs; `ShowTime` reads the
/// clock and shows the freshly formatted time — never the SYNC message,
/// since a time frame always carries the separator marker and the SYNC
/// frame does not. `Poll` and `Ignore` leave the device untouched.
pub fn sync_display_update(device: &mut DeviceHandle, action: SyncAction) -> (cmds: Vec<
    TransportCommand,
>)
    requires
        old(device).inited(),
    ensures
        final(device).inited(),
        final(device).model() =~= spec_apply_all(old(device).model(), cmds@),
        final(device).model().brightness == old(device).model().brightness,
        action is Restart ==> (spec_is_write_block(
            cmds@,
            spec_message_frame(DisplayMessage::Sync),
        ) && final(device).model().shown =~= spec_message_frame(DisplayMessage::Sync)),
        action is ShowTime ==> (exists|h: int, m: int|
            0 <= h < 24 && 0 <= m < 60 && spec_is_write_block(
                cmds@,
                spec_time_frame(spec_time_digits(h, m)),
            ) && final(device).model().shown =~= spec_time_frame(spec_time_digits(h, m))),
        action is ShowTime ==> final(device).model().shown != spec_message_frame(
            DisplayMessage::Sync,
        ),
        (action is Poll || action is Ignore) ==> (cmds@ =~= Seq::<TransportCommand>::empty()
            && *final(device) == *old(device)),
    {
        match action {
            SyncAction::Restart => {
                let frame = DisplayMessage::Sync.as_bytes();
                device.write(frame)
            },
            SyncAction::ShowTime => {
                let cmds = update_display_time(device);
                proof {
                    let (h, m) = choose|h: int, m: int|
                        0 <= h < 24 && 0 <= m < 60 && spec_is_write_block(
                            cmds@,
                            spec_time_frame(spec_time_digits(h, m)),
                        ) && final(device).model().shown =~= spec_time_frame(
                            spec_time_digits(h, m),
                        );
                    lemma_time_frame_differs_from_sync(spec_time_digits(h, m));
                }
                cmds
            },
            SyncAction::Poll => Vec::new(),
            SyncAction::Ignore => Vec::new(),
        }
    }

/// A rendered time frame can never be mistaken for the SYNC message: the
/// hour-units position of a time frame has the separator bit set, and the
/// corresponding SYNC byte does not.
proof fn lemma_time_frame_differs_from_sync(d: Seq<u8>)
    requires
        d.len() == 4,
        forall|i: int| 0 <= i < 4 ==> d[i] < 10,
    ensures
        spec_time_frame(d) != spec_message_frame(DisplayMessage::Sync),
{
    let e = crate::display::spec_encode_digit(d[1] as int);
    assert((e | 0x80u8) != 0x6eu8) by (bit_vector);
    assert(spec_time_frame(d)[1] != spec_message_frame(DisplayMessage::Sync)[1]);
}

} // verus!
