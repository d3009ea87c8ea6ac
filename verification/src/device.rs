//! Exclusive coordination of the shared display device.
//!
//! The physical transport is an outside collaborator; this module decides
//! which transport calls to make and in what order, and tracks the
//! observable device state that executing those calls produces. The
//! surrounding program must execute each returned command sequence in order
//! and as one atomic block (holding its device lock for the whole block), so
//! that blocks from concurrent callers never interleave mid-sequence.

use vstd::prelude::*;
use crate::display::{DisplayMessage, spec_message_frame};

verus! {

/// Brightness level applied right after transport initialisation.
pub const DEFAULT_BRIGHTNESS: u8 = 5;

/// One call into the display transport collaborator.
#[derive(Clone, Copy, PartialEq, Eq, Debug)]
pub enum TransportCommand {
    /// Initialise the transport protocol.
    Init,
    /// Set the device brightness to the carried level.
    SetBrightness(u8),
    /// Blank all four positions.
    Clear,
    /// Write the four segment bytes, leftmost position first.
    Write([u8; 4]),
}

/// Observable state of the physical display, as produced by the commands
/// issued so far.
#[verifier::ext_equal]
pub struct DeviceModel {
    /// Whether the transport protocol has been initialised.
    pub initialized: bool,
    /// Current brightness level.
    pub brightness: u8,
    /// Segment bytes currently visible, one per position.
    pub shown: Seq<u8>,
}

/// Effect of one transport command on the observable device state.
pub open spec fn spec_apply(s: DeviceModel, c: TransportCommand) -> DeviceModel {
    match c {
        TransportCommand::Init => DeviceModel { initialized: true, ..s },
        TransportCommand::SetBrightness(b) => DeviceModel { brightness: b, ..s },
        TransportCommand::Clear => DeviceModel { shown: seq![0u8, 0u8, 0u8, 0u8], ..s },
        TransportCommand::Write(f) => DeviceModel { shown: f@, ..s },
    }
}

/// Effect of a command sequence, applied in order.
pub open spec fn spec_apply_all(s: DeviceModel, cs: Seq<TransportCommand>) -> DeviceModel
    decreases cs.len(),
{
    if cs.len() == 0 {
        s
    } else {
        spec_apply_all(spec_apply(s, cs[0]), cs.drop_first())
    }
}

/// A clear-then-write block: the exact command sequence one whole-frame
/// update issues while holding the device lock.
pub open spec fn spec_is_write_block(cs: Seq<TransportCommand>, frame: Seq<u8>) -> bool {
    &&& cs.len() == 2
    &&& cs[0] == TransportCommand::Clear
    &&& cs[1] matches TransportCommand::Write(f) && f@ == frame
}

/// Applying commands in two runs is the same as applying their
/// concatenation: command blocks compose sequentially.
pub proof fn lemma_apply_all_append(s: DeviceModel, cs1: Seq<TransportCommand>, cs2: Seq<TransportCommand>)
    ensures
        spec_apply_all(s, cs1 + cs2) == spec_apply_all(spec_apply_all(s, cs1), cs2),
    decreases cs1.len(),
{
    if cs1.len() == 0 {
        assert(cs1 + cs2 =~= cs2);
    } else {
        assert((cs1 + cs2).drop_first() =~= cs1.drop_first() + cs2);
        lemma_apply_all_append(spec_apply(s, cs1[0]), cs1.drop_first(), cs2);
    }
}

/// A write block is all-or-nothing: whatever the device showed before, after
/// the block it shows exactly the block's frame, and nothing else about the
/// device has changed. An observer who only sees the device between blocks
/// can never see a half-written frame.
pub proof fn lemma_write_block_all_or_nothing(
    s: DeviceModel,
    cs: Seq<TransportCommand>,
    frame: Seq<u8>,
)
    requires
        spec_is_write_block(cs, frame),
    ensures
        spec_apply_all(s, cs) == (DeviceModel { shown: frame, ..s }),
{
    let s1 = spec_apply(s, cs[0]);
    let s2 = spec_apply(s1, cs[1]);
    assert(cs.drop_first()[0] == cs[1]);
    assert(cs.drop_first().drop_first() =~= Seq::<TransportCommand>::empty());
    assert(spec_apply_all(s2, cs.drop_first().drop_first()) == s2);
    assert(spec_apply_all(s1, cs.drop_first()) == s2);
    assert(spec_apply_all(s, cs) == s2);
    assert(s2 =~= DeviceModel { shown: frame, ..s });
}

/// Serialized whole-frame updates obey last-writer-wins: after two write
/// blocks run back to back, in either order, the device shows the later
/// block's frame in full. Together with `lemma_write_block_all_or_nothing`
/// this is the guarantee concurrent callers get from the device lock: blocks
/// never interleave, so the visible state is always some caller's complete
/// frame, namely the last one's.
pub proof fn lemma_write_blocks_serialize(
    s: DeviceModel,
    cs1: Seq<TransportCommand>,
    cs2: Seq<TransportCommand>,
    frame1: Seq<u8>,
    frame2: Seq<u8>,
)
    requires
        spec_is_write_block(cs1, frame1),
        spec_is_write_block(cs2, frame2),
    ensures
        spec_apply_all(s, cs1 + cs2) == (DeviceModel { shown: frame2, ..s }),
{
    lemma_apply_all_append(s, cs1, cs2);
    lemma_write_block_all_or_nothing(s, cs1, frame1);
    lemma_write_block_all_or_nothing(DeviceModel { shown: frame1, ..s }, cs2, frame2);
}

/// Any number of whole-frame updates run back to back — the blocks of N
/// callers, serialized by the device lock in whatever order they acquired
/// it — leave the device showing the last block's frame in full, with
/// brightness and initialisation untouched. No interleaving of callers can
/// expose a state that is not some caller's complete frame.
pub proof fn lemma_serialized_writes_show_last(
    s: DeviceModel,
    blocks: Seq<Seq<TransportCommand>>,
    frames: Seq<Seq<u8>>,
)
    requires
        blocks.len() == frames.len(),
        blocks.len() > 0,
        forall|i: int|
            0 <= i < blocks.len() ==> spec_is_write_block(#[trigger] blocks[i], frames[i]),
    ensures
        spec_apply_all(s, blocks.flatten()) == (DeviceModel { shown: frames.last(), ..s }),
    decreases blocks.len(),
{
    assert(blocks.flatten() == blocks.first() + blocks.drop_first().flatten());
    lemma_apply_all_append(s, blocks[0], blocks.drop_first().flatten());
    lemma_write_block_all_or_nothing(s, blocks[0], frames[0]);
    if blocks.len() == 1 {
        assert(blocks.drop_first().flatten() =~= Seq::<TransportCommand>::empty());
        assert(frames.last() == frames[0]);
    } else {
        assert(forall|i: int|
            0 <= i < blocks.drop_first().len() ==> spec_is_write_block(
                #[trigger] blocks.drop_first()[i],
                frames.drop_first()[i],
            ));
        lemma_serialized_writes_show_last(
            DeviceModel { shown: frames[0], ..s },
            blocks.drop_first(),
            frames.drop_first(),
        );
        assert(frames.drop_first().last() == frames.last());
    }
}

/// Writing the same frame twice leaves the device exactly as writing it
/// once: whole-frame updates are idempotent.
pub proof fn lemma_write_block_idempotent(
    s: DeviceModel,
    cs: Seq<TransportCommand>,
    frame: Seq<u8>,
)
    requires
        spec_is_write_block(cs, frame),
    ensures
        spec_apply_all(spec_apply_all(s, cs), cs) == spec_apply_all(s, cs),
{
    lemma_write_block_all_or_nothing(s, cs, frame);
    lemma_write_block_all_or_nothing(DeviceModel { shown: frame, ..s }, cs, frame);
}

/// The coordinator's side of the shared device: it owns the right to decide
/// which transport commands run, and tracks the observable state those
/// commands produce. Exclusive access is expressed by `&mut`: the
/// surrounding program keeps one handle behind one lock.
pub struct DeviceHandle {
    initialized: bool,
    brightness: u8,
    shown: [u8; 4],
}

impl DeviceHandle {
    /// Observable device state this handle has established.
    pub closed spec fn model(self) -> DeviceModel {
        DeviceModel {
            initialized: self.initialized,
            brightness: self.brightness,
            shown: self.shown@,
        }
    }

    /// Whether the startup sequence has run.
    pub closed spec fn inited(self) -> bool {
        self.initialized
    }

    /// Whether the startup sequence has run; callers outside verified code
    /// test this before asking for further commands.
    pub fn is_initialized(&self) -> (r: bool)
        ensures
            r == self.inited(),
    {
        self.initialized
    }

    /// A handle for a device that has not been initialised yet; no command
    /// has run, so nothing is shown.
    pub fn new() -> (h: DeviceHandle)
        ensures
            !h.inited(),
            h.model().shown =~= seq![0u8, 0u8, 0u8, 0u8],
    {
        DeviceHandle { initialized: false, brightness: 0, shown: [0, 0, 0, 0] }
    }

    /// Startup sequence: initialise the transport, apply the default
    /// brightness, then show the INIT message. Runs exactly once — the
    /// precondition refuses a second initialisation, and every other
    /// operation requires it to have run first.
    pub fn init(&mut self) -> (cmds: Vec<TransportCommand>)
        requires
            !old(self).inited(),
        ensures
            final(self).inited(),
            cmds@.len() == 4,
            cmds@[0] == TransportCommand::Init,
            cmds@[1] == TransportCommand::SetBrightness(DEFAULT_BRIGHTNESS),
            spec_is_write_block(cmds@.subrange(2, 4), spec_message_frame(DisplayMessage::Init)),
            final(self).model() =~= spec_apply_all(old(self).model(), cmds@),
            final(self).model().brightness == DEFAULT_BRIGHTNESS,
            final(self).model().shown =~= spec_message_frame(DisplayMessage::Init),
    {
        let frame = DisplayMessage::Init.as_bytes();
        let ghost s0 = self.model();
        let mut cmds: Vec<TransportCommand> = Vec::new();
        cmds.push(TransportCommand::Init);
        cmds.push(TransportCommand::SetBrightness(DEFAULT_BRIGHTNESS));
        cmds.push(TransportCommand::Clear);
        cmds.push(TransportCommand::Write(frame));
        self.initialized = true;
        self.brightness = DEFAULT_BRIGHTNESS;
        self.shown = frame;
        proof {
            let cs = cmds@;
            assert(cs.subrange(2, 4).drop_first().drop_first()
                =~= Seq::<TransportCommand>::empty());
            let s1 = spec_apply(s0, cs[0]);
            let s2 = spec_apply(s1, cs[1]);
            let s3 = spec_apply(s2, cs[2]);
            let s4 = spec_apply(s3, cs[3]);
            assert(cs.drop_first()[0] == cs[1]);
            assert(cs.drop_first().drop_first()[0] == cs[2]);
            assert(cs.drop_first().drop_first().drop_first()[0] == cs[3]);
            assert(cs.drop_first().drop_first().drop_first().drop_first()
                =~= Seq::<TransportCommand>::empty());
            assert(spec_apply_all(
                s4,
                cs.drop_first().drop_first().drop_first().drop_first(),
            ) == s4);
            assert(spec_apply_all(s3, cs.drop_first().drop_first().drop_first()) == s4);
            assert(spec_apply_all(s2, cs.drop_first().drop_first()) == s4);
            assert(spec_apply_all(s1, cs.drop_first()) == s4);
            assert(spec_apply_all(s0, cs) == s4);
            assert(self.model() =~= s4);
        }
        cmds
    }

    /// Whole-frame update: clear, then write the frame, as one atomic block
    /// under the device lock.
    pub fn write(&mut self, frame: [u8; 4]) -> (cmds: Vec<TransportCommand>)
        requires
            old(self).inited(),
        ensures
            final(self).inited(),
            spec_is_write_block(cmds@, frame@),
            final(self).model() =~= spec_apply_all(old(self).model(), cmds@),
            final(self).model().shown =~= frame@,
            final(self).model().brightness == old(self).model().brightness,
    {
        let ghost s0 = self.model();
        let mut cmds: Vec<TransportCommand> = Vec::new();
        cmds.push(TransportCommand::Clear);
        cmds.push(TransportCommand::Write(frame));
        self.shown = frame;
        proof {
            let cs = cmds@;
            let s1 = spec_apply(s0, cs[0]);
            let s2 = spec_apply(s1, cs[1]);
            assert(cs.drop_first()[0] == cs[1]);
            assert(cs.drop_first().drop_first() =~= Seq::<TransportCommand>::empty());
            assert(spec_apply_all(s2, cs.drop_first().drop_first()) == s2);
            assert(spec_apply_all(s1, cs.drop_first()) == s2);
            assert(spec_apply_all(s0, cs) == s2);
            assert(self.model() =~= s2);
        }
        cmds
    }

    /// Brightness update. Levels outside `[1, 7]` are silently ignored by
    /// design: no command runs and the device is left untouched, yet the
    /// request itself does not fail.
    pub fn set_brightness(&mut self, level: u8) -> (cmds: Vec<TransportCommand>)
        requires
            old(self).inited(),
        ensures
            final(self).inited(),
            final(self).model() =~= spec_apply_all(old(self).model(), cmds@),
            1 <= level <= 7 ==> {
                &&& cmds@ =~= seq![TransportCommand::SetBrightness(level)]
                &&& final(self).model().brightness == level
                &&& final(self).model().shown =~= old(self).model().shown
            },
            !(1 <= level <= 7) ==> {
                &&& cmds@ =~= Seq::<TransportCommand>::empty()
                &&& *final(self) == *old(self)
            },
    {
        let ghost s0 = self.model();
        let mut cmds: Vec<TransportCommand> = Vec::new();
        if 1 <= level && level <= 7 {
            cmds.push(TransportCommand::SetBrightness(level));
            self.brightness = level;
            proof {
                let cs = cmds@;
                let s1 = spec_apply(s0, cs[0]);
                assert(cs.drop_first() =~= Seq::<TransportCommand>::empty());
                assert(spec_apply_all(s1, cs.drop_first()) == s1);

                assert(spec_apply_all(s0, cs) == s1);
                assert(self.model() =~= s1);
            }
        }
        cmds
    }
}

} // verus!
