//! Digit encoding and fixed status frames for the seven-segment display.

use vstd::prelude::*;

verus! {

/// Segment pattern shown for one decimal digit, following the canonical
/// seven-segment table (bit 0 = segment a, ..., bit 6 = segment g).
pub open spec fn spec_encode_digit(d: int) -> u8 {
    if d == 0 {
        0x3f
    } else if d == 1 {
        0x06
    } else if d == 2 {
        0x5b
    } else if d == 3 {
        0x4f
    } else if d == 4 {
        0x66
    } else if d == 5 {
        0x6d
    } else if d == 6 {
        0x7d
    } else if d == 7 {
        0x07
    } else if d == 8 {
        0x7f
    } else {
        0x6f
    }
}

/// Encodes one decimal digit as its seven-segment pattern.
///
/// Total over `[0, 9]`; any other input is a caller error, so it is ruled
/// out by the precondition.
pub fn encode_digit(d: u8) -> (r: u8)
    requires
        d < 10,
    ensures
        r == spec_encode_digit(d as int),
{
    match d {
        0 => 0x3f,
        1 => 0x06,
        2 => 0x5b,
        3 => 0x4f,
        4 => 0x66,
        5 => 0x6d,
        6 => 0x7d,
        7 => 0x07,
        8 => 0x7f,
        _ => 0x6f,
    }
}

/// The ten digit patterns are pairwise distinct, so two different digits can
/// never render as the same glyph.
pub proof fn lemma_digit_patterns_distinct(d1: int, d2: int)
    requires
        0 <= d1 < 10,
        0 <= d2 < 10,
        d1 != d2,
    ensures
        spec_encode_digit(d1) != spec_encode_digit(d2),
{
}

/// Fixed status messages the display can show instead of a time.
#[derive(Clone, Copy, PartialEq, Eq, Structural, Debug)]
pub enum DisplayMessage {
    Init,
    Sync,
}

/// Segment bytes of each status message: lowercase "init" and "sync"
/// rendered on seven segments.
pub open spec fn spec_message_frame(m: DisplayMessage) -> Seq<u8> {
    match m {
        DisplayMessage::Init => seq![0x06u8, 0x54u8, 0x04u8, 0x78u8],
        DisplayMessage::Sync => seq![0x6du8, 0x6eu8, 0x37u8, 0x39u8],
    }
}

impl DisplayMessage {
    /// The four segment bytes that spell this message on the display.
    pub fn as_bytes(&self) -> (r: [u8; 4])
        ensures
            r@ =~= spec_message_frame(*self),
    {
        match self {
            DisplayMessage::Init => [0x06, 0x54, 0x04, 0x78],
            DisplayMessage::Sync => [0x6d, 0x6e, 0x37, 0x39],
        }
    }
}

} // verus!
