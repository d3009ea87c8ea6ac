//! Wall-clock reading and time-to-frame formatting.
//!
//! The clock itself is an outside collaborator: chrono converts the system
//! time to the configured timezone. Everything computed from the returned
//! hour and minute — digit decomposition and segment rendering — is verified
//! here.

use vstd::prelude::*;
use crate::device::{DeviceHandle, TransportCommand, spec_apply_all, spec_is_write_block};
use crate::display::spec_encode_digit;
use crate::display::encode_digit;

verus! {

/// The four display digits of a time: hour tens, hour units, minute tens,
/// minute units.
pub open spec fn spec_time_digits(hour: int, minute: int) -> Seq<u8> {
    seq![
        (hour / 10) as u8,
        (hour % 10) as u8,
        (minute / 10) as u8,
        (minute % 10) as u8,
    ]
}

/// Decomposes a timezone-adjusted hour/minute pair into the four display
/// digits. Total over valid clock readings; every digit is in `[0, 9]`.
pub fn format(hour: u8, minute: u8) -> (d: [u8; 4])
    requires
        hour < 24,
        minute < 60,
    ensures
        d@ =~= spec_time_digits(hour as int, minute as int),
        forall|i: int| 0 <= i < 4 ==> d@[i] < 10,
{
    [hour / 10, hour % 10, minute / 10, minute % 10]
}

/// Segment bytes of a frame showing the four digits, with the separator
/// marker (highest bit) on the hour-units position: the colon between hours
/// and minutes is lit whenever a time is shown.
pub open spec fn spec_time_frame(d: Seq<u8>) -> Seq<u8> {
    seq![
        spec_encode_digit(d[0] as int),
        spec_encode_digit(d[1] as int) | 0x80u8,
        spec_encode_digit(d[2] as int),
        spec_encode_digit(d[3] as int),
    ]
}

/// Renders four time digits as a display frame, applying the separator
/// marker to the hour-units position.
pub fn time_frame(digits: &[u8; 4]) -> (f: [u8; 4])
    requires
        forall|i: int| 0 <= i < 4 ==> digits@[i] < 10,
    ensures
        f@ =~= spec_time_frame(digits@),
{
    [
        encode_digit(digits[0]),
        encode_digit(digits[1]) | 0x80,
        encode_digit(digits[2]),
        encode_digit(digits[3]),
    ]
}

/// Relies on chrono and chrono-tz: `SystemTime::now` converted to a
/// `DateTime` in the America/Sao_Paulo timezone, whose `Timelike::hour` is
/// documented to lie in `[0, 23]` and `Timelike::minute` in `[0, 59]`. The
/// reading depends on the wall clock, so nothing more than those ranges can
/// be promised.
#[verifier::external_body]
fn now_hour_minute() -> (r: (u8, u8))
    ensures
        r.0 < 24,
        r.1 < 60,
{
    let now_utc: chrono::DateTime<chrono::Utc> = std::time::SystemTime::now().into();
    let now = now_utc.with_timezone(&chrono_tz::America::Sao_Paulo);
    (chrono::Timelike::hour(&now) as u8, chrono::Timelike::minute(&now) as u8)
}

/// Reads the current timezone-adjusted time and returns its four display
/// digits. The digits are recomputed from the clock on every call, never
/// cached; whatever the clock reads, the result is the exact digit
/// decomposition of a valid hour/minute pair.
pub fn get_time() -> (t: Vec<u8>)
    ensures
        t@.len() == 4,
        exists|h: int, m: int|
            0 <= h < 24 && 0 <= m < 60 && t@ =~= spec_time_digits(h, m),
        forall|i: int| 0 <= i < 4 ==> t@[i] < 10,
{
    let (hour, minute) = now_hour_minute();
    let d = format(hour, minute);
    let mut t: Vec<u8> = Vec::new();
    t.push(d[0]);
    t.push(d[1]);
    t.push(d[2]);
    t.push(d[3]);
    proof {
        assert(t@ =~= d@);
        assert((hour as int) < 24 && (minute as int) < 60
            && t@ =~= spec_time_digits(hour as int, minute as int));
    }
    t
}

/// Reads the current time and updates the display with it: one whole
/// clear-then-write block carrying the freshly formatted time frame. The
/// device must have been initialised first.
pub fn update_display_time(device: &mut DeviceHandle) -> (cmds: Vec<TransportCommand>)
    requires
        old(device).inited(),
    ensures
        final(device).inited(),
        final(device).model() =~= spec_apply_all(old(device).model(), cmds@),
        final(device).model().brightness == old(device).model().brightness,
        exists|h: int, m: int|
            0 <= h < 24 && 0 <= m < 60 && spec_is_write_block(
                cmds@,
                spec_time_frame(spec_time_digits(h, m)),
            ) && final(device).model().shown =~= spec_time_frame(spec_time_digits(h, m)),
{
    let digits = get_time();
    let d: [u8; 4] = [digits[0], digits[1], digits[2], digits[3]];
    let frame = time_frame(&d);
    let cmds = device.write(frame);
    proof {
        let (h, m) = choose|h: int, m: int|
            0 <= h < 24 && 0 <= m < 60 && digits@ =~= spec_time_digits(h, m);
        assert(d@ =~= digits@);
        assert(d@ =~= spec_time_digits(h, m));
    }
    cmds
}

} // verus!
