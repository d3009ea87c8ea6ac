//! Decision logic of the request handlers.
//!
//! Each inbound request carries an untrusted URL; the functions here
//! validate it and decide which transport commands to run. The surrounding
//! server performs the I/O: it hands the URL in and executes the returned
//! commands under the device lock. Invalid input is accepted silently by
//! design — the request succeeds, no command runs, and the device is left
//! untouched.

use vstd::prelude::*;
use vstd::string::StringSliceAdditionalSpecFns;
use crate::device::{DeviceHandle, TransportCommand, spec_apply_all, spec_is_write_block};
use crate::utils::{QUERY_MARK, find_digits_in_url, spec_find, spec_query_token};

verus! {

/// The byte `'0'`; decimal digits are `'0'` through `'9'`.
pub const DIGIT_ZERO: u8 = 0x30;

/// Whether every byte of `s` is a decimal digit.
pub open spec fn spec_all_digits(s: Seq<u8>) -> bool {
    forall|i: int| 0 <= i < s.len() ==> DIGIT_ZERO <= #[trigger] s[i] <= DIGIT_ZERO + 9
}

/// Numeric value of a decimal digit string.
pub open spec fn spec_decimal(s: Seq<u8>) -> int
    decreases s.len(),
{
    if s.len() == 0 {
        0
    } else {
        spec_decimal(s.drop_last()) * 10 + (s.last() - DIGIT_ZERO)
    }
}

/// A digit string's value is non-negative, and appending digits never
/// shrinks it.
proof fn lemma_decimal_nonneg(s: Seq<u8>)
    requires
        spec_all_digits(s),
    ensures
        spec_decimal(s) >= 0,
    decreases s.len(),
{
    if s.len() > 0 {
        lemma_decimal_nonneg(s.drop_last());
    }
}

/// The byte `'+'`; an unsigned decimal read tolerates one leading plus
/// sign.
pub const PLUS_SIGN: u8 = 0x2b;

/// A query suffix with one optional leading `+` stripped: what an unsigned
/// decimal read treats as the digit string.
pub open spec fn spec_signless(rest: Seq<u8>) -> Seq<u8> {
    if rest.len() > 0 && rest[0] == PLUS_SIGN {
        rest.drop_first()
    } else {
        rest
    }
}

/// The brightness level a request asks to apply: everything after the first
/// `?`, read the way an unsigned decimal parse reads it — one optional
/// leading `+`, then a non-empty digit string — and accepted only when the
/// value lies in `[1, 7]`. Anything else — no query, empty query, stray
/// characters, zero, eight or more — is `None`: the request is silently
/// ignored.
pub open spec fn spec_brightness_request(s: Seq<u8>) -> Option<u8> {
    let q = spec_find(s, QUERY_MARK);
    if q == -1 {
        None
    } else {
        let digits = spec_signless(s.subrange(q + 1, s.len() as int));
        if digits.len() > 0 && spec_all_digits(digits) && 1 <= spec_decimal(digits) <= 7 {
            Some(spec_decimal(digits) as u8)
        } else {
            None
        }
    }
}

/// Parses the brightness level out of a request URL, per
/// `spec_brightness_request`.
pub fn brightness_request(url: &str) -> (r: Option<u8>)
    ensures
        r == spec_brightness_request(url.spec_bytes()),
{
    let bytes = url.as_bytes();
    let n = bytes.len();
    let found = crate::utils::find_byte(bytes, QUERY_MARK);
    match found {
        None => None,
        Some(q) => {
            let start: usize = if q + 1 < n && bytes[q + 1] == PLUS_SIGN {
                q + 2
            } else {
                q + 1
            };
            let ghost digits = spec_signless(bytes@.subrange(q + 1, n as int));
            proof {
                let rest = bytes@.subrange(q + 1, n as int);
                assert(forall|j: int|
                    0 <= j < rest.len() ==> rest[j] == bytes@[q + 1 + j]);
                if start == q + 2 {
                    assert(rest[0] == PLUS_SIGN);
                }
                assert(digits =~= bytes@.subrange(start as int, n as int));
            }
            if start == n {
                return None;
            }
            let mut i: usize = start;
            let mut acc: u32 = 0;
            let mut over: bool = false;
            while i < n
                invariant
                    start <= i <= n,
                    n == bytes@.len(),
                    q < n,
                    q + 1 <= start <= n,
                    bytes@ == url.spec_bytes(),
                    spec_find(bytes@, QUERY_MARK) == q as int,
                    digits =~= spec_signless(bytes@.subrange(q + 1, n as int)),
                    digits =~= bytes@.subrange(start as int, n as int),
                    forall|j: int| 0 <= j < digits.len() ==> digits[j] == bytes@[start + j],
                    spec_all_digits(bytes@.subrange(start as int, i as int)),
                    !over ==> acc <= 7 && acc == spec_decimal(
                        bytes@.subrange(start as int, i as int),
                    ),
                    over ==> spec_decimal(bytes@.subrange(start as int, i as int)) > 7,
                decreases n - i,
            {
                let b = bytes[i];
                if b < DIGIT_ZERO || b > DIGIT_ZERO + 9 {
                    proof {
                        assert(digits[i - start] == b);
                        assert(!spec_all_digits(digits));
                    }
                    return None;
                }
                let ghost pre = bytes@.subrange(start as int, i as int);
                let ghost post = bytes@.subrange(start as int, i as int + 1);
                proof {
                    assert(post.drop_last() =~= pre);
                    assert(post.last() == b);
                    lemma_decimal_nonneg(pre);
                }
                let d: u32 = (b - DIGIT_ZERO) as u32;
                if over {
                    proof {
                        assert(spec_decimal(post) == spec_decimal(pre) * 10 + (b
                            - DIGIT_ZERO));
                        assert(spec_decimal(post) > 7);
                    }
                } else {
                    let next = acc * 10 + d;
                    if next > 7 {
                        over = true;
                        proof {
                            assert(spec_decimal(post) == spec_decimal(pre) * 10 + (b
                                - DIGIT_ZERO));
                        }
                    } else {
                        acc = next;
                    }
                }
                i = i + 1;
            }
            proof {
                assert(bytes@.subrange(start as int, n as int) =~= digits);
            }
            if over {
                return None;
            }
            if acc >= 1 {
                Some(acc as u8)
            } else {
                None
            }
        },
    }
}

/// Decides a set-digits request: the first query token's bytes land
/// literally on the frame positions, left to right, missing positions
/// blank; the whole update runs as one clear-then-write block. The device
/// must have been initialised first.
pub fn handle_set_digits(device: &mut DeviceHandle, url: &str) -> (cmds: Vec<TransportCommand>)
    requires
        old(device).inited(),
    ensures
        final(device).inited(),
        spec_is_write_block(cmds@, spec_padded_frame(spec_query_token(url.spec_bytes()))),
        final(device).model() =~= spec_apply_all(old(device).model(), cmds@),
        final(device).model().shown =~= spec_padded_frame(
            spec_query_token(url.spec_bytes()),
        ),
        final(device).model().brightness == old(device).model().brightness,
{
    let token = find_digits_in_url(url);
    let frame: [u8; 4] = [
        if token.len() > 0 {
            token[0]
        } else {
            0
        },
        if token.len() > 1 {
            token[1]
        } else {
            0
        },
        if token.len() > 2 {
            token[2]
        } else {
            0
        },
        if token.len() > 3 {
            token[3]
        } else {
            0
        },
    ];
    proof {
        assert(frame@ =~= spec_padded_frame(token@));
    }
    device.write(frame)
}

/// The frame a query token produces: its first four bytes taken literally,
/// missing positions blank.
pub open spec fn spec_padded_frame(token: Seq<u8>) -> Seq<u8> {
    Seq::new(
        4,
        |i: int|
            if i < token.len() {
                token[i]
            } else {
                0u8
            },
    )
}

/// Decides a set-brightness request: a valid level in `[1, 7]` is applied;
/// any other request leaves the device untouched and runs no command, yet
/// does not fail. The device must have been initialised first.
pub fn handle_set_brightness(device: &mut DeviceHandle, url: &str) -> (cmds: Vec<
    TransportCommand,
>)
    requires
        old(device).inited(),
    ensures
        final(device).inited(),
        final(device).model() =~= spec_apply_all(old(device).model(), cmds@),
        spec_brightness_request(url.spec_bytes()) matches Some(v) ==> (cmds@ =~= seq![
            TransportCommand::SetBrightness(v),
        ] && final(device).model().brightness == v && final(device).model().shown =~= old(
            device,
        ).model().shown),
        spec_brightness_request(url.spec_bytes()) is None ==> (cmds@ =~= Seq::<
            TransportCommand,
        >::empty() && *final(device) == *old(device)),
{
    let level = brightness_request(url);
    match level {
        Some(v) => device.set_brightness(v),
        None => Vec::new(),
    }
}

/// The `HH:MM` text of four time digits, as ASCII bytes; the status page
/// shows it verbatim.
pub fn clock_text(digits: &Vec<u8>) -> (r: Vec<u8>)
    requires
        digits@.len() == 4,
        forall|i: int| 0 <= i < 4 ==> digits@[i] < 10,
    ensures
        r@ =~= seq![
            (DIGIT_ZERO + digits@[0]) as u8,
            (DIGIT_ZERO + digits@[1]) as u8,
            0x3au8,
            (DIGIT_ZERO + digits@[2]) as u8,
            (DIGIT_ZERO + digits@[3]) as u8,
        ],
{
    let mut r: Vec<u8> = Vec::new();
    r.push(DIGIT_ZERO + digits[0]);
    r.push(DIGIT_ZERO + digits[1]);
    r.push(0x3a);
    r.push(DIGIT_ZERO + digits[2]);
    r.push(DIGIT_ZERO + digits[3]);
    r
}

} // verus!
