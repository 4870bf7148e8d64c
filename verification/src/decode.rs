//! Lossy UTF-8 decoding, modelled byte by byte.
//!
//! The decoder follows UTF-8 with substitution of maximal subparts: each
//! step consumes the longest prefix of a valid encoded scalar.  A complete
//! valid sequence yields its scalar; anything else yields the replacement
//! scalar and consumes only the bytes that could still have begun a valid
//! sequence (at least one).  Decoding therefore never fails, and every step
//! consumes at least one byte.

use vstd::prelude::*;

verus! {

/// The Unicode replacement scalar, substituted for invalid byte sequences.
pub const REPLACEMENT: u32 = 0xFFFD;

/// Holds of bytes that may continue a multi-byte UTF-8 sequence.
pub open spec fn is_continuation(b: u8) -> bool {
    0x80 <= b && b <= 0xBF
}

/// Holds of second bytes that may follow the lead byte `b0` of a three-byte
/// sequence: the ranges exclude overlong encodings (lead `0xE0`) and
/// surrogates (lead `0xED`).
pub open spec fn valid_second_of_three(b0: u8, b1: u8) -> bool {
    if b0 == 0xE0 {
        0xA0 <= b1 && b1 <= 0xBF
    } else if b0 == 0xED {
        0x80 <= b1 && b1 <= 0x9F
    } else {
        is_continuation(b1)
    }
}

/// Holds of second bytes that may follow the lead byte `b0` of a four-byte
/// sequence: the ranges exclude overlong encodings (lead `0xF0`) and values
/// beyond the last scalar (lead `0xF4`).
pub open spec fn valid_second_of_four(b0: u8, b1: u8) -> bool {
    if b0 == 0xF0 {
        0x90 <= b1 && b1 <= 0xBF
    } else if b0 == 0xF4 {
        0x80 <= b1 && b1 <= 0x8F
    } else {
        is_continuation(b1)
    }
}

/// The first decoding step on a non-empty `s`: the scalar it yields and the
/// number of bytes it consumes.
pub open spec fn step(s: Seq<u8>) -> (u32, nat)
    recommends
        s.len() > 0,
{
    let b0 = s[0];
    if b0 < 0x80 {
        (b0 as u32, 1nat)
    } else if 0xC2 <= b0 && b0 <= 0xDF {
        if s.len() >= 2 && is_continuation(s[1]) {
            ((((b0 - 0xC0) * 0x40 + (s[1] - 0x80)) as u32), 2nat)
        } else {
            (REPLACEMENT, 1nat)
        }
    } else if 0xE0 <= b0 && b0 <= 0xEF {
        if s.len() >= 2 && valid_second_of_three(b0, s[1]) {
            if s.len() >= 3 && is_continuation(s[2]) {
                ((((b0 - 0xE0) * 0x1000 + (s[1] - 0x80) * 0x40 + (s[2] - 0x80)) as u32), 3nat)
            } else {
                (REPLACEMENT, 2nat)
            }
        } else {
            (REPLACEMENT, 1nat)
        }
    } else if 0xF0 <= b0 && b0 <= 0xF4 {
        if s.len() >= 2 && valid_second_of_four(b0, s[1]) {
            if s.len() >= 3 && is_continuation(s[2]) {
                if s.len() >= 4 && is_continuation(s[3]) {
                    ((((b0 - 0xF0) * 0x40000 + (s[1] - 0x80) * 0x1000 + (s[2] - 0x80) * 0x40 + (
                    s[3] - 0x80)) as u32), 4nat)
                } else {
                    (REPLACEMENT, 3nat)
                }
            } else {
                (REPLACEMENT, 2nat)
            }
        } else {
            (REPLACEMENT, 1nat)
        }
    } else {
        (REPLACEMENT, 1nat)
    }
}

/// The sequence of scalars that lossy decoding of `s` yields, in order.
pub open spec fn decode_lossy(s: Seq<u8>) -> Seq<u32>
    decreases s.len(),
{
    if s.len() == 0 {
        Seq::empty()
    } else {
        seq![step(s).0] + decode_lossy(s.skip(step(s).1 as int))
    }
}

/// Each decoding step consumes at least one byte and never more than the
/// bytes that remain.
pub proof fn lemma_step_width(s: Seq<u8>)
    requires
        s.len() > 0,
    ensures
        1 <= step(s).1 <= s.len(),
{
}

/// Decoding yields at most one scalar per input byte, and yields no scalar
/// only of empty input.
pub proof fn lemma_decode_len(s: Seq<u8>)
    ensures
        decode_lossy(s).len() <= s.len(),
        decode_lossy(s).len() == 0 <==> s.len() == 0,
    decreases s.len(),
{
    if s.len() > 0 {
        lemma_step_width(s);
        lemma_decode_len(s.skip(step(s).1 as int));
    }
}

/// Bytes below `0x80` decode to themselves, one scalar per byte.
pub proof fn lemma_decode_ascii(s: Seq<u8>)
    requires
        forall|i: int| 0 <= i < s.len() ==> s[i] < 0x80,
    ensures
        decode_lossy(s) =~= s.map(|i: int, b: u8| b as u32),
    decreases s.len(),
{
    if s.len() > 0 {
        assert(step(s) == (s[0] as u32, 1nat));
        lemma_decode_ascii(s.skip(1));
    }
}

/// One UTF-8 decoding step at position `i` of `s`: returns the scalar (or
/// the replacement) and the number of bytes consumed.
pub(crate) fn step_exec(s: &Vec<u8>, i: usize) -> (r: (u32, usize))
    requires
        i < s@.len(),
    ensures
        r.0 == step(s@.skip(i as int)).0,
        r.1 == step(s@.skip(i as int)).1,
        1 <= r.1 && i + r.1 <= s@.len(),
{
    let ghost rest = s@.skip(i as int);
    let rem: usize = s.len() - i;
    let b0 = s[i];
    assert(rest[0] == b0);
    if b0 < 0x80 {
        (b0 as u32, 1)
    } else if 0xC2 <= b0 && b0 <= 0xDF {
        if rem >= 2 {
            let b1 = s[i + 1];
            assert(rest[1] == b1);
            if 0x80 <= b1 && b1 <= 0xBF {
                ((b0 as u32 - 0xC0) * 0x40 + (b1 as u32 - 0x80), 2)
            } else {
                (REPLACEMENT, 1)
            }
        } else {
            (REPLACEMENT, 1)
        }
    } else if 0xE0 <= b0 && b0 <= 0xEF {
        if rem >= 2 {
            let b1 = s[i + 1];
            assert(rest[1] == b1);
            let ok1 = if b0 == 0xE0 {
                0xA0 <= b1 && b1 <= 0xBF
            } else if b0 == 0xED {
                0x80 <= b1 && b1 <= 0x9F
            } else {
                0x80 <= b1 && b1 <= 0xBF
            };
            if ok1 {
                if rem >= 3 {
                    let b2 = s[i + 2];
                    assert(rest[2] == b2);
                    if 0x80 <= b2 && b2 <= 0xBF {
                        (
                            (b0 as u32 - 0xE0) * 0x1000 + (b1 as u32 - 0x80) * 0x40 + (b2 as u32
                                - 0x80),
                            3,
                        )
                    } else {
                        (REPLACEMENT, 2)
                    }
                } else {
                    (REPLACEMENT, 2)
                }
            } else {
                (REPLACEMENT, 1)
            }
        } else {
            (REPLACEMENT, 1)
        }
    } else if 0xF0 <= b0 && b0 <= 0xF4 {
        if rem >= 2 {
            let b1 = s[i + 1];
            assert(rest[1] == b1);
            let ok1 = if b0 == 0xF0 {
                0x90 <= b1 && b1 <= 0xBF
            } else if b0 == 0xF4 {
                0x80 <= b1 && b1 <= 0x8F
            } else {
                0x80 <= b1 && b1 <= 0xBF
            };
            if ok1 {
                if rem >= 3 {
                    let b2 = s[i + 2];
                    assert(rest[2] == b2);
                    if 0x80 <= b2 && b2 <= 0xBF {
                        if rem >= 4 {
                            let b3 = s[i + 3];
                            assert(rest[3] == b3);
                            if 0x80 <= b3 && b3 <= 0xBF {
                                (
                                    (b0 as u32 - 0xF0) * 0x40000 + (b1 as u32 - 0x80) * 0x1000 + (
                                    b2 as u32 - 0x80) * 0x40 + (b3 as u32 - 0x80),
                                    4,
                                )
                            } else {
                                (REPLACEMENT, 3)
                            }
                        } else {
                            (REPLACEMENT, 3)
                        }
                    } else {
                        (REPLACEMENT, 2)
                    }
                } else {
                    (REPLACEMENT, 2)
                }
            } else {
                (REPLACEMENT, 1)
            }
        } else {
            (REPLACEMENT, 1)
        }
    } else {
        (REPLACEMENT, 1)
    }
}

} // verus!
