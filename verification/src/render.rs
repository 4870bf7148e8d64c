//! The formatter and dispatcher: decimal rendering, the fixed-width output
//! field, flag recognition, and the report of a whole run.

use vstd::prelude::*;

use crate::args::UsageError;
use crate::counts::count_all;
use crate::counts::line_count;
use crate::counts::word_count;
use crate::counts::Counts;
use crate::decode::decode_lossy;

verus! {

/// The space byte: the padding and the field separator.
pub const SPACE: u8 = 0x20;

/// The width every numeric field is right-aligned to.
pub const FIELD_WIDTH: usize = 7;

/// The decimal digit bytes of `n`, most significant first.
pub open spec fn dec_digits(n: nat) -> Seq<u8>
    decreases n,
{
    if n < 10 {
        seq![(0x30 + n) as u8]
    } else {
        dec_digits(n / 10) + seq![(0x30 + n % 10) as u8]
    }
}

/// `s` right-aligned in the fixed field width, padded with spaces.
pub open spec fn right_aligned(s: Seq<u8>) -> Seq<u8> {
    if s.len() >= FIELD_WIDTH {
        s
    } else {
        Seq::new((FIELD_WIDTH - s.len()) as nat, |k: int| SPACE) + s
    }
}

/// One output field: `n` in decimal, right-aligned in the fixed width.
pub open spec fn field(n: nat) -> Seq<u8> {
    right_aligned(dec_digits(n))
}

/// Renders `n` in decimal.
fn dec_render(n: u64) -> (v: Vec<u8>)
    ensures
        v@ == dec_digits(n as nat),
    decreases n,
{
    if n < 10 {
        let mut v: Vec<u8> = Vec::new();
        v.push(0x30 + n as u8);
        proof {
            assert(v@ =~= dec_digits(n as nat));
        }
        v
    } else {
        let mut v = dec_render(n / 10);
        v.push(0x30 + (n % 10) as u8);
        proof {
            assert(v@ =~= dec_digits(n as nat));
        }
        v
    }
}

/// Renders `n` right-aligned in the fixed seven-column field.
pub fn render_field(n: u64) -> (v: Vec<u8>)
    ensures
        v@ == field(n as nat),
{
    let mut digits = dec_render(n);
    if digits.len() >= FIELD_WIDTH {
        digits
    } else {
        let pad: usize = FIELD_WIDTH - digits.len();
        let mut v: Vec<u8> = Vec::new();
        let mut k: usize = 0;
        while k < pad
            invariant
                k <= pad,
                v@.len() == k,
                forall|j: int| 0 <= j < v@.len() ==> v@[j] == SPACE,
            decreases pad - k,
        {
            v.push(SPACE);
            k = k + 1;
        }
        v.append(&mut digits);
        proof {
            assert(v@ =~= field(n as nat));
        }
        v
    }
}

/// Which single count a recognized flag selects.
#[derive(Clone, Copy, PartialEq, Eq, Structural, Debug)]
pub enum Mode {
    Bytes,
    Lines,
    Words,
    Chars,
}

/// The flag bytes that select each mode: `-c`, `-l`, `-w`, `-m`.
pub open spec fn flag_bytes(m: Mode) -> Seq<u8> {
    match m {
        Mode::Bytes => seq![0x2Du8, 0x63u8],
        Mode::Lines => seq![0x2Du8, 0x6Cu8],
        Mode::Words => seq![0x2Du8, 0x77u8],
        Mode::Chars => seq![0x2Du8, 0x6Du8],
    }
}

/// The mode a flag names, if any.
pub open spec fn mode_of_flag_spec(f: Seq<u8>) -> Option<Mode> {
    if f == flag_bytes(Mode::Bytes) {
        Some(Mode::Bytes)
    } else if f == flag_bytes(Mode::Lines) {
        Some(Mode::Lines)
    } else if f == flag_bytes(Mode::Words) {
        Some(Mode::Words)
    } else if f == flag_bytes(Mode::Chars) {
        Some(Mode::Chars)
    } else {
        None
    }
}

/// The shapes of the four flag byte sequences, enough to tell them apart.
proof fn lemma_flag_shapes()
    ensures
        forall|m: Mode| (#[trigger] flag_bytes(m)).len() == 2,
        forall|m: Mode| (#[trigger] flag_bytes(m))[0] == 0x2D,
        flag_bytes(Mode::Bytes)[1] == 0x63,
        flag_bytes(Mode::Lines)[1] == 0x6C,
        flag_bytes(Mode::Words)[1] == 0x77,
        flag_bytes(Mode::Chars)[1] == 0x6D,
{
    assert forall|m: Mode| (#[trigger] flag_bytes(m)).len() == 2 && flag_bytes(m)[0] == 0x2D by {
        match m {
            Mode::Bytes => {},
            Mode::Lines => {},
            Mode::Words => {},
            Mode::Chars => {},
        }
    }
}

/// Recognizes one of the four mode flags.
pub fn mode_of_flag(f: &Vec<u8>) -> (m: Option<Mode>)
    ensures
        m == mode_of_flag_spec(f@),
{
    proof {
        lemma_flag_shapes();
    }
    if f.len() == 2 && f[0] == 0x2D {
        let b = f[1];
        if b == 0x63 {
            proof {
                assert(f@ =~= flag_bytes(Mode::Bytes));
            }
            Some(Mode::Bytes)
        } else if b == 0x6C {
            proof {
                assert(f@ =~= flag_bytes(Mode::Lines));
            }
            Some(Mode::Lines)
        } else if b == 0x77 {
            proof {
                assert(f@ =~= flag_bytes(Mode::Words));
            }
            Some(Mode::Words)
        } else if b == 0x6D {
            proof {
                assert(f@ =~= flag_bytes(Mode::Chars));
            }
            Some(Mode::Chars)
        } else {
            None
        }
    } else {
        None
    }
}

/// The count a mode selects.
pub open spec fn selected_count(c: Counts, m: Mode) -> u64 {
    match m {
        Mode::Bytes => c.bytes,
        Mode::Lines => c.lines,
        Mode::Words => c.words,
        Mode::Chars => c.chars,
    }
}

/// Returns the single count that `m` selects from `c`.
pub fn select_count(c: &Counts, m: Mode) -> (n: u64)
    ensures
        n == selected_count(*c, m),
{
    match m {
        Mode::Bytes => c.bytes,
        Mode::Lines => c.lines,
        Mode::Words => c.words,
        Mode::Chars => c.chars,
    }
}

/// The report of one run over input `s`: without a flag, the line, word and
/// byte counts as three space-separated fields; with a recognized flag, the
/// one selected count; with any other flag, a usage error.
pub open spec fn report_of(s: Seq<u8>, flag: Option<Seq<u8>>) -> Result<Seq<u8>, UsageError> {
    match flag {
        None => Ok(
            field(line_count(decode_lossy(s))) + seq![SPACE] + field(word_count(decode_lossy(s)))
                + seq![SPACE] + field(s.len()),
        ),
        Some(f) => match mode_of_flag_spec(f) {
            Some(Mode::Bytes) => Ok(field(s.len())),
            Some(Mode::Lines) => Ok(field(line_count(decode_lossy(s)))),
            Some(Mode::Words) => Ok(field(word_count(decode_lossy(s)))),
            Some(Mode::Chars) => Ok(field(decode_lossy(s).len())),
            None => Err(UsageError::UnknownFlag),
        },
    }
}

/// Counts the input once and renders the report the flag calls for.
pub fn process(input: &Vec<u8>, flag: Option<&Vec<u8>>) -> (r: Result<Vec<u8>, UsageError>)
    ensures
        match report_of(
            input@,
            match flag {
                Some(f) => Some(f@),
                None => None::<Seq<u8>>,
            },
        ) {
            Ok(out) => r is Ok && r->Ok_0@ == out,
            Err(e) => r is Err && r->Err_0 == e,
        },
{
    let counts = count_all(input);
    match flag {
        Some(f) => match mode_of_flag(f) {
            Some(m) => {
                let n = select_count(&counts, m);
                Ok(render_field(n))
            },
            None => Err(UsageError::UnknownFlag),
        },
        None => {
            let mut v = render_field(counts.lines);
            v.push(SPACE);
            let mut words_field = render_field(counts.words);
            v.append(&mut words_field);
            v.push(SPACE);
            let mut bytes_field = render_field(counts.bytes);
            v.append(&mut bytes_field);
            proof {
                assert(v@ =~= field(line_count(decode_lossy(input@))) + seq![SPACE] + field(
                    word_count(decode_lossy(input@)),
                ) + seq![SPACE] + field(input@.len()));
            }
            Ok(v)
        },
    }
}

/// Running with no flag reports, field for field, the same numbers that the
/// single-count modes `-l`, `-w` and `-c` report on the same input.
pub proof fn lemma_default_report_matches_single_modes(s: Seq<u8>)
    ensures
        report_of(s, Some(flag_bytes(Mode::Lines))) is Ok,
        report_of(s, Some(flag_bytes(Mode::Words))) is Ok,
        report_of(s, Some(flag_bytes(Mode::Bytes))) is Ok,
        report_of(s, None) == Ok::<Seq<u8>, UsageError>(
            report_of(s, Some(flag_bytes(Mode::Lines)))->Ok_0 + seq![SPACE] + report_of(
                s,
                Some(flag_bytes(Mode::Words)),
            )->Ok_0 + seq![SPACE] + report_of(s, Some(flag_bytes(Mode::Bytes)))->Ok_0,
        ),
{
    lemma_flag_shapes();
    assert(mode_of_flag_spec(flag_bytes(Mode::Lines)) == Some(Mode::Lines));
    assert(mode_of_flag_spec(flag_bytes(Mode::Words)) == Some(Mode::Words));
    assert(mode_of_flag_spec(flag_bytes(Mode::Bytes)) == Some(Mode::Bytes));
}

} // verus!
