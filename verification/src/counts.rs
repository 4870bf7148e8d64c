//! The counting engine: bytes, lines, words and scalar values, all computed
//! over one snapshot of the input in a single pass.

use vstd::prelude::*;

use crate::decode::decode_lossy;
use crate::decode::lemma_decode_len;
use crate::decode::lemma_step_width;
use crate::decode::step;
use crate::decode::step_exec;

verus! {

/// The newline scalar, the boundary between lines.
pub const NEWLINE: u32 = 0x0A;

/// Holds of the scalars with the Unicode `White_Space` property, the ones
/// that separate words.
pub open spec fn is_whitespace_scalar(c: u32) -> bool {
    c == 0x09 || c == 0x0A || c == 0x0B || c == 0x0C || c == 0x0D || c == 0x20 || c == 0x85 || c
        == 0xA0 || c == 0x1680 || (0x2000 <= c && c <= 0x200A) || c == 0x2028 || c == 0x2029 || c
        == 0x202F || c == 0x205F || c == 0x3000
}

/// The number of newline scalars in `cs`.
pub open spec fn newline_count(cs: Seq<u32>) -> nat
    decreases cs.len(),
{
    if cs.len() == 0 {
        0
    } else {
        (if cs[0] == NEWLINE {
            1nat
        } else {
            0nat
        }) + newline_count(cs.skip(1))
    }
}

/// The number of lines in `cs`: one per newline boundary, plus one for a
/// final non-empty unterminated segment; empty text has no lines.
pub open spec fn line_count(cs: Seq<u32>) -> nat {
    if cs.len() == 0 {
        0
    } else {
        newline_count(cs) + (if cs.last() == NEWLINE {
            0nat
        } else {
            1nat
        })
    }
}

/// The number of maximal non-whitespace runs in `cs`, where `in_word` says
/// whether a run is already open just before `cs`.
pub open spec fn word_count_from(cs: Seq<u32>, in_word: bool) -> nat
    decreases cs.len(),
{
    if cs.len() == 0 {
        0
    } else if is_whitespace_scalar(cs[0]) {
        word_count_from(cs.skip(1), false)
    } else if in_word {
        word_count_from(cs.skip(1), true)
    } else {
        1 + word_count_from(cs.skip(1), true)
    }
}

/// The number of maximal whitespace-delimited words in `cs`.
pub open spec fn word_count(cs: Seq<u32>) -> nat {
    word_count_from(cs, false)
}

/// The four counts of one input, all over the same snapshot.
pub struct Counts {
    pub bytes: u64,
    pub lines: u64,
    pub words: u64,
    pub chars: u64,
}

/// Holds when `c` carries exactly the counts of the raw input `s`.
pub open spec fn counts_ok(c: Counts, s: Seq<u8>) -> bool {
    &&& c.bytes == s.len()
    &&& c.lines == line_count(decode_lossy(s))
    &&& c.words == word_count(decode_lossy(s))
    &&& c.chars == decode_lossy(s).len()
}

/// There are never more newlines than scalars; strictly fewer when the text
/// is non-empty and does not end in a newline; at least one when it does.
pub proof fn lemma_newline_count_bounds(cs: Seq<u32>)
    ensures
        newline_count(cs) <= cs.len(),
        cs.len() > 0 && cs.last() != NEWLINE ==> newline_count(cs) < cs.len(),
        cs.len() > 0 && cs.last() == NEWLINE ==> newline_count(cs) >= 1,
    decreases cs.len(),
{
    if cs.len() > 0 {
        lemma_newline_count_bounds(cs.skip(1));
        if cs.len() > 1 {
            assert(cs.skip(1).last() == cs.last());
        }
    }
}

/// Text of nothing but whitespace holds no word, whatever came before it.
pub proof fn lemma_all_whitespace_no_words(cs: Seq<u32>, in_word: bool)
    requires
        forall|j: int| 0 <= j < cs.len() ==> is_whitespace_scalar(cs[j]),
    ensures
        word_count_from(cs, in_word) == 0,
    decreases cs.len(),
{
    if cs.len() > 0 {
        assert(forall|j: int| 0 <= j < cs.skip(1).len() ==> cs.skip(1)[j] == cs[j + 1]);
        lemma_all_whitespace_no_words(cs.skip(1), false);
    }
}

/// Whether `c` is a whitespace scalar.
fn is_whitespace_exec(c: u32) -> (r: bool)
    ensures
        r == is_whitespace_scalar(c),
{
    c == 0x09 || c == 0x0A || c == 0x0B || c == 0x0C || c == 0x0D || c == 0x20 || c == 0x85 || c
        == 0xA0 || c == 0x1680 || (0x2000 <= c && c <= 0x200A) || c == 0x2028 || c == 0x2029 || c
        == 0x202F || c == 0x205F || c == 0x3000
}

/// Reads the whole input once and computes all four counts.  The byte count
/// is the raw length; the other three are counted over the lossy decoding of
/// the bytes, so the character count never exceeds the byte count.
pub fn count_all(input: &Vec<u8>) -> (c: Counts)
    ensures
        counts_ok(c, input@),
        c.chars <= c.bytes,
        c.lines <= c.chars,
        c.words <= c.chars,
{
    let ghost total: Seq<u32> = decode_lossy(input@);
    let mut i: usize = 0;
    let mut chars: u64 = 0;
    let mut nl: u64 = 0;
    let mut words: u64 = 0;
    let mut in_word: bool = false;
    let mut last_nl: bool = false;
    let ghost mut done: Seq<u32> = Seq::empty();

    proof {
        assert(input@.skip(0) =~= input@);
    }

    while i < input.len()
        invariant
            i <= input@.len(),
            total == decode_lossy(input@),
            total =~= done + decode_lossy(input@.skip(i as int)),
            chars == done.len(),
            chars <= i,
            nl <= chars,
            words <= chars,
            newline_count(total) == nl + newline_count(decode_lossy(input@.skip(i as int))),
            word_count(total) == words + word_count_from(
                decode_lossy(input@.skip(i as int)),
                in_word,
            ),
            done.len() == 0 <==> i == 0,
            done.len() > 0 ==> (last_nl <==> done.last() == NEWLINE),
        decreases input@.len() - i,
    {
        let (c, w) = step_exec(input, i);
        let ghost rest = input@.skip(i as int);
        let ghost cs = decode_lossy(rest);
        proof {
            assert(rest.len() > 0);
            lemma_step_width(rest);
            assert(cs == seq![step(rest).0] + decode_lossy(rest.skip(step(rest).1 as int)));
            assert(rest.skip(w as int) =~= input@.skip(i + w));
            assert(cs[0] == c);
            assert(cs.skip(1) =~= decode_lossy(input@.skip(i + w)));
        }
        chars = chars + 1;
        if c == NEWLINE {
            nl = nl + 1;
            last_nl = true;
        } else {
            last_nl = false;
        }
        let ws = is_whitespace_exec(c);
        if ws {
            in_word = false;
        } else {
            if !in_word {
                words = words + 1;
            }
            in_word = true;
        }
        proof {
            done = done + seq![c];
            assert(done.last() == c);
            assert(total =~= done + decode_lossy(input@.skip(i + w)));
        }
        i = i + w;
    }

    proof {
        assert(input@.skip(i as int) =~= Seq::<u8>::empty());
        assert(decode_lossy(input@.skip(i as int)) =~= Seq::<u32>::empty());
        assert(total =~= done);
        lemma_decode_len(input@);
        lemma_newline_count_bounds(total);
    }

    let lines: u64 = if chars == 0 {
        0
    } else if last_nl {
        nl
    } else {
        nl + 1
    };

    Counts { bytes: input.len() as u64, lines, words, chars }
}

/// The character count — the number of decoded scalars — never exceeds the
/// byte count, since every decoding step consumes at least one byte per
/// scalar it yields.
pub proof fn lemma_char_count_le_byte_count(s: Seq<u8>)
    ensures
        decode_lossy(s).len() <= s.len(),
{
    lemma_decode_len(s);
}

/// The line count is zero exactly of empty input: any non-empty input decodes
/// to at least one scalar, and non-empty text holds at least one line — its
/// newline boundaries, plus one when the final segment is unterminated.
pub proof fn lemma_line_count_zero_iff_empty(s: Seq<u8>)
    ensures
        line_count(decode_lossy(s)) == 0 <==> s.len() == 0,
        s.len() > 0 ==> line_count(decode_lossy(s)) == newline_count(decode_lossy(s)) + (
        if decode_lossy(s).last() == NEWLINE {
            0nat
        } else {
            1nat
        }),
{
    lemma_decode_len(s);
    let cs = decode_lossy(s);
    if cs.len() > 0 {
        lemma_newline_count_bounds(cs);
    }
}

/// An input whose decoded text consists only of whitespace has no words.
pub proof fn lemma_whitespace_only_has_no_words(s: Seq<u8>)
    requires
        forall|j: int|
            0 <= j < decode_lossy(s).len() ==> is_whitespace_scalar(#[trigger] decode_lossy(s)[j]),
    ensures
        word_count(decode_lossy(s)) == 0,
{
    lemma_all_whitespace_no_words(decode_lossy(s), false);
}

/// An input of nothing but ASCII whitespace bytes — spaces, tabs, newlines,
/// carriage returns, vertical tabs and form feeds — has no words.
pub proof fn lemma_ascii_whitespace_only_has_no_words(s: Seq<u8>)
    requires
        forall|j: int|
            0 <= j < s.len() ==> (s[j] == 0x09 || s[j] == 0x0A || s[j] == 0x0B || s[j] == 0x0C
                || s[j] == 0x0D || s[j] == 0x20),
    ensures
        word_count(decode_lossy(s)) == 0,
{
    crate::decode::lemma_decode_ascii(s);
    let cs = decode_lossy(s);
    assert(forall|j: int| 0 <= j < cs.len() ==> is_whitespace_scalar(#[trigger] cs[j]));
    lemma_whitespace_only_has_no_words(s);
}

} // verus!

