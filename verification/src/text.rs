//! Byte-level text handling for the shell: the whitespace set, trimming,
//! tokenization into whitespace-separated words, and UTF-8 validation of
//! raw input.
//!
//! Everything works on byte sequences.  Command names are ASCII, so the
//! shell separates words on the ASCII whitespace bytes; multi-byte
//! characters never contain such bytes and pass through tokens untouched.

use vstd::prelude::*;
use vstd::slice::{slice_subrange, slice_to_vec};
use vstd::utf8::{
    decode_first_codepoint, length_of_first_codepoint, partial_valid_utf8,
    partial_valid_partial_invalid_utf8, partial_valid_utf8_extend, valid_first_scalar,
    valid_utf8,
};

verus! {

/// The whitespace bytes that separate words of a command line: space,
/// horizontal tab, line feed, vertical tab, form feed, carriage return.
pub open spec fn is_space(b: u8) -> bool {
    b == 0x20 || b == 0x09 || b == 0x0a || b == 0x0b || b == 0x0c || b == 0x0d
}

/// Executable counterpart of [`is_space`].
pub fn is_space_byte(b: u8) -> (r: bool)
    ensures
        r == is_space(b),
{
    b == 0x20 || b == 0x09 || b == 0x0a || b == 0x0b || b == 0x0c || b == 0x0d
}

/// Length of the run of whitespace bytes at the start of `s`.
pub open spec fn space_run(s: Seq<u8>) -> nat
    decreases s.len(),
{
    if s.len() > 0 && is_space(s[0]) {
        1 + space_run(s.drop_first())
    } else {
        0
    }
}

/// Length of the run of whitespace bytes at the end of `s`.
pub open spec fn end_space_run(s: Seq<u8>) -> nat
    decreases s.len(),
{
    if s.len() > 0 && is_space(s.last()) {
        1 + end_space_run(s.drop_last())
    } else {
        0
    }
}

/// Length of the run of non-whitespace bytes at the start of `s`: the
/// first word of `s`, when `s` starts with one.
pub open spec fn token_run(s: Seq<u8>) -> nat
    decreases s.len(),
{
    if s.len() > 0 && !is_space(s[0]) {
        1 + token_run(s.drop_first())
    } else {
        0
    }
}

/// `s` with leading and trailing whitespace removed.
pub open spec fn trimmed(s: Seq<u8>) -> Seq<u8> {
    if space_run(s) == s.len() {
        Seq::empty()
    } else {
        s.subrange(space_run(s) as int, s.len() - end_space_run(s))
    }
}

/// The words of `s`: the maximal runs of non-whitespace bytes, in order.
/// Runs of consecutive whitespace bytes collapse into one separator.
pub open spec fn tokens(s: Seq<u8>) -> Seq<Seq<u8>>
    decreases s.len(),
    via tokens_decreases
{
    if s.len() == 0 {
        seq![]
    } else if is_space(s[0]) {
        tokens(s.drop_first())
    } else {
        seq![s.take(token_run(s) as int)] + tokens(s.skip(token_run(s) as int))
    }
}

#[via_fn]
proof fn tokens_decreases(s: Seq<u8>) {
    if s.len() > 0 && !is_space(s[0]) {
        lemma_token_run(s);
    }
}

/// The leading whitespace run is no longer than `s`, consists of
/// whitespace only, and stops at the first non-whitespace byte.
pub proof fn lemma_space_run(s: Seq<u8>)
    ensures
        space_run(s) <= s.len(),
        forall|i: int| 0 <= i < space_run(s) ==> is_space(#[trigger] s[i]),
        space_run(s) < s.len() ==> !is_space(s[space_run(s) as int]),
    decreases s.len(),
{
    if s.len() > 0 && is_space(s[0]) {
        lemma_space_run(s.drop_first());
        assert forall|i: int| 0 <= i < space_run(s) implies is_space(#[trigger] s[i]) by {
            if i > 0 {
                assert(s.drop_first()[i - 1] == s[i]);
            }
        }
    }
}

/// Any index that splits `s` into a whitespace prefix followed by a
/// non-whitespace byte (or the end) is the leading whitespace run.
pub proof fn lemma_space_run_is(s: Seq<u8>, n: int)
    requires
        0 <= n <= s.len(),
        forall|i: int| 0 <= i < n ==> is_space(#[trigger] s[i]),
        n == s.len() || !is_space(s[n]),
    ensures
        space_run(s) == n,
    decreases s.len(),
{
    if n == 0 {
    } else {
        assert(is_space(s[0]));
        let t = s.drop_first();
        assert forall|i: int| 0 <= i < n - 1 implies is_space(#[trigger] t[i]) by {
            assert(t[i] == s[i + 1]);
        }
        if n < s.len() {
            assert(t[n - 1] == s[n]);
        }
        lemma_space_run_is(t, n - 1);
    }
}

/// The trailing whitespace run is no longer than `s`, consists of
/// whitespace only, and stops at the last non-whitespace byte.
pub proof fn lemma_end_space_run(s: Seq<u8>)
    ensures
        end_space_run(s) <= s.len(),
        forall|j: int|
            0 <= j < end_space_run(s) ==> is_space(#[trigger] s[s.len() - 1 - j]),
        end_space_run(s) < s.len() ==> !is_space(s[s.len() - 1 - end_space_run(s)]),
    decreases s.len(),
{
    if s.len() > 0 && is_space(s.last()) {
        lemma_end_space_run(s.drop_last());
        let t = s.drop_last();
        assert forall|j: int|
            0 <= j < end_space_run(s) implies is_space(#[trigger] s[s.len() - 1 - j]) by {
            if j > 0 {
                assert(t[t.len() - 1 - (j - 1)] == s[s.len() - 1 - j]);
            }
        }
        if end_space_run(s) < s.len() {
            assert(t[t.len() - 1 - end_space_run(t)] == s[s.len() - 1 - end_space_run(s)]);
        }
    }
}

/// Any count of whitespace bytes at the end of `s` that is bounded by a
/// non-whitespace byte (or the start) is the trailing whitespace run.
pub proof fn lemma_end_space_run_is(s: Seq<u8>, n: int)
    requires
        0 <= n <= s.len(),
        forall|j: int| 0 <= j < n ==> is_space(#[trigger] s[s.len() - 1 - j]),
        n == s.len() || !is_space(s[s.len() - 1 - n]),
    ensures
        end_space_run(s) == n,
    decreases s.len(),
{
    if n == 0 {
    } else {
        assert(is_space(s[s.len() - 1 - 0]));
        assert(s.last() == s[s.len() - 1 - 0]);
        let t = s.drop_last();
        assert forall|j: int| 0 <= j < n - 1 implies is_space(#[trigger] t[t.len() - 1 - j]) by {
            assert(t[t.len() - 1 - j] == s[s.len() - 1 - (j + 1)]);
        }
        if n - 1 < t.len() {
            assert(t[t.len() - 1 - (n - 1)] == s[s.len() - 1 - n]);
        }
        lemma_end_space_run_is(t, n - 1);
    }
}

/// When `s` holds a non-whitespace byte, the two whitespace runs do not
/// overlap, so [`trimmed`] keeps at least that byte.
pub proof fn lemma_trimmed_bounds(s: Seq<u8>)
    ensures
        space_run(s) <= s.len(),
        end_space_run(s) <= s.len(),
        space_run(s) < s.len() ==> space_run(s) + end_space_run(s) < s.len(),
        space_run(s) < s.len() ==> trimmed(s).len() > 0,
        space_run(s) == s.len() ==> trimmed(s).len() == 0,
{
    lemma_space_run(s);
    lemma_end_space_run(s);
    if space_run(s) < s.len() {
        let l = space_run(s) as int;
        if s.len() - 1 - l < end_space_run(s) {
            assert(is_space(s[s.len() - 1 - (s.len() - 1 - l)]));
            assert(false);
        }
    }
}

/// A trimmed line starts and ends with non-whitespace bytes.
pub proof fn lemma_trimmed_ends(s: Seq<u8>)
    ensures
        trimmed(s).len() > 0 ==> !is_space(trimmed(s)[0]),
        trimmed(s).len() > 0 ==> !is_space(trimmed(s).last()),
{
    lemma_trimmed_bounds(s);
    lemma_space_run(s);
    lemma_end_space_run(s);
    if trimmed(s).len() > 0 {
        let l = space_run(s) as int;
        let t = end_space_run(s) as int;
        assert(trimmed(s)[0] == s[l]);
        assert(trimmed(s).last() == s[s.len() - t - 1]);
        assert(s[s.len() - 1 - t] == s[s.len() - t - 1]);
    }
}

/// Trimming an already trimmed line changes nothing.
pub proof fn lemma_trimmed_idempotent(s: Seq<u8>)
    ensures
        trimmed(trimmed(s)) == trimmed(s),
{
    let r = trimmed(s);
    if r.len() == 0 {
        assert(space_run(r) == 0);
        assert(trimmed(r) =~= r);
    } else {
        lemma_trimmed_ends(s);
        lemma_space_run_is(r, 0);
        lemma_end_space_run_is(r, 0);
        assert(trimmed(r) =~= r);
    }
}

/// The leading word run is no longer than `s`, holds no whitespace, and
/// stops at the first whitespace byte.
pub proof fn lemma_token_run(s: Seq<u8>)
    ensures
        token_run(s) <= s.len(),
        forall|i: int| 0 <= i < token_run(s) ==> !is_space(#[trigger] s[i]),
        token_run(s) < s.len() ==> is_space(s[token_run(s) as int]),
        s.len() > 0 && !is_space(s[0]) ==> token_run(s) >= 1,
    decreases s.len(),
{
    if s.len() > 0 && !is_space(s[0]) {
        lemma_token_run(s.drop_first());
        assert forall|i: int| 0 <= i < token_run(s) implies !is_space(#[trigger] s[i]) by {
            if i > 0 {
                assert(s.drop_first()[i - 1] == s[i]);
            }
        }
    }
}

/// Any index that splits `s` into a non-whitespace prefix followed by a
/// whitespace byte (or the end) is the leading word run.
pub proof fn lemma_token_run_is(s: Seq<u8>, n: int)
    requires
        0 <= n <= s.len(),
        forall|i: int| 0 <= i < n ==> !is_space(#[trigger] s[i]),
        n == s.len() || is_space(s[n]),
    ensures
        token_run(s) == n,
    decreases s.len(),
{
    if n == 0 {
    } else {
        assert(!is_space(s[0]));
        let t = s.drop_first();
        assert forall|i: int| 0 <= i < n - 1 implies !is_space(#[trigger] t[i]) by {
            assert(t[i] == s[i + 1]);
        }
        if n < s.len() {
            assert(t[n - 1] == s[n]);
        }
        lemma_token_run_is(t, n - 1);
    }
}

/// A line that starts with a non-whitespace byte starts with a word: the
/// first token is its leading word run, and the remaining tokens are
/// those of the rest of the line.
pub proof fn lemma_tokens_head(s: Seq<u8>)
    requires
        s.len() > 0,
        !is_space(s[0]),
    ensures
        tokens(s).len() >= 1,
        1 <= token_run(s) <= s.len(),
        tokens(s)[0] == s.take(token_run(s) as int),
        tokens(s)[0].len() == token_run(s),
        tokens(s).drop_first() == tokens(s.skip(token_run(s) as int)),
{
    lemma_token_run(s);
    let n = token_run(s) as int;
    assert(tokens(s) == seq![s.take(n)] + tokens(s.skip(n)));
    assert(tokens(s).drop_first() =~= tokens(s.skip(n)));
}

/// A line with at least one token holds at least one byte.
pub proof fn lemma_tokens_nonempty(s: Seq<u8>)
    requires
        tokens(s).len() > 0,
    ensures
        s.len() > 0,
{
}

/// Skipping one leading whitespace byte does not change the tokens.
pub proof fn lemma_tokens_skip_space(s: Seq<u8>)
    requires
        s.len() > 0,
        is_space(s[0]),
    ensures
        tokens(s) == tokens(s.skip(1)),
{
    assert(s.drop_first() =~= s.skip(1));
}

/// Executable equality of two byte sequences.
pub fn bytes_eq(a: &[u8], b: &[u8]) -> (r: bool)
    ensures
        r == (a@ == b@),
{
    if a.len() != b.len() {
        assert(a@ != b@);
        return false;
    }
    let n = a.len();
    let mut i: usize = 0;
    while i < n
        invariant
            n == a@.len() == b@.len(),
            0 <= i <= n,
            forall|k: int| 0 <= k < i ==> a@[k] == b@[k],
        decreases n - i,
    {
        if a[i] != b[i] {
            assert(a@[i as int] != b@[i as int]);
            return false;
        }
        i += 1;
    }
    assert(a@ =~= b@);
    true
}

/// Copy of `input` with leading and trailing whitespace removed.
pub fn trim(input: &[u8]) -> (r: Vec<u8>)
    ensures
        r@ == trimmed(input@),
{
    let n = input.len();
    let mut lo: usize = 0;
    while lo < n && is_space_byte(input[lo])
        invariant
            n == input@.len(),
            0 <= lo <= n,
            forall|k: int| 0 <= k < lo ==> is_space(#[trigger] input@[k]),
        decreases n - lo,
    {
        lo += 1;
    }
    proof {
        lemma_space_run_is(input@, lo as int);
    }
    if lo == n {
        assert(trimmed(input@) =~= Seq::<u8>::empty());
        return Vec::new();
    }
    let mut hi: usize = n;
    while hi > lo && is_space_byte(input[hi - 1])
        invariant
            n == input@.len(),
            lo <= hi <= n,
            lo < n,
            !is_space(input@[lo as int]),
            forall|k: int| hi <= k < n ==> is_space(#[trigger] input@[k]),
        decreases hi,
    {
        hi -= 1;
    }
    proof {
        // `hi` cannot come down to `lo`: the byte at `lo` is not whitespace.
        assert(hi > lo);
        assert forall|j: int| 0 <= j < n - hi implies is_space(#[trigger] input@[n - 1 - j]) by {
            assert(hi <= n - 1 - j < n);
        }
        if n - hi < n {
            assert(input@[n - 1 - (n - hi)] == input@[hi - 1]);
        }
        lemma_end_space_run_is(input@, n - hi);
        assert(trimmed(input@) == input@.subrange(lo as int, hi as int));
    }
    let r = slice_to_vec(slice_subrange(input, lo, hi));
    r
}

/// Executable UTF-8 validation of raw input bytes, against the standard
/// notion of a valid UTF-8 encoding.
pub fn check_utf8(bytes: &[u8]) -> (ok: bool)
    ensures
        ok == valid_utf8(bytes@),
{
    let n = bytes.len();
    let mut i: usize = 0;
    while i < n
        invariant
            n == bytes@.len(),
            0 <= i <= n,
            partial_valid_utf8(bytes@, i as int),
        decreases n - i,
    {
        let ghost suffix = bytes@.skip(i as int);
        let b0 = bytes[i];
        let width: usize = if b0 <= 0x7f {
            1
        } else if 0xc0 <= b0 && b0 <= 0xdf {
            2
        } else if 0xe0 <= b0 && b0 <= 0xef {
            3
        } else if 0xf0 <= b0 && b0 <= 0xf7 {
            4
        } else {
            proof {
                lemma_invalid_suffix(bytes@, i as int);
            }
            return false;
        };
        if n - i < width {
            proof {
                lemma_invalid_suffix(bytes@, i as int);
            }
            return false;
        }
        let mut cp: u32 = 0;
        let mut conts_ok = true;
        if width == 1 {
            cp = b0 as u32;
        } else if width == 2 {
            let b1 = bytes[i + 1];
            conts_ok = 0x80 <= b1 && b1 <= 0xbf;
            cp = (((b0 & 0x1f) as u32) << 6) | ((b1 & 0x3f) as u32);
        } else if width == 3 {
            let b1 = bytes[i + 1];
            let b2 = bytes[i + 2];
            conts_ok = 0x80 <= b1 && b1 <= 0xbf && 0x80 <= b2 && b2 <= 0xbf;
            cp = (((b0 & 0x0f) as u32) << 12) | (((b1 & 0x3f) as u32) << 6) | ((b2 & 0x3f)
                as u32);
        } else {
            let b1 = bytes[i + 1];
            let b2 = bytes[i + 2];
            let b3 = bytes[i + 3];
            conts_ok = 0x80 <= b1 && b1 <= 0xbf && 0x80 <= b2 && b2 <= 0xbf && 0x80 <= b3 && b3
                <= 0xbf;
            cp = (((b0 & 0x07) as u32) << 18) | (((b1 & 0x3f) as u32) << 12) | (((b2 & 0x3f)
                as u32) << 6) | ((b3 & 0x3f) as u32);
        }
        let scalar_ok = conts_ok && (width != 2 || cp >= 0x80) && (width != 3 || cp >= 0x800)
            && (width != 4 || (0x10000 <= cp && cp <= 0x10ffff)) && !(0xd800 <= cp && cp
            <= 0xdfff);
        proof {
            assert(suffix.len() == n - i);
            assert(suffix[0] == b0);
            if width >= 2 {
                assert(suffix[1] == bytes@[i + 1]);
            }
            if width >= 3 {
                assert(suffix[2] == bytes@[i + 2]);
            }
            if width >= 4 {
                assert(suffix[3] == bytes@[i + 3]);
            }
            if conts_ok {
                assert(length_of_first_codepoint(suffix) == width);
                if width == 1 {
                    assert(b0 & 0x7f == b0) by (bit_vector)
                        requires
                            b0 <= 0x7f,
                    ;
                }
                assert(cp == decode_first_codepoint(suffix));
                assert(scalar_ok == valid_first_scalar(suffix));
            } else {
                assert(!valid_first_scalar(suffix));
            }
        }
        if !scalar_ok {
            proof {
                lemma_invalid_suffix(bytes@, i as int);
            }
            return false;
        }
        proof {
            partial_valid_utf8_extend(bytes@, i as int);
        }
        i += width;
    }
    proof {
        assert(bytes@.subrange(0, n as int) =~= bytes@);
    }
    true
}

/// An invalid first scalar at position `i` after a valid prefix makes
/// the whole sequence invalid.
proof fn lemma_invalid_suffix(s: Seq<u8>, i: int)
    requires
        0 <= i < s.len(),
        partial_valid_utf8(s, i),
        !valid_first_scalar(s.skip(i)),
    ensures
        !valid_utf8(s),
{
    assert(s.subrange(i, s.len() as int) == s.skip(i));
    assert(!valid_utf8(s.skip(i)));
    partial_valid_partial_invalid_utf8(s, i);
}

/// The words of `line`, each as its own byte vector, in order.
pub fn tokenize(line: &[u8]) -> (toks: Vec<Vec<u8>>)
    ensures
        toks@.map_values(|t: Vec<u8>| t@) == tokens(line@),
{
    let n = line.len();
    let mut toks: Vec<Vec<u8>> = Vec::new();
    let mut i: usize = 0;
    proof {
        assert(line@.skip(0) =~= line@);
        assert(toks@.map_values(|t: Vec<u8>| t@) + tokens(line@) =~~= tokens(line@));
    }
    while i < n
        invariant
            n == line@.len(),
            0 <= i <= n,
            tokens(line@) == toks@.map_values(|t: Vec<u8>| t@) + tokens(line@.skip(i as int)),
        decreases n - i,
    {
        if is_space_byte(line[i]) {
            proof {
                let suffix = line@.skip(i as int);
                lemma_tokens_skip_space(suffix);
                assert(suffix.skip(1) =~= line@.skip(i as int + 1));
            }
            i += 1;
        } else {
            let start = i;
            let mut tok: Vec<u8> = Vec::new();
            while i < n && !is_space_byte(line[i])
                invariant
                    n == line@.len(),
                    start <= i <= n,
                    start < n,
                    tok@ == line@.subrange(start as int, i as int),
                    forall|k: int| start <= k < i ==> !is_space(#[trigger] line@[k]),
                decreases n - i,
            {
                tok.push(line[i]);
                assert(tok@ =~= line@.subrange(start as int, i as int + 1));
                i += 1;
            }
            proof {
                let suffix = line@.skip(start as int);
                assert forall|k: int| 0 <= k < i - start implies !is_space(
                    #[trigger] suffix[k],
                ) by {
                    assert(suffix[k] == line@[start + k]);
                }
                if i < n {
                    assert(suffix[i - start] == line@[i as int]);
                }
                lemma_token_run_is(suffix, i - start);
                lemma_tokens_head(suffix);
                assert(suffix.take(i - start) =~= line@.subrange(start as int, i as int));
                assert(suffix.skip(i - start) =~= line@.skip(i as int));
                assert(tokens(suffix) == seq![tok@] + tokens(line@.skip(i as int)));
            }
            let ghost old_toks = toks@;
            toks.push(tok);
            proof {
                assert(toks@.map_values(|t: Vec<u8>| t@) =~~= old_toks.map_values(
                    |t: Vec<u8>| t@,
                ).push(tok@));
                assert(old_toks.map_values(|t: Vec<u8>| t@).push(tok@) + tokens(
                    line@.skip(i as int),
                ) =~~= old_toks.map_values(|t: Vec<u8>| t@) + (seq![tok@] + tokens(
                    line@.skip(i as int),
                )));
            }
        }
    }
    proof {
        assert(line@.skip(n as int) =~= Seq::<u8>::empty());
        assert(toks@.map_values(|t: Vec<u8>| t@) + tokens(Seq::<u8>::empty()) =~~= toks@.map_values(
            |t: Vec<u8>| t@,
        ));
    }
    toks
}

} // verus!
