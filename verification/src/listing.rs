//! Parsing of the daemon's listing output: one service per line, columns
//! separated by whitespace, the first column a decimal process id and the
//! third the service label.

use crate::byteseq::bytes_eq;
use vstd::prelude::*;
use vstd::slice::slice_index_get;
use vstd::slice::slice_subrange;

verus! {

/// ASCII whitespace, the separators the daemon puts between columns.
pub open spec fn spec_is_ws(b: u8) -> bool {
    b == 32 || (9 <= b && b <= 13)
}

fn is_ws(b: u8) -> (r: bool)
    ensures
        r == spec_is_ws(b),
{
    b == 32 || (9 <= b && b <= 13)
}

/// Length of the leading run of bytes that are not whitespace.
pub open spec fn spec_token_end(s: Seq<u8>) -> int
    decreases s.len(),
{
    if s.len() == 0 {
        0
    } else if spec_is_ws(s[0]) {
        0
    } else {
        1 + spec_token_end(s.drop_first())
    }
}

proof fn lemma_token_end_bounds(s: Seq<u8>)
    ensures
        0 <= spec_token_end(s) <= s.len(),
    decreases s.len(),
{
    if s.len() > 0 && !spec_is_ws(s[0]) {
        lemma_token_end_bounds(s.drop_first());
    }
}

proof fn lemma_token_end_step(s: Seq<u8>, i: int)
    requires
        0 <= i < s.len(),
        !spec_is_ws(s[i]),
    ensures
        spec_token_end(s.skip(i)) == 1 + spec_token_end(s.skip(i + 1)),
{
    assert(s.skip(i)[0] == s[i]);
    assert(s.skip(i).drop_first() =~= s.skip(i + 1));
}

fn token_end(s: &[u8]) -> (j: usize)
    ensures
        j == spec_token_end(s@),
{
    proof {
        assert(s@.skip(0) =~= s@);
    }
    let mut i: usize = 0;
    loop
        invariant
            i <= s@.len(),
            spec_token_end(s@) == i + spec_token_end(s@.skip(i as int)),
        decreases s@.len() - i,
    {
        if i >= s.len() {
            proof {
                assert(s@.skip(i as int).len() == 0);
            }
            return i;
        }
        let b = *slice_index_get(s, i);
        proof {
            assert(s@.skip(i as int)[0] == s@[i as int]);
        }
        if is_ws(b) {
            return i;
        }
        proof {
            lemma_token_end_step(s@, i as int);
        }
        i = i + 1;
    }
}

/// Index of the first line-feed byte, or the length when there is none.
pub open spec fn spec_line_end(s: Seq<u8>) -> int
    decreases s.len(),
{
    if s.len() == 0 {
        0
    } else if s[0] == 10 {
        0
    } else {
        1 + spec_line_end(s.drop_first())
    }
}

proof fn lemma_line_end_bounds(s: Seq<u8>)
    ensures
        0 <= spec_line_end(s) <= s.len(),
        spec_line_end(s) < s.len() ==> s[spec_line_end(s)] == 10,
    decreases s.len(),
{
    if s.len() > 0 && s[0] != 10 {
        lemma_line_end_bounds(s.drop_first());
        assert(s.drop_first() =~= s.skip(1));
    }
}

proof fn lemma_line_end_step(s: Seq<u8>, i: int)
    requires
        0 <= i < s.len(),
        s[i] != 10,
    ensures
        spec_line_end(s.skip(i)) == 1 + spec_line_end(s.skip(i + 1)),
{
    assert(s.skip(i)[0] == s[i]);
    assert(s.skip(i).drop_first() =~= s.skip(i + 1));
}

fn line_end(s: &[u8]) -> (j: usize)
    ensures
        j == spec_line_end(s@),
{
    proof {
        assert(s@.skip(0) =~= s@);
    }
    let mut i: usize = 0;
    loop
        invariant
            i <= s@.len(),
            spec_line_end(s@) == i + spec_line_end(s@.skip(i as int)),
        decreases s@.len() - i,
    {
        if i >= s.len() {
            proof {
                assert(s@.skip(i as int).len() == 0);
            }
            return i;
        }
        let b = *slice_index_get(s, i);
        proof {
            assert(s@.skip(i as int)[0] == s@[i as int]);
        }
        if b == 10 {
            return i;
        }
        proof {
            lemma_line_end_step(s@, i as int);
        }
        i = i + 1;
    }
}

/// The whitespace-delimited tokens of a line, in order.
pub open spec fn spec_tokens(s: Seq<u8>) -> Seq<Seq<u8>>
    decreases s.len(),
    via spec_tokens_dec
{
    if s.len() == 0 {
        Seq::empty()
    } else if spec_is_ws(s[0]) {
        spec_tokens(s.drop_first())
    } else {
        seq![s.take(spec_token_end(s))] + spec_tokens(s.skip(spec_token_end(s)))
    }
}

#[via_fn]
proof fn spec_tokens_dec(s: Seq<u8>) {
    if s.len() > 0 && !spec_is_ws(s[0]) {
        lemma_token_end_bounds(s);
        lemma_token_end_bounds(s.drop_first());
    }
}

/// Tokenize a line.
fn tokens<'a>(s: &'a [u8]) -> (r: Vec<&'a [u8]>)
    ensures
        r@.map_values(|t: &[u8]| t@) == spec_tokens(s@),
    decreases s@.len(),
{
    if s.len() == 0 {
        let r: Vec<&[u8]> = Vec::new();
        proof {
            assert(r@.map_values(|t: &[u8]| t@) =~= spec_tokens(s@));
        }
        r
    } else if is_ws(*slice_index_get(s, 0)) {
        let rest = slice_subrange(s, 1, s.len());
        proof {
            assert(rest@ =~= s@.drop_first());
        }
        tokens(rest)
    } else {
        proof {
            lemma_token_end_bounds(s@);
            lemma_token_end_bounds(s@.drop_first());
        }
        let j = token_end(s);
        let tok = slice_subrange(s, 0, j);
        let rest = slice_subrange(s, j, s.len());
        let mut r = tokens(rest);
        r.insert(0, tok);
        proof {
            assert(tok@ =~= s@.take(spec_token_end(s@)));
            assert(r@.map_values(|t: &[u8]| t@) =~= seq![s@.take(spec_token_end(s@))]
                + spec_tokens(s@.skip(spec_token_end(s@))));
        }
        r
    }
}

/// A decimal digit.
pub open spec fn spec_is_digit(b: u8) -> bool {
    48 <= b && b <= 57
}

/// The digits of `t` all hold decimal digits.
pub open spec fn spec_all_digits(t: Seq<u8>) -> bool {
    forall|i: int| 0 <= i < t.len() ==> spec_is_digit(#[trigger] t[i])
}

/// The value of a digit string.
pub open spec fn spec_digits_val(t: Seq<u8>) -> int
    decreases t.len(),
{
    if t.len() == 0 {
        0
    } else {
        spec_digits_val(t.drop_last()) * 10 + (t.last() - 48)
    }
}

proof fn lemma_digits_val_nonneg(t: Seq<u8>)
    requires
        spec_all_digits(t),
    ensures
        spec_digits_val(t) >= 0,
    decreases t.len(),
{
    if t.len() > 0 {
        assert(spec_all_digits(t.drop_last()));
        lemma_digits_val_nonneg(t.drop_last());
    }
}

proof fn lemma_digits_val_mono(t: Seq<u8>, k: int)
    requires
        spec_all_digits(t),
        0 <= k <= t.len(),
    ensures
        spec_digits_val(t.take(k)) <= spec_digits_val(t),
    decreases t.len() - k,
{
    if k < t.len() {
        lemma_digits_val_mono(t, k + 1);
        assert(t.take(k + 1).drop_last() =~= t.take(k));
        assert(spec_all_digits(t.take(k)));
        lemma_digits_val_nonneg(t.take(k));
        assert(spec_digits_val(t.take(k + 1)) == spec_digits_val(t.take(k)) * 10 + (t[k]
            - 48));
    } else {
        assert(t.take(k) =~= t);
    }
}

/// What reading a token as a signed 32-bit decimal integer yields: an
/// optional sign, then at least one digit, the value within range.
pub open spec fn spec_parse_i32(t: Seq<u8>) -> Option<i32> {
    let has_sign = t.len() > 0 && (t[0] == 43 || t[0] == 45);
    let neg = t.len() > 0 && t[0] == 45;
    let digits = if has_sign {
        t.drop_first()
    } else {
        t
    };
    if digits.len() > 0 && spec_all_digits(digits) {
        let v = if neg {
            -spec_digits_val(digits)
        } else {
            spec_digits_val(digits)
        };
        if -0x8000_0000 <= v && v <= 0x7fff_ffff {
            Some(v as i32)
        } else {
            None
        }
    } else {
        None
    }
}

/// Read a token as a signed 32-bit decimal integer.
#[verifier::loop_isolation(false)]
pub fn parse_i32(t: &[u8]) -> (r: Option<i32>)
    ensures
        r == spec_parse_i32(t@),
{
    if t.len() == 0 {
        return None;
    }
    let b0 = *slice_index_get(t, 0);
    let has_sign = b0 == 43 || b0 == 45;
    let neg = b0 == 45;
    let start: usize = if has_sign {
        1
    } else {
        0
    };
    let ghost digits = if has_sign {
        t@.drop_first()
    } else {
        t@
    };
    proof {
        assert(digits =~= t@.skip(start as int));
    }
    if t.len() == start {
        return None;
    }
    let t_len = t.len();
    let mut mag: i64 = 0;
    let mut i: usize = start;
    while i < t_len
        invariant
            start <= i <= t@.len(),
            t@.len() == t_len,
            start < t@.len(),
            digits =~= t@.skip(start as int),
            spec_all_digits(digits.take(i - start)),
            mag == spec_digits_val(digits.take(i - start)),
            0 <= mag <= 0x8000_0000,
        decreases t@.len() - i,
    {
        let b = *slice_index_get(t, i);
        proof {
            assert(digits[i - start] == t@[i as int]);
        }
        if !(48 <= b && b <= 57) {
            proof {
                assert(!spec_is_digit(digits[i - start]));
            }
            return None;
        }
        mag = mag * 10 + ((b - 48) as i64);
        proof {
            assert(digits.take(i - start + 1).drop_last() =~= digits.take(i - start));
            assert(digits.take(i - start + 1).last() == digits[i - start]);
            assert(spec_all_digits(digits.take(i - start + 1)));
        }
        if mag > 0x8000_0000 {
            proof {
                if spec_all_digits(digits) {
                    lemma_digits_val_mono(digits, i - start + 1);
                }
            }
            return None;
        }
        i = i + 1;
    }
    proof {
        assert(digits.take(i - start) =~= digits);
    }
    if neg {
        let v: i64 = -mag;
        Some(v as i32)
    } else {
        if mag > 0x7fff_ffff {
            return None;
        }
        Some(mag as i32)
    }
}

/// A line stripped of one trailing carriage return, as line splitting
/// does for lines that end in a carriage return plus line feed.
pub open spec fn spec_strip_cr(l: Seq<u8>) -> Seq<u8> {
    if l.len() > 0 && l.last() == 13 {
        l.drop_last()
    } else {
        l
    }
}

/// The lines of the listing: split at line feeds, a carriage return
/// before the split stripped, the final line optionally unterminated.
pub open spec fn spec_lines(s: Seq<u8>) -> Seq<Seq<u8>>
    decreases s.len(),
    via spec_lines_dec
{
    if s.len() == 0 {
        Seq::empty()
    } else {
        let j = spec_line_end(s);
        if j == s.len() {
            seq![s]
        } else {
            seq![spec_strip_cr(s.take(j))] + spec_lines(s.skip(j + 1))
        }
    }
}

#[via_fn]
proof fn spec_lines_dec(s: Seq<u8>) {
    if s.len() > 0 {
        lemma_line_end_bounds(s);
    }
}

/// What one listing line says about `label`: `None` when its third
/// column is not the label, otherwise the reading of its first column.
pub open spec fn spec_line_pid(line: Seq<u8>, label: Seq<u8>) -> Option<Option<i32>> {
    let toks = spec_tokens(line);
    if toks.len() >= 3 && toks[2] == label {
        Some(spec_parse_i32(toks[0]))
    } else {
        None
    }
}

pub open spec fn spec_lines_pid(ls: Seq<Seq<u8>>, label: Seq<u8>) -> Option<i32>
    decreases ls.len(),
{
    if ls.len() == 0 {
        None
    } else {
        match spec_line_pid(ls[0], label) {
            Some(p) => p,
            None => spec_lines_pid(ls.drop_first(), label),
        }
    }
}

/// The pid the listing reports for `label`: the first line whose third
/// column equals the label decides, and its first column is read as a
/// decimal process id.
pub open spec fn spec_listing_pid(listing: Seq<u8>, label: Seq<u8>) -> Option<i32> {
    spec_lines_pid(spec_lines(listing), label)
}

fn line_pid(line: &[u8], label: &[u8]) -> (r: Option<Option<i32>>)
    ensures
        r == spec_line_pid(line@, label@),
{
    let toks = tokens(line);
    if toks.len() >= 3 {
        proof {
            assert(toks@.map_values(|t: &[u8]| t@)[2] == toks@[2]@);
            assert(toks@.map_values(|t: &[u8]| t@)[0] == toks@[0]@);
        }
        if bytes_eq(toks[2], label) {
            return Some(parse_i32(toks[0]));
        }
    }
    None
}

/// Search the daemon listing for the process id registered under `label`.
pub fn get_service_pid(listing: &[u8], label: &[u8]) -> (pid: Option<i32>)
    ensures
        pid == spec_listing_pid(listing@, label@),
    decreases listing@.len(),
{
    if listing.len() == 0 {
        return None;
    }
    proof {
        lemma_line_end_bounds(listing@);
    }
    let j = line_end(listing);
    if j == listing.len() {
        proof {
            assert(spec_lines(listing@) == seq![listing@]);
            assert(spec_lines(listing@)[0] == listing@);
            assert(spec_lines(listing@).drop_first() =~= Seq::<Seq<u8>>::empty());
        }
        match line_pid(listing, label) {
            Some(p) => {
                proof {
                    assert(spec_listing_pid(listing@, label@) == p);
                }
                p
            },
            None => {
                proof {
                    assert(spec_lines_pid(Seq::<Seq<u8>>::empty(), label@) is None);
                    assert(spec_listing_pid(listing@, label@) is None);
                }
                None
            },
        }
    } else {
        let line = slice_subrange(listing, 0, j);
        let stripped = if line.len() > 0 && *slice_index_get(line, line.len() - 1) == 13 {
            slice_subrange(line, 0, line.len() - 1)
        } else {
            line
        };
        proof {
            assert(line@ =~= listing@.take(j as int));
            assert(stripped@ =~= spec_strip_cr(listing@.take(j as int)));
            assert(spec_lines(listing@) == seq![spec_strip_cr(listing@.take(j as int))]
                + spec_lines(listing@.skip(j as int + 1)));
            assert(spec_lines(listing@)[0] == stripped@);
            assert(spec_lines(listing@).drop_first() =~= spec_lines(
                listing@.skip(j as int + 1),
            ));
        }
        match line_pid(stripped, label) {
            Some(p) => {
                proof {
                    assert(spec_listing_pid(listing@, label@) == p);
                }
                p
            },
            None => {
                let rest = slice_subrange(listing, j + 1, listing.len());
                proof {
                    assert(rest@ =~= listing@.skip(j as int + 1));
                    assert(spec_listing_pid(listing@, label@) == spec_listing_pid(
                        rest@,
                        label@,
                    ));
                }
                get_service_pid(rest, label)
            },
        }
    }
}

} // verus!
