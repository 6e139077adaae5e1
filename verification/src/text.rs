//! Byte-level scanning primitives shared by the two log parsers:
//! decimal numbers, whitespace tokens, separator-split fields, trimming,
//! and substring search.

use vstd::prelude::*;

verus! {

/// ASCII whitespace, the delimiters between `key=value` tokens.
pub open spec fn is_space(b: u8) -> bool {
    b == 32 || b == 9 || b == 10 || b == 11 || b == 12 || b == 13
}

fn is_space_byte(b: u8) -> (r: bool)
    ensures
        r == is_space(b),
{
    b == 32 || b == 9 || b == 10 || b == 11 || b == 12 || b == 13
}

/// ASCII decimal digit.
pub open spec fn is_digit(b: u8) -> bool {
    48 <= b <= 57
}

pub open spec fn all_digits(s: Seq<u8>) -> bool {
    forall|i: int| 0 <= i < s.len() ==> is_digit(#[trigger] s[i])
}

/// The integer denoted by a sequence of ASCII digits, most significant first.
pub open spec fn dec_value(s: Seq<u8>) -> int
    decreases s.len(),
{
    if s.len() == 0 {
        0
    } else {
        dec_value(s.drop_last()) * 10 + (s.last() - 48)
    }
}

/// A non-empty, all-digit sequence whose value fits in a `u64`:
/// exactly the strings the pipeline accepts as numeric fields.
pub open spec fn is_dec_u64(s: Seq<u8>) -> bool {
    s.len() > 0 && all_digits(s) && dec_value(s) <= u64::MAX
}

pub proof fn lemma_dec_value_nonneg(s: Seq<u8>)
    requires
        all_digits(s),
    ensures
        dec_value(s) >= 0,
    decreases s.len(),
{
    if s.len() > 0 {
        assert(all_digits(s.drop_last())) by {
            assert(forall|i: int|
                0 <= i < s.drop_last().len() ==> s.drop_last()[i] == #[trigger] s[i]);
        }
        lemma_dec_value_nonneg(s.drop_last());
    }
}

/// Extending a digit string to the right can only increase its value.
pub proof fn lemma_dec_value_prefix_le(s: Seq<u8>, j: int)
    requires
        all_digits(s),
        0 <= j <= s.len(),
    ensures
        dec_value(s.take(j)) <= dec_value(s),
    decreases s.len() - j,
{
    if j < s.len() {
        lemma_dec_value_prefix_le(s, j + 1);
        let t = s.take(j + 1);
        assert(all_digits(t)) by {
            assert(forall|i: int| 0 <= i < t.len() ==> t[i] == #[trigger] s[i]);
        }
        assert(t.drop_last() =~= s.take(j));
        lemma_dec_value_nonneg(t.drop_last());
        assert(dec_value(t) == dec_value(s.take(j)) * 10 + (t.last() - 48));
        assert(dec_value(s.take(j)) <= dec_value(t));
    } else {
        assert(s.take(j) =~= s);
    }
}

/// Parses a numeric field: succeeds exactly on non-empty all-digit input
/// whose value fits in a `u64`.
pub fn parse_u64(s: &[u8]) -> (r: Option<u64>)
    ensures
        match r {
            Some(v) => is_dec_u64(s@) && v == dec_value(s@),
            None => !is_dec_u64(s@),
        },
{
    if s.len() == 0 {
        return None;
    }
    let mut acc: u64 = 0;
    let mut i: usize = 0;
    while i < s.len()
        invariant
            0 < s@.len(),
            0 <= i <= s@.len(),
            all_digits(s@.take(i as int)),
            acc == dec_value(s@.take(i as int)),
        decreases s@.len() - i,
    {
        let b = s[i];
        if b < 48 || b > 57 {
            assert(!is_digit(s@[i as int]));
            return None;
        }
        let d: u64 = (b - 48) as u64;
        proof {
            assert(s@.take(i + 1).drop_last() =~= s@.take(i as int));
            assert(s@.take(i + 1).last() == s@[i as int]);
            assert(all_digits(s@.take(i + 1))) by {
                assert(forall|k: int|
                    0 <= k < i ==> s@.take(i + 1)[k] == #[trigger] s@.take(i as int)[k]);
            }
        }
        // dec_value(take(i + 1)) == acc * 10 + d; reject it if it cannot fit.
        if acc > u64::MAX / 10 || (acc == u64::MAX / 10 && d > u64::MAX % 10) {
            proof {
                lemma_dec_value_nonneg(s@.take(i as int));
                assert(dec_value(s@.take(i + 1)) > u64::MAX);
                if is_dec_u64(s@) {
                    lemma_dec_value_prefix_le(s@, i + 1);
                    assert(false);
                }
            }
            return None;
        }
        acc = acc * 10 + d;
        i = i + 1;
    }
    proof {
        assert(s@.take(s@.len() as int) =~= s@);
    }
    Some(acc)
}

/// The ASCII decimal digits of `v`, most significant first, no leading
/// zeros (a single `0` for zero).
pub open spec fn dec_digits(v: nat) -> Seq<u8>
    decreases v,
{
    if v < 10 {
        seq![(v + 48) as u8]
    } else {
        dec_digits(v / 10).push((v % 10 + 48) as u8)
    }
}

/// The views of a vector of byte vectors, the shape both log passes work on.
pub open spec fn views(ts: Seq<Vec<u8>>) -> Seq<Seq<u8>> {
    ts.map_values(|t: Vec<u8>| t@)
}

/// `pat` occurs as a contiguous subsequence of `s` starting at `i`.
pub open spec fn match_at(s: Seq<u8>, pat: Seq<u8>, i: int) -> bool {
    0 <= i && i + pat.len() <= s.len() && s.subrange(i, i + pat.len()) == pat
}

/// `pat` occurs somewhere in `s`: the marker test both parsers start with.
pub open spec fn contains_seq(s: Seq<u8>, pat: Seq<u8>) -> bool {
    exists|i: int| match_at(s, pat, i)
}

fn match_here(s: &[u8], pat: &[u8], i: usize) -> (r: bool)
    requires
        i + pat@.len() <= s@.len(),
    ensures
        r == match_at(s@, pat@, i as int),
{
    let n = s.len();
    let mut k: usize = 0;
    while k < pat.len()
        invariant
            0 <= k <= pat@.len(),
            i + pat@.len() <= s@.len(),
            n == s@.len(),
            forall|j: int| 0 <= j < k ==> s@[i + j] == pat@[j],
        decreases pat@.len() - k,
    {
        if s[i + k] != pat[k] {
            proof {
                assert(s@.subrange(i as int, i + pat@.len())[k as int] == s@[i + k]);
            }
            return false;
        }
        k = k + 1;
    }
    proof {
        assert(s@.subrange(i as int, i + pat@.len()) =~= pat@);
    }
    true
}

/// Substring search, the marker test of both log parsers.
pub fn contains_bytes(s: &[u8], pat: &[u8]) -> (r: bool)
    ensures
        r == contains_seq(s@, pat@),
{
    if pat.len() > s.len() {
        return false;
    }
    if pat.len() == 0 {
        proof {
            assert(s@.subrange(0, 0) =~= pat@);
            assert(match_at(s@, pat@, 0));
        }
        return true;
    }
    let mut i: usize = 0;
    while i <= s.len() - pat.len()
        invariant
            1 <= pat@.len() <= s@.len(),
            0 <= i <= s@.len() - pat@.len() + 1,
            forall|i2: int| 0 <= i2 < i ==> !match_at(s@, pat@, i2),
        decreases s@.len() - i,
    {
        if match_here(s, pat, i) {
            return true;
        }
        i = i + 1;
    }
    false
}

/// The length of the leading run of non-space bytes.
pub open spec fn token_len(s: Seq<u8>) -> nat
    decreases s.len(),
{
    if s.len() == 0 || is_space(s[0]) {
        0
    } else {
        (1 + token_len(s.skip(1))) as nat
    }
}

pub proof fn lemma_token_len_le(s: Seq<u8>)
    ensures
        token_len(s) <= s.len(),
    decreases s.len(),
{
    if s.len() > 0 && !is_space(s[0]) {
        lemma_token_len_le(s.skip(1));
    }
}

/// `token_len` is the position of the first space (or the length).
pub proof fn lemma_token_len_is(s: Seq<u8>, m: int)
    requires
        0 <= m <= s.len(),
        forall|k: int| 0 <= k < m ==> !is_space(#[trigger] s[k]),
        m == s.len() || is_space(s[m]),
    ensures
        token_len(s) == m,
    decreases m,
{
    if m > 0 {
        lemma_token_len_is(s.skip(1), m - 1);
    }
}

/// The whitespace-delimited tokens of `s`, in order: what the consensus
/// parser scans for `key=value` pairs, and what splits a `td_height <N>`
/// field.
pub open spec fn tokens_of(s: Seq<u8>) -> Seq<Seq<u8>>
    decreases s.len(),
    via tokens_of_dec
{
    if s.len() == 0 {
        seq![]
    } else if is_space(s[0]) {
        tokens_of(s.skip(1))
    } else {
        seq![s.take(token_len(s) as int)] + tokens_of(s.skip(token_len(s) as int))
    }
}

#[via_fn]
proof fn tokens_of_dec(s: Seq<u8>) {
    lemma_token_len_le(s);
}

/// Splits `s` into the maximal runs of non-space bytes.
pub fn tokenize(s: &[u8]) -> (toks: Vec<Vec<u8>>)
    ensures
        views(toks@) == tokens_of(s@),
{
    let mut toks: Vec<Vec<u8>> = Vec::new();
    let mut i: usize = 0;
    proof {
        assert(s@.skip(0) =~= s@);
        assert(views(toks@) + tokens_of(s@) =~= tokens_of(s@));
    }
    while i < s.len()
        invariant
            0 <= i <= s@.len(),
            tokens_of(s@) == views(toks@) + tokens_of(s@.skip(i as int)),
        decreases s@.len() - i,
    {
        if is_space_byte(s[i]) {
            proof {
                assert(s@.skip(i as int).skip(1) =~= s@.skip(i + 1));
            }
            i = i + 1;
        } else {
            let mut j = i + 1;
            while j < s.len() && !is_space_byte(s[j])
                invariant
                    i < j <= s@.len(),
                    forall|k: int| i <= k < j ==> !is_space(#[trigger] s@[k]),
                decreases s@.len() - j,
            {
                j = j + 1;
            }
            let tok = vstd::slice::slice_to_vec(vstd::slice::slice_subrange(s, i, j));
            proof {
                let t = s@.skip(i as int);
                assert(forall|k: int| 0 <= k < j - i ==> t[k] == #[trigger] s@[i + k]);
                lemma_token_len_is(t, j - i);
                assert(t.take(j - i) =~= s@.subrange(i as int, j as int));
                assert(t.skip(j - i) =~= s@.skip(j as int));
                assert(views(toks@.push(tok)) =~= views(toks@).push(tok@));
            }
            toks.push(tok);
            i = j;
        }
    }
    proof {
        assert(s@.skip(s@.len() as int) =~= Seq::<u8>::empty());
        assert(views(toks@) =~= views(toks@) + tokens_of(s@.skip(s@.len() as int)));
    }
    toks
}

/// The length of the leading run of bytes different from `sep`.
pub open spec fn sep_pos(s: Seq<u8>, sep: u8) -> nat
    decreases s.len(),
{
    if s.len() == 0 || s[0] == sep {
        0
    } else {
        (1 + sep_pos(s.skip(1), sep)) as nat
    }
}

pub proof fn lemma_sep_pos_le(s: Seq<u8>, sep: u8)
    ensures
        sep_pos(s, sep) <= s.len(),
    decreases s.len(),
{
    if s.len() > 0 && s[0] != sep {
        lemma_sep_pos_le(s.skip(1), sep);
    }
}

pub proof fn lemma_sep_pos_is(s: Seq<u8>, sep: u8, m: int)
    requires
        0 <= m <= s.len(),
        forall|k: int| 0 <= k < m ==> #[trigger] s[k] != sep,
        m == s.len() || s[m] == sep,
    ensures
        sep_pos(s, sep) == m,
    decreases m,
{
    if m > 0 {
        lemma_sep_pos_is(s.skip(1), sep, m - 1);
    }
}

/// The fields of `s` delimited by `sep`, every occurrence separating,
/// empty fields kept: how the application parser splits its suffix on
/// commas.  Always at least one field.
pub open spec fn split_by(s: Seq<u8>, sep: u8) -> Seq<Seq<u8>>
    decreases s.len(),
    via split_by_dec
{
    let k = sep_pos(s, sep) as int;
    if k == s.len() {
        seq![s]
    } else {
        seq![s.take(k)] + split_by(s.skip(k + 1), sep)
    }
}

#[via_fn]
proof fn split_by_dec(s: Seq<u8>, sep: u8) {
    lemma_sep_pos_le(s, sep);
}

/// Splits `s` at every occurrence of `sep`, keeping empty fields.
pub fn split_bytes(s: &[u8], sep: u8) -> (out: Vec<Vec<u8>>)
    ensures
        views(out@) == split_by(s@, sep),
        out@.len() >= 1,
{
    let mut out: Vec<Vec<u8>> = Vec::new();
    let mut i: usize = 0;
    proof {
        assert(s@.skip(0) =~= s@);
        assert(views(out@) + split_by(s@, sep) =~= split_by(s@, sep));
    }
    loop
        invariant_except_break
            0 <= i <= s@.len(),
            split_by(s@, sep) == views(out@) + split_by(s@.skip(i as int), sep),
        ensures
            views(out@) == split_by(s@, sep),
            out@.len() >= 1,
        decreases s@.len() - i,
    {
        let mut j = i;
        while j < s.len() && s[j] != sep
            invariant
                i <= j <= s@.len(),
                forall|k: int| i <= k < j ==> #[trigger] s@[k] != sep,
            decreases s@.len() - j,
        {
            j = j + 1;
        }
        let field = vstd::slice::slice_to_vec(vstd::slice::slice_subrange(s, i, j));
        proof {
            let t = s@.skip(i as int);
            assert(forall|k: int| 0 <= k < t.len() ==> t[k] == #[trigger] s@[i + k]);
            lemma_sep_pos_is(t, sep, j - i);
            assert(t.take(j - i) =~= s@.subrange(i as int, j as int));
        }
        if j == s.len() {
            proof {
                let t = s@.skip(i as int);
                assert(sep_pos(t, sep) == t.len());
                assert(t =~= s@.subrange(i as int, j as int));
                assert(split_by(t, sep) =~= seq![field@]);
                assert(views(out@.push(field)) =~= views(out@).push(field@));
                assert(views(out@).push(field@) =~= views(out@) + seq![field@]);
            }
            out.push(field);
            return out;
        }
        proof {
            let t = s@.skip(i as int);
            assert(t.skip(j - i + 1) =~= s@.skip(j + 1));
            assert(views(out@.push(field)) =~= views(out@).push(field@));
            assert(views(out@).push(field@) =~= views(out@) + seq![field@]);
        }
        out.push(field);
        i = j + 1;
    }
}

/// The length of the leading run of spaces.
pub open spec fn ws_prefix_len(s: Seq<u8>) -> nat
    decreases s.len(),
{
    if s.len() == 0 || !is_space(s[0]) {
        0
    } else {
        (1 + ws_prefix_len(s.skip(1))) as nat
    }
}

/// The length of the trailing run of spaces.
pub open spec fn ws_suffix_len(s: Seq<u8>) -> nat
    decreases s.len(),
{
    if s.len() == 0 || !is_space(s.last()) {
        0
    } else {
        (1 + ws_suffix_len(s.drop_last())) as nat
    }
}

pub proof fn lemma_ws_prefix_is(s: Seq<u8>, m: int)
    requires
        0 <= m <= s.len(),
        forall|k: int| 0 <= k < m ==> is_space(#[trigger] s[k]),
        m == s.len() || !is_space(s[m]),
    ensures
        ws_prefix_len(s) == m,
    decreases m,
{
    if m > 0 {
        lemma_ws_prefix_is(s.skip(1), m - 1);
    }
}

pub proof fn lemma_ws_suffix_is(s: Seq<u8>, m: int)
    requires
        0 <= m <= s.len(),
        forall|k: int| s.len() - m <= k < s.len() ==> is_space(#[trigger] s[k]),
        m == s.len() || !is_space(s[s.len() - 1 - m]),
    ensures
        ws_suffix_len(s) == m,
    decreases m,
{
    if m > 0 {
        assert(forall|k: int|
            s.drop_last().len() - (m - 1) <= k < s.drop_last().len()
                ==> is_space(#[trigger] s.drop_last()[k]));
        lemma_ws_suffix_is(s.drop_last(), m - 1);
    }
}

/// `s` with leading and trailing whitespace removed: how the trailing
/// field of an application-log line is normalised before the phase-marker
/// comparison.
pub open spec fn trim_of(s: Seq<u8>) -> Seq<u8> {
    if ws_prefix_len(s) == s.len() {
        Seq::empty()
    } else {
        s.subrange(ws_prefix_len(s) as int, s.len() - ws_suffix_len(s))
    }
}

/// Strips leading and trailing whitespace.
pub fn trim_bytes(s: &[u8]) -> (r: &[u8])
    ensures
        r@ == trim_of(s@),
{
    let mut a: usize = 0;
    while a < s.len() && is_space_byte(s[a])
        invariant
            0 <= a <= s@.len(),
            forall|k: int| 0 <= k < a ==> is_space(#[trigger] s@[k]),
        decreases s@.len() - a,
    {
        a = a + 1;
    }
    proof {
        lemma_ws_prefix_is(s@, a as int);
    }
    if a == s.len() {
        let r = vstd::slice::slice_subrange(s, 0, 0);
        proof {
            assert(r@ =~= trim_of(s@));
        }
        return r;
    }
    let mut b: usize = s.len();
    while b > a && is_space_byte(s[b - 1])
        invariant
            a <= b <= s@.len(),
            forall|k: int| b <= k < s@.len() ==> is_space(#[trigger] s@[k]),
        decreases b,
    {
        b = b - 1;
    }
    proof {
        assert(b > a);
        lemma_ws_suffix_is(s@, s@.len() - b);
    }
    vstd::slice::slice_subrange(s, a, b)
}

/// Byte-for-byte equality of two slices.
pub fn bytes_eq(a: &[u8], b: &[u8]) -> (r: bool)
    ensures
        r == (a@ == b@),
{
    if a.len() != b.len() {
        return false;
    }
    let mut i: usize = 0;
    while i < a.len()
        invariant
            a@.len() == b@.len(),
            0 <= i <= a@.len(),
            forall|k: int| 0 <= k < i ==> a@[k] == b@[k],
        decreases a@.len() - i,
    {
        if a[i] != b[i] {
            return false;
        }
        i = i + 1;
    }
    proof {
        assert(a@ =~= b@);
    }
    true
}

/// Renders `v` in decimal, the inverse direction of `parse_u64`.
pub fn format_u64(v: u64) -> (out: Vec<u8>)
    ensures
        out@ == dec_digits(v as nat),
    decreases v,
{
    if v < 10 {
        let mut out: Vec<u8> = Vec::new();
        out.push((v as u8) + 48);
        assert(out@ =~= dec_digits(v as nat));
        out
    } else {
        let mut out = format_u64(v / 10);
        out.push(((v % 10) as u8) + 48);
        out
    }
}

} // verus!
