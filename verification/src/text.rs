//! Byte-string helpers shared by the parsers: line splitting, whitespace
//! tokenization, decimal rendering and parsing, and substring search.
//!
//! All functions work on raw bytes. Whitespace means space, tab, carriage
//! return or newline; lines are separated by the newline byte alone.

use vstd::prelude::*;

verus! {

/// The newline byte, '\n'.
pub const NL: u8 = 10;

/// The space byte, ' '.
pub const SPACE: u8 = 32;

/// The horizontal tab byte, '\t'.
pub const TAB: u8 = 9;

/// The carriage-return byte, '\r'.
pub const CR: u8 = 13;

/// Whether `b` counts as whitespace: space, tab, carriage return or newline.
pub open spec fn is_space(b: u8) -> bool {
    b == SPACE || b == TAB || b == CR || b == NL
}

/// Executable twin of [`is_space`].
pub fn is_space_byte(b: u8) -> (r: bool)
    ensures
        r == is_space(b),
{
    b == SPACE || b == TAB || b == CR || b == NL
}

/// The segments of `s` delimited by the newline byte. A trailing newline
/// produces a final empty segment; the result is never empty.
pub open spec fn spec_split_nl(s: Seq<u8>) -> Seq<Seq<u8>>
    decreases s.len(),
{
    if s.len() == 0 {
        seq![Seq::<u8>::empty()]
    } else {
        let prev = spec_split_nl(s.drop_last());
        if s.last() == NL {
            prev.push(Seq::<u8>::empty())
        } else {
            prev.update(prev.len() - 1, prev.last().push(s.last()))
        }
    }
}

pub proof fn lemma_split_nl_len(s: Seq<u8>)
    ensures
        spec_split_nl(s).len() >= 1,
    decreases s.len(),
{
    if s.len() > 0 {
        lemma_split_nl_len(s.drop_last());
    }
}

/// A byte string without newlines is a single segment.
pub proof fn lemma_split_nl_single(s: Seq<u8>)
    requires
        forall|i: int| 0 <= i < s.len() ==> s[i] != NL,
    ensures
        spec_split_nl(s) == seq![s],
    decreases s.len(),
{
    if s.len() == 0 {
        assert(spec_split_nl(s) =~~= seq![s]);
    } else {
        lemma_split_nl_single(s.drop_last());
        assert(s.drop_last().push(s.last()) =~= s);
        assert(spec_split_nl(s) =~~= seq![s]);
    }
}

/// Splits `content` at every newline byte, keeping empty segments.
pub fn split_lines(content: &Vec<u8>) -> (r: Vec<Vec<u8>>)
    ensures
        r.deep_view() == spec_split_nl(content@),
{
    let mut r: Vec<Vec<u8>> = Vec::new();
    let mut cur: Vec<u8> = Vec::new();
    let n = content.len();
    let mut k: usize = 0;
    proof {
        assert(content@.subrange(0, 0) =~= Seq::<u8>::empty());
        assert(r.deep_view().push(cur@) =~~= spec_split_nl(content@.subrange(0, 0)));
    }
    while k < n
        invariant
            k <= n,
            n == content@.len(),
            r.deep_view().push(cur@) == spec_split_nl(content@.subrange(0, k as int)),
        decreases n - k,
    {
        let b = content[k];
        k += 1;
        if b == NL {
            r.push(cur);
            cur = Vec::new();
        } else {
            cur.push(b);
        }
        proof {
            let pre = content@.subrange(0, k as int);
            assert(pre.drop_last() =~= content@.subrange(0, k - 1));
            assert(pre.last() == b);
            assert(r.deep_view().push(cur@) =~~= spec_split_nl(pre));
        }
    }
    r.push(cur);
    proof {
        assert(content@.subrange(0, n as int) =~= content@);
        assert(r.deep_view() =~~= spec_split_nl(content@));
    }
    r
}

/// The lines of a text file: the newline-delimited segments, with the final
/// empty segment of a newline-terminated file dropped.
pub open spec fn spec_content_lines(s: Seq<u8>) -> Seq<Seq<u8>> {
    let segs = spec_split_nl(s);
    if segs.last() == Seq::<u8>::empty() {
        segs.drop_last()
    } else {
        segs
    }
}

/// Splits file content into lines, dropping the empty segment a trailing
/// newline leaves behind.
pub fn content_lines(content: &Vec<u8>) -> (r: Vec<Vec<u8>>)
    ensures
        r.deep_view() == spec_content_lines(content@),
{
    let mut segs = split_lines(content);
    proof {
        lemma_split_nl_len(content@);
        assert(segs.deep_view().last() == segs@[segs@.len() - 1]@);
    }
    if segs[segs.len() - 1].len() == 0 {
        proof {
            assert(segs.deep_view().last() =~= Seq::<u8>::empty());
        }
        segs.pop();
        proof {
            assert(segs.deep_view() =~~= spec_content_lines(content@));
        }
    } else {
        proof {
            assert(segs.deep_view().last() != Seq::<u8>::empty());
        }
    }
    segs
}

/// The decimal digits of `n`, most significant first, as ASCII bytes.
pub open spec fn spec_decimal(n: nat) -> Seq<u8>
    decreases n,
{
    if n < 10 {
        seq![(48 + n) as u8]
    } else {
        spec_decimal(n / 10) + seq![(48 + n % 10) as u8]
    }
}

/// Appends the decimal rendering of `n` to `out`.
pub fn push_decimal(n: u32, out: &mut Vec<u8>)
    ensures
        final(out)@ == old(out)@ + spec_decimal(n as nat),
    decreases n,
{
    if n < 10 {
        out.push(48 + (n as u8));
        proof {
            assert(out@ =~= old(out)@ + spec_decimal(n as nat));
        }
    } else {
        push_decimal(n / 10, out);
        let d = (n % 10) as u8;
        out.push(48 + d);
        proof {
            assert(out@ =~= old(out)@ + spec_decimal(n as nat));
        }
    }
}

/// Whether `b` is an ASCII decimal digit.
pub open spec fn is_digit(b: u8) -> bool {
    48 <= b <= 57
}

/// A non-empty byte string of decimal digits.
pub open spec fn all_digits(s: Seq<u8>) -> bool {
    s.len() > 0 && forall|i: int| 0 <= i < s.len() ==> is_digit(s[i])
}

/// The value of a digit string read as a decimal number.
pub open spec fn spec_decimal_value(s: Seq<u8>) -> nat
    decreases s.len(),
{
    if s.len() == 0 {
        0
    } else {
        spec_decimal_value(s.drop_last()) * 10 + (s.last() - 48) as nat
    }
}

/// Law: rendering a number in decimal and reading the digits back yields
/// the same number, and the rendering consists of digits alone.
pub proof fn lemma_decimal_round_trip(n: nat)
    ensures
        all_digits(spec_decimal(n)),
        spec_decimal_value(spec_decimal(n)) == n,
    decreases n,
{
    if n < 10 {
        let s = spec_decimal(n);
        assert(s.drop_last() =~= Seq::<u8>::empty());
        assert(spec_decimal_value(Seq::<u8>::empty()) == 0);
        assert(s.last() == (48 + n) as u8);
        assert(((48 + n) as u8) as nat == 48 + n);
        assert(spec_decimal_value(s) == n);
    } else {
        lemma_decimal_round_trip(n / 10);
        let s = spec_decimal(n);
        assert(s.drop_last() =~= spec_decimal(n / 10));
        assert(spec_decimal_value(s) == (n / 10) * 10 + n % 10);
        assert((n / 10) * 10 + n % 10 == n) by {
            vstd::arithmetic::div_mod::lemma_fundamental_div_mod(n as int, 10);
        }
    }
}

/// Extending a digit string to the right can only grow its value.
pub proof fn lemma_decimal_prefix_le(s: Seq<u8>, k: int)
    requires
        0 <= k <= s.len(),
        forall|i: int| k <= i < s.len() ==> is_digit(s[i]),
    ensures
        spec_decimal_value(s.subrange(0, k)) <= spec_decimal_value(s),
    decreases s.len() - k,
{
    if k == s.len() {
        assert(s.subrange(0, k) =~= s);
    } else {
        lemma_decimal_prefix_le(s, k + 1);
        let p1 = s.subrange(0, k + 1);
        assert(p1.drop_last() =~= s.subrange(0, k));
        assert(spec_decimal_value(p1)
            == spec_decimal_value(s.subrange(0, k)) * 10 + (s[k] - 48) as nat);
        assert(spec_decimal_value(s.subrange(0, k)) <= spec_decimal_value(p1));
    }
}

/// Parses a non-empty string of decimal digits as a 32-bit number.
/// Fails exactly when the string is empty, holds a non-digit, or encodes a
/// value above `u32::MAX`.
pub fn parse_u32(s: &Vec<u8>) -> (r: Option<u32>)
    ensures
        r is Some <==> all_digits(s@) && spec_decimal_value(s@) <= u32::MAX,
        r matches Some(v) ==> v as nat == spec_decimal_value(s@),
{
    let n = s.len();
    if n == 0 {
        return None;
    }
    let mut acc: u64 = 0;
    let mut k: usize = 0;
    proof {
        assert(s@.subrange(0, 0) =~= Seq::<u8>::empty());
    }
    while k < n
        invariant
            k <= n,
            n == s@.len(),
            forall|i: int| 0 <= i < k ==> is_digit(s@[i]),
            acc as nat == spec_decimal_value(s@.subrange(0, k as int)),
            acc <= u32::MAX,
        decreases n - k,
    {
        let b = s[k];
        if b < 48 || b > 57 {
            return None;
        }
        let d = (b - 48) as u64;
        acc = acc * 10 + d;
        k += 1;
        proof {
            assert(s@.subrange(0, k as int).drop_last() =~= s@.subrange(0, k - 1));
        }
        if acc > 4294967295 {
            proof {
                if all_digits(s@) && spec_decimal_value(s@) <= u32::MAX {
                    lemma_decimal_prefix_le(s@, k as int);
                }
            }
            return None;
        }
    }
    proof {
        assert(s@.subrange(0, n as int) =~= s@);
    }
    Some(acc as u32)
}

/// Whether `pat` occurs as a contiguous run of bytes inside `hay`.
pub open spec fn contains_seq(hay: Seq<u8>, pat: Seq<u8>) -> bool {
    exists|i: int|
        0 <= i && i + pat.len() <= hay.len() && #[trigger] hay.subrange(i, i + pat.len()) == pat
}

fn match_at(hay: &Vec<u8>, pat: &Vec<u8>, start: usize) -> (r: bool)
    requires
        start + pat@.len() <= hay@.len(),
    ensures
        r <==> hay@.subrange(start as int, start as int + pat@.len() as int) == pat@,
{
    let m = pat.len();
    let n = hay.len();
    let mut j: usize = 0;
    while j < m
        invariant
            j <= m,
            m == pat@.len(),
            n == hay@.len(),
            start + m <= n,
            forall|t: int| 0 <= t < j ==> hay@[start + t] == pat@[t],
        decreases m - j,
    {
        if hay[start + j] != pat[j] {
            proof {
                assert(hay@.subrange(start as int, start as int + m as int)[j as int]
                    == hay@[start + j]);
            }
            return false;
        }
        j += 1;
    }
    proof {
        assert(hay@.subrange(start as int, start as int + m as int) =~= pat@);
    }
    true
}

/// Substring search over raw bytes.
pub fn contains_bytes(hay: &Vec<u8>, pat: &Vec<u8>) -> (r: bool)
    ensures
        r == contains_seq(hay@, pat@),
{
    let m = pat.len();
    let n = hay.len();
    if m == 0 {
        proof {
            let zero: int = 0;
            assert(hay@.subrange(zero, zero + pat@.len()) =~= pat@);
            assert(contains_seq(hay@, pat@));
        }
        return true;
    }
    if m > n {
        proof {
            assert(!contains_seq(hay@, pat@)) by {
                if contains_seq(hay@, pat@) {
                    let i = choose|i: int|
                        0 <= i && i + pat@.len() <= hay@.len()
                            && #[trigger] hay@.subrange(i, i + pat@.len()) == pat@;
                    assert(false);
                }
            }
        }
        return false;
    }
    let mut start: usize = 0;
    while start <= n - m
        invariant
            m == pat@.len(),
            n == hay@.len(),
            1 <= m <= n,
            start <= n - m + 1,
            forall|i: int| 0 <= i < start ==> #[trigger] hay@.subrange(i, i + m as int) != pat@,
        decreases n - m + 1 - start,
    {
        if match_at(hay, pat, start) {
            proof {
                assert(contains_seq(hay@, pat@)) by {
                    assert(0 <= start as int && start as int + pat@.len() <= hay@.len()
                        && hay@.subrange(start as int, start as int + pat@.len() as int) == pat@);
                }
            }
            return true;
        }
        start += 1;
    }
    proof {
        assert(!contains_seq(hay@, pat@)) by {
            if contains_seq(hay@, pat@) {
                let i = choose|i: int|
                    0 <= i && i + pat@.len() <= hay@.len()
                        && #[trigger] hay@.subrange(i, i + pat@.len()) == pat@;
                assert(hay@.subrange(i, i + m as int) != pat@);
                assert(false);
            }
        }
    }
    false
}

/// Byte-for-byte copy of a vector.
pub fn copy_bytes(v: &Vec<u8>) -> (r: Vec<u8>)
    ensures
        r@ == v@,
{
    let mut r: Vec<u8> = Vec::new();
    let n = v.len();
    let mut k: usize = 0;
    while k < n
        invariant
            k <= n,
            n == v@.len(),
            r@ == v@.subrange(0, k as int),
        decreases n - k,
    {
        r.push(v[k]);
        k += 1;
        proof {
            assert(r@ =~= v@.subrange(0, k as int));
        }
    }
    proof {
        assert(v@.subrange(0, n as int) =~= v@);
    }
    r
}

/// The maximal runs of non-whitespace bytes in `s`, in order.
pub open spec fn spec_tokens(s: Seq<u8>) -> Seq<Seq<u8>>
    decreases s.len(),
{
    if s.len() == 0 {
        Seq::<Seq<u8>>::empty()
    } else {
        let prev = spec_tokens(s.drop_last());
        let c = s.last();
        if is_space(c) {
            prev
        } else if s.len() == 1 || is_space(s[s.len() - 2]) {
            prev.push(seq![c])
        } else {
            prev.update(prev.len() - 1, prev.last().push(c))
        }
    }
}

/// A string that ends in a non-whitespace byte has at least one token.
pub proof fn lemma_tokens_nonempty(s: Seq<u8>)
    requires
        s.len() > 0,
        !is_space(s.last()),
    ensures
        spec_tokens(s).len() >= 1,
    decreases s.len(),
{
    if s.len() >= 2 && !is_space(s[s.len() - 2]) {
        lemma_tokens_nonempty(s.drop_last());
    }
}

/// Appending whitespace leaves the tokens unchanged.
pub proof fn lemma_tokens_append_space(s: Seq<u8>, c: u8)
    requires
        is_space(c),
    ensures
        spec_tokens(s.push(c)) == spec_tokens(s),
{
    assert(s.push(c).drop_last() =~= s);
}

/// Appending a whole run of non-whitespace bytes after a whitespace
/// boundary appends exactly one token.
pub proof fn lemma_tokens_append_token(s: Seq<u8>, t: Seq<u8>)
    requires
        t.len() > 0,
        forall|i: int| 0 <= i < t.len() ==> !is_space(t[i]),
        s.len() == 0 || is_space(s.last()),
    ensures
        spec_tokens(s + t) == spec_tokens(s).push(t),
    decreases t.len(),
{
    let st = s + t;
    if t.len() == 1 {
        assert(st.drop_last() =~= s);
        assert(st.last() == t[0]);
        if s.len() > 0 {
            assert(st[st.len() - 2] == s.last());
        }
        assert(seq![t[0]] =~= t);
        assert(spec_tokens(st) =~~= spec_tokens(s).push(t));
    } else {
        lemma_tokens_append_token(s, t.drop_last());
        if s.len() > 0 {
            lemma_tokens_nonempty(s + t.drop_last());
        }
        assert(st.drop_last() =~= s + t.drop_last());
        assert(st.last() == t.last());
        assert(st[st.len() - 2] == t[t.len() - 2]);
        assert(!is_space(t[t.len() - 2]));
        let prev = spec_tokens(s + t.drop_last());
        assert(prev == spec_tokens(s).push(t.drop_last()));
        assert(prev.last() == t.drop_last());
        assert(t.drop_last().push(t.last()) =~= t);
        assert(spec_tokens(st) =~~= spec_tokens(s).push(t));
    }
}

/// Splits a line into its whitespace-separated tokens.
pub fn tokenize(line: &Vec<u8>) -> (r: Vec<Vec<u8>>)
    ensures
        r.deep_view() == spec_tokens(line@),
{
    let mut toks: Vec<Vec<u8>> = Vec::new();
    let mut cur: Vec<u8> = Vec::new();
    let n = line.len();
    let mut k: usize = 0;
    proof {
        assert(line@.subrange(0, 0) =~= Seq::<u8>::empty());
        assert(toks.deep_view() =~~= spec_tokens(line@.subrange(0, 0)));
    }
    while k < n
        invariant
            k <= n,
            n == line@.len(),
            if k > 0 && !is_space(line@[k - 1]) {
                cur@.len() > 0 && toks.deep_view().push(cur@) == spec_tokens(
                    line@.subrange(0, k as int),
                )
            } else {
                cur@.len() == 0 && toks.deep_view() == spec_tokens(line@.subrange(0, k as int))
            },
        decreases n - k,
    {
        let b = line[k];
        k += 1;
        if is_space_byte(b) {
            if cur.len() > 0 {
                toks.push(cur);
                cur = Vec::new();
            }
        } else {
            cur.push(b);
        }
        proof {
            let pre1 = line@.subrange(0, k - 1);
            let pre2 = line@.subrange(0, k as int);
            assert(pre2.drop_last() =~= pre1);
            assert(pre2.last() == b);
            if k >= 2 {
                assert(pre2[pre2.len() - 2] == line@[k - 2]);
            }
            if !is_space(b) {
                assert(toks.deep_view().push(cur@) =~~= spec_tokens(pre2));
            } else {
                assert(toks.deep_view() =~~= spec_tokens(pre2));
            }
        }
    }
    if cur.len() > 0 {
        toks.push(cur);
    }
    proof {
        assert(line@.subrange(0, n as int) =~= line@);
        assert(toks.deep_view() =~~= spec_tokens(line@));
    }
    toks
}

} // verus!
