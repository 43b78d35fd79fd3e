//! Verified text helpers over character sequences.
//!
//! The protocol multiplexes prose, reasoning text and tool-call payloads
//! through one string field, and choices are recovered from free-form
//! narrative text, so the crate needs character-exact comparison, prefix and
//! substring tests, trimming and line splitting. Everything here is specified
//! over `Seq<char>`; only the Unicode whitespace table is taken on trust.

use vstd::prelude::*;
use vstd::string::StrSliceExecFns;

verus! {

/// Whether a character counts as whitespace.
pub uninterp spec fn is_blank(c: char) -> bool;

/// Relies on char::is_whitespace: a Unicode property of the character alone,
/// named here by [`is_blank`].
#[verifier::external_body]
pub(crate) fn blank_char(c: char) -> (r: bool)
    ensures
        r == is_blank(c),
{
    c.is_whitespace()
}

/// Character-exact string equality.
pub fn str_eq(a: &str, b: &str) -> (r: bool)
    ensures
        r == (a@ == b@),
{
    let n = a.unicode_len();
    if n != b.unicode_len() {
        return false;
    }
    let mut i: usize = 0;
    while i < n
        invariant
            n == a@.len(),
            n == b@.len(),
            i <= n,
            forall|k: int| 0 <= k < i ==> a@[k] == b@[k],
        decreases n - i,
    {
        if a.get_char(i) != b.get_char(i) {
            return false;
        }
        i = i + 1;
    }
    proof {
        assert(a@ =~= b@);
    }
    true
}

/// `p` is a prefix of `s`.
pub open spec fn has_prefix(s: Seq<char>, p: Seq<char>) -> bool {
    p.len() <= s.len() && s.take(p.len() as int) == p
}

/// Prefix test, character by character.
pub fn str_starts_with(s: &str, p: &str) -> (r: bool)
    ensures
        r == has_prefix(s@, p@),
{
    let n = s.unicode_len();
    let m = p.unicode_len();
    if m > n {
        return false;
    }
    let mut i: usize = 0;
    while i < m
        invariant
            m <= n,
            i <= m,
            n == s@.len(),
            m == p@.len(),
            forall|k: int| 0 <= k < i ==> s@[k] == p@[k],
        decreases m - i,
    {
        if s.get_char(i) != p.get_char(i) {
            proof {
                assert(s@.take(m as int)[i as int] != p@[i as int]);
            }
            return false;
        }
        i = i + 1;
    }
    proof {
        assert(s@.take(m as int) =~= p@);
    }
    true
}

/// `p` occurs in `s` starting at index `i`.
pub open spec fn has_sub_at(s: Seq<char>, p: Seq<char>, i: int) -> bool {
    0 <= i && i + p.len() <= s.len() && s.subrange(i, i + p.len() as int) == p
}

/// `p` occurs somewhere in `s`.
pub open spec fn contains_sub(s: Seq<char>, p: Seq<char>) -> bool {
    exists|i: int| has_sub_at(s, p, i)
}

fn match_at(s: &str, p: &str, i: usize) -> (r: bool)
    requires
        i + p@.len() <= s@.len(),
    ensures
        r == has_sub_at(s@, p@, i as int),
{
    let n = s.unicode_len();
    let m = p.unicode_len();
    let mut k: usize = 0;
    while k < m
        invariant
            n == s@.len(),
            m == p@.len(),
            i + m <= n,
            k <= m,
            forall|j: int| 0 <= j < k ==> s@[i + j] == p@[j],
        decreases m - k,
    {
        if s.get_char(i + k) != p.get_char(k) {
            proof {
                assert(s@.subrange(i as int, i + m as int)[k as int] != p@[k as int]);
            }
            return false;
        }
        k = k + 1;
    }
    proof {
        assert(s@.subrange(i as int, i + m as int) =~= p@);
    }
    true
}

/// Substring test: scans every starting position.
pub fn str_contains(s: &str, p: &str) -> (r: bool)
    ensures
        r == contains_sub(s@, p@),
{
    let n = s.unicode_len();
    let m = p.unicode_len();
    if m > n {
        proof {
            assert(forall|i: int| !has_sub_at(s@, p@, i));
        }
        return false;
    }
    if m == 0 {
        proof {
            assert(s@.subrange(0, 0) =~= p@);
            assert(has_sub_at(s@, p@, 0));
        }
        return true;
    }
    let mut i: usize = 0;
    while i <= n - m
        invariant
            0 < m <= n,
            n == s@.len(),
            m == p@.len(),
            i <= n - m + 1,
            forall|k: int| 0 <= k < i ==> !has_sub_at(s@, p@, k),
        decreases n - i,
    {
        if match_at(s, p, i) {
            return true;
        }
        i = i + 1;
    }
    proof {
        assert forall|k: int| !has_sub_at(s@, p@, k) by {
            if 0 <= k <= n - m {
                assert(!has_sub_at(s@, p@, k));
            }
        }
    }
    false
}

/// Number of leading whitespace characters.
pub open spec fn leading_blanks(s: Seq<char>) -> int
    decreases s.len(),
{
    if s.len() == 0 {
        0
    } else if !is_blank(s[0]) {
        0
    } else {
        1 + leading_blanks(s.drop_first())
    }
}

/// Number of trailing whitespace characters.
pub open spec fn trailing_blanks(s: Seq<char>) -> int
    decreases s.len(),
{
    if s.len() == 0 {
        0
    } else if !is_blank(s.last()) {
        0
    } else {
        1 + trailing_blanks(s.drop_last())
    }
}

/// `s` with leading and trailing whitespace removed.
pub open spec fn trim_spec(s: Seq<char>) -> Seq<char> {
    let t = s.skip(leading_blanks(s));
    t.take(t.len() - trailing_blanks(t))
}

proof fn lemma_leading_blanks_at(s: Seq<char>, lo: int)
    requires
        0 <= lo <= s.len(),
        forall|k: int| 0 <= k < lo ==> is_blank(s[k]),
        lo < s.len() ==> !is_blank(s[lo]),
    ensures
        leading_blanks(s) == lo,
    decreases s.len(),
{
    if s.len() == 0 {
    } else if lo == 0 {
    } else {
        assert(is_blank(s[0]));
        assert(forall|k: int| 0 <= k < lo - 1 ==> s.drop_first()[k] == s[k + 1]);
        lemma_leading_blanks_at(s.drop_first(), lo - 1);
    }
}

proof fn lemma_trailing_blanks_at(s: Seq<char>, m: int)
    requires
        0 <= m <= s.len(),
        forall|k: int| s.len() - m <= k < s.len() ==> is_blank(s[k]),
        m < s.len() ==> !is_blank(s[s.len() - m - 1]),
    ensures
        trailing_blanks(s) == m,
    decreases s.len(),
{
    if s.len() == 0 {
    } else if m == 0 {
        assert(!is_blank(s.last()));
    } else {
        assert(is_blank(s.last()));
        assert(forall|k: int| 0 <= k < s.len() - 1 ==> s.drop_last()[k] == s[k]);
        lemma_trailing_blanks_at(s.drop_last(), m - 1);
    }
}

/// Remove leading and trailing whitespace.
pub fn trim_str<'a>(s: &'a str) -> (r: &'a str)
    ensures
        r@ == trim_spec(s@),
{
    let n = s.unicode_len();
    let mut lo: usize = 0;
    while lo < n && blank_char(s.get_char(lo))
        invariant
            n == s@.len(),
            lo <= n,
            forall|k: int| 0 <= k < lo ==> is_blank(s@[k]),
        decreases n - lo,
    {
        lo = lo + 1;
    }
    proof {
        lemma_leading_blanks_at(s@, lo as int);
    }
    let mut hi: usize = n;
    while hi > lo && blank_char(s.get_char(hi - 1))
        invariant
            lo <= hi <= n,
            n == s@.len(),
            forall|k: int| hi <= k < n ==> is_blank(s@[k]),
        decreases hi,
    {
        hi = hi - 1;
    }
    proof {
        let t = s@.skip(lo as int);
        assert(forall|k: int| 0 <= k < t.len() ==> t[k] == s@[k + lo]);
        lemma_trailing_blanks_at(t, n - hi);
        assert(trim_spec(s@) =~= s@.subrange(lo as int, hi as int));
    }
    s.substring_char(lo, hi)
}

/// Index of the first newline in `s`, or `s.len()` if there is none.
pub open spec fn first_nl(s: Seq<char>) -> nat
    decreases s.len(),
{
    if s.len() == 0 {
        0
    } else if s[0] == '\n' {
        0
    } else {
        1 + first_nl(s.drop_first())
    }
}

proof fn lemma_first_nl_at(s: Seq<char>, i: int)
    requires
        0 <= i <= s.len(),
        forall|k: int| 0 <= k < i ==> s[k] != '\n',
        i < s.len() ==> s[i] == '\n',
    ensures
        first_nl(s) == i,
    decreases s.len(),
{
    if s.len() == 0 {
    } else if i == 0 {
    } else {
        assert(s[0] != '\n');
        assert(forall|k: int| 0 <= k < i - 1 ==> s.drop_first()[k] == s[k + 1]);
        lemma_first_nl_at(s.drop_first(), i - 1);
    }
}

/// One line as the standard line iterator yields it: a terminated line loses
/// a final carriage return, an unterminated final segment keeps every byte.
pub open spec fn line_body(l: Seq<char>, terminated: bool) -> Seq<char> {
    if terminated && l.len() > 0 && l.last() == '\r' {
        l.drop_last()
    } else {
        l
    }
}

/// The lines of `s`, split at newline characters; a final segment without a
/// newline is a line of its own, and an empty final segment is no line.
pub open spec fn split_lines(s: Seq<char>) -> Seq<Seq<char>>
    decreases s.len(),
{
    if s.len() == 0 {
        Seq::empty()
    } else {
        let i = first_nl(s);
        if i >= s.len() {
            seq![s]
        } else {
            seq![line_body(s.take(i as int), true)] + split_lines(s.skip(i + 1 as int))
        }
    }
}

/// Split into lines, as [`split_lines`] has it.
pub fn split_lines_exec(s: &str) -> (r: Vec<String>)
    ensures
        r.deep_view() == split_lines(s@),
{
    let n = s.unicode_len();
    let mut out: Vec<String> = Vec::new();
    let mut start: usize = 0;
    proof {
        assert(s@.skip(0) =~= s@);
        assert(out.deep_view() + split_lines(s@) =~= split_lines(s@));
    }
    while start < n
        invariant
            n == s@.len(),
            start <= n,
            split_lines(s@) == out.deep_view() + split_lines(s@.skip(start as int)),
        decreases n - start,
    {
        let ghost rem = s@.skip(start as int);
        let ghost pre = out.deep_view();
        let mut j: usize = start;
        while j < n && s.get_char(j) != '\n'
            invariant
                n == s@.len(),
                start <= j <= n,
                forall|k: int| start <= k < j ==> s@[k] != '\n',
            decreases n - j,
        {
            j = j + 1;
        }
        proof {
            assert(forall|k: int| 0 <= k < rem.len() ==> rem[k] == s@[k + start]);
            lemma_first_nl_at(rem, j - start);
        }
        let terminated = j < n;
        let end: usize = if terminated && j > start && s.get_char(j - 1) == '\r' {
            j - 1
        } else {
            j
        };
        let line = s.substring_char(start, end);
        out.push(line.to_owned());
        proof {
            if terminated {
                assert(rem.take(j - start) =~= s@.subrange(start as int, j as int));
                if j > start && s@[j - 1] == '\r' {
                    assert(rem.take(j - start).drop_last() =~= s@.subrange(
                        start as int,
                        end as int,
                    ));
                }
                assert(line@ == line_body(rem.take(j - start), true));
                assert(rem.skip(j - start + 1) =~= s@.skip(j + 1));
                assert(split_lines(rem) == seq![line@] + split_lines(s@.skip(j + 1)));
            } else {
                assert(rem =~= s@.subrange(start as int, n as int));
                assert(split_lines(rem) == seq![line@]);
                assert(split_lines(s@.skip(n as int)) =~= Seq::<Seq<char>>::empty());
            }
        }
        start = if terminated {
            j + 1
        } else {
            n
        };
        proof {
            assert(out.deep_view() =~= pre + seq![line@]);
            assert(pre + (seq![line@] + split_lines(s@.skip(start as int))) =~= (pre + seq![
                line@,
            ]) + split_lines(s@.skip(start as int)));
        }
    }
    proof {
        assert(split_lines(s@.skip(start as int)) =~= Seq::<Seq<char>>::empty());
        assert(out.deep_view() + Seq::<Seq<char>>::empty() =~= out.deep_view());
    }
    out
}

} // verus!
