//! Byte-sequence utilities shared by the request parser, the router and the
//! response framer: searching, prefix tests, whitespace trimming and line
//! splitting, each as a spec function with a verified executable counterpart.

use vstd::prelude::*;
use vstd::slice::{slice_subrange, slice_to_vec};

verus! {

/// ASCII whitespace, as the request-line tokenizer and header trimming see it.
pub open spec fn is_space(b: u8) -> bool {
    b == ' ' as u8 || b == '\t' as u8 || b == '\n' as u8 || b == 11u8 || b == 12u8 || b == '\r'
        as u8
}

fn is_space_byte(b: u8) -> (r: bool)
    ensures
        r == is_space(b),
{
    b == ' ' as u8 || b == '\t' as u8 || b == '\n' as u8 || b == 11u8 || b == 12u8 || b == '\r'
        as u8
}

/// True when `p` occurs in `s` starting at position `i`.
pub open spec fn matches_at(s: Seq<u8>, p: Seq<u8>, i: int) -> bool {
    0 <= i && i + p.len() <= s.len() && s.subrange(i, i + p.len() as int) == p
}

/// True when `p` occurs somewhere in `s`.
pub open spec fn contains_seq(s: Seq<u8>, p: Seq<u8>) -> bool {
    exists|i: int| matches_at(s, p, i)
}

/// True when `s` begins with `p`.
pub open spec fn has_prefix(s: Seq<u8>, p: Seq<u8>) -> bool {
    matches_at(s, p, 0)
}

/// True when the byte `c` occurs in `s`.
pub open spec fn contains_byte(s: Seq<u8>, c: u8) -> bool {
    exists|i: int| 0 <= i < s.len() && s[i] == c
}

/// Position of the first occurrence of the byte `c` in `s`, if any.
pub open spec fn index_of_byte(s: Seq<u8>, c: u8) -> Option<int>
    decreases s.len(),
{
    if s.len() == 0 {
        None
    } else if s[0] == c {
        Some(0)
    } else {
        match index_of_byte(s.drop_first(), c) {
            Some(i) => Some(i + 1),
            None => None,
        }
    }
}

/// What `index_of_byte` finds is an occurrence, and the first one.
pub proof fn lemma_index_of_byte(s: Seq<u8>, c: u8)
    ensures
        match index_of_byte(s, c) {
            Some(i) => 0 <= i < s.len() && s[i] == c && (forall|j: int| 0 <= j < i ==> s[j] != c),
            None => forall|j: int| 0 <= j < s.len() ==> s[j] != c,
        },
    decreases s.len(),
{
    if s.len() > 0 && s[0] != c {
        lemma_index_of_byte(s.drop_first(), c);
        assert forall|j: int| 1 <= j < s.len() implies s[j] == s.drop_first()[j - 1] by {}
    }
}

/// Position of the first occurrence of `p` in `s`, if any; an empty `p`
/// occurs at the front of every sequence.
pub open spec fn index_of_seq(s: Seq<u8>, p: Seq<u8>) -> Option<int>
    decreases s.len(),
{
    if p.len() > s.len() {
        None
    } else if s.subrange(0, p.len() as int) == p {
        Some(0)
    } else if s.len() == 0 {
        None
    } else {
        match index_of_seq(s.drop_first(), p) {
            Some(i) => Some(i + 1),
            None => None,
        }
    }
}

/// What `index_of_seq` finds is an occurrence, and the first one.
pub proof fn lemma_index_of_seq(s: Seq<u8>, p: Seq<u8>)
    ensures
        match index_of_seq(s, p) {
            Some(i) => matches_at(s, p, i) && (forall|j: int| 0 <= j < i ==> !matches_at(s, p, j)),
            None => forall|j: int| !matches_at(s, p, j),
        },
    decreases s.len(),
{
    if p.len() > s.len() {
        assert forall|j: int| !matches_at(s, p, j) by {}
    } else if s.subrange(0, p.len() as int) == p {
    } else if s.len() == 0 {
        assert(p.len() == 0 && s.subrange(0, 0) =~= p);
    } else {
        lemma_index_of_seq(s.drop_first(), p);
        assert forall|j: int| 1 <= j && matches_at(s, p, j) implies matches_at(
            s.drop_first(),
            p,
            j - 1,
        ) by {
            assert(s.drop_first().subrange(j - 1, j - 1 + p.len() as int) =~= s.subrange(
                j,
                j + p.len() as int,
            ));
        }
        assert forall|j: int| 1 <= j && matches_at(s.drop_first(), p, j - 1) implies matches_at(
            s,
            p,
            j,
        ) by {
            assert(s.subrange(j, j + p.len() as int) =~= s.drop_first().subrange(
                j - 1,
                j - 1 + p.len() as int,
            ));
        }
    }
}

/// An occurrence with none before it is exactly what `index_of_seq` returns.
pub proof fn lemma_index_of_seq_unique(s: Seq<u8>, p: Seq<u8>, i: int)
    requires
        matches_at(s, p, i),
        forall|j: int| 0 <= j < i ==> !matches_at(s, p, j),
    ensures
        index_of_seq(s, p) == Some(i),
    decreases s.len(),
{
    if i == 0 {
        assert(s.subrange(0, p.len() as int) == p);
    } else {
        assert(!matches_at(s, p, 0));
        assert(s.subrange(0, p.len() as int) != p);
        assert(s.len() > 0);
        assert(matches_at(s.drop_first(), p, i - 1)) by {
            assert(s.drop_first().subrange(i - 1, i - 1 + p.len() as int) =~= s.subrange(
                i,
                i + p.len() as int,
            ));
        }
        assert forall|j: int| 0 <= j < i - 1 implies !matches_at(s.drop_first(), p, j) by {
            if matches_at(s.drop_first(), p, j) {
                assert(s.subrange(j + 1, j + 1 + p.len() as int) =~= s.drop_first().subrange(
                    j,
                    j + p.len() as int,
                ));
                assert(matches_at(s, p, j + 1));
            }
        }
        lemma_index_of_seq_unique(s.drop_first(), p, i - 1);
    }
}

/// True exactly when the two slices hold the same bytes.
pub fn bytes_eq(a: &[u8], b: &[u8]) -> (r: bool)
    ensures
        r == (a@ == b@),
{
    if a.len() != b.len() {
        return false;
    }
    let mut i: usize = 0;
    while i < a.len()
        invariant
            i <= a@.len(),
            a@.len() == b@.len(),
            forall|j: int| 0 <= j < i ==> a@[j] == b@[j],
        decreases a@.len() - i,
    {
        if a[i] != b[i] {
            return false;
        }
        i = i + 1;
    }
    proof {
        assert(a@ =~= b@);
    }
    true
}

/// True exactly when `p` occurs in `s` at position `i`.
fn match_at(s: &[u8], p: &[u8], i: usize) -> (r: bool)
    requires
        i + p@.len() <= s@.len(),
    ensures
        r == matches_at(s@, p@, i as int),
{
    let n = s.len();
    let mut j: usize = 0;
    while j < p.len()
        invariant
            j <= p@.len(),
            i + p@.len() <= s@.len(),
            n == s@.len(),
            forall|k: int| 0 <= k < j ==> s@[i + k] == p@[k],
        decreases p@.len() - j,
    {
        if s[i + j] != p[j] {
            proof {
                assert(s@.subrange(i as int, i + p@.len() as int)[j as int] == s@[i + j]);
            }
            return false;
        }
        j = j + 1;
    }
    proof {
        assert(s@.subrange(i as int, i + p@.len() as int) =~= p@);
    }
    true
}

/// True exactly when `s` begins with `p`.
pub fn starts_with(s: &[u8], p: &[u8]) -> (r: bool)
    ensures
        r == has_prefix(s@, p@),
{
    if p.len() > s.len() {
        return false;
    }
    match_at(s, p, 0)
}

/// Finds the first occurrence of the byte `c` in `s`.
pub fn find_byte(s: &[u8], c: u8) -> (r: Option<usize>)
    ensures
        match r {
            Some(i) => index_of_byte(s@, c) == Some(i as int),
            None => index_of_byte(s@, c) is None,
        },
{
    let mut i: usize = 0;
    while i < s.len()
        invariant
            i <= s@.len(),
            forall|j: int| 0 <= j < i ==> s@[j] != c,
        decreases s@.len() - i,
    {
        if s[i] == c {
            proof {
                lemma_index_of_byte_unique(s@, c, i as int);
            }
            return Some(i);
        }
        i = i + 1;
    }
    proof {
        lemma_index_of_byte(s@, c);
    }
    None
}

proof fn lemma_index_of_byte_unique(s: Seq<u8>, c: u8, i: int)
    requires
        0 <= i < s.len(),
        s[i] == c,
        forall|j: int| 0 <= j < i ==> s[j] != c,
    ensures
        index_of_byte(s, c) == Some(i),
    decreases s.len(),
{
    if i > 0 {
        assert forall|j: int| 0 <= j < i - 1 implies s.drop_first()[j] != c by {
            assert(s.drop_first()[j] == s[j + 1]);
        }
        lemma_index_of_byte_unique(s.drop_first(), c, i - 1);
    }
}

/// Finds the first occurrence of `p` in `s`.
pub fn find_seq(s: &[u8], p: &[u8]) -> (r: Option<usize>)
    ensures
        match r {
            Some(i) => index_of_seq(s@, p@) == Some(i as int),
            None => index_of_seq(s@, p@) is None,
        },
{
    if p.len() > s.len() {
        proof {
            lemma_index_of_seq(s@, p@);
        }
        return None;
    }
    if p.len() == 0 {
        proof {
            assert(s@.subrange(0, 0) =~= p@);
        }
        return Some(0);
    }
    let n = s.len();
    let last = n - p.len();
    let mut i: usize = 0;
    while i <= last
        invariant
            i <= last + 1,
            last == s@.len() - p@.len(),
            p@.len() <= s@.len(),
            1 <= p@.len(),
            n == s@.len(),
            last < n,
            forall|j: int| 0 <= j < i ==> !matches_at(s@, p@, j),
        decreases last + 1 - i,
    {
        if match_at(s, p, i) {
            proof {
                lemma_index_of_seq_unique(s@, p@, i as int);
            }
            return Some(i);
        }
        i = i + 1;
    }
    proof {
        assert forall|j: int| !matches_at(s@, p@, j) by {
            if j > last as int {
                assert(j + p@.len() > s@.len());
            }
        }
        lemma_index_of_seq(s@, p@);
    }
    None
}

/// True exactly when `p` occurs somewhere in `s`.
pub fn contains_bytes(s: &[u8], p: &[u8]) -> (r: bool)
    ensures
        r == contains_seq(s@, p@),
{
    let found = find_seq(s, p);
    proof {
        lemma_index_of_seq(s@, p@);
    }
    found.is_some()
}

/// True exactly when the byte `c` occurs in `s`.
pub fn contains_byte_value(s: &[u8], c: u8) -> (r: bool)
    ensures
        r == contains_byte(s@, c),
{
    let found = find_byte(s, c);
    proof {
        lemma_index_of_byte(s@, c);
    }
    found.is_some()
}

/// `s` with its leading ASCII whitespace removed.
pub open spec fn trim_start_spec(s: Seq<u8>) -> Seq<u8>
    decreases s.len(),
{
    if s.len() > 0 && is_space(s[0]) {
        trim_start_spec(s.drop_first())
    } else {
        s
    }
}

/// `s` with its trailing ASCII whitespace removed.
pub open spec fn trim_end_spec(s: Seq<u8>) -> Seq<u8>
    decreases s.len(),
{
    if s.len() > 0 && is_space(s.last()) {
        trim_end_spec(s.drop_last())
    } else {
        s
    }
}

/// `s` with ASCII whitespace removed from both ends.
pub open spec fn trim_spec(s: Seq<u8>) -> Seq<u8> {
    trim_end_spec(trim_start_spec(s))
}

/// Copies `s` without its leading and trailing ASCII whitespace.
pub fn trim(s: &[u8]) -> (r: Vec<u8>)
    ensures
        r@ == trim_spec(s@),
{
    let mut lo: usize = 0;
    proof {
        assert(s@.subrange(0, s@.len() as int) =~= s@);
    }
    while lo < s.len() && is_space_byte(s[lo])
        invariant
            lo <= s@.len(),
            trim_start_spec(s@) == trim_start_spec(s@.subrange(lo as int, s@.len() as int)),
        decreases s@.len() - lo,
    {
        proof {
            assert(s@.subrange(lo as int, s@.len() as int).drop_first() =~= s@.subrange(
                lo as int + 1,
                s@.len() as int,
            ));
        }
        lo = lo + 1;
    }
    proof {
        let t = s@.subrange(lo as int, s@.len() as int);
        if lo < s@.len() {
            assert(t[0] == s@[lo as int]);
        }
        assert(trim_start_spec(s@) == t);
    }
    let mut hi: usize = s.len();
    while hi > lo && is_space_byte(s[hi - 1])
        invariant
            lo <= hi <= s@.len(),
            trim_spec(s@) == trim_end_spec(s@.subrange(lo as int, hi as int)),
        decreases hi,
    {
        proof {
            let cur = s@.subrange(lo as int, hi as int);
            assert(cur.last() == s@[hi - 1]);
            assert(cur.drop_last() =~= s@.subrange(lo as int, hi as int - 1));
        }
        hi = hi - 1;
    }
    proof {
        let cur = s@.subrange(lo as int, hi as int);
        if hi > lo {
            assert(cur.last() == s@[hi as int - 1]);
        }
        assert(trim_spec(s@) == cur);
    }
    slice_to_vec(slice_subrange(s, lo, hi))
}

/// A line with one trailing carriage return removed, as line splitting does
/// for lines that ended in the two-byte terminator.
pub open spec fn strip_cr(l: Seq<u8>) -> Seq<u8> {
    if l.len() > 0 && l.last() == '\r' as u8 {
        l.drop_last()
    } else {
        l
    }
}

/// The lines of `s`: segments between newline bytes, each with one trailing
/// carriage return removed; a final segment is a line only if non-empty.
pub open spec fn lines_of(s: Seq<u8>) -> Seq<Seq<u8>>
    decreases s.len(),
    via lines_of_decreases
{
    if s.len() == 0 {
        seq![]
    } else {
        match index_of_byte(s, '\n' as u8) {
            Some(i) => seq![strip_cr(s.take(i))] + lines_of(s.skip(i + 1)),
            None => seq![s],
        }
    }
}

#[via_fn]
proof fn lines_of_decreases(s: Seq<u8>) {
    lemma_index_of_byte(s, '\n' as u8);
}

/// Splits `s` into its lines, as `lines_of` describes them.
pub fn split_lines(s: &[u8]) -> (r: Vec<Vec<u8>>)
    ensures
        r.deep_view() == lines_of(s@),
{
    let mut r: Vec<Vec<u8>> = Vec::new();
    let mut rem: &[u8] = s;
    while rem.len() > 0
        invariant
            lines_of(s@) == r.deep_view() + lines_of(rem@),
        decreases rem@.len(),
    {
        let ghost prev = r.deep_view();
        let ghost old_rem = rem@;
        match find_byte(rem, '\n' as u8) {
            Some(i) => {
                proof {
                    lemma_index_of_byte(old_rem, '\n' as u8);
                }
                let line_end = if i > 0 && rem[i - 1] == '\r' as u8 {
                    i - 1
                } else {
                    i
                };
                proof {
                    if i > 0 && old_rem[i as int - 1] == '\r' as u8 {
                        assert(old_rem.take(i as int).drop_last() =~= old_rem.subrange(
                            0,
                            i as int - 1,
                        ));
                    }
                    assert(strip_cr(old_rem.take(i as int)) =~= old_rem.subrange(
                        0,
                        line_end as int,
                    ));
                }
                let line = slice_to_vec(slice_subrange(rem, 0, line_end));
                r.push(line);
                rem = slice_subrange(rem, i + 1, rem.len());
                proof {
                    assert(rem@ =~= old_rem.skip(i as int + 1));
                    assert(r.deep_view() =~~= prev.push(strip_cr(old_rem.take(i as int))));
                    assert(prev.push(strip_cr(old_rem.take(i as int))) + lines_of(rem@) =~= prev + (
                    seq![strip_cr(old_rem.take(i as int))] + lines_of(old_rem.skip(i as int + 1))));
                }
            },
            None => {
                let line = slice_to_vec(rem);
                r.push(line);
                rem = slice_subrange(rem, rem.len(), rem.len());
                proof {
                    assert(rem@.len() == 0);
                    assert(r.deep_view() =~~= prev.push(old_rem));
                    assert(prev.push(old_rem) + lines_of(rem@) =~= prev + seq![old_rem]);
                }
            },
        }
    }
    proof {
        assert(lines_of(rem@) =~= Seq::<Seq<u8>>::empty());
        assert(r.deep_view() + lines_of(rem@) =~= r.deep_view());
    }
    r
}

/// Length of the leading whitespace-free run of `s`.
pub open spec fn token_len(s: Seq<u8>) -> int
    decreases s.len(),
{
    if s.len() == 0 || is_space(s[0]) {
        0
    } else {
        1 + token_len(s.drop_first())
    }
}

/// The first whitespace-separated token of `s`; empty when `s` holds none.
pub open spec fn first_token(s: Seq<u8>) -> Seq<u8> {
    let t = trim_start_spec(s);
    t.take(token_len(t))
}

/// What follows the first whitespace-separated token of `s`.
pub open spec fn after_first_token(s: Seq<u8>) -> Seq<u8> {
    let t = trim_start_spec(s);
    t.skip(token_len(t))
}

/// Index where the leading ASCII whitespace of `s` ends.
fn skip_spaces_index(s: &[u8]) -> (lo: usize)
    ensures
        lo <= s@.len(),
        trim_start_spec(s@) == s@.subrange(lo as int, s@.len() as int),
{
    let mut lo: usize = 0;
    proof {
        assert(s@.subrange(0, s@.len() as int) =~= s@);
    }
    while lo < s.len() && is_space_byte(s[lo])
        invariant
            lo <= s@.len(),
            trim_start_spec(s@) == trim_start_spec(s@.subrange(lo as int, s@.len() as int)),
        decreases s@.len() - lo,
    {
        proof {
            assert(s@.subrange(lo as int, s@.len() as int).drop_first() =~= s@.subrange(
                lo as int + 1,
                s@.len() as int,
            ));
        }
        lo = lo + 1;
    }
    proof {
        let t = s@.subrange(lo as int, s@.len() as int);
        if lo < s@.len() {
            assert(t[0] == s@[lo as int]);
        }
        assert(trim_start_spec(s@) == t);
    }
    lo
}

/// Copies the first whitespace-separated token of `s`, and reports the index
/// where the search for the next token resumes.
pub fn take_token(s: &[u8]) -> (r: (Vec<u8>, usize))
    ensures
        r.0@ == first_token(s@),
        r.1 <= s@.len(),
        s@.subrange(r.1 as int, s@.len() as int) == after_first_token(s@),
{
    let n = s.len();
    let lo = skip_spaces_index(s);
    let ghost t = trim_start_spec(s@);
    let mut hi: usize = lo;
    while hi < n && !is_space_byte(s[hi])
        invariant
            lo <= hi <= s@.len(),
            n == s@.len(),
            t == s@.subrange(lo as int, s@.len() as int),
            token_len(t) == (hi - lo) + token_len(s@.subrange(hi as int, s@.len() as int)),
        decreases s@.len() - hi,
    {
        proof {
            let cur = s@.subrange(hi as int, s@.len() as int);
            assert(cur[0] == s@[hi as int]);
            assert(cur.drop_first() =~= s@.subrange(hi as int + 1, s@.len() as int));
        }
        hi = hi + 1;
    }
    proof {
        let cur = s@.subrange(hi as int, s@.len() as int);
        if hi < s@.len() {
            assert(cur[0] == s@[hi as int]);
        }
        assert(token_len(cur) == 0);
        assert(token_len(t) == hi - lo);
        assert(t.take(hi - lo) =~= s@.subrange(lo as int, hi as int));
        assert(t.skip(hi - lo) =~= s@.subrange(hi as int, s@.len() as int));
    }
    (slice_to_vec(slice_subrange(s, lo, hi)), hi)
}

} // verus!
