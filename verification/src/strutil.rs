//! Character-sequence utilities: splitting a domain into labels on `'.'`,
//! joining labels back, substring search and ASCII-case-insensitive equality.

use vstd::prelude::*;
use vstd::string::StrSliceExecFns;
use vstd::string::StringExecFns;

verus! {

/// Index of the first `'.'` in `s`, or `s.len()` when `s` holds none.
pub open spec fn first_dot(s: Seq<char>) -> int
    decreases s.len(),
{
    if s.len() == 0 {
        0
    } else if s[0] == '.' {
        0
    } else {
        1 + first_dot(s.drop_first())
    }
}

pub proof fn lemma_first_dot_bounds(s: Seq<char>)
    ensures
        0 <= first_dot(s) <= s.len(),
        first_dot(s) < s.len() ==> s[first_dot(s)] == '.',
        forall|j: int| 0 <= j < first_dot(s) ==> s[j] != '.',
    decreases s.len(),
{
    if s.len() == 0 {
    } else if s[0] == '.' {
    } else {
        lemma_first_dot_bounds(s.drop_first());
        assert forall|j: int| 0 <= j < first_dot(s) implies s[j] != '.' by {
            if j > 0 {
                assert(s.drop_first()[j - 1] != '.');
            }
        }
    }
}

/// `first_dot` is determined by any position `k` that is the first dot
/// (or the length, when no dot occurs).
pub proof fn lemma_first_dot_at(s: Seq<char>, k: int)
    requires
        0 <= k <= s.len(),
        forall|j: int| 0 <= j < k ==> s[j] != '.',
        k < s.len() ==> s[k] == '.',
    ensures
        first_dot(s) == k,
    decreases s.len(),
{
    if s.len() == 0 {
    } else if k == 0 {
        if s.len() > 0 && s[0] != '.' {
            lemma_first_dot_bounds(s.drop_first());
        }
    } else {
        assert(s[0] != '.');
        assert forall|j: int| 0 <= j < k - 1 implies s.drop_first()[j] != '.' by {
            assert(s[j + 1] != '.');
        }
        lemma_first_dot_at(s.drop_first(), k - 1);
    }
}

/// The labels of `s`: the maximal dot-free pieces between the dots.
/// Every sequence has at least one label; `"".split('.')` is one empty label.
pub open spec fn spec_split(s: Seq<char>) -> Seq<Seq<char>>
    decreases s.len(),
    via spec_split_decreases
{
    let i = first_dot(s);
    if i == s.len() {
        seq![s]
    } else {
        seq![s.take(i)] + spec_split(s.skip(i + 1))
    }
}

#[via_fn]
proof fn spec_split_decreases(s: Seq<char>) {
    lemma_first_dot_bounds(s);
}

/// Joining labels with `'.'` between them.
pub open spec fn spec_join(ls: Seq<Seq<char>>) -> Seq<char>
    decreases ls.len(),
{
    if ls.len() == 0 {
        Seq::empty()
    } else if ls.len() == 1 {
        ls[0]
    } else {
        ls[0] + seq!['.'] + spec_join(ls.drop_first())
    }
}

pub proof fn lemma_split_len(s: Seq<char>)
    ensures
        spec_split(s).len() >= 1,
    decreases s.len(),
{
    lemma_first_dot_bounds(s);
}

/// Splitting and re-joining gives the sequence back.
pub proof fn lemma_join_split(s: Seq<char>)
    ensures
        spec_join(spec_split(s)) == s,
    decreases s.len(),
{
    lemma_first_dot_bounds(s);
    let i = first_dot(s);
    if i == s.len() {
    } else {
        lemma_join_split(s.skip(i + 1));
        lemma_split_len(s.skip(i + 1));
        let parts = spec_split(s);
        assert(parts.drop_first() == spec_split(s.skip(i + 1)));
        assert(spec_join(parts) == s.take(i) + seq!['.'] + s.skip(i + 1));
        assert(s.take(i) + seq!['.'] + s.skip(i + 1) =~= s);
    }
}

/// No label produced by `spec_split` contains a dot.
pub proof fn lemma_split_labels_dot_free(s: Seq<char>)
    ensures
        forall|k: int|
            0 <= k < spec_split(s).len() ==> !(#[trigger] spec_split(s)[k]).contains('.'),
    decreases s.len(),
{
    lemma_first_dot_bounds(s);
    let i = first_dot(s);
    if i == s.len() {
        assert forall|k: int|
            0 <= k < spec_split(s).len() implies !(#[trigger] spec_split(s)[k]).contains(
            '.',
        ) by {
            assert(spec_split(s)[k] == s);
            if s.contains('.') {
                let j = choose|j: int| 0 <= j < s.len() && s[j] == '.';
                assert(false);
            }
        }
    } else {
        lemma_split_labels_dot_free(s.skip(i + 1));
        assert forall|k: int|
            0 <= k < spec_split(s).len() implies !(#[trigger] spec_split(s)[k]).contains(
            '.',
        ) by {
            if k == 0 {
                assert(spec_split(s)[0] == s.take(i));
                if s.take(i).contains('.') {
                    let j = choose|j: int| 0 <= j < i && s.take(i)[j] == '.';
                    assert(s[j] == '.');
                    assert(false);
                }
            } else {
                assert(spec_split(s)[k] == spec_split(s.skip(i + 1))[k - 1]);
            }
        }
    }
}

/// Splitting a join of dot-free labels gives the labels back.
pub proof fn lemma_split_join(ls: Seq<Seq<char>>)
    requires
        ls.len() >= 1,
        forall|k: int| 0 <= k < ls.len() ==> !(#[trigger] ls[k]).contains('.'),
    ensures
        spec_split(spec_join(ls)) == ls,
    decreases ls.len(),
{
    let s = spec_join(ls);
    if ls.len() == 1 {
        assert forall|j: int| 0 <= j < s.len() implies s[j] != '.' by {
            assert(ls[0].contains('.') <== (0 <= j < ls[0].len() && ls[0][j] == '.'));
        }
        lemma_first_dot_at(s, s.len() as int);
    } else {
        let head = ls[0];
        let rest = spec_join(ls.drop_first());
        assert(s == head + seq!['.'] + rest);
        assert forall|j: int| 0 <= j < head.len() implies s[j] != '.' by {
            assert(s[j] == head[j]);
            assert(head.contains('.') <== (0 <= j < head.len() && head[j] == '.'));
        }
        assert(s[head.len() as int] == '.');
        lemma_first_dot_at(s, head.len() as int);
        assert(s.take(head.len() as int) =~= head);
        assert(s.skip(head.len() as int + 1) =~= rest);
        assert forall|k: int|
            0 <= k < ls.drop_first().len() implies !(#[trigger] ls.drop_first()[k]).contains(
            '.',
        ) by {
            assert(ls.drop_first()[k] == ls[k + 1]);
        }
        lemma_split_join(ls.drop_first());
        assert(spec_split(s) =~= ls);
    }
}

/// Joining one more label appends a dot and the label.
pub proof fn lemma_join_push(ls: Seq<Seq<char>>, x: Seq<char>)
    requires
        ls.len() >= 1,
    ensures
        spec_join(ls.push(x)) == spec_join(ls) + seq!['.'] + x,
    decreases ls.len(),
{
    if ls.len() == 1 {
        let lp = ls.push(x);
        assert(lp[0] == ls[0]);
        assert(lp.drop_first() =~= seq![x]);
        assert(spec_join(seq![x]) == x);
        assert(spec_join(lp) == lp[0] + seq!['.'] + spec_join(lp.drop_first()));
        assert(spec_join(ls) == ls[0]);
    } else {
        assert(ls.push(x).drop_first() =~= ls.drop_first().push(x));
        lemma_join_push(ls.drop_first(), x);
        assert(spec_join(ls.push(x)) == ls[0] + seq!['.'] + (spec_join(ls.drop_first()) + seq![
            '.',
        ] + x));
        assert(ls[0] + seq!['.'] + (spec_join(ls.drop_first()) + seq!['.'] + x) =~= (ls[0] + seq![
            '.',
        ] + spec_join(ls.drop_first())) + seq!['.'] + x);
    }
}

/// A sequence has at most one label more than it has characters.
pub proof fn lemma_split_count_le(s: Seq<char>)
    ensures
        spec_split(s).len() <= s.len() + 1,
    decreases s.len(),
{
    lemma_first_dot_bounds(s);
    let i = first_dot(s);
    if i == s.len() {
    } else {
        lemma_split_count_le(s.skip(i + 1));
    }
}

/// `s` starts with `p`.
pub fn str_starts_with(s: &str, p: &str) -> (b: bool)
    ensures
        b == p@.is_prefix_of(s@),
{
    let n = s.unicode_len();
    let m = p.unicode_len();
    if m > n {
        return false;
    }
    let mut i: usize = 0;
    while i < m
        invariant
            m <= n,
            i <= m,
            n == s@.len(),
            m == p@.len(),
            forall|j: int| 0 <= j < i ==> s@[j] == p@[j],
        decreases m - i,
    {
        if s.get_char(i) != p.get_char(i) {
            proof {
                assert(s@.subrange(0, m as int)[i as int] != p@[i as int]);
            }
            return false;
        }
        i += 1;
    }
    proof {
        assert(p@ =~= s@.subrange(0, m as int));
    }
    true
}

/// `p` occurs in `s` starting at position `i`.
pub open spec fn spec_match_at(s: Seq<char>, p: Seq<char>, i: int) -> bool {
    0 <= i && i + p.len() <= s.len() && s.subrange(i, i + p.len()) == p
}

/// `p` occurs somewhere in `s`.
pub open spec fn spec_contains(s: Seq<char>, p: Seq<char>) -> bool {
    exists|i: int| spec_match_at(s, p, i)
}

fn match_at(s: &str, p: &str, i: usize) -> (b: bool)
    requires
        i + p@.len() <= s@.len(),
    ensures
        b == spec_match_at(s@, p@, i as int),
{
    let sn = s.unicode_len();
    let m = p.unicode_len();
    let mut j: usize = 0;
    while j < m
        invariant
            j <= m,
            m == p@.len(),
            sn == s@.len(),
            i + m <= sn,
            forall|k: int| 0 <= k < j ==> s@[i + k] == p@[k],
        decreases m - j,
    {
        if s.get_char(i + j) != p.get_char(j) {
            proof {
                assert(s@.subrange(i as int, i + m)[j as int] != p@[j as int]);
            }
            return false;
        }
        j += 1;
    }
    proof {
        assert(s@.subrange(i as int, i + m) =~= p@);
    }
    true
}

/// Substring search.
pub fn str_contains(s: &str, p: &str) -> (b: bool)
    ensures
        b == spec_contains(s@, p@),
{
    let n = s.unicode_len();
    let m = p.unicode_len();
    if m > n {
        proof {
            assert(forall|i: int| !spec_match_at(s@, p@, i));
        }
        return false;
    }
    if m == 0 {
        proof {
            assert(s@.subrange(0, 0) =~= p@);
            assert(spec_match_at(s@, p@, 0));
        }
        return true;
    }
    let mut i: usize = 0;
    while i <= n - m
        invariant
            1 <= m <= n,
            i <= n - m + 1,
            n == s@.len(),
            m == p@.len(),
            forall|j: int| 0 <= j < i ==> !spec_match_at(s@, p@, j),
        decreases n - i,
    {
        if match_at(s, p, i) {
            return true;
        }
        i += 1;
    }
    proof {
        assert(forall|j: int| j >= i ==> !spec_match_at(s@, p@, j));
    }
    false
}

/// Number of positions at which `p` occurs in `s`, counted from position `i` on.
pub open spec fn spec_count_from(s: Seq<char>, p: Seq<char>, i: int) -> nat
    decreases s.len() - i,
{
    if p.len() == 0 || i < 0 || i + p.len() > s.len() {
        0
    } else {
        (if spec_match_at(s, p, i) {
            1nat
        } else {
            0nat
        }) + spec_count_from(s, p, i + 1)
    }
}

/// Number of positions at which `p` occurs in `s`.
pub open spec fn spec_count(s: Seq<char>, p: Seq<char>) -> nat {
    spec_count_from(s, p, 0)
}

pub proof fn lemma_count_from_le(s: Seq<char>, p: Seq<char>, i: int)
    requires
        i >= 0,
    ensures
        spec_count_from(s, p, i) <= s.len(),
    decreases s.len() - i,
{
    if p.len() == 0 || i + p.len() > s.len() {
    } else {
        lemma_count_from_le(s, p, i + 1);
        assert(spec_count_from(s, p, i + 1) + 1 <= s.len()) by {
            lemma_count_from_tail_le(s, p, i + 1);
        }
    }
}

proof fn lemma_count_from_tail_le(s: Seq<char>, p: Seq<char>, i: int)
    requires
        i >= 0,
    ensures
        spec_count_from(s, p, i) <= s.len() - i || spec_count_from(s, p, i) == 0,
    decreases s.len() - i,
{
    if p.len() == 0 || i + p.len() > s.len() {
    } else {
        lemma_count_from_tail_le(s, p, i + 1);
    }
}

/// Count the positions at which `p` occurs in `s`.
pub fn count_occurrences(s: &str, p: &str) -> (n: usize)
    ensures
        n == spec_count(s@, p@),
{
    let sn = s.unicode_len();
    let m = p.unicode_len();
    if m == 0 || m > sn {
        return 0;
    }
    let mut i: usize = 0;
    let mut cnt: usize = 0;
    while i <= sn - m
        invariant
            1 <= m <= sn,
            i <= sn - m + 1,
            cnt <= i,
            sn == s@.len(),
            m == p@.len(),
            cnt + spec_count_from(s@, p@, i as int) == spec_count(s@, p@),
        decreases sn - i,
    {
        if match_at(s, p, i) {
            cnt += 1;
        }
        i += 1;
    }
    cnt
}

/// Code point of the ASCII lowercase of one character; other characters are
/// untouched.
pub open spec fn spec_lower_code(c: char) -> int {
    if 'A' <= c <= 'Z' {
        c as u32 + 32
    } else {
        c as u32 as int
    }
}

/// Equality up to ASCII case.
pub open spec fn spec_eq_ignore_ascii_case(a: Seq<char>, b: Seq<char>) -> bool {
    a.len() == b.len() && (forall|i: int|
        0 <= i < a.len() ==> spec_lower_code(a[i]) == spec_lower_code(b[i]))
}

fn lower_code(c: char) -> (r: u32)
    ensures
        r == spec_lower_code(c),
{
    if 'A' <= c && c <= 'Z' {
        c as u32 + 32
    } else {
        c as u32
    }
}

/// Compare two strings ignoring ASCII case.
pub fn str_eq_ignore_ascii_case(a: &str, b: &str) -> (r: bool)
    ensures
        r == spec_eq_ignore_ascii_case(a@, b@),
{
    let n = a.unicode_len();
    if n != b.unicode_len() {
        return false;
    }
    let mut i: usize = 0;
    while i < n
        invariant
            i <= n,
            n == a@.len(),
            n == b@.len(),
            forall|j: int| 0 <= j < i ==> spec_lower_code(a@[j]) == spec_lower_code(b@[j]),
        decreases n - i,
    {
        if lower_code(a.get_char(i)) != lower_code(b.get_char(i)) {
            return false;
        }
        i += 1;
    }
    true
}

/// Split `s` into its labels.
pub fn split_on_dots(s: &str) -> (r: Vec<String>)
    ensures
        r.deep_view() == spec_split(s@),
        r.len() >= 1,
{
    let n = s.unicode_len();
    let mut r: Vec<String> = Vec::new();
    let mut start: usize = 0;
    let mut i: usize = 0;
    proof {
        assert(r.deep_view() =~= Seq::<Seq<char>>::empty());
        assert(s@.skip(0) =~= s@);
        assert(Seq::<Seq<char>>::empty() + spec_split(s@) =~= spec_split(s@));
    }
    while i < n
        invariant
            start <= i <= n,
            n == s@.len(),
            forall|j: int| start <= j < i ==> s@[j] != '.',
            spec_split(s@) == r.deep_view() + spec_split(s@.skip(start as int)),
        decreases n - i,
    {
        if s.get_char(i) == '.' {
            let label = s.substring_char(start, i);
            let ghost old_r = r.deep_view();
            r.push(label.to_owned());
            proof {
                let tail = s@.skip(start as int);
                assert forall|j: int| 0 <= j < i - start implies tail[j] != '.' by {
                    assert(s@[start + j] != '.');
                }
                assert(tail[i - start] == '.');
                lemma_first_dot_at(tail, i - start);
                assert(tail.take(i - start) =~= s@.subrange(start as int, i as int));
                assert(tail.skip(i - start + 1) =~= s@.skip(i + 1));
                assert(spec_split(tail) == seq![s@.subrange(start as int, i as int)] + spec_split(
                    s@.skip(i + 1),
                ));
                assert(r.deep_view() =~= old_r.push(s@.subrange(start as int, i as int)));
                assert(r.deep_view() + spec_split(s@.skip(i + 1)) =~= old_r + spec_split(
                    s@.skip(start as int),
                ));
            }
            start = i + 1;
        }
        i += 1;
    }
    let last = s.substring_char(start, n);
    let ghost old_r = r.deep_view();
    r.push(last.to_owned());
    proof {
        let tail = s@.skip(start as int);
        assert forall|j: int| 0 <= j < tail.len() implies tail[j] != '.' by {
            assert(s@[start + j] != '.');
        }
        lemma_first_dot_at(tail, tail.len() as int);
        assert(tail =~= s@.subrange(start as int, n as int));
        assert(spec_split(tail) == seq![tail]);
        assert(r.deep_view() =~= old_r.push(tail));
        assert(r.deep_view() =~= old_r + spec_split(s@.skip(start as int)));
    }
    r
}

/// Join labels with dots.
pub fn join_with_dots(ls: &Vec<String>) -> (r: String)
    ensures
        r@ == spec_join(ls.deep_view()),
{
    if ls.len() == 0 {
        return String::new();
    }
    let mut out: String = ls[0].clone();
    let mut k: usize = 1;
    while k < ls.len()
        invariant
            1 <= k <= ls.len(),
            out@ == spec_join(ls.deep_view().take(k as int)),
        decreases ls.len() - k,
    {
        out.append(".");
        out.append(ls[k].as_str());
        proof {
            let dv = ls.deep_view();
            assert(dv.take(k as int).len() == k);
            lemma_join_push(dv.take(k as int), dv[k as int]);
            assert(dv.take(k + 1) =~= dv.take(k as int).push(dv[k as int]));
            reveal_strlit(".");
            assert("."@ =~= seq!['.']);
        }
        k += 1;
    }
    proof {
        assert(ls.deep_view().take(ls.len() as int) =~= ls.deep_view());
    }
    out
}

} // verus!
