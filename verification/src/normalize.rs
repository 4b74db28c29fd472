//! Domain normalization: wildcard stripping and punycode decoding of
//! `xn--`-prefixed labels.

use vstd::prelude::*;
use vstd::string::StrSliceExecFns;

use crate::strutil::{
    lemma_join_split, lemma_split_join, lemma_split_labels_dot_free, lemma_split_len, spec_count,
    spec_join, spec_split, count_occurrences, split_on_dots, join_with_dots, str_starts_with,
};

verus! {

/// What `idna::punycode::decode` returns on a label body (the part after the
/// `xn--` prefix): the decoded code points, or nothing on malformed input.
pub uninterp spec fn puny_decode(s: Seq<char>) -> Option<Seq<char>>;

/// Relies on `idna::punycode::decode` (RFC 3492): its result depends on the
/// input characters alone; it returns `None` on malformed input or overflow
/// and never panics.
#[verifier::external_body]
fn decode_punycode_label(s: &str) -> (r: Option<String>)
    ensures
        match r {
            Some(t) => puny_decode(s@) == Some(t@),
            None => puny_decode(s@) is None,
        },
{
    idna::punycode::decode(s).map(|chars| chars.into_iter().collect())
}

/// The normalized form of one label: an `xn--` label is replaced by its
/// punycode decoding when that decoding succeeds; any other label — including
/// an `xn--` label that fails to decode — passes through unchanged.
pub open spec fn spec_normalize_label(l: Seq<char>) -> Seq<char> {
    if "xn--"@.is_prefix_of(l) {
        match puny_decode(l.skip(4)) {
            Some(d) => d,
            None => l,
        }
    } else {
        l
    }
}

/// A leading `*.` wildcard marker is removed, exactly once.
pub open spec fn spec_strip_wildcard(s: Seq<char>) -> Seq<char> {
    if "*."@.is_prefix_of(s) {
        s.skip(2)
    } else {
        s
    }
}

/// Each label of a sequence of labels, normalized; the label count is
/// preserved.
pub open spec fn spec_normalize_labels(ls: Seq<Seq<char>>) -> Seq<Seq<char>> {
    Seq::new(ls.len(), |i: int| spec_normalize_label(ls[i]))
}

/// The normalized form of a raw domain: the wildcard marker is stripped, each
/// label is normalized, and the labels are rejoined with dots.
pub open spec fn spec_normalize(s: Seq<char>) -> Seq<char> {
    spec_join(spec_normalize_labels(spec_split(spec_strip_wildcard(s))))
}

/// Remove a leading `*.`, exactly once.
pub fn strip_wildcard(s: &str) -> (r: &str)
    ensures
        r@ == spec_strip_wildcard(s@),
        r@.len() <= s@.len(),
{
    if str_starts_with(s, "*.") {
        proof {
            reveal_strlit("*.");
        }
        s.substring_char(2, s.unicode_len())
    } else {
        s
    }
}

/// Normalize a raw domain: strip a leading `*.` and decode every `xn--`
/// label; a label that fails to decode stays unchanged.
pub fn normalize_domain(raw: &str) -> (r: String)
    ensures
        r@ == spec_normalize(raw@),
{
    let stripped = strip_wildcard(raw);
    let labels = split_on_dots(stripped);
    let mut out: Vec<String> = Vec::new();
    let ghost lv = labels.deep_view();
    let mut k: usize = 0;
    while k < labels.len()
        invariant
            k <= labels.len(),
            lv == labels.deep_view(),
            out.deep_view().len() == k,
            forall|i: int|
                0 <= i < k ==> out.deep_view()[i] == spec_normalize_label(#[trigger] lv[i]),
        decreases labels.len() - k,
    {
        let label = &labels[k];
        proof {
            assert(lv[k as int] == labels@[k as int]@);
            assert(label@ == lv[k as int]);
        }
        let new_label: String;
        if str_starts_with(label.as_str(), "xn--") {
            proof {
                reveal_strlit("xn--");
            }
            let body = label.as_str().substring_char(4, label.as_str().unicode_len());
            proof {
                assert(body@ =~= lv[k as int].skip(4));
            }
            match decode_punycode_label(body) {
                Some(decoded) => {
                    new_label = decoded;
                },
                None => {
                    new_label = label.clone();
                },
            }
        } else {
            new_label = label.clone();
        }
        proof {
            assert(new_label@ == spec_normalize_label(lv[k as int]));
        }
        let ghost old_out = out.deep_view();
        out.push(new_label);
        proof {
            assert(out.deep_view() =~= old_out.push(new_label@));
        }
        k += 1;
    }
    proof {
        assert(out.deep_view() =~= spec_normalize_labels(lv));
    }
    join_with_dots(&out)
}

/// Count the `xn--` markers in a domain, the signal that it was
/// punycode-encoded.
pub fn count_punycode_markers(s: &str) -> (n: usize)
    ensures
        n == spec_count(s@, "xn--"@),
{
    count_occurrences(s, "xn--")
}

/// An already-normalized domain is a fixed point of normalization: when it
/// does not carry a wildcard marker and each of its labels already normalizes
/// to itself (it does not start with `xn--`, or fails to decode), normalizing
/// it gives the same string back.
pub proof fn lemma_normalize_fixed_point(t: Seq<char>)
    requires
        !"*."@.is_prefix_of(t),
        forall|k: int|
            0 <= k < spec_split(t).len() ==> spec_normalize_label(#[trigger] spec_split(t)[k])
                == spec_split(t)[k],
    ensures
        spec_normalize(t) == t,
{
    assert(spec_strip_wildcard(t) == t);
    let ls = spec_split(t);
    assert(spec_normalize_labels(ls) =~= ls);
    lemma_join_split(t);
}

/// Normalization is idempotent: normalizing an already-normalized domain —
/// one whose normal form carries no wildcard marker and no decodable or
/// dotted label — yields the same string.
pub proof fn lemma_normalize_idempotent(s: Seq<char>)
    requires
        !"*."@.is_prefix_of(spec_normalize(s)),
        forall|k: int|
            0 <= k < spec_split(spec_normalize(s)).len() ==> spec_normalize_label(
                #[trigger] spec_split(spec_normalize(s))[k],
            ) == spec_split(spec_normalize(s))[k],
    ensures
        spec_normalize(spec_normalize(s)) == spec_normalize(s),
{
    lemma_normalize_fixed_point(spec_normalize(s));
}

/// Decoding never crosses label boundaries: as long as no label decodes to
/// text with a dot in it, the labels of the normalized domain are exactly the
/// labelwise-normalized labels of the (wildcard-stripped) raw domain, and the
/// label count is preserved.
pub proof fn lemma_label_count_preserved(s: Seq<char>)
    requires
        forall|k: int|
            0 <= k < spec_split(spec_strip_wildcard(s)).len() ==> (match puny_decode(
                (#[trigger] spec_split(spec_strip_wildcard(s))[k]).skip(4),
            ) {
                Some(d) => !d.contains('.'),
                None => true,
            }),
    ensures
        spec_split(spec_normalize(s)) == spec_normalize_labels(spec_split(spec_strip_wildcard(s))),
        spec_split(spec_normalize(s)).len() == spec_split(spec_strip_wildcard(s)).len(),
{
    let t = spec_strip_wildcard(s);
    let ls = spec_split(t);
    let nls = spec_normalize_labels(ls);
    lemma_split_len(t);
    lemma_split_labels_dot_free(t);
    assert forall|k: int| 0 <= k < nls.len() implies !(#[trigger] nls[k]).contains('.') by {
        let l = ls[k];
        if "xn--"@.is_prefix_of(l) {
            match puny_decode(l.skip(4)) {
                Some(d) => {
                    assert(nls[k] == d);
                },
                None => {
                    assert(nls[k] == l);
                },
            }
        } else {
            assert(nls[k] == l);
        }
    }
    lemma_split_join(nls);
}

/// A domain with no `xn--` label and no wildcard marker normalizes to itself.
pub proof fn lemma_no_punycode_unchanged(t: Seq<char>)
    requires
        !"*."@.is_prefix_of(t),
        forall|k: int|
            0 <= k < spec_split(t).len() ==> !"xn--"@.is_prefix_of(#[trigger] spec_split(t)[k]),
    ensures
        spec_normalize(t) == t,
{
    lemma_normalize_fixed_point(t);
}

} // verus!
