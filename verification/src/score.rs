//! The scoring engine: a fixed family of heuristics summed into one
//! non-negative integer score.

use vstd::prelude::*;
use vstd::string::StrSliceExecFns;

use crate::strutil::{
    lemma_split_count_le, lemma_count_from_le, spec_contains, spec_count,
    spec_eq_ignore_ascii_case, spec_split, count_occurrences, split_on_dots, str_contains,
    str_eq_ignore_ascii_case,
};

verus! {

/// Longest domain string the scorer accepts; far above the DNS limit of 253
/// octets, and small enough that no heuristic sum can overflow a `usize`.
pub const MAX_DOMAIN_LEN: usize = 65536;

/// Largest keyword set the scorer accepts; keeps the keyword contributions
/// within `usize`.
pub const MAX_KEYWORDS: usize = 65536;

/// What `strsim::damerau_levenshtein` returns: the number of insertions,
/// deletions, substitutions and adjacent transpositions needed to turn `a`
/// into `b`.
pub uninterp spec fn damerau_levenshtein_dist(a: Seq<char>, b: Seq<char>) -> nat;

/// Relies on `strsim::damerau_levenshtein`: its result depends on the two
/// argument strings alone.
#[verifier::external_body]
fn edit_distance(a: &str, b: &str) -> (d: usize)
    ensures
        d == damerau_levenshtein_dist(a@, b@),
{
    strsim::damerau_levenshtein(a, b)
}

/// Contribution of one keyword contained in a label: ten times the
/// heuristic's weight.
pub open spec fn spec_containment_score(name: Seq<char>, key: Seq<char>, weight: nat) -> nat {
    if spec_contains(name, key) {
        10 * weight
    } else {
        0
    }
}

/// A label contains a keyword: `10 × weight` points.
pub fn domain_keywords(name: &str, key: &str, weight: usize) -> (score: usize)
    requires
        weight <= usize::MAX / 10,
    ensures
        score == spec_containment_score(name@, key@, weight as nat),
{
    if str_contains(name, key) {
        10 * weight
    } else {
        0
    }
}

/// Contribution of one keyword equal to a label up to ASCII case: ten times
/// the heuristic's weight.
pub open spec fn spec_exact_match_score(name: Seq<char>, key: Seq<char>, weight: nat) -> nat {
    if spec_eq_ignore_ascii_case(name, key) {
        10 * weight
    } else {
        0
    }
}

/// A label equals a keyword up to ASCII case: `10 × weight` points.
pub fn domain_keywords_exact_match(name: &str, key: &str, weight: usize) -> (score: usize)
    requires
        weight <= usize::MAX / 10,
    ensures
        score == spec_exact_match_score(name@, key@, weight as nat),
{
    if str_eq_ignore_ascii_case(name, key) {
        10 * weight
    } else {
        0
    }
}

/// Contribution of one keyword at edit distance exactly one from a label:
/// the typosquatting near-miss detector.
pub open spec fn spec_fuzzy_score(name: Seq<char>, key: Seq<char>) -> nat {
    if damerau_levenshtein_dist(name, key) == 1 {
        40
    } else {
        0
    }
}

/// A label at Damerau–Levenshtein distance exactly one from a keyword —
/// not at distance zero, and not further away — scores 40 points.
pub fn calc_string_edit_distance(name: &str, key: &str) -> (score: usize)
    ensures
        score == spec_fuzzy_score(name@, key@),
{
    if edit_distance(name, key) == 1 {
        40
    } else {
        0
    }
}

/// Contribution of the label-nesting heuristic: three points per label once
/// a domain has at least three of them.
pub open spec fn spec_nesting_score(domain: Seq<char>) -> nat {
    if spec_split(domain).len() >= 3 {
        3 * spec_split(domain).len()
    } else {
        0
    }
}

/// Deep nesting: a domain of at least three labels scores three points per
/// label.
pub fn deeply_nested(domain: &str) -> (score: usize)
    requires
        domain@.len() <= MAX_DOMAIN_LEN,
    ensures
        score == spec_nesting_score(domain@),
{
    let labels = split_on_dots(domain);
    proof {
        lemma_split_count_le(domain@);
    }
    if labels.len() >= 3 {
        3 * labels.len()
    } else {
        0
    }
}

/// Contribution of the punycode-presence heuristic: five points per `xn--`
/// marker in the raw domain.
pub open spec fn spec_punycode_score(raw: Seq<char>) -> nat {
    5 * spec_count(raw, "xn--"@)
}

/// Five points for each `xn--` marker in the raw domain.
pub fn punycode_score(raw: &str) -> (score: usize)
    requires
        raw@.len() <= MAX_DOMAIN_LEN,
    ensures
        score == spec_punycode_score(raw@),
{
    proof {
        lemma_count_from_le(raw@, "xn--"@, 0);
    }
    5 * count_occurrences(raw, "xn--")
}

/// Contribution of one keyword against the first label of the registrable
/// root and the first label of the subdomain: containment weighs 4 on the
/// root and 6 on the subdomain; a near miss weighs 40 on either.
pub open spec fn spec_keyword_score(root0: Seq<char>, sub0: Seq<char>, key: Seq<char>) -> nat {
    spec_containment_score(root0, key, 4) + spec_fuzzy_score(root0, key) + spec_containment_score(
        sub0,
        key,
        6,
    ) + spec_fuzzy_score(sub0, key)
}

/// The keyword contributions summed over a whole keyword set.
pub open spec fn spec_keywords_score(root0: Seq<char>, sub0: Seq<char>, keys: Seq<Seq<char>>) -> nat
    decreases keys.len(),
{
    if keys.len() == 0 {
        0
    } else {
        spec_keyword_score(root0, sub0, keys[0]) + spec_keywords_score(
            root0,
            sub0,
            keys.drop_first(),
        )
    }
}

pub proof fn lemma_keywords_score_le(root0: Seq<char>, sub0: Seq<char>, keys: Seq<Seq<char>>)
    ensures
        spec_keywords_score(root0, sub0, keys) <= 180 * keys.len(),
    decreases keys.len(),
{
    if keys.len() == 0 {
    } else {
        lemma_keywords_score_le(root0, sub0, keys.drop_first());
        assert(spec_keyword_score(root0, sub0, keys[0]) <= 180);
    }
}

/// Score every keyword of the set against the root's first label and the
/// subdomain's first label.
pub fn keywords_score(root0: &str, sub0: &str, keywords: &Vec<String>) -> (score: usize)
    requires
        keywords@.len() <= MAX_KEYWORDS,
    ensures
        score == spec_keywords_score(root0@, sub0@, keywords.deep_view()),
{
    let ghost kv = keywords.deep_view();
    let mut score: usize = 0;
    let mut i: usize = 0;
    proof {
        assert(kv.skip(0) =~= kv);
    }
    while i < keywords.len()
        invariant
            i <= keywords.len(),
            keywords@.len() <= MAX_KEYWORDS,
            kv == keywords.deep_view(),
            score <= 180 * i,
            score + spec_keywords_score(root0@, sub0@, kv.skip(i as int)) == spec_keywords_score(
                root0@,
                sub0@,
                kv,
            ),
        decreases keywords.len() - i,
    {
        let key = &keywords[i];
        proof {
            assert(key@ == kv[i as int]);
            assert(kv.skip(i as int).drop_first() =~= kv.skip(i + 1));
            assert(kv.skip(i as int)[0] == kv[i as int]);
        }
        let c1 = domain_keywords(root0, key.as_str(), 4);
        let c2 = calc_string_edit_distance(root0, key.as_str());
        let c3 = domain_keywords(sub0, key.as_str(), 6);
        let c4 = calc_string_edit_distance(sub0, key.as_str());
        score = score + c1 + c2 + c3 + c4;
        i += 1;
    }
    proof {
        assert(kv.skip(keywords@.len() as int) =~= Seq::<Seq<char>>::empty());
    }
    score
}

/// Contribution of the TLD-spoof heuristic on the subdomain's first label:
/// 80 points for each of the six tokens it equals up to ASCII case.
pub open spec fn spec_tld_score(sub0: Seq<char>) -> nat {
    spec_exact_match_score(sub0, "com"@, 8) + spec_exact_match_score(sub0, "net"@, 8)
        + spec_exact_match_score(sub0, "-net"@, 8) + spec_exact_match_score(sub0, "-com"@, 8)
        + spec_exact_match_score(sub0, "net-"@, 8) + spec_exact_match_score(sub0, "com-"@, 8)
}

/// Check the subdomain's first label against the TLD-spoof tokens.
pub fn tld_score(sub0: &str) -> (score: usize)
    ensures
        score == spec_tld_score(sub0@),
{
    let mut score: usize = 0;
    score += domain_keywords_exact_match(sub0, "com", 8);
    score += domain_keywords_exact_match(sub0, "net", 8);
    score += domain_keywords_exact_match(sub0, "-net", 8);
    score += domain_keywords_exact_match(sub0, "-com", 8);
    score += domain_keywords_exact_match(sub0, "net-", 8);
    score += domain_keywords_exact_match(sub0, "com-", 8);
    score
}

} // verus!
