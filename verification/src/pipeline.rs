//! The per-domain pipeline: normalize, decompose, score.

use vstd::prelude::*;
use vstd::string::StrSliceExecFns;

use crate::decompose::{decompose_domain, parts_wf, DomainParts};
use crate::normalize::{normalize_domain, spec_normalize, spec_strip_wildcard, strip_wildcard};
use crate::score::{
    deeply_nested, keywords_score, lemma_keywords_score_le, punycode_score, spec_keywords_score,
    spec_nesting_score, spec_punycode_score, spec_tld_score, tld_score, MAX_DOMAIN_LEN,
    MAX_KEYWORDS,
};
use crate::strutil::{lemma_count_from_le, lemma_split_count_le, spec_split, split_on_dots};

verus! {

/// The outcome of scoring one domain: the total score, the normalized form
/// the heuristics saw, and the raw form (wildcard already stripped).
pub struct ScoreReport {
    pub score: usize,
    pub normalized_domain: String,
    pub raw_domain: String,
}

/// The root and subdomain strings of a decomposition, when there is one.
pub open spec fn parts_view(p: Option<DomainParts>) -> Option<(Seq<char>, Seq<char>)> {
    match p {
        Some(pp) => Some((pp.registrable_root@, pp.subdomain@)),
        None => None,
    }
}

/// A decomposition fits a domain: either there is none, or it is well-formed.
pub open spec fn parts_ok(d: Seq<char>, p: Option<DomainParts>) -> bool {
    match p {
        Some(pp) => parts_wf(d, pp),
        None => true,
    }
}

/// Contribution of the decomposition-based heuristics: the keyword checks on
/// the first label of the registrable root and the first label of the
/// subdomain, and the TLD-spoof check on the latter.
pub open spec fn spec_parts_score(root: Seq<char>, sub: Seq<char>, keys: Seq<Seq<char>>) -> nat {
    spec_keywords_score(spec_split(root)[0], spec_split(sub)[0], keys) + spec_tld_score(
        spec_split(sub)[0],
    )
}

/// The total score of a domain: the punycode term on the raw form, the
/// keyword and TLD terms on the decomposition when there is one (zero
/// otherwise), and the nesting term on the normalized form.
pub open spec fn spec_score(
    raw: Seq<char>,
    normalized: Seq<char>,
    parts: Option<(Seq<char>, Seq<char>)>,
    keys: Seq<Seq<char>>,
) -> nat {
    spec_punycode_score(raw) + (match parts {
        Some(p) => spec_parts_score(p.0, p.1, keys),
        None => 0,
    }) + spec_nesting_score(normalized)
}

/// The score is a sum of contributions and each contribution is a natural
/// number: whatever the inputs, no heuristic subtracts and the total is
/// never negative.
pub proof fn lemma_score_sum_of_contributions(
    raw: Seq<char>,
    normalized: Seq<char>,
    parts: Option<(Seq<char>, Seq<char>)>,
    keys: Seq<Seq<char>>,
)
    ensures
        spec_score(raw, normalized, parts, keys) == spec_punycode_score(raw) + (match parts {
            Some(p) => spec_parts_score(p.0, p.1, keys),
            None => 0nat,
        }) + spec_nesting_score(normalized),
        spec_punycode_score(raw) >= 0,
        (match parts {
            Some(p) => spec_parts_score(p.0, p.1, keys),
            None => 0nat,
        }) >= 0,
        spec_nesting_score(normalized) >= 0,
        spec_score(raw, normalized, parts, keys) >= 0,
{
}

/// Sum the heuristics for one domain: five points per `xn--` marker in the
/// raw form; per keyword, the containment and near-miss checks on the first
/// labels of root and subdomain when the domain decomposes; the TLD-spoof
/// check on the subdomain's first label; and the nesting term on the
/// normalized form.
pub fn score_domain(
    raw: &str,
    normalized: &str,
    parts: &Option<DomainParts>,
    keywords: &Vec<String>,
) -> (score: usize)
    requires
        raw@.len() <= MAX_DOMAIN_LEN,
        normalized@.len() <= MAX_DOMAIN_LEN,
        keywords@.len() <= MAX_KEYWORDS,
    ensures
        score == spec_score(raw@, normalized@, parts_view(*parts), keywords.deep_view()),
{
    let mut score: usize = punycode_score(raw);
    proof {
        lemma_count_from_le(raw@, "xn--"@, 0);
    }
    match parts {
        Some(p) => {
            let root_labels = split_on_dots(p.registrable_root.as_str());
            let sub_labels = split_on_dots(p.subdomain.as_str());
            let root0 = &root_labels[0];
            let sub0 = &sub_labels[0];
            proof {
                assert(root0@ == spec_split(p.registrable_root@)[0]);
                assert(sub0@ == spec_split(p.subdomain@)[0]);
                lemma_keywords_score_le(root0@, sub0@, keywords.deep_view());
            }
            let ks = keywords_score(root0.as_str(), sub0.as_str(), keywords);
            let ts = tld_score(sub0.as_str());
            score = score + ks + ts;
        },
        None => {},
    }
    proof {
        lemma_split_count_le(normalized@);
    }
    let ns = deeply_nested(normalized);
    score + ns
}

/// Run one raw domain through the whole pipeline: strip the wildcard marker,
/// normalize the labels, decompose against the suffix list and score. `None`
/// is returned only when an input exceeds the machine-size bounds the scorer
/// accepts.
pub fn process_domain(
    list: &publicsuffix::List,
    raw: &str,
    keywords: &Vec<String>,
) -> (r: Option<ScoreReport>)
    ensures
        (r is Some) == (raw@.len() <= MAX_DOMAIN_LEN && keywords@.len() <= MAX_KEYWORDS
            && spec_normalize(raw@).len() <= MAX_DOMAIN_LEN),
        match r {
            Some(rep) => {
                &&& rep.raw_domain@ == spec_strip_wildcard(raw@)
                &&& rep.normalized_domain@ == spec_normalize(raw@)
                &&& exists|parts: Option<DomainParts>|
                    #[trigger] parts_ok(spec_normalize(raw@), parts) && rep.score == spec_score(
                        spec_strip_wildcard(raw@),
                        spec_normalize(raw@),
                        parts_view(parts),
                        keywords.deep_view(),
                    )
            },
            None => true,
        },
{
    if raw.unicode_len() > MAX_DOMAIN_LEN {
        return None;
    }
    if keywords.len() > MAX_KEYWORDS {
        return None;
    }
    let normalized = normalize_domain(raw);
    if normalized.as_str().unicode_len() > MAX_DOMAIN_LEN {
        return None;
    }
    let stripped = strip_wildcard(raw);
    let parts = decompose_domain(list, normalized.as_str());
    let score = score_domain(stripped, normalized.as_str(), &parts, keywords);
    let ghost parts_snapshot = parts;
    let report = ScoreReport {
        score,
        normalized_domain: normalized,
        raw_domain: stripped.to_owned(),
    };
    proof {
        assert(parts_ok(spec_normalize(raw@), parts_snapshot) && report.score == spec_score(
            spec_strip_wildcard(raw@),
            spec_normalize(raw@),
            parts_view(parts_snapshot),
            keywords.deep_view(),
        ));
    }
    Some(report)
}

} // verus!
