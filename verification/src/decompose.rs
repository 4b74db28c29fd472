//! Decomposition of a normalized domain into its registrable root and the
//! residual subdomain, guided by a public-suffix-list resolver.

use vstd::prelude::*;
use vstd::string::StrSliceExecFns;

use publicsuffix::Psl;

verus! {

/// A public suffix list, as the resolver crate holds it.
#[verifier::external_type_specification]
#[verifier::external_body]
pub struct ExPublicSuffixList(publicsuffix::List);

/// A normalized domain split into its registrable root and the remaining
/// subdomain (possibly empty).
pub struct DomainParts {
    pub registrable_root: String,
    pub subdomain: String,
}

/// `root` sits at the tail of `d` on a label boundary: it is nonempty, a
/// suffix of `d`, and either the whole of `d` or preceded by a dot.
pub open spec fn is_label_suffix(root: Seq<char>, d: Seq<char>) -> bool {
    &&& 1 <= root.len() <= d.len()
    &&& d.skip(d.len() - root.len()) == root
    &&& (root.len() == d.len() || d[d.len() - root.len() - 1] == '.')
}

/// The subdomain left when the registrable root and its separating dot are
/// cut off the tail of `d`.
pub open spec fn spec_subdomain(d: Seq<char>, root: Seq<char>) -> Seq<char> {
    if root.len() == d.len() {
        Seq::empty()
    } else {
        d.take(d.len() - root.len() - 1)
    }
}

/// A decomposition is well-formed for a domain when its root is a label
/// suffix of the domain and its subdomain is what remains before the root.
pub open spec fn parts_wf(d: Seq<char>, p: DomainParts) -> bool {
    &&& is_label_suffix(p.registrable_root@, d)
    &&& p.subdomain@ == spec_subdomain(d, p.registrable_root@)
}

/// Relies on `publicsuffix::List` with `psl_types::List::domain`: the
/// registrable domain, when one is found, is a nonempty trailing slice of the
/// name that starts at the beginning of the name or right after a dot.
#[verifier::external_body]
fn resolve_registrable_root(list: &publicsuffix::List, name: &str) -> (r: Option<String>)
    ensures
        match r {
            Some(root) => is_label_suffix(root@, name@),
            None => true,
        },
{
    match list.domain(name.as_bytes()) {
        Some(d) => core::str::from_utf8(d.as_bytes()).ok().map(|s| s.to_string()),
        None => None,
    }
}

/// Split a normalized domain against a candidate registrable root: when the
/// root really is a label suffix of the domain, the subdomain is everything
/// before it (the separating dot removed); any other candidate yields no
/// decomposition.
pub fn decompose_with_root(normalized: &str, root: &str) -> (r: Option<DomainParts>)
    ensures
        (r is Some) == is_label_suffix(root@, normalized@),
        match r {
            Some(p) => p.registrable_root@ == root@ && p.subdomain@ == spec_subdomain(
                normalized@,
                root@,
            ) && parts_wf(normalized@, p),
            None => true,
        },
{
    let n = normalized.unicode_len();
    let m = root.unicode_len();
    if m < 1 || m > n {
        return None;
    }
    let mut j: usize = 0;
    while j < m
        invariant
            j <= m,
            1 <= m <= n,
            n == normalized@.len(),
            m == root@.len(),
            forall|k: int| 0 <= k < j ==> normalized@[n - m + k] == root@[k],
        decreases m - j,
    {
        if normalized.get_char(n - m + j) != root.get_char(j) {
            proof {
                assert(normalized@.skip(n - m)[j as int] != root@[j as int]);
            }
            return None;
        }
        j += 1;
    }
    proof {
        assert(normalized@.skip(n - m) =~= root@);
    }
    if m == n {
        proof {
            assert(spec_subdomain(normalized@, root@) =~= ""@) by {
                reveal_strlit("");
            }
        }
        return Some(
            DomainParts { registrable_root: root.to_owned(), subdomain: String::new() },
        );
    }
    if normalized.get_char(n - m - 1) != '.' {
        return None;
    }
    let sub = normalized.substring_char(0, n - m - 1);
    Some(DomainParts { registrable_root: root.to_owned(), subdomain: sub.to_owned() })
}

/// Resolve the registrable root of a normalized domain against the suffix
/// list and split the domain on it. Whatever the resolver answers, a returned
/// decomposition is well-formed; `None` means the domain has no registrable
/// root and the root- and subdomain-based heuristics are skipped.
pub fn decompose_domain(list: &publicsuffix::List, normalized: &str) -> (r: Option<DomainParts>)
    ensures
        match r {
            Some(p) => parts_wf(normalized@, p),
            None => true,
        },
{
    match resolve_registrable_root(list, normalized) {
        Some(root) => decompose_with_root(normalized, root.as_str()),
        None => None,
    }
}

} // verus!
