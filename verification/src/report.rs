//! Mapping a score to a severity tier and to the log entry it produces.

use vstd::prelude::*;
use vstd::string::StrSliceExecFns;
use vstd::string::StringExecFns;

use crate::normalize::count_punycode_markers;
use crate::strutil::spec_count;

verus! {

/// Score at or above which a domain is reported at all.
pub const ALERT_THRESHOLD: usize = 56;

/// Score at or above which a domain is reported as medium severity.
pub const MEDIUM_THRESHOLD: usize = 68;

/// Score at or above which a domain is reported as high severity.
pub const HIGH_THRESHOLD: usize = 76;

/// Severity band of a score: three escalating alert tiers, or no alert.
#[derive(PartialEq, Eq, Structural, Clone, Copy, Debug)]
pub enum AlertTier {
    High,
    Medium,
    LowSuspicious,
    NoAlert,
}

/// The tier a score falls in, thresholds checked highest first.
pub open spec fn spec_tier(score: nat) -> AlertTier {
    if score >= HIGH_THRESHOLD {
        AlertTier::High
    } else if score >= MEDIUM_THRESHOLD {
        AlertTier::Medium
    } else if score >= ALERT_THRESHOLD {
        AlertTier::LowSuspicious
    } else {
        AlertTier::NoAlert
    }
}

/// Map a score to its severity tier.
pub fn alert_tier(score: usize) -> (t: AlertTier)
    ensures
        t == spec_tier(score as nat),
{
    if score >= HIGH_THRESHOLD {
        AlertTier::High
    } else if score >= MEDIUM_THRESHOLD {
        AlertTier::Medium
    } else if score >= ALERT_THRESHOLD {
        AlertTier::LowSuspicious
    } else {
        AlertTier::NoAlert
    }
}

/// A score is logged exactly when it reaches the alert threshold.
pub open spec fn spec_should_log(score: nat) -> bool {
    score >= ALERT_THRESHOLD
}

/// The text of a log entry: the normalized domain, annotated with the raw
/// punycode form when the raw domain carried one.
pub open spec fn spec_log_line(normalized: Seq<char>, raw: Seq<char>) -> Seq<char> {
    if spec_count(raw, "xn--"@) > 0 {
        normalized + " - (Punycode: "@ + raw + ")"@
    } else {
        normalized
    }
}

/// The log entry a scored domain produces: `Some` exactly when the score
/// reaches the alert threshold, annotated with the punycode-original form
/// when the raw domain contained `xn--` markers.
pub fn log_entry(score: usize, normalized: &str, raw: &str) -> (r: Option<String>)
    ensures
        (r is Some) == spec_should_log(score as nat),
        match r {
            Some(line) => line@ == spec_log_line(normalized@, raw@),
            None => true,
        },
{
    if score < ALERT_THRESHOLD {
        return None;
    }
    if count_punycode_markers(raw) > 0 {
        let mut line = normalized.to_owned();
        line.append(" - (Punycode: ");
        line.append(raw);
        line.append(")");
        Some(line)
    } else {
        Some(normalized.to_owned())
    }
}

} // verus!
