//! Routing of one stream record: heartbeats are ignored, certificate updates
//! carry the domains to score, anything else is skipped.

use vstd::prelude::*;

use crate::strutil::{spec_contains, str_contains};

verus! {

/// One record of the certificate stream, already parsed into its type tag
/// and, for certificate updates, the leaf certificate's domain list.
pub enum StreamMessage {
    Heartbeat,
    CertificateUpdate(Vec<String>),
    Ignored,
}

/// Route a record by its type tag: a tag mentioning `heartbeat` is a
/// heartbeat; otherwise a tag mentioning `certificate_update` carries the
/// domains, in their original order; any other tag is skipped.
pub fn classify_message(message_type: &str, domains: Vec<String>) -> (m: StreamMessage)
    ensures
        m == (if spec_contains(message_type@, "heartbeat"@) {
            StreamMessage::Heartbeat
        } else if spec_contains(message_type@, "certificate_update"@) {
            StreamMessage::CertificateUpdate(domains)
        } else {
            StreamMessage::Ignored
        }),
{
    if str_contains(message_type, "heartbeat") {
        StreamMessage::Heartbeat
    } else if str_contains(message_type, "certificate_update") {
        StreamMessage::CertificateUpdate(domains)
    } else {
        StreamMessage::Ignored
    }
}

} // verus!
