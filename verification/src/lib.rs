//! Verified core of a certificate-transparency phishing monitor.
//!
//! The library normalizes raw certificate domain names (wildcard stripping
//! and punycode decoding), decomposes them into a registrable root and a
//! subdomain, and scores them against a keyword set with a fixed family of
//! heuristics. Transport, console styling and log-file plumbing live outside
//! the library.

pub mod decompose;
pub mod message;
pub mod normalize;
pub mod pipeline;
pub mod report;
pub mod score;
pub mod strutil;
