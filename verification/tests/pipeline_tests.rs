use nettfiske::decompose::{decompose_domain, decompose_with_root};
use nettfiske::normalize::normalize_domain;
use nettfiske::pipeline::process_domain;
use nettfiske::report::{alert_tier, log_entry, AlertTier};

fn suffix_list() -> publicsuffix::List {
    "// BEGIN ICANN DOMAINS\ncom\nnet\norg\n".parse().expect("the suffix list parses")
}

fn keywords(words: &[&str]) -> Vec<String> {
    words.iter().map(|w| w.to_string()).collect()
}

#[test]
fn decomposition_splits_root_and_subdomain() {
    let parts = decompose_with_root("mail.google.com", "google.com").unwrap();
    assert_eq!(parts.registrable_root, "google.com");
    assert_eq!(parts.subdomain, "mail");
}

#[test]
fn decomposition_of_bare_root_has_empty_subdomain() {
    let parts = decompose_with_root("google.com", "google.com").unwrap();
    assert_eq!(parts.registrable_root, "google.com");
    assert_eq!(parts.subdomain, "");
}

#[test]
fn decomposition_rejects_a_non_suffix_root() {
    assert!(decompose_with_root("mail.google.com", "mail.google").is_none());
    assert!(decompose_with_root("xgoogle.com", "google.com").is_none());
}

#[test]
fn resolver_finds_the_registrable_root() {
    let list = suffix_list();
    let parts = decompose_domain(&list, "mail.google.com").unwrap();
    assert_eq!(parts.registrable_root, "google.com");
    assert_eq!(parts.subdomain, "mail");

    let parts = decompose_domain(&list, "secure-paypal-login.com").unwrap();
    assert_eq!(parts.registrable_root, "secure-paypal-login.com");
    assert_eq!(parts.subdomain, "");
}

#[test]
fn resolver_yields_nothing_on_an_unlisted_name() {
    let list = suffix_list();
    assert!(decompose_domain(&list, "localhost").is_none());
}

#[test]
fn scenario_paypal_lookalike_raises_an_alert() {
    let list = suffix_list();
    let keys = keywords(&["paypal", "pay"]);
    let report = process_domain(&list, "secure-paypal-login.com", &keys).unwrap();
    // Root-label containment contributes 40 per matching keyword; two labels
    // give no nesting term.
    assert_eq!(report.score, 80);
    assert_eq!(report.normalized_domain, "secure-paypal-login.com");
    assert_eq!(report.raw_domain, "secure-paypal-login.com");
    assert!(report.score >= 56);
    assert_ne!(alert_tier(report.score), AlertTier::NoAlert);
    assert!(log_entry(report.score, &report.normalized_domain, &report.raw_domain).is_some());
}

#[test]
fn scenario_plain_google_subdomain_stays_below_the_threshold() {
    let list = suffix_list();
    let keys = keywords(&["google"]);
    let report = process_domain(&list, "mail.google.com", &keys).unwrap();
    // Containment 40 on the root label plus nesting 9 on three labels.
    assert_eq!(report.score, 49);
    assert_eq!(alert_tier(report.score), AlertTier::NoAlert);
    assert!(log_entry(report.score, &report.normalized_domain, &report.raw_domain).is_none());
}

#[test]
fn scenario_punycode_domain_is_scored_on_its_decoded_form() {
    let list = suffix_list();
    let keys = keywords(&["пример"]);
    let report = process_domain(&list, "*.xn--e1afmkfd.com", &keys).unwrap();
    assert_eq!(report.normalized_domain, "пример.com");
    assert_eq!(report.raw_domain, "xn--e1afmkfd.com");
    // One xn-- marker (5) plus root-label containment (40).
    assert_eq!(report.score, 45);
}

#[test]
fn wildcard_rule_resolves_unlisted_tlds() {
    let list = suffix_list();
    let keys = keywords(&["paypal"]);
    // The list's built-in wildcard rule treats an unlisted trailing label as
    // a suffix: containment 40 on the root label plus nesting 12 (4 labels).
    let report = process_domain(&list, "a.b.paypal.invalid", &keys).unwrap();
    assert_eq!(report.score, 52);

    let parts = decompose_domain(&list, "a.b.paypal.invalid").unwrap();
    assert_eq!(parts.registrable_root, "paypal.invalid");
    assert_eq!(parts.subdomain, "a.b");
}

#[test]
fn single_label_domain_has_no_registrable_root() {
    let list = suffix_list();
    let keys = keywords(&["paypal"]);
    let report = process_domain(&list, "localhost", &keys).unwrap();
    assert_eq!(report.score, 0);
}

#[test]
fn wildcard_domain_decomposes_after_stripping() {
    let list = suffix_list();
    let norm = normalize_domain("*.mail.example.com");
    assert_eq!(norm, "mail.example.com");
    let parts = decompose_domain(&list, &norm).unwrap();
    assert_eq!(parts.registrable_root, "example.com");
    assert_eq!(parts.subdomain, "mail");
}

#[test]
fn oversized_inputs_are_refused() {
    let list = suffix_list();
    let keys = keywords(&["paypal"]);
    let long_domain = "a".repeat(70000);
    assert!(process_domain(&list, &long_domain, &keys).is_none());

    let many_keywords: Vec<String> = (0..65537).map(|i| i.to_string()).collect();
    assert!(process_domain(&list, "mail.example.com", &many_keywords).is_none());
}
