use nettfiske::message::{classify_message, StreamMessage};
use nettfiske::report::{alert_tier, log_entry, AlertTier};

#[test]
fn heartbeat_messages_carry_no_domains() {
    let domains = vec!["mail.example.com".to_string()];
    let m = classify_message("heartbeat", domains);
    assert!(matches!(m, StreamMessage::Heartbeat));
}

#[test]
fn certificate_updates_keep_their_domains_in_order() {
    let domains = vec!["a.example.com".to_string(), "b.example.net".to_string()];
    let m = classify_message("certificate_update", domains.clone());
    match m {
        StreamMessage::CertificateUpdate(d) => assert_eq!(d, domains),
        _ => panic!("a certificate update was expected"),
    }
}

#[test]
fn unknown_message_types_are_skipped() {
    let m = classify_message("dns_entry", vec!["a.example.com".to_string()]);
    assert!(matches!(m, StreamMessage::Ignored));
}

#[test]
fn tiers_follow_the_thresholds_highest_first() {
    assert_eq!(alert_tier(100), AlertTier::High);
    assert_eq!(alert_tier(76), AlertTier::High);
    assert_eq!(alert_tier(75), AlertTier::Medium);
    assert_eq!(alert_tier(68), AlertTier::Medium);
    assert_eq!(alert_tier(67), AlertTier::LowSuspicious);
    assert_eq!(alert_tier(56), AlertTier::LowSuspicious);
    assert_eq!(alert_tier(55), AlertTier::NoAlert);
    assert_eq!(alert_tier(0), AlertTier::NoAlert);
}

#[test]
fn log_entries_start_at_the_alert_threshold() {
    assert_eq!(log_entry(55, "mail.example.com", "mail.example.com"), None);
    assert_eq!(
        log_entry(56, "mail.example.com", "mail.example.com"),
        Some("mail.example.com".to_string())
    );
}

#[test]
fn log_entries_annotate_the_punycode_original() {
    assert_eq!(
        log_entry(80, "почта.com", "xn--e1afmkfd.com"),
        Some("почта.com - (Punycode: xn--e1afmkfd.com)".to_string())
    );
}
