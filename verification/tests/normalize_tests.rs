use nettfiske::normalize::{count_punycode_markers, normalize_domain, strip_wildcard};

#[test]
fn wildcard_prefix_is_stripped_once() {
    assert_eq!(normalize_domain("*.mail.example.com"), "mail.example.com");
    assert_eq!(strip_wildcard("*.mail.example.com"), "mail.example.com");
    assert_eq!(strip_wildcard("mail.example.com"), "mail.example.com");
}

#[test]
fn punycode_label_is_decoded() {
    assert_eq!(normalize_domain("xn--e1afmkfd.com"), "пример.com");
}

#[test]
fn plain_domain_is_unchanged() {
    assert_eq!(normalize_domain("mail.example.com"), "mail.example.com");
}

#[test]
fn undecodable_label_is_left_unchanged() {
    assert_eq!(normalize_domain("xn--???.com"), "xn--???.com");
}

#[test]
fn normalization_is_idempotent() {
    for raw in ["*.mail.example.com", "xn--e1afmkfd.com", "secure-paypal-login.com", ""] {
        let once = normalize_domain(raw);
        let twice = normalize_domain(&once);
        assert_eq!(twice, once);
    }
}

#[test]
fn punycode_markers_are_counted() {
    assert_eq!(count_punycode_markers("xn--e1afmkfd.xn--p1ai"), 2);
    assert_eq!(count_punycode_markers("mail.example.com"), 0);
}

#[test]
fn label_count_is_preserved() {
    for raw in ["*.xn--e1afmkfd.com", "a.b.c.d", "xn--e1afmkfd.xn--p1ai", "xn--???.com"] {
        let stripped = strip_wildcard(raw);
        let normalized = normalize_domain(raw);
        assert_eq!(
            normalized.split('.').count(),
            stripped.split('.').count()
        );
    }
}
