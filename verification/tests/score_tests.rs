use nettfiske::score::{
    calc_string_edit_distance, deeply_nested, domain_keywords, domain_keywords_exact_match,
    punycode_score,
};

#[test]
fn fuzzy_match_fires_at_distance_exactly_one() {
    assert_eq!(calc_string_edit_distance("paypa1", "paypal"), 40);
    assert_eq!(calc_string_edit_distance("paypal", "paypa1"), 40);
}

#[test]
fn fuzzy_match_ignores_distance_zero_and_far_strings() {
    assert_eq!(calc_string_edit_distance("paypal", "paypal"), 0);
    assert_eq!(calc_string_edit_distance("paypal", "pay"), 0);
}

#[test]
fn exact_tld_match_is_case_insensitive() {
    assert_eq!(domain_keywords_exact_match("COM", "com", 8), 80);
    assert_eq!(domain_keywords_exact_match("com", "com", 8), 80);
    assert_eq!(domain_keywords_exact_match("org", "com", 8), 0);
}

#[test]
fn keyword_containment_is_case_sensitive_substring() {
    assert_eq!(domain_keywords("secure-paypal-login", "paypal", 4), 40);
    assert_eq!(domain_keywords("secure-paypal-login", "paypal", 6), 60);
    assert_eq!(domain_keywords("secure-PAYPAL-login", "paypal", 4), 0);
    assert_eq!(domain_keywords("google", "paypal", 4), 0);
}

#[test]
fn nesting_scores_three_points_per_label_from_three_labels_on() {
    assert_eq!(deeply_nested("a.b.c"), 9);
    assert_eq!(deeply_nested("a.b.c.d"), 12);
    assert_eq!(deeply_nested("a.b"), 0);
}

#[test]
fn punycode_markers_score_five_points_each() {
    assert_eq!(punycode_score("xn--e1afmkfd.xn--p1ai"), 10);
    assert_eq!(punycode_score("mail.example.com"), 0);
}
