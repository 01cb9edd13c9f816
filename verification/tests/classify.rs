use grabit::classify::{
    classify, classify_from, classify_full, compact_phone, is_manifest, may_be_manifest,
    trim_trailing_punctuation, unbalanced, Classification, Detect, Hits, Recognisers,
};

#[test]
fn urls_are_detected_and_sentence_punctuation_is_dropped() {
    assert_eq!(classify("https://example.com").url.as_deref(), Some("https://example.com"));
    assert_eq!(
        classify("  https://example.com/a?b=c.  ").url.as_deref(),
        Some("https://example.com/a?b=c")
    );
    assert_eq!(classify("http://example.com,").url.as_deref(), Some("http://example.com"));
    assert!(classify("just words").url.is_none());
    assert!(classify("https://a.com and https://b.com").url.is_none());
}

#[test]
fn balanced_parentheses_survive_but_stray_ones_do_not() {
    assert_eq!(
        classify("https://en.wikipedia.org/wiki/Rust_(film)").url.as_deref(),
        Some("https://en.wikipedia.org/wiki/Rust_(film)")
    );
    assert_eq!(classify("https://example.com/a)").url.as_deref(), Some("https://example.com/a"));
}

#[test]
fn bare_www_domains_gain_a_scheme() {
    assert_eq!(classify("www.example.com").url.as_deref(), Some("https://www.example.com"));
    assert_eq!(
        classify("www.example.co.uk/path").url.as_deref(),
        Some("https://www.example.co.uk/path")
    );
    assert!(classify("wwwexample.com").url.is_none());
}

#[test]
fn emails_are_detected_with_and_without_mailto() {
    assert_eq!(classify("kim@example.com").email.as_deref(), Some("kim@example.com"));
    assert_eq!(classify("mailto:kim@example.com").email.as_deref(), Some("kim@example.com"));
    assert_eq!(
        classify("mailto:kim@example.com?subject=hi").email.as_deref(),
        Some("kim@example.com")
    );
    assert_eq!(classify("kim@example.com.").email.as_deref(), Some("kim@example.com"));
    assert!(classify("kim@nodot").email.is_none());
    assert!(classify("not an email").email.is_none());
}

#[test]
fn paths_must_be_rooted_and_single_line() {
    assert_eq!(classify("/usr/share/grabit").path.as_deref(), Some("/usr/share/grabit"));
    assert_eq!(classify("~/notes.txt").path.as_deref(), Some("~/notes.txt"));
    assert!(classify("relative/path").path.is_none());
    assert!(classify("/").path.is_none());
    assert!(classify("/a\n/b").path.is_none());
}

#[test]
fn phone_numbers_compact_to_tel_form() {
    assert_eq!(classify("+30 210 123 4567").phone.as_deref(), Some("+302101234567"));
    assert_eq!(classify("(555) 867-5309").phone.as_deref(), Some("5558675309"));
    assert_eq!(classify("210.1234567").phone.as_deref(), Some("2101234567"));
    // Too few digits to be dialable, too many to be E.164.
    assert!(classify("12 345").phone.is_none());
    assert!(classify("1234567890123456789").phone.is_none());
    // Dates and versions must not read as phone numbers.
    assert!(classify("2024").phone.is_none());
}

#[test]
fn colors_cover_hex_and_functional_notation() {
    assert_eq!(classify("#a1b2c3").color.as_deref(), Some("#a1b2c3"));
    assert_eq!(classify("#FFF").color.as_deref(), Some("#FFF"));
    assert_eq!(classify("rgb(1, 2, 3)").color.as_deref(), Some("rgb(1, 2, 3)"));
    assert_eq!(classify("hsl(120, 50%, 50%)").color.as_deref(), Some("hsl(120, 50%, 50%)"));
    assert!(classify("#12345").color.is_none());
    assert!(classify("red").color.is_none());
}

#[test]
fn a_selection_can_be_several_things_at_once() {
    let class = classify("mailto:kim@example.com");
    assert!(class.url.is_some());
    assert!(class.email.is_some());
}

#[test]
fn prose_is_nothing_at_all() {
    let class = classify("The quick brown fox jumps over the lazy dog.");
    assert_eq!(class, Classification::default());
}

#[test]
fn an_action_manifest_is_recognised() {
    let manifest = r#"
id = "shout"
title = "SHOUT"
exec = ["tr", "[:lower:]", "[:upper:]"]
stdin = true
after = "copy"
"#;
    assert!(classify(manifest).manifest);
    assert!(!classify("id = title = nonsense").manifest);
    assert!(!classify("plain text mentioning id and title =").manifest);
}

#[test]
fn surrounding_space_makes_no_difference() {
    for text in ["https://a.org/b.", "kim@example.com", "+30 210 123 4567", "#fff", "~/x", "id"] {
        assert_eq!(classify(&format!("  \t{text}\n")), classify(text));
        assert_eq!(classify_full(&format!("\n{text}  ")), classify_full(text));
    }
}

#[test]
fn several_lines_are_no_value() {
    let class = classify("https://a.org\nhttps://b.org");
    assert_eq!(class, Classification::default());
}

#[test]
fn each_kind_is_found_under_its_name() {
    let class = Classification {
        url: Some("u".to_owned()),
        email: Some("e".to_owned()),
        path: Some("p".to_owned()),
        phone: Some("t".to_owned()),
        color: None,
        manifest: false,
    };
    assert_eq!(class.get(Detect::Url), Some("u"));
    assert_eq!(class.get(Detect::Email), Some("e"));
    assert_eq!(class.get(Detect::Path), Some("p"));
    assert_eq!(class.get(Detect::Phone), Some("t"));
    assert_eq!(class.get(Detect::Color), None);
}

/// The characters of a text.
fn chars(text: &str) -> Vec<char> {
    text.chars().collect()
}

#[test]
fn trailing_punctuation_is_clipped_one_by_one() {
    let clip = |text: &str| -> String {
        trim_trailing_punctuation(&chars(text)).iter().collect()
    };
    assert_eq!(clip("a.,;:!?"), "a");
    assert_eq!(clip("a\"'"), "a");
    assert_eq!(clip("a)."), "a");
    assert_eq!(clip("b(a)."), "b(a)");
    assert_eq!(clip("b[a]]"), "b[a]");
    assert_eq!(clip("..."), "");
    assert!(unbalanced(&chars("a)"), '(', ')'));
    assert!(!unbalanced(&chars("(a)"), '(', ')'));
    assert!(!unbalanced(&chars("((a)"), '(', ')'));
}

#[test]
fn stray_brackets_are_clipped_and_others_are_kept() {
    let clip = |text: &str| -> String {
        trim_trailing_punctuation(&chars(text)).iter().collect()
    };
    assert_eq!(
        clip("https://en.wikipedia.org/wiki/Rust_(film)"),
        "https://en.wikipedia.org/wiki/Rust_(film)"
    );
    assert_eq!(clip("(https://example.com)"), "(https://example.com");
    assert_eq!(clip("[https://example.com]."), "[https://example.com");
    assert_eq!(clip("{a(b)}"), "{a(b)");
    assert_eq!(clip("(a)(b)"), "(a)(b)");
    assert_eq!(clip("(a"), "(a");
    assert_eq!(clip(")"), "");
    assert!(!is_wrapped_away("x(a)"));
    assert!(is_wrapped_away("((a))"));
}

fn is_wrapped_away(text: &str) -> bool {
    trim_trailing_punctuation(&chars(text)).len() < text.len()
}

#[test]
fn dates_are_no_phone_numbers() {
    for date in [
        "2024-01-15", "2024/01/15", "2024.01.15", "15/01/2024", "15.1.2024", "01-15-2024",
        "12.11.10", "2024-01", "01/2024", " 1999-12-31 ",
    ] {
        assert_eq!(classify(date).phone, None, "{date}");
    }
    // Not a month, not a day, not a year.
    assert_eq!(classify("2024-13-15").phone.as_deref(), Some("20241315"));
    assert_eq!(classify("2024-01-32").phone.as_deref(), Some("20240132"));
    assert_eq!(classify("3024-01-15").phone.as_deref(), Some("30240115"));
    assert_eq!(classify("2024-00-15").phone.as_deref(), Some("20240015"));
}

#[test]
fn versions_are_no_phone_numbers() {
    for version in [
        "10.0.19045", "1.20.300", "3.11.1000", "121.0.6167.85", "1.2.3456", "0.103.123",
        "4.19.128.50",
    ] {
        assert_eq!(classify(version).phone, None, "{version}");
    }
    for (number, phone) in [
        ("555.867.5309", "5558675309"),
        ("1.800.555.1234", "18005551234"),
        ("01.02.03.04.05", "0102030405"),
        ("12.34.56.78", "12345678"),
        ("49.30.1234567", "49301234567"),
        ("+1.2.345678", "+12345678"),
    ] {
        assert_eq!(classify(number).phone.as_deref(), Some(phone));
    }
}

#[test]
fn a_phone_number_keeps_its_plus() {
    assert_eq!(compact_phone(&chars("+1 (2)-3.4/5")), "+12345");
    assert_eq!(compact_phone(&chars("1 2+3")), "123");
}

#[test]
fn what_the_patterns_hit_decides() {
    let none = Hits {
        url: false,
        www: false,
        address: false,
        mailbox: false,
        phone: false,
        color: false,
    };
    assert_eq!(classify_from("anything", none, false), Classification::default());
    let class = classify_from("www.x.org.", Hits { www: true, ..none }, false);
    assert_eq!(class.url.as_deref(), Some("https://www.x.org"));
    let class = classify_from("ftp://x.org,", Hits { url: true, ..none }, true);
    assert_eq!(class.url.as_deref(), Some("ftp://x.org"));
    assert!(!class.manifest);
    let class = classify_from("one\ntwo", Hits { url: true, ..none }, true);
    assert_eq!(class, Classification { manifest: true, ..Classification::default() });
    let class = classify_from("12 34 56", Hits { phone: true, ..none }, false);
    assert_eq!(class.phone.as_deref(), Some("123456"));
    let class = classify_from("12 34 5", Hits { phone: true, ..none }, false);
    assert_eq!(class.phone, None);
}

#[test]
fn the_patterns_are_real_ones() {
    let recognisers = Recognisers::new();
    let hits = recognisers.hits("https://x.org");
    assert!(hits.url && !hits.www && !hits.phone && !hits.color);
    let hits = recognisers.hits("www.x.org?q");
    assert!(!hits.url && hits.www);
    let hits = recognisers.hits("#12f");
    assert!(hits.color && !hits.url);
    assert_eq!(recognisers.classify("x"), classify("x"));
    assert_eq!(recognisers.classify_full("x"), classify_full("x"));
}

#[test]
fn a_manifest_is_recognised_in_any_spelling() {
    let odd = "\"id\" = \"x\"\ntitle = \"X\"\nafter = \"copy\"";
    assert!(is_manifest(odd));
    assert!(classify_full(odd).manifest);
    assert!(!is_manifest("[popup]\nsettle_ms = 1"));
    assert!(!classify_full("just words").manifest);
    assert!(may_be_manifest("id = \"x\"\ntitle = \"X\""));
    assert!(!may_be_manifest("just words"));
}
