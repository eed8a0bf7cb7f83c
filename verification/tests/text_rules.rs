use sherlock_corpus::normalize::{normalize_text, slugify, title_key};
use sherlock_corpus::number::{parse_u32, u32_to_decimal};
use sherlock_corpus::pattern::check_patterns;
use sherlock_corpus::prompt::{interpret_reply, Reply};
use sherlock_corpus::text::{chars_of, ends_with, join_texts, same_text, starts_with, trim_chars};

#[test]
fn library_patterns_are_accepted() {
    assert!(check_patterns());
}

#[test]
fn normalize_unifies_line_endings_and_collapses_spaces() {
    let out = normalize_text("  Hello\r\n  world\u{00A0}!\u{200B}  ");
    assert_eq!(out, "Hello\nworld !");
}

#[test]
fn normalize_cuts_blank_line_runs_to_one() {
    assert_eq!(normalize_text("a\n\n\n\n\nb"), "a\n\nb");
    assert_eq!(normalize_text("a\r\rb"), "a\n\nb");
    assert_eq!(normalize_text("a \t \t b"), "a b");
}

#[test]
fn normalize_applies_nfkc_and_drops_soft_hyphens() {
    assert_eq!(normalize_text("\u{FB01}ne"), "fine");
    assert_eq!(normalize_text("co\u{00AD}operate"), "cooperate");
    assert_eq!(normalize_text("a\u{0007}b\u{0085}c"), "abc");
}

#[test]
fn normalize_of_blank_text_is_empty() {
    assert_eq!(normalize_text(" \t\r\n\u{00A0} "), "");
}

#[test]
fn normalized_text_has_no_outer_white_space() {
    for input in ["  x  ", "\n\ny\n", "\u{2003}z\u{3000}", "\t a b \t"] {
        let out = normalize_text(input);
        assert!(!out.starts_with(char::is_whitespace));
        assert!(!out.ends_with(char::is_whitespace));
    }
}

#[test]
fn slugify_makes_url_slugs() {
    assert_eq!(slugify("The Red-Headed League"), "the-red-headed-league");
    assert_eq!(slugify("The Engineer\u{2019}s Thumb"), "the-engineer-s-thumb");
    assert_eq!(slugify("Caf\u{00E9}"), "cafe");
    assert_eq!(slugify("Stra\u{00DF}e"), "strae");
    assert_eq!(slugify("--A  B!!"), "a-b");
}

#[test]
fn slugs_never_start_or_end_with_hyphens() {
    for input in ["!!!x!!!", "-", "  -a-  ", "The Adventure of the Blue Carbuncle?"] {
        let s = slugify(input);
        assert!(!s.starts_with('-'));
        assert!(!s.ends_with('-'));
    }
}

#[test]
fn title_key_ignores_adventure_lead_and_punctuation() {
    assert_eq!(title_key("The Adventure of the Speckled Band"), "thespeckledband");
    assert_eq!(title_key("The Speckled Band"), "thespeckledband");
    assert_eq!(title_key("The Engineer's Thumb"), title_key("THE ENGINEER\u{2019}S THUMB"));
    assert_eq!(title_key("A Scandal in Bohemia"), "ascandalinbohemia");
}

#[test]
fn parse_u32_follows_std() {
    assert_eq!(parse_u32("42"), Some(42));
    assert_eq!(parse_u32("+7"), Some(7));
    assert_eq!(parse_u32("0007"), Some(7));
    assert_eq!(parse_u32("4294967295"), Some(u32::MAX));
    assert_eq!(parse_u32("4294967296"), None);
    assert_eq!(parse_u32(""), None);
    assert_eq!(parse_u32("+"), None);
    assert_eq!(parse_u32("-1"), None);
    assert_eq!(parse_u32("1a"), None);
    for s in ["42", "+7", "", "x", "99999999999"] {
        assert_eq!(parse_u32(s), s.parse::<u32>().ok());
    }
}

#[test]
fn decimal_numerals_read_back() {
    for n in [0u32, 7, 10, 99, 1892, u32::MAX] {
        let s = u32_to_decimal(n);
        assert_eq!(s, n.to_string());
        assert_eq!(parse_u32(&s), Some(n));
    }
}

#[test]
fn replies_to_yes_no_questions() {
    assert!(interpret_reply("Y\n", 2) == Reply::Yes);
    assert!(interpret_reply("  yes \n", 7) == Reply::Yes);
    assert!(interpret_reply("\n", 1) == Reply::Yes);
    assert!(interpret_reply("NO\n", 3) == Reply::No);
    assert!(interpret_reply("n", 1) == Reply::No);
    assert!(interpret_reply("maybe\n", 6) == Reply::Invalid);
    assert!(interpret_reply("", 0) == Reply::Eof);
}

#[test]
fn text_helpers() {
    assert_eq!(chars_of("ab\u{e9}"), vec!['a', 'b', '\u{e9}']);
    assert_eq!(trim_chars(&chars_of("\u{2028} a b \t")), vec!['a', ' ', 'b']);
    assert!(same_text("abc", "abc"));
    assert!(!same_text("abc", "abd"));
    assert!(starts_with("chapter-1.xhtml", "chapter-"));
    assert!(!starts_with("chap", "chapter-"));
    assert!(ends_with("chapter-1.xhtml", ".xhtml"));
    assert!(!ends_with("chapter-1.xhtml", ".html"));
    let texts = vec!["a".to_string(), "b".to_string(), "c".to_string()];
    assert_eq!(join_texts(&texts, "\n\n"), "a\n\nb\n\nc");
    assert_eq!(join_texts(&Vec::new(), "-"), "");
}

#[test]
fn normalized_text_has_tidy_spacing() {
    for input in [
        "a \t b",
        "a  \n  b",
        "x\n\n\n\n y ",
        "\t\tz\u{200B}\u{0001}\u{00AD}w\u{00A0}\u{00A0}v",
        "p\r\n\r\n\r\nq",
        "  \n \n \n  r",
    ] {
        let r = normalize_text(input);
        assert!(!r.contains('\t') && !r.contains('\r'), "{r:?}");
        assert!(!r.contains("  ") && !r.contains(" \n") && !r.contains("\n "), "{r:?}");
        assert!(!r.contains("\n\n\n"), "{r:?}");
        assert!(r.chars().all(|c| c == '\n' || !c.is_control()));
        assert!(!r.contains(['\u{A0}', '\u{AD}', '\u{200B}', '\u{200C}', '\u{200D}', '\u{2060}', '\u{FEFF}']));
    }
    assert_eq!(normalize_text("  \n \n \n  r"), "r");
    assert_eq!(normalize_text("x\n\n\n\n y "), "x\n\ny");
}

#[test]
fn normalize_composes_after_removing_invisible_characters() {
    assert_eq!(normalize_text("e\u{200D}\u{301}"), "\u{E9}");
    assert_eq!(normalize_text("e\u{AD}\u{301}"), "\u{E9}");
}

#[test]
fn normalized_text_is_empty_exactly_for_blank_text() {
    assert_eq!(normalize_text("\u{200B}\u{FEFF} \u{3000}\n"), "");
    assert_eq!(normalize_text("\u{200B}.\u{FEFF}"), ".");
}

#[test]
fn slugs_hold_only_lowercase_alphanumerics_and_single_hyphens() {
    for input in ["A -- B", "Hello, World!", "  x__y  ", "\u{2019}Tis", "123 go"] {
        let s = slugify(input);
        assert!(s.chars().all(|c| c.is_ascii_lowercase() || c.is_ascii_digit() || c == '-'), "{s}");
        assert!(!s.contains("--"), "{s}");
    }
    assert_eq!(slugify("A -- B"), "a-b");
}

#[test]
fn title_keys_hold_only_lowercase_alphanumerics() {
    for input in ["The Adventure of the Six Napoleons", "His Last Bow!", "\u{C9}t\u{E9}"] {
        let k = title_key(input);
        assert!(k.chars().all(|c| c.is_ascii_lowercase() || c.is_ascii_digit()), "{k}");
    }
}

#[test]
fn slugify_gives_slugs_back_unchanged() {
    for title in ["The Adventure of the Speckled Band", "  Crème  Brûlée!! ", "A Study in Scarlet", "--x--", "", "Élan ’tis"] {
        let once = slugify(title);
        assert_eq!(slugify(&once), once);
    }
}

#[test]
fn title_key_gives_keys_back_unchanged() {
    for title in ["The Adventure of the Speckled Band", "Thé Adventure of Naïveté", "The Adventure of", "", "3 Gables"] {
        let once = title_key(title);
        assert!(once.chars().all(|c| c.is_ascii_lowercase() || c.is_ascii_digit()));
        assert_eq!(title_key(&once), once);
    }
}

#[test]
fn title_key_ignores_ascii_case() {
    for title in ["The Red-Headed League", "silver blaze", "The Adventure of the Dying Detective"] {
        assert_eq!(title_key(&title.to_uppercase()), title_key(title));
    }
}

#[test]
fn title_key_drops_a_leading_adventure_of() {
    for title in ["Black Peter", "the Priory School", "  Wisteria Lodge"] {
        assert_eq!(title_key(&format!("The Adventure of {}", title)), title_key(title));
    }
    assert_eq!(title_key("The Adventure of the Empty House"), "theemptyhouse");
}

#[test]
fn normalize_gives_normalized_text_back_unchanged() {
    for text in ["  A  line\r\n\r\n\r\n\r\nnext\u{00A0}\u{00A0}one ", "ﬁne \u{200B}day\t\tthen", "", "e\u{200B}\u{0301}"] {
        let once = normalize_text(text);
        assert_eq!(normalize_text(&once), once);
    }
}
