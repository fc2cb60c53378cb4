use lapp::answer::{matches_answer, split_answers};
use lapp::text::{is_white_space, normalize, trim};

#[test]
fn normalize_drops_annotation() {
    assert_eq!(normalize("Apple (fruit)"), "apple");
}

#[test]
fn normalize_trims_and_lowers() {
    assert_eq!(normalize(" Run "), "run");
}

#[test]
fn normalize_is_idempotent_on_samples() {
    for s in ["Apple (fruit)", " Run ", "der Hund (m)", "  GROSS  ", "a (b", "x) y (", ""] {
        let once = normalize(s);
        assert_eq!(normalize(&once), once);
    }
}

#[test]
fn normalize_keeps_normalized_text() {
    assert_eq!(normalize("katze"), "katze");
}

#[test]
fn normalize_removes_every_annotation() {
    assert_eq!(normalize("to run (fast) away (quickly)"), "to run away");
    assert_eq!(normalize("word(hint)"), "word");
    assert_eq!(normalize("word (a) (b)"), "word");
}

#[test]
fn normalize_keeps_unpaired_bracket() {
    assert_eq!(normalize("Open (door"), "open (door");
}

#[test]
fn normalize_lowers_non_ascii() {
    assert_eq!(normalize("ÄPFEL"), "äpfel");
    assert_eq!(normalize(" Straße (f) "), "straße");
}

#[test]
fn trim_removes_unicode_space() {
    assert_eq!(trim("\u{3000}\t hi there \n\u{a0}"), "hi there");
    assert_eq!(trim("   "), "");
    assert_eq!(trim(""), "");
    assert_eq!(trim("x"), "x");
}

#[test]
fn white_space_matches_std() {
    for c in ['a', ' ', '\t', '\n', '\u{85}', '\u{a0}', '\u{2000}', '\u{200b}', '\u{3000}', 'ß'] {
        assert_eq!(is_white_space(c), c.is_whitespace());
    }
}

#[test]
fn split_answers_on_slashes() {
    assert_eq!(split_answers("big/large/huge"), vec!["big", "large", "huge"]);
    assert_eq!(split_answers("big"), vec!["big"]);
    assert_eq!(split_answers(""), vec![""]);
    assert_eq!(split_answers("a//b/"), vec!["a", "", "b", ""]);
}

#[test]
fn multi_answer_matching() {
    assert!(matches_answer("big/large/huge", "big"));
    assert!(matches_answer("big/large/huge", "Large"));
    assert!(matches_answer("big/large/huge", " huge "));
    assert!(!matches_answer("big/large/huge", "small"));
}

#[test]
fn multi_answer_parts_are_normalized() {
    assert!(matches_answer("to go (on foot)/To Walk ", "to walk"));
    assert!(matches_answer("to go (on foot)/To Walk ", "TO GO"));
    assert!(!matches_answer("to go (on foot)/To Walk ", "to go on foot"));
}
