use lapp::performance::{fail_count_update, FailCountUpdate, MAX_FAIL_COUNT};
use lapp::recent::{next_word_excluding, RecentWords, SelectError, RECENT_CAPACITY};
use lapp::word::{
    check_guess, guess_feedback, parse_practice_type, process_guess, same_text, GuessError,
    PracticeType, Word,
};

fn word(id: i32, english: &str, german: &str) -> Word {
    Word {
        id,
        english_word: english.to_string(),
        german_word: german.to_string(),
        date_added: None,
    }
}

fn apply(current: Option<i32>, u: FailCountUpdate) -> Option<i32> {
    match u {
        FailCountUpdate::Unchanged => current,
        FailCountUpdate::Update(n) | FailCountUpdate::Insert(n) => Some(n),
    }
}

#[test]
fn practice_types_parse() {
    assert_eq!(parse_practice_type("practice-english"), Some(PracticeType::English));
    assert_eq!(parse_practice_type("practice-german"), Some(PracticeType::German));
    assert_eq!(parse_practice_type("practice-mix"), Some(PracticeType::Mix));
    assert_eq!(parse_practice_type("practice-new"), Some(PracticeType::New));
    assert_eq!(parse_practice_type("practice-suckAt"), Some(PracticeType::SuckAt));
    assert_eq!(parse_practice_type("practice-suckat"), None);
    assert_eq!(parse_practice_type(""), None);
}

#[test]
fn same_text_compares_characters() {
    assert!(same_text("german", "german"));
    assert!(!same_text("german", "German"));
    assert!(!same_text("germ", "german"));
}

#[test]
fn end_to_end_cat() {
    let w = word(1, "cat", "Katze");
    assert_eq!(check_guess(&w, "Katze", "practice-english", "english"), Ok(true));
    assert_eq!(check_guess(&w, "katze ", "practice-english", "english"), Ok(true));
    assert_eq!(check_guess(&w, "dog", "practice-english", "english"), Ok(false));
    let out = process_guess(&w, None, "dog", "practice-english", "english").unwrap();
    assert!(!out.is_correct);
    assert_eq!(out.update, FailCountUpdate::Insert(1));
    assert_eq!(out.feedback, "Incorrect!");
    assert_eq!(apply(None, out.update), Some(1));
}

#[test]
fn process_correct_guess_lowers_counter() {
    let w = word(1, "cat", "Katze");
    let out = process_guess(&w, Some(3), "cat", "practice-german", "german").unwrap();
    assert!(out.is_correct);
    assert_eq!(out.update, FailCountUpdate::Update(2));
    assert_eq!(out.feedback, "Correct!");
    let out = process_guess(&w, None, "cat", "practice-german", "german").unwrap();
    assert_eq!(out.update, FailCountUpdate::Unchanged);
}

#[test]
fn german_round_accepts_any_english_form() {
    let w = word(2, "big/large (size)/huge", "groß");
    assert_eq!(check_guess(&w, "Large", "practice-german", ""), Ok(true));
    assert_eq!(check_guess(&w, "small", "practice-german", ""), Ok(false));
    assert_eq!(check_guess(&w, "groß", "practice-german", ""), Ok(false));
}

#[test]
fn mixed_rounds_follow_displayed_language() {
    let w = word(3, "dog", "Hund (der)");
    for p in ["practice-mix", "practice-new", "practice-suckAt"] {
        assert_eq!(check_guess(&w, "dog", p, "german"), Ok(true));
        assert_eq!(check_guess(&w, "hund", p, "german"), Ok(false));
        assert_eq!(check_guess(&w, "hund", p, "english"), Ok(true));
        assert_eq!(check_guess(&w, "dog", p, "english"), Ok(false));
    }
}

#[test]
fn german_answer_with_alternatives() {
    let w = word(4, "house", "Haus/Gebäude");
    assert_eq!(check_guess(&w, "gebäude", "practice-english", ""), Ok(true));
}

#[test]
fn unknown_practice_type_is_rejected() {
    let w = word(1, "cat", "Katze");
    assert_eq!(check_guess(&w, "Katze", "practice-french", ""), Err(GuessError::InvalidPracticeType));
    assert!(process_guess(&w, None, "Katze", "practice-french", "").is_err());
    assert_eq!(GuessError::InvalidPracticeType.message(), "Invalid practice type.");
}

#[test]
fn feedback_texts() {
    assert_eq!(guess_feedback(true), "Correct!");
    assert_eq!(guess_feedback(false), "Incorrect!");
}

#[test]
fn fail_count_first_miss_creates_row() {
    assert_eq!(fail_count_update(None, false), FailCountUpdate::Insert(1));
    assert_eq!(fail_count_update(None, true), FailCountUpdate::Unchanged);
}

#[test]
fn fail_count_stays_within_bounds() {
    let mut current = None;
    for _ in 0..25 {
        current = apply(current, fail_count_update(current, false));
        let n = current.unwrap();
        assert!((0..=MAX_FAIL_COUNT).contains(&n));
    }
    assert_eq!(current, Some(10));
    assert_eq!(fail_count_update(Some(10), false), FailCountUpdate::Unchanged);
    for _ in 0..25 {
        current = apply(current, fail_count_update(current, true));
        let n = current.unwrap();
        assert!((0..=MAX_FAIL_COUNT).contains(&n));
    }
    assert_eq!(current, Some(0));
    assert_eq!(fail_count_update(Some(0), true), FailCountUpdate::Unchanged);
    assert_eq!(fail_count_update(Some(9), false), FailCountUpdate::Update(10));
    assert_eq!(fail_count_update(Some(1), true), FailCountUpdate::Update(0));
}

#[test]
fn recent_window_is_bounded_and_evicts_oldest() {
    let mut recent = RecentWords::new();
    for id in 1..=7 {
        recent.record(id);
        assert!(recent.len() <= RECENT_CAPACITY);
    }
    assert_eq!(recent.ids(), vec![3, 4, 5, 6, 7]);
    assert!(!recent.contains(1));
    assert!(recent.contains(3));
}

#[test]
fn six_selections_avoid_repeats() {
    let words: Vec<Word> = (1..=7).map(|i| word(i, "e", "g")).collect();
    let mut recent = RecentWords::new();
    let mut chosen = Vec::new();
    for _ in 0..6 {
        // Candidates always come with the first word in front.
        let w = recent.select_fresh(words.clone()).unwrap();
        assert!(recent.len() <= RECENT_CAPACITY);
        chosen.push(w.id);
    }
    assert_eq!(chosen, vec![1, 2, 3, 4, 5, 6]);
    assert_eq!(recent.ids(), vec![2, 3, 4, 5, 6]);
    let again = recent.select_fresh(words.clone()).unwrap();
    assert_eq!(again.id, 1);
}

#[test]
fn selection_errors() {
    let mut recent = RecentWords::new();
    assert_eq!(recent.select_fresh(Vec::new()), Err(SelectError::NotFound));
    recent.record(1);
    assert_eq!(recent.select_fresh(vec![word(1, "a", "b")]), Err(SelectError::Exhausted));
    assert_eq!(recent.ids(), vec![1]);
    assert_eq!(SelectError::NotFound.message(), "No word found.");
}

#[test]
fn next_word_excluding_sets() {
    let words = vec![word(1, "a", "b"), word(2, "c", "d"), word(3, "e", "f")];
    assert_eq!(next_word_excluding(words.clone(), &Vec::new()).unwrap().id, 1);
    assert_eq!(next_word_excluding(words.clone(), &vec![1, 2]).unwrap().id, 3);
    assert_eq!(next_word_excluding(words.clone(), &vec![3, 2, 1]), Err(SelectError::Exhausted));
    assert_eq!(next_word_excluding(Vec::new(), &vec![1]), Err(SelectError::NotFound));
}
