//! Word records and the evaluation of a guess for one practice round.
use vstd::prelude::*;
use crate::answer::{accepts, matches_answer};
use crate::performance::{fail_count_update, update_for, FailCountUpdate};

verus! {

/// A stored pair of an English and a German term.
#[derive(Debug, Clone, PartialEq, Eq)]
pub struct Word {
    pub id: i32,
    pub english_word: String,
    pub german_word: String,
    pub date_added: Option<String>,
}

/// The kinds of practice round.
#[derive(Debug, Clone, Copy, PartialEq, Eq, Structural)]
pub enum PracticeType {
    /// English is shown, German is asked for.
    English,
    /// German is shown, English is asked for.
    German,
    /// Either language may be shown.
    Mix,
    /// Either language may be shown; words added lately.
    New,
    /// Either language may be shown; words missed before.
    SuckAt,
}

/// The practice type that `s` names, if any.
pub open spec fn practice_of(s: Seq<char>) -> Option<PracticeType> {
    if s == "practice-english"@ {
        Some(PracticeType::English)
    } else if s == "practice-german"@ {
        Some(PracticeType::German)
    } else if s == "practice-mix"@ {
        Some(PracticeType::Mix)
    } else if s == "practice-new"@ {
        Some(PracticeType::New)
    } else if s == "practice-suckAt"@ {
        Some(PracticeType::SuckAt)
    } else {
        None
    }
}

/// Whether two texts are equal.
pub fn same_text(a: &str, b: &str) -> (r: bool)
    ensures
        r == (a@ == b@),
{
    let n = a.unicode_len();
    if n != b.unicode_len() {
        return false;
    }
    let mut i: usize = 0;
    while i < n
        invariant
            n == a@.len(),
            n == b@.len(),
            i <= n,
            forall|k: int| 0 <= k < i ==> a@[k] == b@[k],
        decreases n - i,
    {
        if a.get_char(i) != b.get_char(i) {
            return false;
        }
        i = i + 1;
    }
    assert(a@ =~= b@);
    true
}

/// The practice type named by `s`, if it names one.
pub fn parse_practice_type(s: &str) -> (r: Option<PracticeType>)
    ensures
        r == practice_of(s@),
{
    if same_text(s, "practice-english") {
        Some(PracticeType::English)
    } else if same_text(s, "practice-german") {
        Some(PracticeType::German)
    } else if same_text(s, "practice-mix") {
        Some(PracticeType::Mix)
    } else if same_text(s, "practice-new") {
        Some(PracticeType::New)
    } else if same_text(s, "practice-suckAt") {
        Some(PracticeType::SuckAt)
    } else {
        None
    }
}

/// Whether the English term is the one asked for: in a German round, or in
/// a mixed round while German is shown.
pub open spec fn asks_for_english(p: PracticeType, shown: Seq<char>) -> bool {
    match p {
        PracticeType::English => false,
        PracticeType::German => true,
        _ => shown == "german"@,
    }
}

/// The stored text that a guess is compared with.
pub open spec fn expected_text(w: Word, p: PracticeType, shown: Seq<char>) -> Seq<char> {
    if asks_for_english(p, shown) {
        w.english_word@
    } else {
        w.german_word@
    }
}

/// Why a guess could not be evaluated.
#[derive(Debug, Clone, Copy, PartialEq, Eq, Structural)]
pub enum GuessError {
    /// The practice type is not one of the known ones.
    InvalidPracticeType,
}

impl GuessError {
    /// The message shown for this error.
    pub fn message(&self) -> (r: String)
        ensures
            r@ == "Invalid practice type."@,
    {
        String::from_str("Invalid practice type.")
    }
}

/// Evaluates `guess` for `word` in a round of the practice type named
/// `practice_type`, where `lan_displayed` names the language shown.
pub fn check_guess(word: &Word, guess: &str, practice_type: &str, lan_displayed: &str) -> (r:
    Result<bool, GuessError>)
    ensures
        practice_of(practice_type@) is None ==> r == Err::<bool, GuessError>(
            GuessError::InvalidPracticeType,
        ),
        practice_of(practice_type@) is Some ==> r == Ok::<bool, GuessError>(
            accepts(expected_text(*word, practice_of(practice_type@)->0, lan_displayed@), guess@),
        ),
{
    let p = match parse_practice_type(practice_type) {
        Some(p) => p,
        None => return Err(GuessError::InvalidPracticeType),
    };
    let english = match p {
        PracticeType::English => false,
        PracticeType::German => true,
        _ => same_text(lan_displayed, "german"),
    };
    if english {
        Ok(matches_answer(word.english_word.as_str(), guess))
    } else {
        Ok(matches_answer(word.german_word.as_str(), guess))
    }
}

/// The reply shown for a guess that was right or wrong.
pub fn guess_feedback(is_correct: bool) -> (r: String)
    ensures
        is_correct ==> r@ == "Correct!"@,
        !is_correct ==> r@ == "Incorrect!"@,
{
    if is_correct {
        String::from_str("Correct!")
    } else {
        String::from_str("Incorrect!")
    }
}

/// What a guess leads to: whether it was right, the change to the word's
/// failure counter, and the reply to show.
#[derive(Debug)]
pub struct GuessOutcome {
    pub is_correct: bool,
    pub update: FailCountUpdate,
    pub feedback: String,
}

/// Evaluates `guess` for `word` and works out the change to its failure
/// counter `current` (`None` when the word has no performance row).
pub fn process_guess(
    word: &Word,
    current: Option<i32>,
    guess: &str,
    practice_type: &str,
    lan_displayed: &str,
) -> (r: Result<GuessOutcome, GuessError>)
    ensures
        practice_of(practice_type@) is None ==> r is Err && r->Err_0
            == GuessError::InvalidPracticeType,
        practice_of(practice_type@) is Some ==> r is Ok && ({
            let ok = accepts(
                expected_text(*word, practice_of(practice_type@)->0, lan_displayed@),
                guess@,
            );
            &&& r->Ok_0.is_correct == ok
            &&& r->Ok_0.update == update_for(current, ok)
            &&& ok ==> r->Ok_0.feedback@ == "Correct!"@
            &&& !ok ==> r->Ok_0.feedback@ == "Incorrect!"@
        }),
{
    let is_correct = match check_guess(word, guess, practice_type, lan_displayed) {
        Ok(b) => b,
        Err(e) => return Err(e),
    };
    let update = fail_count_update(current, is_correct);
    let feedback = guess_feedback(is_correct);
    Ok(GuessOutcome { is_correct, update, feedback })
}

} // verus!
