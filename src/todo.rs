//! Todo records: a description and a two-valued status, with no rules
//! between them beyond a description being present.
use vstd::prelude::*;
use crate::text::{trim, trimmed};
use crate::word::same_text;

verus! {

/// Whether a todo is done.
#[derive(Debug, Clone, Copy, PartialEq, Eq, Structural)]
pub enum TodoStatus {
    Incomplete,
    Complete,
}

/// The stored text of a status.
pub open spec fn status_text(s: TodoStatus) -> Seq<char> {
    match s {
        TodoStatus::Incomplete => "Incomplete"@,
        TodoStatus::Complete => "Complete"@,
    }
}

/// The status whose stored text is `t`, if any.
pub open spec fn status_of(t: Seq<char>) -> Option<TodoStatus> {
    if t == "Incomplete"@ {
        Some(TodoStatus::Incomplete)
    } else if t == "Complete"@ {
        Some(TodoStatus::Complete)
    } else {
        None
    }
}

impl TodoStatus {
    /// The stored text of this status.
    pub fn as_text(&self) -> (r: String)
        ensures
            r@ == status_text(*self),
    {
        match self {
            TodoStatus::Incomplete => String::from_str("Incomplete"),
            TodoStatus::Complete => String::from_str("Complete"),
        }
    }

    /// The status stored as `t`, if `t` names one.
    pub fn from_text(t: &str) -> (r: Option<TodoStatus>)
        ensures
            r == status_of(t@),
    {
        if same_text(t, "Incomplete") {
            Some(TodoStatus::Incomplete)
        } else if same_text(t, "Complete") {
            Some(TodoStatus::Complete)
        } else {
            None
        }
    }
}

/// A todo record.
#[derive(Debug, Clone, PartialEq, Eq)]
pub struct Todo {
    pub id: i32,
    pub description: String,
    pub status: TodoStatus,
}

/// Why a todo was refused.
#[derive(Debug, Clone, Copy, PartialEq, Eq, Structural)]
pub enum TodoError {
    /// The description is empty or only white space.
    MissingDescription,
}

impl TodoError {
    /// The message shown for this error.
    pub fn message(&self) -> (r: String)
        ensures
            r@ == "A todo needs a description."@,
    {
        String::from_str("A todo needs a description.")
    }
}

/// Accepts a description that holds something besides white space.
pub fn check_description(description: &str) -> (r: Result<(), TodoError>)
    ensures
        r is Ok <==> trimmed(description@).len() > 0,
        r is Err ==> r->Err_0 == TodoError::MissingDescription,
{
    let t = trim(description);
    if t.unicode_len() == 0 {
        Err(TodoError::MissingDescription)
    } else {
        Ok(())
    }
}

/// Reading back the stored text of a status gives the status.
pub proof fn lemma_status_text_round_trip(s: TodoStatus)
    ensures
        status_of(status_text(s)) == Some(s),
{
    reveal_strlit("Incomplete");
    reveal_strlit("Complete");
    assert("Complete"@.len() != "Incomplete"@.len());
}

} // verus!
