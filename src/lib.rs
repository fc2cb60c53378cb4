//! Answer checking, failure bookkeeping and word selection for a
//! vocabulary-flashcard quiz.

pub mod answer;
pub mod performance;
pub mod recent;
pub mod text;
pub mod todo;
pub mod word;
