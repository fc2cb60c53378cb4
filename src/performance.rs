//! The per-word failure counter: how a guess moves it, kept within
//! `0..=MAX_FAIL_COUNT`.
use vstd::prelude::*;

verus! {

/// The largest value the failure counter takes.
pub const MAX_FAIL_COUNT: i32 = 10;

/// A word's stored failure counter.
#[derive(Debug, Clone, Copy, PartialEq, Eq, Structural)]
pub struct UserWordPerformance {
    pub id: i32,
    pub fail_count: i32,
    pub word_id: i32,
}

/// What to do with a word's performance row after a guess.
#[derive(Debug, Clone, Copy, PartialEq, Eq, Structural)]
pub enum FailCountUpdate {
    /// Leave the row, or its absence, as it is.
    Unchanged,
    /// Store this counter in the existing row.
    Update(i32),
    /// Create the row with this counter.
    Insert(i32),
}

/// The change that a guess makes, given the word's current counter (`None`
/// when it has no row yet).
pub open spec fn update_for(current: Option<i32>, is_correct: bool) -> FailCountUpdate {
    match current {
        None => if is_correct {
            FailCountUpdate::Unchanged
        } else {
            FailCountUpdate::Insert(1)
        },
        Some(n) => if is_correct {
            if n > 0 {
                FailCountUpdate::Update((n - 1) as i32)
            } else {
                FailCountUpdate::Unchanged
            }
        } else {
            if n < MAX_FAIL_COUNT {
                FailCountUpdate::Update((n + 1) as i32)
            } else {
                FailCountUpdate::Unchanged
            }
        },
    }
}

/// The counter after a change is carried out.
pub open spec fn applied(current: Option<i32>, u: FailCountUpdate) -> Option<i32> {
    match u {
        FailCountUpdate::Unchanged => current,
        FailCountUpdate::Update(n) => Some(n),
        FailCountUpdate::Insert(n) => Some(n),
    }
}

/// The counter after one guess.
pub open spec fn fail_count_after(current: Option<i32>, is_correct: bool) -> Option<i32> {
    applied(current, update_for(current, is_correct))
}

/// The counter after a run of guesses, first to last.
pub open spec fn fail_count_after_all(current: Option<i32>, outcomes: Seq<bool>) -> Option<i32>
    decreases outcomes.len(),
{
    if outcomes.len() == 0 {
        current
    } else {
        fail_count_after_all(fail_count_after(current, outcomes[0]), outcomes.drop_first())
    }
}

/// A counter within its bounds, or no row at all.
pub open spec fn in_bounds(current: Option<i32>) -> bool {
    match current {
        None => true,
        Some(n) => 0 <= n <= MAX_FAIL_COUNT,
    }
}

/// The change to make after a guess: a right one lowers a positive counter
/// by one, a wrong one raises a counter below the maximum by one, and the
/// first wrong one for a word without a row creates it with a count of one.
pub fn fail_count_update(current: Option<i32>, is_correct: bool) -> (r: FailCountUpdate)
    ensures
        r == update_for(current, is_correct),
{
    match current {
        None => if is_correct {
            FailCountUpdate::Unchanged
        } else {
            FailCountUpdate::Insert(1)
        },
        Some(n) => if is_correct {
            if n > 0 {
                FailCountUpdate::Update(n - 1)
            } else {
                FailCountUpdate::Unchanged
            }
        } else {
            if n < MAX_FAIL_COUNT {
                FailCountUpdate::Update(n + 1)
            } else {
                FailCountUpdate::Unchanged
            }
        },
    }
}

/// The counter never leaves `0..=MAX_FAIL_COUNT`, whatever the guesses.
pub proof fn lemma_fail_count_stays_in_bounds(current: Option<i32>, outcomes: Seq<bool>)
    requires
        in_bounds(current),
    ensures
        in_bounds(fail_count_after_all(current, outcomes)),
    decreases outcomes.len(),
{
    if outcomes.len() > 0 {
        lemma_fail_count_stays_in_bounds(
            fail_count_after(current, outcomes[0]),
            outcomes.drop_first(),
        );
    }
}

/// Enough wrong guesses in a row bring the counter to the maximum, and more
/// of them leave it there.
pub proof fn lemma_misses_saturate(current: Option<i32>, misses: nat)
    requires
        in_bounds(current),
        misses >= MAX_FAIL_COUNT,
    ensures
        fail_count_after_all(current, Seq::new(misses, |i: int| false)) == Some(MAX_FAIL_COUNT),
    decreases misses,
{
    let next = fail_count_after(current, false);
    let rest = Seq::new((misses - 1) as nat, |i: int| false);
    assert(Seq::new(misses, |i: int| false).drop_first() =~= rest);
    if misses - 1 >= MAX_FAIL_COUNT {
        lemma_misses_saturate(next, (misses - 1) as nat);
    } else {
        lemma_misses_climb(next, (misses - 1) as nat);
    }
}

proof fn lemma_misses_climb(current: Option<i32>, misses: nat)
    requires
        current is Some,
        0 <= current->0 <= MAX_FAIL_COUNT,
        current->0 + misses >= MAX_FAIL_COUNT,
    ensures
        fail_count_after_all(current, Seq::new(misses, |i: int| false)) == Some(MAX_FAIL_COUNT),
    decreases misses,
{
    if misses > 0 {
        let rest = Seq::new((misses - 1) as nat, |i: int| false);
        assert(Seq::new(misses, |i: int| false).drop_first() =~= rest);
        lemma_misses_climb(fail_count_after(current, false), (misses - 1) as nat);
    }
}

/// Right guesses bring a counter down to zero, and more of them leave it
/// there; a word without a row keeps having none.
pub proof fn lemma_hits_reach_zero(current: Option<i32>, hits: nat)
    requires
        in_bounds(current),
        current is Some ==> hits >= current->0,
    ensures
        fail_count_after_all(current, Seq::new(hits, |i: int| true)) == (match current {
            None => None,
            Some(_) => Some(0i32),
        }),
    decreases hits,
{
    if hits > 0 {
        let rest = Seq::new((hits - 1) as nat, |i: int| true);
        assert(Seq::new(hits, |i: int| true).drop_first() =~= rest);
        if current is Some && current->0 == 0 {
            lemma_hits_reach_zero(current, (hits - 1) as nat);
        } else {
            lemma_hits_reach_zero(fail_count_after(current, true), (hits - 1) as nat);
        }
    }
}

} // verus!
