//! The window of recently displayed words and the choice of the next word
//! to show.
use vstd::prelude::*;
use crate::word::Word;

verus! {

/// How many recently displayed words are kept.
pub const RECENT_CAPACITY: usize = 5;

/// The last `n` elements of `s` (all of it when it is shorter).
pub open spec fn last_n(s: Seq<i32>, n: nat) -> Seq<i32> {
    if s.len() > n {
        s.subrange(s.len() - n, s.len() as int)
    } else {
        s
    }
}

/// The window after `id` is displayed: it is appended, and the oldest entry
/// leaves once there are more than `RECENT_CAPACITY`.
pub open spec fn recorded(s: Seq<i32>, id: i32) -> Seq<i32> {
    if s.len() + 1 > RECENT_CAPACITY {
        s.push(id).drop_first()
    } else {
        s.push(id)
    }
}

/// The window after each of `ids` is displayed, first to last.
pub open spec fn recorded_all(s: Seq<i32>, ids: Seq<i32>) -> Seq<i32>
    decreases ids.len(),
{
    if ids.len() == 0 {
        s
    } else {
        recorded(recorded_all(s, ids.drop_last()), ids.last())
    }
}

/// Ids of the last words displayed, oldest first.
pub struct RecentWords {
    ids: Vec<i32>,
}

impl View for RecentWords {
    type V = Seq<i32>;

    closed spec fn view(&self) -> Seq<i32> {
        self.ids@
    }
}

/// Why no word could be chosen.
#[derive(Debug, Clone, Copy, PartialEq, Eq, Structural)]
pub enum SelectError {
    /// There was no candidate at all.
    NotFound,
    /// Every candidate is excluded.
    Exhausted,
}

impl SelectError {
    /// The message shown for this error.
    pub fn message(&self) -> (r: String)
        ensures
            *self == SelectError::NotFound ==> r@ == "No word found."@,
            *self == SelectError::Exhausted ==> r@ == "Every matching word was shown lately."@,
    {
        match self {
            SelectError::NotFound => String::from_str("No word found."),
            SelectError::Exhausted => String::from_str("Every matching word was shown lately."),
        }
    }
}

/// `i` is the first index of `words` whose id is not in `excluded`.
pub open spec fn is_first_outside(words: Seq<Word>, excluded: Seq<i32>, i: int) -> bool {
    &&& 0 <= i < words.len()
    &&& !excluded.contains(words[i].id)
    &&& forall|k: int| 0 <= k < i ==> excluded.contains(#[trigger] words[k].id)
}

/// Every id of `words` is in `excluded`.
pub open spec fn all_excluded(words: Seq<Word>, excluded: Seq<i32>) -> bool {
    forall|k: int| 0 <= k < words.len() ==> excluded.contains(#[trigger] words[k].id)
}

/// Whether `id` is in `ids`.
fn holds_id(ids: &Vec<i32>, id: i32) -> (r: bool)
    ensures
        r == ids@.contains(id),
{
    let mut i: usize = 0;
    while i < ids.len()
        invariant
            i <= ids.len(),
            forall|k: int| 0 <= k < i ==> ids@[k] != id,
        decreases ids.len() - i,
    {
        if ids[i] == id {
            assert(ids@[i as int] == id);
            return true;
        }
        i = i + 1;
    }
    false
}

/// The first index of `words` whose id is not in `excluded`, if any.
fn first_outside(words: &Vec<Word>, excluded: &Vec<i32>) -> (r: Option<usize>)
    ensures
        r is Some ==> is_first_outside(words@, excluded@, r->0 as int),
        r is None ==> all_excluded(words@, excluded@),
{
    let mut i: usize = 0;
    while i < words.len()
        invariant
            i <= words.len(),
            forall|k: int| 0 <= k < i ==> excluded@.contains(#[trigger] words@[k].id),
        decreases words.len() - i,
    {
        if !holds_id(excluded, words[i].id) {
            return Some(i);
        }
        i = i + 1;
    }
    None
}

/// `r` is the first of `candidates` whose id is not in `excluded`; or
/// `NotFound` when there are no candidates, `Exhausted` when all are excluded.
pub open spec fn chosen_ok(candidates: Seq<Word>, excluded: Seq<i32>, r: Result<Word, SelectError>) -> bool {
    &&& candidates.len() == 0 ==> r == Err::<Word, SelectError>(SelectError::NotFound)
    &&& candidates.len() > 0 && all_excluded(candidates, excluded) ==> r == Err::<Word, SelectError>(
        SelectError::Exhausted,
    )
    &&& !all_excluded(candidates, excluded) ==> exists|i: int|
        is_first_outside(candidates, excluded, i) && r == Ok::<Word, SelectError>(
            #[trigger] candidates[i],
        )
}

/// The first of `candidates` whose id is not in `excluded`. Candidates come
/// in random order, so this is a uniform choice among those not excluded.
pub fn next_word_excluding(candidates: Vec<Word>, excluded: &Vec<i32>) -> (r: Result<Word, SelectError>)
    ensures
        chosen_ok(candidates@, excluded@, r),
{
    let mut candidates = candidates;
    if candidates.len() == 0 {
        return Err(SelectError::NotFound);
    }
    match first_outside(&candidates, excluded) {
        Some(i) => {
            let ghost all = candidates@;
            let w = candidates.remove(i);
            assert(is_first_outside(all, excluded@, i as int) && w == all[i as int]);
            Ok(w)
        },
        None => Err(SelectError::Exhausted),
    }
}

impl RecentWords {
    /// Holds at most `RECENT_CAPACITY` ids.
    pub closed spec fn wf(&self) -> bool {
        self.ids@.len() <= RECENT_CAPACITY
    }

    /// An empty window.
    pub fn new() -> (r: RecentWords)
        ensures
            r.wf(),
            r@ == Seq::<i32>::empty(),
    {
        RecentWords { ids: Vec::new() }
    }

    /// The number of ids held.
    pub fn len(&self) -> (r: usize)
        ensures
            r == self@.len(),
    {
        self.ids.len()
    }

    /// The ids held, oldest first.
    pub fn ids(&self) -> (r: Vec<i32>)
        ensures
            r@ == self@,
    {
        self.ids.clone()
    }

    /// Whether `id` was displayed lately.
    pub fn contains(&self, id: i32) -> (r: bool)
        ensures
            r == self@.contains(id),
    {
        holds_id(&self.ids, id)
    }

    /// Notes that the word `id` was displayed.
    pub fn record(&mut self, id: i32)
        requires
            old(self).wf(),
        ensures
            final(self).wf(),
            final(self)@ == recorded(old(self)@, id),
    {
        self.ids.push(id);
        if self.ids.len() > RECENT_CAPACITY {
            self.ids.remove(0);
        }
        assert(self.ids@ =~= recorded(old(self)@, id));
    }

    /// Chooses the first of `candidates` that was not displayed lately and
    /// notes it as displayed; without such a candidate the window stays as
    /// it is.
    pub fn select_fresh(&mut self, candidates: Vec<Word>) -> (r: Result<Word, SelectError>)
        requires
            old(self).wf(),
        ensures
            final(self).wf(),
            chosen_ok(candidates@, old(self)@, r),
            r is Ok ==> final(self)@ == recorded(old(self)@, r->Ok_0.id),
            r is Err ==> final(self)@ == old(self)@,
    {
        let r = next_word_excluding(candidates, &self.ids);
        match &r {
            Ok(w) => self.record(w.id),
            Err(_) => {},
        }
        r
    }
}

/// Starting from a window of at most `RECENT_CAPACITY` ids, the window after
/// more words are displayed holds exactly the last `RECENT_CAPACITY` ids
/// displayed, oldest first.
pub proof fn lemma_window_holds_last(s: Seq<i32>, ids: Seq<i32>)
    requires
        s.len() <= RECENT_CAPACITY,
    ensures
        recorded_all(s, ids) == last_n(s + ids, RECENT_CAPACITY as nat),
    decreases ids.len(),
{
    if ids.len() == 0 {
        assert(s + ids =~= s);
    } else {
        let before = ids.drop_last();
        lemma_window_holds_last(s, before);
        let w = last_n(s + before, RECENT_CAPACITY as nat);
        assert(s + ids =~= (s + before).push(ids.last()));
        assert(recorded(w, ids.last()) =~= last_n(s + ids, RECENT_CAPACITY as nat));
    }
}

/// A word just displayed stays in the window, and so cannot be chosen
/// again, while fewer than `RECENT_CAPACITY` further words are displayed;
/// once `RECENT_CAPACITY` others have been displayed it has left.
pub proof fn lemma_displayed_word_evicted_last(s: Seq<i32>, id: i32, later: Seq<i32>)
    requires
        s.len() <= RECENT_CAPACITY,
    ensures
        later.len() < RECENT_CAPACITY ==> recorded_all(recorded(s, id), later).contains(id),
        later.len() >= RECENT_CAPACITY && !later.contains(id) ==> !recorded_all(
            recorded(s, id),
            later,
        ).contains(id),
        recorded_all(recorded(s, id), later).len() <= RECENT_CAPACITY,
{
    let t = recorded(s, id);
    assert(t.len() <= RECENT_CAPACITY);
    assert(t.last() == id);
    lemma_window_holds_last(t, later);
    let all = t + later;
    let w = last_n(all, RECENT_CAPACITY as nat);
    if later.len() < RECENT_CAPACITY {
        let k = t.len() - 1;
        assert(all[k] == id);
        if all.len() > RECENT_CAPACITY {
            assert(w[k - (all.len() - RECENT_CAPACITY)] == id);
        } else {
            assert(w[k] == id);
        }
    }
    if later.len() >= RECENT_CAPACITY && !later.contains(id) {
        assert forall|j: int| 0 <= j < w.len() implies w[j] != id by {
            let src = all.len() - RECENT_CAPACITY + j;
            assert(w[j] == later[src - t.len()]);
        }
    }
}

} // verus!
