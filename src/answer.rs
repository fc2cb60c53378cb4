//! Matching a guess against a stored answer that may list several accepted
//! forms separated by `/`.
use vstd::prelude::*;
use crate::text::{normalize, normalized};

verus! {

/// The parts of `s` between `/` separators, as `str::split('/')` yields them:
/// always at least one, possibly empty.
pub open spec fn pieces(s: Seq<char>) -> Seq<Seq<char>>
    decreases s.len(),
{
    if s.len() == 0 {
        seq![Seq::<char>::empty()]
    } else if s.last() == '/' {
        pieces(s.drop_last()).push(Seq::<char>::empty())
    } else {
        let p = pieces(s.drop_last());
        p.update(p.len() - 1, p.last().push(s.last()))
    }
}

/// The views of a vector of strings.
pub open spec fn views(v: Seq<String>) -> Seq<Seq<char>> {
    v.map_values(|p: String| p@)
}

/// The parts of `s` between `/` separators.
pub fn split_answers(s: &str) -> (r: Vec<String>)
    ensures
        views(r@) == pieces(s@),
{
    let n = s.unicode_len();
    let mut parts: Vec<String> = Vec::new();
    let mut start: usize = 0;
    let mut i: usize = 0;
    assert(s@.subrange(0, 0) =~= Seq::<char>::empty());
    assert(views(parts@).push(s@.subrange(0, 0)) =~= seq![Seq::<char>::empty()]);
    while i < n
        invariant
            n == s@.len(),
            start <= i <= n,
            pieces(s@.subrange(0, i as int)) == views(parts@).push(
                s@.subrange(start as int, i as int),
            ),
        decreases n - i,
    {
        let c = s.get_char(i);
        let ghost before = s@.subrange(0, i as int);
        let ghost after = s@.subrange(0, i + 1);
        assert(after.drop_last() =~= before);
        if c == '/' {
            let part = String::from_str(s.substring_char(start, i));
            parts.push(part);
            start = i + 1;
            assert(s@.subrange(start as int, i + 1) =~= Seq::<char>::empty());
            assert(views(parts@) =~= views(parts@.drop_last()).push(part@));
        } else {
            assert(s@.subrange(start as int, i + 1) =~= s@.subrange(start as int, i as int).push(
                c,
            ));
            assert(pieces(after) =~= views(parts@).push(s@.subrange(start as int, i + 1)));
        }
        i = i + 1;
    }
    let last = String::from_str(s.substring_char(start, n));
    parts.push(last);
    assert(s@.subrange(0, n as int) =~= s@);
    assert(views(parts@) =~= views(parts@.drop_last()).push(last@));
    parts
}

/// `guess` is accepted for the stored answer `stored`: once normalized it
/// equals one of the normalized `/`-separated parts of `stored`.
pub open spec fn accepts(stored: Seq<char>, guess: Seq<char>) -> bool {
    exists|k: int|
        0 <= k < pieces(stored).len() && #[trigger] normalized(pieces(stored)[k]) == normalized(
            guess,
        )
}

/// Whether `guess` is accepted for the stored answer `stored`.
pub fn matches_answer(stored: &str, guess: &str) -> (r: bool)
    ensures
        r == accepts(stored@, guess@),
{
    let wanted = normalize(guess);
    let parts = split_answers(stored);
    let ghost ps = pieces(stored@);
    let mut k: usize = 0;
    while k < parts.len()
        invariant
            views(parts@) == ps,
            ps == pieces(stored@),
            wanted@ == normalized(guess@),
            k <= parts.len(),
            forall|j: int| 0 <= j < k ==> #[trigger] normalized(ps[j]) != normalized(guess@),
        decreases parts.len() - k,
    {
        let candidate = normalize(parts[k].as_str());
        assert(parts@[k as int]@ == ps[k as int]);
        if candidate == wanted {
            return true;
        }
        k = k + 1;
    }
    false
}

} // verus!
