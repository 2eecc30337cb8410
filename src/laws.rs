use vstd::prelude::*;

use crate::model::{outcome, repeat_items, take_end, Combinator};
use crate::value::Tree;

verus! {

/// When both alternatives fail, so does their alternation: the failure of
/// the first one is the one reported, and nothing is consumed.
pub proof fn lemma_alternation_failure(a: Combinator, b: Combinator, s: Seq<char>, p: int)
    requires
        outcome(a, s, p) is None,
        outcome(b, s, p) is None,
    ensures
        outcome(Combinator::Or(Box::new(a), Box::new(b)), s, p) is None,
{
}

/// A `TakeWhile` whose inner parser fails at once fails too; whenever it
/// succeeds, the text it yields is not empty and is exactly what it consumed.
pub proof fn lemma_take_while_nonempty(q: Combinator, s: Seq<char>, p: int)
    requires
        0 <= p <= s.len(),
    ensures
        outcome(q, s, p) is None ==> outcome(Combinator::TakeWhile(Box::new(q)), s, p) is None,
        match outcome(Combinator::TakeWhile(Box::new(q)), s, p) {
            Some((t, e)) => p < e && t == Tree::Text(s.subrange(p, e)) && s.subrange(p, e).len()
                > 0,
            None => true,
        },
{
    let c = Combinator::TakeWhile(Box::new(q));
    if outcome(q, s, p) is None {
        assert(take_end(c, s, p) == p);
    }
    lemma_take_end_bounds(c, s, p);
}

/// The matches of a `TakeWhile` end between where they start and the end of
/// the input.
pub proof fn lemma_take_end_bounds(c: Combinator, s: Seq<char>, p: int)
    requires
        p <= s.len(),
    ensures
        p <= take_end(c, s, p) <= s.len(),
    decreases s.len() - p,
{
    if let Combinator::TakeWhile(q) = c {
        if let Some((_, e)) = outcome(*q, s, p) {
            if p < e <= s.len() {
                lemma_take_end_bounds(c, s, e);
            }
        }
    }
}

/// Where the bracket-repeat succeeds, the first and the second match of its
/// outer parser span the same text.
pub proof fn lemma_twice_symmetric(a: Combinator, m: Combinator, s: Seq<char>, p: int)
    requires
        outcome(Combinator::Twice(Box::new(a), Box::new(m)), s, p) is Some,
    ensures
        ({
            let e1 = outcome(a, s, p)->Some_0.1;
            let e2 = outcome(m, s, e1)->Some_0.1;
            let e3 = outcome(a, s, e2)->Some_0.1;
            &&& outcome(Combinator::Twice(Box::new(a), Box::new(m)), s, p)->Some_0.1 == e3
            &&& e3 - e2 == e1 - p
            &&& s.subrange(p, e1) == s.subrange(e2, e3)
        }),
{
}

/// A repetition whose body matches twice and then fails, before the
/// terminator was ever seen, fails as a whole: no partial list comes out.
pub proof fn lemma_repeat_all_or_nothing(
    body: Combinator,
    term: Combinator,
    s: Seq<char>,
    p: int,
    e1: int,
    e2: int,
)
    requires
        p < e1 < e2 <= s.len(),
        outcome(term, s, p) is None,
        outcome(body, s, p) matches Some((_, e)) && e == e1,
        outcome(term, s, e1) is None,
        outcome(body, s, e1) matches Some((_, e)) && e == e2,
        outcome(term, s, e2) is None,
        outcome(body, s, e2) is None,
    ensures
        outcome(Combinator::RepeatUntil(Box::new(body), Box::new(term)), s, p) is None,
{
    let c = Combinator::RepeatUntil(Box::new(body), Box::new(term));
    assert(repeat_items(c, s, e2) is None);
    assert(repeat_items(c, s, e1) is None);
    assert(repeat_items(c, s, p) is None);
}

/// A parser that succeeds never moves the cursor backwards, nor past the end
/// of the input.
pub proof fn lemma_outcome_bounds(c: Combinator, s: Seq<char>, p: int)
    requires
        0 <= p <= s.len(),
    ensures
        outcome(c, s, p) matches Some((_, e)) ==> p <= e <= s.len(),
    decreases c, s.len() - p, 1int,
{
    match c {
        Combinator::TakeWhile(_) => {
            lemma_take_end_bounds(c, s, p);
        },
        Combinator::Then(a, b) => {
            lemma_outcome_bounds(*a, s, p);
            if let Some((_, e1)) = outcome(*a, s, p) {
                lemma_outcome_bounds(*b, s, e1);
            }
        },
        Combinator::Or(a, b) => {
            lemma_outcome_bounds(*a, s, p);
            lemma_outcome_bounds(*b, s, p);
        },
        Combinator::RepeatUntil(_, _) => {
            lemma_repeat_bounds(c, s, p);
        },
        Combinator::Twice(a, m) => {
            lemma_outcome_bounds(*a, s, p);
            if let Some((_, e1)) = outcome(*a, s, p) {
                lemma_outcome_bounds(*m, s, e1);
                if let Some((_, e2)) = outcome(*m, s, e1) {
                    lemma_outcome_bounds(*a, s, e2);
                }
            }
        },
        Combinator::Mapped(a, _) => {
            lemma_outcome_bounds(*a, s, p);
        },
        _ => {},
    }
}

/// A repetition that succeeds ends between where it starts and the end of
/// the input.
pub proof fn lemma_repeat_bounds(c: Combinator, s: Seq<char>, p: int)
    requires
        0 <= p <= s.len(),
    ensures
        repeat_items(c, s, p) matches Some((_, e)) ==> p <= e <= s.len(),
    decreases c, s.len() - p, 0int,
{
    if let Combinator::RepeatUntil(body, term) = c {
        lemma_outcome_bounds(*term, s, p);
        if outcome(*term, s, p) is None {
            if let Some((_, e)) = outcome(*body, s, p) {
                if p < e <= s.len() {
                    lemma_repeat_bounds(c, s, e);
                }
            }
        }
    }
}

} // verus!
