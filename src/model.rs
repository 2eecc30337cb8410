use vstd::prelude::*;

use crate::value::Tree;

verus! {

/// A transformation applied to the value of a successful parse.
pub enum Mapping {
    /// The first component of a pair (any other value is kept as it is).
    First,
    /// The second component of a pair (any other value is kept as it is).
    Second,
    /// A fixed value, whatever the parse yielded.
    Constant(Tree),
}

/// A parser, as a mathematical object.
pub enum Combinator {
    /// Never succeeds.
    Fail,
    /// Succeeds with `Unit`, consuming nothing.
    Succeed,
    /// One character equal to the given one.
    OneChar(char),
    /// One character between the two bounds, both included.
    CharRange(char, char),
    /// One character outside the given set.
    NoneOf(Seq<char>),
    /// One or more matches of the inner parser; yields the text they consumed.
    TakeWhile(Box<Combinator>),
    /// The first parser, then the second; yields the pair of their values.
    Then(Box<Combinator>, Box<Combinator>),
    /// The first parser, or else the second from the same place.
    Or(Box<Combinator>, Box<Combinator>),
    /// The body again and again until the terminator matches.
    RepeatUntil(Box<Combinator>, Box<Combinator>),
    /// The first parser, the middle one, and the first again over the same text.
    Twice(Box<Combinator>, Box<Combinator>),
    /// The parser, with its value transformed.
    Mapped(Box<Combinator>, Mapping),
}

/// The value `m` turns `t` into.
pub open spec fn apply(m: Mapping, t: Tree) -> Tree {
    match m {
        Mapping::First => match t {
            Tree::Pair(a, _) => *a,
            _ => t,
        },
        Mapping::Second => match t {
            Tree::Pair(_, b) => *b,
            _ => t,
        },
        Mapping::Constant(c) => c,
    }
}

/// What running `c` on input `s` from position `p` gives: `None` when it
/// fails, else the value it yields and the position it stops at.
pub open spec fn outcome(c: Combinator, s: Seq<char>, p: int) -> Option<(Tree, int)>
    decreases c, s.len() - p, 1int,
{
    match c {
        Combinator::Fail => None,
        Combinator::Succeed => Some((Tree::Unit, p)),
        Combinator::OneChar(x) => if 0 <= p < s.len() && s[p] == x {
            Some((Tree::Unit, p + 1))
        } else {
            None
        },
        Combinator::CharRange(lo, hi) => if 0 <= p < s.len() && lo <= s[p] && s[p] <= hi {
            Some((Tree::Unit, p + 1))
        } else {
            None
        },
        Combinator::NoneOf(set) => if 0 <= p < s.len() && !set.contains(s[p]) {
            Some((Tree::Unit, p + 1))
        } else {
            None
        },
        Combinator::TakeWhile(_) => {
            let e = take_end(c, s, p);
            if e > p {
                Some((Tree::Text(s.subrange(p, e)), e))
            } else {
                None
            }
        },
        Combinator::Then(a, b) => match outcome(*a, s, p) {
            Some((va, e1)) => match outcome(*b, s, e1) {
                Some((vb, e2)) => Some((Tree::Pair(Box::new(va), Box::new(vb)), e2)),
                None => None,
            },
            None => None,
        },
        Combinator::Or(a, b) => match outcome(*a, s, p) {
            Some(r) => Some(r),
            None => outcome(*b, s, p),
        },
        Combinator::RepeatUntil(_, _) => match repeat_items(c, s, p) {
            Some((ts, e)) => Some((Tree::List(ts), e)),
            None => None,
        },
        Combinator::Twice(a, m) => match outcome(*a, s, p) {
            Some((v1, e1)) => match outcome(*m, s, e1) {
                Some((v2, e2)) => match outcome(*a, s, e2) {
                    Some((_, e3)) => if p <= e1 && e2 <= e3 && e3 - e2 == e1 - p && s.subrange(p, e1) == s.subrange(
                        e2,
                        e3,
                    ) {
                        Some((Tree::Pair(Box::new(v1), Box::new(v2)), e3))
                    } else {
                        None
                    },
                    None => None,
                },
                None => None,
            },
            None => None,
        },
        Combinator::Mapped(a, m) => match outcome(*a, s, p) {
            Some((v, e)) => Some((apply(m, v), e)),
            None => None,
        },
    }
}

/// Where the matches of a `TakeWhile` that start at `p` end: the inner parser
/// is run while it succeeds and moves forward.
pub open spec fn take_end(c: Combinator, s: Seq<char>, p: int) -> int
    decreases c, s.len() - p, 0int,
{
    match c {
        Combinator::TakeWhile(q) => match outcome(*q, s, p) {
            Some((_, e)) => if p < e <= s.len() {
                take_end(c, s, e)
            } else {
                p
            },
            None => p,
        },
        _ => p,
    }
}

/// The values a `RepeatUntil` collects from `p` on, and where it stops. At
/// each step the terminator is tried first; if it matches, its text is
/// consumed and the loop ends. Otherwise the body must match and move forward,
/// or the whole repetition fails.
pub open spec fn repeat_items(c: Combinator, s: Seq<char>, p: int) -> Option<(Seq<Tree>, int)>
    decreases c, s.len() - p, 0int,
{
    match c {
        Combinator::RepeatUntil(body, term) => match outcome(*term, s, p) {
            Some((_, e)) => Some((Seq::empty(), e)),
            None => match outcome(*body, s, p) {
                Some((v, e)) => if p < e <= s.len() {
                    match repeat_items(c, s, e) {
                        Some((vs, e2)) => Some((seq![v] + vs, e2)),
                        None => None,
                    }
                } else {
                    None
                },
                None => None,
            },
        },
        _ => None,
    }
}

} // verus!
