use vstd::prelude::*;

use crate::cursor::chars_of;
use crate::model::{outcome, Combinator, Mapping};
use crate::parser::{Operation, Transform};
use crate::value::{Tree, Value};

verus! {

/// The views of the parsers in `v`.
pub open spec fn views(v: Seq<Operation>) -> Seq<Combinator> {
    Seq::new(v.len(), |i: int| v[i]@)
}

/// The alternation of `cs` from left to right, starting from a parser that
/// never succeeds.
pub open spec fn any_of(cs: Seq<Combinator>) -> Combinator
    decreases cs.len(),
{
    if cs.len() == 0 {
        Combinator::Fail
    } else {
        Combinator::Or(Box::new(any_of(cs.drop_last())), Box::new(cs.last()))
    }
}

/// The parser that matches the characters of `w` one after the other.
pub open spec fn word(w: Seq<char>) -> Combinator
    decreases w.len(),
{
    if w.len() == 0 {
        Combinator::Succeed
    } else {
        Combinator::Mapped(
            Box::new(
                Combinator::Then(Box::new(word(w.drop_last())), Box::new(Combinator::OneChar(w.last()))),
            ),
            Mapping::Constant(Tree::Unit),
        )
    }
}

/// A literal sequence matches exactly where the input spells it out, and
/// consumes it.
pub proof fn lemma_word(w: Seq<char>, s: Seq<char>, p: int)
    requires
        0 <= p <= s.len(),
    ensures
        outcome(word(w), s, p) == if p + w.len() <= s.len() && s.subrange(p, p + w.len()) == w {
            Some((Tree::Unit, p + w.len()))
        } else {
            None
        },
    decreases w.len(),
{
    if w.len() == 0 {
        assert(s.subrange(p, p) =~= w);
    } else {
        let n = w.len() as int;
        let w1 = w.drop_last();
        lemma_word(w1, s, p);
        let inner = Combinator::Then(Box::new(word(w1)), Box::new(Combinator::OneChar(w.last())));
        assert(word(w) == Combinator::Mapped(Box::new(inner), Mapping::Constant(Tree::Unit)));
        assert(outcome(word(w), s, p) == match outcome(inner, s, p) {
            Some((v, e)) => Some((Tree::Unit, e)),
            None => None,
        });
        assert(outcome(inner, s, p) == match outcome(word(w1), s, p) {
            Some((v, e)) => match outcome(Combinator::OneChar(w.last()), s, e) {
                Some((v2, e2)) => Some((Tree::Pair(Box::new(v), Box::new(v2)), e2)),
                None => None,
            },
            None => None,
        });
        if p + n <= s.len() && s.subrange(p, p + n) == w {
            assert(s.subrange(p, p + n - 1) =~= w1);
            assert(s[p + n - 1] == s.subrange(p, p + n)[n - 1]);
        } else if p + n <= s.len() {
            if s.subrange(p, p + n - 1) == w1 && s[p + n - 1] == w.last() {
                assert(s.subrange(p, p + n) =~= w);
            }
        }
    }
}

/// One character equal to `c`.
pub fn one_char(c: char) -> (r: Operation)
    ensures
        r@ == Combinator::OneChar(c),
        forall|s: Seq<char>, p: int|
            #[trigger] outcome(r@, s, p) == if 0 <= p < s.len() && s[p] == c {
                Some((Tree::Unit, p + 1))
            } else {
                None
            },
{
    Operation::OneChar(c)
}

/// One character from `lo` to `hi`, both included.
pub fn range(lo: char, hi: char) -> (r: Operation)
    ensures
        r@ == Combinator::CharRange(lo, hi),
        forall|s: Seq<char>, p: int|
            #[trigger] outcome(r@, s, p) == if 0 <= p < s.len() && lo <= s[p] && s[p] <= hi {
                Some((Tree::Unit, p + 1))
            } else {
                None
            },
{
    Operation::CharRange(lo, hi)
}

/// One character that is not in `v`; fails at the end of the input.
pub fn any_char_except(v: Vec<char>) -> (r: Operation)
    ensures
        r@ == Combinator::NoneOf(v@),
        forall|s: Seq<char>, p: int|
            #[trigger] outcome(r@, s, p) == if 0 <= p < s.len() && !v@.contains(s[p]) {
                Some((Tree::Unit, p + 1))
            } else {
                None
            },
{
    Operation::AnyCharExcept(v)
}

/// One or more matches of `op`, yielding the text they consumed.
pub fn take_while(op: Operation) -> (r: Operation)
    ensures
        r@ == Combinator::TakeWhile(Box::new(op@)),
{
    Operation::TakeWhile(Box::new(op))
}

/// `a`, then `b`; yields the pair of their values.
pub fn sequence(a: Operation, b: Operation) -> (r: Operation)
    ensures
        r@ == Combinator::Then(Box::new(a@), Box::new(b@)),
{
    Operation::Then(Box::new(a), Box::new(b))
}

/// `a`, or else `b` from the same place.
pub fn alternative(a: Operation, b: Operation) -> (r: Operation)
    ensures
        r@ == Combinator::Or(Box::new(a@), Box::new(b@)),
{
    Operation::Or(Box::new(a), Box::new(b))
}

/// `o` again and again until `fail` matches; yields the values of `o`.
pub fn repeat_until(o: Operation, fail: Operation) -> (r: Operation)
    ensures
        r@ == Combinator::RepeatUntil(Box::new(o@), Box::new(fail@)),
{
    Operation::RepeatUntil(Box::new(o), Box::new(fail))
}

/// `op`, `middle`, and `op` again over the same text as the first time;
/// yields the values of the first `op` and of `middle`.
pub fn twice(op: Operation, middle: Operation) -> (r: Operation)
    ensures
        r@ == Combinator::Twice(Box::new(op@), Box::new(middle@)),
{
    Operation::Twice(Box::new(op), Box::new(middle))
}

/// The second component of what `po` yields.
pub fn drop_first(po: Operation) -> (r: Operation)
    ensures
        r@ == Combinator::Mapped(Box::new(po@), Mapping::Second),
{
    Operation::Mapped(Box::new(po), Transform::Second)
}

/// The first component of what `po` yields.
pub fn drop_second(po: Operation) -> (r: Operation)
    ensures
        r@ == Combinator::Mapped(Box::new(po@), Mapping::First),
{
    Operation::Mapped(Box::new(po), Transform::First)
}

/// `to`, wherever `op` succeeds.
pub fn ignore(op: Operation, to: Value) -> (r: Operation)
    ensures
        r@ == Combinator::Mapped(Box::new(op@), Mapping::Constant(to.tree())),
{
    Operation::Mapped(Box::new(op), Transform::Constant(to))
}

/// The first of `vec` that succeeds, tried in order.
pub fn one_of(vec: Vec<Operation>) -> (r: Operation)
    ensures
        r@ == any_of(views(vec@)),
{
    let ghost all = vec@;
    let mut rest = vec;
    let mut ret = Operation::Fail;
    let n = rest.len();
    let mut i: usize = 0;
    while rest.len() > 0
        invariant
            all.len() == n,
            i <= all.len(),
            i + rest.len() == all.len(),
            rest@ == all.subrange(i as int, all.len() as int),
            ret@ == any_of(views(all.subrange(0, i as int))),
        decreases rest.len(),
    {
        let x = rest.remove(0);
        proof {
            let next = views(all.subrange(0, i + 1));
            assert(next.drop_last() =~= views(all.subrange(0, i as int)));
            assert(next.last() == x@);
        }
        ret = Operation::Or(Box::new(ret), Box::new(x));
        i += 1;
        assert(rest@ =~= all.subrange(i as int, all.len() as int));
    }
    assert(all.subrange(0, i as int) =~= all);
    ret
}

/// The characters of `s`, one after the other; yields `Unit`.
pub fn plain(s: &str) -> (r: Operation)
    ensures
        r@ == word(s@),
        forall|t: Seq<char>, p: int|
            0 <= p <= t.len() ==> #[trigger] outcome(r@, t, p) == if p + s@.len() <= t.len()
                && t.subrange(p, p + s@.len()) == s@ {
                Some((Tree::Unit, p + s@.len()))
            } else {
                None
            },
{
    let cs = chars_of(s);
    let mut ret = Operation::Succeed;
    let mut i: usize = 0;
    while i < cs.len()
        invariant
            cs@ == s@,
            i <= cs.len(),
            ret@ == word(cs@.subrange(0, i as int)),
        decreases cs.len() - i,
    {
        proof {
            let next = cs@.subrange(0, i + 1);
            assert(next.drop_last() =~= cs@.subrange(0, i as int));
            assert(next.last() == cs@[i as int]);
        }
        let ghost prev = ret@;
        ret = Operation::Mapped(
            Box::new(Operation::Then(Box::new(ret), Box::new(Operation::OneChar(cs[i])))),
            Transform::Constant(Value::Unit),
        );
        assert(ret@ == Combinator::Mapped(
            Box::new(Combinator::Then(Box::new(prev), Box::new(Combinator::OneChar(cs@[i as int])))),
            Mapping::Constant(Tree::Unit),
        )) by {
            reveal_with_fuel(Operation::combinator, 3);
        }
        i += 1;
    }
    assert(cs@.subrange(0, i as int) =~= s@);
    assert forall|t: Seq<char>, p: int| 0 <= p <= t.len() implies #[trigger] outcome(ret@, t, p) == if p
        + s@.len() <= t.len() && t.subrange(p, p + s@.len()) == s@ {
        Some((Tree::Unit, p + s@.len()))
    } else {
        None
    } by {
        lemma_word(s@, t, p);
    }
    ret
}

/// A parser; the name under which the mapping combinator is offered.
pub type ParseOperation = Operation;

impl ParseOperation {
    /// This parser, with its value passed through `map`.
    pub fn map(self, map: Transform) -> (r: Operation)
        ensures
            r@ == Combinator::Mapped(Box::new(self@), map.model()),
    {
        Operation::Mapped(Box::new(self), map)
    }
}

} // verus!
