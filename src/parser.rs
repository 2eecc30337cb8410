use vstd::prelude::*;

use crate::cursor::TwoWay;
use crate::model::{apply, outcome, repeat_items, take_end, Combinator, Mapping};
use crate::value::{string_of, Tree, Value};

verus! {

/// A transformation of the value of a successful parse.
#[derive(Debug)]
pub enum Transform {
    /// Keep the first component of a pair.
    First,
    /// Keep the second component of a pair.
    Second,
    /// Replace the value by a fixed one.
    Constant(Value),
}

impl Transform {
    /// The mapping this transformation stands for.
    pub open spec fn model(&self) -> Mapping {
        match self {
            Transform::First => Mapping::First,
            Transform::Second => Mapping::Second,
            Transform::Constant(v) => Mapping::Constant(v.tree()),
        }
    }

    /// Transforms `v`.
    pub fn apply(&self, v: Value) -> (r: Value)
        ensures
            r.tree() == apply(self.model(), v.tree()),
    {
        match self {
            Transform::First => match v {
                Value::Pair(a, _) => *a,
                other => other,
            },
            Transform::Second => match v {
                Value::Pair(_, b) => *b,
                other => other,
            },
            Transform::Constant(c) => c.duplicate(),
        }
    }
}

/// A parser. It is built once from the constructors of this module and can be
/// run any number of times with [`Operation::call`].
#[derive(Debug)]
pub enum Operation {
    Fail,
    Succeed,
    OneChar(char),
    CharRange(char, char),
    AnyCharExcept(Vec<char>),
    TakeWhile(Box<Operation>),
    Then(Box<Operation>, Box<Operation>),
    Or(Box<Operation>, Box<Operation>),
    RepeatUntil(Box<Operation>, Box<Operation>),
    Twice(Box<Operation>, Box<Operation>),
    Mapped(Box<Operation>, Transform),
}

impl Operation {
    /// The parser this one stands for.
    pub open spec fn combinator(&self) -> Combinator
        decreases self,
    {
        match self {
            Operation::Fail => Combinator::Fail,
            Operation::Succeed => Combinator::Succeed,
            Operation::OneChar(c) => Combinator::OneChar(*c),
            Operation::CharRange(lo, hi) => Combinator::CharRange(*lo, *hi),
            Operation::AnyCharExcept(v) => Combinator::NoneOf(v@),
            Operation::TakeWhile(q) => Combinator::TakeWhile(Box::new(q.combinator())),
            Operation::Then(a, b) => Combinator::Then(Box::new(a.combinator()), Box::new(b.combinator())),
            Operation::Or(a, b) => Combinator::Or(Box::new(a.combinator()), Box::new(b.combinator())),
            Operation::RepeatUntil(a, b) => Combinator::RepeatUntil(
                Box::new(a.combinator()),
                Box::new(b.combinator()),
            ),
            Operation::Twice(a, b) => Combinator::Twice(Box::new(a.combinator()), Box::new(b.combinator())),
            Operation::Mapped(a, t) => Combinator::Mapped(Box::new(a.combinator()), t.model()),
        }
    }
}

impl View for Operation {
    type V = Combinator;

    open spec fn view(&self) -> Combinator {
        self.combinator()
    }
}

/// The values of `v`, as mathematical values.
pub open spec fn trees(v: Seq<Value>) -> Seq<Tree> {
    Seq::new(v.len(), |i: int| v[i].tree())
}

/// `ts` put in front of the values of a repetition's outcome.
pub open spec fn prepend(ts: Seq<Tree>, o: Option<(Seq<Tree>, int)>) -> Option<(Seq<Tree>, int)> {
    match o {
        Some((vs, e)) => Some((ts + vs, e)),
        None => None,
    }
}

/// Whether `c` belongs to `set`.
fn holds(set: &Vec<char>, c: char) -> (r: bool)
    ensures
        r == set@.contains(c),
{
    let mut i: usize = 0;
    while i < set.len()
        invariant
            i <= set.len(),
            forall|k: int| 0 <= k < i ==> set@[k] != c,
        decreases set.len() - i,
    {
        if set[i] == c {
            assert(set@[i as int] == c);
            return true;
        }
        i += 1;
    }
    false
}

impl Operation {
    /// Runs the parser on `s` from its current position.
    ///
    /// On success the cursor stands just past the consumed input; on failure
    /// it stands where it stood before the call.
    pub fn call(&self, s: &mut TwoWay) -> (r: Result<Value, ()>)
        requires
            old(s).wf(),
        ensures
            final(s).wf(),
            final(s).input() == old(s).input(),
            r is Err ==> final(s).pos() == old(s).pos(),
            r is Ok <==> outcome(self@, old(s).input(), old(s).pos()) is Some,
            r is Ok ==> outcome(self@, old(s).input(), old(s).pos()) == Some(
                (r->Ok_0.tree(), final(s).pos()),
            ),
        decreases self,
    {
        let ghost s0 = s.input();
        match self {
            Operation::Fail => Err(()),
            Operation::Succeed => Ok(Value::Unit),
            Operation::OneChar(x) => {
                let ptr = s.ptr();
                match s.read() {
                    Some(y) => {
                        if y == *x {
                            Ok(Value::Unit)
                        } else {
                            s.set(ptr);
                            Err(())
                        }
                    },
                    None => Err(()),
                }
            },
            Operation::CharRange(lo, hi) => {
                let ptr = s.ptr();
                match s.read() {
                    Some(y) => {
                        if *lo <= y && y <= *hi {
                            Ok(Value::Unit)
                        } else {
                            s.set(ptr);
                            Err(())
                        }
                    },
                    None => Err(()),
                }
            },
            Operation::AnyCharExcept(set) => {
                let ptr = s.ptr();
                match s.read() {
                    Some(y) => {
                        if holds(set, y) {
                            s.set(ptr);
                            Err(())
                        } else {
                            Ok(Value::Unit)
                        }
                    },
                    None => Err(()),
                }
            },
            Operation::TakeWhile(q) => {
                let ghost c = self@;
                let start = s.ptr();
                let mut end = start;
                loop
                    invariant
                        decreases_to!(*self => **q),
                        c == self@,
                        c == Combinator::TakeWhile(Box::new(q@)),
                        s.wf(),
                        s.input() == s0,
                        s0 == old(s).input(),
                        start == old(s).pos(),
                        start <= end <= s0.len(),
                        s.pos() == end,
                        take_end(c, s0, start as int) == take_end(c, s0, end as int),
                    ensures
                        take_end(c, s0, start as int) == end,
                    decreases s0.len() - end,
                {
                    match q.call(s) {
                        Ok(_) => {
                            let e = s.ptr();
                            if e > end {
                                end = e;
                            } else {
                                s.set(end);
                                break ;
                            }
                        },
                        Err(_) => {
                            break ;
                        },
                    }
                }
                if end == start {
                    return Err(());
                }
                s.set(start);
                let mut buf: Vec<char> = Vec::new();
                while s.ptr() < end
                    invariant
                        s.wf(),
                        s.input() == s0,
                        s0 == old(s).input(),
                        start == old(s).pos(),
                        start <= s.pos() <= end <= s0.len(),
                        buf@ == s0.subrange(start as int, s.pos()),
                    decreases end - s.pos(),
                {
                    let x = s.read();
                    buf.push(x.unwrap());
                    assert(buf@ =~= s0.subrange(start as int, s.pos()));
                }
                Ok(Value::Text(string_of(&buf)))
            },
            Operation::Then(a, b) => {
                let ptr = s.ptr();
                match a.call(s) {
                    Ok(va) => match b.call(s) {
                        Ok(vb) => Ok(Value::Pair(Box::new(va), Box::new(vb))),
                        Err(e) => {
                            s.set(ptr);
                            Err(e)
                        },
                    },
                    Err(e) => {
                        s.set(ptr);
                        Err(e)
                    },
                }
            },
            Operation::Or(a, b) => {
                let ptr = s.ptr();
                match a.call(s) {
                    Ok(v) => Ok(v),
                    Err(e) => {
                        s.set(ptr);
                        match b.call(s) {
                            Ok(v) => Ok(v),
                            Err(_) => {
                                s.set(ptr);
                                Err(e)
                            },
                        }
                    },
                }
            },
            Operation::RepeatUntil(body, term) => {
                let ghost c = self@;
                let start = s.ptr();
                let mut ret: Vec<Value> = Vec::new();
                loop
                    invariant
                        decreases_to!(*self => **body),
                        decreases_to!(*self => **term),
                        c == self@,
                        c == Combinator::RepeatUntil(Box::new(body@), Box::new(term@)),
                        s.wf(),
                        s.input() == s0,
                        s0 == old(s).input(),
                        start == old(s).pos(),
                        start <= s.pos() <= s0.len(),
                        repeat_items(c, s0, start as int) == prepend(
                            trees(ret@),
                            repeat_items(c, s0, s.pos()),
                        ),
                    decreases s0.len() - s.pos(),
                {
                    let here = s.ptr();
                    match term.call(s) {
                        Ok(_) => {
                            assert(trees(ret@) + Seq::<Tree>::empty() =~= trees(ret@));
                            let r = Value::List(ret);
                            assert(r.tree()->List_0 =~= trees(ret@));
                            return Ok(r);
                        },
                        Err(_) => match body.call(s) {
                            Ok(v) => {
                                let e = s.ptr();
                                if e > here {
                                    let ghost before = trees(ret@);
                                    let ghost vt = v.tree();
                                    ret.push(v);
                                    assert(trees(ret@) =~= before + seq![vt]);
                                    assert forall|vs: Seq<Tree>|
                                        before + (seq![vt] + vs) =~= trees(ret@) + vs by {}
                                } else {
                                    s.set(start);
                                    return Err(());
                                }
                            },
                            Err(_) => {
                                s.set(start);
                                return Err(());
                            },
                        },
                    }
                }
            },
            Operation::Twice(a, m) => {
                let ptr = s.ptr();
                match a.call(s) {
                    Ok(v1) => {
                        let mid = s.ptr();
                        match m.call(s) {
                            Ok(v2) => {
                                let e2 = s.ptr();
                                match a.call(s) {
                                    Ok(_) => {
                                        let e3 = s.ptr();
                                        if ptr <= mid && e2 <= e3 && e3 - e2 == mid - ptr
                                            && s.windows_equal(ptr, e2, mid - ptr) {
                                            return Ok(Value::Pair(Box::new(v1), Box::new(v2)));
                                        }
                                    },
                                    Err(_) => {},
                                }
                            },
                            Err(_) => {},
                        }
                    },
                    Err(_) => {},
                }
                s.set(ptr);
                Err(())
            },
            Operation::Mapped(a, t) => match a.call(s) {
                Ok(v) => Ok(t.apply(v)),
                Err(e) => Err(e),
            },
        }
    }
}

} // verus!
