use vstd::prelude::*;

use crate::cursor::TwoWay;
use crate::model::{outcome, Combinator};
use crate::parser::Operation;
use crate::value::Value;

verus! {

/// A parser together with an action run just before or just after it, for
/// tracing. The action sees neither the cursor nor the result, so it cannot
/// change what the parser does.
pub struct Hooked<F> {
    op: Operation,
    action: F,
    action_first: bool,
}

impl<F: Fn()> Hooked<F> {
    /// The wrapped parser.
    pub closed spec fn parser(&self) -> Combinator {
        self.op@
    }

    /// The action.
    pub closed spec fn action(&self) -> F {
        self.action
    }

    /// Whether the action runs before the parser (else after it).
    pub closed spec fn action_first(&self) -> bool {
        self.action_first
    }

    /// Runs the action and the parser, in the order chosen when this was
    /// built; the result and the cursor are those of the parser alone.
    pub fn call(&self, s: &mut TwoWay) -> (r: Result<Value, ()>)
        requires
            old(s).wf(),
            self.action().requires(()),
        ensures
            final(s).wf(),
            final(s).input() == old(s).input(),
            r is Err ==> final(s).pos() == old(s).pos(),
            r is Ok <==> outcome(self.parser(), old(s).input(), old(s).pos()) is Some,
            r is Ok ==> outcome(self.parser(), old(s).input(), old(s).pos()) == Some(
                (r->Ok_0.tree(), final(s).pos()),
            ),
    {
        if self.action_first {
            (self.action)();
            self.op.call(s)
        } else {
            let r = self.op.call(s);
            (self.action)();
            r
        }
    }
}

/// `op`, with `a` run just before it.
pub fn after<F: Fn()>(op: Operation, a: F) -> (r: Hooked<F>)
    ensures
        r.parser() == op@,
        r.action() == a,
        r.action_first(),
{
    Hooked { op, action: a, action_first: true }
}

/// `op`, with `a` run just after it.
pub fn before<F: Fn()>(op: Operation, a: F) -> (r: Hooked<F>)
    ensures
        r.parser() == op@,
        r.action() == a,
        !r.action_first(),
{
    Hooked { op, action: a, action_first: false }
}

impl Operation {
    /// This parser, with `a` run just before it.
    pub fn after<F: Fn()>(self, a: F) -> (r: Hooked<F>)
        ensures
            r.parser() == self@,
            r.action() == a,
            r.action_first(),
    {
        after(self, a)
    }

    /// This parser, with `a` run just after it.
    pub fn before<F: Fn()>(self, a: F) -> (r: Hooked<F>)
        ensures
            r.parser() == self@,
            r.action() == a,
            !r.action_first(),
    {
        before(self, a)
    }
}

} // verus!
