use vstd::prelude::*;

verus! {

/// Relies on collecting `char`s into a `String` (`FromIterator<&char>`): the
/// text holds the characters, in order.
#[verifier::external_body]
pub(crate) fn string_of(v: &Vec<char>) -> (r: String)
    ensures
        r@ == v@,
{
    v.iter().collect()
}

/// What a successful parse yields, as a mathematical value.
pub enum Tree {
    Unit,
    Text(Seq<char>),
    Pair(Box<Tree>, Box<Tree>),
    List(Seq<Tree>),
}

/// What a successful parse yields: nothing of interest, a piece of text, a
/// pair of results, or a list of results.
#[derive(Debug, PartialEq)]
pub enum Value {
    Unit,
    Text(String),
    Pair(Box<Value>, Box<Value>),
    List(Vec<Value>),
}

impl Value {
    /// The mathematical value this one stands for.
    pub open spec fn tree(self) -> Tree
        decreases self,
    {
        match self {
            Value::Unit => Tree::Unit,
            Value::Text(s) => Tree::Text(s@),
            Value::Pair(a, b) => Tree::Pair(Box::new(a.tree()), Box::new(b.tree())),
            Value::List(v) => Tree::List(
                Seq::new(
                    v.len() as nat,
                    |i: int|
                        if 0 <= i < v.len() {
                            v[i].tree()
                        } else {
                            Tree::Unit
                        },
                ),
            ),
        }
    }

    /// A copy of this value, all the way down.
    pub fn duplicate(&self) -> (r: Value)
        ensures
            r.tree() == self.tree(),
        decreases self,
    {
        match self {
            Value::Unit => Value::Unit,
            Value::Text(s) => Value::Text(s.clone()),
            Value::Pair(a, b) => Value::Pair(Box::new(a.duplicate()), Box::new(b.duplicate())),
            Value::List(v) => {
                assert(decreases_to!(*self => *v));
                let mut out: Vec<Value> = Vec::new();
                let mut i: usize = 0;
                while i < v.len()
                    invariant
                        decreases_to!(*self => *v),
                        i <= v.len(),
                        out.len() == i,
                        forall|k: int| 0 <= k < i ==> #[trigger] out[k].tree() == v[k].tree(),
                    decreases v.len() - i,
                {
                    proof {
                        assert(decreases_to!(*v => v[i as int]));
                    }
                    out.push(v[i].duplicate());
                    i += 1;
                }
                let r = Value::List(out);
                assert(r.tree()->List_0.len() == v.len());
                assert(self.tree()->List_0.len() == v.len());
                assert(forall|k: int| 0 <= k < v.len() ==> r.tree()->List_0[k] == out[k].tree());
                assert(r.tree()->List_0 =~= self.tree()->List_0);
                r
            },
        }
    }
}

} // verus!
