use vstd::prelude::*;

use crate::parser::trees;
use crate::value::{Tree, Value};

verus! {

/// A piece of a document, as a mathematical value: text, or an element with
/// its name, attributes and children.
pub enum Doc {
    Text(Seq<char>),
    Element(Seq<char>, Map<Seq<char>, Seq<char>>, Seq<Doc>),
}

/// The child of an element: text or another element.
#[derive(Debug)]
pub enum TextOrNode {
    Text(String),
    Node(Node),
}

/// An element. Built from a parse, it lists each attribute name once, with
/// the last value the input gave it.
#[derive(Debug)]
pub struct Node {
    pub attributes: Vec<(String, String)>,
    pub children: Vec<TextOrNode>,
    pub name: String,
}

/// The attributes `ps` stand for: later pairs override earlier ones.
pub open spec fn pairs_map(ps: Seq<(String, String)>) -> Map<Seq<char>, Seq<char>>
    decreases ps.len(),
{
    if ps.len() == 0 {
        Map::empty()
    } else {
        pairs_map(ps.drop_last()).insert(ps.last().0@, ps.last().1@)
    }
}

impl Node {
    /// The document this element stands for.
    pub open spec fn doc(self) -> Doc
        decreases self,
    {
        Doc::Element(
            self.name@,
            pairs_map(self.attributes@),
            Seq::new(
                self.children.len() as nat,
                |i: int|
                    if 0 <= i < self.children.len() {
                        self.children[i].doc()
                    } else {
                        Doc::Text(Seq::empty())
                    },
            ),
        )
    }
}

impl TextOrNode {
    /// The document this child stands for.
    pub open spec fn doc(self) -> Doc
        decreases self,
    {
        match self {
            TextOrNode::Text(s) => Doc::Text(s@),
            TextOrNode::Node(n) => n.doc(),
        }
    }
}

/// No name occurs twice among the pairs `ps`.
pub open spec fn distinct_keys(ps: Seq<(String, String)>) -> bool {
    forall|a: int, b: int| 0 <= a < b < ps.len() ==> #[trigger] ps[a].0@ != #[trigger] ps[b].0@
}

/// Overwriting the value of a name that occurs once is inserting it anew.
proof fn lemma_pairs_map_update(ps: Seq<(String, String)>, j: int, np: (String, String))
    requires
        0 <= j < ps.len(),
        ps[j].0@ == np.0@,
        distinct_keys(ps),
    ensures
        pairs_map(ps.update(j, np)) == pairs_map(ps).insert(np.0@, np.1@),
    decreases ps.len(),
{
    let qs = ps.update(j, np);
    let n = ps.len() - 1;
    if j == n {
        assert(qs.drop_last() =~= ps.drop_last());
        assert(pairs_map(qs) =~= pairs_map(ps).insert(np.0@, np.1@));
    } else {
        assert(qs.drop_last() =~= ps.drop_last().update(j, np));
        lemma_pairs_map_update(ps.drop_last(), j, np);
        assert(ps[j].0@ != ps[n].0@);
        assert(pairs_map(qs) =~= pairs_map(ps).insert(np.0@, np.1@));
    }
}

/// Sets the value of the name `k` among the pairs `ps`: an existing pair is
/// overwritten in place, else a new pair is added at the end.
fn set_attribute(ps: &mut Vec<(String, String)>, k: String, v: String)
    requires
        distinct_keys(old(ps)@),
    ensures
        distinct_keys(final(ps)@),
        pairs_map(final(ps)@) == pairs_map(old(ps)@).insert(k@, v@),
{
    let mut j: usize = 0;
    while j < ps.len()
        invariant
            ps@ == old(ps)@,
            distinct_keys(ps@),
            j <= ps.len(),
            forall|a: int| 0 <= a < j ==> #[trigger] ps@[a].0@ != k@,
        decreases ps.len() - j,
    {
        if ps[j].0 == k {
            let ghost before = ps@;
            let np = (k, v);
            proof {
                lemma_pairs_map_update(before, j as int, np);
            }
            ps.set(j, np);
            assert(ps@ == before.update(j as int, np));
            assert forall|a: int, b: int| 0 <= a < b < ps@.len() implies #[trigger] ps@[a].0@
                != #[trigger] ps@[b].0@ by {
                assert(before[a].0@ != before[b].0@);
            }
            return;
        }
        j += 1;
    }
    let ghost before = ps@;
    let ghost key = k@;
    ps.push((k, v));
    assert(ps@.drop_last() == before);
    assert forall|a: int, b: int| 0 <= a < b < ps@.len() implies #[trigger] ps@[a].0@
        != #[trigger] ps@[b].0@ by {
        if b < before.len() {
            assert(before[a].0@ != before[b].0@);
        } else {
            assert(before[a].0@ != key);
        }
    }
}

/// Whether `t` is a name paired with a value.
pub open spec fn is_attr(t: Tree) -> bool {
    t matches Tree::Pair(k, v) && *k is Text && *v is Text
}

/// The attributes the pairs `ts` stand for: later pairs override earlier ones.
pub open spec fn attr_map_of(ts: Seq<Tree>) -> Map<Seq<char>, Seq<char>>
    decreases ts.len(),
{
    if ts.len() == 0 {
        Map::empty()
    } else {
        match ts.last() {
            Tree::Pair(k, v) => attr_map_of(ts.drop_last()).insert(k->Text_0, v->Text_0),
            _ => attr_map_of(ts.drop_last()),
        }
    }
}

/// The name, attributes and children of an element value, shaped as the
/// element grammars yield it.
pub open spec fn element_parts(t: Tree) -> Option<(Seq<char>, Seq<Tree>, Seq<Tree>)> {
    match t {
        Tree::Pair(n, rest) => match (*n, *rest) {
            (Tree::Text(name), Tree::Pair(a, c)) => match (*a, *c) {
                (Tree::List(attrs), Tree::List(children)) => Some((name, attrs, children)),
                _ => None,
            },
            _ => None,
        },
        _ => None,
    }
}

/// The element without children that `t` stands for, if any.
pub open spec fn leaf_doc(t: Tree) -> Option<Doc> {
    match element_parts(t) {
        Some((name, attrs, children)) => if (forall|i: int| 0 <= i < attrs.len() ==> is_attr(#[trigger] attrs[i]))
            && children.len() == 0 {
            Some(Doc::Element(name, attr_map_of(attrs), Seq::empty()))
        } else {
            None
        },
        None => None,
    }
}

/// The child that `t` stands for: text, or an element without children.
pub open spec fn child_doc(t: Tree) -> Option<Doc> {
    match t {
        Tree::Text(x) => Some(Doc::Text(x)),
        _ => leaf_doc(t),
    }
}

/// The element that `t` stands for, if it has the shape the element grammars
/// yield.
pub open spec fn node_doc(t: Tree) -> Option<Doc> {
    match element_parts(t) {
        Some((name, attrs, children)) => if (forall|i: int| 0 <= i < attrs.len() ==> is_attr(#[trigger] attrs[i]))
            && (forall|i: int| 0 <= i < children.len() ==> (#[trigger] child_doc(children[i])) is Some) {
            Some(
                Doc::Element(
                    name,
                    attr_map_of(attrs),
                    children.map_values(|c: Tree| child_doc(c)->Some_0),
                ),
            )
        } else {
            None
        },
        None => None,
    }
}

/// The attribute pairs held by `items`, if each is a name paired with a value.
fn attributes_of(items: &Vec<Value>) -> (r: Option<Vec<(String, String)>>)
    ensures
        r is Some <==> forall|i: int| 0 <= i < items.len() ==> is_attr(#[trigger] trees(items@)[i]),
        r matches Some(ps) ==> pairs_map(ps@) == attr_map_of(trees(items@)) && distinct_keys(ps@),
{
    let ghost ts = trees(items@);
    let mut out: Vec<(String, String)> = Vec::new();
    let mut i: usize = 0;
    while i < items.len()
        invariant
            ts == trees(items@),
            i <= items.len(),
            forall|k: int| 0 <= k < i ==> is_attr(#[trigger] ts[k]),
            pairs_map(out@) == attr_map_of(ts.subrange(0, i as int)),
            distinct_keys(out@),
        decreases items.len() - i,
    {
        assert(ts.subrange(0, i + 1).drop_last() =~= ts.subrange(0, i as int));
        let item = &items[i];
        assert(ts[i as int] == item.tree());
        let (ks, vs) = match item {
            Value::Pair(k, v) => match &**k {
                Value::Text(ks) => match &**v {
                    Value::Text(vs) => (ks, vs),
                    _ => {
                        assert(!(v.tree() is Text));
                        assert(!is_attr(ts[i as int]));
                        return None;
                    },
                },
                _ => {
                    assert(!(k.tree() is Text));
                    assert(!is_attr(ts[i as int]));
                    return None;
                },
            },
            _ => {
                assert(!is_attr(ts[i as int]));
                return None;
            },
        };
        assert(ts[i as int] == Tree::Pair(Box::new(Tree::Text(ks@)), Box::new(Tree::Text(vs@))));
        set_attribute(&mut out, ks.clone(), vs.clone());
        i += 1;
    }
    assert(ts.subrange(0, i as int) =~= ts);
    Some(out)
}

/// The name, attributes and children held by an element value.
fn parts_of(v: &Value) -> (r: Option<(&String, &Vec<Value>, &Vec<Value>)>)
    ensures
        r is Some <==> element_parts(v.tree()) is Some,
        r matches Some((n, a, c)) ==> element_parts(v.tree()) == Some(
            (n@, trees(a@), trees(c@)),
        ),
{
    match v {
        Value::Pair(n, rest) => match &**n {
            Value::Text(name) => match &**rest {
                Value::Pair(a, c) => match &**a {
                    Value::List(attrs) => match &**c {
                        Value::List(children) => {
                            assert(a.tree()->List_0 =~= trees(attrs@));
                            assert(c.tree()->List_0 =~= trees(children@));
                            Some((name, attrs, children))
                        },
                        _ => {
                            assert(!(c.tree() is List));
                            None
                        },
                    },
                    _ => {
                        assert(!(a.tree() is List));
                        None
                    },
                },
                _ => {
                    assert(!(rest.tree() is Pair));
                    None
                },
            },
            _ => {
                assert(!(n.tree() is Text));
                None
            },
        },
        _ => None,
    }
}

/// The element without children that `v` stands for, if any.
fn leaf_of(v: &Value) -> (r: Option<Node>)
    ensures
        r is Some <==> leaf_doc(v.tree()) is Some,
        r matches Some(n) ==> leaf_doc(v.tree()) == Some(n.doc()),
{
    match parts_of(v) {
        Some((name, attrs, children)) => {
            if children.len() != 0 {
                return None;
            }
            match attributes_of(attrs) {
                Some(ps) => {
                    let n = Node { attributes: ps, children: Vec::new(), name: name.clone() };
                    assert(n.doc()->Element_2 =~= Seq::<Doc>::empty());
                    Some(n)
                },
                None => None,
            }
        },
        None => None,
    }
}

/// The element that `v` stands for, if it has the shape the element grammars
/// yield: the name, the list of attribute pairs, and the list of children,
/// each a text or an element without children.
pub fn to_node(v: &Value) -> (r: Option<Node>)
    ensures
        r is Some <==> node_doc(v.tree()) is Some,
        r matches Some(n) ==> node_doc(v.tree()) == Some(n.doc()) && distinct_keys(
            n.attributes@,
        ),
{
    let (name, attrs, children) = match parts_of(v) {
        Some(p) => p,
        None => {
            return None;
        },
    };
    let ps = match attributes_of(attrs) {
        Some(ps) => ps,
        None => {
            return None;
        },
    };
    let ghost ts = trees(children@);
    let mut out: Vec<TextOrNode> = Vec::new();
    let mut i: usize = 0;
    while i < children.len()
        invariant
            ts == trees(children@),
            element_parts(v.tree()) == Some((name@, trees(attrs@), ts)),
            i <= children.len(),
            out.len() == i,
            forall|k: int| 0 <= k < i ==> (#[trigger] child_doc(ts[k])) is Some,
            forall|k: int| 0 <= k < i ==> Some(#[trigger] out@[k].doc()) == child_doc(ts[k]),
        decreases children.len() - i,
    {
        let c = &children[i];
        assert(ts[i as int] == c.tree());
        match c {
            Value::Text(s) => {
                out.push(TextOrNode::Text(s.clone()));
            },
            _ => {
                assert(!(c.tree() is Text));
                match leaf_of(c) {
                    Some(n) => {
                        out.push(TextOrNode::Node(n));
                    },
                    None => {
                        assert(child_doc(ts[i as int]) is None);
                        assert(element_parts(v.tree())->Some_0.2 == ts);
                        assert(!(forall|k: int|
                            0 <= k < ts.len() ==> (#[trigger] child_doc(ts[k])) is Some));
                        return None;
                    },
                }
            },
        }
        i += 1;
    }
    let ghost docs = out@;
    let n = Node { attributes: ps, children: out, name: name.clone() };
    assert forall|k: int| 0 <= k < ts.len() implies n.doc()->Element_2[k] == ts.map_values(
        |c: Tree| child_doc(c)->Some_0,
    )[k] by {
        assert(Some(docs[k].doc()) == child_doc(ts[k]));
    }
    assert(n.doc()->Element_2 =~= ts.map_values(|c: Tree| child_doc(c)->Some_0));
    Some(n)
}

} // verus!
