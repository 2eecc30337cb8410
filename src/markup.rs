use vstd::prelude::*;

use crate::combinators::{
    alternative, any_char_except, any_of, drop_first, drop_second, ignore, one_char, one_of,
    plain, repeat_until, sequence, take_while, twice, views, word,
};
use crate::cursor::chars_of;
use crate::model::{Combinator, Mapping};
use crate::parser::Operation;
use crate::value::{Tree, Value};

verus! {

/// One whitespace character, for each kind of whitespace.
pub open spec fn whitespace_chars() -> Seq<Combinator> {
    seq![
        Combinator::OneChar(' '),
        Combinator::OneChar('\t'),
        Combinator::OneChar('\n'),
        Combinator::OneChar('\r'),
    ]
}

/// `c`, after any whitespace.
pub open spec fn skipping(c: Combinator) -> Combinator {
    Combinator::Mapped(
        Box::new(
            Combinator::Then(
                Box::new(
                    Combinator::Or(
                        Box::new(
                            Combinator::TakeWhile(
                                Box::new(any_of(whitespace_chars())),
                            ),
                        ),
                        Box::new(word(Seq::empty())),
                    ),
                ),
                Box::new(c),
            ),
        ),
        Mapping::Second,
    )
}

/// A run of characters outside `stop`.
pub open spec fn run_outside(stop: Seq<char>) -> Combinator {
    Combinator::TakeWhile(Box::new(Combinator::NoneOf(stop)))
}

/// `op`, after any whitespace (spaces, tabs, line breaks).
pub fn skip_whitespaces(op: Operation) -> (r: Operation)
    ensures
        r@ == skipping(op@),
{
    let ws = chars_of(" \t\n\r");
    let mut singles: Vec<Operation> = Vec::new();
    let mut i: usize = 0;
    while i < ws.len()
        invariant
            i <= ws.len(),
            singles.len() == i,
            forall|k: int| 0 <= k < i ==> #[trigger] singles@[k]@ == Combinator::OneChar(ws@[k]),
        decreases ws.len() - i,
    {
        singles.push(one_char(ws[i]));
        i += 1;
    }
    proof {
        reveal_strlit(" \t\n\r");
        reveal_strlit("");
        assert(ws@ =~= seq![' ', '\t', '\n', '\r']);
        assert(views(singles@) =~= whitespace_chars());
        assert(""@ =~= Seq::<char>::empty());
    }
    drop_first(sequence(alternative(take_while(one_of(singles)), plain("")), op))
}

/// Attribute names stop at whitespace, `>` and `=`.
pub open spec fn attr_name_rule() -> Combinator {
    run_outside(seq!['\n', '\r', '\t', ' ', '>', '='])
}

/// Tag names stop at whitespace, `>` and `/`.
pub open spec fn node_name_rule() -> Combinator {
    run_outside(seq![' ', '\t', '\r', '\n', '>', '/'])
}

/// Text runs up to the next `<`.
pub open spec fn text_rule() -> Combinator {
    run_outside(seq!['<'])
}

/// A value between two `q` quotes.
pub open spec fn quoted_rule(q: char) -> Combinator {
    Combinator::Then(
        Box::new(Combinator::Then(Box::new(Combinator::OneChar(q)), Box::new(run_outside(seq![q])))),
        Box::new(Combinator::OneChar(q)),
    )
}

/// An attribute value: a bare run of characters, or a quoted text without
/// its quotes.
pub open spec fn attr_val_rule() -> Combinator {
    Combinator::Or(
        Box::new(run_outside(seq!['\n', '\r', '\t', ' ', '>', '/'])),
        Box::new(
            Combinator::Mapped(
                Box::new(
                    Combinator::Mapped(
                        Box::new(
                            Combinator::Or(Box::new(quoted_rule('\'')), Box::new(quoted_rule('"'))),
                        ),
                        Mapping::First,
                    ),
                ),
                Mapping::Second,
            ),
        ),
    )
}

/// `name = value`, with whitespace allowed around each part; yields the pair
/// of name and value.
pub open spec fn attr_rule() -> Combinator {
    Combinator::Then(
        Box::new(
            Combinator::Mapped(
                Box::new(
                    Combinator::Then(
                        Box::new(skipping(attr_name_rule())),
                        Box::new(skipping(Combinator::OneChar('='))),
                    ),
                ),
                Mapping::First,
            ),
        ),
        Box::new(skipping(attr_val_rule())),
    )
}

/// `<` and a tag name; yields the name.
pub open spec fn tag_open_rule() -> Combinator {
    Combinator::Mapped(
        Box::new(
            Combinator::Then(
                Box::new(Combinator::OneChar('<')),
                Box::new(skipping(node_name_rule())),
            ),
        ),
        Mapping::Second,
    )
}

/// Consumes nothing and yields an empty list of children.
pub open spec fn no_children_rule() -> Combinator {
    Combinator::Mapped(Box::new(word(Seq::empty())), Mapping::Constant(Tree::List(Seq::empty())))
}

/// A run of characters outside those of `stop`.
fn name_stop(stop: &str) -> (r: Operation)
    ensures
        r@ == run_outside(stop@),
{
    take_while(any_char_except(chars_of(stop)))
}

/// The name of an attribute.
pub fn attr_name() -> (r: Operation)
    ensures
        r@ == attr_name_rule(),
{
    let r = name_stop("\n\r\t >=");
    proof {
        reveal_strlit("\n\r\t >=");
        assert("\n\r\t >="@ =~= seq!['\n', '\r', '\t', ' ', '>', '=']);
    }
    r
}

/// The name of a tag.
pub fn node_name() -> (r: Operation)
    ensures
        r@ == node_name_rule(),
{
    let r = name_stop(" \t\r\n>/");
    proof {
        reveal_strlit(" \t\r\n>/");
        assert(" \t\r\n>/"@ =~= seq![' ', '\t', '\r', '\n', '>', '/']);
    }
    r
}

/// A run of text up to the next `<`.
pub fn text_node() -> (r: Operation)
    ensures
        r@ == text_rule(),
{
    let r = name_stop("<");
    proof {
        reveal_strlit("<");
        assert("<"@ =~= seq!['<']);
    }
    r
}

fn quoted(q: char) -> (r: Operation)
    ensures
        r@ == quoted_rule(q),
{
    let mut stop: Vec<char> = Vec::new();
    stop.push(q);
    assert(stop@ =~= seq![q]);
    sequence(sequence(one_char(q), take_while(any_char_except(stop))), one_char(q))
}

/// The value of an attribute.
pub fn attr_val() -> (r: Operation)
    ensures
        r@ == attr_val_rule(),
{
    let naked = name_stop("\n\r\t >/");
    proof {
        reveal_strlit("\n\r\t >/");
        assert("\n\r\t >/"@ =~= seq!['\n', '\r', '\t', ' ', '>', '/']);
    }
    alternative(naked, drop_first(drop_second(alternative(quoted('\''), quoted('"')))))
}

/// One attribute, `name = value`; yields the pair of name and value.
pub fn attr() -> (r: Operation)
    ensures
        r@ == attr_rule(),
{
    let name = skip_whitespaces(attr_name());
    let eq = skip_whitespaces(one_char('='));
    let val = skip_whitespaces(attr_val());
    sequence(drop_second(sequence(name, eq)), val)
}

fn tag_open() -> (r: Operation)
    ensures
        r@ == tag_open_rule(),
{
    drop_first(sequence(one_char('<'), skip_whitespaces(node_name())))
}

fn no_children() -> (r: Operation)
    ensures
        r@ == no_children_rule(),
{
    let empty = Value::List(Vec::new());
    assert(empty.tree()->List_0 =~= Seq::<Tree>::empty());
    let r = ignore(plain(""), empty);
    proof {
        reveal_strlit("");
        assert(""@ =~= Seq::<char>::empty());
    }
    r
}

/// An element: `<`, the bracket-repeat of a tag name around `inner`, and
/// `>`; yields the pair of the name and the value of `inner`.
pub open spec fn element_rule(inner: Combinator) -> Combinator {
    Combinator::Mapped(
        Box::new(
            Combinator::Mapped(
                Box::new(
                    Combinator::Then(
                        Box::new(
                            Combinator::Then(
                                Box::new(Combinator::OneChar('<')),
                                Box::new(Combinator::Twice(Box::new(node_name_rule()), Box::new(inner))),
                            ),
                        ),
                        Box::new(Combinator::OneChar('>')),
                    ),
                ),
                Mapping::First,
            ),
        ),
        Mapping::Second,
    )
}

/// An opening tag with its attributes, up to `>`.
pub open spec fn starting_tag_rule() -> Combinator {
    Combinator::Then(
        Box::new(tag_open_rule()),
        Box::new(
            Combinator::RepeatUntil(Box::new(attr_rule()), Box::new(skipping(Combinator::OneChar('>')))),
        ),
    )
}

/// A self-closing tag `<name attr=value />`; yields the name, the attributes
/// and an empty list of children.
pub open spec fn void_tag_rule() -> Combinator {
    Combinator::Then(
        Box::new(tag_open_rule()),
        Box::new(
            Combinator::Then(
                Box::new(
                    Combinator::RepeatUntil(
                        Box::new(attr_rule()),
                        Box::new(
                            Combinator::Mapped(
                                Box::new(
                                    Combinator::Then(
                                        Box::new(skipping(Combinator::OneChar('/'))),
                                        Box::new(skipping(Combinator::OneChar('>'))),
                                    ),
                                ),
                                Mapping::Constant(Tree::Unit),
                            ),
                        ),
                    ),
                ),
                Box::new(no_children_rule()),
            ),
        ),
    )
}

/// An element with no content, `<name attrs></name>`.
pub open spec fn empty_node_rule() -> Combinator {
    element_rule(
        Combinator::Then(
            Box::new(Combinator::RepeatUntil(Box::new(attr_rule()), Box::new(Combinator::OneChar('>')))),
            Box::new(
                Combinator::Mapped(
                    Box::new(word(seq!['<', '/'])),
                    Mapping::Constant(Tree::List(Seq::empty())),
                ),
            ),
        ),
    )
}

/// An element whose content is text and self-closing tags.
pub open spec fn node_rule() -> Combinator {
    element_rule(
        Combinator::Then(
            Box::new(Combinator::RepeatUntil(Box::new(attr_rule()), Box::new(Combinator::OneChar('>')))),
            Box::new(
                Combinator::RepeatUntil(
                    Box::new(Combinator::Or(Box::new(void_tag_rule()), Box::new(text_rule()))),
                    Box::new(
                        Combinator::Mapped(
                            Box::new(
                                Combinator::Then(
                                    Box::new(Combinator::OneChar('<')),
                                    Box::new(skipping(Combinator::OneChar('/'))),
                                ),
                            ),
                            Mapping::Constant(Tree::Unit),
                        ),
                    ),
                ),
            ),
        ),
    )
}

fn element(inner: Operation) -> (r: Operation)
    ensures
        r@ == element_rule(inner@),
{
    drop_first(
        drop_second(sequence(sequence(one_char('<'), twice(node_name(), inner)), one_char('>'))),
    )
}

/// An opening tag with its attributes; yields the name and the list of
/// attributes.
pub fn starting_tag() -> (r: Operation)
    ensures
        r@ == starting_tag_rule(),
{
    sequence(tag_open(), repeat_until(attr(), skip_whitespaces(one_char('>'))))
}

/// A self-closing tag.
pub fn void_tag() -> (r: Operation)
    ensures
        r@ == void_tag_rule(),
{
    let close = ignore(
        sequence(skip_whitespaces(one_char('/')), skip_whitespaces(one_char('>'))),
        Value::Unit,
    );
    sequence(tag_open(), sequence(repeat_until(attr(), close), no_children()))
}

/// An element with no content, closed by a tag of the same name.
pub fn empty_node() -> (r: Operation)
    ensures
        r@ == empty_node_rule(),
{
    let empty = Value::List(Vec::new());
    assert(empty.tree()->List_0 =~= Seq::<Tree>::empty());
    let closing = ignore(plain("</"), empty);
    proof {
        reveal_strlit("</");
        assert("</"@ =~= seq!['<', '/']);
    }
    element(sequence(repeat_until(attr(), one_char('>')), closing))
}

/// An element whose content is text and self-closing tags, closed by a tag
/// of the same name.
pub fn node() -> (r: Operation)
    ensures
        r@ == node_rule(),
{
    let content = alternative(void_tag(), text_node());
    let end = ignore(sequence(one_char('<'), skip_whitespaces(one_char('/'))), Value::Unit);
    let whole_content = repeat_until(content, end);
    let attrs = repeat_until(attr(), one_char('>'));
    element(sequence(attrs, whole_content))
}

} // verus!
