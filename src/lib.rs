//! A small parser-combinator engine with backtracking.
//!
//! A [`TwoWay`] cursor walks over a sequence of characters; an [`Operation`]
//! is a parser built from primitive matchers and combinators. Running a parser
//! either succeeds with a [`Value`] and leaves the cursor just past what it
//! consumed, or fails and leaves the cursor where it was.
mod cursor;
mod value;
mod model;
mod parser;
mod combinators;
mod laws;
mod hooks;
mod markup;
mod document;

pub use cursor::TwoWay;
pub use value::{Tree, Value};
pub use parser::{prepend, trees, Operation, Transform};
pub use model::{apply, outcome, repeat_items, take_end, Combinator, Mapping};
pub use combinators::{
    alternative, any_char_except, any_of, drop_first, drop_second, ignore, lemma_word, one_char,
    one_of, plain, range, repeat_until, sequence, take_while, twice, views, word, ParseOperation,
};
pub use laws::{
    lemma_alternation_failure, lemma_outcome_bounds, lemma_repeat_all_or_nothing,
    lemma_repeat_bounds, lemma_take_end_bounds, lemma_take_while_nonempty, lemma_twice_symmetric,
};
pub use hooks::{after, before, Hooked};
pub use markup::{
    attr, attr_name, attr_name_rule, attr_rule, attr_val, attr_val_rule, element_rule, empty_node,
    empty_node_rule, no_children_rule, node, node_name, node_name_rule, node_rule, quoted_rule,
    run_outside, skip_whitespaces, skipping, starting_tag, starting_tag_rule, tag_open_rule,
    text_node, text_rule, void_tag, void_tag_rule, whitespace_chars,
};
pub use document::{
    attr_map_of, child_doc, distinct_keys, element_parts, is_attr, leaf_doc, node_doc, pairs_map, to_node, Doc,
    Node, TextOrNode,
};
