use std::cell::Cell;

use backtrack::{
    after, alternative, any_char_except, before, drop_first, drop_second, ignore, node_name,
    one_char, one_of, plain, range, repeat_until, sequence, take_while, text_node, twice,
    Operation, Transform, TwoWay, Value,
};

fn text(s: &str) -> Value {
    Value::Text(s.to_string())
}

fn pair(a: Value, b: Value) -> Value {
    Value::Pair(Box::new(a), Box::new(b))
}

#[test]
fn cursor_reads_and_restores() {
    let mut c = TwoWay::from_text("ab");
    assert_eq!(c.ptr(), 0);
    assert_eq!(c.read(), Some('a'));
    assert_eq!(c.read(), Some('b'));
    assert_eq!(c.read(), None);
    assert_eq!(c.ptr(), 2);
    c.set(1);
    assert_eq!(c.read(), Some('b'));
    assert_eq!(c.debug(1), &['b']);
}

#[test]
fn cursor_from_chars() {
    let mut c = TwoWay::new(vec!['x', 'y']);
    assert_eq!(c.read(), Some('x'));
    assert_eq!(c.debug(0), &['x', 'y']);
}

#[test]
fn cursor_windows() {
    let mut c = TwoWay::from_text("abcab");
    assert!(c.windows_equal(0, 3, 2));
    assert!(!c.windows_equal(0, 2, 2));
    c.set(5);
    assert!(c.repeating(0, 2));
    assert!(!c.repeating(1, 3));
}

#[test]
fn two_quotes_in_sequence() {
    let p = sequence(one_char('"'), one_char('"'));
    let mut c = TwoWay::from_text("\"\"");
    assert_eq!(p.call(&mut c), Ok(pair(Value::Unit, Value::Unit)));
    assert_eq!(c.ptr(), 2);
}

#[test]
fn everything_but_open_bracket() {
    let p = take_while(any_char_except(vec!['<']));
    let mut c = TwoWay::from_text("abc</tag>");
    assert_eq!(p.call(&mut c), Ok(text("abc")));
    assert_eq!(c.ptr(), 3);
}

#[test]
fn text_node_stops_at_tag() {
    let mut c = TwoWay::from_text("hey</tag>");
    assert_eq!(text_node().call(&mut c), Ok(text("hey")));
    assert_eq!(c.ptr(), 3);
}

#[test]
fn one_char_mismatch_restores() {
    let mut c = TwoWay::from_text("b");
    assert_eq!(one_char('a').call(&mut c), Err(()));
    assert_eq!(c.ptr(), 0);
    let mut e = TwoWay::from_text("");
    assert_eq!(one_char('a').call(&mut e), Err(()));
    assert_eq!(e.ptr(), 0);
}

#[test]
fn range_bounds_are_inclusive() {
    for (s, ok) in [("a", true), ("c", true), ("b", true), ("d", false), ("`", false)] {
        let mut c = TwoWay::from_text(s);
        let r = range('a', 'c').call(&mut c);
        assert_eq!(r.is_ok(), ok, "{}", s);
        assert_eq!(c.ptr(), if ok { 1 } else { 0 });
    }
}

#[test]
fn any_char_except_fails_at_end_and_on_members() {
    let mut c = TwoWay::from_text("x");
    assert_eq!(any_char_except(vec!['x', 'y']).call(&mut c), Err(()));
    assert_eq!(c.ptr(), 0);
    assert_eq!(any_char_except(vec!['y']).call(&mut c), Ok(Value::Unit));
    assert_eq!(c.ptr(), 1);
    assert_eq!(any_char_except(vec!['y']).call(&mut c), Err(()));
    assert_eq!(c.ptr(), 1);
}

#[test]
fn take_while_needs_one_match() {
    let p = take_while(one_char('a'));
    let mut c = TwoWay::from_text("bbb");
    assert_eq!(p.call(&mut c), Err(()));
    assert_eq!(c.ptr(), 0);
    let mut d = TwoWay::from_text("aab");
    assert_eq!(p.call(&mut d), Ok(text("aa")));
    assert_eq!(d.ptr(), 2);
}

#[test]
fn take_while_stops_on_empty_match() {
    let p = take_while(plain(""));
    let mut c = TwoWay::from_text("abc");
    assert_eq!(p.call(&mut c), Err(()));
    assert_eq!(c.ptr(), 0);
}

#[test]
fn sequence_failure_restores_to_start() {
    let p = sequence(one_char('a'), one_char('b'));
    let mut c = TwoWay::from_text("ac");
    assert_eq!(p.call(&mut c), Err(()));
    assert_eq!(c.ptr(), 0);
}

#[test]
fn alternation_prefers_first() {
    let p = alternative(ignore(one_char('a'), text("first")), ignore(one_char('a'), text("second")));
    let mut c = TwoWay::from_text("a");
    assert_eq!(p.call(&mut c), Ok(text("first")));
}

#[test]
fn alternation_falls_back_from_start() {
    let p = alternative(plain("ab"), plain("ac"));
    let mut c = TwoWay::from_text("ac");
    assert_eq!(p.call(&mut c), Ok(Value::Unit));
    assert_eq!(c.ptr(), 2);
}

#[test]
fn alternation_both_fail() {
    let p = alternative(plain("ab"), plain("ax"));
    let mut c = TwoWay::from_text("ac");
    assert_eq!(p.call(&mut c), Err(()));
    assert_eq!(c.ptr(), 0);
}

#[test]
fn repeat_until_consumes_terminator() {
    let p = repeat_until(one_char('a'), one_char(';'));
    let mut c = TwoWay::from_text("aa;b");
    assert_eq!(p.call(&mut c), Ok(Value::List(vec![Value::Unit, Value::Unit])));
    assert_eq!(c.ptr(), 3);
    let mut e = TwoWay::from_text(";");
    assert_eq!(p.call(&mut e), Ok(Value::List(vec![])));
    assert_eq!(e.ptr(), 1);
}

#[test]
fn repeat_until_is_all_or_nothing() {
    let p = repeat_until(take_while(one_char('a')), one_char(';'));
    let mut c = TwoWay::from_text("a;");
    assert!(p.call(&mut c).is_ok());
    let q = repeat_until(ignore(one_char('a'), text("x")), one_char(';'));
    let mut d = TwoWay::from_text("aab;");
    assert_eq!(q.call(&mut d), Err(()));
    assert_eq!(d.ptr(), 0);
    let mut e = TwoWay::from_text("aa");
    assert_eq!(q.call(&mut e), Err(()));
    assert_eq!(e.ptr(), 0);
}

#[test]
fn repeat_until_rejects_body_without_progress() {
    let p = repeat_until(plain(""), one_char(';'));
    let mut c = TwoWay::from_text("x;");
    assert_eq!(p.call(&mut c), Err(()));
    assert_eq!(c.ptr(), 0);
}

fn bracket() -> Operation {
    let middle = sequence(sequence(one_char('>'), text_node()), plain("</"));
    sequence(one_char('<'), twice(node_name(), middle))
}

#[test]
fn twice_accepts_matching_names() {
    let mut c = TwoWay::from_text("<div>x</div>");
    let r = bracket().call(&mut c);
    let middle = pair(pair(Value::Unit, text("x")), Value::Unit);
    assert_eq!(r, Ok(pair(Value::Unit, pair(text("div"), middle))));
    assert_eq!(c.ptr(), 11);
}

#[test]
fn twice_rejects_other_names() {
    let mut c = TwoWay::from_text("<div>x</span>");
    assert_eq!(bracket().call(&mut c), Err(()));
    assert_eq!(c.ptr(), 0);
    let mut d = TwoWay::from_text("<div>x</dive>");
    assert_eq!(bracket().call(&mut d), Err(()));
    assert_eq!(d.ptr(), 0);
    let mut e = TwoWay::from_text("<div>x</iv>");
    assert_eq!(bracket().call(&mut e), Err(()));
    assert_eq!(e.ptr(), 0);
}

#[test]
fn projections_and_constants() {
    let p = sequence(ignore(one_char('a'), text("A")), ignore(one_char('b'), text("B")));
    let mut c = TwoWay::from_text("ab");
    assert_eq!(drop_first(p).call(&mut c), Ok(text("B")));
    let q = sequence(ignore(one_char('a'), text("A")), ignore(one_char('b'), text("B")));
    c.set(0);
    assert_eq!(drop_second(q).call(&mut c), Ok(text("A")));
    let list = Value::List(vec![text("x"), pair(Value::Unit, text("y"))]);
    let k = ignore(one_char('a'), list);
    c.set(0);
    assert_eq!(
        k.call(&mut c),
        Ok(Value::List(vec![text("x"), pair(Value::Unit, text("y"))]))
    );
    let m = one_char('b').map(Transform::Constant(text("b!")));
    assert_eq!(m.call(&mut c), Ok(text("b!")));
    assert_eq!(m.call(&mut c), Err(()));
    assert_eq!(c.ptr(), 2);
}

#[test]
fn plain_matches_whole_text_only() {
    let mut c = TwoWay::from_text("abcd");
    assert_eq!(plain("abc").call(&mut c), Ok(Value::Unit));
    assert_eq!(c.ptr(), 3);
    let mut d = TwoWay::from_text("abx");
    assert_eq!(plain("abc").call(&mut d), Err(()));
    assert_eq!(d.ptr(), 0);
    let mut e = TwoWay::from_text("ab");
    assert_eq!(plain("abc").call(&mut e), Err(()));
    assert_eq!(e.ptr(), 0);
}

#[test]
fn one_of_takes_first_success() {
    let p = one_of(vec![one_char('x'), one_char('y')]);
    let mut c = TwoWay::from_text("y");
    assert_eq!(p.call(&mut c), Ok(Value::Unit));
    assert_eq!(c.ptr(), 1);
    let mut d = TwoWay::from_text("z");
    assert_eq!(p.call(&mut d), Err(()));
    assert_eq!(d.ptr(), 0);
    let none = one_of(vec![]);
    assert_eq!(none.call(&mut d), Err(()));
}

#[test]
fn hooks_do_not_change_the_result() {
    let count = Cell::new(0);
    let first = after(one_char('a'), || count.set(count.get() + 1));
    let mut c = TwoWay::from_text("ab");
    assert_eq!(first.call(&mut c), Ok(Value::Unit));
    assert_eq!(first.call(&mut c), Err(()));
    assert_eq!(c.ptr(), 1);
    assert_eq!(count.get(), 2);
    let second = before(one_char('b'), || count.set(count.get() + 10));
    assert_eq!(second.call(&mut c), Ok(Value::Unit));
    assert_eq!(count.get(), 12);
    let third = one_char('x').after(|| count.set(count.get() + 100));
    assert_eq!(third.call(&mut c), Err(()));
    let fourth = one_char('x').before(|| count.set(count.get() + 1000));
    assert_eq!(fourth.call(&mut c), Err(()));
    assert_eq!(count.get(), 1112);
    assert_eq!(c.ptr(), 2);
}
