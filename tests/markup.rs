use backtrack::{
    attr, attr_val, empty_node, node, skip_whitespaces, starting_tag, to_node, void_tag, one_char,
    Node, TextOrNode, TwoWay, Value,
};

fn attribute<'a>(n: &'a Node, key: &str) -> Option<&'a str> {
    n.attributes.iter().rev().find(|(k, _)| k == key).map(|(_, v)| v.as_str())
}

#[test]
fn empty_element() {
    let mut c = TwoWay::from_text("<tag></tag>");
    let v = empty_node().call(&mut c).unwrap();
    let n = to_node(&v).unwrap();
    assert_eq!(n.name, "tag");
    assert!(n.attributes.is_empty());
    assert!(n.children.is_empty());
    assert_eq!(c.ptr(), 11);
}

#[test]
fn empty_element_needs_same_close() {
    let mut c = TwoWay::from_text("<tag></tap>");
    assert_eq!(empty_node().call(&mut c), Err(()));
    assert_eq!(c.ptr(), 0);
}

#[test]
fn nested_element() {
    let mut c = TwoWay::from_text("<tag some=1 hey=1><hey/>hey</tag>");
    let v = node().call(&mut c).unwrap();
    let n = to_node(&v).unwrap();
    assert_eq!(n.name, "tag");
    assert_eq!(n.attributes.len(), 2);
    assert_eq!(attribute(&n, "some"), Some("1"));
    assert_eq!(attribute(&n, "hey"), Some("1"));
    assert_eq!(n.children.len(), 2);
    match &n.children[0] {
        TextOrNode::Node(child) => {
            assert_eq!(child.name, "hey");
            assert!(child.attributes.is_empty());
            assert!(child.children.is_empty());
        }
        other => panic!("expected an element, got {:?}", other),
    }
    match &n.children[1] {
        TextOrNode::Text(t) => assert_eq!(t, "hey"),
        other => panic!("expected text, got {:?}", other),
    }
}

#[test]
fn attribute_values() {
    let mut c = TwoWay::from_text("'a b'");
    assert_eq!(attr_val().call(&mut c), Ok(Value::Text("'a".to_string())));
    let mut d = TwoWay::from_text("x = \"1\"");
    let r = attr().call(&mut d);
    assert_eq!(
        r,
        Ok(Value::Pair(
            Box::new(Value::Text("x".to_string())),
            Box::new(Value::Text("\"1\"".to_string()))
        ))
    );
}

#[test]
fn whitespace_is_skipped() {
    let mut c = TwoWay::from_text(" \t\n>");
    assert_eq!(skip_whitespaces(one_char('>')).call(&mut c), Ok(Value::Unit));
    assert_eq!(c.ptr(), 4);
    let mut d = TwoWay::from_text("  x");
    assert_eq!(skip_whitespaces(one_char('>')).call(&mut d), Err(()));
    assert_eq!(d.ptr(), 0);
}

#[test]
fn opening_and_void_tags() {
    let mut c = TwoWay::from_text("<a k=v >");
    let r = starting_tag().call(&mut c).unwrap();
    let kv = Value::Pair(
        Box::new(Value::Text("k".to_string())),
        Box::new(Value::Text("v".to_string())),
    );
    assert_eq!(
        r,
        Value::Pair(Box::new(Value::Text("a".to_string())), Box::new(Value::List(vec![kv])))
    );
    let mut d = TwoWay::from_text("<br k=v />");
    let v = void_tag().call(&mut d).unwrap();
    let n = to_node(&v).unwrap();
    assert_eq!(n.name, "br");
    assert_eq!(attribute(&n, "k"), Some("v"));
    assert_eq!(d.ptr(), 10);
}

#[test]
fn later_attribute_wins() {
    let mut c = TwoWay::from_text("<t a=1 a=2></t>");
    let n = to_node(&empty_node().call(&mut c).unwrap()).unwrap();
    assert_eq!(attribute(&n, "a"), Some("2"));
    assert_eq!(n.attributes.len(), 1);
}

#[test]
fn shapeless_value_is_no_node() {
    assert!(to_node(&Value::Unit).is_none());
    assert!(to_node(&Value::Text("x".to_string())).is_none());
}
