//! Path navigation over the wire tree: first-match descent, full-path
//! errors, builders.

use confluence::rpser::xml::{Element, XMLNode, Error};

fn leaf(name: &str, text: &str) -> Element {
    Element::node(name).with_text(text)
}

#[test]
fn descend_skips_decoy_sibling() {
    let root = Element::node("root")
        .with_child(leaf("a", "first"))
        .with_child(leaf("a", "second"));
    let got = root.descend(&["a"]).unwrap();
    match got {
        XMLNode::Element(e) => assert_eq!(e.get_text(), Some("first".to_string())),
        XMLNode::Text(_) => panic!("expected an element"),
    }
}

#[test]
fn descend_skips_decoy_at_deeper_level() {
    // the first `a` has no `b`; descent commits to the first `a` and then
    // fails, it does not backtrack into the second `a`
    let root = Element::node("root")
        .with_child(Element::node("a").with_child(leaf("c", "nope")))
        .with_child(Element::node("a").with_child(leaf("b", "yes")));
    let err = root.descend(&["a", "b"]).unwrap_err();
    assert_eq!(
        err,
        Error::NotFoundAtPath { path: vec!["a".to_string(), "b".to_string()] }
    );
}

#[test]
fn descend_empty_path_returns_node_itself() {
    let root = Element::node("root").with_child(leaf("a", "x"));
    let got = root.descend(&[]).unwrap();
    match got {
        XMLNode::Element(e) => assert_eq!(e.name, "root"),
        XMLNode::Text(_) => panic!("expected an element"),
    }
}

#[test]
fn not_found_path_is_full_when_first_segment_fails() {
    let root = Element::node("root").with_child(leaf("x", "1"));
    let err = root.descend(&["a", "b", "c"]).unwrap_err();
    assert_eq!(
        err,
        Error::NotFoundAtPath {
            path: vec!["a".to_string(), "b".to_string(), "c".to_string()]
        }
    );
}

#[test]
fn not_found_path_is_full_when_last_segment_fails() {
    let root = Element::node("root")
        .with_child(Element::node("a").with_child(Element::node("b")));
    let err = root.descend(&["a", "b", "c"]).unwrap_err();
    assert_eq!(
        err,
        Error::NotFoundAtPath {
            path: vec!["a".to_string(), "b".to_string(), "c".to_string()]
        }
    );
}

#[test]
fn get_at_path_agrees_with_descend() {
    let root = Element::node("root")
        .with_child(Element::node("a").with_child(leaf("b", "deep")));
    let peeked = root.get_at_path(&["a", "b"]).unwrap();
    let owned = root.descend(&["a", "b"]).unwrap();
    assert_eq!(peeked, owned);
}

#[test]
fn get_at_path_reports_full_path_too() {
    let root = Element::node("root");
    let err = root.get_at_path(&["p", "q"]).unwrap_err();
    assert_eq!(
        err,
        Error::NotFoundAtPath { path: vec!["p".to_string(), "q".to_string()] }
    );
}

#[test]
fn descend_first_returns_first_child() {
    let root = Element::node("root").with_text("t").with_child(Element::node("a"));
    let got = root.descend_first().unwrap();
    assert_eq!(got, XMLNode::Text("t".to_string()));
}

#[test]
fn descend_first_on_empty_element_fails_with_parent_name() {
    let root = Element::node("lonely");
    let err = root.descend_first().unwrap_err();
    assert_eq!(err, Error::ExpectedNotEmpty { parent: "lonely".to_string() });
}

#[test]
fn with_attr_last_write_wins_and_keys_stay_unique() {
    let e = Element::node("n").with_attr("k", "1").with_attr("k", "2");
    assert_eq!(e.attributes, vec![("k".to_string(), "2".to_string())]);
    let e2 = e.with_attr("j", "3");
    assert_eq!(
        e2.attributes,
        vec![("k".to_string(), "2".to_string()), ("j".to_string(), "3".to_string())]
    );
}

#[test]
fn with_name_replaces_name() {
    let e = Element::node("old").with_name("new");
    assert_eq!(e.name, "new");
}

#[test]
fn get_text_concatenates_text_children() {
    let e = Element::node("n")
        .with_text("a")
        .with_child(Element::node("mid"))
        .with_text("b");
    assert_eq!(e.get_text(), Some("ab".to_string()));
    assert_eq!(Element::node("empty").get_text(), None);
}

#[test]
fn with_children_appends_in_order() {
    let e = Element::node("n").with_children(vec![Element::node("a"), Element::node("b")]);
    assert_eq!(e.children.len(), 2);
    match &e.children[0] {
        XMLNode::Element(c) => assert_eq!(c.name, "a"),
        XMLNode::Text(_) => panic!("expected an element"),
    }
    match &e.children[1] {
        XMLNode::Element(c) => assert_eq!(c.name, "b"),
        XMLNode::Text(_) => panic!("expected an element"),
    }
}

#[test]
fn with_children_from_iter_clones() {
    let source = vec![Element::node("a").with_text("x")];
    let e = Element::node("n").with_children_from_iter(&source);
    assert_eq!(e.children.len(), 1);
    // the source is untouched
    assert_eq!(source.len(), 1);
}
