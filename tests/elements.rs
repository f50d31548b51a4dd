use markup_browser::element::{Element, Heading};
use markup_browser::node::Node;

fn s(t: &str) -> Node {
    Node::Str(t.to_string())
}

fn one(tag: &str, value: Node) -> Vec<(Node, Node)> {
    vec![(s(tag), value)]
}

#[test]
fn label_tags_give_headings() {
    let cases = [
        ("p", Heading::Plain),
        ("h1", Heading::H1),
        ("h2", Heading::H2),
        ("h3", Heading::H3),
        ("h4", Heading::H4),
        ("h5", Heading::H5),
        ("h6", Heading::H6),
    ];
    for (tag, heading) in cases {
        match Element::new(&one(tag, s("hello"))) {
            Element::Label(text, h) => {
                assert_eq!(text, "hello");
                assert_eq!(h, heading);
            }
            other => panic!("unexpected {:?}", other),
        }
    }
}

#[test]
fn other_known_tags_carry_text() {
    assert!(matches!(Element::new(&one("button", s("b"))), Element::Button(t) if t == "b"));
    assert!(matches!(Element::new(&one("code", s("c"))), Element::Code(t) if t == "c"));
    assert!(matches!(Element::new(&one("textedit", s("t"))), Element::TextEdit(t) if t == "t"));
    assert!(matches!(Element::new(&one("codeedit", s("e"))), Element::CodeEdit(t) if t == "e"));
    assert!(matches!(Element::new(&one("checkbox", s("x"))), Element::CheckBox(false, t) if t == "x"));
    assert!(matches!(Element::new(&one("link", s("l"))), Element::Link(t, u) if t == "l" && u.is_empty()));
    assert!(matches!(Element::new(&one("toggle", s("g"))), Element::Toggle(false, t) if t == "g"));
}

#[test]
fn empty_node_is_unknown() {
    assert!(matches!(Element::new(&vec![]), Element::Unknown));
}

#[test]
fn unrecognized_tag_is_unknown() {
    assert!(matches!(Element::new(&one("marquee", s("x"))), Element::Unknown));
    assert!(matches!(Element::new(&vec![(Node::Bool(true), s("x"))]), Element::Unknown));
}

#[test]
fn non_text_value_reads_as_empty() {
    assert!(matches!(Element::new(&one("p", Node::Number("3".to_string()))), Element::Label(t, Heading::Plain) if t.is_empty()));
    assert!(matches!(Element::new(&one("button", Node::Null)), Element::Button(t) if t.is_empty()));
}

#[test]
fn only_first_entry_counts() {
    let node = vec![(s("code"), s("first")), (s("p"), s("second"))];
    assert!(matches!(Element::new(&node), Element::Code(t) if t == "first"));
}

#[test]
fn details_builds_nested_children() {
    let summary = Node::Sequence(vec![
        Node::Mapping(one("p", s("a"))),
        Node::Mapping(one("p", s("b"))),
    ]);
    let node = vec![(s("details"), Node::Null), (s("header"), s("H")), (s("summary"), summary)];
    match Element::new(&node) {
        Element::Details(header, children) => {
            assert_eq!(header, "H");
            assert_eq!(children.len(), 2);
            assert!(matches!(&children[0], Element::Label(t, Heading::Plain) if t == "a"));
            assert!(matches!(&children[1], Element::Label(t, Heading::Plain) if t == "b"));
        }
        other => panic!("unexpected {:?}", other),
    }
}

#[test]
fn details_skips_non_mapping_children_and_defaults() {
    let summary = Node::Sequence(vec![s("loose"), Node::Mapping(one("h2", s("t")))]);
    let node = vec![(s("details"), Node::Null), (s("summary"), summary)];
    match Element::new(&node) {
        Element::Details(header, children) => {
            assert!(header.is_empty());
            assert_eq!(children.len(), 1);
            assert!(matches!(&children[0], Element::Label(t, Heading::H2) if t == "t"));
        }
        other => panic!("unexpected {:?}", other),
    }
    let bare = vec![(s("details"), Node::Null), (s("summary"), s("not a list"))];
    assert!(matches!(Element::new(&bare), Element::Details(h, c) if h.is_empty() && c.is_empty()));
}

#[test]
fn details_reads_nested_mapping() {
    let summary = Node::Sequence(vec![
        Node::Mapping(one("p", s("a"))),
        Node::Mapping(one("p", s("b"))),
    ]);
    let inner = Node::Mapping(vec![(s("header"), s("H")), (s("summary"), summary)]);
    match Element::new(&one("details", inner)) {
        Element::Details(header, children) => {
            assert_eq!(header, "H");
            assert_eq!(children.len(), 2);
            assert!(matches!(&children[0], Element::Label(t, Heading::Plain) if t == "a"));
            assert!(matches!(&children[1], Element::Label(t, Heading::Plain) if t == "b"));
        }
        other => panic!("unexpected {:?}", other),
    }
}
