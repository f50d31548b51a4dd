use markup_browser::document::{
    assemble_page, fallback_page, names_markup, needs_fallback, read_document, resource_location, LoadError,
};
use markup_browser::element::{Element, Heading};
use markup_browser::node::Node;
use markup_browser::style::{Color, Styles};

fn s(t: &str) -> Node {
    Node::Str(t.to_string())
}

fn doc(head: Vec<(Node, Node)>, body: Option<Node>) -> Node {
    let mut entries = vec![(s("head"), Node::Mapping(head))];
    if let Some(b) = body {
        entries.push((s("body"), b));
    }
    Node::Mapping(entries)
}

#[test]
fn fallback_for_empty_or_foreign_location() {
    assert!(needs_fallback("site/home.yaml", ""));
    assert!(needs_fallback("site/home.txt", "head: {}"));
    assert!(needs_fallback("", "x"));
    assert!(!needs_fallback("site/home.yaml", "x"));
}

#[test]
fn fallback_page_is_fixed() {
    let page = fallback_page();
    assert_eq!(page.title, "Erm what?");
    assert_eq!(page.body.len(), 2);
    assert!(matches!(&page.body[0], Element::Label(_, Heading::H1)));
    assert!(matches!(&page.body[1], Element::Label(_, Heading::Plain)));
    assert_eq!(page.styles, Styles::default());
    assert!(page.script.is_empty());
}

#[test]
fn reads_well_formed_document() {
    let body = Node::Sequence(vec![
        Node::Mapping(vec![(s("h1"), s("Welcome"))]),
        s("stray"),
        Node::Mapping(vec![(s("button"), s("Go"))]),
    ]);
    let d = doc(vec![(s("title"), s("Home")), (s("style"), s("main.sass"))], Some(body));
    let outline = read_document(&d).unwrap();
    assert_eq!(outline.title, "Home");
    assert_eq!(outline.style.as_deref(), Some("main.sass"));
    assert_eq!(outline.script, None);
    assert_eq!(outline.body.len(), 3);
    assert!(matches!(&outline.body[0], Element::Label(t, Heading::H1) if t == "Welcome"));
    assert!(matches!(&outline.body[1], Element::Unknown));
    assert!(matches!(&outline.body[2], Element::Button(t) if t == "Go"));
}

#[test]
fn structural_errors() {
    assert_eq!(read_document(&s("text")).unwrap_err(), LoadError::NotAMapping);
    assert_eq!(
        read_document(&Node::Mapping(vec![(s("body"), Node::Sequence(vec![]))])).unwrap_err(),
        LoadError::MissingHead
    );
    assert_eq!(
        read_document(&doc(vec![(s("title"), Node::Number("1".to_string()))], Some(Node::Sequence(vec![])))).unwrap_err(),
        LoadError::MissingTitle
    );
    assert_eq!(
        read_document(&doc(vec![(s("title"), s("T"))], None)).unwrap_err(),
        LoadError::MissingBody
    );
    assert_eq!(
        read_document(&doc(vec![(s("title"), s("T"))], Some(s("x")))).unwrap_err(),
        LoadError::MissingBody
    );
}

#[test]
fn resources_are_relative_to_directory() {
    assert_eq!(resource_location("site/home.yaml", "style.sass"), "site/style.sass");
    assert_eq!(resource_location("a/b/c.yaml", "x/s.js"), "a/b/x/s.js");
    assert_eq!(resource_location("home.yaml", "s.sass"), "s.sass");
}

#[test]
fn assembles_page() {
    let d = doc(vec![(s("title"), s("T"))], Some(Node::Sequence(vec![])));
    let outline = read_document(&d).unwrap();
    let page = assemble_page(outline, Some("body { background-color: #102030 }".to_string()), Some("print(1)".to_string()));
    assert_eq!(page.title, "T");
    assert_eq!(page.styles.body.background_color, Color { r: 0x10, g: 0x20, b: 0x30, a: 255 });
    assert_eq!(page.script, "print(1)");
    let outline = read_document(&d).unwrap();
    let plain = assemble_page(outline, None, None);
    assert_eq!(plain.styles, Styles::default());
    assert!(plain.script.is_empty());
}

#[test]
fn markup_locations() {
    assert!(names_markup("test/home.yaml"));
    assert!(!names_markup("test/home.yml"));
    assert!(!names_markup("yaml"));
}
