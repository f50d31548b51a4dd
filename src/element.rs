//! The typed element tree built from markup nodes.
use vstd::prelude::*;
use crate::node::{Node, text_of, key_index, lookup, lemma_key_index, get};
use crate::text::str_eq;

verus! {

broadcast use {vstd::seq::axiom_seq_index_decreases, vstd::std_specs::vec::axiom_vec_decreases_to_view};

/// The size class of a text label.
#[derive(PartialEq, Eq, Structural, Clone, Copy, Debug)]
pub enum Heading {
    Plain,
    H1,
    H2,
    H3,
    H4,
    H5,
    H6,
}

/// One element of a document.
#[derive(Debug)]
pub enum Element {
    Label(String, Heading),
    Button(String),
    Code(String),
    TextEdit(String),
    CodeEdit(String),
    CheckBox(bool, String),
    Link(String, String),
    Toggle(bool, String),
    Details(String, Vec<Element>),
    Unknown,
}

/// The mathematical shape of an element: its texts as character sequences.
pub enum Shape {
    Label(Seq<char>, Heading),
    Button(Seq<char>),
    Code(Seq<char>),
    TextEdit(Seq<char>),
    CodeEdit(Seq<char>),
    CheckBox(bool, Seq<char>),
    Link(Seq<char>, Seq<char>),
    Toggle(bool, Seq<char>),
    Details(Seq<char>, Seq<Shape>),
    Unknown,
}

pub open spec fn shape_of(e: Element) -> Shape
    decreases e,
{
    match e {
        Element::Label(t, h) => Shape::Label(t@, h),
        Element::Button(t) => Shape::Button(t@),
        Element::Code(t) => Shape::Code(t@),
        Element::TextEdit(t) => Shape::TextEdit(t@),
        Element::CodeEdit(t) => Shape::CodeEdit(t@),
        Element::CheckBox(b, t) => Shape::CheckBox(b, t@),
        Element::Link(t, u) => Shape::Link(t@, u@),
        Element::Toggle(b, t) => Shape::Toggle(b, t@),
        Element::Details(h, c) => Shape::Details(h@, shapes_of(c@)),
        Element::Unknown => Shape::Unknown,
    }
}

pub open spec fn shapes_of(s: Seq<Element>) -> Seq<Shape>
    decreases s,
{
    if s.len() == 0 {
        Seq::empty()
    } else {
        shapes_of(s.drop_last()).push(shape_of(s.last()))
    }
}

impl View for Element {
    type V = Shape;

    open spec fn view(&self) -> Shape {
        shape_of(*self)
    }
}

/// The heading that a text tag stands for, if it is one of the label tags.
pub open spec fn heading_of(tag: Seq<char>) -> Option<Heading> {
    if tag == "p"@ {
        Some(Heading::Plain)
    } else if tag == "h1"@ {
        Some(Heading::H1)
    } else if tag == "h2"@ {
        Some(Heading::H2)
    } else if tag == "h3"@ {
        Some(Heading::H3)
    } else if tag == "h4"@ {
        Some(Heading::H4)
    } else if tag == "h5"@ {
        Some(Heading::H5)
    } else if tag == "h6"@ {
        Some(Heading::H6)
    } else {
        None
    }
}

/// The element that a tag other than `details` makes of its text.
pub open spec fn simple_shape(tag: Seq<char>, value: Seq<char>) -> Shape {
    match heading_of(tag) {
        Some(h) => Shape::Label(value, h),
        None => if tag == "button"@ {
            Shape::Button(value)
        } else if tag == "code"@ {
            Shape::Code(value)
        } else if tag == "textedit"@ {
            Shape::TextEdit(value)
        } else if tag == "codeedit"@ {
            Shape::CodeEdit(value)
        } else if tag == "checkbox"@ {
            Shape::CheckBox(false, value)
        } else if tag == "link"@ {
            Shape::Link(value, Seq::empty())
        } else if tag == "toggle"@ {
            Shape::Toggle(false, value)
        } else {
            Shape::Unknown
        },
    }
}

/// Whether `tag` names an element kind.
pub open spec fn is_known_tag(tag: Seq<char>) -> bool {
    tag == "details"@ || simple_shape(tag, Seq::empty()) != Shape::Unknown
}

/// The element built from a mapping node: its first entry names the tag and
/// gives the text. A `details` node reads the entries `header` and `summary`
/// from the mapping under its tag where that value is one, and otherwise
/// from the node's own entries beside the tag.
pub open spec fn build(entries: Seq<(Node, Node)>) -> Shape
    decreases entries,
{
    if entries.len() == 0 {
        Shape::Unknown
    } else {
        let tag = text_of(entries[0].0);
        if tag == "details"@ {
            let fields = match entries[0].1 {
                Node::Mapping(m) => m@,
                _ => entries,
            };
            let header = match lookup(fields, "header"@) {
                Some(n) => text_of(n),
                None => Seq::empty(),
            };
            let children = match key_index(fields, "summary"@) {
                Some(i) => if 0 <= i < fields.len() {
                    match fields[i].1 {
                        Node::Sequence(v) => build_all(v@),
                        _ => Seq::empty(),
                    }
                } else {
                    Seq::empty()
                },
                None => Seq::empty(),
            };
            Shape::Details(header, children)
        } else {
            simple_shape(tag, text_of(entries[0].1))
        }
    }
}

/// The elements built from the mapping nodes of `items`; other nodes are
/// passed over.
pub open spec fn build_all(items: Seq<Node>) -> Seq<Shape>
    decreases items,
{
    if items.len() == 0 {
        Seq::empty()
    } else {
        let rest = build_all(items.drop_last());
        match items.last() {
            Node::Mapping(m) => rest.push(build(m@)),
            _ => rest,
        }
    }
}

/// A node whose first key is a known tag other than `details` becomes the
/// element of that tag, carrying the text of that entry's value; a node
/// without entries, or whose first key is no known tag, becomes `Unknown`.
pub proof fn lemma_build_by_tag(entries: Seq<(Node, Node)>)
    ensures
        entries.len() == 0 ==> build(entries) == Shape::Unknown,
        entries.len() > 0 && !is_known_tag(text_of(entries[0].0)) ==> build(entries)
            == Shape::Unknown,
        entries.len() > 0 && text_of(entries[0].0) != "details"@ ==> build(entries)
            == simple_shape(text_of(entries[0].0), text_of(entries[0].1)),
        forall|tag: Seq<char>, v: Seq<char>|
            #![auto]
            is_known_tag(tag) && tag != "details"@ ==> shape_text(simple_shape(tag, v)) == Some(v),
{
}

/// The text that an element other than a details section shows.
pub open spec fn shape_text(s: Shape) -> Option<Seq<char>> {
    match s {
        Shape::Label(t, _) => Some(t),
        Shape::Button(t) => Some(t),
        Shape::Code(t) => Some(t),
        Shape::TextEdit(t) => Some(t),
        Shape::CodeEdit(t) => Some(t),
        Shape::CheckBox(_, t) => Some(t),
        Shape::Link(t, _) => Some(t),
        Shape::Toggle(_, t) => Some(t),
        _ => None,
    }
}

impl Element {
    /// Builds the element that a mapping node describes. A node without
    /// entries, or whose first key is no known tag, becomes `Unknown`.
    pub fn new(mapping: &Vec<(Node, Node)>) -> (r: Element)
        ensures
            r@ == build(mapping@),
        decreases mapping@,
    {
        if mapping.len() == 0 {
            return Element::Unknown;
        }
        let entry = &mapping[0];
        let tag: &str = match entry.0.as_str() {
            Some(s) => s.as_str(),
            None => "",
        };
        let value = entry.1.text();
        proof {
            reveal_strlit("");
            reveal_strlit("p");
            reveal_strlit("h1");
            reveal_strlit("h2");
            reveal_strlit("h3");
            reveal_strlit("h4");
            reveal_strlit("h5");
            reveal_strlit("h6");
            reveal_strlit("button");
            reveal_strlit("code");
            reveal_strlit("textedit");
            reveal_strlit("codeedit");
            reveal_strlit("checkbox");
            reveal_strlit("link");
            reveal_strlit("toggle");
            reveal_strlit("details");
        }
        assert(tag@ == text_of(mapping@[0].0));
        if str_eq(tag, "p") {
            Element::Label(value, Heading::Plain)
        } else if str_eq(tag, "h1") {
            Element::Label(value, Heading::H1)
        } else if str_eq(tag, "h2") {
            Element::Label(value, Heading::H2)
        } else if str_eq(tag, "h3") {
            Element::Label(value, Heading::H3)
        } else if str_eq(tag, "h4") {
            Element::Label(value, Heading::H4)
        } else if str_eq(tag, "h5") {
            Element::Label(value, Heading::H5)
        } else if str_eq(tag, "h6") {
            Element::Label(value, Heading::H6)
        } else if str_eq(tag, "button") {
            Element::Button(value)
        } else if str_eq(tag, "code") {
            Element::Code(value)
        } else if str_eq(tag, "textedit") {
            Element::TextEdit(value)
        } else if str_eq(tag, "codeedit") {
            Element::CodeEdit(value)
        } else if str_eq(tag, "checkbox") {
            Element::CheckBox(false, value)
        } else if str_eq(tag, "link") {
            Element::Link(value, String::new())
        } else if str_eq(tag, "toggle") {
            Element::Toggle(false, value)
        } else if str_eq(tag, "details") {
            let fields: &Vec<(Node, Node)> = match &entry.1 {
                Node::Mapping(m) => m,
                _ => mapping,
            };
            let header = match get(fields, "header") {
                Some(n) => n.text(),
                None => String::new(),
            };
            proof {
                lemma_key_index(fields@, "summary"@);
            }
            let children = match get(fields, "summary") {
                Some(Node::Sequence(items)) => build_children(items),
                _ => Vec::new(),
            };
            let r = Element::Details(header, children);
            assert(r@ == build(mapping@));
            r
        } else {
            Element::Unknown
        }
    }
}

/// Builds one element for each mapping node of `items`, in order.
fn build_children(items: &Vec<Node>) -> (r: Vec<Element>)
    ensures
        shapes_of(r@) == build_all(items@),
    decreases items@,
{
    let mut out: Vec<Element> = Vec::new();
    let mut i: usize = 0;
    while i < items.len()
        invariant
            i <= items@.len(),
            shapes_of(out@) == build_all(items@.subrange(0, i as int)),
        decreases items.len() - i,
    {
        let ghost before = out@;
        let ghost prefix = items@.subrange(0, i as int + 1);
        assert(prefix.drop_last() =~= items@.subrange(0, i as int));
        assert(prefix.last() == items@[i as int]);
        if let Node::Mapping(m) = &items[i] {
            let e = Element::new(m);
            out.push(e);
            assert(out@.drop_last() =~= before);
        }
        i += 1;
    }
    assert(items@.subrange(0, items@.len() as int) =~= items@);
    out
}

} // verus!
