//! The document loader's decisions: which locations name markup, what a
//! markup document must hold, where its resources are, and how the pieces
//! become one page.
use vstd::prelude::*;
use vstd::string::{StrSliceExecFns, StringExecFns};
use crate::element::{Element, Heading, Shape, build, shapes_of};
use crate::node::{Node, get, lookup};
use crate::style::{Styles, default_styles};
use crate::stylesheet::{parse_css, resolved};
use crate::text::ends_with;

verus! {

/// A loaded page: everything the view shows, produced from one location.
#[derive(Debug)]
pub struct Page {
    pub title: String,
    pub body: Vec<Element>,
    pub styles: Styles,
    pub script: String,
}

/// Why a load failed.
#[derive(PartialEq, Eq, Structural, Clone, Copy, Debug)]
pub enum LoadError {
    /// A resource could not be fetched.
    Transport,
    /// The markup text is not a well-formed document.
    Syntax,
    /// The document is not a mapping.
    NotAMapping,
    /// The document has no `head` mapping.
    MissingHead,
    /// The head has no text `title`.
    MissingTitle,
    /// The document has no `body` sequence.
    MissingBody,
}

/// The suffix that a markup location ends with.
pub open spec fn markup_suffix() -> Seq<char> {
    ".yaml"@
}

pub open spec fn is_markup_location(location: Seq<char>) -> bool {
    markup_suffix().len() <= location.len() && location.subrange(
        location.len() - markup_suffix().len(),
        location.len() as int,
    ) == markup_suffix()
}

/// Whether a fetch gives the built-in not-found page: its text is empty or
/// its location does not end in the markup suffix.
pub open spec fn is_not_found(location: Seq<char>, text: Seq<char>) -> bool {
    text.len() == 0 || !is_markup_location(location)
}

/// Whether `location` names a markup document; one that does not gives the
/// not-found page without being fetched.
pub fn names_markup(location: &str) -> (r: bool)
    ensures
        r == is_markup_location(location@),
{
    ends_with(location, ".yaml")
}

/// Decides whether the markup fetched from `location` is replaced by the
/// not-found page.
pub fn needs_fallback(location: &str, text: &str) -> (r: bool)
    ensures
        r == is_not_found(location@, text@),
{
    text.unicode_len() == 0 || !names_markup(location)
}

/// The built-in page shown where a location names no markup document.
pub fn fallback_page() -> (r: Page)
    ensures
        r.title@ == "Erm what?"@,
        shapes_of(r.body@) == seq![
            Shape::Label("Page not found"@, Heading::H1),
            Shape::Label("There is no markup document at this location."@, Heading::Plain),
        ],
        r.styles == default_styles(),
        r.script@ == Seq::<char>::empty(),
{
    let mut body: Vec<Element> = Vec::new();
    body.push(Element::Label(String::from_str("Page not found"), Heading::H1));
    body.push(
        Element::Label(
            String::from_str("There is no markup document at this location."),
            Heading::Plain,
        ),
    );
    assert(body@.drop_last().drop_last() =~= Seq::<Element>::empty());
    assert(body@.drop_last() =~= seq![body@[0]]);
    proof {
        reveal_with_fuel(shapes_of, 3);
    }
    Page {
        title: String::from_str("Erm what?"),
        body,
        styles: Styles::default(),
        script: String::new(),
    }
}

/// What a markup document holds, before its resources are fetched.
#[derive(Debug)]
pub struct Outline {
    pub title: String,
    /// The relative path of the stylesheet, if the head names one.
    pub style: Option<String>,
    /// The relative path of the script, if the head names one.
    pub script: Option<String>,
    pub body: Vec<Element>,
}

/// The element that one entry of a body becomes: a mapping is built, any
/// other value is unknown.
pub open spec fn body_shape(n: Node) -> Shape {
    match n {
        Node::Mapping(m) => build(m@),
        _ => Shape::Unknown,
    }
}

/// The text of an optional string entry.
pub open spec fn optional_text(n: Option<Node>) -> Option<Seq<char>> {
    match n {
        Some(Node::Str(s)) => Some(s@),
        _ => None,
    }
}

pub open spec fn optional_view(s: Option<String>) -> Option<Seq<char>> {
    match s {
        Some(t) => Some(t@),
        None => None,
    }
}

/// The head mapping of a document.
pub open spec fn head_of(doc: Node) -> Option<Seq<(Node, Node)>> {
    match doc {
        Node::Mapping(m) => match lookup(m@, "head"@) {
            Some(Node::Mapping(h)) => Some(h@),
            _ => None,
        },
        _ => None,
    }
}

/// The error that reading a document gives, if any; the checks go in order.
pub open spec fn document_error(doc: Node) -> Option<LoadError> {
    match doc {
        Node::Mapping(m) => match lookup(m@, "head"@) {
            Some(Node::Mapping(h)) => match lookup(h@, "title"@) {
                Some(Node::Str(_)) => match lookup(m@, "body"@) {
                    Some(Node::Sequence(_)) => None,
                    _ => Some(LoadError::MissingBody),
                },
                _ => Some(LoadError::MissingTitle),
            },
            _ => Some(LoadError::MissingHead),
        },
        _ => Some(LoadError::NotAMapping),
    }
}

/// Whether `o` is what a well-formed document holds.
pub open spec fn outlines(doc: Node, o: Outline) -> bool {
    match doc {
        Node::Mapping(m) => match (lookup(m@, "head"@), lookup(m@, "body"@)) {
            (Some(Node::Mapping(h)), Some(Node::Sequence(items))) => {
                &&& optional_text(lookup(h@, "title"@)) == Some(o.title@)
                &&& optional_view(o.style) == optional_text(lookup(h@, "style"@))
                &&& optional_view(o.script) == optional_text(lookup(h@, "script"@))
                &&& shapes_of(o.body@) == items@.map_values(|n: Node| body_shape(n))
            },
            _ => false,
        },
        _ => false,
    }
}

fn optional_string(n: Option<&Node>) -> (r: Option<String>)
    ensures
        optional_view(r) == optional_text(
            match n {
                Some(v) => Some(*v),
                None => None,
            },
        ),
{
    match n {
        Some(Node::Str(s)) => Some(s.clone()),
        _ => None,
    }
}

/// Reads a parsed markup document: its head must be a mapping with a text
/// title, its body a sequence; each body entry becomes one element.
pub fn read_document(doc: &Node) -> (r: Result<Outline, LoadError>)
    ensures
        match r {
            Ok(o) => document_error(*doc) is None && outlines(*doc, o),
            Err(e) => document_error(*doc) == Some(e),
        },
{
    let m = match doc {
        Node::Mapping(m) => m,
        _ => return Err(LoadError::NotAMapping),
    };
    let h = match get(m, "head") {
        Some(Node::Mapping(h)) => h,
        _ => return Err(LoadError::MissingHead),
    };
    let title = match get(h, "title") {
        Some(Node::Str(t)) => t.clone(),
        _ => return Err(LoadError::MissingTitle),
    };
    let style = optional_string(get(h, "style"));
    let script = optional_string(get(h, "script"));
    let items = match get(m, "body") {
        Some(Node::Sequence(items)) => items,
        _ => return Err(LoadError::MissingBody),
    };
    let mut body: Vec<Element> = Vec::new();
    let mut i: usize = 0;
    while i < items.len()
        invariant
            i <= items@.len(),
            shapes_of(body@) == items@.subrange(0, i as int).map_values(|n: Node| body_shape(n)),
        decreases items.len() - i,
    {
        let ghost before = body@;
        let e = match &items[i] {
            Node::Mapping(entries) => Element::new(entries),
            _ => Element::Unknown,
        };
        body.push(e);
        assert(body@.drop_last() =~= before);
        assert(items@.subrange(0, i as int + 1).map_values(|n: Node| body_shape(n))
            =~= items@.subrange(0, i as int).map_values(|n: Node| body_shape(n)).push(
            body_shape(items@[i as int]),
        ));
        i += 1;
    }
    assert(items@.subrange(0, items@.len() as int) =~= items@);
    Ok(Outline { title, style, script, body })
}

/// Two outlines of one document agree in every field: reading a document
/// again gives the same title, resource paths and element tree.
pub proof fn lemma_outline_determined(doc: Node, a: Outline, b: Outline)
    requires
        outlines(doc, a),
        outlines(doc, b),
    ensures
        a.title@ == b.title@,
        optional_view(a.style) == optional_view(b.style),
        optional_view(a.script) == optional_view(b.script),
        shapes_of(a.body@) == shapes_of(b.body@),
{
}

/// The directory part of a location: everything up to and including its
/// last `/`, or nothing where it has none.
pub open spec fn directory_of(location: Seq<char>) -> Seq<char>
    decreases location.len(),
{
    if location.len() == 0 {
        Seq::empty()
    } else if location.last() == '/' {
        location
    } else {
        directory_of(location.drop_last())
    }
}

/// The location of a resource that a page at `location` names by a path
/// relative to its own directory.
pub fn resource_location(location: &str, path: &str) -> (r: String)
    ensures
        r@ == directory_of(location@) + path@,
{
    let mut k: usize = location.unicode_len();
    assert(location@.subrange(0, k as int) =~= location@);
    while k > 0 && location.get_char(k - 1) != '/'
        invariant
            k <= location@.len(),
            directory_of(location@) == directory_of(location@.subrange(0, k as int)),
        decreases k,
    {
        assert(location@.subrange(0, k as int).drop_last() =~= location@.subrange(0, k - 1));
        k -= 1;
    }
    let dir = location.substring_char(0, k);
    let mut r = String::from_str(dir);
    r.append(path);
    r
}

/// Puts a page together from a document's outline and the resources it
/// named: stylesheet text is resolved onto the catalog, and where there is
/// none the catalog is the default one; a missing script is empty.
pub fn assemble_page(outline: Outline, css: Option<String>, script: Option<String>) -> (r: Page)
    ensures
        r.title == outline.title,
        r.body == outline.body,
        r.styles == match css {
            Some(c) => resolved(c@),
            None => default_styles(),
        },
        r.script@ == match script {
            Some(s) => s@,
            None => Seq::<char>::empty(),
        },
{
    let styles = match css {
        Some(c) => parse_css(c.as_str()),
        None => Styles::default(),
    };
    let script = match script {
        Some(s) => s,
        None => String::new(),
    };
    Page { title: outline.title, body: outline.body, styles, script }
}

} // verus!
