//! Generic markup values: what a parsed markup document holds before it is
//! given a typed shape.
use vstd::prelude::*;
use crate::text::str_eq;

verus! {

/// A markup value: a scalar, a sequence, or a mapping whose entries keep
/// their order.
pub enum Node {
    Null,
    Bool(bool),
    /// A number, kept as the text it was written with.
    Number(String),
    Str(String),
    Sequence(Vec<Node>),
    Mapping(Vec<(Node, Node)>),
}

/// The text of a string value; any other value reads as empty text.
pub open spec fn text_of(n: Node) -> Seq<char> {
    match n {
        Node::Str(s) => s@,
        _ => Seq::empty(),
    }
}

/// Whether `n` is a string value holding `key`.
pub open spec fn is_key(n: Node, key: Seq<char>) -> bool {
    match n {
        Node::Str(s) => s@ == key,
        _ => false,
    }
}

/// The position of the first entry whose key is the string `key`.
pub open spec fn key_index(entries: Seq<(Node, Node)>, key: Seq<char>) -> Option<int>
    decreases entries.len(),
{
    if entries.len() == 0 {
        None
    } else {
        match key_index(entries.drop_last(), key) {
            Some(i) => Some(i),
            None => if is_key(entries.last().0, key) {
                Some(entries.len() - 1)
            } else {
                None
            },
        }
    }
}

/// The value under the first entry whose key is the string `key`.
pub open spec fn lookup(entries: Seq<(Node, Node)>, key: Seq<char>) -> Option<Node> {
    match key_index(entries, key) {
        Some(i) => Some(entries[i].1),
        None => None,
    }
}

pub proof fn lemma_key_index(entries: Seq<(Node, Node)>, key: Seq<char>)
    ensures
        match key_index(entries, key) {
            Some(i) => 0 <= i < entries.len() && is_key(entries[i].0, key) && forall|j: int|
                0 <= j < i ==> !is_key(#[trigger] entries[j].0, key),
            None => forall|j: int| 0 <= j < entries.len() ==> !is_key(#[trigger] entries[j].0, key),
        },
    decreases entries.len(),
{
    if entries.len() > 0 {
        lemma_key_index(entries.drop_last(), key);
        assert forall|j: int| 0 <= j < entries.len() - 1 implies entries[j] == entries.drop_last()[j] by {}
    }
}

impl Node {
    /// The text of a string value.
    pub fn as_str(&self) -> (r: Option<&String>)
        ensures
            match *self {
                Node::Str(s) => r == Some(&s),
                _ => r is None,
            },
    {
        match self {
            Node::Str(s) => Some(s),
            _ => None,
        }
    }

    /// The text of a string value, or empty text for any other value.
    pub fn text(&self) -> (r: String)
        ensures
            r@ == text_of(*self),
    {
        match self {
            Node::Str(s) => s.clone(),
            _ => String::new(),
        }
    }
}

/// The value under the first entry of `entries` whose key is the string `key`.
pub fn get<'a>(entries: &'a Vec<(Node, Node)>, key: &str) -> (r: Option<&'a Node>)
    ensures
        r matches Some(v) ==> lookup(entries@, key@) == Some(*v),
        r is None ==> lookup(entries@, key@) is None,
{
    proof {
        lemma_key_index(entries@, key@);
    }
    let mut i: usize = 0;
    while i < entries.len()
        invariant
            i <= entries@.len(),
            forall|j: int| 0 <= j < i ==> !is_key(#[trigger] entries@[j].0, key@),
            match key_index(entries@, key@) {
                Some(k) => 0 <= k < entries@.len() && is_key(entries@[k].0, key@) && forall|j: int|
                    0 <= j < k ==> !is_key(#[trigger] entries@[j].0, key@),
                None => forall|j: int|
                    0 <= j < entries@.len() ==> !is_key(#[trigger] entries@[j].0, key@),
            },
        decreases entries.len() - i,
    {
        let entry = &entries[i];
        if let Node::Str(s) = &entry.0 {
            if str_eq(s.as_str(), key) {
                assert(is_key(entries@[i as int].0, key@));
                return Some(&entry.1);
            }
        }
        i += 1;
    }
    None
}

} // verus!
