//! The markup that an answer comes in, and the commands inside it.

use vstd::prelude::*;
use html_parser::{Dom, Node};
use crate::lexing::{is_space, is_space_char};
use crate::text::chars_of;

verus! {

/// A node right under an element at the top of a document.
pub enum MarkupChild {
    Text(String),
    Comment(String),
    /// An element, by its name.
    Element(String),
}

/// A `MarkupChild`, as plain values.
pub enum MarkupChildView {
    Text(Seq<char>),
    Comment(Seq<char>),
    Element(Seq<char>),
}

impl View for MarkupChild {
    type V = MarkupChildView;

    open spec fn view(&self) -> MarkupChildView {
        match self {
            MarkupChild::Text(text) => MarkupChildView::Text(text@),
            MarkupChild::Comment(text) => MarkupChildView::Comment(text@),
            MarkupChild::Element(name) => MarkupChildView::Element(name@),
        }
    }
}

/// A node at the top of a document.
pub enum MarkupNode {
    Text(String),
    Comment(String),
    /// An element, by its name and its children.
    Element(String, Vec<MarkupChild>),
}

/// A `MarkupNode`, as plain values.
pub enum MarkupNodeView {
    Text(Seq<char>),
    Comment(Seq<char>),
    Element(Seq<char>, Seq<MarkupChildView>),
}

impl View for MarkupNode {
    type V = MarkupNodeView;

    open spec fn view(&self) -> MarkupNodeView {
        match self {
            MarkupNode::Text(text) => MarkupNodeView::Text(text@),
            MarkupNode::Comment(text) => MarkupNodeView::Comment(text@),
            MarkupNode::Element(name, children) => MarkupNodeView::Element(
                name@,
                children@.map_values(|child: MarkupChild| child@),
            ),
        }
    }
}

/// The nodes at the top of a document, as plain values.
pub open spec fn nodes_view(nodes: Seq<MarkupNode>) -> Seq<MarkupNodeView> {
    nodes.map_values(|node: MarkupNode| node@)
}

/// The top of a document, as plain values; `None` for text that is no
/// document.
pub open spec fn markup_view(nodes: Option<Vec<MarkupNode>>) -> Option<Seq<MarkupNodeView>> {
    match nodes {
        Some(list) => Some(nodes_view(list@)),
        None => None,
    }
}

/// Calls `html_parser::Dom::parse` and hands on the nodes at the top of the
/// document, each element with its name and the kinds of its children, or
/// `None` where the parser gives an error. The parser gives up where the
/// thread has little stack left or its call limit is spent, so what it
/// makes of a text is not a matter of the text alone: the contract
/// promises nothing of the result.
#[verifier::external_body]
pub(crate) fn parse_markup(text: &str) -> (nodes: Option<Vec<MarkupNode>>) {
    let child = |node| match node {
        Node::Text(text) => MarkupChild::Text(text),
        Node::Comment(text) => MarkupChild::Comment(text),
        Node::Element(element) => MarkupChild::Element(element.name),
    };
    let top = |node| match node {
        Node::Text(text) => MarkupNode::Text(text),
        Node::Comment(text) => MarkupNode::Comment(text),
        Node::Element(element) => MarkupNode::Element(
            element.name,
            element.children.into_iter().map(child).collect(),
        ),
    };
    Dom::parse(text).ok().map(|dom| dom.children.into_iter().map(top).collect())
}

/// Place of the first character of `s` from `from` on that is no white
/// space; the length of `s` where there is none.
pub open spec fn first_mark(s: Seq<char>, from: int) -> int
    decreases s.len() - from,
{
    if from < 0 || from >= s.len() {
        s.len() as int
    } else if !is_space(s[from]) {
        from
    } else {
        first_mark(s, from + 1)
    }
}

/// Place behind the last character among the first `to` of `s` that is no
/// white space; zero where there is none.
pub open spec fn last_mark(s: Seq<char>, to: int) -> int
    decreases to,
{
    if to <= 0 || to > s.len() {
        0
    } else if !is_space(s[to - 1]) {
        to
    } else {
        last_mark(s, to - 1)
    }
}

/// `s` without the white space at its ends.
pub open spec fn trimmed(s: Seq<char>) -> Seq<char> {
    let from = first_mark(s, 0);
    let to = last_mark(s, s.len() as int);
    if from >= to {
        Seq::empty()
    } else {
        s.subrange(from, to)
    }
}

/// The element's name is `actions`, white space at its ends aside.
pub open spec fn names_actions(name: Seq<char>) -> bool {
    trimmed(name) == "actions"@
}

/// The commands that a document gives: the text that the first element
/// named `actions` at its top, from the `from`-th node on, begins with.
/// `None` where there is no such element, or where it does not begin with
/// text.
pub open spec fn commands_in(nodes: Seq<MarkupNodeView>, from: int) -> Option<Seq<char>>
    decreases nodes.len() - from,
{
    if from < 0 || from >= nodes.len() {
        None
    } else {
        match nodes[from] {
            MarkupNodeView::Element(name, children) => if names_actions(name) {
                if children.len() > 0 {
                    match children[0] {
                        MarkupChildView::Text(text) => Some(text),
                        _ => None,
                    }
                } else {
                    None
                }
            } else {
                commands_in(nodes, from + 1)
            },
            _ => commands_in(nodes, from + 1),
        }
    }
}

/// Whether an element's name is `actions`, white space at its ends aside.
pub fn is_actions_name(name: &str) -> (named: bool)
    ensures
        named == names_actions(name@),
{
    let chars = chars_of(name);
    let mut from: usize = 0;
    while from < chars.len() && is_space_char(chars[from])
        invariant
            from <= chars.len(),
            first_mark(chars@, 0) == first_mark(chars@, from as int),
        decreases chars.len() - from,
    {
        from += 1;
    }
    let mut to: usize = chars.len();
    while to > 0 && is_space_char(chars[to - 1])
        invariant
            to <= chars.len(),
            last_mark(chars@, chars.len() as int) == last_mark(chars@, to as int),
        decreases to,
    {
        to -= 1;
    }
    let wanted = chars_of("actions");
    if from >= to {
        proof {
            reveal_strlit("actions");
        }
        assert(wanted@.len() == 7);
        return false;
    }
    assert(first_mark(chars@, 0) == from && last_mark(chars@, chars.len() as int) == to);
    let ghost inner = chars@.subrange(from as int, to as int);
    assert(trimmed(name@) == inner);
    if to - from != wanted.len() {
        assert(inner.len() != wanted@.len());
        return false;
    }
    let mut i: usize = 0;
    while i < wanted.len()
        invariant
            i <= wanted.len(),
            from < to <= chars.len(),
            to - from == wanted.len(),
            inner == chars@.subrange(from as int, to as int),
            trimmed(name@) == inner,
            wanted@ == "actions"@,
            forall|j: int| 0 <= j < i ==> chars[from + j] == wanted[j],
        decreases wanted.len() - i,
    {
        if chars[from + i] != wanted[i] {
            assert(inner[i as int] != wanted@[i as int]);
            return false;
        }
        i += 1;
    }
    assert(inner =~= wanted@);
    true
}

/// The commands that a document gives, if it gives any.
pub fn find_commands(nodes: &Vec<MarkupNode>) -> (commands: Option<String>)
    ensures
        match commands {
            Some(text) => commands_in(nodes_view(nodes@), 0) == Some(text@),
            None => commands_in(nodes_view(nodes@), 0) is None,
        },
{
    let ghost views = nodes_view(nodes@);
    let mut k: usize = 0;
    while k < nodes.len()
        invariant
            k <= nodes.len(),
            views == nodes_view(nodes@),
            commands_in(views, 0) == commands_in(views, k as int),
        decreases nodes.len() - k,
    {
        assert(views[k as int] == nodes[k as int]@);
        match &nodes[k] {
            MarkupNode::Element(name, children) => {
                if is_actions_name(name.as_str()) {
                    if children.len() > 0 {
                        assert(views[k as int]->Element_1[0] == children[0]@);
                        match &children[0] {
                            MarkupChild::Text(text) => {
                                return Some(text.clone());
                            },
                            _ => {
                                return None;
                            },
                        }
                    } else {
                        return None;
                    }
                }
            },
            _ => {},
        }
        k += 1;
    }
    None
}

} // verus!
