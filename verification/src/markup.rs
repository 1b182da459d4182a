//! The node tree of a document, and its mathematical model.

use vstd::prelude::*;

use crate::text::is_blank;
use crate::text::str_is_blank;

verus! {

/// The document type declaration of a markup or XML document.
#[derive(Debug, PartialEq, Eq)]
pub enum Doctype {
    Html,
    Xml { version: String, encoding: String },
}

/// An element: a tag name, its attributes in document order, and its children.
/// Attribute keys may repeat.
#[derive(Debug, PartialEq, Eq)]
pub struct Element {
    pub name: String,
    pub attrs: Vec<(String, String)>,
    pub children: Vec<TreeNode>,
}

/// A node of a document.
#[derive(Debug, PartialEq, Eq)]
pub enum TreeNode {
    Element(Element),
    Text(String),
    Comment(String),
    Doctype(Doctype),
    /// Markup that was rendered elsewhere. It is written out as it is, and
    /// nothing looks inside it.
    RawHTML(String),
}

/// The model of a [`Doctype`].
pub enum DoctypeModel {
    Html,
    Xml { version: Seq<char>, encoding: Seq<char> },
}

/// The model of a [`TreeNode`]: the tree that contracts speak of.
pub enum Markup {
    Element { name: Seq<char>, attrs: Seq<(Seq<char>, Seq<char>)>, children: Seq<Markup> },
    Text(Seq<char>),
    Comment(Seq<char>),
    Doctype(DoctypeModel),
    Raw(Seq<char>),
}

impl View for Doctype {
    type V = DoctypeModel;

    open spec fn view(&self) -> DoctypeModel {
        match *self {
            Doctype::Html => DoctypeModel::Html,
            Doctype::Xml { version, encoding } => DoctypeModel::Xml {
                version: version@,
                encoding: encoding@,
            },
        }
    }
}

impl View for TreeNode {
    type V = Markup;

    open spec fn view(&self) -> Markup
        decreases self,
    {
        match *self {
            TreeNode::Element(element) => Markup::Element {
                name: element.name@,
                attrs: element.attrs.deep_view(),
                children: Seq::new(
                    element.children@.len(),
                    |i: int|
                        if 0 <= i < element.children@.len() {
                            element.children@[i].view()
                        } else {
                            Markup::Text(Seq::empty())
                        },
                ),
            },
            TreeNode::Text(text) => Markup::Text(text@),
            TreeNode::Comment(text) => Markup::Comment(text@),
            TreeNode::Doctype(doctype) => Markup::Doctype(doctype@),
            TreeNode::RawHTML(text) => Markup::Raw(text@),
        }
    }
}

impl View for Element {
    type V = Markup;

    open spec fn view(&self) -> Markup {
        TreeNode::Element(*self)@
    }
}

/// The models of a sequence of nodes, in order.
pub open spec fn markup_of(nodes: Seq<TreeNode>) -> Seq<Markup> {
    Seq::new(nodes.len(), |i: int| nodes[i]@)
}

/// The model of an element is made of the models of its parts.
pub proof fn lemma_element_view(element: Element)
    ensures
        TreeNode::Element(element)@ == (Markup::Element {
            name: element.name@,
            attrs: element.attrs.deep_view(),
            children: markup_of(element.children@),
        }),
{
    assert(TreeNode::Element(element)@->Element_children =~= markup_of(element.children@));
}


/// How many levels of elements the tree has: 0 for a tree without elements.
pub open spec fn nesting(nodes: Seq<Markup>) -> nat
    decreases nodes,
{
    if nodes.len() == 0 {
        0
    } else {
        let before = nesting(nodes.drop_last());
        let last: nat = match nodes.last() {
            Markup::Element { name, attrs, children } => 1 + nesting(children),
            _ => 0,
        };
        if before >= last {
            before
        } else {
            last
        }
    }
}

/// Whether trimming keeps a node that is no element: comments and texts of
/// nothing but whitespace go.
pub open spec fn kept(node: Markup) -> bool {
    match node {
        Markup::Comment(_) => false,
        Markup::Text(text) => !is_blank(text),
        _ => true,
    }
}

/// `nodes` without comments and without texts of nothing but whitespace, at
/// every level of the tree.
pub open spec fn trimmed(nodes: Seq<Markup>) -> Seq<Markup>
    decreases nodes,
{
    if nodes.len() == 0 {
        Seq::empty()
    } else {
        let before = trimmed(nodes.drop_last());
        match nodes.last() {
            Markup::Element { name, attrs, children } => before.push(
                Markup::Element { name, attrs, children: trimmed(children) },
            ),
            other => if kept(other) {
                before.push(other)
            } else {
                before
            },
        }
    }
}

/// Trimming adds no level of elements.
pub proof fn lemma_trimmed_nesting(nodes: Seq<Markup>)
    ensures
        nesting(trimmed(nodes)) <= nesting(nodes),
    decreases nodes,
{
    if nodes.len() > 0 {
        lemma_trimmed_nesting(nodes.drop_last());
        let before = trimmed(nodes.drop_last());
        match nodes.last() {
            Markup::Element { name, attrs, children } => {
                lemma_trimmed_nesting(children);
                let element = Markup::Element { name, attrs, children: trimmed(children) };
                assert(before.push(element).drop_last() == before);
                assert(before.push(element).last() == element);
            },
            other => {
                if kept(other) {
                    assert(before.push(other).drop_last() == before);
                    assert(before.push(other).last() == other);
                }
            },
        }
    }
}

/// The nodes of `nodes` that trimming keeps, each element trimmed in turn.
fn trim_nodes(nodes: Vec<TreeNode>) -> (kept_nodes: Vec<TreeNode>)
    ensures
        markup_of(kept_nodes@) == trimmed(markup_of(nodes@)),
    decreases nodes,
{
    let ghost all = markup_of(nodes@);
    let mut out: Vec<TreeNode> = Vec::new();
    assert(markup_of(out@) == trimmed(all.take(0)));
    for node in it: nodes
        invariant
            it.seq() == nodes@,
            all == markup_of(nodes@),
            markup_of(out@) == trimmed(all.take(it.index() as int)),
    {
        let ghost before = markup_of(out@);
        proof {
            let upto = all.take(it.index() + 1);
            assert(upto.drop_last() == all.take(it.index() as int));
            assert(upto.last() == node@);
        }
        match node {
            TreeNode::Element(element) => {
                proof {
                    lemma_element_view(element);
                }
                let Element { name, attrs, children } = element;
                let inner = trim_nodes(children);
                let trimmed_element = Element { name, attrs, children: inner };
                proof {
                    lemma_element_view(trimmed_element);
                }
                out.push(TreeNode::Element(trimmed_element));
                assert(markup_of(out@) == before.push(TreeNode::Element(trimmed_element)@));
            },
            TreeNode::Comment(_) => {},
            TreeNode::Text(text) => {
                if !str_is_blank(text.as_str()) {
                    out.push(TreeNode::Text(text));
                    assert(markup_of(out@) == before.push(node@));
                }
            },
            other => {
                out.push(other);
                assert(markup_of(out@) == before.push(node@));
            },
        }
    }
    assert(all.take(nodes@.len() as int) == all);
    out
}

/// Removes comments and texts of nothing but whitespace from the tree, at
/// every level.
pub fn trim(dom: &mut Vec<TreeNode>)
    ensures
        markup_of(final(dom)@) == trimmed(markup_of(old(dom)@)),
{
    let mut nodes: Vec<TreeNode> = Vec::new();
    std::mem::swap(dom, &mut nodes);
    *dom = trim_nodes(nodes);
}

} // verus!
