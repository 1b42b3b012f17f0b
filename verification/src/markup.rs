//! HTML documents as recipes query them.
//!
//! A document is kept as its text; a node of it is known by its position
//! among the nodes of the parsed document, in the order in which the parser
//! made them. Position zero is the document itself. Parsing and matching of
//! CSS selectors are done by the `scraper` crate; what it answers is named
//! here, as a function of the text, the position and the selector. Which
//! question is put, and what the answer means for the caller, is decided
//! here.

use crate::text::opt_view;
use vstd::prelude::*;

verus! {

/// Whether `css` parses as a group of CSS selectors
/// (`scraper::Selector::parse`).
pub uninterp spec fn css_valid(css: Seq<char>) -> bool;

/// The number of nodes of the document that `source` parses as
/// (`scraper::Html::parse_document`).
pub uninterp spec fn html_node_count(source: Seq<char>) -> nat;

/// Whether the node at `index` is an element (`scraper::ElementRef::wrap`).
pub uninterp spec fn html_is_element(source: Seq<char>, index: usize) -> bool;

/// The positions of the elements of the whole document that match `css`,
/// in the order in which the crate hands them out (`scraper::Html::select`).
pub uninterp spec fn html_document_matches(source: Seq<char>, css: Seq<char>) -> Seq<usize>;

/// The positions of the elements below the element at `index` that match
/// `css`, in the order in which the crate hands them out
/// (`scraper::ElementRef::select`).
pub uninterp spec fn html_element_matches(source: Seq<char>, index: usize, css: Seq<char>) -> Seq<
    usize,
>;

/// The name of the element at `index` (`scraper::node::Element::name`).
pub uninterp spec fn html_tag(source: Seq<char>, index: usize) -> Seq<char>;

/// The value of the attribute `name` of the element at `index`
/// (`scraper::node::Element::attr`).
pub uninterp spec fn html_attribute(source: Seq<char>, index: usize, name: Seq<char>) -> Option<
    Seq<char>,
>;

/// The texts below the element at `index`, joined in the order in which
/// the crate hands them out (`scraper::ElementRef::text`).
pub uninterp spec fn html_text(source: Seq<char>, index: usize) -> Seq<char>;

/// Why a node of a document cannot be asked.
#[derive(Debug, Clone, Copy, PartialEq, Eq, Structural)]
pub enum MarkupError {
    /// The CSS selector does not parse.
    InvalidSelector,
    /// The document has no node at that position.
    NodeNotFound,
    /// The node is no element.
    NotAnElement,
}

/// An HTML document.
#[derive(Debug)]
pub struct HtmlDocument {
    pub source: String,
}

/// A node of an HTML document.
#[derive(Debug, Clone, Copy, PartialEq, Eq, Structural)]
pub struct HtmlNode {
    pub index: usize,
}

/// What a selection below an element gives.
#[derive(Debug)]
pub enum Selected {
    /// The selector does not parse.
    BadSelector,
    /// The document has no node at that position.
    NoNode,
    /// The node is no element.
    NoElement,
    /// The positions of the matches.
    Found(Vec<usize>),
}

/// Why the node at `index` cannot be read as an element, if it cannot.
pub open spec fn spec_lookup_error(source: Seq<char>, index: usize) -> Option<MarkupError> {
    if index >= html_node_count(source) {
        Some(MarkupError::NodeNotFound)
    } else if !html_is_element(source, index) {
        Some(MarkupError::NotAnElement)
    } else {
        None
    }
}

/// Selects in the whole document.
///
/// Trusted: stands for `scraper::Selector::parse`,
/// `scraper::Html::parse_document` and `scraper::Html::select`. `None`
/// means that the selector does not parse. Each match is handed out as its
/// position among the nodes of the tree; which elements match is only named.
#[verifier::external_body]
pub(crate) fn select_in_document(source: &str, css: &str) -> (r: Option<Vec<usize>>)
    ensures
        match r {
            None => !css_valid(css@),
            Some(v) => css_valid(css@) && v@ == html_document_matches(source@, css@),
        },
{
    let selector = scraper::Selector::parse(css).ok()?;
    let html = scraper::Html::parse_document(source);
    let place = |id| html.tree.nodes().position(|n| n.id() == id).unwrap_or_default();
    Some(html.select(&selector).map(|e| place(e.id())).collect())
}

/// Selects below the node at `index`.
///
/// Trusted: stands for `scraper::Selector::parse`,
/// `scraper::Html::parse_document`, `scraper::ElementRef::wrap` and
/// `scraper::ElementRef::select`. The selector is parsed first, then the
/// node is looked for. Each match is handed out as its position among the
/// nodes of the tree; which elements match is only named.
#[verifier::external_body]
pub(crate) fn select_in_element(source: &str, index: usize, css: &str) -> (r: Selected)
    ensures
        match r {
            Selected::BadSelector => !css_valid(css@),
            Selected::NoNode => css_valid(css@) && index >= html_node_count(source@),
            Selected::NoElement => css_valid(css@) && index < html_node_count(source@)
                && !html_is_element(source@, index),
            Selected::Found(v) => css_valid(css@) && spec_lookup_error(source@, index) is None
                && v@ == html_element_matches(source@, index, css@),
        },
{
    let Ok(selector) = scraper::Selector::parse(css) else {
        return Selected::BadSelector;
    };
    let html = scraper::Html::parse_document(source);
    let Some(node) = html.tree.nodes().nth(index) else {
        return Selected::NoNode;
    };
    let Some(element) = scraper::ElementRef::wrap(node) else {
        return Selected::NoElement;
    };
    let place = |id| html.tree.nodes().position(|n| n.id() == id).unwrap_or_default();
    Selected::Found(element.select(&selector).map(|e| place(e.id())).collect())
}

/// The name of the element at `index`.
///
/// Trusted: stands for `scraper::Html::parse_document`,
/// `scraper::ElementRef::wrap` and `scraper::node::Element::name`. The
/// name itself is only named.
#[verifier::external_body]
pub(crate) fn element_tag(source: &str, index: usize) -> (r: Result<String, MarkupError>)
    ensures
        match r {
            Ok(t) => spec_lookup_error(source@, index) is None && t@ == html_tag(source@, index),
            Err(e) => spec_lookup_error(source@, index) == Some(e),
        },
{
    let html = scraper::Html::parse_document(source);
    let node = html.tree.nodes().nth(index).ok_or(MarkupError::NodeNotFound)?;
    let element = scraper::ElementRef::wrap(node).ok_or(MarkupError::NotAnElement)?;
    Ok(element.value().name().to_string())
}

/// The value of the attribute `name` of the element at `index`.
///
/// Trusted: stands for `scraper::Html::parse_document`,
/// `scraper::ElementRef::wrap` and `scraper::node::Element::attr`. The
/// value itself is only named.
#[verifier::external_body]
pub(crate) fn element_attribute(source: &str, index: usize, name: &str) -> (r: Result<
    Option<String>,
    MarkupError,
>)
    ensures
        match r {
            Ok(v) => spec_lookup_error(source@, index) is None && opt_view(v) == html_attribute(
                source@,
                index,
                name@,
            ),
            Err(e) => spec_lookup_error(source@, index) == Some(e),
        },
{
    let html = scraper::Html::parse_document(source);
    let node = html.tree.nodes().nth(index).ok_or(MarkupError::NodeNotFound)?;
    let element = scraper::ElementRef::wrap(node).ok_or(MarkupError::NotAnElement)?;
    Ok(element.value().attr(name).map(|v| v.to_string()))
}

/// The text below the element at `index`.
///
/// Trusted: stands for `scraper::Html::parse_document`,
/// `scraper::ElementRef::wrap` and `scraper::ElementRef::text`, whose
/// pieces are joined with nothing between them. The text itself is only
/// named.
#[verifier::external_body]
pub(crate) fn element_text(source: &str, index: usize) -> (r: Result<String, MarkupError>)
    ensures
        match r {
            Ok(t) => spec_lookup_error(source@, index) is None && t@ == html_text(source@, index),
            Err(e) => spec_lookup_error(source@, index) == Some(e),
        },
{
    let html = scraper::Html::parse_document(source);
    let node = html.tree.nodes().nth(index).ok_or(MarkupError::NodeNotFound)?;
    let element = scraper::ElementRef::wrap(node).ok_or(MarkupError::NotAnElement)?;
    Ok(element.text().collect::<Vec<_>>().join(""))
}

/// The positions of a list of nodes.
pub open spec fn spec_indices(nodes: Seq<HtmlNode>) -> Seq<usize> {
    Seq::new(nodes.len(), |i: int| nodes[i].index)
}

/// The content of a selection.
pub open spec fn nodes_view(r: Result<Vec<HtmlNode>, MarkupError>) -> Result<
    Seq<usize>,
    MarkupError,
> {
    match r {
        Ok(v) => Ok(spec_indices(v@)),
        Err(e) => Err(e),
    }
}

/// What a selection below an element means: a selector that does not parse
/// and a node that is not there are errors; a node that is no element has
/// nothing below it that could match.
pub open spec fn spec_nodes_of(selected: Selected) -> Result<Seq<usize>, MarkupError> {
    match selected {
        Selected::BadSelector => Err(MarkupError::InvalidSelector),
        Selected::NoNode => Err(MarkupError::NodeNotFound),
        Selected::NoElement => Ok(Seq::empty()),
        Selected::Found(v) => Ok(v@),
    }
}

/// What `css` selects from the node at `index`: from the document itself
/// the matches of the whole document, from an element the matches below
/// it.
pub open spec fn spec_select(source: Seq<char>, index: usize, css: Seq<char>) -> Result<
    Seq<usize>,
    MarkupError,
> {
    if !css_valid(css) {
        Err(MarkupError::InvalidSelector)
    } else if index == 0 {
        Ok(html_document_matches(source, css))
    } else if index >= html_node_count(source) {
        Err(MarkupError::NodeNotFound)
    } else if !html_is_element(source, index) {
        Ok(Seq::empty())
    } else {
        Ok(html_element_matches(source, index, css))
    }
}

/// The first of a selection, if it has one.
pub open spec fn spec_first(r: Result<Seq<usize>, MarkupError>) -> Result<
    Option<HtmlNode>,
    MarkupError,
> {
    match r {
        Ok(v) => if v.len() > 0 {
            Ok(Some(HtmlNode { index: v[0] }))
        } else {
            Ok(None)
        },
        Err(e) => Err(e),
    }
}

/// The nodes at the given positions.
pub fn nodes_at(indices: &Vec<usize>) -> (r: Vec<HtmlNode>)
    ensures
        spec_indices(r@) == indices@,
{
    let mut out: Vec<HtmlNode> = Vec::new();
    let mut i: usize = 0;
    while i < indices.len()
        invariant
            i <= indices.len(),
            out.len() == i,
            forall|j: int| 0 <= j < i ==> (#[trigger] out@[j]).index == indices@[j],
        decreases indices.len() - i,
    {
        out.push(HtmlNode { index: indices[i] });
        i += 1;
    }
    assert(spec_indices(out@) =~= indices@);
    out
}

/// Turns the answer to a selection below an element into nodes.
pub fn nodes_of(selected: &Selected) -> (r: Result<Vec<HtmlNode>, MarkupError>)
    ensures
        nodes_view(r) == spec_nodes_of(*selected),
{
    match selected {
        Selected::BadSelector => Err(MarkupError::InvalidSelector),
        Selected::NoNode => Err(MarkupError::NodeNotFound),
        Selected::NoElement => {
            let out: Vec<HtmlNode> = Vec::new();
            assert(spec_indices(out@) =~= Seq::<usize>::empty());
            Ok(out)
        },
        Selected::Found(v) => Ok(nodes_at(v)),
    }
}

impl HtmlDocument {
    /// The document with the text `source`.
    pub fn new(source: String) -> (r: HtmlDocument)
        ensures
            r.source@ == source@,
    {
        HtmlDocument { source }
    }

    /// The document itself, as the node from which everything is reached.
    pub fn root(&self) -> (r: HtmlNode)
        ensures
            r.index == 0,
    {
        HtmlNode { index: 0 }
    }

    /// The elements that `css` selects from `node`, in the order in which
    /// the matching hands them out.
    pub fn select(&self, node: HtmlNode, css: &str) -> (r: Result<Vec<HtmlNode>, MarkupError>)
        ensures
            nodes_view(r) == spec_select(self.source@, node.index, css@),
    {
        if node.index == 0 {
            match select_in_document(self.source.as_str(), css) {
                None => Err(MarkupError::InvalidSelector),
                Some(v) => Ok(nodes_at(&v)),
            }
        } else {
            let selected = select_in_element(self.source.as_str(), node.index, css);
            nodes_of(&selected)
        }
    }

    /// The first element that `css` selects from `node`.
    pub fn select_one(&self, node: HtmlNode, css: &str) -> (r: Result<Option<HtmlNode>, MarkupError>)
        ensures
            r == spec_first(spec_select(self.source@, node.index, css@)),
    {
        match self.select(node, css) {
            Ok(found) => {
                if found.len() > 0 {
                    assert(spec_indices(found@)[0] == found@[0].index);
                    Ok(Some(found[0]))
                } else {
                    assert(spec_indices(found@).len() == 0);
                    Ok(None)
                }
            },
            Err(e) => Err(e),
        }
    }

    /// The value of the attribute `name` of the element `node`; `None`
    /// inside when the element has no such attribute.
    pub fn attribute(&self, node: HtmlNode, name: &str) -> (r: Result<Option<String>, MarkupError>)
        ensures
            match r {
                Ok(v) => spec_lookup_error(self.source@, node.index) is None && opt_view(v)
                    == html_attribute(self.source@, node.index, name@),
                Err(e) => spec_lookup_error(self.source@, node.index) == Some(e),
            },
    {
        element_attribute(self.source.as_str(), node.index, name)
    }

    /// The text below the element `node`.
    pub fn text(&self, node: HtmlNode) -> (r: Result<String, MarkupError>)
        ensures
            match r {
                Ok(t) => spec_lookup_error(self.source@, node.index) is None && t@ == html_text(
                    self.source@,
                    node.index,
                ),
                Err(e) => spec_lookup_error(self.source@, node.index) == Some(e),
            },
    {
        element_text(self.source.as_str(), node.index)
    }

    /// The name of the element `node`.
    pub fn tag(&self, node: HtmlNode) -> (r: Result<String, MarkupError>)
        ensures
            match r {
                Ok(t) => spec_lookup_error(self.source@, node.index) is None && t@ == html_tag(
                    self.source@,
                    node.index,
                ),
                Err(e) => spec_lookup_error(self.source@, node.index) == Some(e),
            },
    {
        element_tag(self.source.as_str(), node.index)
    }
}

} // verus!
