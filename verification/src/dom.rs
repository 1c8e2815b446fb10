//! The document of a page as `select` parses it. Its nodes are known by
//! their index in the document; everything here is a call into `select`.
//!
//! A document can also be put together by hand, from nodes whose links
//! point nowhere, and `select` panics when it follows such a link. So the
//! calls ask for a document that was parsed.
//!
//! The parser keeps every text in a buffer whose length it counts in 32
//! bits, and it panics when a count runs over. So only a text of limited
//! length is parsed.

use select::document::Document;
use select::predicate::{Attr, Name, Predicate};
use vstd::prelude::*;
use vstd::utf8::encode_utf8;
use crate::text::text_of;

verus! {

#[verifier::external_type_specification]
#[verifier::external_body]
pub struct ExDocument(Document);

/// The longest text that is parsed, in bytes. The buffers of the parser
/// grow to the next power of two, which has to fit 32 bits, and to stay
/// under the largest allocation of a 32-bit machine a buffer may hold 2^30
/// bytes at most. A text in the document can be three times as long as its
/// source, where NUL is read as U+FFFD. So a third of 2^30 is the limit.
pub const MAX_PAGE_BYTES: usize = 357_913_941;

/// Whether a text is short enough to be parsed: it takes no more than
/// `MAX_PAGE_BYTES` bytes in UTF-8.
pub open spec fn fits(html: Seq<char>) -> bool {
    encode_utf8(html).len() <= MAX_PAGE_BYTES
}

/// The document that `select` makes of the text of a page.
pub uninterp spec fn document_of(html: Seq<char>) -> Document;

/// Whether `doc` is what `select` makes of some text that it can parse.
pub open spec fn parsed(doc: Document) -> bool {
    exists|html: Seq<char>| fits(html) && doc == document_of(html)
}

/// The nodes of `doc`, in the order of the document, that are elements
/// whose attribute `name` has the value `value`.
pub uninterp spec fn nodes_with_attr(doc: Document, name: Seq<char>, value: Seq<char>) -> Seq<usize>;

/// The nodes below `node`, in the order of the document, that are elements
/// called `leaf` and stand, as `select` reads it, in an `inner` in an
/// `outer`. Nothing for a `node` that `doc` does not have.
pub uninterp spec fn nested_below(
    doc: Document,
    node: usize,
    outer: Seq<char>,
    inner: Seq<char>,
    leaf: Seq<char>,
) -> Seq<usize>;

/// The nodes below `node`, in the order of the document, that are elements
/// called `name`. Nothing for a `node` that `doc` does not have.
pub uninterp spec fn elements_below(doc: Document, node: usize, name: Seq<char>) -> Seq<usize>;

/// The value of the attribute `name` of `node`, if it is an element of
/// `doc` and has the attribute.
pub uninterp spec fn attr_of(doc: Document, node: usize, name: Seq<char>) -> Option<Seq<char>>;

/// The first child of `node` in `doc`, if it has children.
pub uninterp spec fn first_child_of(doc: Document, node: usize) -> Option<usize>;

/// The last child of `node` in `doc`, if it has children.
pub uninterp spec fn last_child_of(doc: Document, node: usize) -> Option<usize>;

/// The text of `node` in `doc` and of everything below it, in the order of
/// the document. Empty for a `node` that `doc` does not have.
pub uninterp spec fn text_below(doc: Document, node: usize) -> Seq<char>;

/// `select::document::Document::from` on the text of a page: the same text
/// gives the same document. The call copies the text into a buffer of
/// `tendril` and panics for a text of more than `u32::MAX` bytes; while it
/// parses, it panics where a text that it puts together passes 2^31 bytes.
/// Neither happens to a text that fits.
#[verifier::external_body]
pub(crate) fn parse_document(html: &str) -> (doc: Document)
    requires
        fits(html@),
    ensures
        doc == document_of(html@),
{
    Document::from(html)
}

/// `select::document::Document::find` with the predicate `Attr(name,
/// value)`: the indices of the nodes that it yields, in its order.
#[verifier::external_body]
pub(crate) fn find_by_attr(doc: &Document, name: &str, value: &str) -> (found: Vec<usize>)
    requires
        parsed(*doc),
    ensures
        found@ == nodes_with_attr(*doc, name@, value@),
{
    doc.find(Attr(name, value)).map(|n| n.index()).collect()
}

/// `select::node::Node::find` on the node at `node`, with the predicate
/// `Name(outer).descendant(Name(inner).descendant(Name(leaf)))`: the
/// indices of the nodes that it yields, in its order.
#[verifier::external_body]
pub(crate) fn find_nested(doc: &Document, node: usize, outer: &str, inner: &str, leaf: &str) -> (found: Vec<usize>)
    requires
        parsed(*doc),
    ensures
        found@ == nested_below(*doc, node, outer@, inner@, leaf@),
{
    let path = Name(outer).descendant(Name(inner).descendant(Name(leaf)));
    doc.nth(node).map(|n| n.find(path).map(|m| m.index()).collect()).unwrap_or_default()
}

/// `select::node::Node::find` on the node at `node`, with the predicate
/// `Name(name)`: the indices of the nodes that it yields, in its order.
#[verifier::external_body]
pub(crate) fn find_named(doc: &Document, node: usize, name: &str) -> (found: Vec<usize>)
    requires
        parsed(*doc),
    ensures
        found@ == elements_below(*doc, node, name@),
{
    doc.nth(node).map(|n| n.find(Name(name)).map(|m| m.index()).collect()).unwrap_or_default()
}

/// `select::node::Node::attr` on the node at `node`, as owned text.
#[verifier::external_body]
pub(crate) fn attr(doc: &Document, node: usize, name: &str) -> (value: Option<String>)
    requires
        parsed(*doc),
    ensures
        text_of(value) == attr_of(*doc, node, name@),
{
    doc.nth(node).and_then(|n| n.attr(name)).map(String::from)
}

/// `select::node::Node::first_child` on the node at `node`, as an index.
#[verifier::external_body]
pub(crate) fn first_child(doc: &Document, node: usize) -> (child: Option<usize>)
    requires
        parsed(*doc),
    ensures
        child == first_child_of(*doc, node),
{
    doc.nth(node).and_then(|n| n.first_child()).map(|c| c.index())
}

/// `select::node::Node::last_child` on the node at `node`, as an index.
#[verifier::external_body]
pub(crate) fn last_child(doc: &Document, node: usize) -> (child: Option<usize>)
    requires
        parsed(*doc),
    ensures
        child == last_child_of(*doc, node),
{
    doc.nth(node).and_then(|n| n.last_child()).map(|c| c.index())
}

/// `select::node::Node::text` on the node at `node`.
#[verifier::external_body]
pub(crate) fn text(doc: &Document, node: usize) -> (content: String)
    requires
        parsed(*doc),
    ensures
        content@ == text_below(*doc, node),
{
    doc.nth(node).map(|n| n.text()).unwrap_or_default()
}

} // verus!
