//! Extracting candidate link strings from a document body.
//!
//! Four tag/attribute pairs are scanned: anchor `href`, image `src`, script
//! `src` and link `href`. The HTML parsing itself is done by the `select`
//! crate behind one trusted wrapper; what it returns for a document is named
//! by an uninterpreted spec function of the text alone, so malformed markup
//! degrades to whatever sequence the parser salvages, never to an error.

use vstd::prelude::*;

use select::document::Document;
use select::predicate::{Attr, Name, Predicate};

verus! {

/// What scanning a document for one tag name and one attribute yields: the
/// attribute's values over all elements with that name that carry it, in
/// document order.
pub uninterp spec fn attr_values_of(html: Seq<char>, tag: Seq<char>, attr: Seq<char>) -> Seq<Seq<char>>;

/// Relies on `select::document::Document`: parsing a document and collecting
/// one attribute's values over the elements with one name, in document order,
/// is a function of the document text alone.
#[verifier::external_body]
fn find_attr_values(html: &str, tag: &str, attr: &str) -> (r: Vec<String>)
    ensures
        r.deep_view() == attr_values_of(html@, tag@, attr@),
{
    Document::from(html)
        .find(Name(tag).and(Attr(attr, ())))
        .filter_map(|node| node.attr(attr).map(|v| v.to_string()))
        .collect()
}

/// The candidate link strings of a document: anchor `href` values, then
/// image `src`, then script `src`, then link `href` values, each group in
/// document order.
pub open spec fn extracted_links(html: Seq<char>) -> Seq<Seq<char>> {
    attr_values_of(html, "a"@, "href"@) + attr_values_of(html, "img"@, "src"@)
        + attr_values_of(html, "script"@, "src"@) + attr_values_of(html, "link"@, "href"@)
}

/// Appends `b`'s strings to `a`, emptying `b`.
fn append_all(a: &mut Vec<String>, b: &mut Vec<String>)
    ensures
        final(a).deep_view() == old(a).deep_view() + old(b).deep_view(),
{
    let ghost a0 = a.deep_view();
    let ghost b0 = b.deep_view();
    a.append(b);
    proof {
        assert(a.deep_view() =~= a0 + b0);
    }
}

/// The candidate link strings of `html`, over all four scanned tag
/// categories, in the order `extracted_links` gives.
pub fn extract_links(html: &str) -> (r: Vec<String>)
    ensures
        r.deep_view() == extracted_links(html@),
{
    let mut out = find_attr_values(html, "a", "href");
    let mut imgs = find_attr_values(html, "img", "src");
    let mut scripts = find_attr_values(html, "script", "src");
    let mut links = find_attr_values(html, "link", "href");
    append_all(&mut out, &mut imgs);
    append_all(&mut out, &mut scripts);
    append_all(&mut out, &mut links);
    out
}

} // verus!
