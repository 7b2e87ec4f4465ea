//! The document tree of a results page, as scraper builds and queries it.
//! scraper is built with its `deterministic` feature, which keeps each
//! element's attributes in source order; so the tree depends on the text
//! alone, and each query on its arguments alone. Their results are named
//! here, and the listing rules are stated over those names.
use vstd::prelude::*;

verus! {

#[verifier::external_type_specification]
#[verifier::external_body]
pub struct ExHtml(scraper::Html);

#[verifier::external_type_specification]
#[verifier::external_body]
pub struct ExSelector(scraper::Selector);

#[verifier::external_type_specification]
#[verifier::external_body]
pub struct ExElementRef<'a>(scraper::ElementRef<'a>);

/// The tree that scraper builds of the HTML document `text`.
pub uninterp spec fn document_of(text: Seq<char>) -> scraper::Html;

/// The selector that scraper compiles of the CSS selector list `css`; none
/// when scraper refuses it.
pub uninterp spec fn selector_of(css: Seq<char>) -> Option<scraper::Selector>;

/// The elements of `doc` that `sel` matches, in the order
/// scraper's tree walk yields them (the order in which the parser added the
/// nodes).
pub uninterp spec fn matches_in_document(
    doc: scraper::Html,
    sel: scraper::Selector,
) -> Seq<scraper::ElementRef<'static>>;

/// The descendants of `e` that `sel` matches, in the order
/// scraper's tree walk yields them (the order in which the parser added the
/// nodes).
pub uninterp spec fn matches_in_element(
    e: scraper::ElementRef<'static>,
    sel: scraper::Selector,
) -> Seq<scraper::ElementRef<'static>>;

/// The value of the attribute named `name` of `e`, if it has one.
pub uninterp spec fn attribute_of(e: scraper::ElementRef<'static>, name: Seq<char>) -> Option<
    Seq<char>,
>;

/// The markup inside `e`.
pub uninterp spec fn inner_html_of(e: scraper::ElementRef<'static>) -> Seq<char>;

/// The text nodes of `e`, joined.
pub uninterp spec fn text_of(e: scraper::ElementRef<'static>) -> Seq<char>;

/// Relies on scraper's `Html::parse_document`, which builds the tree of a
/// whole HTML document; with the `deterministic` feature, attributes are held
/// in an `IndexMap` in source order, so the tree is a function of the text.
#[verifier::external_body]
pub(crate) fn parse_html(text: &str) -> (r: scraper::Html)
    ensures
        r == document_of(text@),
{
    scraper::Html::parse_document(text)
}

/// Relies on scraper's `Selector::parse`, which compiles a CSS selector list.
#[verifier::external_body]
pub(crate) fn compile_selector(css: &str) -> (r: Option<scraper::Selector>)
    ensures
        r == selector_of(css@),
{
    scraper::Selector::parse(css).ok()
}

/// Relies on scraper's `Html::select`: the elements of the document that the
/// selector matches, in the order of its tree walk.
#[verifier::external_body]
pub(crate) fn select_in_document<'a>(
    doc: &'a scraper::Html,
    selector: &scraper::Selector,
) -> (r: Vec<scraper::ElementRef<'a>>)
    ensures
        r@ == matches_in_document(*doc, *selector),
{
    doc.select(selector).collect()
}

/// Relies on scraper's `ElementRef::select`: the descendants of the element
/// that the selector matches, in the order of its tree walk.
#[verifier::external_body]
pub(crate) fn select_in_element<'a>(
    element: &scraper::ElementRef<'a>,
    selector: &scraper::Selector,
) -> (r: Vec<scraper::ElementRef<'a>>)
    ensures
        r@ == matches_in_element(*element, *selector),
{
    element.select(selector).collect()
}

/// Relies on scraper's `Element::attr`: the value of the element's attribute
/// of that name, if it has one.
#[verifier::external_body]
pub(crate) fn attribute(element: &scraper::ElementRef, name: &str) -> (r: Option<String>)
    ensures
        r.deep_view() == attribute_of(*element, name@),
{
    element.value().attr(name).map(|v| v.to_string())
}

/// Relies on scraper's `ElementRef::inner_html`: the markup inside the
/// element.
#[verifier::external_body]
pub(crate) fn inner_html(element: &scraper::ElementRef) -> (r: String)
    ensures
        r@ == inner_html_of(*element),
{
    element.inner_html()
}

/// Relies on scraper's `ElementRef::text`: the element's text nodes, joined.
#[verifier::external_body]
pub(crate) fn text_content(element: &scraper::ElementRef) -> (r: String)
    ensures
        r@ == text_of(*element),
{
    element.text().collect()
}

} // verus!
