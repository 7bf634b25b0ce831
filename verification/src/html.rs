//! HTML documents, by the `scraper` crate.
//!
//! A page is parsed once. What the library reads of it, the elements that a CSS
//! selector matches with their markup, and the text and attributes of the elements
//! that a second selector matches inside each of them, is named below and reached
//! through one wrapper each. A selector that `scraper` refuses gives no result.
use vstd::prelude::*;
use crate::text::{opt_view, strings_view};

verus! {

#[verifier::external_type_specification]
#[verifier::external_body]
pub struct ExHtml(scraper::Html);

/// A parsed HTML document, with the text it was parsed from. Only [`parse_page`]
/// makes one, so the document is always the parse of the text.
pub struct HtmlPage {
    source: String,
    document: scraper::Html,
}

impl View for HtmlPage {
    type V = Seq<char>;

    closed spec fn view(&self) -> Seq<char> {
        self.source@
    }
}

/// The text (its `Display`) of the error with which `Selector::parse` refuses `css`,
/// or `None` where `css` parses.
pub uninterp spec fn css_parse_error(css: Seq<char>) -> Option<Seq<char>>;

/// The markup (`ElementRef::html`) of each element of the document parsed from `page`
/// that `css` matches, in document order.
pub uninterp spec fn html_matches(page: Seq<char>, css: Seq<char>) -> Seq<Seq<char>>;

/// For each element of the document parsed from `page` that `css` matches, in
/// document order: the text (its text nodes joined) of each element inside it that
/// `inner` matches.
pub uninterp spec fn html_inner_texts(page: Seq<char>, css: Seq<char>, inner: Seq<char>) -> Seq<
    Seq<Seq<char>>,
>;

/// For each element of the document parsed from `page` that `css` matches, in
/// document order: the attribute `attr` of each element inside it that `inner` matches.
pub uninterp spec fn html_inner_attrs(
    page: Seq<char>,
    css: Seq<char>,
    inner: Seq<char>,
    attr: Seq<char>,
) -> Seq<Seq<Option<Seq<char>>>>;

/// The texts of a list of lists of strings.
pub open spec fn nested_strings_view(v: Seq<Vec<String>>) -> Seq<Seq<Seq<char>>> {
    Seq::new(v.len(), |i: int| strings_view(v[i]@))
}

/// The texts of a list of lists of optional strings.
pub open spec fn nested_opts_view(v: Seq<Vec<Option<String>>>) -> Seq<Seq<Option<Seq<char>>>> {
    Seq::new(v.len(), |i: int| Seq::new(v[i]@.len(), |j: int| opt_view(v[i]@[j])))
}

/// Calls `Selector::parse` and keeps the text of its error; the result is the named
/// [`css_parse_error`].
#[verifier::external_body]
pub(crate) fn css_error(css: &str) -> (r: Option<String>)
    ensures
        opt_view(r) == css_parse_error(css@),
{
    scraper::Selector::parse(css).err().map(|e| e.to_string())
}

/// Calls `Html::parse_document`, keeping the text beside the document.
#[verifier::external_body]
pub(crate) fn parse_page(html: &str) -> (r: HtmlPage)
    ensures
        r@ == html@,
{
    HtmlPage { source: html.to_string(), document: scraper::Html::parse_document(html) }
}

/// Calls `Html::select` with the parsed `css`, and `ElementRef::html` on each match;
/// the result is the named [`html_matches`], and there is one exactly where `css` parses.
#[verifier::external_body]
pub(crate) fn select_markup(page: &HtmlPage, css: &str) -> (r: Option<Vec<String>>)
    ensures
        r is Some <==> css_parse_error(css@) is None,
        r matches Some(v) ==> strings_view(v@) == html_matches(page@, css@),
{
    let selector = scraper::Selector::parse(css).ok()?;
    Some(page.document.select(&selector).map(|e| e.html()).collect())
}

/// Calls `Html::select` with the parsed `css`, `ElementRef::select` with the parsed
/// `inner` on each match, and `ElementRef::text` on each of those; the result is the
/// named [`html_inner_texts`], and there is one exactly where both selectors parse.
#[verifier::external_body]
pub(crate) fn select_inner_texts(page: &HtmlPage, css: &str, inner: &str) -> (r: Option<Vec<Vec<String>>>)
    ensures
        r is Some <==> (css_parse_error(css@) is None && css_parse_error(inner@) is None),
        r matches Some(v) ==> nested_strings_view(v@) == html_inner_texts(page@, css@, inner@),
{
    let outer = scraper::Selector::parse(css).ok()?;
    let inner = scraper::Selector::parse(inner).ok()?;
    Some(page.document.select(&outer).map(|e| e.select(&inner).map(|x| x.text().collect()).collect()).collect())
}

/// Calls `Html::select` with the parsed `css`, `ElementRef::select` with the parsed
/// `inner` on each match, and `ElementRef::attr` with `attr` on each of those; the
/// result is the named [`html_inner_attrs`], and there is one exactly where both
/// selectors parse.
#[verifier::external_body]
pub(crate) fn select_inner_attrs(page: &HtmlPage, css: &str, inner: &str, attr: &str) -> (r: Option<
    Vec<Vec<Option<String>>>,
>)
    ensures
        r is Some <==> (css_parse_error(css@) is None && css_parse_error(inner@) is None),
        r matches Some(v) ==> nested_opts_view(v@) == html_inner_attrs(page@, css@, inner@, attr@),
{
    let outer = scraper::Selector::parse(css).ok()?;
    let inner = scraper::Selector::parse(inner).ok()?;
    Some(page.document.select(&outer).map(|e| e.select(&inner).map(|x| x.attr(attr).map(String::from)).collect()).collect())
}

} // verus!
