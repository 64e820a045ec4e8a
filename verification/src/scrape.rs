//! The boundary to the HTML engine. Selector compilation and element
//! queries are scraper's work; each query here is deterministic in the
//! document text and the selector strings, so its result carries a name
//! that the extraction contracts speak of.

use vstd::prelude::*;

verus! {

/// The view of an optional string.
pub open spec fn opt_str_view(o: Option<String>) -> Option<Seq<char>> {
    match o {
        Some(s) => Some(s@),
        None => None,
    }
}

/// The view of an optional attribute lookup on an optional element.
pub open spec fn opt_opt_str_view(o: Option<Option<String>>) -> Option<Option<Seq<char>>> {
    match o {
        Some(Some(s)) => Some(Some(s@)),
        Some(None) => Some(None),
        None => None,
    }
}

/// Whether a selector string compiles.
pub uninterp spec fn selector_ok(sel: Seq<char>) -> bool;

/// Relies on scraper::Selector::parse: whether a selector string
/// compiles depends on the string alone; the error text is returned for
/// reporting and nothing is promised of it.
#[verifier::external_body]
pub(crate) fn check_selector(sel: &str) -> (r: Option<String>)
    ensures
        (r is None) == selector_ok(sel@),
{
    match scraper::Selector::parse(sel) {
        Ok(_) => None,
        Err(e) => Some(format!("{}", e)),
    }
}

/// How many elements of the document match the row selector.
pub uninterp spec fn row_count_of(html: Seq<char>, row_sel: Seq<char>) -> int;

/// Relies on scraper: Html::parse_document and Html::select. Counts the
/// elements of the parsed document matching the row selector, in
/// document order.
#[verifier::external_body]
pub(crate) fn count_rows(html: &str, row_sel: &str) -> (r: usize)
    requires
        selector_ok(row_sel@),
    ensures
        r as int == row_count_of(html@, row_sel@),
{
    let doc = scraper::Html::parse_document(html);
    let sel = scraper::Selector::parse(row_sel).unwrap();
    doc.select(&sel).count()
}

/// The text under the first descendant matching `sel` of the `i`-th
/// element matching `row_sel`, or nothing when either is missing.
pub uninterp spec fn row_first_text(
    html: Seq<char>,
    row_sel: Seq<char>,
    i: int,
    sel: Seq<char>,
) -> Option<Seq<char>>;

/// Relies on scraper: Html::parse_document, Html::select,
/// ElementRef::select and ElementRef::text. Takes the `i`-th element
/// matching the row selector, finds its first descendant matching `sel`,
/// and joins that descendant's text nodes with single spaces.
#[verifier::external_body]
pub(crate) fn first_text_in_row(html: &str, row_sel: &str, i: usize, sel: &str) -> (r: Option<
    String,
>)
    requires
        selector_ok(row_sel@),
        selector_ok(sel@),
    ensures
        opt_str_view(r) == row_first_text(html@, row_sel@, i as int, sel@),
{
    let doc = scraper::Html::parse_document(html);
    let rsel = scraper::Selector::parse(row_sel).unwrap();
    let isel = scraper::Selector::parse(sel).unwrap();
    let row = doc.select(&rsel).nth(i)?;
    let elem = row.select(&isel).next()?;
    Some(elem.text().collect::<Vec<_>>().join(" "))
}

/// The value of attribute `attr` on the first descendant matching `sel`
/// of the `i`-th element matching `row_sel`. The outer option tells
/// whether such a descendant exists, the inner one whether it carries
/// the attribute.
pub uninterp spec fn row_first_attr(
    html: Seq<char>,
    row_sel: Seq<char>,
    i: int,
    sel: Seq<char>,
    attr: Seq<char>,
) -> Option<Option<Seq<char>>>;

/// Relies on scraper: Html::parse_document, Html::select,
/// ElementRef::select and ElementRef::attr. Takes the `i`-th element
/// matching the row selector, finds its first descendant matching `sel`,
/// and reads the named attribute off it.
#[verifier::external_body]
pub(crate) fn first_attr_in_row(
    html: &str,
    row_sel: &str,
    i: usize,
    sel: &str,
    attr: &str,
) -> (r: Option<Option<String>>)
    requires
        selector_ok(row_sel@),
        selector_ok(sel@),
    ensures
        opt_opt_str_view(r) == row_first_attr(html@, row_sel@, i as int, sel@, attr@),
{
    let doc = scraper::Html::parse_document(html);
    let rsel = scraper::Selector::parse(row_sel).unwrap();
    let isel = scraper::Selector::parse(sel).unwrap();
    let row = doc.select(&rsel).nth(i)?;
    let elem = row.select(&isel).next()?;
    Some(elem.attr(attr).map(|v| v.to_string()))
}

} // verus!
