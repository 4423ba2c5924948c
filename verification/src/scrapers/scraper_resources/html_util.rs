//! Parsed pages and CSS selectors, and what a selection reads from a page.
//! Parsing HTML and matching selectors is done by the `scraper` crate; the
//! results of its selections are named here and the library reasons about
//! them through those names.

use vstd::prelude::*;
use crate::error::{NewsError, NewsErrorView};
use crate::webhook_handler::string_views;

verus! {

#[verifier::external_type_specification]
#[verifier::external_body]
pub struct ExHtml(scraper::Html);

#[verifier::external_type_specification]
#[verifier::external_body]
pub struct ExSelector(scraper::Selector);

/// Whether `scraper` accepts `text` as a CSS selector group.
pub uninterp spec fn css_selector_valid(text: Seq<char>) -> bool;

/// For each element of the document `document` that matches the selector
/// `selector`, in the order in which `scraper`'s select yields them, the
/// values of its attributes `names`.
pub uninterp spec fn selected_attributes(
    document: Seq<char>,
    selector: Seq<char>,
    names: Seq<Seq<char>>,
) -> Seq<Seq<Option<Seq<char>>>>;

/// For each element of the document that matches `selector`, in the order
/// in which `scraper`'s select yields them, its inner HTML. (`scraper` is
/// built with its `deterministic` feature, under which an element keeps its
/// attributes, and writes them out, in the order of the source.)
pub uninterp spec fn selected_inner_html(document: Seq<char>, selector: Seq<char>) -> Seq<Seq<char>>;

/// For each element of the document that matches `outer`: `None` when no
/// element below it matches `inner`, otherwise the value of the attribute
/// `name` of the first one that does.
pub uninterp spec fn selected_nested_attribute(
    document: Seq<char>,
    outer: Seq<char>,
    inner: Seq<char>,
    name: Seq<char>,
) -> Seq<Option<Option<Seq<char>>>>;

/// The view of an optional string.
pub open spec fn opt_view(o: Option<String>) -> Option<Seq<char>> {
    match o {
        Some(s) => Some(s@),
        None => None,
    }
}

/// The views of a table of optional strings.
pub open spec fn table_views(t: Seq<Vec<Option<String>>>) -> Seq<Seq<Option<Seq<char>>>> {
    t.map_values(|row: Vec<Option<String>>| row@.map_values(|o: Option<String>| opt_view(o)))
}

/// The views of a list of doubly optional strings.
pub open spec fn nested_views(t: Seq<Option<Option<String>>>) -> Seq<Option<Option<Seq<char>>>> {
    t.map_values(
        |o: Option<Option<String>>|
            match o {
                Some(inner) => Some(opt_view(inner)),
                None => None,
            },
    )
}

/// An HTML document, parsed, together with its source text.
pub struct Page {
    source: String,
    document: scraper::Html,
}

impl View for Page {
    type V = Seq<char>;

    closed spec fn view(&self) -> Seq<char> {
        self.source@
    }
}

/// A parsed CSS selector group, together with its text.
pub struct CssSelector {
    text: String,
    selector: scraper::Selector,
}

impl View for CssSelector {
    type V = Seq<char>;

    closed spec fn view(&self) -> Seq<char> {
        self.text@
    }
}

impl Page {
    /// Parses an HTML document (`scraper::Html::parse_document`).
    #[verifier::external_body]
    pub(crate) fn parse(text: &str) -> (p: Page)
        ensures
            p@ == text@,
    {
        Page { source: text.to_owned(), document: scraper::Html::parse_document(text) }
    }

    /// The parsed page of an HTML document.
    pub fn new(text: &str) -> (p: Page)
        ensures
            p@ == text@,
    {
        Page::parse(text)
    }
}

impl CssSelector {
    /// Parses a CSS selector group (`scraper::Selector::parse`); `None` when
    /// `scraper` refuses the text.
    #[verifier::external_body]
    pub(crate) fn parse(text: &str) -> (r: Option<CssSelector>)
        ensures
            r is Some <==> css_selector_valid(text@),
            r matches Some(s) ==> s@ == text@,
    {
        match scraper::Selector::parse(text) {
            Ok(selector) => Some(CssSelector { text: text.to_owned(), selector }),
            Err(_) => None,
        }
    }
}

/// Reads the attributes `names` of every element that matches `selector`
/// (`scraper::Html::select` with `scraper::node::Element::attr`); each row
/// holds one value per name.
#[verifier::external_body]
pub(crate) fn select_attributes(page: &Page, selector: &CssSelector, names: &Vec<String>) -> (r: Vec<Vec<Option<String>>>)
    ensures
        table_views(r@) == selected_attributes(page@, selector@, string_views(names@)),
        forall|i: int| 0 <= i < r.len() ==> (#[trigger] r@[i]).len() == names.len(),
{
    let mut rows = Vec::new();
    for element in page.document.select(&selector.selector) {
        let value = element.value();
        rows.push(names.iter().map(|n| value.attr(n).map(|v| v.to_owned())).collect());
    }
    rows
}

/// Reads the inner HTML of every element that matches `selector`
/// (`scraper::Html::select` with `scraper::ElementRef::inner_html`).
#[verifier::external_body]
pub(crate) fn select_inner_html(page: &Page, selector: &CssSelector) -> (r: Vec<String>)
    ensures
        string_views(r@) == selected_inner_html(page@, selector@),
{
    page.document.select(&selector.selector).map(|element| element.inner_html()).collect()
}

/// For every element that matches `outer`, the attribute `name` of the first
/// element below it that matches `inner` (`scraper::Html::select`, then
/// `scraper::ElementRef::select` and `scraper::node::Element::attr`).
#[verifier::external_body]
pub(crate) fn select_nested_attribute(page: &Page, outer: &CssSelector, inner: &CssSelector, name: &str) -> (r: Vec<Option<Option<String>>>)
    ensures
        nested_views(r@) == selected_nested_attribute(page@, outer@, inner@, name@),
{
    page.document
        .select(&outer.selector)
        .map(|item| item.select(&inner.selector).next().map(|e| e.value().attr(name).map(|v| v.to_owned())))
        .collect()
}

/// What `format_selector` gives for a selector text.
pub open spec fn spec_format_selector(sel_text: Seq<char>) -> Result<Seq<char>, NewsErrorView> {
    if css_selector_valid(sel_text) {
        Ok(sel_text)
    } else {
        Err(NewsErrorView::BadSelector(sel_text))
    }
}

/// Parses a selector, reporting the text of one that fails to parse.
pub fn format_selector(sel_text: &str) -> (r: Result<CssSelector, NewsError>)
    ensures
        match r {
            Ok(s) => spec_format_selector(sel_text@) == Ok::<Seq<char>, NewsErrorView>(s@),
            Err(e) => spec_format_selector(sel_text@) == Err::<Seq<char>, NewsErrorView>(e@),
        },
{
    match CssSelector::parse(sel_text) {
        Some(s) => Ok(s),
        None => Err(NewsError::BadSelector(sel_text.to_owned())),
    }
}

/// The attribute values `names` of the first element that matches
/// `selector`: the selector must parse and match something.
pub open spec fn spec_select_first(
    document: Seq<char>,
    selector: Seq<char>,
    names: Seq<Seq<char>>,
    url: Seq<char>,
) -> Result<Seq<Option<Seq<char>>>, NewsErrorView> {
    if !css_selector_valid(selector) {
        Err(NewsErrorView::BadSelector(selector))
    } else {
        let rows = selected_attributes(document, selector, names);
        if rows.len() == 0 {
            Err(NewsErrorView::SelectedNothing(selector, url))
        } else {
            Ok(rows[0])
        }
    }
}

/// Takes a simple selector and returns (the attributes `names` of) the
/// first element it selects.
pub fn select_first(page: &Page, selector: &str, names: &Vec<String>, url: &str) -> (r: Result<Vec<Option<String>>, NewsError>)
    ensures
        match r {
            Ok(row) => spec_select_first(page@, selector@, string_views(names@), url@)
                == Ok::<_, NewsErrorView>(row@.map_values(|o: Option<String>| opt_view(o))),
            Err(e) => spec_select_first(page@, selector@, string_views(names@), url@)
                == Err::<Seq<Option<Seq<char>>>, NewsErrorView>(e@),
        },
        r matches Ok(row) ==> row.len() == names.len(),
{
    let sel = match format_selector(selector) {
        Ok(s) => s,
        Err(e) => return Err(e),
    };
    let mut rows = select_attributes(page, &sel, names);
    if rows.len() == 0 {
        return Err(NewsError::SelectedNothing(selector.to_owned(), url.to_owned()));
    }
    let ghost tv = table_views(rows@);
    assert(tv[0] == rows@[0]@.map_values(|o: Option<String>| opt_view(o)));
    let row = rows.remove(0);
    Ok(row)
}

/// What `select_attribute` gives for an attribute value.
pub open spec fn spec_select_attribute(value: Option<Seq<char>>, attr: Seq<char>, url: Seq<char>) -> Result<Seq<char>, NewsErrorView> {
    match value {
        Some(v) => Ok(v),
        None => Err(NewsErrorView::SelectedNothing(attr, url)),
    }
}

/// Takes the value of an element's attribute `attr`, reporting its absence.
pub fn select_attribute(value: &Option<String>, attr: &str, url: &str) -> (r: Result<String, NewsError>)
    ensures
        match r {
            Ok(s) => spec_select_attribute(opt_view(*value), attr@, url@) == Ok::<Seq<char>, NewsErrorView>(s@),
            Err(e) => spec_select_attribute(opt_view(*value), attr@, url@) == Err::<Seq<char>, NewsErrorView>(e@),
        },
{
    match value {
        Some(v) => Ok(v.clone()),
        None => Err(NewsError::SelectedNothing(attr.to_owned(), url.to_owned())),
    }
}

} // verus!
