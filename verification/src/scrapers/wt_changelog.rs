//! Reading the newest changelog of the changelog page, and choosing it when
//! the first one is pinned.

use vstd::prelude::*;
use crate::json_to_structs::recent::{contains_string, Recent};
use crate::scrapers::pin_scan::{
    first_value, found_view, link_found, link_of, numbered, numbered_text, parse_selector, PinScanError,
    PinScanErrorView,
};
use crate::scrapers::scraper_resources::html_util::{css_selector_valid, opt_view, selected_attributes, Page};
use crate::scrapers::wt_news::NEWS_SITE;
use crate::text::str_eq;
use crate::webhook_handler::string_views;

verus! {

/// The newest changelog among the first two listed: the second one when the
/// first was already announced, else the first.
pub fn pinned<'a>(recent: &'a Recent, top_url: &'a [String]) -> (r: &'a String)
    requires
        top_url@.len() >= 2,
    ensures
        string_views(recent.warthunder_changelog.recent_url@).contains(top_url@[0]@) ==> r == &top_url@[1],
        !string_views(recent.warthunder_changelog.recent_url@).contains(top_url@[0]@) ==> r == &top_url@[0],
{
    let recents = &recent.warthunder_changelog.recent_url;
    if contains_string(recents, top_url[0].as_str()) {
        &top_url[1]
    } else {
        &top_url[0]
    }
}

/// The changelog to announce, given the first two listed URLs and the class
/// of the pin marker of the first item (`None` when there is none): a pinned
/// first item defers to [`pinned`], an unpinned one is announced itself, and
/// without a pin marker nothing is.
pub fn changelog_choice(recent: &Recent, top_url: &Vec<String>, pin_class: &Option<String>) -> (r: Option<String>)
    requires
        top_url@.len() >= 2,
    ensures
        match pin_class {
            None => r is None,
            Some(c) => r matches Some(u) && (if c@ == "widget__pin"@ {
                u@ == (if string_views(recent.warthunder_changelog.recent_url@).contains(top_url@[0]@) {
                    top_url@[1]@
                } else {
                    top_url@[0]@
                })
            } else {
                u@ == top_url@[0]@
            }),
        },
{
    match pin_class {
        None => None,
        Some(c) => {
            if str_eq(c.as_str(), "widget__pin") {
                let chosen = pinned(recent, top_url.as_slice());
                Some(chosen.clone())
            } else {
                Some(top_url[0].clone())
            }
        },
    }
}

/// The selector of a showcase item of the changelog page, up to the item's number.
pub const CHANGELOG_ITEM: &'static str = "#bodyRoot > div.content > div:nth-child(2) > div:nth-child(2) > div > section > div > div.showcase__content-wrapper > div:nth-child(";

/// After an item's number: the item's link.
pub const CHANGELOG_LINK: &'static str = ") > a";

/// After an item's number: the item's pin marker.
pub const CHANGELOG_PIN: &'static str = ") > div.widget__pin";

/// The changelog to announce from the changelog page, given the URLs
/// already announced: the links of the first two items (after
/// [`NEWS_SITE`]) and the class of the first item's pin marker decide as in
/// [`changelog_choice`]; `None` when one of the three selects nothing.
pub open spec fn spec_changelog_from_page(recent_urls: Seq<Seq<char>>, doc: Seq<char>) -> Result<
    Option<Seq<char>>,
    PinScanErrorView,
> {
    let first = numbered(CHANGELOG_ITEM@, 1, CHANGELOG_LINK@);
    let second = numbered(CHANGELOG_ITEM@, 2, CHANGELOG_LINK@);
    let pin = numbered(CHANGELOG_ITEM@, 1, CHANGELOG_PIN@);
    if !css_selector_valid(first) {
        Err(PinScanErrorView::BadSelector(first))
    } else if !css_selector_valid(second) {
        Err(PinScanErrorView::BadSelector(second))
    } else if !css_selector_valid(pin) {
        Err(PinScanErrorView::BadSelector(pin))
    } else {
        match link_found(doc, first, NEWS_SITE@) {
            Err(e) => Err(e),
            Ok(None) => Ok(None),
            Ok(Some(top)) => match link_found(doc, second, NEWS_SITE@) {
                Err(e) => Err(e),
                Ok(None) => Ok(None),
                Ok(Some(next)) => {
                    let rows = selected_attributes(doc, pin, seq!["class"@]);
                    if rows.len() == 0 {
                        Ok(None)
                    } else {
                        match rows[0][0] {
                            None => Err(PinScanErrorView::MissingAttribute("class"@)),
                            Some(class) => Ok(
                                Some(
                                    if class == "widget__pin"@ && recent_urls.contains(top) {
                                        next
                                    } else {
                                        top
                                    },
                                ),
                            ),
                        }
                    }
                },
            },
        }
    }
}

/// Reads the changelog to announce from the changelog page.
pub fn changelog_from_page(recent: &Recent, page: &Page) -> (r: Result<Option<String>, PinScanError>)
    ensures
        found_view(r) == spec_changelog_from_page(string_views(recent.warthunder_changelog.recent_url@), page@),
{
    let first = match parse_selector(numbered_text(CHANGELOG_ITEM, 1, CHANGELOG_LINK)) {
        Ok(s) => s,
        Err(e) => return Err(e),
    };
    let second = match parse_selector(numbered_text(CHANGELOG_ITEM, 2, CHANGELOG_LINK)) {
        Ok(s) => s,
        Err(e) => return Err(e),
    };
    let pin = match parse_selector(numbered_text(CHANGELOG_ITEM, 1, CHANGELOG_PIN)) {
        Ok(s) => s,
        Err(e) => return Err(e),
    };
    let top = match link_of(page, &first, NEWS_SITE) {
        Ok(Some(u)) => u,
        Ok(None) => return Ok(None),
        Err(e) => return Err(e),
    };
    let next = match link_of(page, &second, NEWS_SITE) {
        Ok(Some(u)) => u,
        Ok(None) => return Ok(None),
        Err(e) => return Err(e),
    };
    let class = match first_value(page, &pin, "class") {
        None => return Ok(None),
        Some(None) => return Err(PinScanError::MissingAttribute("class".to_owned())),
        Some(Some(c)) => c,
    };
    let mut top_url: Vec<String> = Vec::new();
    top_url.push(top);
    top_url.push(next);
    Ok(changelog_choice(recent, &top_url, &Some(class)))
}

} // verus!
