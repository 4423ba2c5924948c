//! The newest post of the main news page that is not pinned.

use vstd::prelude::*;
use crate::scrapers::pin_scan::{
    found_view, link_at, link_from, marker_scan, numbered, numbered_text, scan_marker_pins, PinScanError,
    PinScanErrorView,
};
use crate::scrapers::scraper_resources::html_util::Page;

verus! {

/// The selector of a showcase item of the news page, up to the item's number.
pub const NEWS_ITEM: &'static str = "#bodyRoot > div.content > div:nth-child(2) > div > div > section > div > div.showcase__content-wrapper > div:nth-child(";

/// After an item's number: the item's pin marker.
pub const NEWS_PIN: &'static str = ") > div.widget__pin";

/// After an item's number: the item's link.
pub const NEWS_LINK: &'static str = ") > a.widget__link";

/// What the links of the news page are relative to.
pub const NEWS_SITE: &'static str = "https://warthunder.com";

/// The URL of the first showcase item without a pin marker: the item's
/// `href` after [`NEWS_SITE`]; `None` when that item has no link.
pub open spec fn spec_first_unpinned_news(doc: Seq<char>) -> Result<Option<Seq<char>>, PinScanErrorView> {
    match marker_scan(doc, NEWS_ITEM@, NEWS_PIN@, 1) {
        Ok(post) => link_at(doc, numbered(NEWS_ITEM@, post, NEWS_LINK@), NEWS_SITE@),
        Err(e) => Err(e),
    }
}

/// Reads the URL of the newest news post that is not pinned.
pub fn first_unpinned_news_url(page: &Page) -> (r: Result<Option<String>, PinScanError>)
    ensures
        found_view(r) == spec_first_unpinned_news(page@),
{
    let post = match scan_marker_pins(page, NEWS_ITEM, NEWS_PIN) {
        Ok(p) => p,
        Err(e) => return Err(e),
    };
    let text = numbered_text(NEWS_ITEM, post, NEWS_LINK);
    link_from(page, text, NEWS_SITE)
}

} // verus!
