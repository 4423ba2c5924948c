//! The newest thread of the forum's project news that is not pinned.

use vstd::prelude::*;
use crate::scrapers::pin_scan::{
    class_scan, found_view, link_at, link_from, numbered, numbered_text, scan_class_pins, PinScanError,
    PinScanErrorView,
};
use crate::scrapers::scraper_resources::html_util::Page;

verus! {

/// The selector of a thread of the project news list, up to its number.
pub const PROJECT_ITEM: &'static str = "body > main > div > div > div > div:nth-child(2) > div > ol > li:nth-child(";

/// After a thread's number: the thread's list item itself.
pub const PROJECT_PIN: &'static str = ")";

/// After a thread's number: the thread's link.
pub const PROJECT_LINK: &'static str = ") > div > h4 > div > a";

/// The URL of the first thread whose class has no `pinned`: its `href`;
/// `None` when that thread has no link.
pub open spec fn spec_first_unpinned_project_news(doc: Seq<char>) -> Result<Option<Seq<char>>, PinScanErrorView> {
    match class_scan(doc, PROJECT_ITEM@, PROJECT_PIN@, 1) {
        Ok(post) => link_at(doc, numbered(PROJECT_ITEM@, post, PROJECT_LINK@), Seq::empty()),
        Err(e) => Err(e),
    }
}

/// Reads the URL of the newest project news thread that is not pinned.
pub fn first_unpinned_project_news_url(page: &Page) -> (r: Result<Option<String>, PinScanError>)
    ensures
        found_view(r) == spec_first_unpinned_project_news(page@),
{
    let post = match scan_class_pins(page, PROJECT_ITEM, PROJECT_PIN) {
        Ok(p) => p,
        Err(e) => return Err(e),
    };
    let text = numbered_text(PROJECT_ITEM, post, PROJECT_LINK);
    proof {
        reveal_strlit("");
    }
    assert(""@ =~= Seq::<char>::empty());
    link_from(page, text, "")
}

} // verus!
