//! The newest thread of a forum listing that is not pinned, read with the
//! selector templates of its source.

use vstd::prelude::*;
use crate::json_to_structs::recent::{selector_from_template, RecentValue};
use crate::scrapers::pin_scan::{
    class_scan, found_view, link_at, link_from, numbered_text, scan_class_pins, PinScanError, PinScanErrorView,
};
use crate::scrapers::scraper_resources::html_util::Page;
use crate::text::{words, words_of};

verus! {

/// The URL of the first thread whose class has no `pinned`, thread `n`
/// being selected by `selector_from_template(pin, n)`: the `href` of what
/// `selector_from_template(selector, n)` selects; `None` when nothing is.
pub open spec fn spec_first_unpinned_forum(pin: Seq<char>, selector: Seq<char>, doc: Seq<char>) -> Result<
    Option<Seq<char>>,
    PinScanErrorView,
> {
    match class_scan(doc, words(pin)[0], words(pin)[1], 1) {
        Ok(post) => link_at(doc, selector_from_template(selector, post as u32), Seq::empty()),
        Err(e) => Err(e),
    }
}

/// The pin selector of thread `n` is that of the template `pin`.
pub proof fn law_pin_selector_is_template(pin: Seq<char>, n: u32)
    requires
        words(pin).len() >= 2,
    ensures
        crate::scrapers::pin_scan::numbered(words(pin)[0], n as nat, words(pin)[1]) == selector_from_template(pin, n),
{
}

/// Reads the URL of the newest thread of a forum listing that is not pinned.
pub fn first_unpinned_forum_url(recent_value: &RecentValue, page: &Page) -> (r: Result<Option<String>, PinScanError>)
    requires
        words(recent_value.pin@).len() >= 2,
        words(recent_value.selector@).len() >= 2,
    ensures
        found_view(r) == spec_first_unpinned_forum(recent_value.pin@, recent_value.selector@, page@),
{
    let pin = words_of(recent_value.pin.as_str());
    assert(pin@.map_values(|w: String| w@)[0] == pin@[0]@);
    assert(pin@.map_values(|w: String| w@)[1] == pin@[1]@);
    let post = match scan_class_pins(page, pin[0].as_str(), pin[1].as_str()) {
        Ok(p) => p,
        Err(e) => return Err(e),
    };
    let link = words_of(recent_value.selector.as_str());
    assert(link@.map_values(|w: String| w@)[0] == link@[0]@);
    assert(link@.map_values(|w: String| w@)[1] == link@[1]@);
    let text = numbered_text(link[0].as_str(), post, link[1].as_str());
    proof {
        reveal_strlit("");
    }
    assert(""@ =~= Seq::<char>::empty());
    link_from(page, text, "")
}

} // verus!
