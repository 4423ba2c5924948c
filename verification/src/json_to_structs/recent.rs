//! The per-source record of recently announced URLs.

use vstd::prelude::*;
use crate::text::{decimal, push_decimal, push_str_chars, str_eq, string_of, words, words_of};
use crate::webhook_handler::string_views;

verus! {

/// The record of the four tracked sources.
pub struct Recent {
    pub warthunder_news: RecentValue,
    pub warthunder_changelog: RecentValue,
    pub forums_updates_information: RecentValue,
    pub forums_project_news: RecentValue,
}

/// One source: where it is read, its selectors, and the URLs already announced.
pub struct RecentValue {
    pub domain: String,
    pub selector: String,
    pub pin: String,
    pub recent_url: Vec<String>,
}

/// Whether `urls` holds `value`.
pub fn contains_string(urls: &Vec<String>, value: &str) -> (r: bool)
    ensures
        r == string_views(urls@).contains(value@),
{
    let mut i: usize = 0;
    while i < urls.len()
        invariant
            i <= urls.len(),
            forall|j: int| 0 <= j < i ==> #[trigger] string_views(urls@)[j] != value@,
        decreases urls.len() - i,
    {
        if str_eq(urls[i].as_str(), value) {
            assert(string_views(urls@)[i as int] == value@);
            return true;
        }
        i = i + 1;
    }
    false
}

impl RecentValue {
    /// Whether `value` is new, i.e. has not been announced recently.
    pub fn is_outdated(&self, value: &str) -> (r: bool)
        ensures
            r == !string_views(self.recent_url@).contains(value@),
    {
        !contains_string(&self.recent_url, value)
    }
}

impl Recent {
    /// Records `value` as announced for the main news.
    pub fn append_latest_warthunder_news(&mut self, value: &str)
        ensures
            string_views(final(self).warthunder_news.recent_url@) == string_views(old(self).warthunder_news.recent_url@).push(value@),
            final(self).warthunder_news.domain == old(self).warthunder_news.domain,
            final(self).warthunder_news.selector == old(self).warthunder_news.selector,
            final(self).warthunder_news.pin == old(self).warthunder_news.pin,
            final(self).warthunder_changelog == old(self).warthunder_changelog,
            final(self).forums_updates_information == old(self).forums_updates_information,
            final(self).forums_project_news == old(self).forums_project_news,
    {
        self.warthunder_news.recent_url.push(value.to_owned());
        assert(string_views(self.warthunder_news.recent_url@) =~= string_views(old(self).warthunder_news.recent_url@).push(value@));
    }

    /// Records `value` as announced for the changelog.
    pub fn append_latest_warthunder_changelog(&mut self, value: &str)
        ensures
            string_views(final(self).warthunder_changelog.recent_url@) == string_views(old(self).warthunder_changelog.recent_url@).push(value@),
            final(self).warthunder_changelog.domain == old(self).warthunder_changelog.domain,
            final(self).warthunder_changelog.selector == old(self).warthunder_changelog.selector,
            final(self).warthunder_changelog.pin == old(self).warthunder_changelog.pin,
            final(self).warthunder_news == old(self).warthunder_news,
            final(self).forums_updates_information == old(self).forums_updates_information,
            final(self).forums_project_news == old(self).forums_project_news,
    {
        self.warthunder_changelog.recent_url.push(value.to_owned());
        assert(string_views(self.warthunder_changelog.recent_url@) =~= string_views(old(self).warthunder_changelog.recent_url@).push(value@));
    }

    /// Records `value` as announced for the forum's update information.
    pub fn append_latest_warthunder_forums_updates_information(&mut self, value: &str)
        ensures
            string_views(final(self).forums_updates_information.recent_url@) == string_views(old(self).forums_updates_information.recent_url@).push(value@),
            final(self).forums_updates_information.domain == old(self).forums_updates_information.domain,
            final(self).forums_updates_information.selector == old(self).forums_updates_information.selector,
            final(self).forums_updates_information.pin == old(self).forums_updates_information.pin,
            final(self).warthunder_news == old(self).warthunder_news,
            final(self).warthunder_changelog == old(self).warthunder_changelog,
            final(self).forums_project_news == old(self).forums_project_news,
    {
        self.forums_updates_information.recent_url.push(value.to_owned());
        assert(string_views(self.forums_updates_information.recent_url@) =~= string_views(old(self).forums_updates_information.recent_url@).push(value@));
    }

    /// Records `value` as announced for the forum's project news.
    pub fn append_latest_warthunder_forums_project_news(&mut self, value: &str)
        ensures
            string_views(final(self).forums_project_news.recent_url@) == string_views(old(self).forums_project_news.recent_url@).push(value@),
            final(self).forums_project_news.domain == old(self).forums_project_news.domain,
            final(self).forums_project_news.selector == old(self).forums_project_news.selector,
            final(self).forums_project_news.pin == old(self).forums_project_news.pin,
            final(self).warthunder_news == old(self).warthunder_news,
            final(self).warthunder_changelog == old(self).warthunder_changelog,
            final(self).forums_updates_information == old(self).forums_updates_information,
    {
        self.forums_project_news.recent_url.push(value.to_owned());
        assert(string_views(self.forums_project_news.recent_url@) =~= string_views(old(self).forums_project_news.recent_url@).push(value@));
    }
}

/// A URL, once appended to a source's record, is no longer new for it.
pub proof fn law_appended_is_not_new(before: Seq<Seq<char>>, value: Seq<char>)
    ensures
        before.push(value).contains(value),
{
    assert(before.push(value)[before.len() as int] == value);
}

/// The selector text for post number `index`: the first word of the
/// template, the index, then its second word.
pub open spec fn selector_from_template(template: Seq<char>, index: u32) -> Seq<char> {
    words(template)[0] + decimal(index as nat) + words(template)[1]
}

/// The text of the selector `which` (`pin` or `selector`) of a source for
/// post number `index`; `None` for any other `which`.
pub fn format_selector(main: &RecentValue, which: &str, index: u32) -> (r: Option<String>)
    requires
        which@ == "pin"@ ==> words(main.pin@).len() >= 2,
        which@ == "selector"@ ==> words(main.selector@).len() >= 2,
    ensures
        which@ == "pin"@ ==> (r matches Some(s) && s@ == selector_from_template(main.pin@, index)),
        which@ == "selector"@ ==> (r matches Some(s) && s@ == selector_from_template(main.selector@, index)),
        which@ != "pin"@ && which@ != "selector"@ ==> r is None,
{
    proof {
        reveal_strlit("pin");
        reveal_strlit("selector");
        assert("pin"@[0] != "selector"@[0]);
    }
    let template = if str_eq(which, "pin") {
        &main.pin
    } else if str_eq(which, "selector") {
        &main.selector
    } else {
        return None;
    };
    let parts = words_of(template.as_str());
    assert(parts@.map_values(|w: String| w@)[0] == parts@[0]@);
    assert(parts@.map_values(|w: String| w@)[1] == parts@[1]@);
    let mut out: Vec<char> = Vec::new();
    push_str_chars(&mut out, parts[0].as_str());
    push_decimal(&mut out, index as u64);
    push_str_chars(&mut out, parts[1].as_str());
    assert(out@ =~= selector_from_template(template@, index));
    Some(string_of(&out))
}

} // verus!
