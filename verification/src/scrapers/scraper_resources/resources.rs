//! The kinds of news pages and the URL rules attached to them.

use vstd::prelude::*;
use crate::error::{NewsError, NewsErrorView};
use crate::scrapers::scraper_resources::html_util::{
    css_selector_valid, format_selector, nested_views, select_attributes, select_nested_attribute,
    selected_attributes, selected_nested_attribute, CssSelector, Page,
};
use crate::text::{chars_of, contains_chars, contains_seq};
use crate::webhook_handler::string_views;

verus! {

/// Defines the types of pages where news come from.
#[derive(PartialEq, Eq, Structural, Clone, Copy, Debug)]
pub enum ScrapeType {
    Forum,
    Main,
    Changelog,
}

/// The kind a URL belongs to: pages of `warthunder.com` are changelog pages
/// when their URL mentions `changelog` and main news otherwise; every other
/// URL is a forum post.
pub open spec fn spec_infer_from_url(url: Seq<char>) -> ScrapeType {
    if contains_seq(url, "warthunder.com"@) {
        if contains_seq(url, "changelog"@) {
            ScrapeType::Changelog
        } else {
            ScrapeType::Main
        }
    } else {
        ScrapeType::Forum
    }
}

/// The absolute URL of a post whose listing link is `top_url`: links on the
/// main site are relative to `https://warthunder.com`, forum links are absolute.
pub open spec fn spec_final_url(top_url: Seq<char>, selection: ScrapeType) -> Seq<char> {
    match selection {
        ScrapeType::Main | ScrapeType::Changelog => "https://warthunder.com"@ + top_url,
        ScrapeType::Forum => top_url,
    }
}

impl ScrapeType {
    /// The human readable name of the kind.
    pub open spec fn display(self) -> Seq<char> {
        match self {
            ScrapeType::Forum => "Forum news"@,
            ScrapeType::Main => "News"@,
            ScrapeType::Changelog => "Changelog"@,
        }
    }

    /// Infers the kind of page from its URL (used for API calls and similar).
    pub fn infer_from_url(url: &str) -> (r: Self)
        ensures
            r == spec_infer_from_url(url@),
    {
        let u = chars_of(url);
        let site = chars_of("warthunder.com");
        if contains_chars(&u, &site) {
            let changelog = chars_of("changelog");
            if contains_chars(&u, &changelog) {
                ScrapeType::Changelog
            } else {
                ScrapeType::Main
            }
        } else {
            ScrapeType::Forum
        }
    }

    /// The human readable name of the kind.
    pub fn to_string(&self) -> (s: String)
        ensures
            s@ == self.display(),
    {
        match self {
            ScrapeType::Forum => String::from_str("Forum news"),
            ScrapeType::Main => String::from_str("News"),
            ScrapeType::Changelog => String::from_str("Changelog"),
        }
    }
}

/// Turns the link of a listing into the absolute URL of the post.
pub fn format_into_final_url(top_url: &str, selection: ScrapeType) -> (r: String)
    ensures
        r@ == spec_final_url(top_url@, selection),
{
    match selection {
        ScrapeType::Main | ScrapeType::Changelog => {
            let mut s = String::from_str("https://warthunder.com");
            s.append(top_url);
            s
        },
        ScrapeType::Forum => top_url.to_owned(),
    }
}

/// The selector of the items listing main-site news or changelogs.
pub open spec fn listing_selector(scrape_type: ScrapeType) -> Seq<char> {
    if scrape_type == ScrapeType::Main {
        "#bodyRoot > div.content > div:nth-child(2) > div:nth-child(2) > div > section > div > div.showcase__content-wrapper > div.showcase__item"@
    } else {
        "#bodyRoot > div.content > div:nth-child(2) > div:nth-child(3) > div > section > div > div.showcase__content-wrapper > div.showcase__item"@
    }
}

/// The target of an item's first anchor, when it has one.
pub open spec fn item_href() -> spec_fn(Option<Option<Seq<char>>>) -> Option<Seq<char>> {
    |o: Option<Option<Seq<char>>>|
        match o {
            Some(Some(u)) => Some(u),
            _ => None,
        }
}

/// The targets of a list, read from its front.
proof fn lemma_hrefs_prepend(x: Option<Option<Seq<char>>>, rest: Seq<Option<Option<Seq<char>>>>)
    ensures
        (seq![x] + rest).filter_map(item_href()) == (match x {
            Some(Some(u)) => seq![u],
            _ => Seq::<Seq<char>>::empty(),
        }) + rest.filter_map(item_href()),
    decreases rest.len(),
{
    let head = match x {
        Some(Some(u)) => seq![u],
        _ => Seq::<Seq<char>>::empty(),
    };
    if rest.len() > 0 {
        lemma_hrefs_prepend(x, rest.drop_last());
        assert((seq![x] + rest).drop_last() =~= seq![x] + rest.drop_last());
        assert((seq![x] + rest).last() == rest.last());
        let f = item_href();
        let whole = seq![x] + rest;
        assert(f(rest.last()) == match rest.last() {
            Some(Some(u)) => Some(u),
            _ => None::<Seq<char>>,
        });
        assert(whole.filter_map(f) == match f(whole.last()) {
            Some(s) => whole.drop_last().filter_map(f) + seq![s],
            None => whole.drop_last().filter_map(f),
        });
        assert(rest.filter_map(f) == match f(rest.last()) {
            Some(s) => rest.drop_last().filter_map(f) + seq![s],
            None => rest.drop_last().filter_map(f),
        });
        match rest.last() {
            Some(Some(u)) => {
                assert(head + rest.drop_last().filter_map(item_href()) + seq![u] =~= head + (
                rest.drop_last().filter_map(item_href()) + seq![u]));
            },
            _ => {},
        }
    } else {
        assert(seq![x] + rest =~= seq![x]);
        assert(seq![x].drop_last() =~= Seq::<Option<Option<Seq<char>>>>::empty());
        let f = item_href();
        assert(f(x) == match x {
            Some(Some(u)) => Some(u),
            _ => None::<Seq<char>>,
        });
        assert(seq![x].last() == x);
        assert(seq![x].filter_map(f) == match f(x) {
            Some(s) => seq![x].drop_last().filter_map(f) + seq![s],
            None => seq![x].drop_last().filter_map(f),
        });
        assert(Seq::<Option<Option<Seq<char>>>>::empty().filter_map(f) =~= Seq::<Seq<char>>::empty());
        assert(rest.filter_map(item_href()) =~= Seq::<Seq<char>>::empty());
        assert(head + Seq::<Seq<char>>::empty() =~= head);
        assert(Seq::<Seq<char>>::empty() + head =~= head);
    }
}

proof fn lemma_collect_item_links(items: Seq<Option<Option<Seq<char>>>>, scrape_type: ScrapeType)
    ensures
        (forall|i: int| 0 <= i < items.len() ==> (#[trigger] items[i]) is Some) ==> collect_item_links(items, scrape_type)
            == Ok::<Seq<Seq<char>>, NewsErrorView>(items.filter_map(item_href())),
        (exists|i: int| 0 <= i < items.len() && (#[trigger] items[i]) is None) ==> collect_item_links(items, scrape_type) is Err,
    decreases items.len(),
{
    if items.len() > 0 {
        let rest = items.drop_first();
        lemma_collect_item_links(rest, scrape_type);
        assert(seq![items[0]] + rest =~= items);
        lemma_hrefs_prepend(items[0], rest);
        assert forall|i: int| 0 <= i < rest.len() implies rest[i] == items[i + 1] by {}
        if exists|i: int| 0 <= i < items.len() && (#[trigger] items[i]) is None {
            let i = choose|i: int| 0 <= i < items.len() && (#[trigger] items[i]) is None;
            if i > 0 {
                assert(rest[i - 1] is None);
            }
        } else {
            assert forall|i: int| 0 <= i < rest.len() implies (#[trigger] rest[i]) is Some by {
                assert(items[i + 1] is Some);
            }
            if let Some(Some(u)) = items[0] {
                assert(seq![u] + rest.filter_map(item_href()) =~= seq![u] + rest.filter_map(item_href()));
            } else {
                assert(Seq::<Seq<char>>::empty() + rest.filter_map(item_href()) =~= rest.filter_map(item_href()));
            }
        }
    } else {
        assert(items.filter_map(item_href()) =~= Seq::<Seq<char>>::empty());
    }
}

/// A main-site or changelog listing gives one link per listed item whose
/// first anchor has a target, in the order of the items: the targets of the
/// items' first anchors, dropping anchors without one; an item without any
/// anchor fails the listing.
pub proof fn law_listing_links_one_per_item(document: Seq<char>, scrape_type: ScrapeType)
    requires
        scrape_type != ScrapeType::Forum,
        css_selector_valid(listing_selector(scrape_type)),
        css_selector_valid("a"@),
    ensures
        (forall|i: int|
            0 <= i < selected_nested_attribute(document, listing_selector(scrape_type), "a"@, "href"@).len()
                ==> (#[trigger] selected_nested_attribute(document, listing_selector(scrape_type), "a"@, "href"@)[i]) is Some)
            ==> spec_get_listed_links(document, scrape_type) == Ok::<Seq<Seq<char>>, NewsErrorView>(
            selected_nested_attribute(document, listing_selector(scrape_type), "a"@, "href"@).filter_map(item_href()),
        ),
        (exists|i: int|
            0 <= i < selected_nested_attribute(document, listing_selector(scrape_type), "a"@, "href"@).len()
                && (#[trigger] selected_nested_attribute(document, listing_selector(scrape_type), "a"@, "href"@)[i]) is None)
            ==> spec_get_listed_links(document, scrape_type) is Err,
{
    lemma_collect_item_links(selected_nested_attribute(document, listing_selector(scrape_type), "a"@, "href"@), scrape_type);
}

/// The selector of the items listing forum posts.
pub open spec fn forum_listing_selector() -> Seq<char> {
    "body > main > div > div > div > div:nth-child(2) > div > ol > li"@
}

/// The selector, inside a forum item, of the link to the post.
pub open spec fn forum_link_selector() -> Seq<char> {
    "div > h4 > div > a"@
}

/// The links of main-site or changelog items, in order, from the first
/// anchor of each item; an item without an anchor fails the listing, an
/// anchor without a target is skipped.
pub open spec fn collect_item_links(items: Seq<Option<Option<Seq<char>>>>, scrape_type: ScrapeType) -> Result<
    Seq<Seq<char>>,
    NewsErrorView,
>
    decreases items.len(),
{
    if items.len() == 0 {
        Ok(seq![])
    } else {
        match items[0] {
            None => Err(NewsErrorView::SelectedNothing("a"@, scrape_type.display())),
            Some(href) => match collect_item_links(items.drop_first(), scrape_type) {
                Err(e) => Err(e),
                Ok(rest) => match href {
                    Some(u) => Ok(seq![u] + rest),
                    None => Ok(rest),
                },
            },
        }
    }
}

/// The links of forum items, in order; items without a link are skipped.
pub open spec fn collect_forum_links(items: Seq<Option<Option<Seq<char>>>>) -> Seq<Seq<char>>
    decreases items.len(),
{
    if items.len() == 0 {
        seq![]
    } else {
        let rest = collect_forum_links(items.drop_first());
        match items[0] {
            Some(Some(u)) => seq![u] + rest,
            _ => rest,
        }
    }
}

/// What `get_listed_links` reads from a listing page.
pub open spec fn spec_get_listed_links(document: Seq<char>, scrape_type: ScrapeType) -> Result<
    Seq<Seq<char>>,
    NewsErrorView,
> {
    match scrape_type {
        ScrapeType::Main | ScrapeType::Changelog => {
            let outer = listing_selector(scrape_type);
            if !css_selector_valid(outer) {
                Err(NewsErrorView::BadSelector(outer))
            } else if !css_selector_valid("a"@) {
                if selected_attributes(document, outer, seq![]).len() == 0 {
                    Ok(seq![])
                } else {
                    Err(NewsErrorView::BadSelector("a"@))
                }
            } else {
                collect_item_links(selected_nested_attribute(document, outer, "a"@, "href"@), scrape_type)
            }
        },
        ScrapeType::Forum => {
            if !css_selector_valid(forum_listing_selector()) {
                Err(NewsErrorView::BadSelector(forum_listing_selector()))
            } else if !css_selector_valid(forum_link_selector()) {
                Err(NewsErrorView::BadSelector(forum_link_selector()))
            } else {
                Ok(collect_forum_links(selected_nested_attribute(document, forum_listing_selector(), forum_link_selector(), "href"@)))
            }
        },
    }
}

/// The ordered views of a list of strings equal a sequence.
fn collect_links_exec(items: &Vec<Option<Option<String>>>, scrape_type: ScrapeType, forum: bool) -> (r: Result<Vec<String>, NewsError>)
    ensures
        forum ==> (r matches Ok(v) && string_views(v@) == collect_forum_links(nested_views(items@))),
        !forum ==> match r {
            Ok(v) => collect_item_links(nested_views(items@), scrape_type) == Ok::<Seq<Seq<char>>, NewsErrorView>(string_views(v@)),
            Err(e) => collect_item_links(nested_views(items@), scrape_type) == Err::<Seq<Seq<char>>, NewsErrorView>(e@),
        },
{
    let ghost all = nested_views(items@);
    let mut out: Vec<String> = Vec::new();
    let mut i: usize = 0;
    proof {
        assert(all.skip(0) =~= all);
        assert(string_views(out@) + collect_forum_links(all) =~= collect_forum_links(all));
        match collect_item_links(all, scrape_type) {
            Ok(rest) => {
                assert(string_views(out@) + rest =~= rest);
            },
            Err(_) => {},
        }
    }
    while i < items.len()
        invariant
            i <= items.len(),
            all == nested_views(items@),
            forum ==> collect_forum_links(all) == string_views(out@) + collect_forum_links(all.skip(i as int)),
            !forum ==> collect_item_links(all, scrape_type) == match collect_item_links(all.skip(i as int), scrape_type) {
                Ok(rest) => Ok(string_views(out@) + rest),
                Err(e) => Err(e),
            },
        decreases items.len() - i,
    {
        let ghost before = out@;
        assert(all.skip(i as int).drop_first() =~= all.skip(i + 1));
        assert(all.skip(i as int)[0] == all[i as int]);
        match &items[i] {
            None => {
                if !forum {
                    let name = scrape_type.to_string();
                    return Err(NewsError::SelectedNothing(String::from_str("a"), name));
                }
            },
            Some(href) => match href {
                Some(u) => {
                    out.push(u.clone());
                    assert(string_views(out@) =~= string_views(before) + seq![u@]);
                    proof {
                        let r2f = collect_forum_links(all.skip(i + 1));
                        assert(string_views(before) + (seq![u@] + r2f) =~= string_views(out@) + r2f);
                        match collect_item_links(all.skip(i + 1), scrape_type) {
                            Ok(r2) => {
                                assert(string_views(before) + (seq![u@] + r2) =~= string_views(out@) + r2);
                            },
                            Err(_) => {},
                        }
                    }
                },
                None => {},
            },
        }
        i = i + 1;
    }
    assert(all.skip(i as int) =~= Seq::<Option<Option<Seq<char>>>>::empty());
    assert(string_views(out@) + Seq::<Seq<char>>::empty() =~= string_views(out@));
    Ok(out)
}

/// Reads the links of the posts listed on a listing page.
pub fn get_listed_links(scrape_type: ScrapeType, page: &Page) -> (r: Result<Vec<String>, NewsError>)
    ensures
        match r {
            Ok(v) => spec_get_listed_links(page@, scrape_type) == Ok::<Seq<Seq<char>>, NewsErrorView>(string_views(v@)),
            Err(e) => spec_get_listed_links(page@, scrape_type) == Err::<Seq<Seq<char>>, NewsErrorView>(e@),
        },
{
    match scrape_type {
        ScrapeType::Changelog | ScrapeType::Main => {
            let sel_text = if scrape_type == ScrapeType::Main {
                "#bodyRoot > div.content > div:nth-child(2) > div:nth-child(2) > div > section > div > div.showcase__content-wrapper > div.showcase__item"
            } else {
                "#bodyRoot > div.content > div:nth-child(2) > div:nth-child(3) > div > section > div > div.showcase__content-wrapper > div.showcase__item"
            };
            let sel = match format_selector(sel_text) {
                Ok(s) => s,
                Err(e) => return Err(e),
            };
            match CssSelector::parse("a") {
                None => {
                    let no_names: Vec<String> = Vec::new();
                    let rows = select_attributes(page, &sel, &no_names);
                    assert(string_views(no_names@) =~= Seq::<Seq<char>>::empty());
                    if rows.len() == 0 {
                        let empty: Vec<String> = Vec::new();
                        assert(string_views(empty@) =~= Seq::<Seq<char>>::empty());
                        Ok(empty)
                    } else {
                        Err(NewsError::BadSelector(String::from_str("a")))
                    }
                },
                Some(anchor) => {
                    let items = select_nested_attribute(page, &sel, &anchor, "href");
                    collect_links_exec(&items, scrape_type, false)
                },
            }
        },
        ScrapeType::Forum => {
            let sel = match format_selector("body > main > div > div > div > div:nth-child(2) > div > ol > li") {
                Ok(s) => s,
                Err(e) => return Err(e),
            };
            let lower_url = match format_selector("div > h4 > div > a") {
                Ok(s) => s,
                Err(e) => return Err(e),
            };
            let items = select_nested_attribute(page, &sel, &lower_url, "href");
            collect_links_exec(&items, scrape_type, true)
        },
    }
}

} // verus!
