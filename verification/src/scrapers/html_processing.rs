//! From a listing page to the posts that still have to be announced.

use vstd::prelude::*;
use crate::embed::EmbedData;
use crate::error::{NewsError, NewsErrorView};
use crate::json::sources::Source;
use crate::scrapers::scraper_resources::html_util::Page;
use crate::scrapers::scraper_resources::resources::{
    format_into_final_url, get_listed_links, spec_final_url, spec_get_listed_links, ScrapeType,
};
use crate::webhook_handler::string_views;

verus! {

/// The links of `links` that `seen` does not hold, in order.
pub open spec fn new_links(links: Seq<Seq<char>>, seen: Map<Seq<char>, i64>) -> Seq<Seq<char>>
    decreases links.len(),
{
    if links.len() == 0 {
        seq![]
    } else {
        let rest = new_links(links.drop_last(), seen);
        if seen.contains_key(links.last()) {
            rest
        } else {
            rest.push(links.last())
        }
    }
}

/// The absolute URLs of listing links of the given kind.
pub open spec fn final_urls(links: Seq<Seq<char>>, scrape_type: ScrapeType) -> Seq<Seq<char>> {
    links.map_values(|l: Seq<char>| spec_final_url(l, scrape_type))
}

/// Removes the links the source has already seen, keeping the order of the others.
pub fn remove_known_links(source: &Source, links: Vec<String>) -> (r: Vec<String>)
    ensures
        string_views(r@) == new_links(string_views(links@), source.tracked_urls@),
{
    let ghost all = string_views(links@);
    let mut out: Vec<String> = Vec::new();
    let mut i: usize = 0;
    while i < links.len()
        invariant
            i <= links.len(),
            all == string_views(links@),
            string_views(out@) == new_links(all.take(i as int), source.tracked_urls@),
        decreases links.len() - i,
    {
        assert(all.take(i + 1).drop_last() =~= all.take(i as int));
        if source.is_new(links[i].as_str()) {
            out.push(links[i].clone());
            assert(string_views(out@) =~= new_links(all.take(i as int), source.tracked_urls@).push(all[i as int]));
        }
        i = i + 1;
    }
    assert(all.take(i as int) =~= all);
    out
}

/// Turns listing links into absolute URLs.
pub fn finalize_links(links: &Vec<String>, scrape_type: ScrapeType) -> (r: Vec<String>)
    ensures
        string_views(r@) == final_urls(string_views(links@), scrape_type),
{
    let mut out: Vec<String> = Vec::new();
    let mut i: usize = 0;
    while i < links.len()
        invariant
            i <= links.len(),
            string_views(out@) == final_urls(string_views(links@), scrape_type).take(i as int),
        decreases links.len() - i,
    {
        let url = format_into_final_url(links[i].as_str(), scrape_type);
        let ghost before = out@;
        out.push(url);
        assert(string_views(links@)[i as int] == links@[i as int]@);
        assert(final_urls(string_views(links@), scrape_type)[i as int] == spec_final_url(links@[i as int]@, scrape_type));
        assert(string_views(out@) =~= string_views(before).push(url@));
        assert(string_views(out@) =~= final_urls(string_views(links@), scrape_type).take(i + 1));
        i = i + 1;
    }
    assert(final_urls(string_views(links@), scrape_type).take(i as int) =~= final_urls(string_views(links@), scrape_type));
    out
}

/// Returns all post URLs listed on the page of a channel.
pub fn scrape_links(page: &Page, channel: &Source) -> (r: Result<Vec<String>, NewsError>)
    ensures
        match r {
            Ok(v) => spec_get_listed_links(page@, channel.scrape_type) matches Ok(links)
                && string_views(v@) == final_urls(links, channel.scrape_type),
            Err(e) => spec_get_listed_links(page@, channel.scrape_type) == Err::<Seq<Seq<char>>, NewsErrorView>(e@),
        },
{
    match get_listed_links(channel.scrape_type, page) {
        Ok(urls) => Ok(finalize_links(&urls, channel.scrape_type)),
        Err(e) => Err(e),
    }
}

/// The embed to announce for a post: the one read from its page, or, when
/// that failed, the fail-over embed together with the error to report.
pub fn embed_or_fail_over(read: Result<EmbedData, NewsError>, url: &str, scrape_type: ScrapeType) -> (r: (EmbedData, Option<NewsError>))
    ensures
        match read {
            Ok(e) => r.0 == e && r.1 is None,
            Err(e) => r.1 == Some(e) && r.0.url@ == url@ && r.0.scrape_type == scrape_type
                && r.0.title@ == Seq::<char>::empty() && r.0.preview_text@ == Seq::<char>::empty()
                && r.0.img_url@ == crate::embed::EMPTY_IMG@,
        },
{
    match read {
        Ok(e) => (e, None),
        Err(e) => (EmbedData::fail_over(url, scrape_type), Some(e)),
    }
}

} // verus!
