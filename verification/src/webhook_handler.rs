//! Keyword filters deciding which webhook clients receive a post.

use vstd::prelude::*;
use crate::json::webhooks::{FilterType, Hooks, WebhookAuth};
use crate::scrapers::scraper_resources::resources::ScrapeType;
use crate::text::{chars_of, contains_chars, contains_seq, push_str_chars, string_of};

verus! {

/// The built-in keywords of the default filter.
pub open spec fn default_keywords() -> Seq<Seq<char>> {
    seq![
        "devblog"@, "event"@, "maintenance"@, "major"@, "trailer"@, "teaser"@, "developers"@,
        "fix"@, "vehicles"@, "economy"@, "changes"@, "sale"@, "twitch"@, "bundles"@, "development"@,
        "shop"@, "pass"@, "season"@, "operation"@, "pass"@, "summer"@, "2022"@, "planned"@, "bonds"@,
        "issues"@, "technical"@, "servers"@, "christmas"@, "market"@, "camouflages"@
    ]
}

/// Some keyword of `keywords` occurs in `content`.
pub open spec fn matches_any(content: Seq<char>, keywords: Seq<Seq<char>>) -> bool {
    exists|i: int| 0 <= i < keywords.len() && contains_seq(content, #[trigger] keywords[i])
}

/// Whether a filter lets `content` through, given the client's own keywords.
pub open spec fn filter_passes(filter: FilterType, content: Seq<char>, keywords: Seq<Seq<char>>) -> bool {
    match filter {
        FilterType::Default => matches_any(content, default_keywords()),
        FilterType::Blacklist => keywords.len() == 0 || !matches_any(content, keywords),
        FilterType::Whitelist => matches_any(content, keywords),
    }
}

/// The default filter lets a post through exactly when its URL contains
/// one of the built-in keywords.
pub proof fn law_default_filter_keywords(content: Seq<char>, keywords: Seq<Seq<char>>)
    ensures
        filter_passes(FilterType::Default, content, keywords) <==> (
            contains_seq(content, "devblog"@)
            || contains_seq(content, "event"@)
            || contains_seq(content, "maintenance"@)
            || contains_seq(content, "major"@)
            || contains_seq(content, "trailer"@)
            || contains_seq(content, "teaser"@)
            || contains_seq(content, "developers"@)
            || contains_seq(content, "fix"@)
            || contains_seq(content, "vehicles"@)
            || contains_seq(content, "economy"@)
            || contains_seq(content, "changes"@)
            || contains_seq(content, "sale"@)
            || contains_seq(content, "twitch"@)
            || contains_seq(content, "bundles"@)
            || contains_seq(content, "development"@)
            || contains_seq(content, "shop"@)
            || contains_seq(content, "pass"@)
            || contains_seq(content, "season"@)
            || contains_seq(content, "operation"@)
            || contains_seq(content, "summer"@)
            || contains_seq(content, "2022"@)
            || contains_seq(content, "planned"@)
            || contains_seq(content, "bonds"@)
            || contains_seq(content, "issues"@)
            || contains_seq(content, "technical"@)
            || contains_seq(content, "servers"@)
            || contains_seq(content, "christmas"@)
            || contains_seq(content, "market"@)
            || contains_seq(content, "camouflages"@)
        ),
{
    let ks = default_keywords();
    assert(ks.len() == 30);
    assert(ks[0] == "devblog"@);
    assert(ks[1] == "event"@);
    assert(ks[2] == "maintenance"@);
    assert(ks[3] == "major"@);
    assert(ks[4] == "trailer"@);
    assert(ks[5] == "teaser"@);
    assert(ks[6] == "developers"@);
    assert(ks[7] == "fix"@);
    assert(ks[8] == "vehicles"@);
    assert(ks[9] == "economy"@);
    assert(ks[10] == "changes"@);
    assert(ks[11] == "sale"@);
    assert(ks[12] == "twitch"@);
    assert(ks[13] == "bundles"@);
    assert(ks[14] == "development"@);
    assert(ks[15] == "shop"@);
    assert(ks[16] == "pass"@);
    assert(ks[17] == "season"@);
    assert(ks[18] == "operation"@);
    assert(ks[19] == "pass"@);
    assert(ks[20] == "summer"@);
    assert(ks[21] == "2022"@);
    assert(ks[22] == "planned"@);
    assert(ks[23] == "bonds"@);
    assert(ks[24] == "issues"@);
    assert(ks[25] == "technical"@);
    assert(ks[26] == "servers"@);
    assert(ks[27] == "christmas"@);
    assert(ks[28] == "market"@);
    assert(ks[29] == "camouflages"@);
    if filter_passes(FilterType::Default, content, keywords) {
        let i = choose|i: int| 0 <= i < ks.len() && contains_seq(content, #[trigger] ks[i]);
        assert(0 <= i < 30);
    }
}

/// The views of a list of strings.
pub open spec fn string_views(v: Seq<String>) -> Seq<Seq<char>> {
    v.map_values(|s: String| s@)
}

/// Whether `hook` accepts a post with URL `content` of the given kind:
/// main-site and changelog posts go through the main filter, forum posts
/// through the forum filter.
pub open spec fn spec_match_filter(content: Seq<char>, hook: Hooks, scrape_type: ScrapeType) -> bool {
    match scrape_type {
        ScrapeType::Main | ScrapeType::Changelog => filter_passes(
            hook.main_filter,
            content,
            string_views(hook.main_keywords@),
        ),
        ScrapeType::Forum => filter_passes(
            hook.forum_filter,
            content,
            string_views(hook.forum_keywords@),
        ),
    }
}

/// The built-in keywords of the default filter.
pub fn default_keyword_list() -> (v: Vec<String>)
    ensures
        string_views(v@) == default_keywords(),
{
    let mut v: Vec<String> = Vec::new();
    v.push(String::from_str("devblog"));
    v.push(String::from_str("event"));
    v.push(String::from_str("maintenance"));
    v.push(String::from_str("major"));
    v.push(String::from_str("trailer"));
    v.push(String::from_str("teaser"));
    v.push(String::from_str("developers"));
    v.push(String::from_str("fix"));
    v.push(String::from_str("vehicles"));
    v.push(String::from_str("economy"));
    v.push(String::from_str("changes"));
    v.push(String::from_str("sale"));
    v.push(String::from_str("twitch"));
    v.push(String::from_str("bundles"));
    v.push(String::from_str("development"));
    v.push(String::from_str("shop"));
    v.push(String::from_str("pass"));
    v.push(String::from_str("season"));
    v.push(String::from_str("operation"));
    v.push(String::from_str("pass"));
    v.push(String::from_str("summer"));
    v.push(String::from_str("2022"));
    v.push(String::from_str("planned"));
    v.push(String::from_str("bonds"));
    v.push(String::from_str("issues"));
    v.push(String::from_str("technical"));
    v.push(String::from_str("servers"));
    v.push(String::from_str("christmas"));
    v.push(String::from_str("market"));
    v.push(String::from_str("camouflages"));
    assert(string_views(v@) =~= default_keywords());
    v
}

/// Whether some keyword occurs in `content`.
pub fn matches_any_keyword(content: &Vec<char>, keywords: &Vec<String>) -> (r: bool)
    ensures
        r == matches_any(content@, string_views(keywords@)),
{
    let mut i: usize = 0;
    while i < keywords.len()
        invariant
            i <= keywords.len(),
            forall|j: int| 0 <= j < i ==> !contains_seq(content@, #[trigger] string_views(keywords@)[j]),
        decreases keywords.len() - i,
    {
        let kw = chars_of(keywords[i].as_str());
        if contains_chars(content, &kw) {
            assert(contains_seq(content@, string_views(keywords@)[i as int]));
            return true;
        }
        i = i + 1;
    }
    false
}

/// Applies one filter to `content` with the client's keywords.
pub fn apply_filter(content: &Vec<char>, filter: FilterType, keywords: &Vec<String>) -> (r: bool)
    ensures
        r == filter_passes(filter, content@, string_views(keywords@)),
{
    match filter {
        FilterType::Default => {
            let defaults = default_keyword_list();
            matches_any_keyword(content, &defaults)
        },
        FilterType::Blacklist => {
            if keywords.len() == 0 {
                return true;
            }
            !matches_any_keyword(content, keywords)
        },
        FilterType::Whitelist => matches_any_keyword(content, keywords),
    }
}

/// Whether `hook` accepts a post with URL `content` of the given kind.
pub fn match_filter(content: &str, hook: &Hooks, scrape_type: ScrapeType) -> (r: bool)
    ensures
        r == spec_match_filter(content@, *hook, scrape_type),
{
    match scrape_type {
        ScrapeType::Main | ScrapeType::Changelog => filter_main(content, hook),
        ScrapeType::Forum => filter_forum(content, hook),
    }
}

/// Applies the client's main filter to `content`.
pub fn filter_main(content: &str, hook: &Hooks) -> (r: bool)
    ensures
        r == filter_passes(hook.main_filter, content@, string_views(hook.main_keywords@)),
{
    let c = chars_of(content);
    apply_filter(&c, hook.main_filter, &hook.main_keywords)
}

/// Applies the client's forum filter to `content`.
pub fn filter_forum(content: &str, hook: &Hooks) -> (r: bool)
    ensures
        r == filter_passes(hook.forum_filter, content@, string_views(hook.forum_keywords@)),
{
    let c = chars_of(content);
    apply_filter(&c, hook.forum_filter, &hook.forum_keywords)
}

/// Whether the client at `index` receives a post: every client does when the
/// post is unfiltered, otherwise only those whose filter accepts its URL.
pub open spec fn receives(
    hooks: Seq<Hooks>,
    index: int,
    url: Seq<char>,
    is_filtered: bool,
    scrape_type: ScrapeType,
) -> bool {
    !is_filtered || spec_match_filter(url, hooks[index], scrape_type)
}

/// The positions of the clients that receive a post with URL `url`, in order.
pub fn recipients(auth: &WebhookAuth, url: &str, is_filtered: bool, scrape_type: ScrapeType) -> (r: Vec<usize>)
    ensures
        forall|k: int| 0 <= k < r.len() ==> #[trigger] r@[k] < auth.hooks.len()
            && receives(auth.hooks@, r@[k] as int, url@, is_filtered, scrape_type),
        forall|k: int, l: int| 0 <= k < l < r.len() ==> r@[k] < r@[l],
        forall|i: int| 0 <= i < auth.hooks.len() && receives(auth.hooks@, i, url@, is_filtered, scrape_type)
            ==> r@.contains(i as usize),
{
    let mut out: Vec<usize> = Vec::new();
    let mut i: usize = 0;
    while i < auth.hooks.len()
        invariant
            i <= auth.hooks.len(),
            forall|k: int| 0 <= k < out.len() ==> #[trigger] out@[k] < i
                && receives(auth.hooks@, out@[k] as int, url@, is_filtered, scrape_type),
            forall|k: int, l: int| 0 <= k < l < out.len() ==> out@[k] < out@[l],
            forall|j: int| 0 <= j < i && receives(auth.hooks@, j, url@, is_filtered, scrape_type)
                ==> out@.contains(j as usize),
        decreases auth.hooks.len() - i,
    {
        let ghost prev = out@;
        let take = if is_filtered {
            match_filter(url, &auth.hooks[i], scrape_type)
        } else {
            true
        };
        if take {
            out.push(i);
        }
        proof {
            assert forall|j: int| 0 <= j < i + 1 && receives(auth.hooks@, j, url@, is_filtered, scrape_type)
                implies out@.contains(j as usize) by {
                if j == i {
                    assert(out@[out.len() - 1] == i);
                } else {
                    assert(prev.contains(j as usize));
                    let w = choose|w: int| 0 <= w < prev.len() && prev[w] == j as usize;
                    assert(out@[w] == j as usize);
                }
            }
        }
        i = i + 1;
    }
    out
}

/// A whitelist and a blacklist over the same keywords accept exactly
/// complementary sets of posts.
pub proof fn law_whitelist_blacklist_complement(content: Seq<char>, keywords: Seq<Seq<char>>)
    ensures
        filter_passes(FilterType::Whitelist, content, keywords) == !filter_passes(
            FilterType::Blacklist,
            content,
            keywords,
        ),
{
}

/// The default filter ignores the client's own keywords and behaves as a
/// whitelist of the built-in keywords.
pub proof fn law_default_is_builtin_whitelist(content: Seq<char>, keywords: Seq<Seq<char>>)
    ensures
        filter_passes(FilterType::Default, content, keywords) == filter_passes(
            FilterType::Whitelist,
            content,
            default_keywords(),
        ),
{
}

/// A post whose URL contains one of the keywords passes a whitelist of those
/// keywords and is refused by a blacklist of them.
pub proof fn law_keyword_hit(content: Seq<char>, keywords: Seq<Seq<char>>, i: int)
    requires
        0 <= i < keywords.len(),
        contains_seq(content, keywords[i]),
    ensures
        filter_passes(FilterType::Whitelist, content, keywords),
        !filter_passes(FilterType::Blacklist, content, keywords),
{
}

/// An empty blacklist accepts every post; an empty whitelist accepts none.
pub proof fn law_empty_lists(content: Seq<char>)
    ensures
        filter_passes(FilterType::Blacklist, content, Seq::empty()),
        !filter_passes(FilterType::Whitelist, content, Seq::empty()),
{
}

/// Adding a keyword never makes a whitelist refuse a post it accepted, nor
/// makes a blacklist accept a post it refused.
pub proof fn law_adding_keyword(content: Seq<char>, keywords: Seq<Seq<char>>, extra: Seq<char>)
    ensures
        filter_passes(FilterType::Whitelist, content, keywords) ==> filter_passes(
            FilterType::Whitelist,
            content,
            keywords.push(extra),
        ),
        !filter_passes(FilterType::Blacklist, content, keywords) ==> !filter_passes(
            FilterType::Blacklist,
            content,
            keywords.push(extra),
        ),
{
    if matches_any(content, keywords) {
        let i = choose|i: int| 0 <= i < keywords.len() && contains_seq(content, #[trigger] keywords[i]);
        assert(keywords.push(extra)[i] == keywords[i]);
    }
}

/// Main-site and changelog posts are judged by the same (main) filter, and
/// only the forum filter judges forum posts.
pub proof fn law_filter_choice(content: Seq<char>, hook: Hooks)
    ensures
        spec_match_filter(content, hook, ScrapeType::Main) == spec_match_filter(
            content,
            hook,
            ScrapeType::Changelog,
        ),
        spec_match_filter(content, hook, ScrapeType::Forum) == filter_passes(
            hook.forum_filter,
            content,
            string_views(hook.forum_keywords@),
        ),
{
}

/// The message text of an announcement: the post's URL as an empty link.
pub fn announcement_content(url: &str) -> (r: String)
    ensures
        r@ == seq!['['] + url@ + seq![']', '(', ')'],
{
    let mut out: Vec<char> = Vec::new();
    out.push('[');
    push_str_chars(&mut out, url);
    out.push(']');
    out.push('(');
    out.push(')');
    assert(out@ =~= seq!['['] + url@ + seq![']', '(', ')']);
    string_of(&out)
}

/// The message confirming that a new webhook client works.
pub fn test_hook_message(name: &str) -> (r: String)
    ensures
        r@ == "Webhook "@ + name@ + " was successfully created"@,
{
    let mut out: Vec<char> = Vec::new();
    push_str_chars(&mut out, "Webhook ");
    push_str_chars(&mut out, name);
    push_str_chars(&mut out, " was successfully created");
    assert(out@ =~= "Webhook "@ + name@ + " was successfully created"@);
    string_of(&out)
}

/// An unfiltered post reaches every client.
pub proof fn law_unfiltered_reaches_everyone(hooks: Seq<Hooks>, url: Seq<char>, scrape_type: ScrapeType)
    ensures
        forall|i: int| 0 <= i < hooks.len() ==> #[trigger] receives(hooks, i, url, false, scrape_type),
{
}

} // verus!
