use wt_event_handler::json::webhooks::FilterType;
use wt_event_handler::json::webhooks::FilterType::{Blacklist, Whitelist};
use wt_event_handler::json::webhooks::{Hooks, WebhookAuth};
use wt_event_handler::scrapers::scraper_resources::resources::ScrapeType;
use wt_event_handler::webhook_handler::{default_keyword_list, filter_forum, filter_main, match_filter, recipients};

fn letters(v: &[&str]) -> Vec<String> {
    v.iter().map(|s| s.to_string()).collect()
}

// Main tests -------------------------------------------------------------------
#[test]
fn main_test_filter_default_pass() {
    assert_eq!(match_filter("pass", &Hooks {
        name: "".to_string(),
        token: "".to_string(),
        uid: 0,
        main_filter: FilterType::default(),
        forum_filter: FilterType::default(),
        main_keywords: vec![],
        forum_keywords: vec![],
    }, ScrapeType::Main), true)
}

#[test]
fn main_test_filter_default_no_match() {
    assert_eq!(match_filter("xyz", &Hooks {
        name: "".to_string(),
        token: "".to_string(),
        uid: 0,
        main_filter: FilterType::default(),
        forum_filter: FilterType::default(),
        main_keywords: vec![],
        forum_keywords: vec![],
    }, ScrapeType::Main), false);
}

#[test]
fn main_test_filter_whitelist_match() {
    assert_eq!(match_filter("C", &Hooks {
        name: "".to_string(),
        token: "".to_string(),
        uid: 0,
        main_filter: Whitelist,
        forum_filter: Blacklist,
        main_keywords: vec!["A".to_owned(), "B".to_owned(), "C".to_owned(), "D".to_owned()],
        forum_keywords: vec!["W".to_owned(), "X".to_owned(), "Y".to_owned(), "Z".to_owned()],
    }, ScrapeType::Main), true);
}

#[test]
#[should_panic]
fn main_test_filter_whitelist_miss() {
    assert_eq!(match_filter("E", &Hooks {
        name: "".to_string(),
        token: "".to_string(),
        uid: 0,
        main_filter: Whitelist,
        forum_filter: Whitelist,
        main_keywords: vec!["A".to_owned(), "B".to_owned(), "C".to_owned(), "D".to_owned()],
        forum_keywords: vec!["W".to_owned(), "X".to_owned(), "Y".to_owned(), "Z".to_owned()],
    }, ScrapeType::Main), true);
}

#[test]
#[should_panic]
fn main_test_filter_blacklist_match() {
    assert_eq!(match_filter("C", &Hooks {
        name: "".to_string(),
        token: "".to_string(),
        uid: 0,
        main_filter: Blacklist,
        forum_filter: Blacklist,
        main_keywords: vec!["A".to_owned(), "B".to_owned(), "C".to_owned(), "D".to_owned()],
        forum_keywords: vec!["A".to_owned(), "B".to_owned(), "C".to_owned(), "D".to_owned()],
    }, ScrapeType::Main), true);
}

#[test]
fn main_test_filter_blacklist_miss() {
    assert_eq!(match_filter("E", &Hooks {
        name: "".to_string(),
        token: "".to_string(),
        uid: 0,
        main_filter: Blacklist,
        forum_filter: Blacklist,
        main_keywords: vec!["A".to_owned(), "B".to_owned(), "C".to_owned(), "D".to_owned()],
        forum_keywords: vec!["A".to_owned(), "B".to_owned(), "C".to_owned(), "D".to_owned()],
    }, ScrapeType::Main), true);
}

// forum tests ------------------------------------------------------------------

#[test]
fn forum_test_filter_default_pass() {
    assert_eq!(match_filter("pass", &Hooks {
        name: "".to_string(),
        token: "".to_string(),
        uid: 0,
        main_filter: FilterType::default(),
        forum_filter: FilterType::default(),
        main_keywords: vec![],
        forum_keywords: vec![],
    }, ScrapeType::Forum), true)
}

#[test]
fn forum_test_filter_default_no_match() {
    assert_eq!(match_filter("xyz", &Hooks {
        name: "".to_string(),
        token: "".to_string(),
        uid: 0,
        main_filter: FilterType::default(),
        forum_filter: FilterType::default(),
        main_keywords: vec![],
        forum_keywords: vec![],
    }, ScrapeType::Forum), false);
}

#[test]
fn forum_test_filter_whitelist_match() {
    assert_eq!(match_filter("C", &Hooks {
        name: "".to_string(),
        token: "".to_string(),
        uid: 0,
        main_filter: Whitelist,
        forum_filter: Blacklist,
        main_keywords: vec!["A".to_owned(), "B".to_owned(), "C".to_owned(), "D".to_owned()],
        forum_keywords: vec!["W".to_owned(), "X".to_owned(), "Y".to_owned(), "Z".to_owned()],
    }, ScrapeType::Forum), true);
}

#[test]
fn forum_test_filter_whitelist_miss() {
    assert_eq!(match_filter("E", &Hooks {
        name: "".to_string(),
        token: "".to_string(),
        uid: 0,
        main_filter: Whitelist,
        forum_filter: Whitelist,
        main_keywords: vec!["A".to_owned(), "B".to_owned(), "C".to_owned(), "D".to_owned()],
        forum_keywords: vec!["W".to_owned(), "X".to_owned(), "Y".to_owned(), "Z".to_owned()],
    }, ScrapeType::Forum), false);
}

#[test]
fn forum_test_filter_blacklist_match() {
    assert_eq!(match_filter("C", &Hooks {
        name: "".to_string(),
        token: "".to_string(),
        uid: 0,
        main_filter: Blacklist,
        forum_filter: Blacklist,
        main_keywords: vec!["A".to_owned(), "B".to_owned(), "C".to_owned(), "D".to_owned()],
        forum_keywords: vec!["A".to_owned(), "B".to_owned(), "C".to_owned(), "D".to_owned()],
    }, ScrapeType::Forum), false);
}

#[test]
fn forum_test_filter_blacklist_miss() {
    match_filter("E", &Hooks {
        name: "".to_string(),
        token: "".to_string(),
        uid: 0,
        main_filter: Blacklist,
        forum_filter: Blacklist,
        main_keywords: vec!["A".to_owned(), "B".to_owned(), "C".to_owned(), "D".to_owned()],
        forum_keywords: vec!["A".to_owned(), "B".to_owned(), "C".to_owned(), "D".to_owned()],
    }, ScrapeType::Forum);
}

// further cases -----------------------------------------------------------------

fn hook(main_filter: FilterType, forum_filter: FilterType, main: &[&str], forum: &[&str]) -> Hooks {
    Hooks {
        name: "h".to_string(),
        token: "t".to_string(),
        uid: 1,
        main_filter,
        forum_filter,
        main_keywords: letters(main),
        forum_keywords: letters(forum),
    }
}

#[test]
fn keywords_match_inside_urls() {
    let h = hook(Whitelist, Blacklist, &["devblog"], &["devblog"]);
    let url = "https://warthunder.com/en/news/1234-devblog-new-tank-en";
    assert!(filter_main(url, &h));
    assert!(!filter_forum(url, &h));
    assert!(match_filter(url, &h, ScrapeType::Changelog));
}

#[test]
fn whitelist_and_blacklist_are_complements() {
    for url in ["alpha", "beta", "gamma-beta", ""] {
        let w = hook(Whitelist, Whitelist, &["beta"], &[]);
        let b = hook(Blacklist, Blacklist, &["beta"], &[]);
        assert_eq!(filter_main(url, &w), !filter_main(url, &b));
    }
}

#[test]
fn empty_lists() {
    let h = hook(Blacklist, Whitelist, &[], &[]);
    assert!(filter_main("anything", &h));
    assert!(!filter_forum("anything", &h));
}

#[test]
fn default_keywords_are_thirty() {
    let k = default_keyword_list();
    assert_eq!(k.len(), 30);
    assert_eq!(k[0], "devblog");
    assert_eq!(k[29], "camouflages");
    let h = hook(FilterType::Default, FilterType::Default, &["zzz"], &[]);
    assert!(filter_main("https://x/christmas-sale", &h));
    assert!(!filter_main("https://x/zzz", &h));
}

#[test]
fn recipients_follow_filters() {
    let auth = WebhookAuth {
        hooks: vec![
            hook(Whitelist, Whitelist, &["event"], &["event"]),
            hook(Blacklist, Blacklist, &["event"], &["event"]),
            hook(FilterType::Default, FilterType::Default, &[], &[]),
        ],
    };
    assert_eq!(recipients(&auth, "https://x/event-1", true, ScrapeType::Main), vec![0, 2]);
    assert_eq!(recipients(&auth, "https://x/other", true, ScrapeType::Main), vec![1]);
    assert_eq!(recipients(&auth, "https://x/other", false, ScrapeType::Main), vec![0, 1, 2]);
}
