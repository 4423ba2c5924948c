use wt_event_handler::error::{error_report_title, report_has_details};
use wt_event_handler::webhook_handler::{announcement_content, test_hook_message};
use wt_event_handler::scrapers::html_processing::embed_or_fail_over;
use wt_event_handler::embed::EmbedData;
use wt_event_handler::error::NewsError;
use wt_event_handler::fetch_loop::{content_actions, handle_err_decision, stops_after_round, time_out_source, waits_after_source, ErrAction, FailureKind, FailureReport, RequestFailure};
use wt_event_handler::json::recent as set_recent;
use wt_event_handler::json::sources::{Source, Sources};
use wt_event_handler::json::webhooks::{hook_name, uid_and_token, FilterType};
use wt_event_handler::json_to_structs::recent::{format_selector, Recent, RecentValue};
use wt_event_handler::recent::{target_position, Root, Target};
use wt_event_handler::scrapers::html_processing::{finalize_links, remove_known_links};
use wt_event_handler::scrapers::scraper_resources::resources::{format_into_final_url, ScrapeType};
use wt_event_handler::scrapers::wt_changelog::{changelog_choice, pinned};
use wt_event_handler::statistics::{Incr, Statistics};
use wt_event_handler::text::{parse_u64, words_of};
use wt_event_handler::timeout::Timeout;

#[test]
fn embed_escapes_spaces_in_image() {
    let e = EmbedData::new("t", "u", "https://a/b c d.png", "p", ScrapeType::Forum);
    assert_eq!(e.img_url, "https://a/b%20c%20d.png");
    assert_eq!(e.title, "t");
    let t = EmbedData::test();
    assert_eq!(t.title, "This is a test message");
    assert_eq!(t.scrape_type, ScrapeType::Main);
}

#[test]
fn scrape_type_rules() {
    assert_eq!(ScrapeType::infer_from_url("https://warthunder.com/en/game/changelog/current/1352"), ScrapeType::Changelog);
    assert_eq!(ScrapeType::infer_from_url("https://warthunder.com/en/news/1"), ScrapeType::Main);
    assert_eq!(ScrapeType::infer_from_url("https://forum.warthunder.org/x"), ScrapeType::Forum);
    assert_eq!(ScrapeType::Forum.to_string(), "Forum news");
    assert_eq!(ScrapeType::Main.to_string(), "News");
    assert_eq!(ScrapeType::Changelog.to_string(), "Changelog");
    assert_eq!(format_into_final_url("/en/news/1", ScrapeType::Main), "https://warthunder.com/en/news/1");
    assert_eq!(format_into_final_url("https://forum/x", ScrapeType::Forum), "https://forum/x");
}

#[test]
fn statistics_count_and_reset() {
    let mut s = Statistics::new();
    s.increment(Incr::FetchCounter);
    s.increment(Incr::FetchCounter);
    s.increment(Incr::Errors);
    assert_eq!(s.fetch_counter, 2);
    assert_eq!(s.errors, 1);
    assert_eq!(s.post_counter, 0);
    assert_eq!(s.to_string(), "Fetch count: 2\nPosted news: 0\nNew news: 0\nIssues handled: 1\nSources timed out: 0\n\t\t\t\t\t");
    s.reset();
    assert_eq!(s.fetch_counter + s.errors, 0);
}

#[test]
fn timeouts_block_until_time() {
    let mut t = Timeout::new();
    assert!(!t.is_timed_out("a"));
    t.time_out("a".to_string(), 100);
    assert!(t.is_timed_out_at("a", 99));
    assert!(!t.is_timed_out_at("a", 100));
    assert!(!t.is_timed_out_at("b", 0));
    t.time_out("b".to_string(), i64::MAX);
    assert!(t.is_timed_out("b"));
    t.time_out("c".to_string(), 0);
    assert!(!t.is_timed_out("c"));
}

#[test]
fn sources_track_urls() {
    let mut s = Sources::new();
    assert_eq!(s.sources.len(), 5);
    assert_eq!(s.sources[2].name, "forums_updates_information");
    assert_eq!(Sources::id_from_name("forums_project_news"), 3);
    assert_eq!(Sources::id_from_name("unknown"), 0);
    for (i, src) in s.sources.iter().enumerate() {
        assert_eq!(Sources::id_from_name(&src.name) as usize, i);
    }
    let src: &mut Source = &mut s.sources[0];
    assert!(src.is_new("u1"));
    src.store_recent(&vec!["u1".to_string(), "u2".to_string()]);
    assert!(!src.is_new("u1"));
    src.store_recent_at(&vec!["u3".to_string()], 7);
    assert!(!src.is_new("u3"));
    s.sources[1].store_recent(&vec!["u2".to_string()]);
    let found = s.debug_remove_tracked_urls(&vec!["u2".to_string(), "u9".to_string(), "u2".to_string()]);
    assert_eq!(found, vec![true, false, false]);
    assert!(s.sources[0].is_new("u2"));
    assert!(s.sources[1].is_new("u2"));
    assert!(!s.sources[0].is_new("u1"));
}

#[test]
fn known_links_are_removed() {
    let mut s = Sources::new();
    s.sources[0].store_recent_at(&vec!["b".to_string()], 1);
    let left = remove_known_links(&s.sources[0], vec!["a".to_string(), "b".to_string(), "c".to_string()]);
    assert_eq!(left, vec!["a".to_string(), "c".to_string()]);
    let fin = finalize_links(&vec!["/x".to_string()], ScrapeType::Changelog);
    assert_eq!(fin, vec!["https://warthunder.com/x".to_string()]);
}

#[test]
fn set_sources_track_urls() {
    let mut s = set_recent::Sources {
        sources: vec![set_recent::Source {
            name: "n".to_string(),
            domain: "d".to_string(),
            scrape_type: ScrapeType::Main,
            tracked_urls: vstd::hash_set::StringHashSet::new(),
        }],
    };
    s.sources[0].store_recent(&vec!["x".to_string()]);
    assert!(!s.sources[0].is_new("x"));
    s.debug_remove_tracked_urls(&vec!["x".to_string()]);
    assert!(s.sources[0].is_new("x"));
}

fn value(urls: &[&str]) -> RecentValue {
    RecentValue {
        domain: "d".to_string(),
        selector: "li:nth-child( ) > a".to_string(),
        pin: "li:nth-child( ) > .pin".to_string(),
        recent_url: urls.iter().map(|s| s.to_string()).collect(),
    }
}

#[test]
fn recent_records() {
    let mut r = Recent {
        warthunder_news: value(&[]),
        warthunder_changelog: value(&["c1"]),
        forums_updates_information: value(&[]),
        forums_project_news: value(&[]),
    };
    assert!(r.warthunder_news.is_outdated("n1"));
    r.append_latest_warthunder_news("n1");
    assert!(!r.warthunder_news.is_outdated("n1"));
    r.append_latest_warthunder_forums_project_news("p");
    assert_eq!(r.forums_project_news.recent_url, vec!["p".to_string()]);
    let top = vec!["c1".to_string(), "c2".to_string()];
    assert_eq!(pinned(&r, &top), "c2");
    assert_eq!(changelog_choice(&r, &top, &Some("widget__pin".to_string())), Some("c2".to_string()));
    assert_eq!(changelog_choice(&r, &top, &Some("other".to_string())), Some("c1".to_string()));
    assert_eq!(changelog_choice(&r, &top, &None), None);
    assert_eq!(format_selector(&r.warthunder_news, "pin", 3), Some("li:nth-child(3)".to_string()));
    assert_eq!(format_selector(&r.warthunder_news, "selector", 12), Some("li:nth-child(12)".to_string()));
    assert_eq!(format_selector(&r.warthunder_news, "other", 1), None);
}

#[test]
fn target_lookup() {
    let root = Root {
        targets: vec![
            Target { name: "a".to_string(), recent_url: String::new(), domain: String::new() },
            Target { name: "b".to_string(), recent_url: String::new(), domain: String::new() },
        ],
    };
    assert_eq!(target_position(&root, "b"), Some(1));
    assert_eq!(target_position(&root, "c"), None);
}

#[test]
fn user_input_parsing() {
    assert_eq!(FilterType::from_user("2"), FilterType::Blacklist);
    assert_eq!(hook_name("news\n"), "news");
    assert_eq!(uid_and_token("https://discord.com/api/webhooks/123/tok\n"), Some((123, "tok".to_string())));
    assert_eq!(uid_and_token("https://discord.com/api/webhooks/x/tok\n"), None);
    assert_eq!(uid_and_token("short\n"), None);
    assert_eq!(parse_u64("+42"), Some(42));
    assert_eq!(parse_u64("18446744073709551615"), Some(u64::MAX));
    assert_eq!(parse_u64("18446744073709551616"), None);
    assert_eq!(parse_u64(""), None);
    assert_eq!(words_of("  a bc\t d\n"), vec!["a".to_string(), "bc".to_string(), "d".to_string()]);
}

fn flags() -> RequestFailure {
    RequestFailure {
        is_builder: false,
        is_redirect: false,
        is_status: false,
        is_timeout: false,
        is_request: false,
        is_connect: false,
        is_body: false,
        is_decode: false,
    }
}

#[test]
fn failures_are_classified() {
    let mut f = flags();
    f.is_timeout = true;
    let r = FailureReport { kind: FailureKind::Request(f), status: None, message: "m".to_string() };
    match handle_err_decision(&r) {
        ErrAction::TimeOut { send, message } => {
            assert!(!send);
            assert_eq!(message, "no status code related error was returned and initiated: reqwest_timeout: m");
        }
        ErrAction::Crash => panic!(),
    }
    let mut f = flags();
    f.is_status = true;
    let r = FailureReport { kind: FailureKind::Request(f), status: Some("404 Not Found".to_string()), message: "e".to_string() };
    match handle_err_decision(&r) {
        ErrAction::TimeOut { send, message } => {
            assert!(send);
            assert_eq!(message, "status: 404 Not Found was returned and initiated: reqwest_bad_status_e: e");
        }
        ErrAction::Crash => panic!(),
    }
    let r = FailureReport { kind: FailureKind::NoUrlOnPost, status: None, message: String::new() };
    assert!(matches!(handle_err_decision(&r), ErrAction::TimeOut { send: true, .. }));
    let r = FailureReport { kind: FailureKind::Other, status: None, message: String::new() };
    assert!(matches!(handle_err_decision(&r), ErrAction::Crash));
}

#[test]
fn time_out_source_blocks() {
    let mut t = Timeout::new();
    let (then, err) = time_out_source(&mut t, "s".to_string(), ScrapeType::Main, "m".to_string(), 1000);
    assert_eq!(then, 2800);
    assert!(t.is_timed_out_at("s", 2799));
    assert_eq!(err.to_string(), "SourceTimeout: Source 'News' timed out and will not be fetched until <t:2800>. \nError message: \"m\"");
}

#[test]
fn loop_decisions() {
    let a = content_actions(true, false, true);
    assert!(!a.post && a.store && a.count_new);
    let a = content_actions(false, true, true);
    assert!(!a.post && !a.store && !a.count_new);
    assert!(!waits_after_source(true));
    assert!(stops_after_round(true, false));
    assert!(!stops_after_round(true, true));
}

#[test]
fn error_messages() {
    assert_eq!(NewsError::BadSelector("x".to_string()).to_string(), "BadSelector: The selector 'x' failed to parse");
    assert_eq!(NewsError::SelectedNothing("a".to_string(), "u".to_string()).to_string(), "SelectedNothing: Selector: 'a' found no item.\nDocument: u");
    assert_eq!(NewsError::MetaCannotBeScraped(ScrapeType::Forum, "u".to_string()).to_string(), "MetaCannotBeScraped: The meta data for 'Forum news' cannot be collected, falling back to defaults");
    assert_eq!(NewsError::SourceTimeout(ScrapeType::Main, "m".to_string(), -5).to_string(), "SourceTimeout: Source 'News' timed out and will not be fetched until <t:-5>. \nError message: \"m\"");
    assert_eq!(NewsError::MonthParse("Foo".to_string()).to_string(), "MonthParse: 'Foo' failed to parse into month");
    assert_eq!(NewsError::NoUrlOnPost("a".to_string(), "b".to_string()).to_string(), "NoUrlOnPost: a returned a document, but no URL was found.\nDocument: b");
}

#[test]
fn report_and_message_texts() {
    assert_eq!(error_report_title(true), "A recoverable error occurred");
    assert_eq!(error_report_title(false), "A non-recoverable error occurred");
    assert!(report_has_details("x"));
    assert!(!report_has_details(""));
    assert_eq!(announcement_content("https://u"), "[https://u]()");
    assert_eq!(test_hook_message("bot"), "Webhook bot was successfully created");
}

#[test]
fn fail_over_embed() {
    let (e, err) = embed_or_fail_over(Err(NewsError::BadSelector("s".to_string())), "https://p", ScrapeType::Forum);
    assert_eq!(e.url, "https://p");
    assert_eq!(e.title, "");
    assert!(matches!(err, Some(NewsError::BadSelector(_))));
    let (e, err) = embed_or_fail_over(Ok(EmbedData::test()), "https://p", ScrapeType::Forum);
    assert_eq!(e.title, "This is a test message");
    assert!(err.is_none());
}
