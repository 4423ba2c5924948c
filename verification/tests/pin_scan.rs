use wt_event_handler::json::webhooks::{filters_from_line, FilterType};
use wt_event_handler::json_to_structs::recent::{Recent, RecentValue};
use wt_event_handler::scrapers::forum_news_project_news::first_unpinned_project_news_url;
use wt_event_handler::scrapers::forum_scraper::first_unpinned_forum_url;
use wt_event_handler::scrapers::pin_scan::{numbered_text, PinScanError};
use wt_event_handler::scrapers::scraper_resources::html_util::Page;
use wt_event_handler::scrapers::wt_changelog::changelog_from_page;
use wt_event_handler::scrapers::wt_news::first_unpinned_news_url;

fn news_page(items: &str) -> Page {
    let html = format!(
        "<html><body id=\"bodyRoot\"><div class=\"content\"><div></div><div><div><div><section><div>\
         <div class=\"showcase__content-wrapper\">{}</div></div></section></div></div></div></div></body></html>",
        items
    );
    Page::new(&html)
}

fn project_page(items: &str) -> Page {
    let html = format!(
        "<html><body><main><div><div><div><div></div><div><div><ol>{}</ol></div></div></div></div></div></main></body></html>",
        items
    );
    Page::new(&html)
}

fn changelog_page(items: &str) -> Page {
    let html = format!(
        "<html><body id=\"bodyRoot\"><div class=\"content\"><div></div><div><div></div><div><div><section><div>\
         <div class=\"showcase__content-wrapper\">{}</div></div></section></div></div></div></div></body></html>",
        items
    );
    Page::new(&html)
}

fn value(pin: &str, selector: &str, urls: Vec<&str>) -> RecentValue {
    RecentValue {
        domain: "https://forum.example/".to_string(),
        selector: selector.to_string(),
        pin: pin.to_string(),
        recent_url: urls.into_iter().map(|u| u.to_string()).collect(),
    }
}

fn recent_with_changelogs(urls: Vec<&str>) -> Recent {
    Recent {
        warthunder_news: value("a b", "a b", vec![]),
        warthunder_changelog: value("a b", "a b", urls),
        forums_updates_information: value("a b", "a b", vec![]),
        forums_project_news: value("a b", "a b", vec![]),
    }
}

#[test]
fn numbered_selector_text() {
    assert_eq!(numbered_text("li:nth-child(", 12, ")"), "li:nth-child(12)");
}

#[test]
fn news_skips_pinned_items() {
    let page = news_page(
        "<div><div class=\"widget__pin\"></div><a class=\"widget__link\" href=\"/en/news/1\"></a></div>\
         <div><a class=\"widget__link\" href=\"/en/news/2\"></a></div>",
    );
    let r = first_unpinned_news_url(&page).unwrap();
    assert_eq!(r, Some("https://warthunder.com/en/news/2".to_string()));
}

#[test]
fn news_first_item_unpinned() {
    let page = news_page("<div><a class=\"widget__link\" href=\"/en/news/7\"></a></div>");
    assert_eq!(first_unpinned_news_url(&page).unwrap(), Some("https://warthunder.com/en/news/7".to_string()));
}

#[test]
fn news_gives_up_after_limit() {
    let item = "<div><div class=\"widget__pin\"></div><a class=\"widget__link\" href=\"/x\"></a></div>";
    let page = news_page(&item.repeat(20));
    assert!(matches!(first_unpinned_news_url(&page), Err(PinScanError::PinLimitExceeded)));
    let page = news_page(&format!("{}<div><a class=\"widget__link\" href=\"/last\"></a></div>", item.repeat(19)));
    assert_eq!(first_unpinned_news_url(&page).unwrap(), Some("https://warthunder.com/last".to_string()));
}

#[test]
fn news_without_link_or_href() {
    let page = news_page("<div><span></span></div>");
    assert_eq!(first_unpinned_news_url(&page).unwrap(), None);
    let page = news_page("<div><a class=\"widget__link\"></a></div>");
    match first_unpinned_news_url(&page) {
        Err(PinScanError::MissingAttribute(a)) => assert_eq!(a, "href"),
        other => panic!("unexpected {:?}", other),
    }
}

#[test]
fn project_news_skips_pinned_threads() {
    let page = project_page(
        "<li class=\"thread pinned\"><div><h4><div><a href=\"https://forum/t/1\"></a></div></h4></div></li>\
         <li class=\"thread\"><div><h4><div><a href=\"https://forum/t/2\"></a></div></h4></div></li>",
    );
    assert_eq!(first_unpinned_project_news_url(&page).unwrap(), Some("https://forum/t/2".to_string()));
}

#[test]
fn project_news_stops_on_missing_items() {
    let page = project_page("");
    assert!(matches!(first_unpinned_project_news_url(&page), Err(PinScanError::NoListItem(1))));
    let page = project_page("<li class=\"pinned\"></li>");
    assert!(matches!(first_unpinned_project_news_url(&page), Err(PinScanError::NoListItem(2))));
    let page = project_page("<li></li>");
    match first_unpinned_project_news_url(&page) {
        Err(PinScanError::MissingAttribute(a)) => assert_eq!(a, "class"),
        other => panic!("unexpected {:?}", other),
    }
}

#[test]
fn forum_uses_selector_templates() {
    let page = Page::new(
        "<html><body><ol><li class=\"pinned\"><a href=\"u1\"></a></li><li class=\"normal\"><a href=\"u2\"></a></li></ol></body></html>",
    );
    let v = value("ol>li:nth-child( )", "ol>li:nth-child( )>a", vec![]);
    assert_eq!(first_unpinned_forum_url(&v, &page).unwrap(), Some("u2".to_string()));
}

#[test]
fn forum_reports_bad_selector() {
    let page = Page::new("<html><body></body></html>");
    let v = value("ol>li:nth-child(( )", "a b", vec![]);
    match first_unpinned_forum_url(&v, &page) {
        Err(PinScanError::BadSelector(s)) => assert_eq!(s, "ol>li:nth-child((1)"),
        other => panic!("unexpected {:?}", other),
    }
}

#[test]
fn changelog_from_page_choices() {
    let items = "<div><div class=\"widget__pin\"></div><a href=\"/c/1\"></a></div><div><a href=\"/c/2\"></a></div>";
    let page = changelog_page(items);
    let fresh = recent_with_changelogs(vec![]);
    assert_eq!(changelog_from_page(&fresh, &page).unwrap(), Some("https://warthunder.com/c/1".to_string()));
    let seen = recent_with_changelogs(vec!["https://warthunder.com/c/1"]);
    assert_eq!(changelog_from_page(&seen, &page).unwrap(), Some("https://warthunder.com/c/2".to_string()));
    let other_class = changelog_page(
        "<div><div class=\"widget__pin other\"></div><a href=\"/c/1\"></a></div><div><a href=\"/c/2\"></a></div>",
    );
    assert_eq!(changelog_from_page(&seen, &other_class).unwrap(), Some("https://warthunder.com/c/1".to_string()));
    let unpinned = changelog_page("<div><a href=\"/c/1\"></a></div><div><a href=\"/c/2\"></a></div>");
    assert_eq!(changelog_from_page(&fresh, &unpinned).unwrap(), None);
    let one = changelog_page("<div><div class=\"widget__pin\"></div><a href=\"/c/1\"></a></div>");
    assert_eq!(changelog_from_page(&fresh, &one).unwrap(), None);
}

#[test]
fn filter_line_forms() {
    assert_eq!(filters_from_line("1 2\n"), Some((FilterType::Default, FilterType::Blacklist)));
    assert_eq!(filters_from_line("3 1"), Some((FilterType::Whitelist, FilterType::Default)));
    assert_eq!(filters_from_line("  2\t3  "), Some((FilterType::Blacklist, FilterType::Whitelist)));
    assert_eq!(filters_from_line("1"), None);
    assert_eq!(filters_from_line("12"), None);
    assert_eq!(filters_from_line("1 4"), None);
    assert_eq!(filters_from_line("1 2 3"), None);
}

#[test]
fn append_keeps_selectors() {
    let mut r = recent_with_changelogs(vec![]);
    r.warthunder_changelog.selector = "s t".to_string();
    r.warthunder_changelog.pin = "p q".to_string();
    r.append_latest_warthunder_changelog("https://u");
    assert_eq!(r.warthunder_changelog.recent_url, vec!["https://u".to_string()]);
    assert_eq!(r.warthunder_changelog.selector, "s t");
    assert_eq!(r.warthunder_changelog.pin, "p q");
}
