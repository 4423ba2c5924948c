use wt_event_handler::error::NewsError;
use wt_event_handler::scrapers::scrape_meta::{get_next_selector, sanitize_html, scrape_meta, scrape_news_image};
use wt_event_handler::scrapers::scraper_resources::html_util::{format_selector, Page};
use wt_event_handler::scrapers::scraper_resources::resources::{get_listed_links, ScrapeType};

#[test]
fn test_html_sanitization() {
    static RAW: &str = r#"Together with <a href="https://warthunder.com/en/news/7583-development-dagor-engine-6-5-zoom-in-enhance-it-en">texture upscaling</a> and <a href="https://warthunder.com/en/news/7585-development-dagor-engine-6-5-new-surface-rendering-en">new surface rendering options</a>, the new version of the War Thunder graphic engine brings numerous minor features and improvements. Meet new visuals coming soon in the “Wind of Change” update!"#;
    static ESCAPED: &str = r#"Together with [texture upscaling](https://warthunder.com/en/news/7583-development-dagor-engine-6-5-zoom-in-enhance-it-en)  and [new surface rendering options](https://warthunder.com/en/news/7585-development-dagor-engine-6-5-new-surface-rendering-en) , the new version of the War Thunder graphic engine brings numerous minor features and improvements. Meet new visuals coming soon in the “Wind of Change” update!"#;

    assert_eq!(sanitize_html(RAW), ESCAPED);
}

#[test]
fn sanitize_drops_tags_without_links() {
    assert_eq!(sanitize_html("<b>bold</b> text"), "bold text");
    assert_eq!(sanitize_html("plain"), "plain");
    assert_eq!(sanitize_html(""), "");
}

#[test]
fn sanitize_ignores_links_without_https() {
    assert_eq!(sanitize_html(r#"see <a href="http://x">here</a>"#), "see \u{1F986} here");
}

const POST: &str = r#"<html><head><title>t</title><meta charset="utf-8"><meta name="a" content="x"><meta name="b" content="y"><meta name="title" content="Forum title"><meta name="c" content="z"><meta name="d" content="w"><meta name="preview" content="Forum preview"></head><body><p>short</p><p>A <a href="https://warthunder.com/en/news/1">first link</a> here</p><img src="https://img/a b.png"></body></html>"#;

#[test]
fn forum_meta_is_read_from_head() {
    let page = Page::new(POST);
    let e = scrape_meta(&page, ScrapeType::Forum, "https://forum/post").unwrap();
    assert_eq!(e.title, "Forum title");
    assert_eq!(e.preview_text, "Forum preview");
    assert_eq!(e.img_url, "");
    assert_eq!(e.url, "https://forum/post");
}

#[test]
fn main_meta_needs_thirteen_head_elements() {
    let page = Page::new(POST);
    match scrape_meta(&page, ScrapeType::Main, "https://site/post") {
        Err(NewsError::SelectedNothing(sel, url)) => {
            assert_eq!(sel, "head>meta:nth-child(13)");
            assert_eq!(url, "https://site/post");
        }
        other => panic!("unexpected {:?}", other),
    }
}

#[test]
fn next_selector_skips_short_paragraphs() {
    let page = Page::new(POST);
    let p = get_next_selector(&page, "p", ScrapeType::Main, "u").unwrap();
    assert_eq!(p, r#"A <a href="https://warthunder.com/en/news/1">first link</a> here"#);
    match get_next_selector(&page, "h1", ScrapeType::Main, "u") {
        Err(NewsError::MetaCannotBeScraped(ScrapeType::Main, url)) => assert_eq!(url, "u"),
        other => panic!("unexpected {:?}", other),
    }
}

#[test]
fn news_image_falls_back_to_img_source() {
    let page = Page::new(POST);
    assert_eq!(scrape_news_image(&page).unwrap(), "https://img/a b.png");
    let page = Page::new(r#"<html><head><meta name="twitter:image" content="https://warthunder.com/upload/image//!/x.jpg"><meta name="og" content="https://warthunder.com/upload/image//!/y.jpg"></head></html>"#);
    assert_eq!(scrape_news_image(&page).unwrap(), "https://warthunder.com/upload/image//!/y.jpg");
}

#[test]
fn bad_selector_is_reported() {
    match format_selector("[[[") {
        Err(NewsError::BadSelector(s)) => assert_eq!(s, "[[["),
        _ => panic!("selector should not parse"),
    }
    assert!(format_selector("div > a").is_ok());
}

#[test]
fn forum_listing_links() {
    let page = Page::new(r#"<html><body><main><div><div><div><div>x</div><div><div><ol>
        <li><div><h4><div><a href="https://forum/1">one</a></div></h4></div></li>
        <li><div><h4><div><span>none</span></div></h4></div></li>
        <li><div><h4><div><a href="https://forum/2">two</a></div></h4></div></li>
        </ol></div></div></div></div></main></body></html>"#);
    let links = get_listed_links(ScrapeType::Forum, &page).unwrap();
    assert_eq!(links, vec!["https://forum/1".to_string(), "https://forum/2".to_string()]);
}

#[test]
fn empty_listing_has_no_links() {
    let page = Page::new("<html><body></body></html>");
    assert_eq!(get_listed_links(ScrapeType::Main, &page).unwrap(), Vec::<String>::new());
}

#[test]
fn plain_text_is_unchanged() {
    assert_eq!(sanitize_html("no tags at all, just text"), "no tags at all, just text");
}

#[test]
fn changelog_meta_uses_fixed_preview() {
    let mut head = String::from("<html><head>");
    for i in 0..13 {
        head.push_str(&format!("<meta name=\"m{i}\" content=\"c{i}\">"));
    }
    head.push_str("</head><body><img src=\"https://img/x.png\"></body></html>");
    let page = Page::new(&head);
    let e = scrape_meta(&page, ScrapeType::Changelog, "https://warthunder.com/en/game/changelog/1").unwrap();
    assert!(e.title.starts_with('c'));
    assert_eq!(e.img_url, "https://img/x.png");
    assert!(e.preview_text.starts_with("The current provided changelog reflects"));
}
