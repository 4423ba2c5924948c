pub mod scraper_resources;
pub mod scrape_meta;
pub mod html_processing;
pub mod pin_scan;
pub mod wt_news;
pub mod forum_scraper;
pub mod forum_news_project_news;
pub mod wt_changelog;
