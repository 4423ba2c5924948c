//! The content of a Discord embed announcing one post.

use vstd::prelude::*;
use crate::scrapers::scraper_resources::resources::ScrapeType;
use crate::text::{chars_of, string_of};

verus! {

/// The image used when a post offers none.
pub const EMPTY_IMG: &'static str = "";

/// Everything an announcement shows about a post.
#[derive(Clone, Debug)]
pub struct EmbedData {
    pub scrape_type: ScrapeType,
    pub title: String,
    pub url: String,
    pub img_url: String,
    pub preview_text: String,
}

/// `s` with every space replaced by `%20`.
pub open spec fn escape_spaces(s: Seq<char>) -> Seq<char>
    decreases s.len(),
{
    if s.len() == 0 {
        seq![]
    } else {
        escape_spaces(s.drop_last()) + if s.last() == ' ' {
            seq!['%', '2', '0']
        } else {
            seq![s.last()]
        }
    }
}

/// Replaces every space of an URL by `%20`.
pub fn escape_spaces_exec(s: &str) -> (r: String)
    ensures
        r@ == escape_spaces(s@),
{
    let c = chars_of(s);
    let mut out: Vec<char> = Vec::new();
    let mut i: usize = 0;
    while i < c.len()
        invariant
            i <= c.len(),
            out@ == escape_spaces(c@.take(i as int)),
        decreases c.len() - i,
    {
        assert(c@.take(i + 1).drop_last() =~= c@.take(i as int));
        if c[i] == ' ' {
            out.push('%');
            out.push('2');
            out.push('0');
        } else {
            out.push(c[i]);
        }
        assert(out@ =~= escape_spaces(c@.take(i + 1)));
        i = i + 1;
    }
    assert(c@.take(i as int) =~= c@);
    string_of(&out)
}

impl EmbedData {
    /// An embed for a post; spaces in the image URL are escaped.
    pub fn new(title: &str, url: &str, img_url: &str, preview_text: &str, scrape_type: ScrapeType) -> (r: Self)
        ensures
            r.scrape_type == scrape_type,
            r.title@ == title@,
            r.url@ == url@,
            r.img_url@ == escape_spaces(img_url@),
            r.preview_text@ == preview_text@,
    {
        let sanitized_img_url = escape_spaces_exec(img_url);
        EmbedData {
            scrape_type,
            title: title.to_owned(),
            url: url.to_owned(),
            img_url: sanitized_img_url,
            preview_text: preview_text.to_owned(),
        }
    }

    /// The embed sent to check that a webhook client works.
    pub fn test() -> (r: Self)
        ensures
            r.scrape_type == ScrapeType::Main,
            r.title@ == "This is a test message"@,
            r.url@ == "https://github.com/Warthunder-Open-Source-Foundation/wt_event_handler"@,
            r.img_url@ == "https://avatars.githubusercontent.com/u/97326911?s=200&v=4"@,
            r.preview_text@ == "Test preview text"@,
    {
        EmbedData {
            scrape_type: ScrapeType::Main,
            title: "This is a test message".to_owned(),
            url: "https://github.com/Warthunder-Open-Source-Foundation/wt_event_handler".to_owned(),
            img_url: "https://avatars.githubusercontent.com/u/97326911?s=200&v=4".to_owned(),
            preview_text: "Test preview text".to_owned(),
        }
    }

    /// The embed used for a post whose page could not be read: its URL and
    /// kind, no title, the placeholder image and no preview.
    pub fn fail_over(url: &str, scrape_type: ScrapeType) -> (r: Self)
        ensures
            r.scrape_type == scrape_type,
            r.title@ == Seq::<char>::empty(),
            r.url@ == url@,
            r.img_url@ == EMPTY_IMG@,
            r.preview_text@ == Seq::<char>::empty(),
    {
        EmbedData {
            scrape_type,
            title: String::new(),
            url: url.to_owned(),
            img_url: EMPTY_IMG.to_owned(),
            preview_text: String::new(),
        }
    }
}

} // verus!
