//! The failures met while gathering news, and their messages.

use vstd::prelude::*;
use crate::scrapers::scraper_resources::resources::ScrapeType;
use crate::text::{push_signed_decimal, push_str_chars, signed_decimal, string_of};

verus! {

/// The failures met while gathering news.
#[derive(Debug, Clone)]
pub enum NewsError {
    /// The listing URL and the document in which no post URL was found.
    NoUrlOnPost(String, String),
    /// The kind of page and the URL of the post whose metadata is missing.
    MetaCannotBeScraped(ScrapeType, String),
    /// The kind of source, the error message and the time until which it is skipped.
    SourceTimeout(ScrapeType, String, i64),
    /// The selector that failed to parse.
    BadSelector(String),
    /// The month, in string form, that failed to parse.
    MonthParse(String),
    /// The selector (or attribute) that found nothing, and the document's URL.
    SelectedNothing(String, String),
}

/// The mathematical form of a [`NewsError`].
pub enum NewsErrorView {
    NoUrlOnPost(Seq<char>, Seq<char>),
    MetaCannotBeScraped(ScrapeType, Seq<char>),
    SourceTimeout(ScrapeType, Seq<char>, i64),
    BadSelector(Seq<char>),
    MonthParse(Seq<char>),
    SelectedNothing(Seq<char>, Seq<char>),
}

impl View for NewsError {
    type V = NewsErrorView;

    open spec fn view(&self) -> NewsErrorView {
        match self {
            NewsError::NoUrlOnPost(a, b) => NewsErrorView::NoUrlOnPost(a@, b@),
            NewsError::MetaCannotBeScraped(t, u) => NewsErrorView::MetaCannotBeScraped(*t, u@),
            NewsError::SourceTimeout(t, m, until) => NewsErrorView::SourceTimeout(*t, m@, *until),
            NewsError::BadSelector(s) => NewsErrorView::BadSelector(s@),
            NewsError::MonthParse(s) => NewsErrorView::MonthParse(s@),
            NewsError::SelectedNothing(s, u) => NewsErrorView::SelectedNothing(s@, u@),
        }
    }
}

/// The message describing an error.
pub open spec fn error_message(e: NewsErrorView) -> Seq<char> {
    match e {
        NewsErrorView::NoUrlOnPost(url, document) => "NoUrlOnPost: "@ + url
            + " returned a document, but no URL was found.\nDocument: "@ + document,
        NewsErrorView::MetaCannotBeScraped(t, _) => "MetaCannotBeScraped: The meta data for \'"@
            + t.display() + "\' cannot be collected, falling back to defaults"@,
        NewsErrorView::SourceTimeout(t, message, until) => "SourceTimeout: Source \'"@ + t.display()
            + "\' timed out and will not be fetched until <t:"@ + signed_decimal(until as int)
            + ">. \nError message: \""@ + message + "\""@,
        NewsErrorView::BadSelector(s) => "BadSelector: The selector \'"@ + s + "\' failed to parse"@,
        NewsErrorView::MonthParse(s) => "MonthParse: \'"@ + s + "\' failed to parse into month"@,
        NewsErrorView::SelectedNothing(s, document) => "SelectedNothing: Selector: \'"@ + s
            + "\' found no item.\nDocument: "@ + document,
    }
}

impl NewsError {
    /// The message describing the error.
    pub fn to_string(&self) -> (r: String)
        ensures
            r@ == error_message(self@),
    {
        let mut out: Vec<char> = Vec::new();
        match self {
            NewsError::NoUrlOnPost(url, document) => {
                push_str_chars(&mut out, "NoUrlOnPost: ");
                push_str_chars(&mut out, url.as_str());
                push_str_chars(&mut out, " returned a document, but no URL was found.\nDocument: ");
                push_str_chars(&mut out, document.as_str());
            },
            NewsError::MetaCannotBeScraped(t, _) => {
                push_str_chars(&mut out, "MetaCannotBeScraped: The meta data for \'");
                let name = t.to_string();
                push_str_chars(&mut out, name.as_str());
                push_str_chars(&mut out, "\' cannot be collected, falling back to defaults");
            },
            NewsError::SourceTimeout(t, message, until) => {
                push_str_chars(&mut out, "SourceTimeout: Source \'");
                let name = t.to_string();
                push_str_chars(&mut out, name.as_str());
                push_str_chars(&mut out, "\' timed out and will not be fetched until <t:");
                push_signed_decimal(&mut out, *until);
                push_str_chars(&mut out, ">. \nError message: \"");
                push_str_chars(&mut out, message.as_str());
                push_str_chars(&mut out, "\"");
            },
            NewsError::BadSelector(s) => {
                push_str_chars(&mut out, "BadSelector: The selector \'");
                push_str_chars(&mut out, s.as_str());
                push_str_chars(&mut out, "\' failed to parse");
            },
            NewsError::MonthParse(s) => {
                push_str_chars(&mut out, "MonthParse: \'");
                push_str_chars(&mut out, s.as_str());
                push_str_chars(&mut out, "\' failed to parse into month");
            },
            NewsError::SelectedNothing(s, document) => {
                push_str_chars(&mut out, "SelectedNothing: Selector: \'");
                push_str_chars(&mut out, s.as_str());
                push_str_chars(&mut out, "\' found no item.\nDocument: ");
                push_str_chars(&mut out, document.as_str());
            },
        }
        assert(out@ =~= error_message(self@));
        string_of(&out)
    }
}

/// The title of an error report posted to the error webhook.
pub fn error_report_title(can_recover: bool) -> (r: String)
    ensures
        can_recover ==> r@ == "A recoverable error occurred"@,
        !can_recover ==> r@ == "A non-recoverable error occurred"@,
{
    if can_recover {
        String::from_str("A recoverable error occurred")
    } else {
        String::from_str("A non-recoverable error occurred")
    }
}

/// Whether an error report carries a details field: only when the extra
/// text is not empty.
pub fn report_has_details(extra_text: &str) -> (r: bool)
    ensures
        r == (extra_text@.len() > 0),
{
    !extra_text.is_empty()
}

} // verus!
