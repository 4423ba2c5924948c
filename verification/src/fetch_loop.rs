//! The decisions of the polling loop: what to do with a fetched post, when
//! to wait, when to stop, and how a failed fetch is handled.

use vstd::prelude::*;
use crate::error::NewsError;
use crate::scrapers::scraper_resources::resources::ScrapeType;
use crate::text::{push_str_chars, string_of};
use crate::timeout::Timeout;

verus! {

/// Seconds to wait between two sources.
pub const FETCH_DELAY: u64 = 48;

/// Seconds a failing source is skipped.
pub const TIMEOUT_SECONDS: i64 = 1800;

/// What the HTTP client reports about a failed request.
#[derive(Clone, Copy, Debug)]
pub struct RequestFailure {
    pub is_builder: bool,
    pub is_redirect: bool,
    pub is_status: bool,
    pub is_timeout: bool,
    pub is_request: bool,
    pub is_connect: bool,
    pub is_body: bool,
    pub is_decode: bool,
}

/// What failed while fetching a source.
pub enum FailureKind {
    /// The HTTP request failed.
    Request(RequestFailure),
    /// A listing held no post URL.
    NoUrlOnPost,
    /// Any other failure of the library.
    OtherNews,
    /// A failure of another kind.
    Other,
}

/// A failed fetch: its kind, the HTTP status when one came back (as text),
/// and the error's own message.
pub struct FailureReport {
    pub kind: FailureKind,
    pub status: Option<String>,
    pub message: String,
}

/// How a failure is handled.
pub enum ErrAction {
    /// Skip the source for a while; report it by webhook when `send` holds.
    TimeOut { send: bool, message: String },
    /// Report the failure and stop.
    Crash,
}

/// The label of a failed request, by the first flag that holds.
pub open spec fn request_label(f: RequestFailure) -> Seq<char> {
    if f.is_builder {
        "reqwest_bad_builder"@
    } else if f.is_redirect {
        "reqwest_bad_redirect"@
    } else if f.is_status {
        "reqwest_bad_status_"@
    } else if f.is_timeout {
        "reqwest_timeout"@
    } else if f.is_request {
        "reqwest_bad_request"@
    } else if f.is_connect {
        "reqwest_bad_connect"@
    } else if f.is_body || f.is_decode {
        "reqwest_bad_body"@
    } else {
        "reqwest_everything_bad"@
    }
}

/// The introduction of a failed request's message.
pub open spec fn status_text(status: Option<Seq<char>>) -> Seq<char> {
    match status {
        Some(s) => "status: "@ + s + " was returned and initiated:"@,
        None => "no status code related error was returned and initiated:"@,
    }
}

/// The message of a timed-out request failure.
pub open spec fn request_message(f: RequestFailure, status: Option<Seq<char>>, message: Seq<char>) -> Seq<char> {
    if !f.is_builder && !f.is_redirect && f.is_status {
        status_text(status) + " "@ + request_label(f) + message + ": "@ + message
    } else {
        status_text(status) + " "@ + request_label(f) + ": "@ + message
    }
}

impl FailureReport {
    /// The status, as text.
    pub open spec fn status_view(self) -> Option<Seq<char>> {
        match self.status {
            Some(s) => Some(s@),
            None => None,
        }
    }
}

/// Decides how a failed fetch is handled: failed requests time the source
/// out (reported unless they timed out), a listing without post URL times
/// it out, every other failure stops the relay.
pub fn handle_err_decision(report: &FailureReport) -> (r: ErrAction)
    ensures
        match report.kind {
            FailureKind::Request(f) => r matches ErrAction::TimeOut { send, message } && send == !(
            !f.is_builder && !f.is_redirect && !f.is_status && f.is_timeout)
                && message@ == request_message(f, report.status_view(), report.message@),
            FailureKind::NoUrlOnPost => r matches ErrAction::TimeOut { send, message } && send
                && message@ == "no_url_on_post"@,
            _ => r is Crash,
        },
{
    match &report.kind {
        FailureKind::Request(f) => {
            let mut out: Vec<char> = Vec::new();
            match &report.status {
                Some(s) => {
                    push_str_chars(&mut out, "status: ");
                    push_str_chars(&mut out, s.as_str());
                    push_str_chars(&mut out, " was returned and initiated:");
                },
                None => {
                    push_str_chars(&mut out, "no status code related error was returned and initiated:");
                },
            }
            let ghost intro = out@;
            assert(intro == status_text(report.status_view()));
            push_str_chars(&mut out, " ");
            let mut send = true;
            if f.is_builder {
                push_str_chars(&mut out, "reqwest_bad_builder");
            } else if f.is_redirect {
                push_str_chars(&mut out, "reqwest_bad_redirect");
            } else if f.is_status {
                push_str_chars(&mut out, "reqwest_bad_status_");
                push_str_chars(&mut out, report.message.as_str());
            } else if f.is_timeout {
                push_str_chars(&mut out, "reqwest_timeout");
                send = false;
            } else if f.is_request {
                push_str_chars(&mut out, "reqwest_bad_request");
            } else if f.is_connect {
                push_str_chars(&mut out, "reqwest_bad_connect");
            } else if f.is_body || f.is_decode {
                push_str_chars(&mut out, "reqwest_bad_body");
            } else {
                push_str_chars(&mut out, "reqwest_everything_bad");
            }
            push_str_chars(&mut out, ": ");
            push_str_chars(&mut out, report.message.as_str());
            assert(out@ =~= request_message(*f, report.status_view(), report.message@));
            ErrAction::TimeOut { send, message: string_of(&out) }
        },
        FailureKind::NoUrlOnPost => ErrAction::TimeOut { send: true, message: String::from_str("no_url_on_post") },
        _ => ErrAction::Crash,
    }
}

/// Skips `source` for the timeout period from `now`; returns the time until
/// which it is skipped and the error that reports it.
pub fn time_out_source(
    timeouts: &mut Timeout,
    source: String,
    scrape_type: ScrapeType,
    message: String,
    now: i64,
) -> (r: (i64, NewsError))
    requires
        now <= i64::MAX - TIMEOUT_SECONDS,
    ensures
        r.0 == now + TIMEOUT_SECONDS,
        final(timeouts).blocked@ == old(timeouts).blocked@.insert(source@, r.0),
        r.1@ == crate::error::NewsErrorView::SourceTimeout(scrape_type, message@, r.0),
{
    let then = now + TIMEOUT_SECONDS;
    timeouts.time_out(source, then);
    (then, NewsError::SourceTimeout(scrape_type, message, then))
}

/// What the loop does with a fetched post.
pub struct ContentActions {
    /// Announce the post to the webhook clients.
    pub post: bool,
    /// Record the post as seen.
    pub store: bool,
    /// Count the post as new.
    pub count_new: bool,
}

/// A new post is announced when hooks are enabled, recorded when files may
/// be written, and counted; a known post is left alone.
pub fn content_actions(is_new: bool, hooks: bool, write_files: bool) -> (r: ContentActions)
    ensures
        r.post == (is_new && hooks),
        r.store == (is_new && write_files),
        r.count_new == is_new,
{
    ContentActions { post: is_new && hooks, store: is_new && write_files, count_new: is_new }
}

/// Whether the loop waits after a source: not during the first round.
pub fn waits_after_source(oneshot: bool) -> (r: bool)
    ensures
        r == !oneshot,
{
    !oneshot
}

/// Whether the relay stops after one round: when hooks are off or files may
/// not be written.
pub fn stops_after_round(hooks: bool, write_files: bool) -> (r: bool)
    ensures
        r == (!hooks || !write_files),
{
    !hooks || !write_files
}

} // verus!
