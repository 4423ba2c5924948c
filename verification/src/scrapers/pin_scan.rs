//! Walking a listing page post by post until one that is not pinned, and
//! reading the link of that post.
//!
//! Posts are numbered from 1; the selector of post `n` is a prefix, the
//! decimal form of `n`, and a suffix. At most [`PIN_LIMIT`] posts are looked
//! at before the walk gives up.

use vstd::prelude::*;
use crate::scrapers::scraper_resources::html_util::{
    css_selector_valid, opt_view, select_attributes, selected_attributes, table_views, CssSelector, Page,
};
use crate::text::{contains_chars, chars_of, contains_seq, decimal, push_decimal, push_str_chars, string_of};
use crate::webhook_handler::string_views;

verus! {

/// The number of the last post looked at for one that is not pinned.
pub const PIN_LIMIT: u32 = 20;

/// What stops the walk over a listing.
#[derive(Debug, Clone)]
pub enum PinScanError {
    /// Every post up to [`PIN_LIMIT`] is pinned.
    PinLimitExceeded,
    /// The selector text that `scraper` refused.
    BadSelector(String),
    /// The attribute that the selected element lacks.
    MissingAttribute(String),
    /// The number of a post for which the list holds no item.
    NoListItem(u32),
}

/// The mathematical form of a [`PinScanError`].
pub enum PinScanErrorView {
    PinLimitExceeded,
    BadSelector(Seq<char>),
    MissingAttribute(Seq<char>),
    NoListItem(nat),
}

impl View for PinScanError {
    type V = PinScanErrorView;

    open spec fn view(&self) -> PinScanErrorView {
        match self {
            PinScanError::PinLimitExceeded => PinScanErrorView::PinLimitExceeded,
            PinScanError::BadSelector(s) => PinScanErrorView::BadSelector(s@),
            PinScanError::MissingAttribute(a) => PinScanErrorView::MissingAttribute(a@),
            PinScanError::NoListItem(n) => PinScanErrorView::NoListItem(*n as nat),
        }
    }
}

/// The view of what a scan of a listing gives back.
pub open spec fn found_view(r: Result<Option<String>, PinScanError>) -> Result<Option<Seq<char>>, PinScanErrorView> {
    match r {
        Ok(o) => Ok(opt_view(o)),
        Err(e) => Err(e@),
    }
}

/// The selector text of post `n`.
pub open spec fn numbered(prefix: Seq<char>, n: nat, suffix: Seq<char>) -> Seq<char> {
    prefix + decimal(n) + suffix
}

/// The number of the first post, from `post` on, whose pin marker (the
/// selector of the post) selects nothing.
pub open spec fn marker_scan(doc: Seq<char>, prefix: Seq<char>, suffix: Seq<char>, post: nat) -> Result<nat, PinScanErrorView>
    decreases PIN_LIMIT - post,
{
    let sel = numbered(prefix, post, suffix);
    if !css_selector_valid(sel) {
        Err(PinScanErrorView::BadSelector(sel))
    } else if selected_attributes(doc, sel, Seq::<Seq<char>>::empty()).len() == 0 {
        Ok(post)
    } else if post >= PIN_LIMIT {
        Err(PinScanErrorView::PinLimitExceeded)
    } else {
        marker_scan(doc, prefix, suffix, post + 1)
    }
}

/// The number of the first post, from `post` on, whose list item (the first
/// element the selector of the post selects) has a class without `pinned`.
pub open spec fn class_scan(doc: Seq<char>, prefix: Seq<char>, suffix: Seq<char>, post: nat) -> Result<nat, PinScanErrorView>
    decreases PIN_LIMIT - post,
{
    let sel = numbered(prefix, post, suffix);
    if !css_selector_valid(sel) {
        Err(PinScanErrorView::BadSelector(sel))
    } else {
        let rows = selected_attributes(doc, sel, seq!["class"@]);
        if rows.len() == 0 {
            Err(PinScanErrorView::NoListItem(post))
        } else {
            match rows[0][0] {
                None => Err(PinScanErrorView::MissingAttribute("class"@)),
                Some(class) => if !contains_seq(class, "pinned"@) {
                    Ok(post)
                } else if post >= PIN_LIMIT {
                    Err(PinScanErrorView::PinLimitExceeded)
                } else {
                    class_scan(doc, prefix, suffix, post + 1)
                },
            }
        }
    }
}

/// The link of the first element that the selector `sel` selects: its
/// `href`, after `url_prefix`; `None` when nothing is selected.
pub open spec fn link_found(doc: Seq<char>, sel: Seq<char>, url_prefix: Seq<char>) -> Result<Option<Seq<char>>, PinScanErrorView> {
    let rows = selected_attributes(doc, sel, seq!["href"@]);
    if rows.len() == 0 {
        Ok(None)
    } else {
        match rows[0][0] {
            None => Err(PinScanErrorView::MissingAttribute("href"@)),
            Some(h) => Ok(Some(url_prefix + h)),
        }
    }
}

/// [`link_found`], once the selector text `sel` has parsed.
pub open spec fn link_at(doc: Seq<char>, sel: Seq<char>, url_prefix: Seq<char>) -> Result<Option<Seq<char>>, PinScanErrorView> {
    if !css_selector_valid(sel) {
        Err(PinScanErrorView::BadSelector(sel))
    } else {
        link_found(doc, sel, url_prefix)
    }
}

/// Whether the pin marker of post `k` selects something.
pub open spec fn marker_pinned(doc: Seq<char>, prefix: Seq<char>, suffix: Seq<char>, k: nat) -> bool {
    selected_attributes(doc, numbered(prefix, k, suffix), Seq::<Seq<char>>::empty()).len() > 0
}

/// Whether the list item of post `k` exists and has a class with `pinned`.
pub open spec fn class_pinned(doc: Seq<char>, prefix: Seq<char>, suffix: Seq<char>, k: nat) -> bool {
    let rows = selected_attributes(doc, numbered(prefix, k, suffix), seq!["class"@]);
    rows.len() > 0 && (rows[0][0] matches Some(class) && contains_seq(class, "pinned"@))
}

/// A walk by pin markers stops at the first post without one: every post
/// it passed has a pin marker; and it gives up only when every post up to
/// [`PIN_LIMIT`] has one.
pub proof fn law_marker_scan_stops_at_first_unpinned(doc: Seq<char>, prefix: Seq<char>, suffix: Seq<char>, start: nat)
    requires
        1 <= start <= PIN_LIMIT,
    ensures
        marker_scan(doc, prefix, suffix, start) matches Ok(post) ==> {
            &&& start <= post <= PIN_LIMIT
            &&& !marker_pinned(doc, prefix, suffix, post)
            &&& forall|k: nat| start <= k < post ==> #[trigger] marker_pinned(doc, prefix, suffix, k)
        },
        marker_scan(doc, prefix, suffix, start) == Err::<nat, PinScanErrorView>(PinScanErrorView::PinLimitExceeded)
            ==> forall|k: nat| start <= k <= PIN_LIMIT ==> #[trigger] marker_pinned(doc, prefix, suffix, k),
    decreases PIN_LIMIT - start,
{
    if start < PIN_LIMIT {
        law_marker_scan_stops_at_first_unpinned(doc, prefix, suffix, start + 1);
    }
}

/// A walk by list items stops at the first post whose class has no
/// `pinned`: every post it passed has a list item with `pinned` in its
/// class; and it gives up only when every post up to [`PIN_LIMIT`] has.
pub proof fn law_class_scan_stops_at_first_unpinned(doc: Seq<char>, prefix: Seq<char>, suffix: Seq<char>, start: nat)
    requires
        1 <= start <= PIN_LIMIT,
    ensures
        class_scan(doc, prefix, suffix, start) matches Ok(post) ==> {
            &&& start <= post <= PIN_LIMIT
            &&& !class_pinned(doc, prefix, suffix, post)
            &&& forall|k: nat| start <= k < post ==> #[trigger] class_pinned(doc, prefix, suffix, k)
        },
        class_scan(doc, prefix, suffix, start) == Err::<nat, PinScanErrorView>(PinScanErrorView::PinLimitExceeded)
            ==> forall|k: nat| start <= k <= PIN_LIMIT ==> #[trigger] class_pinned(doc, prefix, suffix, k),
    decreases PIN_LIMIT - start,
{
    if start < PIN_LIMIT {
        law_class_scan_stops_at_first_unpinned(doc, prefix, suffix, start + 1);
    }
}

/// The selector text of post `n`.
pub fn numbered_text(prefix: &str, n: u32, suffix: &str) -> (s: String)
    ensures
        s@ == numbered(prefix@, n as nat, suffix@),
{
    let mut out: Vec<char> = Vec::new();
    push_str_chars(&mut out, prefix);
    push_decimal(&mut out, n as u64);
    push_str_chars(&mut out, suffix);
    assert(out@ =~= numbered(prefix@, n as nat, suffix@));
    string_of(&out)
}

/// Parses a selector, reporting its text when `scraper` refuses it.
pub fn parse_selector(text: String) -> (r: Result<CssSelector, PinScanError>)
    ensures
        match r {
            Ok(s) => css_selector_valid(text@) && s@ == text@,
            Err(e) => !css_selector_valid(text@) && e@ == PinScanErrorView::BadSelector(text@),
        },
{
    match CssSelector::parse(text.as_str()) {
        Some(s) => Ok(s),
        None => Err(PinScanError::BadSelector(text)),
    }
}

/// The attribute `name` of the first element that `sel` selects; `None`
/// when it selects nothing.
pub fn first_value(page: &Page, sel: &CssSelector, name: &str) -> (r: Option<Option<String>>)
    ensures
        match r {
            None => selected_attributes(page@, sel@, seq![name@]).len() == 0,
            Some(v) => selected_attributes(page@, sel@, seq![name@]).len() > 0
                && opt_view(v) == selected_attributes(page@, sel@, seq![name@])[0][0],
        },
{
    let mut names: Vec<String> = Vec::new();
    names.push(name.to_owned());
    assert(string_views(names@) =~= seq![name@]);
    let mut rows = select_attributes(page, sel, &names);
    if rows.len() == 0 {
        return None;
    }
    let ghost tv = table_views(rows@);
    assert(tv[0] == rows@[0]@.map_values(|o: Option<String>| opt_view(o)));
    let mut row = rows.remove(0);
    let v = row.remove(0);
    Some(v)
}

/// The link of the first element that `sel` selects (see [`link_found`]).
pub fn link_of(page: &Page, sel: &CssSelector, url_prefix: &str) -> (r: Result<Option<String>, PinScanError>)
    ensures
        found_view(r) == link_found(page@, sel@, url_prefix@),
{
    match first_value(page, sel, "href") {
        None => Ok(None),
        Some(None) => Err(PinScanError::MissingAttribute("href".to_owned())),
        Some(Some(h)) => {
            let mut out: Vec<char> = Vec::new();
            push_str_chars(&mut out, url_prefix);
            push_str_chars(&mut out, h.as_str());
            Ok(Some(string_of(&out)))
        },
    }
}

/// The link of the first element that `sel_text` selects (see [`link_at`]).
pub fn link_from(page: &Page, sel_text: String, url_prefix: &str) -> (r: Result<Option<String>, PinScanError>)
    ensures
        found_view(r) == link_at(page@, sel_text@, url_prefix@),
{
    let sel = match parse_selector(sel_text) {
        Ok(s) => s,
        Err(e) => return Err(e),
    };
    link_of(page, &sel, url_prefix)
}

/// Walks the posts while their pin marker selects something (see
/// [`marker_scan`]).
pub fn scan_marker_pins(page: &Page, prefix: &str, suffix: &str) -> (r: Result<u32, PinScanError>)
    ensures
        match r {
            Ok(post) => marker_scan(page@, prefix@, suffix@, 1) == Ok::<nat, PinScanErrorView>(post as nat),
            Err(e) => marker_scan(page@, prefix@, suffix@, 1) == Err::<nat, PinScanErrorView>(e@),
        },
{
    let no_names: Vec<String> = Vec::new();
    assert(string_views(no_names@) =~= Seq::<Seq<char>>::empty());
    let mut post: u32 = 1;
    loop
        invariant
            1 <= post <= PIN_LIMIT,
            string_views(no_names@) == Seq::<Seq<char>>::empty(),
            marker_scan(page@, prefix@, suffix@, 1) == marker_scan(page@, prefix@, suffix@, post as nat),
        decreases PIN_LIMIT - post,
    {
        let text = numbered_text(prefix, post, suffix);
        let sel = match parse_selector(text) {
            Ok(s) => s,
            Err(e) => return Err(e),
        };
        let rows = select_attributes(page, &sel, &no_names);
        if rows.len() == 0 {
            return Ok(post);
        }
        if post >= PIN_LIMIT {
            return Err(PinScanError::PinLimitExceeded);
        }
        post = post + 1;
    }
}

/// Walks the posts while the class of their list item holds `pinned` (see
/// [`class_scan`]).
pub fn scan_class_pins(page: &Page, prefix: &str, suffix: &str) -> (r: Result<u32, PinScanError>)
    ensures
        match r {
            Ok(post) => class_scan(page@, prefix@, suffix@, 1) == Ok::<nat, PinScanErrorView>(post as nat),
            Err(e) => class_scan(page@, prefix@, suffix@, 1) == Err::<nat, PinScanErrorView>(e@),
        },
{
    let mut pinned: Vec<char> = Vec::new();
    pinned.push('p');
    pinned.push('i');
    pinned.push('n');
    pinned.push('n');
    pinned.push('e');
    pinned.push('d');
    proof {
        reveal_strlit("pinned");
    }
    assert(pinned@ =~= "pinned"@);
    let mut post: u32 = 1;
    loop
        invariant
            1 <= post <= PIN_LIMIT,
            pinned@ == "pinned"@,
            class_scan(page@, prefix@, suffix@, 1) == class_scan(page@, prefix@, suffix@, post as nat),
        decreases PIN_LIMIT - post,
    {
        let text = numbered_text(prefix, post, suffix);
        let sel = match parse_selector(text) {
            Ok(s) => s,
            Err(e) => return Err(e),
        };
        match first_value(page, &sel, "class") {
            None => {
                return Err(PinScanError::NoListItem(post));
            },
            Some(None) => {
                return Err(PinScanError::MissingAttribute("class".to_owned()));
            },
            Some(Some(class)) => {
                let c = chars_of(class.as_str());
                if !contains_chars(&c, &pinned) {
                    return Ok(post);
                }
            },
        }
        if post >= PIN_LIMIT {
            return Err(PinScanError::PinLimitExceeded);
        }
        post = post + 1;
    }
}

} // verus!
