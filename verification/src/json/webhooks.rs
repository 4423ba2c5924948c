//! The webhook clients that receive news, each with a filter for main-site
//! news and one for forum news.

use vstd::prelude::*;
use crate::text::{chars_of, decimal, law_parse_decimal, parse_u64, spec_parse_u64, split_chars, split_seq, string_of, sub_chars, words, words_of};

verus! {

/// All configured webhook clients.
pub struct WebhookAuth {
    pub hooks: Vec<Hooks>,
}

/// One webhook client.
pub struct Hooks {
    pub name: String,
    pub token: String,
    pub uid: u64,
    pub main_filter: FilterType,
    pub forum_filter: FilterType,
    pub main_keywords: Vec<String>,
    pub forum_keywords: Vec<String>,
}

/// How a client filters the posts it receives.
#[derive(PartialEq, Eq, Structural, Clone, Copy, Debug)]
pub enum FilterType {
    /// Accept posts matching one of the built-in keywords.
    Default,
    /// Accept posts matching none of the client's keywords.
    Blacklist,
    /// Accept posts matching one of the client's keywords.
    Whitelist,
}

/// The filter option a user types: `1` for the default filter, `2` for a
/// blacklist, `3` for a whitelist.
pub open spec fn is_filter_option(option: Seq<char>) -> bool {
    option == "1"@ || option == "2"@ || option == "3"@
}

/// The filter that a filter option stands for.
pub open spec fn filter_of(option: Seq<char>) -> FilterType {
    if option == "1"@ {
        FilterType::Default
    } else if option == "2"@ {
        FilterType::Blacklist
    } else {
        FilterType::Whitelist
    }
}

impl FilterType {
    /// Reads a filter option typed by a user; any other text is refused.
    pub fn from_user(option: &str) -> (r: Self)
        requires
            is_filter_option(option@),
        ensures
            r == filter_of(option@),
            option@ == "1"@ ==> r == FilterType::Default,
            option@ == "2"@ ==> r == FilterType::Blacklist,
            option@ == "3"@ ==> r == FilterType::Whitelist,
    {
        proof {
            reveal_strlit("1");
            reveal_strlit("2");
            reveal_strlit("3");
            assert("1"@ =~= seq!['1']);
            assert("2"@ =~= seq!['2']);
            assert("3"@ =~= seq!['3']);
            assert("1"@[0] != "2"@[0]);
            assert("1"@ != "2"@);
            assert("1"@ != "3"@ && "2"@ != "3"@);
        }
        if crate::text::str_eq(option, "1") {
            FilterType::Default
        } else if crate::text::str_eq(option, "2") {
            FilterType::Blacklist
        } else {
            FilterType::Whitelist
        }
    }
}

/// The main and forum filters of a line typed by a user, such as `1 2`:
/// exactly two words, each a filter option.
pub open spec fn spec_filters_from_line(line: Seq<char>) -> Option<(FilterType, FilterType)> {
    let w = words(line);
    if w.len() == 2 && is_filter_option(w[0]) && is_filter_option(w[1]) {
        Some((filter_of(w[0]), filter_of(w[1])))
    } else {
        None
    }
}

/// Whether `option` is a filter option.
fn filter_option(option: &str) -> (r: bool)
    ensures
        r == is_filter_option(option@),
{
    crate::text::str_eq(option, "1") || crate::text::str_eq(option, "2") || crate::text::str_eq(option, "3")
}

/// Reads the main and forum filter options typed on one line, separated by
/// white space (such as `1 2`); `None` when the line holds anything else.
pub fn filters_from_line(line: &str) -> (r: Option<(FilterType, FilterType)>)
    ensures
        r == spec_filters_from_line(line@),
{
    let parts = words_of(line);
    proof {
        assert(parts@.len() == words(line@).len());
    }
    if parts.len() != 2 {
        return None;
    }
    assert(parts@.map_values(|w: String| w@)[0] == parts@[0]@);
    assert(parts@.map_values(|w: String| w@)[1] == parts@[1]@);
    if !filter_option(parts[0].as_str()) || !filter_option(parts[1].as_str()) {
        return None;
    }
    let main = FilterType::from_user(parts[0].as_str());
    let forum = FilterType::from_user(parts[1].as_str());
    Some((main, forum))
}

impl Default for FilterType {
    fn default() -> (r: Self)
        ensures
            r == FilterType::Default,
    {
        FilterType::Default
    }
}

/// The line without its last character (`String::pop`).
pub open spec fn without_last(line: Seq<char>) -> Seq<char> {
    if line.len() > 0 {
        line.drop_last()
    } else {
        line
    }
}

/// The (uid, token) of a webhook URL typed by a user: the line loses its
/// last character and is cut at `/`; the sixth piece is the uid, the
/// seventh the token.
pub open spec fn spec_uid_and_token(line: Seq<char>) -> Option<(u64, Seq<char>)> {
    let pieces = split_seq(without_last(line), seq!['/']);
    if pieces.len() < 7 {
        None
    } else {
        match spec_parse_u64(pieces[5]) {
            None => None,
            Some(uid) => Some((uid, pieces[6])),
        }
    }
}

/// A webhook URL whose sixth piece is the decimal form of any `u64` gives
/// that number as uid and the seventh piece as token.
pub proof fn law_uid_and_token_any_u64(line: Seq<char>, n: u64)
    requires
        split_seq(without_last(line), seq!['/']).len() >= 7,
        split_seq(without_last(line), seq!['/'])[5] == decimal(n as nat),
    ensures
        spec_uid_and_token(line) == Some((n, split_seq(without_last(line), seq!['/'])[6])),
{
    law_parse_decimal(n);
}

/// The name typed by a user: the line without its last character.
pub fn hook_name(line: &str) -> (r: String)
    ensures
        r@ == without_last(line@),
{
    let c = chars_of(line);
    if c.len() > 0 {
        let t = sub_chars(&c, 0, c.len() - 1);
        assert(t@ =~= line@.drop_last());
        string_of(&t)
    } else {
        string_of(&c)
    }
}

/// Reads the uid and token of a webhook URL typed by a user; `None` when the
/// URL has too few pieces or its uid is not a number.
pub fn uid_and_token(line: &str) -> (r: Option<(u64, String)>)
    ensures
        match r {
            Some((uid, token)) => spec_uid_and_token(line@) == Some((uid, token@)),
            None => spec_uid_and_token(line@) is None,
        },
{
    let trimmed = hook_name(line);
    let c = chars_of(trimmed.as_str());
    let mut slash: Vec<char> = Vec::new();
    slash.push('/');
    assert(slash@ =~= seq!['/']);
    let pieces = split_chars(&c, &slash);
    if pieces.len() < 7 {
        return None;
    }
    assert(crate::text::views(pieces@)[5] == pieces@[5]@);
    assert(crate::text::views(pieces@)[6] == pieces@[6]@);
    let uid_text = string_of(&pieces[5]);
    match parse_u64(uid_text.as_str()) {
        None => None,
        Some(uid) => Some((uid, string_of(&pieces[6]))),
    }
}

} // verus!
