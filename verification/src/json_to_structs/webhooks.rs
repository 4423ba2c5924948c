//! Webhook clients with a single filter.

use vstd::prelude::*;
use crate::json::webhooks::is_filter_option;

verus! {

/// All configured webhook clients.
pub struct WebhookAuth {
    pub hooks: Vec<Hooks>,
}

/// One webhook client with a single filter and keyword list.
pub struct Hooks {
    pub name: String,
    pub token: String,
    pub uid: u64,
    pub filter: FilterType,
    pub keywords: Vec<String>,
}

/// How a client filters the posts it receives.
#[derive(PartialEq, Eq, Structural, Clone, Copy, Debug)]
pub enum FilterType {
    Default,
    Blacklist,
    Whitelist,
}

impl FilterType {
    /// Reads a filter option typed by a user: `1` default, `2` blacklist,
    /// `3` whitelist; any other text is refused.
    pub fn from_user(option: &str) -> (r: Self)
        requires
            is_filter_option(option@),
        ensures
            option@ == "1"@ ==> r == FilterType::Default,
            option@ == "2"@ ==> r == FilterType::Blacklist,
            option@ == "3"@ ==> r == FilterType::Whitelist,
    {
        match crate::json::webhooks::FilterType::from_user(option) {
            crate::json::webhooks::FilterType::Default => FilterType::Default,
            crate::json::webhooks::FilterType::Blacklist => FilterType::Blacklist,
            crate::json::webhooks::FilterType::Whitelist => FilterType::Whitelist,
        }
    }
}

impl Default for FilterType {
    fn default() -> (r: Self)
        ensures
            r == FilterType::Default,
    {
        FilterType::Default
    }
}

} // verus!
