//! Webhook clients with a single filter, as first stored.

use vstd::prelude::*;

verus! {

/// All configured webhook clients.
pub struct WebhookAuth {
    pub hooks: Vec<Hooks>,
}

/// One webhook client with a single filter and keyword list.
pub struct Hooks {
    pub name: String,
    pub token: String,
    pub uid: u64,
    pub filter: FilterType,
    pub keywords: Vec<String>,
}

/// How a client filters the posts it receives.
#[derive(PartialEq, Eq, Structural, Clone, Copy, Debug)]
pub enum FilterType {
    Default,
    Blacklist,
    Whitelist,
}

impl Default for FilterType {
    fn default() -> (r: Self)
        ensures
            r == FilterType::Default,
    {
        FilterType::Default
    }
}

} // verus!
