//! Requests accepted by the web API.

use vstd::prelude::*;

verus! {

/// A request to announce a post by hand.
pub struct ManualPost {
    pub save_to_db: bool,
    pub url: String,
}

} // verus!
