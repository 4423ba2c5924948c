//! Decision logic of the War Thunder news relay: which posts are new, which
//! webhooks receive them, how embeds are assembled, and how failures are
//! handled. I/O lives in the application crate.

pub mod text;
pub mod scrapers;
pub mod json;
pub mod webhook_handler;
pub mod embed;
pub mod error;
pub mod statistics;
pub mod timeout;
pub mod logging;
pub mod json_to_structs;
pub mod webhooks;
pub mod recent;
pub mod api;
pub mod fetch_loop;
