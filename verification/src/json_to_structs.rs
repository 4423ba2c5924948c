pub mod recent;
pub mod webhooks;
