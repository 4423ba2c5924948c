pub mod webhooks;
pub mod sources;
pub mod recent;
