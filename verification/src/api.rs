pub mod endpoints;
