pub mod resources;
pub mod html_util;
