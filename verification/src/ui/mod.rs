pub mod cache;
pub mod colors;
pub mod json;
pub mod response;
pub mod style;
pub mod wrap;
