//! Layout of the page: the header, as a tree of markup.

pub mod header;
pub mod html;
pub mod logo;
pub mod numbers;
