//! Album art: which picture is an album's, and which are kept at hand.

pub mod cache;
pub mod extract;
