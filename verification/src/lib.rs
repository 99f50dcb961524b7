//! Verified core of a read-only file explorer: navigation history,
//! search, sorting and the text shown in its views.
pub mod text;
pub mod path;
pub mod native;
pub mod entry;
pub mod listing;
pub mod explorer;
pub mod number;
pub mod markup;
pub mod attributes;
