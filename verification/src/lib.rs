//! The verified core of a SQLite table browser: how cell values are rendered,
//! how tables are paged, and how the browser's state answers each user action.
pub mod text;
pub mod value;
pub mod paging;
pub mod viewer;
pub mod laws;
pub mod display_laws;
