//! The catalog's data: files, ratings, filters and the file list itself.

pub mod catalog;
pub mod file;
pub mod file_list;
pub mod filter;
pub mod formats;
pub mod laws;
pub mod order;
pub mod persist;
pub mod scan;

pub use self::file::{File, FileSize, Rating};
pub use self::file_list::FileSort;
pub use self::file_list::FileList;
pub use self::filter::Filter;
