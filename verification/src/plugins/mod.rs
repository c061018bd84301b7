//! The plugins that come with the library.

pub mod carbons;
