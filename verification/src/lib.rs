//! A television schedule library: a typed domain model of channels and
//! programme entries, an attribute-filter engine with a lossless on-disk
//! serialization, and the parsing core of a listing scraper.

pub mod error;
pub mod filter;
pub mod filter_file;
pub mod icon;
pub mod program;
pub mod text;
pub mod tv_spielfilm;
