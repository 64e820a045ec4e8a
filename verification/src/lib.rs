//! A verified crawling engine for institutional notice boards.
//!
//! The library covers the algorithmic core of a board crawler: the
//! text-cleaning pipeline applied to extracted strings, URL resolution,
//! per-board record extraction driven by declarative selectors, the
//! bounded-concurrency scheduling model, and the regrouping of results
//! for persistence. Network and file I/O live outside the library and
//! hand it plain values.

pub mod config;
pub mod defaults;
pub mod error;
pub mod extract;
pub mod group;
pub mod model;
pub mod schedule;
pub mod scrape;
pub mod text;
pub mod urlres;

