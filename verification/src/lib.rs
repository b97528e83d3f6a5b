//! Rewrites delimited sections of a text document with freshly rendered
//! metrics, leaving everything outside the section untouched.
//!
//! A cycle reads the document, locates the section ([`section`]), fetches
//! the metrics from their provider ([`provider`], through a [`cache`]),
//! renders them ([`template`], [`weather`]) and patches the document where
//! the rendered content differs from what the section holds ([`patch`]).
//! Reading, fetching and writing are the caller's; everything in between is
//! here, with contracts that Verus checks.  What holds of locating and
//! patching whatever the document is proved in [`laws`].
//!
//! Documents are bytes, instants are seconds since 1970-01-01 00:00:00 UTC,
//! shares are hundredths of a percent and temperatures tenths of a degree.

pub mod cache;
pub mod config;
pub mod datetime;
pub mod dotenv;
pub mod error;
pub mod laws;
pub mod markers;
pub mod patch;
pub mod provider;
pub mod runner;
pub mod section;
pub mod stats;
pub mod strings;
pub mod telegram;
pub mod template;
pub mod text;
pub mod weather;
