//! A verified core for a breadth-first search over the internal link graph of
//! a wiki-style encyclopedia.
//!
//! The library holds everything the search decides: classifying and splitting
//! the start URL, recognising the target and the excluded (non-article)
//! identifiers, deduplicating frontier paths, building child paths from the
//! links found on a page, and the one-way termination state machine. The
//! surrounding binary only fetches pages and shuttles values between the
//! network and these functions.

pub mod classifier;
pub mod expand;
pub mod extract;
pub mod search;
