//! Validation and matching of MQTT-style topic names and topic filters.
//!
//! A topic is a UTF-8 text value whose levels are separated by `/`. A filter
//! is a topic pattern that may use `+` (one arbitrary level) and, as its last
//! level only, `#` (all remaining levels). This crate decides which texts are
//! legal topic names, which are legal filters, and whether a filter covers a
//! given topic (or subsumes another filter).
//!
//! All reasoning is carried out over the UTF-8 byte encoding of the text,
//! which is also what the protocol's length limit is stated in; every marker
//! the rules mention (`/`, `+`, `#`, `$`, the null character) is a single
//! ASCII byte, so byte-level segmentation and comparison coincide with the
//! character-level reading.

pub mod levels;
pub mod topic;

pub use topic::{has_wildcards, valid_filter, valid_topic, InvalidTopicError};
