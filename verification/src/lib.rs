//! Incremental crawler core for government data-breach disclosure listings.
//!
//! The library covers the pure logic of the pipeline: turning raw page text
//! into normalized disclosure records, classifying which categories of
//! personal information were exposed, deciding how far pagination must run,
//! and persisting only genuinely new disclosures while advancing a
//! per-jurisdiction watermark.

pub mod classify;
pub mod data;
pub mod dates;
pub mod dto;
pub mod parsers;
pub mod process;
pub mod retrievers;
pub mod text;
