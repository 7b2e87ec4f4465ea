//! Structured listings from a saved classifieds results page, with the page's
//! locale-specific "posted at" stamps resolved to absolute instants.
//!
//! A [`Parser`] is made for one fetch moment and the visitor's zone. It reads
//! every listing of a page into an [`Item`], or reports the first listing and
//! field that could not be read as an [`ItemParseError`].
pub mod dateparser;
pub mod document;
pub mod parsing;
pub mod price;
pub mod utils;
pub mod zone;

pub use dateparser::DateParser;
pub use dateparser::ParseError;
pub use parsing::DateParseError;
pub use parsing::DateParseResult;
pub use parsing::Item;
pub use parsing::ItemAttribute;
pub use parsing::ItemParseError;
pub use parsing::ItemParseErrorKind;
pub use parsing::Listing;
pub use parsing::Parser;
pub use price::price_parse;
pub use price::Price;
pub use utils::reformat_ws;
pub use utils::remove_prefix_maybe;
