//! Script-transliteration filters: deterministic, order-sensitive string
//! rewriters that map Latin-alphabet text into other writing systems (an
//! Ogham rune encoding and a Gaelic digraph-to-diacritic normalization).
//!
//! The heart of the crate is a generic sequential substitution engine
//! ([`engine`]) driven by an ordered pattern table ([`table`]). The two
//! filters ([`filters`]) supply their tables and pre/post formatting
//! (quote stripping, and a sentinel prefix for Ogham). The [`host`]
//! module adapts the filters to the templating engine's value types.

pub mod engine;
pub mod filters;
pub mod host;
pub mod table;
