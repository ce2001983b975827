//! Parsing of loosely formatted date/time text into one normalized timestamp
//! that carries a fixed numeric UTC offset.
//!
//! Raw text is first standardized, then matched against an ordered cascade of
//! parsing strategies, from the strictest grammar to a last-resort token
//! heuristic; the first success wins.  The caller supplies the current local
//! clock explicitly, so every strategy is a pure function of its inputs.
//!
//! Two laws anchor the contracts: a text of the strict RFC 3339 grammar
//! always parses to exactly the fields written in it (an ensures of
//! [`cascade::parse`]), and the canonical serialization of a result is
//! itself such a text denoting the same instant
//! ([`rfc3339::lemma_canonical_round_trip`]); the strict family always has
//! first refusal ([`cascade::lemma_strict_has_first_refusal`]).

pub mod chars_util;
pub mod cascade;
pub mod chrono_calls;
pub mod model;
pub mod rfc3339;
pub mod strategies;
pub mod heuristic;
pub mod normalize;
pub mod resolver;

pub use cascade::parse;
pub use model::DateParts;
pub use model::DateTimeFixedOffset;
pub use model::LocalClockContext;
pub use model::ParseFailure;
pub use model::TimeParts;
pub use normalize::standardize_date;
pub use resolver::is_tz_alpha;
