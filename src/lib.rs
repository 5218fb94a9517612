//! Templates that interleave literal text with embedded commands of the Bud
//! language, compiled into a single Bud function that renders the output.
//!
//! `{{ statement }}` runs a Bud statement, `{{= expression }}` appends the
//! encoded value of an expression and `{{:= expression }}` appends it as it
//! is. A `-` after the prefix trims the whitespace that ends the text before
//! the command; a `-` before `}}` trims the whitespace that starts the text
//! after it.

pub mod config;
pub mod encoding;
pub mod segment;
pub mod syntax;
pub mod template;

pub use config::Configuration;
pub use encoding::{Encoder, HtmlEncoding, NoEncoding};
pub use segment::{Error, Segment, SegmentKind, WhitespaceTrimming};
pub use template::{ParsedTemplate, Template};
