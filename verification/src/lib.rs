//! A line-oriented text-search library: a query and a set of matching flags
//! are compiled into a line matcher, and a context-aware engine turns each
//! document into the ordered records of matched lines, surrounding context,
//! group separators and match counts.

mod config;
mod engine;
mod laws;
mod matcher;
mod strutil;

pub use config::Config;
pub use matcher::Matcher;
pub use matcher::PatternError;
pub use matcher::Span;
pub use engine::Record;
pub use engine::format_line;
pub use engine::search;
pub use matcher::build_regex;
