//! A line-addressable editor core for ignore-pattern files made of
//! fingerprint records: classification of each line, an in-memory line
//! buffer, navigation windows over it, serialization and backup pruning.

pub mod text;
pub mod pattern;
pub mod error;
pub mod line;
pub mod line_parser;
pub mod file_reader;
pub mod line_spec;
pub mod view_state;
pub mod backup;
pub mod edit;
