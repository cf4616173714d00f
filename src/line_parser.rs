//! Entry point for classifying a line.

use vstd::prelude::*;
use crate::pattern::{classify, PatternType};

verus! {

pub struct LineParser;

impl LineParser {
    /// Classifies a line of the file.
    pub fn parse(line: &str) -> (r: PatternType)
        ensures
            r@ == classify(line@),
    {
        PatternType::parse(line)
    }
}

} // verus!
