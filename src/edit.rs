//! Records of edits made to the buffer.

use vstd::prelude::*;

verus! {

/// The kind of an edit.
#[derive(Debug, Clone, Copy, PartialEq, Eq, Structural)]
pub enum OperationType {
    Update,
    Insert,
    Delete,
}

/// One edit of one line.
#[derive(Debug, Clone)]
pub struct EditOperation {
    pub line_number: usize,
    pub original_content: String,
    pub new_content: String,
    /// When the edit was made, in nanoseconds since the Unix epoch.
    pub timestamp: u128,
    pub operation_type: OperationType,
}

} // verus!
