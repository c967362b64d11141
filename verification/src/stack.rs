//! Stack traces attached to trace events: inline stacks, references into the
//! shared stack-frame table, and the frames themselves.

use vstd::prelude::*;

verus! {

/// Global stack frame ID
///
/// Frame identifiers may arrive as integers or strings, but the frame table
/// is keyed by strings, so everything is kept in string form.
#[derive(Debug, PartialEq, Eq, Clone)]
pub struct StackFrameId(pub String);

impl StackFrameId {
    /// A frame ID from its numeric form
    pub fn from_number(i: i64) -> (r: StackFrameId)
        ensures
            r.0@ == crate::display::sp_idec(i as int),
    {
        let cs = crate::display::number_chars(i);
        StackFrameId(crate::text::string_from_chars(cs))
    }
}

/// Stack trace associated with a duration event
///
/// For complete events, this is the stack trace at the start of the event.
#[derive(Debug, PartialEq, Eq)]
pub enum StackTrace {
    /// Reference to a frame in the shared stack-frame table
    Frame(StackFrameId),
    /// Inline stack trace, as a list of symbols or addresses from the root
    Inline(Vec<String>),
}

/// Stack trace at the end of a complete event
#[derive(Debug, PartialEq, Eq)]
pub enum EndStackTrace {
    /// Reference to a frame in the shared stack-frame table
    Frame(StackFrameId),
    /// Inline stack trace, as a list of symbols or addresses from the root
    Inline(Vec<String>),
}

/// Stack frame object
#[derive(Debug, PartialEq, Eq)]
pub struct StackFrame {
    /// Usually a shared object or process name
    pub category: String,
    /// Symbol name or address
    pub name: String,
    /// Parent stack frame, when not at the root of the stack
    pub parent: Option<StackFrameId>,
}

} // verus!
