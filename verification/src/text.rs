//! A growable text buffer that the views render into.

use vstd::prelude::*;

verus! {

/// An output text block; one view owns one and rewrites it on every poll.
pub struct Text {
    pub buf: String,
}

impl Text {
    /// A fresh, empty buffer.
    pub fn new() -> (r: Text)
        ensures
            r.buf@ == Seq::<char>::empty(),
    {
        Text { buf: String::new() }
    }

    /// Empties the buffer.
    pub fn clear(&mut self)
        ensures
            final(self).buf@ == Seq::<char>::empty(),
    {
        self.buf = String::new();
    }
}

} // verus!
