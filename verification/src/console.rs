//! The rendering collaborator's handle: it owns the host writer that frames
//! are painted onto. Painting itself — moving the cursor, printing cells —
//! is terminal work outside the machine's semantics and lives with the
//! host; the library hands the collaborator the framebuffer through
//! [`crate::Chip8::get_display`] and the flush gate through
//! [`crate::Chip8::get_can_draw`] and [`crate::Chip8::set_can_draw`].

use vstd::prelude::*;

verus! {

/// A console renderer over a host writer.
pub struct Console<W> {
    /// The writer the frames go to.
    pub w: W,
}

impl<W> Console<W> {
    /// Wrap a writer.
    pub fn new(w: W) -> (c: Console<W>)
        ensures
            c.w == w,
    {
        Console { w }
    }
}

} // verus!
