//! What the parts of the generator have in common.

use vstd::prelude::*;

verus! {

/// A value that can be brought into its canonical form.
pub trait Canonicalize: Sized {
    /// Brings the value into its canonical form.
    fn canonicalize(&mut self);
}

} // verus!
