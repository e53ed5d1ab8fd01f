//! Small helpers.
use vstd::prelude::*;

verus! {

/// A value without content.
pub struct Empty {}

impl Empty {
    pub fn new() -> Self {
        Self {  }
    }
}

} // verus!
