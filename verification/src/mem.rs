//! Physical memory descriptions.
use vstd::prelude::*;

verus! {

/// A physical memory range and whether it is free for the kernel to use.
#[derive(Clone, Copy, Debug)]
pub struct PMMapElement {
    pub base: usize,
    pub len: usize,
    pub avail: bool,
}

impl PMMapElement {
    pub fn new() -> (e: Self)
        ensures
            e.base == 0 && e.len == 0 && !e.avail,
    {
        PMMapElement { base: 0, len: 0, avail: false }
    }
}

} // verus!
