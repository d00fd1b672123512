use vstd::prelude::*;

verus! {

/// Keeps track of the current page size and where the page sits in the file.
#[derive(Debug, Clone, Copy, PartialEq, Eq)]
pub struct Reader {
    pub page_current_size: usize,
    pub page_start: usize,
    pub page_end: usize,
}

impl Reader {
    /// A one-byte page at the start of the file: the size is never zero, so
    /// nothing divides by it.
    pub fn new() -> (r: Self)
        ensures
            r.page_current_size == 1,
            r.page_start == 0,
            r.page_end == 1,
    {
        Reader { page_current_size: 1, page_start: 0, page_end: 1 }
    }
}

} // verus!
