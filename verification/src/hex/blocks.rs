//! Coloured ranges of the file.
use rand::Rng;
use vstd::prelude::*;

verus! {

/// A random 32-bit colour (`rand::Rng::random::<u32>` on the thread's
/// generator). Nothing is promised of the value: any `u32` may come back.
#[verifier::external_body]
fn random_color() -> (c: u32) {
    rand::rng().random::<u32>()
}

/// A range of the file painted in its own colours.
#[derive(Debug, PartialEq, Eq)]
pub struct ColoredBlock {
    pub start: usize,
    pub end: usize,
    pub bg_color: u32,
    pub fg_color: u32,
}

impl ColoredBlock {
    /// A block over `start..=end` in random colours.
    pub fn new(start: usize, end: usize) -> (b: Self)
        ensures
            b.start == start,
            b.end == end,
    {
        let bg = random_color();
        let fg = random_color();
        ColoredBlock { start, end, bg_color: bg, fg_color: fg }
    }

    /// Gives the block new random colours, keeping its range.
    pub fn set_random_color(&mut self)
        ensures
            final(self).start == old(self).start,
            final(self).end == old(self).end,
    {
        self.bg_color = random_color();
        self.fg_color = random_color();
    }
}

} // verus!
