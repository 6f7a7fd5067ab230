//! The help overlay: a table of key/description pairs.

use vstd::prelude::*;

verus! {

pub struct Help {
    pub hs: Vec<(String, String)>,
    pub close: bool,
}

impl Help {
    pub fn new(hs: Vec<(String, String)>) -> (r: Help)
        ensures
            r.hs == hs,
            !r.close,
    {
        Help { hs, close: false }
    }

    /// The overlay is dismissed.
    pub fn dismiss(&mut self)
        ensures
            final(self).close,
            final(self).hs == old(self).hs,
    {
        self.close = true;
    }

    pub fn closed(&self) -> (r: bool)
        ensures
            r == self.close,
    {
        self.close
    }
}

} // verus!
