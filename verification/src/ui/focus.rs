//! Focus bookkeeping: each widget holds its own key and its parent's, and
//! the currently focused key is a single string owned by the event loop.

use vstd::prelude::*;

verus! {

/// One node of the focus tree.
pub struct Focus {
    pub parent: String,
    pub own: String,
}

impl Focus {
    /// The root node: empty key, empty parent.
    pub fn root() -> (r: Focus)
        ensures
            r.parent@ == Seq::<char>::empty(),
            r.own@ == Seq::<char>::empty(),
    {
        Focus { parent: String::new(), own: String::new() }
    }

    /// A child node under this one.
    pub fn sub(&self, key: &str) -> (r: Focus)
        ensures
            r.parent@ == self.own@,
            r.own@ == key@,
    {
        Focus { parent: self.own.clone(), own: String::from_str(key) }
    }

    /// Whether this node is the focused one.
    pub fn is_me(&self, current: &String) -> (r: bool)
        ensures
            r == (self.own@ == current@),
    {
        self.own == *current
    }

    /// Move focus to the given key.
    pub fn set(&self, key: &str, current: &mut String)
        ensures
            final(current)@ == key@,
    {
        *current = String::from_str(key);
    }

    /// Give focus back to the parent, but only when this node holds it.
    pub fn back(&self, current: &mut String)
        ensures
            old(current)@ == self.own@ ==> final(current)@ == self.parent@,
            old(current)@ != self.own@ ==> final(current)@ == old(current)@,
    {
        if !self.is_me(current) {
            return ;
        }
        *current = self.parent.clone();
    }
}

} // verus!
