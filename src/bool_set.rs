use vstd::prelude::*;

verus! {

/// A set over the two booleans.
#[derive(Clone, Copy, Debug, PartialEq, Eq, Structural)]
pub enum BoolSet {
    Empty,
    Single(bool),
    Both,
}

impl BoolSet {
    /// Whether the set holds `b`.
    pub open spec fn has(self, b: bool) -> bool {
        match self {
            BoolSet::Empty => false,
            BoolSet::Single(x) => x == b,
            BoolSet::Both => true,
        }
    }

    /// The set of booleans held.
    pub open spec fn view(self) -> Set<bool> {
        Set::new(|b: bool| self.has(b))
    }

    /// Number of booleans held.
    pub open spec fn size(self) -> nat {
        match self {
            BoolSet::Empty => 0,
            BoolSet::Single(_) => 1,
            BoolSet::Both => 2,
        }
    }

    /// The set holding exactly `b`.
    pub fn from_bool(b: bool) -> (r: BoolSet)
        ensures
            r == BoolSet::Single(b),
            forall|x: bool| r.has(x) <==> x == b,
    {
        BoolSet::Single(b)
    }

    /// The set after adding `b`.
    pub open spec fn with(self, b: bool) -> BoolSet {
        match self {
            BoolSet::Empty => BoolSet::Single(b),
            BoolSet::Single(x) => if x == b { self } else { BoolSet::Both },
            BoolSet::Both => BoolSet::Both,
        }
    }

    /// Adds `b`; returns whether the set changed.
    pub fn insert(&mut self, b: bool) -> (changed: bool)
        ensures
            *final(self) == old(self).with(b),
            changed == !old(self).has(b),
            final(self).has(b),
            forall|x: bool| x != b ==> (final(self).has(x) == old(self).has(x)),
    {
        match *self {
            BoolSet::Empty => {
                *self = BoolSet::Single(b);
                true
            },
            BoolSet::Single(x) => {
                if x == b {
                    false
                } else {
                    *self = BoolSet::Both;
                    true
                }
            },
            BoolSet::Both => false,
        }
    }

    pub fn contains(&self, b: bool) -> (r: bool)
        ensures
            r == self.has(b),
    {
        match self {
            BoolSet::Empty => false,
            BoolSet::Single(x) => *x == b,
            BoolSet::Both => true,
        }
    }

    pub fn len(&self) -> (r: usize)
        ensures
            r == self.size(),
    {
        match self {
            BoolSet::Empty => 0,
            BoolSet::Single(_) => 1,
            BoolSet::Both => 2,
        }
    }

    pub fn is_empty(&self) -> (r: bool)
        ensures
            r == (*self == BoolSet::Empty),
            r == (self.size() == 0),
    {
        match self {
            BoolSet::Empty => true,
            _ => false,
        }
    }
}

} // verus!
