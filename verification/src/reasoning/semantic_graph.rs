//! Relations between semantic nodes.

use vstd::prelude::*;

verus! {

/// A relation between two concepts; only `Supports` runs both ways.
#[derive(Debug, Clone, Copy, PartialEq, Eq, Structural)]
pub enum Relation {
    Supports,
    Contradicts,
    Extends,
    Requires,
}

impl Relation {
    pub open spec fn label_spec(self) -> Seq<char> {
        match self {
            Relation::Supports => "supports"@,
            Relation::Contradicts => "contradicts"@,
            Relation::Extends => "extends"@,
            Relation::Requires => "requires"@,
        }
    }

    pub fn label(self) -> (r: &'static str)
        ensures
            r@ == self.label_spec(),
    {
        match self {
            Relation::Supports => "supports",
            Relation::Contradicts => "contradicts",
            Relation::Extends => "extends",
            Relation::Requires => "requires",
        }
    }

    pub fn is_bidirectional(self) -> (r: bool)
        ensures
            r == (self == Relation::Supports),
    {
        match self {
            Relation::Supports => true,
            _ => false,
        }
    }
}

} // verus!
