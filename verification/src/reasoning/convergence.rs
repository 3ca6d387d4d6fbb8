//! How the final candidate was selected.

use vstd::prelude::*;

verus! {

#[derive(Debug, Clone, Copy, PartialEq, Eq, Structural)]
pub enum SelectionMethod {
    UltraInstinct,
    Fallback,
    Empty,
}

} // verus!
