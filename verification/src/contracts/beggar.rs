//! The kinds of beggar.

use vstd::prelude::*;

verus! {

/// The kind of a beggar contract.
#[derive(Clone, Copy, Debug, PartialEq, Eq, Structural)]
pub enum Type {
    Normal,
    Open,
}

} // verus!
