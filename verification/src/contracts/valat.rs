//! The kinds of valat.

use vstd::prelude::*;

verus! {

/// The kind of a valat contract.
#[derive(Clone, Copy, Debug, PartialEq, Eq, Structural)]
pub enum Type {
    Normal,
    Color,
}

} // verus!
