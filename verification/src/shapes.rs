//! The ways in which the dimensions of a shape can be invalid.
use vstd::prelude::*;

verus! {

/// Which dimension of a shape was refused.
#[derive(Debug, PartialEq, Eq, Clone, Copy)]
pub enum Error {
    InvalidWidth,
    InvalidHeight,
    InvalidRadius,
}

} // verus!
