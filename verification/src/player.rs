use vstd::prelude::*;

verus! {

/// The two sides of a match.
#[derive(Clone, Copy, Debug, PartialEq, Eq, Structural)]
pub enum PlayerId {
    User1,
    User2,
}

} // verus!
