use vstd::prelude::*;

verus! {

/// Failure to reach the database.
#[derive(Debug, PartialEq, Eq, Structural)]
pub enum MyError {
    NotConnected,
}

} // verus!
