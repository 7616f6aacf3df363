use vstd::prelude::*;

verus! {

/// The body of a request that creates or renames a category.
#[derive(Debug)]
pub struct Input {
    pub name: String,
}

} // verus!
