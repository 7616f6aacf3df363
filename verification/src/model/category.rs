use vstd::prelude::*;

verus! {

/// Maps the outcome of looking a category up by name: the category alone, or
/// `not found`.
pub fn category_lookup<T>(found: Option<T>) -> (r: Result<Vec<T>, String>)
    ensures
        found matches Some(t) ==> (r matches Ok(v) && v@ == seq![t]),
        found is None ==> (r matches Err(m) && m@ == "not found"@),
{
    match found {
        Some(category) => {
            let mut load_category: Vec<T> = Vec::new();
            load_category.push(category);
            Ok(load_category)
        },
        None => Err(String::from_str("not found")),
    }
}

} // verus!
