//! Operation helpers for guard chains.

use vstd::prelude::*;

verus! {

/// Logical NOT operation.  In case the input is `Some`, returns `None`,
/// otherwise returns `Some(())`.
pub fn not(input: Option<()>) -> (r: Option<()>)
    ensures
        r is Some <==> input is None,
{
    if input.is_some() {
        None
    } else {
        Some(())
    }
}

} // verus!
