//! The error of operations that fail with a message.

use crate::text::text;
use vstd::prelude::*;

verus! {

/// A failure in words.
#[derive(Debug)]
pub struct ServeError {
    pub message: String,
}

/// The failure with the given words.
pub fn to_dyn_error(error: &str) -> (r: ServeError)
    ensures
        r.message@ == error@,
{
    ServeError { message: text(error) }
}

} // verus!
