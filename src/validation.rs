//! Limits that the narrative data store puts on what authors enter.
use crate::error::StoryError;
use vstd::prelude::*;

verus! {

/// The longest name, in bytes, of a character or a world rule.
pub const MAX_NAME_LEN: usize = 100;

/// Accepts a name of at most `MAX_NAME_LEN` bytes; a longer one is a
/// `ValidationError`.
pub fn check_name_length(name: &str) -> (r: Result<(), StoryError>)
    ensures
        r is Ok <==> name.len() <= MAX_NAME_LEN,
        r is Err ==> r matches Err(StoryError::ValidationError(_)),
{
    if name.len() > MAX_NAME_LEN {
        Err(StoryError::validation("Name must be 100 characters or less"))
    } else {
        Ok(())
    }
}

} // verus!
