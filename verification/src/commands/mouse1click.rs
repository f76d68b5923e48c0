//! The command that clicks the left mouse button.
use super::CommandError;
use vstd::prelude::*;

verus! {

/// The arguments expected.
pub type Payload = ();

/// The ID of the command.
pub const ID: &'static str = "3";

/// The ID as characters.
pub open spec fn spec_id() -> Seq<char> {
    seq!['3']
}

/// `ID` is the text of `spec_id`.
pub proof fn lemma_id_text()
    ensures
        ID@ == spec_id(),
{
    reveal_strlit("3");
}

/// Parses the arguments provided to the correct type.
/// This cannot fail.
pub fn parse() -> (r: Result<Payload, CommandError>)
    ensures
        r is Ok,
{
    Ok(())
}

} // verus!
