//! The command that sets the clipboard text.
use super::CommandError;
use vstd::prelude::*;

verus! {

/// The arguments expected.
pub type Payload = String;

/// The ID of the command.
pub const ID: &'static str = "2";

/// The ID as characters.
pub open spec fn spec_id() -> Seq<char> {
    seq!['2']
}

/// `ID` is the text of `spec_id`.
pub proof fn lemma_id_text()
    ensures
        ID@ == spec_id(),
{
    reveal_strlit("2");
}

/// Parses the arguments provided to the correct type.
///
/// This cannot fail: the text is taken verbatim.
pub fn parse(x: &str) -> (r: Result<Payload, CommandError>)
    ensures
        r matches Ok(p) && p@ == x@,
{
    Ok(x.to_owned())
}

} // verus!
