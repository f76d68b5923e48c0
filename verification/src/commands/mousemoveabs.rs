//! The command that moves the mouse to a position on the screen.
use super::{CommandError, CommandErrorView};
use crate::number::{i32_text, lemma_parse_i32_text, parse_i32, spec_parse_i32};
use vstd::prelude::*;

verus! {

/// The arguments expected.
pub type Payload = (i32, i32);

/// The ID of the command.
pub const ID: &'static str = "1";

/// The ID as characters.
pub open spec fn spec_id() -> Seq<char> {
    seq!['1']
}

/// `ID` is the text of `spec_id`.
pub proof fn lemma_id_text()
    ensures
        ID@ == spec_id(),
{
    reveal_strlit("1");
}

/// What `parse` gives for the argument texts `x` and `y`: both as `i32`,
/// or the first one that is not an `i32`, with its position and text.
pub open spec fn spec_parse(x: Seq<char>, y: Seq<char>) -> Result<(i32, i32), CommandErrorView> {
    match spec_parse_i32(x) {
        None => Err(CommandErrorView::InvalidArgument(0, x)),
        Some(a) => match spec_parse_i32(y) {
            None => Err(CommandErrorView::InvalidArgument(1, y)),
            Some(b) => Ok((a, b)),
        },
    }
}

/// Parses the arguments provided to the correct type.
pub fn parse(x: &str, y: &str) -> (r: Result<Payload, CommandError>)
    ensures
        super::payload_view(r) == spec_parse(x@, y@),
{
    let a = match parse_i32(x) {
        Some(a) => a,
        None => return Err(CommandError::InvalidArgument(0, x.to_owned())),
    };
    let b = match parse_i32(y) {
        Some(b) => b,
        None => return Err(CommandError::InvalidArgument(1, y.to_owned())),
    };
    Ok((a, b))
}

/// Parsing the decimal texts of any two `i32` values gives them back.
pub proof fn lemma_parse_texts(a: i32, b: i32)
    ensures
        spec_parse(i32_text(a), i32_text(b)) == Ok::<(i32, i32), CommandErrorView>((a, b)),
{
    lemma_parse_i32_text(a);
    lemma_parse_i32_text(b);
}

} // verus!
