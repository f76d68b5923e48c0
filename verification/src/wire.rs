//! The text frames that go back over the websocket, as `bytestring`
//! values.
use bytestring::ByteString;
use vstd::prelude::*;

verus! {

/// `bytestring::ByteString`, the frame type the websocket sends text in.
#[verifier::external_type_specification]
#[verifier::external_body]
pub struct ExByteString(ByteString);

/// The characters that a `ByteString` holds.
pub uninterp spec fn byte_string_chars(b: ByteString) -> Seq<char>;

/// Calls `ByteString::from(String)`. The claim: the new byte string holds
/// exactly the text of the string (the crate wraps the string's own UTF-8
/// buffer, `Bytes::from(value)`).
#[verifier::external_body]
pub(crate) fn byte_string_from(s: String) -> (b: ByteString)
    ensures
        byte_string_chars(b) == s@,
{
    ByteString::from(s)
}

} // verus!
