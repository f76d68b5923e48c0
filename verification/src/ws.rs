//! The decisions of the websocket handler: what a text message asks for,
//! and what is sent back.
//!
//! A text message is `job|ID|arg...`: the job id is the text before the
//! first `|`, and the command is the text from the third byte on (the job
//! id is expected to be one character). The reply is `job|item...` when
//! the command ran, or the error's code.
use crate::commands::{
    spec_code, spec_command_from_str, spec_response_text, Command, CommandError, CommandErrorView,
    CommandResponse,
};
use crate::text::{chars_of, split_pieces, split_ranges};
use crate::wire::byte_string_chars;
use bytestring::ByteString;
use vstd::prelude::*;
use vstd::string::StringSliceAdditionalSpecFns;
use vstd::utf8::{decode_utf8, encode_utf8, is_char_boundary};

verus! {

/// The IP to run the WSS on.
pub const IP: &'static str = "127.0.0.1";

/// Define HTTP actor
#[derive(Default)]
pub struct MyWs;

/// The command text of a message: its UTF-8 bytes from the third on,
/// decoded.
pub open spec fn spec_command_text(text: Seq<char>) -> Seq<char> {
    decode_utf8(encode_utf8(text).subrange(2, encode_utf8(text).len() as int))
}

/// The job id of a message: its text before the first `|`.
pub open spec fn spec_job_id(text: Seq<char>) -> Seq<char> {
    split_pieces(text, '|')[0]
}

/// What a command run hands back, by views.
pub open spec fn outcome_view(r: Result<Option<Vec<String>>, CommandError>) -> Result<Seq<Seq<char>>, CommandErrorView> {
    match r {
        Ok(Some(v)) => Ok(v@.map_values(|s: String| s@)),
        Ok(None) => Ok(Seq::empty()),
        Err(e) => Err(e@),
    }
}

/// The reply to a command run: the response `id|data...` (no data when the
/// command returned none), or the error's code.
pub open spec fn spec_reply(id: Seq<char>, outcome: Result<Seq<Seq<char>>, CommandErrorView>) -> Seq<char> {
    match outcome {
        Ok(data) => spec_response_text(id, data),
        Err(e) => spec_code(e),
    }
}

impl MyWs {
    /// Reads a text message: its job id and the command it names.
    ///
    /// The message must have a character boundary at its third byte, where
    /// the command text starts; a caller that slices messages there refuses
    /// the others before calling.
    pub fn parse_text(text: &str) -> (r: Result<(String, Command), CommandError>)
        requires
            is_char_boundary(text.spec_bytes(), 2),
        ensures
            r is Ok <==> spec_command_from_str(spec_command_text(text@)) is Ok,
            r matches Ok((id, c)) ==> id@ == spec_job_id(text@) && spec_command_from_str(
                spec_command_text(text@),
            ) == Ok::<_, CommandErrorView>(c@),
            r matches Err(e) ==> spec_command_from_str(spec_command_text(text@)) == Err::<
                crate::commands::CommandView,
                _,
            >(e@),
    {
        let v = chars_of(text);
        let p = split_ranges(&v, '|');
        let (a, b) = p[0];
        let id = text.substring_char(a, b).to_owned();
        proof {
            vstd::utf8::encode_utf8_valid_utf8(text@);
        }
        let (_, rest) = text.split_at(2);
        proof {
            vstd::utf8::encode_utf8_decode_utf8(rest@);
        }
        assert(rest@ == spec_command_text(text@));
        match Command::from_str(rest) {
            Ok(c) => Ok((id, c)),
            Err(e) => Err(e),
        }
    }

    /// The frame sent back for the run of a command with job `id`.
    pub fn reply(id: String, outcome: Result<Option<Vec<String>>, CommandError>) -> (b: ByteString)
        ensures
            byte_string_chars(b) == spec_reply(id@, outcome_view(outcome)),
    {
        match outcome {
            Ok(x) => {
                let data = match x {
                    Some(d) => d,
                    None => Vec::new(),
                };
                let response = CommandResponse { id, data };
                response.into_byte_string()
            },
            Err(e) => e.into_byte_string(),
        }
    }
}

/// A message made of a one-byte job character that is not `|`, then `|`,
/// then a command text: it can be read (its third byte is a character
/// boundary), its job id is that character, and its command text is the
/// command text as sent.
pub proof fn lemma_message_frame(job: char, command: Seq<char>)
    requires
        (job as u32) < 0x80,
        job != '|',
    ensures
        is_char_boundary(encode_utf8(seq![job, '|'] + command), 2),
        spec_command_text(seq![job, '|'] + command) == command,
        spec_job_id(seq![job, '|'] + command) == seq![job],
{
    let t = seq![job, '|'] + command;
    let tail = seq!['|'] + command;
    assert(t.drop_first() =~= tail);
    assert(tail.drop_first() =~= command);
    assert(t[0] == job);
    assert(tail[0] == '|');
    let b0 = vstd::utf8::leading_byte_width_1(job as u32);
    let b1 = vstd::utf8::leading_byte_width_1('|' as u32);
    let x = job as u32;
    assert(((x & 0x7F) as u8) <= 0x7f) by (bit_vector);
    let y = '|' as u32;
    assert(((y & 0x7F) as u8) <= 0x7f) by (bit_vector);
    let rest = encode_utf8(command);
    assert(encode_utf8(tail) == seq![b1] + rest);
    assert(encode_utf8(t) == seq![b0] + (seq![b1] + rest));
    let bytes = encode_utf8(t);
    assert(bytes =~= seq![b0, b1] + rest);
    vstd::utf8::encode_utf8_valid_utf8(t);
    vstd::utf8::encode_utf8_valid_utf8(command);
    assert(vstd::utf8::pop_first_scalar(bytes) =~= seq![b1] + rest);
    assert(vstd::utf8::pop_first_scalar(seq![b1] + rest) =~= rest);
    assert(vstd::utf8::valid_utf8(seq![b1] + rest));
    reveal_with_fuel(is_char_boundary, 3);
    assert(bytes.subrange(2, bytes.len() as int) =~= rest);
    vstd::utf8::encode_utf8_decode_utf8(command);
    crate::text::lemma_split_pieces_concat(seq![job], command, '|');
    assert(seq![job].push('|') + command =~= t);
    crate::text::lemma_split_state_no_sep(seq![job], '|');
    assert(!seq![job].contains('|')) by {
        if seq![job].contains('|') {
            let i = choose|i: int| 0 <= i < 1 && seq![job][i] == '|';
            assert(seq![job][i] == job);
        }
    }
}

/// The job id comes back: the reply to a message `job|command` whose
/// command ran and handed back data items without `|` splits at `|` into
/// the job id, then the items (or one empty item when there are none).
pub proof fn lemma_reply_echoes_job(job: char, command: Seq<char>, data: Seq<Seq<char>>)
    requires
        (job as u32) < 0x80,
        job != '|',
        forall|i: int| 0 <= i < data.len() ==> !(#[trigger] data[i]).contains('|'),
    ensures
        data.len() > 0 ==> split_pieces(spec_reply(spec_job_id(seq![job, '|'] + command), Ok(data)), '|')
            == seq![seq![job]] + data,
        data.len() == 0 ==> split_pieces(spec_reply(spec_job_id(seq![job, '|'] + command), Ok(data)), '|')
            == seq![seq![job], Seq::<char>::empty()],
{
    lemma_message_frame(job, command);
    assert(!seq![job].contains('|')) by {
        if seq![job].contains('|') {
            let i = choose|i: int| 0 <= i < 1 && seq![job][i] == '|';
            assert(seq![job][i] == job);
        }
    }
    crate::commands::lemma_response_pieces(seq![job], data);
}

} // verus!
