//! The commands that a client sends over the websocket, their errors, and
//! the replies.
//!
//! A command is the text `ID|arg|arg...`: the pieces between `|`, the first
//! one naming the command. A reply is `job|item|item...`, or the one-digit
//! code of an error.
pub mod mouse1click;
pub mod mousemoveabs;
pub mod mousemouserel;
pub mod setclipboard;

use crate::text::{chars_of, range_equals, range_is_char, split_pieces, split_ranges};
use crate::wire::{byte_string_chars, byte_string_from};
use bytestring::ByteString;
use vstd::prelude::*;

verus! {

/// A command response.
pub struct CommandResponse {
    /// The response id (job id).
    pub id: String,
    /// The response data.
    pub data: Vec<String>,
}

/// The possible error codes.
#[derive(Debug)]
pub enum CommandError {
    CouldNotFindCommand,
    NotEnoughArguments,
    InvalidArgument(u8, String),
    SystemError(i32),
    BadlyFormattedCommand,
}

/// A `CommandError` with its text as characters.
pub enum CommandErrorView {
    CouldNotFindCommand,
    NotEnoughArguments,
    InvalidArgument(u8, Seq<char>),
    SystemError(i32),
    BadlyFormattedCommand,
}

impl View for CommandError {
    type V = CommandErrorView;

    open spec fn view(&self) -> CommandErrorView {
        match self {
            CommandError::CouldNotFindCommand => CommandErrorView::CouldNotFindCommand,
            CommandError::NotEnoughArguments => CommandErrorView::NotEnoughArguments,
            CommandError::InvalidArgument(i, s) => CommandErrorView::InvalidArgument(*i, s@),
            CommandError::SystemError(c) => CommandErrorView::SystemError(*c),
            CommandError::BadlyFormattedCommand => CommandErrorView::BadlyFormattedCommand,
        }
    }
}

/// The error of a text that names no error: `CommandError::from_code` knows
/// only the five codes.
#[derive(Debug, PartialEq, Eq, Structural)]
pub enum ParseCodeError {
    VariantNotFound,
}

/// Holds all of the commands.
pub enum Command {
    /// x
    SetClipboard(setclipboard::Payload),
    /// x, y
    MouseMoveRel(mousemouserel::Payload),
    /// x, y
    MouseMoveAbs(mousemoveabs::Payload),
    Mouse1Click(mouse1click::Payload),
}

/// A `Command` with its text as characters.
pub enum CommandView {
    SetClipboard(Seq<char>),
    MouseMoveRel(i32, i32),
    MouseMoveAbs(i32, i32),
    Mouse1Click,
}

impl View for Command {
    type V = CommandView;

    open spec fn view(&self) -> CommandView {
        match self {
            Command::SetClipboard(x) => CommandView::SetClipboard(x@),
            Command::MouseMoveRel(p) => CommandView::MouseMoveRel(p.0, p.1),
            Command::MouseMoveAbs(p) => CommandView::MouseMoveAbs(p.0, p.1),
            Command::Mouse1Click(_) => CommandView::Mouse1Click,
        }
    }
}

/// The view of a parsed pair of coordinates or its error.
pub open spec fn payload_view(r: Result<(i32, i32), CommandError>) -> Result<(i32, i32), CommandErrorView> {
    match r {
        Ok(p) => Ok(p),
        Err(e) => Err(e@),
    }
}

/// The view of a parsed command or its error.
pub open spec fn command_view(r: Result<Command, CommandError>) -> Result<CommandView, CommandErrorView> {
    match r {
        Ok(c) => Ok(c@),
        Err(e) => Err(e@),
    }
}

/// The command that the pieces `p` of a command text (split at `|`) name.
/// The first piece is the ID; each command takes exactly its own number of
/// arguments, and any other number is `NotEnoughArguments`.
pub open spec fn spec_from_pieces(p: Seq<Seq<char>>) -> Result<CommandView, CommandErrorView> {
    if p[0] == setclipboard::spec_id() {
        if p.len() == 2 {
            Ok(CommandView::SetClipboard(p[1]))
        } else {
            Err(CommandErrorView::NotEnoughArguments)
        }
    } else if p[0] == mousemouserel::spec_id() {
        if p.len() == 3 {
            match mousemouserel::spec_parse(p[1], p[2]) {
                Ok((x, y)) => Ok(CommandView::MouseMoveRel(x, y)),
                Err(e) => Err(e),
            }
        } else {
            Err(CommandErrorView::NotEnoughArguments)
        }
    } else if p[0] == mousemoveabs::spec_id() {
        if p.len() == 3 {
            match mousemoveabs::spec_parse(p[1], p[2]) {
                Ok((x, y)) => Ok(CommandView::MouseMoveAbs(x, y)),
                Err(e) => Err(e),
            }
        } else {
            Err(CommandErrorView::NotEnoughArguments)
        }
    } else if p[0] == mouse1click::spec_id() {
        if p.len() == 1 {
            Ok(CommandView::Mouse1Click)
        } else {
            Err(CommandErrorView::NotEnoughArguments)
        }
    } else {
        Err(CommandErrorView::CouldNotFindCommand)
    }
}

/// The command that the text `s` names.
pub open spec fn spec_command_from_str(s: Seq<char>) -> Result<CommandView, CommandErrorView> {
    spec_from_pieces(split_pieces(s, '|'))
}

impl Command {
    /// Parses a command text `ID|arg|...`.
    pub fn from_str(s: &str) -> (r: Result<Command, CommandError>)
        ensures
            command_view(r) == spec_command_from_str(s@),
    {
        let v = chars_of(s);
        let p = split_ranges(&v, '|');
        let ghost pieces = split_pieces(v@, '|');
        let (a0, b0) = p[0];
        let set_clipboard_id = chars_of(setclipboard::ID);
        let move_rel_id = chars_of(mousemouserel::ID);
        let move_abs_id = chars_of(mousemoveabs::ID);
        let click_id = chars_of(mouse1click::ID);
        proof {
            setclipboard::lemma_id_text();
            mousemouserel::lemma_id_text();
            mousemoveabs::lemma_id_text();
            mouse1click::lemma_id_text();
        }
        if range_equals(&v, a0, b0, &set_clipboard_id) {
            if p.len() == 2 {
                let (a, b) = p[1];
                match setclipboard::parse(s.substring_char(a, b)) {
                    Ok(x) => Ok(Command::SetClipboard(x)),
                    Err(e) => Err(e),
                }
            } else {
                Err(CommandError::NotEnoughArguments)
            }
        } else if range_equals(&v, a0, b0, &move_rel_id) {
            if p.len() == 3 {
                let (a, b) = p[1];
                let (c, d) = p[2];
                match mousemouserel::parse(s.substring_char(a, b), s.substring_char(c, d)) {
                    Ok(x) => Ok(Command::MouseMoveRel(x)),
                    Err(e) => Err(e),
                }
            } else {
                Err(CommandError::NotEnoughArguments)
            }
        } else if range_equals(&v, a0, b0, &move_abs_id) {
            if p.len() == 3 {
                let (a, b) = p[1];
                let (c, d) = p[2];
                match mousemoveabs::parse(s.substring_char(a, b), s.substring_char(c, d)) {
                    Ok(x) => Ok(Command::MouseMoveAbs(x)),
                    Err(e) => Err(e),
                }
            } else {
                Err(CommandError::NotEnoughArguments)
            }
        } else if range_equals(&v, a0, b0, &click_id) {
            if p.len() == 1 {
                match mouse1click::parse() {
                    Ok(x) => Ok(Command::Mouse1Click(x)),
                    Err(e) => Err(e),
                }
            } else {
                Err(CommandError::NotEnoughArguments)
            }
        } else {
            Err(CommandError::CouldNotFindCommand)
        }
    }
}

/// The code that stands for each error: one digit.
pub open spec fn spec_code(e: CommandErrorView) -> Seq<char> {
    match e {
        CommandErrorView::CouldNotFindCommand => seq!['0'],
        CommandErrorView::NotEnoughArguments => seq!['1'],
        CommandErrorView::InvalidArgument(_, _) => seq!['2'],
        CommandErrorView::SystemError(_) => seq!['3'],
        CommandErrorView::BadlyFormattedCommand => seq!['4'],
    }
}

/// The error that a code names: the variant, with its fields at their
/// default values. Any other text names none.
pub open spec fn spec_from_code(s: Seq<char>) -> Option<CommandErrorView> {
    if s.len() != 1 {
        None
    } else if s[0] == '0' {
        Some(CommandErrorView::CouldNotFindCommand)
    } else if s[0] == '1' {
        Some(CommandErrorView::NotEnoughArguments)
    } else if s[0] == '2' {
        Some(CommandErrorView::InvalidArgument(0, Seq::empty()))
    } else if s[0] == '3' {
        Some(CommandErrorView::SystemError(0))
    } else if s[0] == '4' {
        Some(CommandErrorView::BadlyFormattedCommand)
    } else {
        None
    }
}

impl CommandError {
    /// The error's code, the text it is sent as.
    pub fn to_text(&self) -> (t: String)
        ensures
            t@ == spec_code(self@),
    {
        match self {
            CommandError::CouldNotFindCommand => {
                proof {
                    reveal_strlit("0");
                }
                String::from_str("0")
            },
            CommandError::NotEnoughArguments => {
                proof {
                    reveal_strlit("1");
                }
                String::from_str("1")
            },
            CommandError::InvalidArgument(_, _) => {
                proof {
                    reveal_strlit("2");
                }
                String::from_str("2")
            },
            CommandError::SystemError(_) => {
                proof {
                    reveal_strlit("3");
                }
                String::from_str("3")
            },
            CommandError::BadlyFormattedCommand => {
                proof {
                    reveal_strlit("4");
                }
                String::from_str("4")
            },
        }
    }

    /// The error as the websocket frame it is sent in.
    pub fn into_byte_string(self) -> (b: ByteString)
        ensures
            byte_string_chars(b) == spec_code(self@),
    {
        byte_string_from(self.to_text())
    }

    /// The error that a code names, its fields at their default values.
    pub fn from_code(s: &str) -> (r: Result<CommandError, ParseCodeError>)
        ensures
            match r {
                Ok(e) => spec_from_code(s@) == Some(e@),
                Err(_) => spec_from_code(s@) is None,
            },
    {
        let v = chars_of(s);
        let n = v.len();
        if range_is_char(&v, 0, n, '0') {
            assert(v@.subrange(0, n as int) =~= v@);
            Ok(CommandError::CouldNotFindCommand)
        } else if range_is_char(&v, 0, n, '1') {
            assert(v@.subrange(0, n as int) =~= v@);
            Ok(CommandError::NotEnoughArguments)
        } else if range_is_char(&v, 0, n, '2') {
            assert(v@.subrange(0, n as int) =~= v@);
            let empty = String::new();
            Ok(CommandError::InvalidArgument(0, empty))
        } else if range_is_char(&v, 0, n, '3') {
            assert(v@.subrange(0, n as int) =~= v@);
            Ok(CommandError::SystemError(0))
        } else if range_is_char(&v, 0, n, '4') {
            assert(v@.subrange(0, n as int) =~= v@);
            Ok(CommandError::BadlyFormattedCommand)
        } else {
            assert(v@.subrange(0, n as int) =~= v@);
            Err(ParseCodeError::VariantNotFound)
        }
    }
}

/// Joins the pieces with `sep` between neighbours, as `[String]::join`.
pub open spec fn join_pieces(parts: Seq<Seq<char>>, sep: char) -> Seq<char>
    decreases parts.len(),
{
    if parts.len() == 0 {
        Seq::empty()
    } else if parts.len() == 1 {
        parts[0]
    } else {
        join_pieces(parts.drop_last(), sep).push(sep) + parts.last()
    }
}

/// The text of a response: the job id, `|`, and the data joined by `|`.
pub open spec fn spec_response_text(id: Seq<char>, data: Seq<Seq<char>>) -> Seq<char> {
    id.push('|') + join_pieces(data, '|')
}

/// The texts of a list of strings.
pub open spec fn texts_of(v: Seq<String>) -> Seq<Seq<char>> {
    v.map_values(|s: String| s@)
}

impl CommandResponse {
    /// The response as text: `id|item|item...`.
    pub fn to_text(&self) -> (t: String)
        ensures
            t@ == spec_response_text(self.id@, texts_of(self.data@)),
    {
        let ghost data = texts_of(self.data@);
        proof {
            reveal_strlit("|");
        }
        let mut t = String::from_str(self.id.as_str());
        t.append("|");
        let mut i: usize = 0;
        while i < self.data.len()
            invariant
                i <= self.data.len(),
                data == texts_of(self.data@),
                "|"@ == seq!['|'],
                t@ == self.id@.push('|') + join_pieces(data.take(i as int), '|'),
            decreases self.data.len() - i,
        {
            assert(data.take(i + 1).drop_last() =~= data.take(i as int));
            if i > 0 {
                t.append("|");
            }
            t.append(self.data[i].as_str());
            proof {
                let prev = self.id@.push('|') + join_pieces(data.take(i as int), '|');
                if i == 0 {
                    assert(data.take(1) =~= seq![data[0]]);
                    assert(prev =~= self.id@.push('|'));
                } else {
                    assert(join_pieces(data.take(i + 1), '|') == join_pieces(data.take(i as int), '|').push('|') + data[i as int]);
                }
                assert(data[i as int] == self.data@[i as int]@);
            }
            i = i + 1;
        }
        assert(data.take(i as int) =~= data);
        t
    }

    /// The response as the websocket frame it is sent in.
    pub fn into_byte_string(self) -> (b: ByteString)
        ensures
            byte_string_chars(b) == spec_response_text(self.id@, texts_of(self.data@)),
    {
        byte_string_from(self.to_text())
    }
}

/// Joining pieces that hold no `sep`, then splitting at `sep`, gives the
/// pieces back (for at least one piece).
pub proof fn lemma_split_join(parts: Seq<Seq<char>>, sep: char)
    requires
        parts.len() > 0,
        forall|i: int| 0 <= i < parts.len() ==> !(#[trigger] parts[i]).contains(sep),
    ensures
        split_pieces(join_pieces(parts, sep), sep) == parts,
    decreases parts.len(),
{
    if parts.len() == 1 {
        crate::text::lemma_split_state_no_sep(parts[0], sep);
        assert(split_pieces(parts[0], sep) =~= parts);
    } else {
        let init = parts.drop_last();
        assert forall|i: int| 0 <= i < init.len() implies !(#[trigger] init[i]).contains(sep) by {
            assert(init[i] == parts[i]);
        }
        lemma_split_join(init, sep);
        crate::text::lemma_split_pieces_concat(join_pieces(init, sep), parts.last(), sep);
        assert(!parts.last().contains(sep)) by {
            assert(parts[parts.len() - 1] == parts.last());
        }
        crate::text::lemma_split_state_no_sep(parts.last(), sep);
        assert(split_pieces(parts.last(), sep) =~= seq![parts.last()]);
        assert(init + seq![parts.last()] =~= parts);
    }
}

/// What a client reading a response gets back: splitting the response
/// text at `|` gives the job id, then the data items (or one empty item
/// when there is no data), as long as neither the id nor an item holds `|`.
pub proof fn lemma_response_pieces(id: Seq<char>, data: Seq<Seq<char>>)
    requires
        !id.contains('|'),
        forall|i: int| 0 <= i < data.len() ==> !(#[trigger] data[i]).contains('|'),
    ensures
        data.len() > 0 ==> split_pieces(spec_response_text(id, data), '|') == seq![id] + data,
        data.len() == 0 ==> split_pieces(spec_response_text(id, data), '|') == seq![id, Seq::<char>::empty()],
{
    crate::text::lemma_split_pieces_concat(id, join_pieces(data, '|'), '|');
    crate::text::lemma_split_state_no_sep(id, '|');
    assert(split_pieces(id, '|') =~= seq![id]);
    if data.len() > 0 {
        lemma_split_join(data, '|');
    } else {
        crate::text::lemma_split_state_no_sep(Seq::<char>::empty(), '|');
        assert(split_pieces(Seq::<char>::empty(), '|') =~= seq![Seq::<char>::empty()]);
        assert(seq![id] + seq![Seq::<char>::empty()] =~= seq![id, Seq::<char>::empty()]);
    }
}

/// Every error is sent as a code that names its own variant again: reading
/// the code back gives the same error, but for the fields of
/// `InvalidArgument` and `SystemError`, which come back at their defaults.
pub proof fn lemma_code_names_variant(e: CommandErrorView)
    ensures
        spec_from_code(spec_code(e)) == Some(match e {
            CommandErrorView::InvalidArgument(_, _) => CommandErrorView::InvalidArgument(0, Seq::empty()),
            CommandErrorView::SystemError(_) => CommandErrorView::SystemError(0),
            _ => e,
        }),
        spec_code(e).len() == 1,
{
    assert(spec_code(e).len() == 1);
    assert(spec_code(e)[0] == match e {
        CommandErrorView::CouldNotFindCommand => '0',
        CommandErrorView::NotEnoughArguments => '1',
        CommandErrorView::InvalidArgument(_, _) => '2',
        CommandErrorView::SystemError(_) => '3',
        CommandErrorView::BadlyFormattedCommand => '4',
    });
}

/// Different variants are sent as different codes.
pub proof fn lemma_codes_distinct(e1: CommandErrorView, e2: CommandErrorView)
    requires
        spec_code(e1) == spec_code(e2),
    ensures
        spec_from_code(spec_code(e1)) == spec_from_code(spec_code(e2)),
        (e1 is CouldNotFindCommand) == (e2 is CouldNotFindCommand),
        (e1 is NotEnoughArguments) == (e2 is NotEnoughArguments),
        (e1 is InvalidArgument) == (e2 is InvalidArgument),
        (e1 is SystemError) == (e2 is SystemError),
        (e1 is BadlyFormattedCommand) == (e2 is BadlyFormattedCommand),
{
    assert(spec_code(e1)[0] == spec_code(e2)[0]);
    lemma_code_names_variant(e1);
    lemma_code_names_variant(e2);
}

impl std::str::FromStr for Command {
    type Err = CommandError;

    /// Parses a command text `ID|arg|...`, as `Command::from_str`.
    fn from_str(s: &str) -> Result<Command, CommandError> {
        Command::from_str(s)
    }
}

impl std::str::FromStr for CommandError {
    type Err = ParseCodeError;

    /// Reads an error code, as `CommandError::from_code`.
    fn from_str(s: &str) -> Result<CommandError, ParseCodeError> {
        CommandError::from_code(s)
    }
}

/// The text of an `i32` holds no `|`.
proof fn lemma_i32_text_no_bar(v: i32)
    ensures
        !crate::number::i32_text(v).contains('|'),
{
    let m: nat = if v < 0 {
        (-(v as int)) as nat
    } else {
        v as nat
    };
    crate::number::lemma_decimal_text(m);
    let d = crate::number::decimal_text(m);
    let t = crate::number::i32_text(v);
    if t.contains('|') {
        let i = choose|i: int| 0 <= i < t.len() && t[i] == '|';
        if v < 0 {
            assert(t == seq!['-'] + d);
            if i > 0 {
                assert(t[i] == d[i - 1]);
                assert(crate::number::is_digit(d[i - 1]));
            }
        } else {
            assert(crate::number::is_digit(d[i]));
        }
    }
}

/// The pieces of `[c] | x | y` for texts `x`, `y` without `|`.
proof fn lemma_three_pieces(c: char, x: Seq<char>, y: Seq<char>)
    requires
        c != '|',
        !x.contains('|'),
        !y.contains('|'),
    ensures
        split_pieces(seq![c, '|'] + x + seq!['|'] + y, '|') == seq![seq![c], x, y],
{
    let tail = x.push('|') + y;
    assert(seq![c, '|'] + x + seq!['|'] + y =~= seq![c].push('|') + tail);
    crate::text::lemma_split_pieces_concat(seq![c], tail, '|');
    crate::text::lemma_split_pieces_concat(x, y, '|');
    assert(!seq![c].contains('|')) by {
        if seq![c].contains('|') {
            let i = choose|i: int| 0 <= i < 1 && seq![c][i] == '|';
            assert(seq![c][i] == c);
        }
    }
    crate::text::lemma_split_state_no_sep(seq![c], '|');
    crate::text::lemma_split_state_no_sep(x, '|');
    crate::text::lemma_split_state_no_sep(y, '|');
    assert(split_pieces(seq![c], '|') =~= seq![seq![c]]);
    assert(split_pieces(x, '|') =~= seq![x]);
    assert(split_pieces(y, '|') =~= seq![y]);
    assert(seq![seq![c]] + (seq![x] + seq![y]) =~= seq![seq![c], x, y]);
}

/// Moving the mouse by any offset, negative ones included: the text
/// `0|x|y` with the decimal texts of any two `i32` values reads as the
/// relative move by exactly those values.
pub proof fn lemma_move_rel_text(a: i32, b: i32)
    ensures
        spec_command_from_str(
            seq!['0', '|'] + crate::number::i32_text(a) + seq!['|'] + crate::number::i32_text(b),
        ) == Ok::<CommandView, CommandErrorView>(CommandView::MouseMoveRel(a, b)),
{
    lemma_i32_text_no_bar(a);
    lemma_i32_text_no_bar(b);
    lemma_three_pieces('0', crate::number::i32_text(a), crate::number::i32_text(b));
    assert(seq!['0'] != setclipboard::spec_id()) by {
        assert(seq!['0'][0] != setclipboard::spec_id()[0]);
    }
    mousemouserel::lemma_parse_texts(a, b);
}

/// Moving the mouse to any position: the text `1|x|y` with the decimal
/// texts of any two `i32` values reads as the absolute move to exactly
/// those values.
pub proof fn lemma_move_abs_text(a: i32, b: i32)
    ensures
        spec_command_from_str(
            seq!['1', '|'] + crate::number::i32_text(a) + seq!['|'] + crate::number::i32_text(b),
        ) == Ok::<CommandView, CommandErrorView>(CommandView::MouseMoveAbs(a, b)),
{
    lemma_i32_text_no_bar(a);
    lemma_i32_text_no_bar(b);
    lemma_three_pieces('1', crate::number::i32_text(a), crate::number::i32_text(b));
    assert(seq!['1'] != setclipboard::spec_id()) by {
        assert(seq!['1'][0] != setclipboard::spec_id()[0]);
    }
    assert(seq!['1'] != mousemouserel::spec_id()) by {
        assert(seq!['1'][0] != mousemouserel::spec_id()[0]);
    }
    mousemoveabs::lemma_parse_texts(a, b);
}

/// The clipboard text is taken verbatim: `2|t` reads as setting the
/// clipboard to exactly `t`, for every text `t` without `|` (line breaks,
/// spaces and the empty text included).
pub proof fn lemma_set_clipboard_text(t: Seq<char>)
    requires
        !t.contains('|'),
    ensures
        spec_command_from_str(seq!['2', '|'] + t) == Ok::<CommandView, CommandErrorView>(
            CommandView::SetClipboard(t),
        ),
{
    assert(seq!['2', '|'] + t =~= seq!['2'].push('|') + t);
    crate::text::lemma_split_pieces_concat(seq!['2'], t, '|');
    assert(!seq!['2'].contains('|')) by {
        if seq!['2'].contains('|') {
            let i = choose|i: int| 0 <= i < 1 && seq!['2'][i] == '|';
            assert(seq!['2'][i] == '2');
        }
    }
    crate::text::lemma_split_state_no_sep(seq!['2'], '|');
    crate::text::lemma_split_state_no_sep(t, '|');
    assert(split_pieces(seq!['2'], '|') =~= seq![seq!['2']]);
    assert(split_pieces(t, '|') =~= seq![t]);
    assert(seq![seq!['2']] + seq![t] =~= seq![seq!['2'], t]);
}

} // verus!
