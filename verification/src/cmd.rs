//! The commands of a client, and how a line spells them.

use vstd::prelude::*;
use vstd::utf8::{decode_utf8, valid_utf8};

use crate::error::{Error, ErrorView};
use crate::path::{copy_range, FilePath};
use crate::text::{read_text, reads};

verus! {

pub const SPACE: u8 = 0x20;

pub const COMMA: u8 = 0x2c;

/// How data are represented while they are transferred.
#[derive(Clone, Copy, Debug, PartialEq, Eq, Structural)]
pub enum TransferType {
    Ascii,
    Image,
}

/// A command of the client.
pub enum Command {
    Auth,
    CdUp,
    Cwd(FilePath),
    List(Option<FilePath>),
    Mkd(FilePath),
    NoOp,
    Pass(String),
    Pasv,
    Port(u16),
    Pwd,
    Quit,
    Retr(FilePath),
    Rmd(FilePath),
    Stor(FilePath),
    Syst,
    Type(TransferType),
    Unknown(String),
    User(String),
}

/// What a [`Command`] stands for.
pub enum CommandView {
    Auth,
    CdUp,
    Cwd(Seq<u8>),
    List(Option<Seq<u8>>),
    Mkd(Seq<u8>),
    NoOp,
    Pass(Seq<char>),
    Pasv,
    Port(u16),
    Pwd,
    Quit,
    Retr(Seq<u8>),
    Rmd(Seq<u8>),
    Stor(Seq<u8>),
    Syst,
    Type(TransferType),
    Unknown(Seq<char>),
    User(Seq<char>),
}

impl View for Command {
    type V = CommandView;

    open spec fn view(&self) -> CommandView {
        match self {
            Command::Auth => CommandView::Auth,
            Command::CdUp => CommandView::CdUp,
            Command::Cwd(path) => CommandView::Cwd(path@),
            Command::List(path) => CommandView::List(
                match path {
                    Some(path) => Some(path@),
                    None => None,
                },
            ),
            Command::Mkd(path) => CommandView::Mkd(path@),
            Command::NoOp => CommandView::NoOp,
            Command::Pass(text) => CommandView::Pass(text@),
            Command::Pasv => CommandView::Pasv,
            Command::Port(port) => CommandView::Port(*port),
            Command::Pwd => CommandView::Pwd,
            Command::Quit => CommandView::Quit,
            Command::Retr(path) => CommandView::Retr(path@),
            Command::Rmd(path) => CommandView::Rmd(path@),
            Command::Stor(path) => CommandView::Stor(path@),
            Command::Syst => CommandView::Syst,
            Command::Type(kind) => CommandView::Type(*kind),
            Command::Unknown(text) => CommandView::Unknown(text@),
            Command::User(text) => CommandView::User(text@),
        }
    }
}

/// How many bytes stand before the first space of a line.
pub open spec fn word_len(line: Seq<u8>) -> int
    decreases line.len(),
{
    if line.len() == 0 || line[0] == SPACE {
        0
    } else {
        1 + word_len(line.drop_first())
    }
}

/// A letter in upper case; any other byte as it is.
pub open spec fn upper(byte: u8) -> u8 {
    if 0x61 <= byte <= 0x7a {
        (byte - 0x20) as u8
    } else {
        byte
    }
}

/// Letters in upper case.
pub open spec fn uppered(bytes: Seq<u8>) -> Seq<u8> {
    Seq::new(bytes.len(), |i: int| upper(bytes[i]))
}

/// The word that a line begins with, in upper case.
pub open spec fn word_of(line: Seq<u8>) -> Seq<u8> {
    uppered(line.take(word_len(line)))
}

/// What follows the first space of a line, if it has one.
pub open spec fn argument_of(line: Seq<u8>) -> Option<Seq<u8>> {
    if word_len(line) < line.len() {
        Some(line.skip(word_len(line) + 1))
    } else {
        None
    }
}

/// The error of a command that lacks its argument.
pub open spec fn no_argument() -> ErrorView {
    ErrorView::Msg("no command parameter"@)
}

/// The error of a command of which a text is no UTF-8.
pub open spec fn no_text() -> ErrorView {
    ErrorView::Msg("invalid UTF-8"@)
}

/// The argument, which the command cannot do without.
pub open spec fn needed(argument: Option<Seq<u8>>) -> Result<Seq<u8>, ErrorView> {
    match argument {
        Some(bytes) => Ok(bytes),
        None => Err(no_argument()),
    }
}

/// The argument as text.
pub open spec fn needed_text(argument: Option<Seq<u8>>) -> Result<Seq<char>, ErrorView> {
    match argument {
        Some(bytes) => if valid_utf8(bytes) {
            Ok(decode_utf8(bytes))
        } else {
            Err(no_text())
        },
        None => Err(no_argument()),
    }
}

/// The fields of a list that commas part.
pub open spec fn fields(list: Seq<u8>) -> Seq<Seq<u8>>
    decreases list.len(),
{
    if list.len() == 0 {
        seq![seq![]]
    } else {
        let before = fields(list.drop_last());
        if list.last() == COMMA {
            before.push(seq![])
        } else {
            before.drop_last().push(before.last().push(list.last()))
        }
    }
}

/// The number that decimal digits spell.
pub open spec fn number(spelling: Seq<u8>) -> int
    decreases spelling.len(),
{
    if spelling.len() == 0 {
        0
    } else {
        number(spelling.drop_last()) * 10 + (spelling.last() - 0x30)
    }
}

/// Whether one to three digits spell a number that fits in a byte.
pub open spec fn is_byte(spelling: Seq<u8>) -> bool {
    &&& 1 <= spelling.len() <= 3
    &&& forall|i: int| 0 <= i < spelling.len() ==> 0x30 <= #[trigger] spelling[i] <= 0x39
    &&& number(spelling) <= 255
}

/// The port of an address that is spelled as four bytes of a host and two of
/// a port.
pub open spec fn port_of(address: Seq<u8>) -> Option<int> {
    let parts = fields(address);
    if parts.len() == 6 && (forall|i: int| 0 <= i < 6 ==> is_byte(#[trigger] parts[i])) {
        Some(number(parts[4]) * 256 + number(parts[5]))
    } else {
        None
    }
}

/// The representation that a type code asks for.
pub open spec fn type_of(code: Seq<u8>) -> Option<TransferType> {
    let code = uppered(code);
    if !valid_utf8(code) {
        None
    } else if decode_utf8(code) == "A"@ || decode_utf8(code) == "A N"@ {
        Some(TransferType::Ascii)
    } else if decode_utf8(code) == "I"@ || decode_utf8(code) == "L 8"@ {
        Some(TransferType::Image)
    } else {
        None
    }
}

/// The command that a word and its argument ask for.
pub open spec fn command_of(word: Seq<char>, argument: Option<Seq<u8>>) -> Result<
    CommandView,
    ErrorView,
> {
    if word == "AUTH"@ {
        Ok(CommandView::Auth)
    } else if word == "CDUP"@ {
        Ok(CommandView::CdUp)
    } else if word == "CWD"@ {
        match needed(argument) {
            Ok(path) => Ok(CommandView::Cwd(path)),
            Err(error) => Err(error),
        }
    } else if word == "LIST"@ {
        Ok(CommandView::List(argument))
    } else if word == "MKD"@ {
        match needed(argument) {
            Ok(path) => Ok(CommandView::Mkd(path)),
            Err(error) => Err(error),
        }
    } else if word == "NOOP"@ {
        Ok(CommandView::NoOp)
    } else if word == "PASS"@ {
        match needed_text(argument) {
            Ok(text) => Ok(CommandView::Pass(text)),
            Err(error) => Err(error),
        }
    } else if word == "PASV"@ {
        Ok(CommandView::Pasv)
    } else if word == "PORT"@ {
        match needed(argument) {
            Ok(address) => match port_of(address) {
                Some(port) => Ok(CommandView::Port(port as u16)),
                None => Err(ErrorView::Msg("invalid address"@)),
            },
            Err(error) => Err(error),
        }
    } else if word == "PWD"@ {
        Ok(CommandView::Pwd)
    } else if word == "QUIT"@ {
        Ok(CommandView::Quit)
    } else if word == "RETR"@ {
        match needed(argument) {
            Ok(path) => Ok(CommandView::Retr(path)),
            Err(error) => Err(error),
        }
    } else if word == "RMD"@ {
        match needed(argument) {
            Ok(path) => Ok(CommandView::Rmd(path)),
            Err(error) => Err(error),
        }
    } else if word == "STOR"@ {
        match needed(argument) {
            Ok(path) => Ok(CommandView::Stor(path)),
            Err(error) => Err(error),
        }
    } else if word == "SYST"@ {
        Ok(CommandView::Syst)
    } else if word == "TYPE"@ {
        match needed(argument) {
            Ok(code) => match type_of(code) {
                Some(kind) => Ok(CommandView::Type(kind)),
                None => Err(ErrorView::Msg("unknown transfer type"@)),
            },
            Err(error) => Err(error),
        }
    } else if word == "USER"@ {
        match needed_text(argument) {
            Ok(text) => Ok(CommandView::User(text)),
            Err(error) => Err(error),
        }
    } else {
        Ok(CommandView::Unknown(word))
    }
}

/// The command that a line spells.
pub open spec fn parsed(line: Seq<u8>) -> Result<CommandView, ErrorView> {
    if valid_utf8(word_of(line)) {
        command_of(decode_utf8(word_of(line)), argument_of(line))
    } else {
        Err(no_text())
    }
}

/// Whether a result is what its model says.
pub open spec fn result_matches(
    result: Result<Command, Error>,
    model: Result<CommandView, ErrorView>,
) -> bool {
    match (result, model) {
        (Ok(command), Ok(view)) => command@ == view,
        (Err(error), Err(view)) => error@ == view,
        _ => false,
    }
}

/// What an optional row of bytes stands for.
pub open spec fn bytes_view(bytes: Option<Vec<u8>>) -> Option<Seq<u8>> {
    match bytes {
        Some(bytes) => Some(bytes@),
        None => None,
    }
}

/// Letters in upper case.
fn to_upper(bytes: &Vec<u8>) -> (result: Vec<u8>)
    ensures
        result@ == uppered(bytes@),
{
    let mut result: Vec<u8> = Vec::new();
    let mut i: usize = 0;
    while i < bytes.len()
        invariant
            i <= bytes@.len(),
            result@ == uppered(bytes@.take(i as int)),
        decreases bytes.len() - i,
    {
        let byte: u8 = bytes[i];
        if 0x61 <= byte && byte <= 0x7a {
            result.push(byte - 0x20);
        } else {
            result.push(byte);
        }
        assert(result@ =~= uppered(bytes@.take(i + 1)));
        i += 1;
    }
    assert(bytes@.take(i as int) =~= bytes@);
    result
}

/// The word that a line begins with, in upper case, and its argument.
fn split_line(line: &Vec<u8>) -> (result: (Vec<u8>, Option<Vec<u8>>))
    ensures
        result.0@ == word_of(line@),
        bytes_view(result.1) == argument_of(line@),
{
    let mut end: usize = 0;
    assert(line@.skip(0) =~= line@);
    while end < line.len() && line[end] != SPACE
        invariant
            end <= line@.len(),
            word_len(line@) == end + word_len(line@.skip(end as int)),
        decreases line.len() - end,
    {
        assert(line@.skip(end as int).drop_first() =~= line@.skip(end + 1));
        end += 1;
    }
    let word: Vec<u8> = copy_range(line, 0, end);
    let argument: Option<Vec<u8>> = if end < line.len() {
        Some(copy_range(line, end + 1, line.len()))
    } else {
        None
    };
    (to_upper(&word), argument)
}

/// The fields of a list that commas part.
fn split_fields(list: &Vec<u8>) -> (result: Vec<Vec<u8>>)
    ensures
        result@.len() == fields(list@).len(),
        forall|k: int| 0 <= k < result@.len() ==> (#[trigger] result@[k])@ == fields(list@)[k],
{
    let mut result: Vec<Vec<u8>> = Vec::new();
    let mut field: Vec<u8> = Vec::new();
    let mut i: usize = 0;
    assert(list@.take(0) =~= seq![]);
    while i < list.len()
        invariant
            i <= list@.len(),
            fields(list@.take(i as int)).len() == result@.len() + 1,
            forall|k: int|
                0 <= k < result@.len() ==> (#[trigger] result@[k])@ == fields(
                    list@.take(i as int),
                )[k],
            field@ == fields(list@.take(i as int)).last(),
        decreases list.len() - i,
    {
        assert(list@.take(i + 1).drop_last() =~= list@.take(i as int));
        if list[i] == COMMA {
            result.push(field);
            field = Vec::new();
        } else {
            field.push(list[i]);
        }
        i += 1;
    }
    assert(list@.take(i as int) =~= list@);
    result.push(field);
    result
}

/// The number that digits spell, where it fits in a byte.
fn read_byte(spelling: &Vec<u8>) -> (result: Option<u16>)
    ensures
        match result {
            Some(value) => is_byte(spelling@) && value == number(spelling@),
            None => !is_byte(spelling@),
        },
{
    if spelling.len() == 0 || spelling.len() > 3 {
        return None;
    }
    let mut value: u16 = 0;
    let mut i: usize = 0;
    while i < spelling.len()
        invariant
            i <= spelling@.len() <= 3,
            i == 0 ==> value == 0,
            i == 1 ==> value <= 9,
            i == 2 ==> value <= 99,
            i == 3 ==> value <= 999,
            value == number(spelling@.take(i as int)),
            forall|k: int| 0 <= k < i ==> 0x30 <= #[trigger] spelling@[k] <= 0x39,
        decreases spelling.len() - i,
    {
        let byte: u8 = spelling[i];
        if byte < 0x30 || byte > 0x39 {
            return None;
        }
        assert(spelling@.take(i + 1).drop_last() =~= spelling@.take(i as int));
        value = value * 10 + (byte - 0x30) as u16;
        i += 1;
    }
    assert(spelling@.take(i as int) =~= spelling@);
    if value <= 255 {
        Some(value)
    } else {
        None
    }
}

/// The port of an address.
fn read_port(address: &Vec<u8>) -> (result: Option<u16>)
    ensures
        match result {
            Some(port) => port_of(address@) == Some(port as int),
            None => port_of(address@) is None,
        },
{
    let parts: Vec<Vec<u8>> = split_fields(address);
    let ghost all = fields(address@);
    if parts.len() != 6 {
        return None;
    }
    let mut high: u16 = 0;
    let mut low: u16 = 0;
    let mut i: usize = 0;
    while i < 6
        invariant
            i <= 6,
            parts@.len() == 6,
            all == fields(address@),
            all.len() == 6,
            forall|k: int| 0 <= k < 6 ==> (#[trigger] parts@[k])@ == all[k],
            forall|k: int| 0 <= k < i ==> is_byte(#[trigger] all[k]),
            i == 5 ==> low == number(all[4]),
            i == 6 ==> high == number(all[4]) && low == number(all[5]),
            high <= 255,
            low <= 255,
        decreases 6 - i,
    {
        assert(parts@[i as int]@ == all[i as int]);
        match read_byte(&parts[i]) {
            Some(value) => {
                high = low;
                low = value;
            },
            None => {
                assert(!is_byte(all[i as int]));
                return None;
            },
        }
        i += 1;
    }
    Some(high * 256 + low)
}

/// The representation that a type code asks for.
fn read_type(code: &Vec<u8>) -> (result: Option<TransferType>)
    ensures
        result == type_of(code@),
{
    match read_text(&to_upper(code)) {
        Some(text) => {
            if reads(&text, "A") || reads(&text, "A N") {
                Some(TransferType::Ascii)
            } else if reads(&text, "I") || reads(&text, "L 8") {
                Some(TransferType::Image)
            } else {
                None
            }
        },
        None => None,
    }
}

/// The argument, which the command cannot do without, as a path.
fn need_path(argument: Option<Vec<u8>>) -> (result: Result<FilePath, Error>)
    ensures
        match (result, needed(bytes_view(argument))) {
            (Ok(path), Ok(bytes)) => path@ == bytes,
            (Err(error), Err(view)) => error@ == view,
            _ => false,
        },
{
    match argument {
        Some(bytes) => Ok(FilePath::from_bytes(bytes)),
        None => Err(Error::msg("no command parameter")),
    }
}

/// The argument, which the command cannot do without, as text.
fn need_text(argument: Option<Vec<u8>>) -> (result: Result<String, Error>)
    ensures
        match (result, needed_text(bytes_view(argument))) {
            (Ok(text), Ok(view)) => text@ == view,
            (Err(error), Err(view)) => error@ == view,
            _ => false,
        },
{
    match argument {
        Some(bytes) => match read_text(&bytes) {
            Some(text) => Ok(text),
            None => Err(Error::msg("invalid UTF-8")),
        },
        None => Err(Error::msg("no command parameter")),
    }
}

impl Command {
    /// Reads a command line, without the end of the line.
    pub fn new(line: Vec<u8>) -> (result: Result<Command, Error>)
        ensures
            result_matches(result, parsed(line@)),
    {
        let (word, argument): (Vec<u8>, Option<Vec<u8>>) = split_line(&line);
        match read_text(&word) {
            Some(word) => Command::from_word(word, argument),
            None => Err(Error::msg("invalid UTF-8")),
        }
    }

    /// The command that a word and its argument ask for.
    fn from_word(word: String, argument: Option<Vec<u8>>) -> (result: Result<Command, Error>)
        ensures
            result_matches(result, command_of(word@, bytes_view(argument))),
    {
        if reads(&word, "AUTH") {
            Ok(Command::Auth)
        } else if reads(&word, "CDUP") {
            Ok(Command::CdUp)
        } else if reads(&word, "CWD") {
            match need_path(argument) {
                Ok(path) => Ok(Command::Cwd(path)),
                Err(error) => Err(error),
            }
        } else if reads(&word, "LIST") {
            match argument {
                Some(bytes) => Ok(Command::List(Some(FilePath::from_bytes(bytes)))),
                None => Ok(Command::List(None)),
            }
        } else if reads(&word, "MKD") {
            match need_path(argument) {
                Ok(path) => Ok(Command::Mkd(path)),
                Err(error) => Err(error),
            }
        } else if reads(&word, "NOOP") {
            Ok(Command::NoOp)
        } else if reads(&word, "PASS") {
            match need_text(argument) {
                Ok(text) => Ok(Command::Pass(text)),
                Err(error) => Err(error),
            }
        } else if reads(&word, "PASV") {
            Ok(Command::Pasv)
        } else if reads(&word, "PORT") {
            match argument {
                Some(address) => match read_port(&address) {
                    Some(port) => Ok(Command::Port(port)),
                    None => Err(Error::msg("invalid address")),
                },
                None => Err(Error::msg("no command parameter")),
            }
        } else if reads(&word, "PWD") {
            Ok(Command::Pwd)
        } else if reads(&word, "QUIT") {
            Ok(Command::Quit)
        } else if reads(&word, "RETR") {
            match need_path(argument) {
                Ok(path) => Ok(Command::Retr(path)),
                Err(error) => Err(error),
            }
        } else if reads(&word, "RMD") {
            match need_path(argument) {
                Ok(path) => Ok(Command::Rmd(path)),
                Err(error) => Err(error),
            }
        } else if reads(&word, "STOR") {
            match need_path(argument) {
                Ok(path) => Ok(Command::Stor(path)),
                Err(error) => Err(error),
            }
        } else if reads(&word, "SYST") {
            Ok(Command::Syst)
        } else if reads(&word, "TYPE") {
            match argument {
                Some(code) => match read_type(&code) {
                    Some(kind) => Ok(Command::Type(kind)),
                    None => Err(Error::msg("unknown transfer type")),
                },
                None => Err(Error::msg("no command parameter")),
            }
        } else if reads(&word, "USER") {
            match need_text(argument) {
                Ok(text) => Ok(Command::User(text)),
                Err(error) => Err(error),
            }
        } else {
            Ok(Command::Unknown(word))
        }
    }
}

} // verus!
