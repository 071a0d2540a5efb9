//! Answers to the client, and how they are framed.

use vstd::prelude::*;
use vstd::utf8::encode_utf8;

use crate::text::{decimal, digits, text_bytes};
use crate::text_laws::{digits_read_back, value};

verus! {

/// The kind of an answer.
#[derive(Clone, Copy, Debug, PartialEq, Eq, Structural)]
pub enum ResultCode {
    DataConnectionAlreadyOpen,
    Okay,
    ServiceReadyForNewUser,
    ServiceClosingControlConnection,
    ClosingDataConnection,
    EnteringPassiveMode,
    UserLoggedIn,
    RequestedFileActionOkay,
    PATHNAMECreated,
    UserNameOkayNeedPassword,
    ConnectionClosed,
    LocalErrorInProcessing,
    UnknownCommand,
    InvalidParameterOrArgument,
    CommandNotImplemented,
    NotLoggedIn,
    FileNotFound,
}

/// The number of each kind of answer in the File Transfer Protocol.
pub open spec fn code_number(code: ResultCode) -> u16 {
    match code {
        ResultCode::DataConnectionAlreadyOpen => 125,
        ResultCode::Okay => 200,
        ResultCode::ServiceReadyForNewUser => 220,
        ResultCode::ServiceClosingControlConnection => 221,
        ResultCode::ClosingDataConnection => 226,
        ResultCode::EnteringPassiveMode => 227,
        ResultCode::UserLoggedIn => 230,
        ResultCode::RequestedFileActionOkay => 250,
        ResultCode::PATHNAMECreated => 257,
        ResultCode::UserNameOkayNeedPassword => 331,
        ResultCode::ConnectionClosed => 426,
        ResultCode::LocalErrorInProcessing => 451,
        ResultCode::UnknownCommand => 500,
        ResultCode::InvalidParameterOrArgument => 501,
        ResultCode::CommandNotImplemented => 502,
        ResultCode::NotLoggedIn => 530,
        ResultCode::FileNotFound => 550,
    }
}

impl ResultCode {
    /// The number of the code.
    pub fn number(self) -> (number: u16)
        ensures
            number == code_number(self),
    {
        match self {
            ResultCode::DataConnectionAlreadyOpen => 125,
            ResultCode::Okay => 200,
            ResultCode::ServiceReadyForNewUser => 220,
            ResultCode::ServiceClosingControlConnection => 221,
            ResultCode::ClosingDataConnection => 226,
            ResultCode::EnteringPassiveMode => 227,
            ResultCode::UserLoggedIn => 230,
            ResultCode::RequestedFileActionOkay => 250,
            ResultCode::PATHNAMECreated => 257,
            ResultCode::UserNameOkayNeedPassword => 331,
            ResultCode::ConnectionClosed => 426,
            ResultCode::LocalErrorInProcessing => 451,
            ResultCode::UnknownCommand => 500,
            ResultCode::InvalidParameterOrArgument => 501,
            ResultCode::CommandNotImplemented => 502,
            ResultCode::NotLoggedIn => 530,
            ResultCode::FileNotFound => 550,
        }
    }
}

/// An answer to the client.
#[derive(Debug)]
pub struct Answer {
    pub code: ResultCode,
    pub message: String,
}

/// What an [`Answer`] stands for.
pub struct AnswerView {
    pub code: ResultCode,
    pub message: Seq<char>,
}

impl View for Answer {
    type V = AnswerView;

    open spec fn view(&self) -> AnswerView {
        AnswerView { code: self.code, message: self.message@ }
    }
}

/// The line that carries an answer: its number, a space, its message and the
/// end of the line.
pub open spec fn answer_line(answer: AnswerView) -> Seq<char> {
    digits(code_number(answer.code) as nat) + seq![' '] + answer.message + seq!['\r', '\n']
}

impl Answer {
    /// An answer of the kind `code` that says `message`.
    pub fn new(code: ResultCode, message: &str) -> (answer: Answer)
        ensures
            answer@ == (AnswerView { code, message: message@ }),
    {
        Answer { code, message: message.to_string() }
    }

    /// The bytes that carry the answer to the client.
    pub fn to_bytes(&self) -> (bytes: Vec<u8>)
        ensures
            bytes@ == encode_utf8(answer_line(self@)),
    {
        proof {
            reveal_strlit(" ");
            reveal_strlit("\r\n");
        }
        let mut line: String = decimal(self.code.number() as u64);
        line.append(" ");
        line.append(self.message.as_str());
        line.append("\r\n");
        assert(line@ =~= answer_line(self@));
        text_bytes(&line)
    }
}

/// Every answer is framed alike: three digits, a space, the message, and the
/// end of the line.
pub proof fn answers_are_framed(answer: AnswerView)
    ensures
        ({
            let line = answer_line(answer);
            let end = line.len() as int;
            &&& end == answer.message.len() + 6
            &&& forall|i: int| 0 <= i < 3 ==> '0' <= #[trigger] line[i] <= '9'
            &&& line[3] == ' '
            &&& line.subrange(4, end - 2) == answer.message
            &&& line[end - 2] == '\r'
            &&& line[end - 1] == '\n'
        }),
{
    let number = code_number(answer.code) as nat;
    reveal_with_fuel(digits, 3);
    assert(digits(number).len() == 3);
    let line = answer_line(answer);
    assert forall|i: int| 0 <= i < 3 implies '0' <= #[trigger] line[i] <= '9' by {
        assert(line[i] == digits(number)[i]);
    }
    assert(line.subrange(4, line.len() - 2) =~= answer.message);
}

/// The line of an answer reads back as its number and its message, so that no
/// two answers that differ have the same line.
pub proof fn answers_read_back(a: AnswerView, b: AnswerView)
    ensures
        ({
            let line = answer_line(a);
            let end = line.len() as int;
            &&& value(line.take(3)) == code_number(a.code)
            &&& line.subrange(4, end - 2) == a.message
        }),
        answer_line(a) == answer_line(b) ==> a.message == b.message && code_number(a.code)
            == code_number(b.code),
{
    answers_are_framed(a);
    answers_are_framed(b);
    reveal_with_fuel(digits, 3);
    digits_read_back(code_number(a.code) as nat);
    digits_read_back(code_number(b.code) as nat);
    assert(digits(code_number(a.code) as nat).len() == 3);
    assert(digits(code_number(b.code) as nat).len() == 3);
    assert(answer_line(a).take(3) =~= digits(code_number(a.code) as nat));
    assert(answer_line(b).take(3) =~= digits(code_number(b.code) as nat));
}

/// Every kind of answer has a number of its own, of three digits.
pub proof fn codes_have_numbers_of_their_own(a: ResultCode, b: ResultCode)
    ensures
        100 <= code_number(a) <= 599,
        code_number(a) == code_number(b) ==> a == b,
{
}

} // verus!
