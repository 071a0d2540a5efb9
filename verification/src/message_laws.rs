//! What each message does to a session.

use vstd::prelude::*;

use crate::cmd::{parsed, TransferType};
use crate::command_laws::{
    after, answers, broken, ends_transfer, gives_up, keeps, rests, says,
};
use crate::error::ErrorView;
use crate::ftp::{AnswerView, ResultCode};
use crate::line::{crlf_index, ends_at, first_ends_at, lemma_crlf_index};
use crate::listing::EntryView;
use crate::session::{
    can_have, Action, ActionView, Msg, MsgView, Outcome, OutcomeView, Session,
};

verus! {

/// Whether `data` hold no end of a line.
pub open spec fn is_open_line(data: Seq<u8>) -> bool {
    forall|i: int| 0 <= i < data.len() - 1 ==> !(#[trigger] data[i] == 0x0d && data[i + 1] == 0x0a)
}

/// A line ends in front of the first pair of bytes that end one, and nowhere
/// where there is no such pair.
pub proof fn lines_end_at_the_first_end(line: Seq<u8>, rest: Seq<u8>)
    requires
        is_open_line(line),
    ensures
        crlf_index(line) is None,
        crlf_index(line + seq![0x0du8, 0x0au8] + rest) == Some(line.len() as int),
{
    let s = line + seq![0x0du8, 0x0au8] + rest;
    let n = line.len() as int;
    assert(ends_at(s, n));
    assert forall|j: int| 0 <= j < n implies !#[trigger] ends_at(s, j) by {
        assert(s[j] == line[j]);
        if j < n - 1 {
            assert(s[j + 1] == line[j + 1]);
        }
    }
    lemma_crlf_index(s, n);
    assert forall|j: int| !#[trigger] first_ends_at(line, j) by {
        if ends_at(line, j) {
            assert(line[j] == 0x0d && line[j + 1] == 0x0a);
        }
    }
}

/// A line that `data` complete is dealt with as a whole, with what came before
/// it, and what follows it is dropped. A line that spells no command is passed
/// over.
pub proof fn lines_are_dealt_with(s: Session, data: Seq<u8>, rest: Seq<u8>)
    requires
        s.wf(),
        is_open_line(data),
    ensures
        ({
            let step = s.update(MsgView::Received(data + seq![0x0du8, 0x0au8] + rest));
            let fresh = Session { current_cmd: Seq::<u8>::empty(), ..s };
            match parsed(s.current_cmd + data) {
                Ok(command) => step == fresh.handle_cmd(command),
                Err(_) => rests(step, fresh),
            }
        }),
{
    lines_end_at_the_first_end(data, rest);
    let whole = data + seq![0x0du8, 0x0au8] + rest;
    assert(whole.take(data.len() as int) =~= data);
}

/// Bytes that complete no line are kept for later.
pub proof fn beginnings_of_lines_are_kept(s: Session, data: Seq<u8>)
    requires
        is_open_line(data),
    ensures
        rests(
            s.update(MsgView::Received(data)),
            Session { current_cmd: s.current_cmd + data, ..s },
        ),
{
    lines_end_at_the_first_end(data, Seq::<u8>::empty());
}

/// A client who connects is welcomed, whether or not the welcome arrives.
pub proof fn clients_are_welcomed(s: Session, reason: Seq<char>)
    ensures
        ({
            let step = s.update(MsgView::Accepted);
            let t = Session { connection: true, ..s };
            &&& says(
                step,
                t,
                ResultCode::ServiceReadyForNewUser,
                "Welcome to this FTP server!"@,
            )
            &&& rests(after(step), t)
            &&& rests(broken(step, reason), t)
        }),
{
}

/// Once the data connection is there, commands are read again, and no other
/// data connection is listened for.
pub proof fn data_connections_are_taken(s: Session)
    ensures
        ({
            let step = s.update(MsgView::DataConnected);
            let t = Session { data_connection: true, ..s };
            let quiet = Session { listener: false, ..t };
            &&& keeps(step, t) && step.1 is Unmute
            &&& s.listener ==> keeps(after(step), quiet) && after(step).1 is DisposeListener
                && rests(after(after(step)), quiet)
            &&& !s.listener ==> rests(after(step), t)
        }),
{
}

/// What arrives for no file is dropped.
pub proof fn data_for_no_file_are_dropped(s: Session, data: Seq<u8>)
    requires
        s.store_path is None,
    ensures
        rests(s.update(MsgView::DataReceived(data)), s),
{
}

/// What arrives for a file is written where it was offered, whole and once.
/// Then the client is told, and the data connection is closed if it is still
/// there.
pub proof fn data_for_a_file_are_written(s: Session, data: Seq<u8>, reason: Seq<char>)
    requires
        s.store_path is Some,
    ensures
        ({
            let step = s.update(MsgView::DataReceived(data));
            let t = Session { store_path: None, ..s };
            &&& keeps(step, t) && step.1 == ActionView::StoreFile(s.store_path->0, data)
            &&& gives_up(broken(step, reason), t, ErrorView::Io(reason))
            &&& s.data_connection ==> ends_transfer(after(step), t)
            &&& !s.data_connection ==> answers(
                after(step),
                t,
                ResultCode::ClosingDataConnection,
                "Transfer done"@,
            )
        }),
{
}

/// Once data have been sent over a data connection, the client is told and the
/// connection is closed; without one there is nothing to do.
pub proof fn sent_data_are_acknowledged(s: Session, told: OutcomeView)
    ensures
        ({
            let step = s.update(MsgView::TransferDone);
            let t = Session { data_connection: false, ..s };
            let closing = step.0.resume(told);
            &&& s.data_connection ==> {
                &&& says(step, s, ResultCode::ClosingDataConnection, "Transfer done"@)
                &&& keeps(closing, t) && closing.1 is CloseData
                &&& rests(after(closing), t)
            }
            &&& !s.data_connection ==> rests(step, s)
        }),
{
}

/// With a control connection, every message can be dealt with but the goodbye
/// of a client whose data connection is open.
pub proof fn only_early_goodbyes_are_not_accepted(s: Session, msg: MsgView)
    requires
        s.connection,
    ensures
        s.accepts(msg) <==> !(s.data_connection && msg is Received && s.line_with(
            msg->Received_0,
        ) is Some && parsed(s.line_with(msg->Received_0)->0) is Ok && parsed(
            s.line_with(msg->Received_0)->0,
        )->Ok_0 is Quit),
{
}

/// Without a control connection, what needs no answer can still be dealt with.
pub proof fn silence_is_accepted(s: Session, data: Seq<u8>, rest: Seq<u8>)
    requires
        !s.connection,
        is_open_line(data),
    ensures
        s.accepts(MsgView::Accepted),
        s.accepts(MsgView::TransferDone),
        s.accepts(MsgView::DataReceived(data)),
        !s.accepts(MsgView::DataConnected),
        s.accepts(MsgView::Received(data)),
        s.accepts(MsgView::Received(data + seq![0x0du8, 0x0au8] + rest)) <==> parsed(
            s.current_cmd + data,
        ) is Err,
{
    lines_end_at_the_first_end(data, rest);
    let whole = data + seq![0x0du8, 0x0au8] + rest;
    assert(whole.take(data.len() as int) =~= data);
}

/// A new session knows nobody, begins at the root of its directory, and has
/// nothing to do.
pub proof fn new_sessions_know_nobody(root: Seq<u8>)
    ensures
        ({
            let s = Session::initial(root);
            &&& !s.connection && !s.data_connection && !s.listener
            &&& s.name is None && !s.logged()
            &&& s.cwd == seq![0x2fu8]
            &&& s.server_root == root
            &&& s.data_port is None && s.store_path is None
            &&& s.current_cmd.len() == 0
            &&& s.transfer_type == TransferType::Ascii
            &&& s.pending is Idle
        }),
{
}

/// Messages, actions and outcomes stand for all that they hold.
pub proof fn what_is_handed_over_is_whole(msg: Msg, action: Action, outcome: Outcome)
    ensures
        match msg {
            Msg::Accepted => msg@ is Accepted,
            Msg::DataConnected => msg@ is DataConnected,
            Msg::DataReceived(data) => msg@ == MsgView::DataReceived(data@),
            Msg::Received(data) => msg@ == MsgView::Received(data@),
            Msg::TransferDone => msg@ is TransferDone,
        },
        match action {
            Action::Finish => action@ is Finish,
            Action::Fail(error) => action@ == ActionView::Fail(error@),
            Action::Send(answer) => action@ == ActionView::Send(
                AnswerView { code: answer.code, message: answer.message@ },
            ),
            Action::SendData(data) => action@ == ActionView::SendData(data@),
            Action::CloseData => action@ is CloseData,
            Action::CloseControl => action@ is CloseControl,
            Action::Mute => action@ is Mute,
            Action::Unmute => action@ is Unmute,
            Action::Listen(port) => action@ == ActionView::Listen(port),
            Action::DisposeListener => action@ is DisposeListener,
            Action::Canonicalize(path) => action@ == ActionView::Canonicalize(path@),
            Action::IsDir(path) => action@ == ActionView::IsDir(path@),
            Action::IsFile(path) => action@ == ActionView::IsFile(path@),
            Action::ReadDir(path) => action@ == ActionView::ReadDir(path@),
            Action::Stat(path) => action@ == ActionView::Stat(path@),
            Action::ReadFile(path) => action@ == ActionView::ReadFile(path@),
            Action::CreateDir(path) => action@ == ActionView::CreateDir(path@),
            Action::RemoveDir(path) => action@ == ActionView::RemoveDir(path@),
            Action::StoreFile(path, data) => action@ == ActionView::StoreFile(path@, data@),
        },
        match outcome {
            Outcome::Done => outcome@ is Done,
            Outcome::Failed(text) => outcome@ == OutcomeView::Failed(text@),
            Outcome::Resolved(path) => outcome@ == OutcomeView::Resolved(path@),
            Outcome::Flag(flag) => outcome@ == OutcomeView::Flag(flag),
            Outcome::Entries(entries) => outcome@ is Entries && {
                let views = outcome@->Entries_0;
                &&& views.len() == entries@.len()
                &&& forall|i: int| #![trigger views[i]]
                    0 <= i < views.len() ==> match entries@[i] {
                        Some(entry) => views[i] == Some(
                            EntryView {
                                path: entry.path@,
                                is_dir: entry.is_dir,
                                info: entry.info,
                            },
                        ),
                        None => views[i] is None,
                    }
            },
            Outcome::Found(entry) => outcome@ == OutcomeView::Found(
                EntryView { path: entry.path@, is_dir: entry.is_dir, info: entry.info },
            ),
            Outcome::Bytes(data) => outcome@ == OutcomeView::Bytes(data@),
            Outcome::Listening(port) => outcome@ == OutcomeView::Listening(port),
        },
{
}

/// Whatever an action brings is an outcome that it can have, and what cannot be
/// performed can fail.
pub proof fn actions_can_go_either_way(
    answer: AnswerView,
    path: Seq<u8>,
    data: Seq<u8>,
    port: u16,
    flag: bool,
    reason: Seq<char>,
)
    ensures
        can_have(ActionView::Send(answer), OutcomeView::Done),
        can_have(ActionView::Send(answer), OutcomeView::Failed(reason)),
        can_have(ActionView::SendData(data), OutcomeView::Done),
        can_have(ActionView::SendData(data), OutcomeView::Failed(reason)),
        can_have(ActionView::CloseData, OutcomeView::Done),
        can_have(ActionView::CloseControl, OutcomeView::Done),
        can_have(ActionView::Mute, OutcomeView::Done),
        can_have(ActionView::Unmute, OutcomeView::Done),
        can_have(ActionView::DisposeListener, OutcomeView::Done),
        can_have(ActionView::Listen(port), OutcomeView::Listening(port)),
        can_have(ActionView::Listen(0), OutcomeView::Listening(port)),
        can_have(ActionView::Listen(port), OutcomeView::Failed(reason)),
        can_have(ActionView::Canonicalize(path), OutcomeView::Resolved(data)),
        can_have(ActionView::Canonicalize(path), OutcomeView::Failed(reason)),
        can_have(ActionView::IsDir(path), OutcomeView::Flag(flag)),
        can_have(ActionView::IsFile(path), OutcomeView::Flag(flag)),
        can_have(ActionView::ReadDir(path), OutcomeView::Failed(reason)),
        can_have(ActionView::ReadFile(path), OutcomeView::Bytes(data)),
        can_have(ActionView::ReadFile(path), OutcomeView::Failed(reason)),
        can_have(ActionView::CreateDir(path), OutcomeView::Done),
        can_have(ActionView::CreateDir(path), OutcomeView::Failed(reason)),
        can_have(ActionView::RemoveDir(path), OutcomeView::Done),
        can_have(ActionView::RemoveDir(path), OutcomeView::Failed(reason)),
        can_have(ActionView::StoreFile(path, data), OutcomeView::Done),
        can_have(ActionView::StoreFile(path, data), OutcomeView::Failed(reason)),
{
}

} // verus!
