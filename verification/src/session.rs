//! The session of one client, step by step.
//!
//! A session never touches the network or the file system. It takes a
//! message, says which action to perform, and waits for the outcome, until
//! there is nothing left to do.

use vstd::prelude::*;
use vstd::utf8::{decode_utf8, valid_utf8};

use crate::cmd::{parsed, CommandView, TransferType};
use crate::error::{Error, ErrorView};
use crate::ftp::{Answer, AnswerView, ResultCode};
use crate::line::crlf_index;
use crate::listing::{
    entry_line, entry_views, has_month, have_months, listing, Entry, EntryView,
};
use crate::path::{
    components, file_name_of, is_below, is_rooted, joined, parent_of, placed, stripped, with_root,
    ComponentView, FilePath, SLASH,
};
use crate::text::{digits, lossy_text};
use crate::user::{account_of, admin_account, opens, user_accounts};

verus! {

/// What happens to a session from outside.
pub enum Msg {
    /// The client connected.
    Accepted,
    /// The client opened a data connection.
    DataConnected,
    /// The client sent data over the data connection and closed it.
    DataReceived(Vec<u8>),
    /// The client sent bytes over the control connection.
    Received(Vec<u8>),
    /// Data were sent over the data connection.
    TransferDone,
}

/// What a [`Msg`] stands for.
pub enum MsgView {
    Accepted,
    DataConnected,
    DataReceived(Seq<u8>),
    Received(Seq<u8>),
    TransferDone,
}

impl View for Msg {
    type V = MsgView;

    open spec fn view(&self) -> MsgView {
        match self {
            Msg::Accepted => MsgView::Accepted,
            Msg::DataConnected => MsgView::DataConnected,
            Msg::DataReceived(data) => MsgView::DataReceived(data@),
            Msg::Received(data) => MsgView::Received(data@),
            Msg::TransferDone => MsgView::TransferDone,
        }
    }
}

/// What a session asks for next.
pub enum Action {
    /// Nothing: the message is dealt with.
    Finish,
    /// Nothing: the message could not be dealt with.
    Fail(Error),
    /// Write an answer to the control connection.
    Send(Answer),
    /// Write bytes to the data connection.
    SendData(Vec<u8>),
    /// Close the data connection.
    CloseData,
    /// Close the control connection.
    CloseControl,
    /// Stop reading from the control connection.
    Mute,
    /// Read from the control connection again.
    Unmute,
    /// Listen for a data connection on a local port; 0 leaves the choice to
    /// the system.
    Listen(u16),
    /// Stop listening for a data connection.
    DisposeListener,
    /// Find the path that a path leads to, through all links.
    Canonicalize(FilePath),
    /// Find out whether a path leads to a directory.
    IsDir(FilePath),
    /// Find out whether a path leads to a file.
    IsFile(FilePath),
    /// Read the entries of a directory.
    ReadDir(FilePath),
    /// Find out about one file.
    Stat(FilePath),
    /// Read a file.
    ReadFile(FilePath),
    /// Make a directory.
    CreateDir(FilePath),
    /// Remove a directory and all that it holds.
    RemoveDir(FilePath),
    /// Make a file that holds the bytes given.
    StoreFile(FilePath, Vec<u8>),
}

/// What an [`Action`] stands for.
pub enum ActionView {
    Finish,
    Fail(ErrorView),
    Send(AnswerView),
    SendData(Seq<u8>),
    CloseData,
    CloseControl,
    Mute,
    Unmute,
    Listen(u16),
    DisposeListener,
    Canonicalize(Seq<u8>),
    IsDir(Seq<u8>),
    IsFile(Seq<u8>),
    ReadDir(Seq<u8>),
    Stat(Seq<u8>),
    ReadFile(Seq<u8>),
    CreateDir(Seq<u8>),
    RemoveDir(Seq<u8>),
    StoreFile(Seq<u8>, Seq<u8>),
}

impl View for Action {
    type V = ActionView;

    open spec fn view(&self) -> ActionView {
        match self {
            Action::Finish => ActionView::Finish,
            Action::Fail(error) => ActionView::Fail(error@),
            Action::Send(answer) => ActionView::Send(answer@),
            Action::SendData(data) => ActionView::SendData(data@),
            Action::CloseData => ActionView::CloseData,
            Action::CloseControl => ActionView::CloseControl,
            Action::Mute => ActionView::Mute,
            Action::Unmute => ActionView::Unmute,
            Action::Listen(port) => ActionView::Listen(*port),
            Action::DisposeListener => ActionView::DisposeListener,
            Action::Canonicalize(path) => ActionView::Canonicalize(path@),
            Action::IsDir(path) => ActionView::IsDir(path@),
            Action::IsFile(path) => ActionView::IsFile(path@),
            Action::ReadDir(path) => ActionView::ReadDir(path@),
            Action::Stat(path) => ActionView::Stat(path@),
            Action::ReadFile(path) => ActionView::ReadFile(path@),
            Action::CreateDir(path) => ActionView::CreateDir(path@),
            Action::RemoveDir(path) => ActionView::RemoveDir(path@),
            Action::StoreFile(path, data) => ActionView::StoreFile(path@, data@),
        }
    }
}

/// How an action went.
pub enum Outcome {
    /// It was performed.
    Done,
    /// It failed, for the reason given.
    Failed(String),
    /// Where a path leads to.
    Resolved(FilePath),
    /// The answer to a question.
    Flag(bool),
    /// The entries of a directory; `None` where one could not be read.
    Entries(Vec<Option<Entry>>),
    /// What was found out about one file.
    Found(Entry),
    /// The bytes of a file.
    Bytes(Vec<u8>),
    /// The port that is listened on.
    Listening(u16),
}

/// What an [`Outcome`] stands for.
pub enum OutcomeView {
    Done,
    Failed(Seq<char>),
    Resolved(Seq<u8>),
    Flag(bool),
    Entries(Seq<Option<EntryView>>),
    Found(EntryView),
    Bytes(Seq<u8>),
    Listening(u16),
}

impl View for Outcome {
    type V = OutcomeView;

    open spec fn view(&self) -> OutcomeView {
        match self {
            Outcome::Done => OutcomeView::Done,
            Outcome::Failed(text) => OutcomeView::Failed(text@),
            Outcome::Resolved(path) => OutcomeView::Resolved(path@),
            Outcome::Flag(flag) => OutcomeView::Flag(*flag),
            Outcome::Entries(entries) => OutcomeView::Entries(entry_views(entries@)),
            Outcome::Found(entry) => OutcomeView::Found(entry@),
            Outcome::Bytes(data) => OutcomeView::Bytes(data@),
            Outcome::Listening(port) => OutcomeView::Listening(*port),
        }
    }
}

/// What a session waits for, and what it needs to know then.
pub enum Pending {
    /// For the next message.
    Idle,
    /// For its last action; that the action fails is an error.
    Last,
    /// For its last action, however it goes.
    Ignored,
    /// Where the new working directory leads to, which the client gave.
    Cwd(FilePath),
    /// Where the directory to remove leads to.
    Rmd,
    /// For a directory to be removed.
    RmdRemoved,
    /// Where the parent of the directory to make leads to, and the directory.
    Mkd(FilePath),
    /// Whether that is a directory, the directory to make and the parent.
    MkdParent(FilePath, FilePath),
    /// For a directory to be made.
    MkdCreated,
    /// Where the path to list leads to.
    List,
    /// For the answer that announces the listing of the path.
    ListAnnounced(FilePath),
    /// Whether the path to list is a directory.
    ListKind(FilePath),
    /// For the entries of the directory to list.
    ListEntries,
    /// For the file to list.
    ListFile,
    /// For the port of the data connection.
    Pasv,
    /// For the answer that gives the port.
    PasvAnswered,
    /// For the answer that says goodbye.
    QuitAnswered,
    /// Where the file to send leads to, and the path of the file.
    Retr(FilePath),
    /// Whether the path to send is a file.
    RetrKind(FilePath),
    /// For the answer that announces the file.
    RetrAnnounced(FilePath),
    /// For the bytes of the file.
    RetrBytes,
    /// For the file to be sent, or for the answer that there is none.
    RetrSent,
    /// For the data connection to be closed after a transfer.
    Closed,
    /// For the file of the client to be written.
    Stored,
    /// For the control connection to be read again.
    Unmuted,
    /// For the answer that a transfer is done, before the data connection is
    /// closed.
    TransferAnswered,
}

/// What a [`Pending`] stands for.
pub enum PendingView {
    Idle,
    Last,
    Ignored,
    Cwd(Seq<u8>),
    Rmd,
    RmdRemoved,
    Mkd(Seq<u8>),
    MkdParent(Seq<u8>, Seq<u8>),
    MkdCreated,
    List,
    ListAnnounced(Seq<u8>),
    ListKind(Seq<u8>),
    ListEntries,
    ListFile,
    Pasv,
    PasvAnswered,
    QuitAnswered,
    Retr(Seq<u8>),
    RetrKind(Seq<u8>),
    RetrAnnounced(Seq<u8>),
    RetrBytes,
    RetrSent,
    Closed,
    Stored,
    Unmuted,
    TransferAnswered,
}

impl View for Pending {
    type V = PendingView;

    open spec fn view(&self) -> PendingView {
        match self {
            Pending::Idle => PendingView::Idle,
            Pending::Last => PendingView::Last,
            Pending::Ignored => PendingView::Ignored,
            Pending::Cwd(path) => PendingView::Cwd(path@),
            Pending::Rmd => PendingView::Rmd,
            Pending::RmdRemoved => PendingView::RmdRemoved,
            Pending::Mkd(path) => PendingView::Mkd(path@),
            Pending::MkdParent(path, parent) => PendingView::MkdParent(path@, parent@),
            Pending::MkdCreated => PendingView::MkdCreated,
            Pending::List => PendingView::List,
            Pending::ListAnnounced(path) => PendingView::ListAnnounced(path@),
            Pending::ListKind(path) => PendingView::ListKind(path@),
            Pending::ListEntries => PendingView::ListEntries,
            Pending::ListFile => PendingView::ListFile,
            Pending::Pasv => PendingView::Pasv,
            Pending::PasvAnswered => PendingView::PasvAnswered,
            Pending::QuitAnswered => PendingView::QuitAnswered,
            Pending::Retr(path) => PendingView::Retr(path@),
            Pending::RetrKind(path) => PendingView::RetrKind(path@),
            Pending::RetrAnnounced(path) => PendingView::RetrAnnounced(path@),
            Pending::RetrBytes => PendingView::RetrBytes,
            Pending::RetrSent => PendingView::RetrSent,
            Pending::Closed => PendingView::Closed,
            Pending::Stored => PendingView::Stored,
            Pending::Unmuted => PendingView::Unmuted,
            Pending::TransferAnswered => PendingView::TransferAnswered,
        }
    }
}

/// The state of a session.
#[verifier::ext_equal]
pub struct Session {
    /// Whether there is a control connection.
    pub connection: bool,
    /// The start of a command line whose end has not come.
    pub current_cmd: Seq<u8>,
    /// The working directory, as the client sees it.
    pub cwd: Seq<u8>,
    /// Whether there is a data connection.
    pub data_connection: bool,
    /// The port that the client asked for.
    pub data_port: Option<u16>,
    /// Whether the name is that of the administrator.
    pub is_admin: bool,
    /// Whether a data connection is listened for.
    pub listener: bool,
    /// Who the client says they are.
    pub name: Option<Seq<char>>,
    /// Where to put the file that the client is about to send.
    pub store_path: Option<Seq<u8>>,
    /// The directory that the client sees as the root.
    pub server_root: Seq<u8>,
    pub transfer_type: TransferType,
    /// Whether the name still lacks its password.
    pub waiting_password: bool,
    pub pending: PendingView,
}

/// The state after a step, and the action that it asks for.
pub type Step = (Session, ActionView);

impl Session {
    /// The session of a client who has yet to connect.
    pub open spec fn initial(server_root: Seq<u8>) -> Session {
        Session {
            connection: false,
            current_cmd: seq![],
            cwd: seq![SLASH],
            data_connection: false,
            data_port: None,
            is_admin: true,
            listener: false,
            name: None,
            store_path: None,
            server_root,
            transfer_type: TransferType::Ascii,
            waiting_password: false,
            pending: PendingView::Idle,
        }
    }

    /// What holds of a session at all times.
    pub open spec fn wf(self) -> bool {
        &&& self.name is Some && self.is_admin ==> admin_account() is Some
        &&& self.data_connection ==> self.connection
        &&& self.store_path is Some ==> self.connection
        &&& !(self.pending is Idle) ==> self.connection
        &&& is_rooted(self.cwd)
    }

    /// Whether the client has logged in.
    pub open spec fn logged(self) -> bool {
        self.name is Some && !self.waiting_password
    }

    /// Waits for `pending`.
    pub open spec fn waiting(self, pending: PendingView) -> Session {
        Session { pending, ..self }
    }

    /// Deals with nothing more.
    pub open spec fn finished(self) -> Step {
        (self.waiting(PendingView::Idle), ActionView::Finish)
    }

    /// Gives up.
    pub open spec fn failed(self, error: ErrorView) -> Step {
        (self.waiting(PendingView::Idle), ActionView::Fail(error))
    }

    /// Sends an answer, and then waits for `pending`.
    pub open spec fn sending(
        self,
        pending: PendingView,
        code: ResultCode,
        message: Seq<char>,
    ) -> Step {
        (self.waiting(pending), ActionView::Send(AnswerView { code, message }))
    }

    /// Sends a last answer.
    pub open spec fn answered(self, code: ResultCode, message: Seq<char>) -> Step {
        self.sending(PendingView::Last, code, message)
    }

    /// Where a path that the client gives lies below the root of the server.
    pub open spec fn located(self, path: Seq<u8>) -> Seq<u8> {
        placed(self.server_root, joined(self.cwd, path))
    }

    /// Whether a path leads to something that the client may reach: it was
    /// resolved, and lies below the root of the server.
    pub open spec fn reaches(self, outcome: OutcomeView) -> bool {
        outcome is Resolved && is_below(outcome->Resolved_0, self.server_root)
    }

    /// Why a path cannot be reached: it could not be resolved, for a reason of
    /// the system, or it lies outside the root of the server, where nothing is
    /// permitted.
    pub open spec fn refusal(self, outcome: OutcomeView) -> ErrorView
        recommends
            !self.reaches(outcome),
    {
        match outcome {
            OutcomeView::Failed(text) => ErrorView::Io(text),
            _ => ErrorView::PermissionDenied,
        }
    }

    /// `CWD`: asks where the directory leads to.
    pub open spec fn cwd(self, directory: Seq<u8>) -> Step {
        (
            self.waiting(PendingView::Cwd(directory)),
            ActionView::Canonicalize(self.located(directory)),
        )
    }

    /// `CWD`, once it is known where the directory leads to.
    pub open spec fn cwd_resolved(self, directory: Seq<u8>, outcome: OutcomeView) -> Step {
        if self.reaches(outcome) {
            let rest = stripped(outcome->Resolved_0, self.server_root)->0;
            let moved = Session { cwd: with_root(rest), ..self };
            moved.answered(
                ResultCode::RequestedFileActionOkay,
                "Directory changed to \""@ + lossy_text(directory) + "\""@,
            )
        } else {
            self.answered(ResultCode::FileNotFound, "No such file or directory"@)
        }
    }

    /// `RMD`: asks where the directory leads to.
    pub open spec fn rmd(self, directory: Seq<u8>) -> Step {
        (self.waiting(PendingView::Rmd), ActionView::Canonicalize(self.located(directory)))
    }

    /// `RMD` that did not work.
    pub open spec fn rmd_refused(self) -> Step {
        self.answered(ResultCode::FileNotFound, "Couldn't remove folder"@)
    }

    /// `RMD`, once it is known where the directory leads to.
    pub open spec fn rmd_resolved(self, outcome: OutcomeView) -> Step {
        if self.reaches(outcome) {
            (
                self.waiting(PendingView::RmdRemoved),
                ActionView::RemoveDir(outcome->Resolved_0),
            )
        } else {
            self.rmd_refused()
        }
    }

    /// `RMD`, once the directory has been removed or not.
    pub open spec fn rmd_removed(self, outcome: OutcomeView) -> Step {
        if outcome is Done {
            self.answered(ResultCode::RequestedFileActionOkay, "Folder successfully removed"@)
        } else {
            self.rmd_refused()
        }
    }

    /// `MKD`: asks where the parent of the directory leads to.
    pub open spec fn mkd(self, path: Seq<u8>) -> Step {
        match parent_of(joined(self.cwd, path)) {
            Some(parent) => (
                self.waiting(PendingView::Mkd(joined(self.cwd, path))),
                ActionView::Canonicalize(placed(self.server_root, parent)),
            ),
            None => self.mkd_refused(),
        }
    }

    /// `MKD` that did not work.
    pub open spec fn mkd_refused(self) -> Step {
        self.answered(ResultCode::FileNotFound, "Couldn't create folder"@)
    }

    /// `MKD`, once it is known where the parent leads to.
    pub open spec fn mkd_resolved(self, path: Seq<u8>, outcome: OutcomeView) -> Step {
        if self.reaches(outcome) {
            (
                self.waiting(PendingView::MkdParent(path, outcome->Resolved_0)),
                ActionView::IsDir(outcome->Resolved_0),
            )
        } else {
            self.mkd_refused()
        }
    }

    /// `MKD`, once it is known whether the parent is a directory.
    pub open spec fn mkd_checked(
        self,
        path: Seq<u8>,
        parent: Seq<u8>,
        outcome: OutcomeView,
    ) -> Step {
        if outcome == OutcomeView::Flag(true) && file_name_of(path) is Some {
            (
                self.waiting(PendingView::MkdCreated),
                ActionView::CreateDir(joined(parent, file_name_of(path)->0)),
            )
        } else {
            self.mkd_refused()
        }
    }

    /// `MKD`, once the directory has been made or not.
    pub open spec fn mkd_created(self, outcome: OutcomeView) -> Step {
        if outcome is Done {
            self.answered(ResultCode::PATHNAMECreated, "Folder successfully created!"@)
        } else {
            self.mkd_refused()
        }
    }

    /// The answer to a transfer without a data connection.
    pub open spec fn no_data_connection(self) -> Step {
        self.answered(ResultCode::ConnectionClosed, "No opened data connection"@)
    }

    /// Sends data, where there is a data connection, and then waits for
    /// `pending`.
    pub open spec fn send_data(self, pending: PendingView, data: Seq<u8>) -> Step {
        if self.data_connection {
            (self.waiting(pending), ActionView::SendData(data))
        } else {
            self.finished()
        }
    }

    /// `LIST`: asks where the path leads to.
    pub open spec fn list(self, path: Option<Seq<u8>>) -> Step {
        if self.data_connection {
            let path = match path {
                Some(path) => path,
                None => seq![],
            };
            (self.waiting(PendingView::List), ActionView::Canonicalize(self.located(path)))
        } else {
            self.no_data_connection()
        }
    }

    /// `LIST` of something that cannot be listed.
    pub open spec fn list_refused(self) -> Step {
        self.answered(ResultCode::InvalidParameterOrArgument, "No such file or directory"@)
    }

    /// `LIST`, once it is known where the path leads to.
    pub open spec fn list_resolved(self, outcome: OutcomeView) -> Step {
        if self.reaches(outcome) {
            self.sending(
                PendingView::ListAnnounced(outcome->Resolved_0),
                ResultCode::DataConnectionAlreadyOpen,
                "Starting to list directory..."@,
            )
        } else {
            self.list_refused()
        }
    }

    /// `LIST`, once it has been announced.
    pub open spec fn list_announced(self, path: Seq<u8>, outcome: OutcomeView) -> Step {
        match outcome {
            OutcomeView::Failed(text) => self.failed(ErrorView::Io(text)),
            _ => (self.waiting(PendingView::ListKind(path)), ActionView::IsDir(path)),
        }
    }

    /// `LIST`, once it is known whether the path is a directory.
    pub open spec fn list_checked(self, path: Seq<u8>, outcome: OutcomeView) -> Step {
        if outcome == OutcomeView::Flag(true) {
            (self.waiting(PendingView::ListEntries), ActionView::ReadDir(path))
        } else {
            (self.waiting(PendingView::ListFile), ActionView::Stat(path))
        }
    }

    /// `LIST`, once the entries of the directory are known.
    pub open spec fn list_entries(self, outcome: OutcomeView) -> Step {
        match outcome {
            OutcomeView::Entries(entries) => self.send_data(PendingView::Last, listing(entries)),
            _ => self.list_refused(),
        }
    }

    /// `LIST`, once the file is known.
    pub open spec fn list_file(self, outcome: OutcomeView) -> Step {
        match outcome {
            OutcomeView::Found(entry) => self.send_data(PendingView::Last, entry_line(entry)),
            _ => self.send_data(PendingView::Last, seq![]),
        }
    }

    /// `PASV`: asks for a port to listen on.
    pub open spec fn pasv(self) -> Step {
        if self.data_connection {
            self.answered(ResultCode::DataConnectionAlreadyOpen, "Already listening..."@)
        } else {
            (
                self.waiting(PendingView::Pasv),
                ActionView::Listen(
                    match self.data_port {
                        Some(port) => port,
                        None => 0,
                    },
                ),
            )
        }
    }

    /// `PASV`, once the port is known.
    pub open spec fn pasv_listening(self, outcome: OutcomeView) -> Step {
        match outcome {
            OutcomeView::Listening(port) => (Session { listener: true, ..self }).sending(
                PendingView::PasvAnswered,
                ResultCode::EnteringPassiveMode,
                "127,0,0,1,"@ + digits((port / 256) as nat) + ","@ + digits((port % 256) as nat),
            ),
            OutcomeView::Failed(text) => self.failed(ErrorView::Io(text)),
            _ => self.finished(),
        }
    }

    /// `PASV`, once the port has been told.
    pub open spec fn pasv_answered(self, outcome: OutcomeView) -> Step {
        match outcome {
            OutcomeView::Failed(text) => self.failed(ErrorView::Io(text)),
            _ => (self.waiting(PendingView::Ignored), ActionView::Mute),
        }
    }

    /// `QUIT`: says goodbye.
    pub open spec fn quit(self) -> Step {
        self.sending(
            PendingView::QuitAnswered,
            ResultCode::ServiceClosingControlConnection,
            "Closing connection..."@,
        )
    }

    /// `QUIT`, once goodbye has been said.
    pub open spec fn quit_answered(self, outcome: OutcomeView) -> Step {
        match outcome {
            OutcomeView::Failed(text) => self.failed(ErrorView::Io(text)),
            _ => (self.waiting(PendingView::Ignored), ActionView::CloseControl),
        }
    }

    /// `RETR`: asks where the file leads to.
    pub open spec fn retr(self, path: Seq<u8>) -> Step {
        if self.data_connection {
            (
                self.waiting(PendingView::Retr(joined(self.cwd, path))),
                ActionView::Canonicalize(self.located(path)),
            )
        } else {
            self.no_data_connection()
        }
    }

    /// `RETR` of something that is no file.
    pub open spec fn retr_refused(self, path: Seq<u8>) -> Step {
        if valid_utf8(path) {
            self.sending(
                PendingView::RetrSent,
                ResultCode::LocalErrorInProcessing,
                "\""@ + decode_utf8(path) + "\" doesn't exist"@,
            )
        } else {
            self.failed(ErrorView::Msg("No path"@))
        }
    }

    /// `RETR`, once it is known where the file leads to.
    pub open spec fn retr_resolved(self, path: Seq<u8>, outcome: OutcomeView) -> Step {
        if self.reaches(outcome) {
            (
                self.waiting(PendingView::RetrKind(outcome->Resolved_0)),
                ActionView::IsFile(outcome->Resolved_0),
            )
        } else {
            self.retr_refused(path)
        }
    }

    /// `RETR`, once it is known whether the path is a file.
    pub open spec fn retr_checked(self, path: Seq<u8>, outcome: OutcomeView) -> Step {
        if outcome == OutcomeView::Flag(true) {
            self.sending(
                PendingView::RetrAnnounced(path),
                ResultCode::DataConnectionAlreadyOpen,
                "Starting to send file..."@,
            )
        } else {
            self.retr_refused(path)
        }
    }

    /// `RETR`, once it has been announced.
    pub open spec fn retr_announced(self, path: Seq<u8>, outcome: OutcomeView) -> Step {
        match outcome {
            OutcomeView::Failed(text) => self.failed(ErrorView::Io(text)),
            _ => (self.waiting(PendingView::RetrBytes), ActionView::ReadFile(path)),
        }
    }

    /// `RETR`, once the file has been read.
    pub open spec fn retr_read(self, outcome: OutcomeView) -> Step {
        match outcome {
            OutcomeView::Bytes(data) => self.send_data(PendingView::RetrSent, data),
            OutcomeView::Failed(text) => self.failed(ErrorView::Io(text)),
            _ => self.finished(),
        }
    }

    /// `RETR`, once the file has been sent or the client has been told that
    /// there is none.
    pub open spec fn retr_sent(self, outcome: OutcomeView) -> Step {
        match outcome {
            OutcomeView::Failed(text) => self.failed(ErrorView::Io(text)),
            _ => if self.data_connection {
                self.closing(PendingView::Closed)
            } else {
                self.finished()
            },
        }
    }

    /// Closes the data connection, and then waits for `pending`.
    pub open spec fn closing(self, pending: PendingView) -> Step {
        (
            (Session { data_connection: false, ..self }).waiting(pending),
            ActionView::CloseData,
        )
    }

    /// Says that a transfer is done.
    pub open spec fn transferred(self, pending: PendingView) -> Step {
        self.sending(pending, ResultCode::ClosingDataConnection, "Transfer done"@)
    }

    /// `STOR`: remembers where to put the file.
    pub open spec fn stor(self, path: Seq<u8>) -> Step {
        if !self.data_connection {
            self.no_data_connection()
        } else if components(path).contains(ComponentView::ParentDir) {
            self.failed(ErrorView::PermissionDenied)
        } else {
            (Session { store_path: Some(self.located(path)), ..self }).answered(
                ResultCode::DataConnectionAlreadyOpen,
                "Starting to send file..."@,
            )
        }
    }

    /// `PWD`.
    pub open spec fn pwd(self) -> Step {
        if valid_utf8(self.cwd) && decode_utf8(self.cwd).len() > 0 {
            self.answered(
                ResultCode::PATHNAMECreated,
                "\""@ + decode_utf8(self.cwd) + "\" "@,
            )
        } else {
            self.answered(ResultCode::FileNotFound, "No such file or directory"@)
        }
    }

    /// `CDUP`.
    pub open spec fn cdup(self) -> Step {
        let moved = match parent_of(self.cwd) {
            Some(parent) => Session { cwd: with_root(parent), ..self },
            None => self,
        };
        moved.answered(ResultCode::Okay, "Done"@)
    }

    /// `PORT`.
    pub open spec fn port(self, port: u16) -> Step {
        (Session { data_port: Some(port), ..self }).answered(
            ResultCode::Okay,
            "Data port is now "@ + digits(port as nat),
        )
    }

    /// `PASS`, where it was asked for.
    pub open spec fn pass(self, password: Seq<char>) -> Step {
        let name = self.name->0;
        if opens(admin_account(), user_accounts(), self.is_admin, name, password) {
            (Session { waiting_password: false, ..self }).answered(
                ResultCode::UserLoggedIn,
                "Welcome "@ + name,
            )
        } else {
            self.answered(ResultCode::NotLoggedIn, "Invalid password"@)
        }
    }

    /// `PASS` of a client who has logged in, which changes nothing.
    pub open spec fn pass_again(self) -> Step {
        self.answered(ResultCode::UserLoggedIn, "Already logged in"@)
    }

    /// `USER`.
    pub open spec fn user(self, name: Seq<char>) -> Step {
        if name.len() == 0 {
            self.answered(ResultCode::InvalidParameterOrArgument, "Invalid username"@)
        } else {
            match account_of(admin_account(), user_accounts(), name) {
                None => (Session { is_admin: false, ..self }).answered(
                    ResultCode::NotLoggedIn,
                    "Unknown user..."@,
                ),
                Some(account) => {
                    let named = Session {
                        is_admin: account.is_admin,
                        name: Some(name),
                        waiting_password: account.pass_required,
                        ..self
                    };
                    if account.pass_required {
                        named.answered(
                            ResultCode::UserNameOkayNeedPassword,
                            "Login OK, password needed for "@ + name,
                        )
                    } else {
                        named.answered(ResultCode::UserLoggedIn, "Welcome "@ + name + "!"@)
                    }
                },
            }
        }
    }

    /// A command that needs no login, and every command of a client who has
    /// not logged in but the password that was asked for. Those that need a
    /// login are refused.
    pub open spec fn open_command(self, command: CommandView) -> Step {
        match command {
            CommandView::Auth => self.answered(
                ResultCode::CommandNotImplemented,
                "Not implemented"@,
            ),
            CommandView::Quit => self.quit(),
            CommandView::Syst => self.answered(ResultCode::Okay, "I won't tell!"@),
            CommandView::Type(kind) => (Session { transfer_type: kind, ..self }).answered(
                ResultCode::Okay,
                "Transfer type changed successfully"@,
            ),
            CommandView::User(name) => self.user(name),
            CommandView::NoOp => self.answered(ResultCode::Okay, "Doing nothing"@),
            CommandView::Unknown(word) => self.answered(
                ResultCode::UnknownCommand,
                "\""@ + word + "\": Not implemented"@,
            ),
            _ => self.answered(ResultCode::NotLoggedIn, "Please log first"@),
        }
    }

    /// The first step of a command.
    pub open spec fn handle_cmd(self, command: CommandView) -> Step {
        if self.logged() {
            match command {
                CommandView::Cwd(directory) => self.cwd(directory),
                CommandView::List(path) => self.list(path),
                CommandView::Pasv => self.pasv(),
                CommandView::Port(port) => self.port(port),
                CommandView::Pwd => self.pwd(),
                CommandView::Retr(path) => self.retr(path),
                CommandView::Stor(path) => self.stor(path),
                CommandView::CdUp => self.cdup(),
                CommandView::Mkd(path) => self.mkd(path),
                CommandView::Rmd(path) => self.rmd(path),
                CommandView::Pass(_) => self.pass_again(),
                _ => self.open_command(command),
            }
        } else if self.name is Some && command is Pass {
            self.pass(command->Pass_0)
        } else {
            self.open_command(command)
        }
    }

    /// Whether a command can be dealt with: there is someone to answer, and
    /// the client does not leave with a data connection open.
    pub open spec fn accepts_command(self, command: CommandView) -> bool {
        self.connection && !(command is Quit && self.data_connection)
    }

    /// The line that `data` completes, if they do: what came before, up to
    /// the first end of a line in `data`.
    pub open spec fn line_with(self, data: Seq<u8>) -> Option<Seq<u8>> {
        match crlf_index(data) {
            Some(index) => Some(self.current_cmd + data.take(index)),
            None => None,
        }
    }

    /// Whether a message can be dealt with.
    pub open spec fn accepts(self, msg: MsgView) -> bool {
        match msg {
            MsgView::DataConnected => self.connection,
            MsgView::Received(data) => match self.line_with(data) {
                Some(line) => match parsed(line) {
                    Ok(command) => self.accepts_command(command),
                    Err(_) => true,
                },
                None => true,
            },
            _ => true,
        }
    }

    /// Bytes over the control connection: a line that they complete is dealt
    /// with if it spells a command, and what follows it is dropped.
    pub open spec fn received(self, data: Seq<u8>) -> Step {
        match self.line_with(data) {
            Some(line) => {
                let emptied = Session { current_cmd: seq![], ..self };
                match parsed(line) {
                    Ok(command) => emptied.handle_cmd(command),
                    Err(_) => emptied.finished(),
                }
            },
            None => (Session { current_cmd: self.current_cmd + data, ..self }).finished(),
        }
    }

    /// The first step of a message.
    pub open spec fn update(self, msg: MsgView) -> Step {
        match msg {
            MsgView::Accepted => (Session { connection: true, ..self }).sending(
                PendingView::Ignored,
                ResultCode::ServiceReadyForNewUser,
                "Welcome to this FTP server!"@,
            ),
            MsgView::DataConnected => (
                (Session { data_connection: true, ..self }).waiting(PendingView::Unmuted),
                ActionView::Unmute,
            ),
            MsgView::DataReceived(data) => match self.store_path {
                Some(path) => (
                    (Session { store_path: None, ..self }).waiting(PendingView::Stored),
                    ActionView::StoreFile(path, data),
                ),
                None => self.finished(),
            },
            MsgView::Received(data) => self.received(data),
            MsgView::TransferDone => if self.data_connection {
                self.transferred(PendingView::TransferAnswered)
            } else {
                self.finished()
            },
        }
    }

    /// After the file of the client has been written: the data connection is
    /// closed, and the client is told.
    pub open spec fn stored(self, outcome: OutcomeView) -> Step {
        match outcome {
            OutcomeView::Failed(text) => self.failed(ErrorView::Io(text)),
            _ => if self.data_connection {
                self.closing(PendingView::Closed)
            } else {
                self.transferred(PendingView::Last)
            },
        }
    }

    /// After the control connection is read again.
    pub open spec fn unmuted(self) -> Step {
        if self.listener {
            (
                (Session { listener: false, ..self }).waiting(PendingView::Ignored),
                ActionView::DisposeListener,
            )
        } else {
            self.finished()
        }
    }

    /// After the last action.
    pub open spec fn last_done(self, outcome: OutcomeView) -> Step {
        match outcome {
            OutcomeView::Failed(text) => self.failed(ErrorView::Io(text)),
            _ => self.finished(),
        }
    }

    /// The step that the outcome of an action leads to.
    pub open spec fn resume(self, outcome: OutcomeView) -> Step {
        match self.pending {
            PendingView::Idle => self.finished(),
            PendingView::Last => self.last_done(outcome),
            PendingView::Ignored => self.finished(),
            PendingView::Cwd(directory) => self.cwd_resolved(directory, outcome),
            PendingView::Rmd => self.rmd_resolved(outcome),
            PendingView::RmdRemoved => self.rmd_removed(outcome),
            PendingView::Mkd(path) => self.mkd_resolved(path, outcome),
            PendingView::MkdParent(path, parent) => self.mkd_checked(path, parent, outcome),
            PendingView::MkdCreated => self.mkd_created(outcome),
            PendingView::List => self.list_resolved(outcome),
            PendingView::ListAnnounced(path) => self.list_announced(path, outcome),
            PendingView::ListKind(path) => self.list_checked(path, outcome),
            PendingView::ListEntries => self.list_entries(outcome),
            PendingView::ListFile => self.list_file(outcome),
            PendingView::Pasv => self.pasv_listening(outcome),
            PendingView::PasvAnswered => self.pasv_answered(outcome),
            PendingView::QuitAnswered => self.quit_answered(outcome),
            PendingView::Retr(path) => self.retr_resolved(path, outcome),
            PendingView::RetrKind(path) => self.retr_checked(path, outcome),
            PendingView::RetrAnnounced(path) => self.retr_announced(path, outcome),
            PendingView::RetrBytes => self.retr_read(outcome),
            PendingView::RetrSent => self.retr_sent(outcome),
            PendingView::Closed => self.transferred(PendingView::Last),
            PendingView::Stored => self.stored(outcome),
            PendingView::Unmuted => self.unmuted(),
            PendingView::TransferAnswered => self.closing(PendingView::Ignored),
        }
    }
}

impl Session {
    /// A command keeps what holds of a session.
    pub proof fn lemma_handle_cmd_wf(self, command: CommandView)
        requires
            self.wf(),
            self.connection,
        ensures
            self.handle_cmd(command).0.wf(),
    {
    }

    /// A message keeps what holds of a session.
    pub proof fn lemma_update_wf(self, msg: MsgView)
        requires
            self.wf(),
            self.accepts(msg),
        ensures
            self.update(msg).0.wf(),
    {
    }

    /// An outcome keeps what holds of a session.
    pub proof fn lemma_resume_wf(self, outcome: OutcomeView)
        requires
            self.wf(),
            fits(self.pending, outcome),
        ensures
            self.resume(outcome).0.wf(),
    {
    }
}

/// Whether an action can have an outcome.
pub open spec fn can_have(action: ActionView, outcome: OutcomeView) -> bool {
    match action {
        ActionView::Finish | ActionView::Fail(_) => false,
        ActionView::CloseData | ActionView::CloseControl | ActionView::Mute | ActionView::Unmute
        | ActionView::DisposeListener => outcome is Done,
        ActionView::Send(_) | ActionView::SendData(_) | ActionView::CreateDir(_)
        | ActionView::RemoveDir(_) | ActionView::StoreFile(_, _) => outcome is Done
            || outcome is Failed,
        ActionView::Listen(_) => outcome is Listening || outcome is Failed,
        ActionView::Canonicalize(_) => outcome is Resolved || outcome is Failed,
        ActionView::IsDir(_) | ActionView::IsFile(_) => outcome is Flag,
        ActionView::ReadDir(_) => outcome is Failed || (outcome is Entries && have_months(
            outcome->Entries_0,
        )),
        ActionView::Stat(_) => outcome is Found && has_month(outcome->Found_0),
        ActionView::ReadFile(_) => outcome is Bytes || outcome is Failed,
    }
}

/// Whether an outcome is one that the action that is waited for can have.
pub open spec fn fits(pending: PendingView, outcome: OutcomeView) -> bool {
    match pending {
        PendingView::Idle => false,
        PendingView::Last | PendingView::RmdRemoved | PendingView::MkdCreated
        | PendingView::ListAnnounced(_) | PendingView::PasvAnswered | PendingView::QuitAnswered
        | PendingView::RetrAnnounced(_) | PendingView::RetrSent | PendingView::Stored
        | PendingView::TransferAnswered | PendingView::Ignored => outcome is Done
            || outcome is Failed,
        PendingView::Closed | PendingView::Unmuted => outcome is Done,
        PendingView::Cwd(_) | PendingView::Rmd | PendingView::Mkd(_) | PendingView::List
        | PendingView::Retr(_) => outcome is Resolved || outcome is Failed,
        PendingView::MkdParent(_, _) | PendingView::ListKind(_) | PendingView::RetrKind(_) =>
            outcome is Flag,
        PendingView::ListEntries => outcome is Failed || (outcome is Entries && have_months(
            outcome->Entries_0,
        )),
        PendingView::ListFile => outcome is Found && has_month(outcome->Found_0),
        PendingView::Pasv => outcome is Listening || outcome is Failed,
        PendingView::RetrBytes => outcome is Bytes || outcome is Failed,
    }
}

} // verus!
