//! The client of a session: what it takes to carry the session's steps out.

use vstd::prelude::*;

use crate::cmd::{Command, TransferType};
use crate::error::Error;
use crate::ftp::{Answer, ResultCode};
use crate::line::find_crlf;
use crate::listing::{add_file_info, entry_line, list_entries};
use crate::path::{
    copy_range, get_filename, get_parent, invalid_path, placed, prefix_slash, stripped, FilePath,
    SLASH,
};
use crate::session::{fits, Action, Msg, MsgView, Outcome, Pending, PendingView, Session};
use crate::text::{decimal, read_text, show_text};
use crate::user::{admin_user, check_password, find_account, users};

verus! {

/// One client of the server.
pub struct Client {
    connection: bool,
    current_cmd: Vec<u8>,
    cwd: FilePath,
    data_connection: bool,
    data_port: Option<u16>,
    is_admin: bool,
    listener: bool,
    name: Option<String>,
    store_path: Option<FilePath>,
    server_root: FilePath,
    transfer_type: TransferType,
    waiting_password: bool,
    pending: Pending,
}

impl View for Client {
    type V = Session;

    closed spec fn view(&self) -> Session {
        Session {
            connection: self.connection,
            current_cmd: self.current_cmd@,
            cwd: self.cwd@,
            data_connection: self.data_connection,
            data_port: self.data_port,
            is_admin: self.is_admin,
            listener: self.listener,
            name: match self.name {
                Some(name) => Some(name@),
                None => None,
            },
            store_path: match self.store_path {
                Some(path) => Some(path@),
                None => None,
            },
            server_root: self.server_root@,
            transfer_type: self.transfer_type,
            waiting_password: self.waiting_password,
            pending: self.pending@,
        }
    }
}

impl Client {
    /// The client of a session that has yet to begin.
    pub fn new(server_root: &FilePath) -> (client: Client)
        ensures
            client@ == Session::initial(server_root@),
            client@.wf(),
    {
        let mut root: Vec<u8> = Vec::new();
        root.push(SLASH);
        let client: Client = Client {
            connection: false,
            current_cmd: Vec::new(),
            cwd: FilePath::from_bytes(root),
            data_connection: false,
            data_port: None,
            is_admin: true,
            listener: false,
            name: None,
            store_path: None,
            server_root: server_root.clone(),
            transfer_type: TransferType::Ascii,
            waiting_password: false,
            pending: Pending::Idle,
        };
        assert(client@ =~= Session::initial(server_root@));
        client
    }

    /// Whether the client has logged in.
    pub fn is_logged(&self) -> (result: bool)
        ensures
            result == self@.logged(),
    {
        self.name.is_some() && !self.waiting_password
    }

    /// Deals with nothing more.
    fn finish(&mut self) -> (action: Action)
        ensures
            (final(self)@, action@) == old(self)@.finished(),
    {
        self.pending = Pending::Idle;
        Action::Finish
    }

    /// Gives up.
    fn fail(&mut self, error: Error) -> (action: Action)
        ensures
            (final(self)@, action@) == old(self)@.failed(error@),
    {
        self.pending = Pending::Idle;
        Action::Fail(error)
    }

    /// Sends an answer, and then waits for `pending`.
    fn send(&mut self, pending: Pending, code: ResultCode, message: &str) -> (action: Action)
        ensures
            (final(self)@, action@) == old(self)@.sending(pending@, code, message@),
    {
        self.pending = pending;
        Action::Send(Answer::new(code, message))
    }

    /// Sends a last answer.
    fn answer(&mut self, code: ResultCode, message: &str) -> (action: Action)
        ensures
            (final(self)@, action@) == old(self)@.answered(code, message@),
    {
        self.send(Pending::Last, code, message)
    }

    /// Asks for an action, and then waits for `pending`.
    fn ask(&mut self, pending: Pending, action: Action) -> (result: Action)
        ensures
            final(self)@ == old(self)@.waiting(pending@),
            result@ == action@,
    {
        self.pending = pending;
        action
    }

    /// Where a path lies below the root of the server. What it leads to there
    /// is up to [`Client::reachable`].
    pub fn complete_path(&self, path: FilePath) -> (result: FilePath)
        ensures
            result@ == placed(self@.server_root, path@),
    {
        self.server_root.join(&path.unrooted())
    }

    /// Where a path leads to, once it has been looked up, if the client may
    /// reach it.
    pub fn reachable(&self, outcome: Outcome) -> (result: Result<FilePath, Error>)
        ensures
            match result {
                Ok(path) => self@.reaches(outcome@) && path@ == outcome@->Resolved_0,
                Err(error) => !self@.reaches(outcome@) && error@ == self@.refusal(outcome@),
            },
    {
        match outcome {
            Outcome::Resolved(path) => if path.starts_with(&self.server_root) {
                Ok(path)
            } else {
                Err(Error::PermissionDenied)
            },
            Outcome::Failed(text) => Err(Error::Io(text)),
            _ => Err(Error::PermissionDenied),
        }
    }

    /// What is left of a path below the root of the server.
    fn strip_prefix(&self, dir: FilePath) -> (result: Option<FilePath>)
        ensures
            match result {
                Some(rest) => stripped(dir@, self@.server_root) == Some(rest@),
                None => stripped(dir@, self@.server_root) is None,
            },
    {
        dir.strip_prefix(&self.server_root)
    }

    /// Changes the working directory.
    pub fn cwd(&mut self, directory: FilePath) -> (action: Action)
        requires
            old(self)@.wf(),
            old(self)@.connection,
        ensures
            (final(self)@, action@) == old(self)@.cwd(directory@),
            final(self)@.wf(),
    {
        let path: FilePath = self.cwd.join(&directory);
        let target: FilePath = self.complete_path(path);
        self.ask(Pending::Cwd(directory), Action::Canonicalize(target))
    }

    /// Changes the working directory, once it is known where it leads to.
    fn cwd_resolved(&mut self, directory: FilePath, outcome: Outcome) -> (action: Action)
        ensures
            (final(self)@, action@) == old(self)@.cwd_resolved(directory@, outcome@),
    {
        if let Ok(dir) = self.reachable(outcome) {
            if let Some(prefix) = self.strip_prefix(dir) {
                let mut cwd: FilePath = prefix;
                prefix_slash(&mut cwd);
                self.cwd = cwd;
                let mut message: String = "Directory changed to \"".to_string();
                message.append(show_text(directory.as_bytes()).as_str());
                message.append("\"");
                return self.answer(ResultCode::RequestedFileActionOkay, message.as_str());
            }
        }
        self.answer(ResultCode::FileNotFound, "No such file or directory")
    }

    /// Removes a directory.
    pub fn rmd(&mut self, directory: FilePath) -> (action: Action)
        requires
            old(self)@.wf(),
            old(self)@.connection,
        ensures
            (final(self)@, action@) == old(self)@.rmd(directory@),
            final(self)@.wf(),
    {
        let path: FilePath = self.cwd.join(&directory);
        let target: FilePath = self.complete_path(path);
        self.ask(Pending::Rmd, Action::Canonicalize(target))
    }

    /// Removes a directory, once it is known where it leads to.
    fn rmd_resolved(&mut self, outcome: Outcome) -> (action: Action)
        ensures
            (final(self)@, action@) == old(self)@.rmd_resolved(outcome@),
    {
        match self.reachable(outcome) {
            Ok(dir) => self.ask(Pending::RmdRemoved, Action::RemoveDir(dir)),
            Err(_) => self.answer(ResultCode::FileNotFound, "Couldn't remove folder"),
        }
    }

    /// Tells whether a directory has been removed.
    fn rmd_removed(&mut self, outcome: Outcome) -> (action: Action)
        ensures
            (final(self)@, action@) == old(self)@.rmd_removed(outcome@),
    {
        match outcome {
            Outcome::Done => self.answer(
                ResultCode::RequestedFileActionOkay,
                "Folder successfully removed",
            ),
            _ => self.answer(ResultCode::FileNotFound, "Couldn't remove folder"),
        }
    }

    /// Makes a directory.
    pub fn mkd(&mut self, path: FilePath) -> (action: Action)
        requires
            old(self)@.wf(),
            old(self)@.connection,
        ensures
            (final(self)@, action@) == old(self)@.mkd(path@),
            final(self)@.wf(),
    {
        let path: FilePath = self.cwd.join(&path);
        match get_parent(path.clone()) {
            Some(parent) => {
                let target: FilePath = self.complete_path(parent);
                self.ask(Pending::Mkd(path), Action::Canonicalize(target))
            },
            None => self.answer(ResultCode::FileNotFound, "Couldn't create folder"),
        }
    }

    /// Makes a directory, once it is known where its parent leads to.
    fn mkd_resolved(&mut self, path: FilePath, outcome: Outcome) -> (action: Action)
        ensures
            (final(self)@, action@) == old(self)@.mkd_resolved(path@, outcome@),
    {
        match self.reachable(outcome) {
            Ok(dir) => {
                let question: Action = Action::IsDir(dir.clone());
                self.ask(Pending::MkdParent(path, dir), question)
            },
            Err(_) => self.answer(ResultCode::FileNotFound, "Couldn't create folder"),
        }
    }

    /// Makes a directory, once it is known whether its parent is one.
    fn mkd_checked(&mut self, path: FilePath, parent: FilePath, outcome: Outcome) -> (action:
        Action)
        ensures
            (final(self)@, action@) == old(self)@.mkd_checked(path@, parent@, outcome@),
    {
        if let Outcome::Flag(true) = outcome {
            if let Some(name) = get_filename(path) {
                let mut dir: FilePath = parent;
                dir.push(&name);
                return self.ask(Pending::MkdCreated, Action::CreateDir(dir));
            }
        }
        self.answer(ResultCode::FileNotFound, "Couldn't create folder")
    }

    /// Tells whether a directory has been made.
    fn mkd_created(&mut self, outcome: Outcome) -> (action: Action)
        ensures
            (final(self)@, action@) == old(self)@.mkd_created(outcome@),
    {
        match outcome {
            Outcome::Done => self.answer(
                ResultCode::PATHNAMECreated,
                "Folder successfully created!",
            ),
            _ => self.answer(ResultCode::FileNotFound, "Couldn't create folder"),
        }
    }

    /// Sends data, where there is a data connection, and then waits for
    /// `pending`.
    fn send_data(&mut self, pending: Pending, data: Vec<u8>) -> (action: Action)
        ensures
            (final(self)@, action@) == old(self)@.send_data(pending@, data@),
    {
        if self.data_connection {
            self.ask(pending, Action::SendData(data))
        } else {
            self.finish()
        }
    }

    /// Lists a directory or a file.
    pub fn list(&mut self, path: Option<FilePath>) -> (action: Action)
        requires
            old(self)@.wf(),
            old(self)@.connection,
        ensures
            (final(self)@, action@) == old(self)@.list(
                match path {
                    Some(path) => Some(path@),
                    None => None,
                },
            ),
            final(self)@.wf(),
    {
        if self.data_connection {
            let path: FilePath = match path {
                Some(path) => path,
                None => FilePath::from_bytes(Vec::new()),
            };
            let path: FilePath = self.cwd.join(&path);
            let target: FilePath = self.complete_path(path);
            self.ask(Pending::List, Action::Canonicalize(target))
        } else {
            self.answer(ResultCode::ConnectionClosed, "No opened data connection")
        }
    }

    /// Announces a listing, once it is known where the path leads to.
    fn list_resolved(&mut self, outcome: Outcome) -> (action: Action)
        ensures
            (final(self)@, action@) == old(self)@.list_resolved(outcome@),
    {
        match self.reachable(outcome) {
            Ok(path) => self.send(
                Pending::ListAnnounced(path),
                ResultCode::DataConnectionAlreadyOpen,
                "Starting to list directory...",
            ),
            Err(_) => self.answer(
                ResultCode::InvalidParameterOrArgument,
                "No such file or directory",
            ),
        }
    }

    /// Asks what to list, once the listing has been announced.
    fn list_announced(&mut self, path: FilePath, outcome: Outcome) -> (action: Action)
        ensures
            (final(self)@, action@) == old(self)@.list_announced(path@, outcome@),
    {
        match outcome {
            Outcome::Failed(text) => self.fail(Error::Io(text)),
            _ => {
                let question: Action = Action::IsDir(path.clone());
                self.ask(Pending::ListKind(path), question)
            },
        }
    }

    /// Asks for what to list, once it is known what it is.
    fn list_checked(&mut self, path: FilePath, outcome: Outcome) -> (action: Action)
        ensures
            (final(self)@, action@) == old(self)@.list_checked(path@, outcome@),
    {
        match outcome {
            Outcome::Flag(true) => self.ask(Pending::ListEntries, Action::ReadDir(path)),
            _ => self.ask(Pending::ListFile, Action::Stat(path)),
        }
    }

    /// Sends the listing of a directory.
    fn list_entries(&mut self, outcome: Outcome) -> (action: Action)
        requires
            fits(PendingView::ListEntries, outcome@),
        ensures
            (final(self)@, action@) == old(self)@.list_entries(outcome@),
    {
        match outcome {
            Outcome::Entries(entries) => self.send_data(Pending::Last, list_entries(&entries)),
            _ => self.answer(
                ResultCode::InvalidParameterOrArgument,
                "No such file or directory",
            ),
        }
    }

    /// Sends the listing of a file.
    fn list_file(&mut self, outcome: Outcome) -> (action: Action)
        requires
            fits(PendingView::ListFile, outcome@),
        ensures
            (final(self)@, action@) == old(self)@.list_file(outcome@),
    {
        let mut out: Vec<u8> = Vec::new();
        match outcome {
            Outcome::Found(entry) => {
                add_file_info(&entry, &mut out);
                assert(out@ =~= entry_line(entry@));
                self.send_data(Pending::Last, out)
            },
            _ => self.send_data(Pending::Last, out),
        }
    }

    /// Opens a port for a data connection.
    pub fn pasv(&mut self) -> (action: Action)
        requires
            old(self)@.wf(),
            old(self)@.connection,
        ensures
            (final(self)@, action@) == old(self)@.pasv(),
            final(self)@.wf(),
    {
        let port: u16 = match self.data_port {
            Some(port) => port,
            None => 0,
        };
        if self.data_connection {
            return self.answer(ResultCode::DataConnectionAlreadyOpen, "Already listening...");
        }
        self.ask(Pending::Pasv, Action::Listen(port))
    }

    /// Tells the port of the data connection.
    fn pasv_listening(&mut self, outcome: Outcome) -> (action: Action)
        ensures
            (final(self)@, action@) == old(self)@.pasv_listening(outcome@),
    {
        match outcome {
            Outcome::Listening(port) => {
                self.listener = true;
                assert(port >> 8 == port / 256) by (bit_vector);
                assert(port & 0xff == port % 256) by (bit_vector);
                let mut message: String = "127,0,0,1,".to_string();
                message.append(decimal((port >> 8) as u64).as_str());
                message.append(",");
                message.append(decimal((port & 0xff) as u64).as_str());
                self.send(
                    Pending::PasvAnswered,
                    ResultCode::EnteringPassiveMode,
                    message.as_str(),
                )
            },
            Outcome::Failed(text) => self.fail(Error::Io(text)),
            _ => self.finish(),
        }
    }

    /// Stops reading commands until the data connection is there.
    fn pasv_answered(&mut self, outcome: Outcome) -> (action: Action)
        ensures
            (final(self)@, action@) == old(self)@.pasv_answered(outcome@),
    {
        match outcome {
            Outcome::Failed(text) => self.fail(Error::Io(text)),
            _ => self.ask(Pending::Ignored, Action::Mute),
        }
    }

    /// Says goodbye.
    pub fn quit(&mut self) -> (action: Action)
        requires
            old(self)@.wf(),
            old(self)@.connection,
            !old(self)@.data_connection,
        ensures
            (final(self)@, action@) == old(self)@.quit(),
            final(self)@.wf(),
    {
        self.send(
            Pending::QuitAnswered,
            ResultCode::ServiceClosingControlConnection,
            "Closing connection...",
        )
    }

    /// Closes the control connection, once goodbye has been said.
    fn quit_answered(&mut self, outcome: Outcome) -> (action: Action)
        ensures
            (final(self)@, action@) == old(self)@.quit_answered(outcome@),
    {
        match outcome {
            Outcome::Failed(text) => self.fail(Error::Io(text)),
            _ => self.ask(Pending::Ignored, Action::CloseControl),
        }
    }

    /// Sends a file.
    pub fn retr(&mut self, path: FilePath) -> (action: Action)
        requires
            old(self)@.wf(),
            old(self)@.connection,
        ensures
            (final(self)@, action@) == old(self)@.retr(path@),
            final(self)@.wf(),
    {
        if self.data_connection {
            let path: FilePath = self.cwd.join(&path);
            let target: FilePath = self.complete_path(path.clone());
            self.ask(Pending::Retr(path), Action::Canonicalize(target))
        } else {
            self.answer(ResultCode::ConnectionClosed, "No opened data connection")
        }
    }

    /// Tells that there is no such file.
    fn retr_refused(&mut self, path: FilePath) -> (action: Action)
        ensures
            (final(self)@, action@) == old(self)@.retr_refused(path@),
    {
        match read_text(path.as_bytes()) {
            Some(text) => {
                let mut message: String = "\"".to_string();
                message.append(text.as_str());
                message.append("\" doesn't exist");
                self.send(
                    Pending::RetrSent,
                    ResultCode::LocalErrorInProcessing,
                    message.as_str(),
                )
            },
            None => self.fail(Error::msg("No path")),
        }
    }

    /// Sends a file, once it is known where it leads to.
    fn retr_resolved(&mut self, path: FilePath, outcome: Outcome) -> (action: Action)
        ensures
            (final(self)@, action@) == old(self)@.retr_resolved(path@, outcome@),
    {
        match self.reachable(outcome) {
            Ok(path) => {
                let question: Action = Action::IsFile(path.clone());
                self.ask(Pending::RetrKind(path), question)
            },
            Err(_) => self.retr_refused(path),
        }
    }

    /// Announces a file, once it is known that it is one.
    fn retr_checked(&mut self, path: FilePath, outcome: Outcome) -> (action: Action)
        ensures
            (final(self)@, action@) == old(self)@.retr_checked(path@, outcome@),
    {
        match outcome {
            Outcome::Flag(true) => self.send(
                Pending::RetrAnnounced(path),
                ResultCode::DataConnectionAlreadyOpen,
                "Starting to send file...",
            ),
            _ => self.retr_refused(path),
        }
    }

    /// Reads a file, once it has been announced.
    fn retr_announced(&mut self, path: FilePath, outcome: Outcome) -> (action: Action)
        ensures
            (final(self)@, action@) == old(self)@.retr_announced(path@, outcome@),
    {
        match outcome {
            Outcome::Failed(text) => self.fail(Error::Io(text)),
            _ => self.ask(Pending::RetrBytes, Action::ReadFile(path)),
        }
    }

    /// Sends the bytes of a file.
    fn retr_read(&mut self, outcome: Outcome) -> (action: Action)
        ensures
            (final(self)@, action@) == old(self)@.retr_read(outcome@),
    {
        match outcome {
            Outcome::Bytes(data) => self.send_data(Pending::RetrSent, data),
            Outcome::Failed(text) => self.fail(Error::Io(text)),
            _ => self.finish(),
        }
    }

    /// Ends the transfer of a file.
    fn retr_sent(&mut self, outcome: Outcome) -> (action: Action)
        ensures
            (final(self)@, action@) == old(self)@.retr_sent(outcome@),
    {
        match outcome {
            Outcome::Failed(text) => self.fail(Error::Io(text)),
            _ => if self.data_connection {
                self.close_data_connection(Pending::Closed)
            } else {
                self.finish()
            },
        }
    }

    /// Closes the data connection, and then waits for `pending`.
    fn close_data_connection(&mut self, pending: Pending) -> (action: Action)
        ensures
            (final(self)@, action@) == old(self)@.closing(pending@),
    {
        self.data_connection = false;
        self.ask(pending, Action::CloseData)
    }

    /// Tells that a transfer is done.
    fn tell_transferred(&mut self, pending: Pending) -> (action: Action)
        ensures
            (final(self)@, action@) == old(self)@.transferred(pending@),
    {
        self.send(pending, ResultCode::ClosingDataConnection, "Transfer done")
    }

    /// Takes a file.
    pub fn stor(&mut self, path: FilePath) -> (action: Action)
        requires
            old(self)@.wf(),
            old(self)@.connection,
        ensures
            (final(self)@, action@) == old(self)@.stor(path@),
            final(self)@.wf(),
    {
        if self.data_connection {
            if invalid_path(&path) {
                return self.fail(Error::PermissionDenied);
            }
            let path: FilePath = self.cwd.join(&path);
            let target: FilePath = self.complete_path(path);
            self.store_path = Some(target);
            self.answer(ResultCode::DataConnectionAlreadyOpen, "Starting to send file...")
        } else {
            self.answer(ResultCode::ConnectionClosed, "No opened data connection")
        }
    }

    /// Tells the working directory.
    fn pwd(&mut self) -> (action: Action)
        ensures
            (final(self)@, action@) == old(self)@.pwd(),
    {
        if let Some(text) = read_text(self.cwd.as_bytes()) {
            if !text.as_str().is_empty() {
                let mut message: String = "\"".to_string();
                message.append(text.as_str());
                message.append("\" ");
                return self.answer(ResultCode::PATHNAMECreated, message.as_str());
            }
        }
        self.answer(ResultCode::FileNotFound, "No such file or directory")
    }

    /// Changes to the parent of the working directory.
    fn cdup(&mut self) -> (action: Action)
        ensures
            (final(self)@, action@) == old(self)@.cdup(),
    {
        if let Some(parent) = self.cwd.parent() {
            let mut cwd: FilePath = parent;
            prefix_slash(&mut cwd);
            self.cwd = cwd;
        }
        self.answer(ResultCode::Okay, "Done")
    }

    /// Remembers the port for a data connection.
    fn port(&mut self, port: u16) -> (action: Action)
        ensures
            (final(self)@, action@) == old(self)@.port(port),
    {
        self.data_port = Some(port);
        let mut message: String = "Data port is now ".to_string();
        message.append(decimal(port as u64).as_str());
        self.answer(ResultCode::Okay, message.as_str())
    }

    /// Checks the password of a name.
    fn pass(&mut self, password: String) -> (action: Action)
        requires
            old(self)@.wf(),
            old(self)@.name is Some,
        ensures
            (final(self)@, action@) == old(self)@.pass(password@),
    {
        let name: String = match &self.name {
            Some(name) => name.clone(),
            None => String::new(),
        };
        if check_password(&admin_user(), &users(), self.is_admin, &name, &password) {
            self.waiting_password = false;
            let mut message: String = "Welcome ".to_string();
            message.append(name.as_str());
            self.answer(ResultCode::UserLoggedIn, message.as_str())
        } else {
            self.answer(ResultCode::NotLoggedIn, "Invalid password")
        }
    }

    /// Takes a name.
    fn user(&mut self, name: String) -> (action: Action)
        ensures
            (final(self)@, action@) == old(self)@.user(name@),
    {
        if name.as_str().is_empty() {
            return self.answer(ResultCode::InvalidParameterOrArgument, "Invalid username");
        }
        match find_account(&admin_user(), &users(), &name) {
            None => {
                self.is_admin = false;
                self.answer(ResultCode::NotLoggedIn, "Unknown user...")
            },
            Some(account) => {
                self.is_admin = account.is_admin;
                self.waiting_password = account.pass_required;
                self.name = Some(name.clone());
                if account.pass_required {
                    let mut message: String = "Login OK, password needed for ".to_string();
                    message.append(name.as_str());
                    self.answer(ResultCode::UserNameOkayNeedPassword, message.as_str())
                } else {
                    let mut message: String = "Welcome ".to_string();
                    message.append(name.as_str());
                    message.append("!");
                    self.answer(ResultCode::UserLoggedIn, message.as_str())
                }
            },
        }
    }

    /// Deals with a command that needs no login, or refuses it.
    fn open_command(&mut self, command: Command) -> (action: Action)
        requires
            old(self)@.wf(),
            old(self)@.accepts_command(command@),
        ensures
            (final(self)@, action@) == old(self)@.open_command(command@),
    {
        match command {
            Command::Auth => self.answer(ResultCode::CommandNotImplemented, "Not implemented"),
            Command::Quit => self.quit(),
            Command::Syst => self.answer(ResultCode::Okay, "I won't tell!"),
            Command::Type(kind) => {
                self.transfer_type = kind;
                self.answer(ResultCode::Okay, "Transfer type changed successfully")
            },
            Command::User(name) => self.user(name),
            Command::NoOp => self.answer(ResultCode::Okay, "Doing nothing"),
            Command::Unknown(word) => {
                let mut message: String = "\"".to_string();
                message.append(word.as_str());
                message.append("\": Not implemented");
                self.answer(ResultCode::UnknownCommand, message.as_str())
            },
            _ => self.answer(ResultCode::NotLoggedIn, "Please log first"),
        }
    }

    /// Deals with a command, as far as its first action.
    pub fn handle_cmd(&mut self, command: Command) -> (action: Action)
        requires
            old(self)@.wf(),
            old(self)@.accepts_command(command@),
        ensures
            (final(self)@, action@) == old(self)@.handle_cmd(command@),
            final(self)@.wf(),
    {
        proof {
            self@.lemma_handle_cmd_wf(command@);
        }
        if self.is_logged() {
            match command {
                Command::Cwd(directory) => self.cwd(directory),
                Command::List(path) => self.list(path),
                Command::Pasv => self.pasv(),
                Command::Port(port) => self.port(port),
                Command::Pwd => self.pwd(),
                Command::Retr(path) => self.retr(path),
                Command::Stor(path) => self.stor(path),
                Command::CdUp => self.cdup(),
                Command::Mkd(path) => self.mkd(path),
                Command::Rmd(path) => self.rmd(path),
                Command::Pass(_) => self.answer(ResultCode::UserLoggedIn, "Already logged in"),
                _ => self.open_command(command),
            }
        } else if self.name.is_some() {
            match command {
                Command::Pass(password) => self.pass(password),
                _ => self.open_command(command),
            }
        } else {
            self.open_command(command)
        }
    }

    /// The line that `data` complete, if they do.
    fn line_with(&self, data: &Vec<u8>) -> (result: Option<Vec<u8>>)
        ensures
            match result {
                Some(line) => self@.line_with(data@) == Some(line@),
                None => self@.line_with(data@) is None,
            },
    {
        match find_crlf(data.as_slice()) {
            Some(index) => {
                let mut line: Vec<u8> = self.current_cmd.clone();
                let mut rest: Vec<u8> = copy_range(data, 0, index);
                line.append(&mut rest);
                Some(line)
            },
            None => None,
        }
    }

    /// Whether a message can be dealt with.
    pub fn accepts(&self, msg: &Msg) -> (result: bool)
        ensures
            result == self@.accepts(msg@),
    {
        match msg {
            Msg::DataConnected => self.connection,
            Msg::Received(data) => match self.line_with(data) {
                Some(line) => match Command::new(line) {
                    Ok(command) => self.connection && match command {
                        Command::Quit => !self.data_connection,
                        _ => true,
                    },
                    Err(_) => true,
                },
                None => true,
            },
            _ => true,
        }
    }

    /// Takes bytes from the control connection.
    fn received(&mut self, data: Vec<u8>) -> (action: Action)
        requires
            old(self)@.wf(),
            old(self)@.accepts(MsgView::Received(data@)),
        ensures
            (final(self)@, action@) == old(self)@.received(data@),
    {
        match self.line_with(&data) {
            Some(line) => {
                self.current_cmd = Vec::new();
                assert(self@ =~= (Session { current_cmd: seq![], ..old(self)@ }));
                match Command::new(line) {
                    Ok(command) => self.handle_cmd(command),
                    Err(_) => self.finish(),
                }
            },
            None => {
                let mut data: Vec<u8> = data;
                self.current_cmd.append(&mut data);
                self.finish()
            },
        }
    }

    /// Deals with a message, as far as its first action.
    pub fn update(&mut self, msg: Msg) -> (action: Action)
        requires
            old(self)@.wf(),
            old(self)@.pending is Idle,
            old(self)@.accepts(msg@),
        ensures
            (final(self)@, action@) == old(self)@.update(msg@),
            final(self)@.wf(),
    {
        proof {
            self@.lemma_update_wf(msg@);
        }
        match msg {
            Msg::Accepted => {
                self.connection = true;
                self.send(
                    Pending::Ignored,
                    ResultCode::ServiceReadyForNewUser,
                    "Welcome to this FTP server!",
                )
            },
            Msg::DataConnected => {
                self.data_connection = true;
                self.ask(Pending::Unmuted, Action::Unmute)
            },
            Msg::DataReceived(data) => match self.store_path.take() {
                Some(path) => self.ask(Pending::Stored, Action::StoreFile(path, data)),
                None => self.finish(),
            },
            Msg::Received(data) => self.received(data),
            Msg::TransferDone => if self.data_connection {
                self.tell_transferred(Pending::TransferAnswered)
            } else {
                self.finish()
            },
        }
    }

    /// Ends the transfer of a file from the client.
    fn stored(&mut self, outcome: Outcome) -> (action: Action)
        ensures
            (final(self)@, action@) == old(self)@.stored(outcome@),
    {
        match outcome {
            Outcome::Failed(text) => self.fail(Error::Io(text)),
            _ => if self.data_connection {
                self.close_data_connection(Pending::Closed)
            } else {
                self.tell_transferred(Pending::Last)
            },
        }
    }

    /// Stops listening, once the data connection is there.
    fn unmuted(&mut self) -> (action: Action)
        ensures
            (final(self)@, action@) == old(self)@.unmuted(),
    {
        if self.listener {
            self.listener = false;
            self.ask(Pending::Ignored, Action::DisposeListener)
        } else {
            self.finish()
        }
    }

    /// Ends with the outcome of the last action.
    fn last_done(&mut self, outcome: Outcome) -> (action: Action)
        ensures
            (final(self)@, action@) == old(self)@.last_done(outcome@),
    {
        match outcome {
            Outcome::Failed(text) => self.fail(Error::Io(text)),
            _ => self.finish(),
        }
    }

    /// Goes on with the outcome of an action, as far as the next one.
    pub fn resume(&mut self, outcome: Outcome) -> (action: Action)
        requires
            old(self)@.wf(),
            fits(old(self)@.pending, outcome@),
        ensures
            (final(self)@, action@) == old(self)@.resume(outcome@),
            final(self)@.wf(),
    {
        proof {
            self@.lemma_resume_wf(outcome@);
        }
        let mut pending: Pending = Pending::Idle;
        std::mem::swap(&mut pending, &mut self.pending);
        assert(self@ =~= old(self)@.waiting(PendingView::Idle));
        match pending {
            Pending::Idle => self.finish(),
            Pending::Last => self.last_done(outcome),
            Pending::Ignored => self.finish(),
            Pending::Cwd(directory) => self.cwd_resolved(directory, outcome),
            Pending::Rmd => self.rmd_resolved(outcome),
            Pending::RmdRemoved => self.rmd_removed(outcome),
            Pending::Mkd(path) => self.mkd_resolved(path, outcome),
            Pending::MkdParent(path, parent) => self.mkd_checked(path, parent, outcome),
            Pending::MkdCreated => self.mkd_created(outcome),
            Pending::List => self.list_resolved(outcome),
            Pending::ListAnnounced(path) => self.list_announced(path, outcome),
            Pending::ListKind(path) => self.list_checked(path, outcome),
            Pending::ListEntries => self.list_entries(outcome),
            Pending::ListFile => self.list_file(outcome),
            Pending::Pasv => self.pasv_listening(outcome),
            Pending::PasvAnswered => self.pasv_answered(outcome),
            Pending::QuitAnswered => self.quit_answered(outcome),
            Pending::Retr(path) => self.retr_resolved(path, outcome),
            Pending::RetrKind(path) => self.retr_checked(path, outcome),
            Pending::RetrAnnounced(path) => self.retr_announced(path, outcome),
            Pending::RetrBytes => self.retr_read(outcome),
            Pending::RetrSent => self.retr_sent(outcome),
            Pending::Closed => self.tell_transferred(Pending::Last),
            Pending::Stored => self.stored(outcome),
            Pending::Unmuted => self.unmuted(),
            Pending::TransferAnswered => self.close_data_connection(Pending::Ignored),
        }
    }
}

} // verus!
