//! What each command does, from the command to its last answer.

use vstd::prelude::*;
use vstd::utf8::{decode_utf8, valid_utf8};

use crate::cmd::{CommandView, TransferType};
use crate::error::ErrorView;
use crate::ftp::{AnswerView, ResultCode};
use crate::listing::{entry_line, listing, EntryView};
use crate::path::{
    collected, components, is_below, is_rooted, joined, names, parent_of, placed, stripped,
    ComponentView,
};
use crate::path_laws::{
    collected_components, file_names_come_last, is_name, joined_components, lemma_file_name,
    lemma_names, lemma_tail, parent_components, parents_begin_their_paths, placed_bytes,
    placed_components, segments_name_one_thing, stripped_components, stripping_undoes_joining,
    with_root_bytes, with_root_components,
};
use crate::session::{ActionView, MsgView, OutcomeView, PendingView, Session, Step};
use crate::session_laws::{lemma_rooted, needs_login};
use crate::text::{digits, lossy_text};
use crate::text_laws::{digits_read_back, is_decimal};
use crate::user::{first_named, user_accounts, UserView};
use crate::user_laws::first_named_comes_first;

verus! {

/// Whether a step leaves a session as `s`, but for what it waits for.
pub open spec fn keeps(step: Step, s: Session) -> bool {
    step.0 == Session { pending: step.0.pending, ..s }
}

/// Whether a step ends with the session as `s`, waiting for the next message.
pub open spec fn rests(step: Step, s: Session) -> bool {
    step == (Session { pending: PendingView::Idle, ..s }, ActionView::Finish)
}

/// Whether a step ends with an error and the session as `s`.
pub open spec fn gives_up(step: Step, s: Session, error: ErrorView) -> bool {
    step == (Session { pending: PendingView::Idle, ..s }, ActionView::Fail(error))
}

/// Whether a step sends an answer and leaves the session as `s`.
pub open spec fn says(step: Step, s: Session, code: ResultCode, message: Seq<char>) -> bool {
    keeps(step, s) && step.1 == ActionView::Send(AnswerView { code, message })
}

/// The step that follows an action that was performed.
pub open spec fn after(step: Step) -> Step {
    step.0.resume(OutcomeView::Done)
}

/// The step that follows an action that failed.
pub open spec fn broken(step: Step, reason: Seq<char>) -> Step {
    step.0.resume(OutcomeView::Failed(reason))
}

/// Whether a step sends the last answer to a command, with the session as `s`
/// from then on. That the answer cannot be sent is an error.
pub open spec fn answers(step: Step, s: Session, code: ResultCode, message: Seq<char>) -> bool {
    &&& says(step, s, code, message)
    &&& rests(after(step), s)
    &&& forall|reason: Seq<char>|
        gives_up(#[trigger] broken(step, reason), s, ErrorView::Io(reason))
}

/// Where names lie below the root of the server.
pub open spec fn below_root(s: Session, parts: Seq<ComponentView>) -> Seq<u8> {
    joined(s.server_root, collected(parts))
}

/// Whether a step asks what the path leads to that follows `parts` from the
/// root of the server on.
pub open spec fn looks_up(step: Step, s: Session, parts: Seq<ComponentView>) -> bool {
    &&& keeps(step, s)
    &&& step.1 == ActionView::Canonicalize(below_root(s, parts))
    &&& components(below_root(s, parts)) == components(s.server_root) + parts
}

/// The names that lead to what a client calls `path`, from the root on.
pub open spec fn way(s: Session, path: Seq<u8>) -> Seq<ComponentView> {
    names(joined(s.cwd, path))
}

/// What a client names is looked up by the whole way there: from the working
/// directory, or from the root where the path begins at it.
proof fn lemma_way(s: Session, path: Seq<u8>)
    requires
        s.wf(),
    ensures
        is_rooted(joined(s.cwd, path)),
        s.located(path) == below_root(s, way(s, path)),
        components(s.located(path)) == components(s.server_root) + way(s, path),
        forall|i: int| 0 <= i < way(s, path).len() ==> is_name(#[trigger] way(s, path)[i]),
{
    let whole = joined(s.cwd, path);
    placed_bytes(s.server_root, whole);
    placed_components(s.server_root, whole);
    lemma_names(whole);
}

/// The way to a path that does not begin at the root goes through the working
/// directory, and the way to any other does not.
pub proof fn ways_begin_in_the_working_directory(s: Session, path: Seq<u8>)
    requires
        s.wf(),
    ensures
        path.len() > 0 && path[0] == 0x2f ==> way(s, path) == names(path),
        !(path.len() > 0 && path[0] == 0x2f) ==> way(s, path) == names(s.cwd) + names(path),
{
    if !is_rooted(path) {
        joined_components(s.cwd, path);
    }
}

/// `CWD` looks up the directory by the whole way there, and enters what it
/// leads to if that lies below the root of the server. The client then sees
/// the way from the root of the server.
pub proof fn cwd_enters_directories(s: Session, directory: Seq<u8>, dir: Seq<u8>)
    requires
        s.wf(),
        is_below(dir, s.server_root),
    ensures
        s.logged() ==> s.cwd(directory) == s.handle_cmd(CommandView::Cwd(directory)),
        looks_up(s.cwd(directory), s, way(s, directory)),
        ({
            let entered = s.cwd(directory).0.resume(OutcomeView::Resolved(dir));
            let gone = components(s.server_root).len() as int;
            &&& answers(
                entered,
                Session { cwd: entered.0.cwd, ..s },
                ResultCode::RequestedFileActionOkay,
                "Directory changed to \""@ + lossy_text(directory) + "\""@,
            )
            &&& gone > 0 ==> components(entered.0.cwd) == seq![ComponentView::RootDir]
                + components(dir).skip(gone)
        }),
{
    lemma_way(s, directory);
    let gone = components(s.server_root).len() as int;
    stripped_components(dir, s.server_root);
    let rest = stripped(dir, s.server_root)->0;
    with_root_components(rest);
    if gone > 0 {
        lemma_names(rest);
        lemma_tail(dir, gone);
        assert(names(rest) =~= components(rest)) by {
            if components(rest).len() > names(rest).len() {
                assert(!is_name(components(rest)[0]));
                assert(components(rest)[0] == components(dir)[gone]);
            }
        }
    }
}

/// Where a directory below the root of the server is spelled by its names
/// alone, `CWD` makes just these the working directory.
pub proof fn cwd_shows_names_as_they_are(
    s: Session,
    directory: Seq<u8>,
    parts: Seq<ComponentView>,
)
    requires
        s.wf(),
        forall|i: int| 0 <= i < parts.len() ==> is_name(#[trigger] parts[i]),
    ensures
        ({
            let dir = below_root(s, parts);
            let entered = s.cwd(directory).0.resume(OutcomeView::Resolved(dir));
            entered.0.cwd == seq![0x2fu8] + collected(parts)
        }),
{
    let dir = below_root(s, parts);
    stripping_undoes_joining(s.server_root, parts);
    stripped_components(dir, s.server_root);
    with_root_bytes(collected(parts));
    collected_components(parts);
}

/// `CWD` refuses what cannot be resolved or lies outside the root, and stays.
pub proof fn cwd_refuses(s: Session, directory: Seq<u8>, outcome: OutcomeView)
    requires
        s.wf(),
        outcome is Failed || outcome is Resolved && !is_below(
            outcome->Resolved_0,
            s.server_root,
        ),
    ensures
        answers(
            s.cwd(directory).0.resume(outcome),
            s,
            ResultCode::FileNotFound,
            "No such file or directory"@,
        ),
{
}

/// `RMD` looks up the directory by the whole way there, removes exactly what it
/// leads to if that lies below the root of the server, and tells how it went.
pub proof fn rmd_removes_directories(
    s: Session,
    directory: Seq<u8>,
    dir: Seq<u8>,
    reason: Seq<char>,
)
    requires
        s.wf(),
        is_below(dir, s.server_root),
    ensures
        s.logged() ==> s.rmd(directory) == s.handle_cmd(CommandView::Rmd(directory)),
        looks_up(s.rmd(directory), s, way(s, directory)),
        ({
            let removing = s.rmd(directory).0.resume(OutcomeView::Resolved(dir));
            &&& keeps(removing, s)
            &&& removing.1 == ActionView::RemoveDir(dir)
            &&& answers(
                after(removing),
                s,
                ResultCode::RequestedFileActionOkay,
                "Folder successfully removed"@,
            )
            &&& answers(
                broken(removing, reason),
                s,
                ResultCode::FileNotFound,
                "Couldn't remove folder"@,
            )
        }),
{
    lemma_way(s, directory);
}

/// `RMD` removes nothing that cannot be resolved or lies outside the root.
pub proof fn rmd_refuses(s: Session, directory: Seq<u8>, outcome: OutcomeView)
    requires
        s.wf(),
        outcome is Failed || outcome is Resolved && !is_below(
            outcome->Resolved_0,
            s.server_root,
        ),
    ensures
        answers(
            s.rmd(directory).0.resume(outcome),
            s,
            ResultCode::FileNotFound,
            "Couldn't remove folder"@,
        ),
{
}

/// `MKD` looks up the way to the directory but for its last name, and makes a
/// directory of that name in what it leads to, if that is a directory below
/// the root of the server.
pub proof fn mkd_makes_directories(
    s: Session,
    path: Seq<u8>,
    name: Seq<u8>,
    dir: Seq<u8>,
    reason: Seq<char>,
)
    requires
        s.wf(),
        way(s, path).len() > 0,
        way(s, path).last() == ComponentView::Normal(name),
        is_below(dir, s.server_root),
    ensures
        s.logged() ==> s.mkd(path) == s.handle_cmd(CommandView::Mkd(path)),
        looks_up(s.mkd(path), s, way(s, path).drop_last()),
        ({
            let checking = s.mkd(path).0.resume(OutcomeView::Resolved(dir));
            let making = checking.0.resume(OutcomeView::Flag(true));
            &&& keeps(checking, s)
            &&& checking.1 == ActionView::IsDir(dir)
            &&& keeps(making, s)
            &&& making.1 == ActionView::CreateDir(joined(dir, name))
            &&& components(joined(dir, name)) == components(dir).push(ComponentView::Normal(name))
            &&& answers(
                after(making),
                s,
                ResultCode::PATHNAMECreated,
                "Folder successfully created!"@,
            )
            &&& answers(
                broken(making, reason),
                s,
                ResultCode::FileNotFound,
                "Couldn't create folder"@,
            )
            &&& answers(
                checking.0.resume(OutcomeView::Flag(false)),
                s,
                ResultCode::FileNotFound,
                "Couldn't create folder"@,
            )
        }),
{
    let whole = joined(s.cwd, path);
    lemma_parent_way(s, path);
    assert(components(whole).last() == names(whole).last());
    file_names_come_last(whole, name);
    lemma_file_name(whole);
    joined_components(dir, name);
    assert(components(dir) + seq![ComponentView::Normal(name)] =~= components(dir).push(
        ComponentView::Normal(name),
    ));
}

/// The way to the parent of a path is the way to the path but for its last
/// step.
proof fn lemma_parent_way(s: Session, path: Seq<u8>)
    requires
        s.wf(),
        way(s, path).len() > 0,
    ensures
        parent_of(joined(s.cwd, path)) is Some,
        placed(s.server_root, parent_of(joined(s.cwd, path))->0) == below_root(
            s,
            way(s, path).drop_last(),
        ),
        components(below_root(s, way(s, path).drop_last())) == components(s.server_root) + way(
            s,
            path,
        ).drop_last(),
{
    let whole = joined(s.cwd, path);
    lemma_way(s, path);
    parent_components(whole);
    assert(components(whole).len() > 1);
    let parent = parent_of(whole)->0;
    assert(components(whole)[0] == ComponentView::RootDir);
    assert(components(parent)[0] == ComponentView::RootDir);
    lemma_rooted(parent);
    placed_components(s.server_root, parent);
    placed_bytes(s.server_root, parent);
}

/// `MKD` makes no directory where there is no name to give it, where its
/// parent cannot be resolved, or where that lies outside the root.
pub proof fn mkd_refuses(s: Session, path: Seq<u8>, dir: Seq<u8>, outcome: OutcomeView)
    requires
        s.wf(),
        outcome is Failed || outcome is Resolved && !is_below(
            outcome->Resolved_0,
            s.server_root,
        ),
    ensures
        way(s, path).len() == 0 ==> answers(
            s.mkd(path),
            s,
            ResultCode::FileNotFound,
            "Couldn't create folder"@,
        ),
        way(s, path).len() > 0 ==> answers(
            s.mkd(path).0.resume(outcome),
            s,
            ResultCode::FileNotFound,
            "Couldn't create folder"@,
        ),
        way(s, path).len() > 0 && !(way(s, path).last() is Normal) && is_below(dir, s.server_root)
            ==> answers(
            s.mkd(path).0.resume(OutcomeView::Resolved(dir)).0.resume(OutcomeView::Flag(true)),
            s,
            ResultCode::FileNotFound,
            "Couldn't create folder"@,
        ),
{
    let whole = joined(s.cwd, path);
    lemma_way(s, path);
    parent_components(whole);
    if way(s, path).len() == 0 {
        assert(components(whole) =~= seq![ComponentView::RootDir]);
    } else {
        lemma_parent_way(s, path);
        assert(components(whole).last() == names(whole).last());
    }
}

/// `LIST` looks up what it is asked for by the whole way there, or the working
/// directory where it is asked for nothing, and announces the listing. It
/// sends the entries of a directory, or the file itself.
pub proof fn list_lists(
    s: Session,
    path: Option<Seq<u8>>,
    found: Seq<u8>,
    entries: Seq<Option<EntryView>>,
    entry: EntryView,
    reason: Seq<char>,
)
    requires
        s.wf(),
        s.data_connection,
        is_below(found, s.server_root),
    ensures
        s.logged() ==> s.list(path) == s.handle_cmd(CommandView::List(path)),
        path is Some ==> looks_up(s.list(path), s, way(s, path->0)),
        path is None ==> looks_up(s.list(path), s, names(s.cwd)),
        ({
            let announcing = s.list(path).0.resume(OutcomeView::Resolved(found));
            let asking = after(announcing);
            let reading = asking.0.resume(OutcomeView::Flag(true));
            let sending = reading.0.resume(OutcomeView::Entries(entries));
            &&& says(
                announcing,
                s,
                ResultCode::DataConnectionAlreadyOpen,
                "Starting to list directory..."@,
            )
            &&& gives_up(broken(announcing, reason), s, ErrorView::Io(reason))
            &&& keeps(asking, s) && asking.1 == ActionView::IsDir(found)
            &&& keeps(reading, s) && reading.1 == ActionView::ReadDir(found)
            &&& answers(
                broken(reading, reason),
                s,
                ResultCode::InvalidParameterOrArgument,
                "No such file or directory"@,
            )
            &&& keeps(sending, s) && sending.1 == ActionView::SendData(listing(entries))
            &&& rests(after(sending), s)
            &&& gives_up(broken(sending, reason), s, ErrorView::Io(reason))
        }),
        ({
            let asking = after(s.list(path).0.resume(OutcomeView::Resolved(found)));
            let looking = asking.0.resume(OutcomeView::Flag(false));
            let sending = looking.0.resume(OutcomeView::Found(entry));
            &&& keeps(looking, s) && looking.1 == ActionView::Stat(found)
            &&& keeps(sending, s) && sending.1 == ActionView::SendData(entry_line(entry))
            &&& rests(after(sending), s)
            &&& gives_up(broken(sending, reason), s, ErrorView::Io(reason))
        }),
{
    match path {
        Some(path) => lemma_way(s, path),
        None => {
            lemma_way(s, seq![]);
            ways_begin_in_the_working_directory(s, seq![]);
            segments_name_one_thing(seq![]);
            assert(names(s.cwd) + Seq::<ComponentView>::empty() =~= names(s.cwd));
        },
    }
}

/// `LIST` refuses what cannot be resolved or lies outside the root, and needs
/// a data connection.
pub proof fn list_refuses(s: Session, path: Option<Seq<u8>>, outcome: OutcomeView)
    requires
        s.wf(),
        outcome is Failed || outcome is Resolved && !is_below(
            outcome->Resolved_0,
            s.server_root,
        ),
    ensures
        !s.data_connection ==> answers(
            s.list(path),
            s,
            ResultCode::ConnectionClosed,
            "No opened data connection"@,
        ),
        s.data_connection ==> answers(
            s.list(path).0.resume(outcome),
            s,
            ResultCode::InvalidParameterOrArgument,
            "No such file or directory"@,
        ),
{
}

/// Whether a step closes the data connection, tells the client that a transfer
/// is done, and rests with the session as `s` but without the connection.
pub open spec fn ends_transfer(step: Step, s: Session) -> bool {
    let t = Session { data_connection: false, ..s };
    &&& keeps(step, t) && step.1 is CloseData
    &&& answers(after(step), t, ResultCode::ClosingDataConnection, "Transfer done"@)
}

/// `RETR` looks up the file by the whole way there, and reads and sends exactly
/// the file that this leads to, byte for byte. Then the transfer is over.
pub proof fn retr_sends_files(
    s: Session,
    path: Seq<u8>,
    file: Seq<u8>,
    data: Seq<u8>,
    reason: Seq<char>,
)
    requires
        s.wf(),
        s.data_connection,
        is_below(file, s.server_root),
    ensures
        s.logged() ==> s.retr(path) == s.handle_cmd(CommandView::Retr(path)),
        looks_up(s.retr(path), s, way(s, path)),
        ({
            let checking = s.retr(path).0.resume(OutcomeView::Resolved(file));
            let announcing = checking.0.resume(OutcomeView::Flag(true));
            let reading = after(announcing);
            let sending = reading.0.resume(OutcomeView::Bytes(data));
            &&& keeps(checking, s) && checking.1 == ActionView::IsFile(file)
            &&& says(
                announcing,
                s,
                ResultCode::DataConnectionAlreadyOpen,
                "Starting to send file..."@,
            )
            &&& gives_up(broken(announcing, reason), s, ErrorView::Io(reason))
            &&& keeps(reading, s) && reading.1 == ActionView::ReadFile(file)
            &&& gives_up(broken(reading, reason), s, ErrorView::Io(reason))
            &&& keeps(sending, s) && sending.1 == ActionView::SendData(data)
            &&& gives_up(broken(sending, reason), s, ErrorView::Io(reason))
            &&& ends_transfer(after(sending), s)
        }),
{
    lemma_way(s, path);
}

/// Whether a step tells the client that there is no file at `path`, and then
/// ends the transfer; a path that is no text is an error.
pub open spec fn denies_file(step: Step, s: Session, path: Seq<u8>) -> bool {
    if valid_utf8(path) {
        &&& says(
            step,
            s,
            ResultCode::LocalErrorInProcessing,
            "\""@ + decode_utf8(path) + "\" doesn't exist"@,
        )
        &&& ends_transfer(after(step), s)
        &&& forall|reason: Seq<char>|
            gives_up(#[trigger] broken(step, reason), s, ErrorView::Io(reason))
    } else {
        gives_up(step, s, ErrorView::Msg("No path"@))
    }
}

/// `RETR` sends nothing that cannot be resolved, lies outside the root or is no
/// file, and needs a data connection.
pub proof fn retr_refuses(s: Session, path: Seq<u8>, file: Seq<u8>, outcome: OutcomeView)
    requires
        s.wf(),
        outcome is Failed || outcome is Resolved && !is_below(
            outcome->Resolved_0,
            s.server_root,
        ),
        is_below(file, s.server_root),
    ensures
        !s.data_connection ==> answers(
            s.retr(path),
            s,
            ResultCode::ConnectionClosed,
            "No opened data connection"@,
        ),
        s.data_connection ==> denies_file(
            s.retr(path).0.resume(outcome),
            s,
            joined(s.cwd, path),
        ),
        s.data_connection ==> denies_file(
            s.retr(path).0.resume(OutcomeView::Resolved(file)).0.resume(OutcomeView::Flag(false)),
            s,
            file,
        ),
{
}

/// `STOR` keeps the place that the whole way leads to. What then arrives is
/// written there, byte for byte and once, and the transfer is over.
pub proof fn stor_stores_files(
    s: Session,
    path: Seq<u8>,
    data: Seq<u8>,
    more: Seq<u8>,
    reason: Seq<char>,
)
    requires
        s.wf(),
        s.data_connection,
        !components(path).contains(ComponentView::ParentDir),
    ensures
        s.logged() ==> s.stor(path) == s.handle_cmd(CommandView::Stor(path)),
        components(below_root(s, way(s, path))) == components(s.server_root) + way(s, path),
        ({
            let place = below_root(s, way(s, path));
            let kept = Session { store_path: Some(place), ..s };
            let cleared = Session { store_path: None, ..s };
            let offered = after(s.stor(path)).0;
            let storing = offered.update(MsgView::DataReceived(data));
            &&& answers(
                s.stor(path),
                kept,
                ResultCode::DataConnectionAlreadyOpen,
                "Starting to send file..."@,
            )
            &&& keeps(storing, cleared) && storing.1 == ActionView::StoreFile(place, data)
            &&& gives_up(broken(storing, reason), cleared, ErrorView::Io(reason))
            &&& ends_transfer(after(storing), cleared)
            &&& rests(
                broken(storing, reason).0.update(MsgView::DataReceived(more)),
                cleared,
            )
        }),
{
    lemma_way(s, path);
}

/// `STOR` takes no file through a parent directory, and needs a data
/// connection.
pub proof fn stor_refuses(s: Session, path: Seq<u8>)
    requires
        s.wf(),
    ensures
        !s.data_connection ==> answers(
            s.stor(path),
            s,
            ResultCode::ConnectionClosed,
            "No opened data connection"@,
        ),
        s.data_connection && components(path).contains(ComponentView::ParentDir) ==> gives_up(
            s.stor(path),
            s,
            ErrorView::PermissionDenied,
        ),
{
}

/// `PWD` tells the working directory as it is, where it is text.
pub proof fn pwd_tells_the_directory(s: Session)
    requires
        s.wf(),
        s.logged(),
    ensures
        valid_utf8(s.cwd) ==> answers(
            s.handle_cmd(CommandView::Pwd),
            s,
            ResultCode::PATHNAMECreated,
            "\""@ + decode_utf8(s.cwd) + "\" "@,
        ),
        !valid_utf8(s.cwd) ==> answers(
            s.handle_cmd(CommandView::Pwd),
            s,
            ResultCode::FileNotFound,
            "No such file or directory"@,
        ),
{
}

/// `CDUP` leaves the last name of the working directory off, and nothing else;
/// at the root it stays.
pub proof fn cdup_goes_up(s: Session)
    requires
        s.wf(),
        s.logged(),
    ensures
        ({
            let up = s.handle_cmd(CommandView::CdUp);
            let cwd = up.0.cwd;
            &&& answers(up, Session { cwd, ..s }, ResultCode::Okay, "Done"@)
            &&& names(s.cwd).len() == 0 ==> cwd == s.cwd
            &&& names(s.cwd).len() > 0 ==> {
                &&& components(cwd) == components(s.cwd).drop_last()
                &&& cwd.is_prefix_of(s.cwd)
                &&& cwd.last() == 0x2f ==> cwd == seq![0x2fu8]
            }
        }),
{
    parent_components(s.cwd);
    assert(components(s.cwd)[0] == ComponentView::RootDir);
    if names(s.cwd).len() == 0 {
        assert(components(s.cwd) =~= seq![ComponentView::RootDir]);
    } else {
        assert(components(s.cwd).len() > 1);
        let parent = parent_of(s.cwd)->0;
        assert(components(parent)[0] == ComponentView::RootDir);
        lemma_rooted(parent);
        parents_begin_their_paths(s.cwd);
    }
}

/// `PORT` keeps the port and tells it back.
pub proof fn port_keeps_the_port(s: Session, port: u16)
    requires
        s.logged(),
    ensures
        exists|number: Seq<char>| #[trigger]
            is_decimal(number, port as int) && answers(
                s.handle_cmd(CommandView::Port(port)),
                Session { data_port: Some(port), ..s },
                ResultCode::Okay,
                "Data port is now "@ + number,
            ),
{
    digits_read_back(port as nat);
    assert(is_decimal(digits(port as nat), port as int) && answers(
        s.handle_cmd(CommandView::Port(port)),
        Session { data_port: Some(port), ..s },
        ResultCode::Okay,
        "Data port is now "@ + digits(port as nat),
    ));
}

/// `PASV` listens on the port that was asked for, or on any. It tells the port
/// that is listened on as two bytes, and then reads no more until the data
/// connection is there.
pub proof fn pasv_listens(s: Session, port: u16, reason: Seq<char>)
    requires
        !s.data_connection,
    ensures
        s.logged() ==> s.pasv() == s.handle_cmd(CommandView::Pasv),
        keeps(s.pasv(), s),
        s.data_port is Some ==> s.pasv().1 == ActionView::Listen(s.data_port->0),
        s.data_port is None ==> s.pasv().1 == ActionView::Listen(0),
        gives_up(broken(s.pasv(), reason), s, ErrorView::Io(reason)),
        ({
            let open = Session { listener: true, ..s };
            let telling = s.pasv().0.resume(OutcomeView::Listening(port));
            let muting = after(telling);
            &&& exists|high: Seq<char>, low: Seq<char>, h: int|
                #![trigger is_decimal(high, h), is_decimal(low, port - 256 * h)]
                {
                    &&& 0 <= port - 256 * h <= 255
                    &&& is_decimal(high, h)
                    &&& is_decimal(low, port - 256 * h)
                    &&& says(
                        telling,
                        open,
                        ResultCode::EnteringPassiveMode,
                        "127,0,0,1,"@ + high + ","@ + low,
                    )
                }
            &&& gives_up(broken(telling, reason), open, ErrorView::Io(reason))
            &&& keeps(muting, open) && muting.1 is Mute
            &&& rests(after(muting), open)
        }),
{
    let h = (port / 256) as int;
    let high = digits((port / 256) as nat);
    let low = digits((port % 256) as nat);
    digits_read_back((port / 256) as nat);
    digits_read_back((port % 256) as nat);
    assert(port % 256 == port - 256 * h);
    let telling = s.pasv().0.resume(OutcomeView::Listening(port));
    assert(is_decimal(high, h) && is_decimal(low, port - 256 * h));
    assert(says(
        telling,
        Session { listener: true, ..s },
        ResultCode::EnteringPassiveMode,
        "127,0,0,1,"@ + high + ","@ + low,
    ));
}

/// `PASV` opens no second data connection.
pub proof fn pasv_refuses(s: Session)
    requires
        s.data_connection,
    ensures
        answers(
            s.pasv(),
            s,
            ResultCode::DataConnectionAlreadyOpen,
            "Already listening..."@,
        ),
{
}

/// `QUIT` says goodbye, whether or not the client has logged in, and closes the
/// control connection.
pub proof fn quit_closes_the_connection(s: Session, reason: Seq<char>)
    ensures
        s.quit() == s.handle_cmd(CommandView::Quit),
        says(
            s.quit(),
            s,
            ResultCode::ServiceClosingControlConnection,
            "Closing connection..."@,
        ),
        gives_up(broken(s.quit(), reason), s, ErrorView::Io(reason)),
        keeps(after(s.quit()), s) && after(s.quit()).1 is CloseControl,
        rests(after(after(s.quit())), s),
{
}

/// The commands that need no login are answered alike with and without one.
pub proof fn open_commands_are_answered(s: Session, kind: TransferType, word: Seq<char>)
    ensures
        answers(
            s.handle_cmd(CommandView::Auth),
            s,
            ResultCode::CommandNotImplemented,
            "Not implemented"@,
        ),
        answers(s.handle_cmd(CommandView::Syst), s, ResultCode::Okay, "I won't tell!"@),
        answers(s.handle_cmd(CommandView::NoOp), s, ResultCode::Okay, "Doing nothing"@),
        answers(
            s.handle_cmd(CommandView::Type(kind)),
            Session { transfer_type: kind, ..s },
            ResultCode::Okay,
            "Transfer type changed successfully"@,
        ),
        answers(
            s.handle_cmd(CommandView::Unknown(word)),
            s,
            ResultCode::UnknownCommand,
            "\""@ + word + "\": Not implemented"@,
        ),
{
}

/// Without a login, every command that needs one is answered alike, and so is
/// a password without a name.
pub proof fn strangers_are_answered(s: Session, command: CommandView)
    requires
        !s.logged(),
        needs_login(command) || command is Pass && s.name is None,
    ensures
        answers(s.handle_cmd(command), s, ResultCode::NotLoggedIn, "Please log first"@),
{
}

/// `USER` takes the name of an account and no other. It asks for the password
/// where the account has one.
pub proof fn user_takes_names_of_accounts(s: Session, name: Seq<char>)
    requires
        name.len() > 0,
    ensures
        ({
            let step = s.handle_cmd(CommandView::User(name));
            let known = exists|i: int|
                0 <= i < user_accounts().len() && (#[trigger] user_accounts()[i]).name == name;
            &&& !known ==> answers(
                step,
                Session { is_admin: false, ..s },
                ResultCode::NotLoggedIn,
                "Unknown user..."@,
            )
            &&& known ==> exists|i: int|
                {
                    &&& 0 <= i < user_accounts().len()
                    &&& (#[trigger] user_accounts()[i]).name == name
                    &&& user_accounts()[i].password.len() > 0 ==> answers(
                        step,
                        Session {
                            is_admin: false,
                            name: Some(name),
                            waiting_password: true,
                            ..s
                        },
                        ResultCode::UserNameOkayNeedPassword,
                        "Login OK, password needed for "@ + name,
                    )
                    &&& user_accounts()[i].password.len() == 0 ==> answers(
                        step,
                        Session {
                            is_admin: false,
                            name: Some(name),
                            waiting_password: false,
                            ..s
                        },
                        ResultCode::UserLoggedIn,
                        "Welcome "@ + name + "!"@,
                    )
                }
        }),
{
    let users = user_accounts();
    first_named_comes_first(users, name);
    if let Some(user) = first_named(users, name) {
        let i = choose|i: int|
            {
                &&& 0 <= i < users.len()
                &&& #[trigger] users[i] == user
                &&& user.name == name
                &&& forall|j: int| 0 <= j < i ==> (#[trigger] users[j]).name != name
            };
        assert(users[i].name == name);
    }
}

/// `USER` without a name changes nothing.
pub proof fn user_refuses_no_name(s: Session)
    ensures
        answers(
            s.handle_cmd(CommandView::User(Seq::<char>::empty())),
            s,
            ResultCode::InvalidParameterOrArgument,
            "Invalid username"@,
        ),
{
}

/// `PASS` lets the client in exactly if there is an account of the name and
/// the password.
pub proof fn pass_takes_passwords_of_accounts(s: Session, password: Seq<char>)
    requires
        s.wf(),
        s.name is Some,
        s.waiting_password,
    ensures
        ({
            let step = s.handle_cmd(CommandView::Pass(password));
            let known = exists|i: int|
                {
                    &&& 0 <= i < user_accounts().len()
                    &&& (#[trigger] user_accounts()[i]).name == s.name->0
                    &&& user_accounts()[i].password == password
                };
            &&& known ==> answers(
                step,
                Session { waiting_password: false, ..s },
                ResultCode::UserLoggedIn,
                "Welcome "@ + s.name->0,
            )
            &&& !known ==> answers(step, s, ResultCode::NotLoggedIn, "Invalid password"@)
        }),
{
    let users = user_accounts();
    let wanted = UserView { name: s.name->0, password };
    if users.contains(wanted) {
        let i = choose|i: int| 0 <= i < users.len() && users[i] == wanted;
        assert(users[i].name == s.name->0);
    }
    assert forall|i: int|
        0 <= i < users.len() && (#[trigger] users[i]).name == s.name->0 && users[i].password
            == password implies users.contains(wanted) by {
        assert(users[i] == wanted);
    }
}

} // verus!
