//! What holds of every session.

use vstd::prelude::*;
use vstd::utf8::{decode_utf8, encode_utf8, valid_utf8};

use crate::cmd::{parsed, port_of, CommandView};
use crate::cmd_laws::addresses_name_their_port;
use crate::error::ErrorView;
use crate::ftp::{AnswerView, ResultCode};
use crate::line::{crlf_index, ends_at, first_ends_at, lemma_crlf_index};
use crate::path::{
    components, file_name_of, is_below, is_rooted, joined, names, parent_of, placed, stripped,
    with_root, ComponentView,
};
use crate::path_laws::{
    is_name, joined_components, lemma_file_name, parent_and_file_name, parent_components,
    placed_components, stripped_components, with_root_components,
};
use crate::session::{can_have, fits, ActionView, MsgView, OutcomeView, PendingView, Session};
use crate::user::{account_of, admin_account, first_named, opens, user_accounts, UserView};

verus! {

/// Whether `s` leads through no parent directory.
pub open spec fn is_straight(s: Seq<u8>) -> bool {
    !names(s).contains(ComponentView::ParentDir)
}

/// Whether `s` lies below `root`, and leads through no parent directory from
/// there on.
pub open spec fn stays_below(s: Seq<u8>, root: Seq<u8>) -> bool {
    &&& is_below(s, root)
    &&& !components(s).skip(components(root).len() as int).contains(ComponentView::ParentDir)
}

/// Whether every path that a session keeps lies below the root of the server.
pub open spec fn confined(s: Session) -> bool {
    &&& is_straight(s.cwd)
    &&& s.store_path is Some ==> stays_below(s.store_path->0, s.server_root)
    &&& match s.pending {
        PendingView::MkdParent(_, path) => is_below(path, s.server_root),
        PendingView::ListAnnounced(path) => is_below(path, s.server_root),
        PendingView::ListKind(path) => is_below(path, s.server_root),
        PendingView::RetrKind(path) => is_below(path, s.server_root),
        PendingView::RetrAnnounced(path) => is_below(path, s.server_root),
        _ => true,
    }
}

/// Whether the path that an action touches, if any, lies below `root`.
pub open spec fn touches_below(action: ActionView, root: Seq<u8>) -> bool {
    match action {
        ActionView::Canonicalize(path) => is_below(path, root),
        ActionView::IsDir(path) => is_below(path, root),
        ActionView::IsFile(path) => is_below(path, root),
        ActionView::ReadDir(path) => is_below(path, root),
        ActionView::Stat(path) => is_below(path, root),
        ActionView::ReadFile(path) => is_below(path, root),
        ActionView::CreateDir(path) => is_below(path, root),
        ActionView::RemoveDir(path) => is_below(path, root),
        ActionView::StoreFile(path, _) => stays_below(path, root),
        _ => true,
    }
}

/// Whether an outcome that resolves a path gives one that leads through no
/// parent directory, as a canonical path does.
pub open spec fn is_canonical(outcome: OutcomeView) -> bool {
    outcome is Resolved ==> !components(outcome->Resolved_0).contains(ComponentView::ParentDir)
}

/// A new session is confined.
pub proof fn new_sessions_are_confined(root: Seq<u8>)
    ensures
        confined(Session::initial(root)),
        Session::initial(root).wf(),
{
    let cwd = Session::initial(root).cwd;
    with_root_components(Seq::<u8>::empty());
    assert(with_root(Seq::<u8>::empty()) =~= cwd);
    assert(Seq::<u8>::empty().skip(0).len() == 0);
    assert(names(cwd).len() == 0);
}

/// Where a path that a client gives lies: below the root of the server.
proof fn lemma_located(s: Session, path: Seq<u8>)
    requires
        s.wf(),
    ensures
        is_rooted(joined(s.cwd, path)),
        is_below(s.located(path), s.server_root),
        components(s.located(path)) == components(s.server_root) + names(joined(s.cwd, path)),
        is_straight(s.cwd) && !components(path).contains(ComponentView::ParentDir) ==> stays_below(
            s.located(path),
            s.server_root,
        ),
{
    let whole = joined(s.cwd, path);
    placed_components(s.server_root, whole);
    let root = components(s.server_root);
    let all = components(s.located(path));
    assert(root =~= all.take(root.len() as int));
    assert(all.skip(root.len() as int) =~= names(whole));
    if is_straight(s.cwd) && !components(path).contains(ComponentView::ParentDir) {
        assert forall|i: int| 0 <= i < names(path).len() implies names(path)[i]
            != ComponentView::ParentDir by {
            assert(components(path)[i + components(path).len() - names(path).len()]
                == names(path)[i]);
        }
        if !is_rooted(path) {
            joined_components(s.cwd, path);
            assert(names(whole) =~= names(s.cwd) + names(path));
            assert forall|i: int| 0 <= i < names(whole).len() implies names(whole)[i]
                != ComponentView::ParentDir by {
                if i < names(s.cwd).len() {
                    assert(names(whole)[i] == names(s.cwd)[i]);
                } else {
                    assert(names(whole)[i] == names(path)[i - names(s.cwd).len()]);
                }
            }
        }
    }
}

/// The working directory of a client who goes up leads through no parent
/// directory either.
proof fn lemma_cdup(s: Session)
    requires
        s.wf(),
        is_straight(s.cwd),
    ensures
        is_straight(s.cdup().0.cwd),
{
    parent_components(s.cwd);
    if let Some(parent) = parent_of(s.cwd) {
        with_root_components(parent);
        assert(components(s.cwd)[0] == ComponentView::RootDir);
        assert(names(s.cwd).len() > 0) by {
            if names(s.cwd).len() == 0 {
                assert(components(s.cwd) =~= seq![ComponentView::RootDir]);
            }
        }
        assert forall|i: int| 0 <= i < names(parent).len() implies names(parent)[i]
            != ComponentView::ParentDir by {
            assert(names(parent)[i] == names(s.cwd)[i]);
        }
    }
}

/// A directory that a client asks for has its parent below the root of the
/// server.
proof fn lemma_mkd(s: Session, path: Seq<u8>)
    requires
        s.wf(),
        confined(s),
    ensures
        confined(s.mkd(path).0),
        touches_below(s.mkd(path).1, s.server_root),
{
    let whole = joined(s.cwd, path);
    lemma_located(s, path);
    parent_components(whole);
    if let Some(parent) = parent_of(whole) {
        assert(components(whole)[0] == ComponentView::RootDir);
        assert(components(whole).len() > 1) by {
            if components(whole).len() == 1 {
                assert(components(whole) =~= seq![ComponentView::RootDir]);
            }
        }
        assert(components(parent)[0] == ComponentView::RootDir);
        lemma_rooted(parent);
        placed_components(s.server_root, parent);
        let root = components(s.server_root);
        assert(root =~= components(placed(s.server_root, parent)).take(root.len() as int));
    }
}

/// What a client asks to list lies below the root of the server.
proof fn lemma_list(s: Session, path: Option<Seq<u8>>)
    requires
        s.wf(),
        confined(s),
    ensures
        confined(s.list(path).0),
        touches_below(s.list(path).1, s.server_root),
{
    lemma_located(
        s,
        match path {
            Some(path) => path,
            None => seq![],
        },
    );
}

/// A file that a client offers stays below the root of the server.
proof fn lemma_stor(s: Session, path: Seq<u8>)
    requires
        s.wf(),
        confined(s),
    ensures
        confined(s.stor(path).0),
        touches_below(s.stor(path).1, s.server_root),
{
    lemma_located(s, path);
}

/// A command that needs no login touches nothing.
proof fn lemma_open_command(s: Session, command: CommandView)
    requires
        confined(s),
    ensures
        confined(s.open_command(command).0),
        touches_below(s.open_command(command).1, s.server_root),
{
}

/// A command keeps a session confined, and touches only what lies below the
/// root of the server.
pub proof fn commands_stay_below_the_root(s: Session, command: CommandView)
    requires
        s.wf(),
        confined(s),
    ensures
        confined(s.handle_cmd(command).0),
        touches_below(s.handle_cmd(command).1, s.server_root),
{
    lemma_open_command(s, command);
    match command {
        CommandView::Cwd(path) => lemma_located(s, path),
        CommandView::Rmd(path) => lemma_located(s, path),
        CommandView::Retr(path) => lemma_located(s, path),
        CommandView::Stor(path) => lemma_stor(s, path),
        CommandView::List(path) => lemma_list(s, path),
        CommandView::Mkd(path) => lemma_mkd(s, path),
        CommandView::CdUp => lemma_cdup(s),
        _ => {},
    }
}

/// Only a path that begins at the root has the root for a component.
pub proof fn lemma_rooted(s: Seq<u8>)
    requires
        components(s).len() > 0,
        components(s)[0] == ComponentView::RootDir,
    ensures
        is_rooted(s),
{
    if !is_rooted(s) {
        crate::path_laws::lemma_names(s);
        if names(s).len() > 0 {
            assert(is_name(names(s)[0]));
        }
    }
}

/// A message keeps a session confined, and touches only what lies below the
/// root of the server.
pub proof fn messages_stay_below_the_root(s: Session, msg: MsgView)
    requires
        s.wf(),
        confined(s),
    ensures
        confined(s.update(msg).0),
        touches_below(s.update(msg).1, s.server_root),
{
    if let MsgView::Received(data) = msg {
        if let Some(line) = s.line_with(data) {
            if let Ok(command) = parsed(line) {
                commands_stay_below_the_root(
                    Session { current_cmd: seq![], ..s },
                    command,
                );
            }
        }
    }
}

/// The outcome of an action keeps a session confined, and what is touched
/// next lies below the root of the server, wherever links may lead.
pub proof fn outcomes_stay_below_the_root(s: Session, outcome: OutcomeView)
    requires
        s.wf(),
        confined(s),
        fits(s.pending, outcome),
        is_canonical(outcome),
    ensures
        confined(s.resume(outcome).0),
        touches_below(s.resume(outcome).1, s.server_root),
{
    match s.pending {
        PendingView::Cwd(_) => {
            if s.reaches(outcome) {
                let dir = outcome->Resolved_0;
                stripped_components(dir, s.server_root);
                let rest = stripped(dir, s.server_root)->0;
                with_root_components(rest);
                let gone = components(s.server_root).len() as int;
                assert forall|i: int| 0 <= i < names(rest).len() implies names(rest)[i]
                    != ComponentView::ParentDir by {
                    let k = i + components(rest).len() - names(rest).len();
                    assert(components(rest)[k] == names(rest)[i]);
                    assert(components(rest)[k] == components(dir)[k + gone]);
                }
            }
        },
        PendingView::MkdParent(path, parent) => {
            if let Some(name) = file_name_of(path) {
                lemma_file_name(path);
                joined_components(parent, name);
                let root = components(s.server_root);
                let all = components(joined(parent, name));
                assert(root =~= components(parent).take(root.len() as int));
                assert(root =~= all.take(root.len() as int));
            }
        },
        _ => {},
    }
}

/// What a session goes through: a message, or the outcome of an action.
pub enum Event {
    Message(MsgView),
    Outcome(OutcomeView),
}

/// The step of an event.
pub open spec fn stepped(s: Session, event: Event) -> (Session, ActionView) {
    match event {
        Event::Message(msg) => s.update(msg),
        Event::Outcome(outcome) => s.resume(outcome),
    }
}

/// Whether an event can come next: a message that the session accepts, once
/// it waits for one, or an outcome that it waits for.
pub open spec fn can_come(s: Session, event: Event) -> bool {
    match event {
        Event::Message(msg) => s.pending is Idle && s.accepts(msg),
        Event::Outcome(outcome) => fits(s.pending, outcome) && is_canonical(outcome),
    }
}

/// The session after a row of events.
pub open spec fn reached(root: Seq<u8>, events: Seq<Event>) -> Session
    decreases events.len(),
{
    if events.len() == 0 {
        Session::initial(root)
    } else {
        stepped(reached(root, events.drop_last()), events.last()).0
    }
}

/// Whether each of a row of events can come when it comes.
pub open spec fn can_all_come(root: Seq<u8>, events: Seq<Event>) -> bool
    decreases events.len(),
{
    events.len() == 0 || (can_all_come(root, events.drop_last()) && can_come(
        reached(root, events.drop_last()),
        events.last(),
    ))
}

/// Whatever a client sends and however the actions go, a session touches only
/// what lies below the root that it was given.
pub proof fn sessions_stay_below_their_root(root: Seq<u8>, events: Seq<Event>, next: Event)
    requires
        can_all_come(root, events.push(next)),
    ensures
        touches_below(stepped(reached(root, events), next).1, root),
{
    assert(events.push(next).drop_last() =~= events);
    lemma_reached(root, events);
    let s = reached(root, events);
    match next {
        Event::Message(msg) => messages_stay_below_the_root(s, msg),
        Event::Outcome(outcome) => outcomes_stay_below_the_root(s, outcome),
    }
}

/// Every session that is reached is well formed and confined to the root that
/// it was given.
proof fn lemma_reached(root: Seq<u8>, events: Seq<Event>)
    requires
        can_all_come(root, events),
    ensures
        reached(root, events).wf(),
        confined(reached(root, events)),
        reached(root, events).server_root == root,
    decreases events.len(),
{
    if events.len() == 0 {
        new_sessions_are_confined(root);
    } else {
        lemma_reached(root, events.drop_last());
        let s = reached(root, events.drop_last());
        match events.last() {
            Event::Message(msg) => {
                s.lemma_update_wf(msg);
                messages_stay_below_the_root(s, msg);
            },
            Event::Outcome(outcome) => {
                s.lemma_resume_wf(outcome);
                outcomes_stay_below_the_root(s, outcome);
            },
        }
        the_root_never_moves(
            s,
            match events.last() {
                Event::Message(msg) => msg,
                _ => MsgView::Accepted,
            },
            match events.last() {
                Event::Outcome(outcome) => outcome,
                _ => OutcomeView::Done,
            },
        );
    }
}

/// Nothing that a client does moves the root of the server.
pub proof fn the_root_never_moves(s: Session, msg: MsgView, outcome: OutcomeView)
    ensures
        s.update(msg).0.server_root == s.server_root,
        s.resume(outcome).0.server_root == s.server_root,
{
}

/// Whether a command works only for those who have logged in.
pub open spec fn needs_login(command: CommandView) -> bool {
    match command {
        CommandView::Cwd(_) => true,
        CommandView::List(_) => true,
        CommandView::Pasv => true,
        CommandView::Port(_) => true,
        CommandView::Pwd => true,
        CommandView::Retr(_) => true,
        CommandView::Stor(_) => true,
        CommandView::CdUp => true,
        CommandView::Mkd(_) => true,
        CommandView::Rmd(_) => true,
        _ => false,
    }
}

/// Without a login, a command that needs one is refused and changes nothing.
pub proof fn strangers_are_refused(s: Session, command: CommandView)
    requires
        !s.logged(),
        needs_login(command),
    ensures
        s.handle_cmd(command) == s.answered(ResultCode::NotLoggedIn, "Please log first"@),
{
}

/// Only a client who has not logged in is told to do so.
pub proof fn only_strangers_are_told_to_log_in(s: Session, command: CommandView)
    requires
        s.handle_cmd(command).1 == ActionView::Send(
            AnswerView { code: ResultCode::NotLoggedIn, message: "Please log first"@ },
        ),
    ensures
        !s.logged(),
        needs_login(command) || command is Pass,
{
    assert("Please log first"@ != "Unknown user..."@) by {
        reveal_strlit("Please log first");
        reveal_strlit("Unknown user...");
        assert("Please log first"@.len() != "Unknown user..."@.len());
    }
    if s.logged() && needs_login(command) {
    } else if s.name is Some && command is Pass {
    } else {
        assert(s.handle_cmd(command) == s.open_command(command));
    }
}

/// A password changes nothing for a client who has logged in.
pub proof fn passwords_are_asked_for_once(s: Session, password: Seq<char>)
    requires
        s.logged(),
    ensures
        s.handle_cmd(CommandView::Pass(password)) == s.answered(
            ResultCode::UserLoggedIn,
            "Already logged in"@,
        ),
        s.handle_cmd(CommandView::Pass(password)).0.resume(OutcomeView::Done).0 == s.waiting(
            PendingView::Idle,
        ),
{
}

/// No message of a client who has not logged in makes the server look at a
/// file or open a port. All that can reach the files is what they offered
/// while they were logged in.
pub proof fn strangers_reach_nothing(s: Session, msg: MsgView)
    requires
        !s.logged(),
    ensures
        match s.update(msg).1 {
            ActionView::Finish => true,
            ActionView::Send(_) => true,
            ActionView::Unmute => true,
            ActionView::StoreFile(path, _) => s.store_path == Some(path),
            _ => false,
        },
{
    if let MsgView::Received(data) = msg {
        if let Some(line) = s.line_with(data) {
            if let Ok(command) = parsed(line) {
                let emptied = Session { current_cmd: seq![], ..s };
                if needs_login(command) {
                    strangers_are_refused(emptied, command);
                }
            }
        }
    }
}

/// A client gets in by one command only: the password of the name given
/// before, or a name whose account has no password.
pub proof fn logins_take_an_account(s: Session, command: CommandView)
    requires
        !s.logged(),
        s.handle_cmd(command).0.logged(),
    ensures
        match command {
            CommandView::Pass(password) => s.name is Some && opens(
                admin_account(),
                user_accounts(),
                s.is_admin,
                s.name->0,
                password,
            ),
            CommandView::User(name) => {
                let account = account_of(admin_account(), user_accounts(), name);
                account is Some && !account->0.pass_required
            },
            _ => false,
        },
{
}

/// No message but a command line, and no outcome, logs a client in.
pub proof fn only_commands_log_in(s: Session, msg: MsgView, outcome: OutcomeView)
    requires
        !s.logged(),
    ensures
        !s.resume(outcome).0.logged(),
        s.update(msg).0.logged() ==> {
            &&& msg is Received
            &&& s.line_with(msg->Received_0) is Some
            &&& parsed(s.line_with(msg->Received_0)->0) is Ok
            &&& s.handle_cmd(parsed(s.line_with(msg->Received_0)->0)->Ok_0).0.logged()
        },
{
    if let MsgView::Received(data) = msg {
        if let Some(line) = s.line_with(data) {
            if let Ok(command) = parsed(line) {
                let emptied = Session { current_cmd: seq![], ..s };
                assert(emptied.handle_cmd(command).0.logged() == s.handle_cmd(
                    command,
                ).0.logged());
            }
        }
    }
}

/// Whoever gives the name and the password of an account gets in, from any
/// state, and whoever gives the password of no account of that name does not.
pub proof fn accounts_log_in(s: Session, user: UserView, password: Seq<char>)
    requires
        s.wf(),
        user_accounts().contains(user),
        user.name.len() > 0,
        user.password.len() > 0,
        first_named(user_accounts(), user.name) == Some(user),
    ensures
        ({
            let (named, action) = s.handle_cmd(CommandView::User(user.name));
            let asked = named.resume(OutcomeView::Done).0;
            let (entered, answer) = asked.handle_cmd(CommandView::Pass(password));
            &&& !named.logged()
            &&& action == ActionView::Send(
                AnswerView {
                    code: ResultCode::UserNameOkayNeedPassword,
                    message: "Login OK, password needed for "@ + user.name,
                },
            )
            &&& password == user.password ==> entered.logged() && answer == ActionView::Send(
                AnswerView { code: ResultCode::UserLoggedIn, message: "Welcome "@ + user.name },
            )
            &&& !user_accounts().contains(
                UserView { name: user.name, password },
            ) ==> !entered.logged() && answer == ActionView::Send(
                AnswerView { code: ResultCode::NotLoggedIn, message: "Invalid password"@ },
            )
        }),
{
    assert(user == (UserView { name: user.name, password: user.password }));
}

/// Whether a step that asks for an action waits for its outcome, whatever it
/// is, and one that asks for none waits for the next message.
pub open spec fn waits_for_what_it_asks(step: (Session, ActionView)) -> bool {
    &&& forall|next: OutcomeView| #[trigger]
        can_have(step.1, next) ==> fits(step.0.pending, next)
    &&& step.0.pending is Idle <==> step.1 is Finish || step.1 is Fail
}

/// A command that is taken up waits for what it asks.
pub proof fn commands_wait_for_what_they_ask(s: Session, command: CommandView)
    ensures
        waits_for_what_it_asks(s.handle_cmd(command)),
{
    if s.logged() && needs_login(command) {
    } else if s.name is Some && command is Pass {
    } else {
        assert(s.handle_cmd(command) == s.open_command(command));
    }
}

/// A message that is dealt with waits for what it asks.
pub proof fn messages_wait_for_what_they_ask(s: Session, msg: MsgView)
    ensures
        waits_for_what_it_asks(s.update(msg)),
{
    if let MsgView::Received(data) = msg {
        if let Some(line) = s.line_with(data) {
            if let Ok(command) = parsed(line) {
                commands_wait_for_what_they_ask(Session { current_cmd: seq![], ..s }, command);
            }
        }
    }
}

/// A session that goes on waits for what it asks.
#[verifier::spinoff_prover]
#[verifier::rlimit(40)]
pub proof fn outcomes_wait_for_what_they_ask(s: Session, outcome: OutcomeView)
    ensures
        waits_for_what_it_asks(s.resume(outcome)),
{
}

/// How many actions may still be asked for.
pub open spec fn actions_left(pending: PendingView) -> nat {
    match pending {
        PendingView::Idle => 0,
        PendingView::Last => 1,
        PendingView::Ignored => 1,
        PendingView::Cwd(_) => 2,
        PendingView::RmdRemoved => 2,
        PendingView::Rmd => 3,
        PendingView::MkdCreated => 2,
        PendingView::MkdParent(_, _) => 3,
        PendingView::Mkd(_) => 4,
        PendingView::ListEntries => 2,
        PendingView::ListFile => 2,
        PendingView::ListKind(_) => 3,
        PendingView::ListAnnounced(_) => 4,
        PendingView::List => 5,
        PendingView::PasvAnswered => 2,
        PendingView::Pasv => 3,
        PendingView::QuitAnswered => 2,
        PendingView::Closed => 2,
        PendingView::RetrSent => 3,
        PendingView::RetrBytes => 4,
        PendingView::RetrAnnounced(_) => 5,
        PendingView::RetrKind(_) => 6,
        PendingView::Retr(_) => 7,
        PendingView::Stored => 3,
        PendingView::Unmuted => 2,
        PendingView::TransferAnswered => 2,
    }
}

/// Every message is dealt with in a bounded number of actions.
pub proof fn sessions_come_to_rest(s: Session, outcome: OutcomeView)
    requires
        !(s.pending is Idle),
    ensures
        actions_left(s.resume(outcome).0.pending) < actions_left(s.pending) <= 7,
{
}

/// No command is passed over: one that is accepted is answered at once, or
/// leads to a question whose outcome decides on the answer. The one exception
/// is the offer of a file through a parent directory, which is an error.
pub proof fn commands_are_taken_up(s: Session, command: CommandView)
    ensures
        match s.handle_cmd(command).1 {
            ActionView::Send(_) => true,
            ActionView::Canonicalize(_) => true,
            ActionView::Listen(_) => command is Pasv,
            ActionView::Fail(_) => command is Stor && s.data_connection && components(
                command->Stor_0,
            ).contains(ComponentView::ParentDir) && s.handle_cmd(command).0 == s.waiting(
                PendingView::Idle,
            ),
            _ => false,
        },
{
}

/// A command changes nothing but what it is for, and what it waits for.
pub proof fn commands_change_only_their_own(s: Session, command: CommandView)
    ensures
        ({
            let t = s.handle_cmd(command).0;
            &&& t.connection == s.connection
            &&& t.current_cmd == s.current_cmd
            &&& t.data_connection == s.data_connection
            &&& t.listener == s.listener
            &&& t.server_root == s.server_root
            &&& command is CdUp || t.cwd == s.cwd
            &&& command is Port || t.data_port == s.data_port
            &&& command is User || (t.is_admin == s.is_admin && t.name == s.name)
            &&& command is User || command is Pass || t.waiting_password == s.waiting_password
            &&& command is Stor || t.store_path == s.store_path
            &&& command is Type || t.transfer_type == s.transfer_type
        }),
{
    if s.logged() && needs_login(command) {
    } else if s.name is Some && command is Pass {
    } else {
        assert(s.handle_cmd(command) == s.open_command(command));
    }
}

/// The outcome of an action changes the working directory only for `CWD`, and
/// else nothing but what is waited for and what is connected.
#[verifier::spinoff_prover]
#[verifier::rlimit(40)]
pub proof fn outcomes_change_only_their_own(s: Session, outcome: OutcomeView)
    ensures
        ({
            let t = s.resume(outcome).0;
            &&& t == (Session {
                pending: t.pending,
                cwd: t.cwd,
                data_connection: t.data_connection,
                listener: t.listener,
                ..s
            })
            &&& s.pending is Cwd || t.cwd == s.cwd
            &&& s.resume(outcome).1 is CloseData || t.data_connection == s.data_connection
            &&& s.pending is Pasv || s.pending is Unmuted || t.listener == s.listener
        }),
{
}

/// Whether a session waits to learn where a path of the client leads to.
pub open spec fn waits_for_path(pending: PendingView) -> bool {
    match pending {
        PendingView::Cwd(_) => true,
        PendingView::Rmd => true,
        PendingView::Mkd(_) => true,
        PendingView::List => true,
        PendingView::Retr(_) => true,
        _ => false,
    }
}

/// A client cannot tell what lies outside the root of the server from what
/// does not exist.
pub proof fn outside_is_as_good_as_missing(s: Session, path: Seq<u8>, reason: Seq<char>)
    requires
        waits_for_path(s.pending),
        !is_below(path, s.server_root),
    ensures
        s.resume(OutcomeView::Resolved(path)) == s.resume(OutcomeView::Failed(reason)),
{
}

/// A path is looked up where it lies below the root of the server. What it
/// leads to there is given, and what lies outside is not permitted. What leads
/// nowhere is refused for the reason that the system gives.
pub proof fn lookups_end_below_the_root(
    s: Session,
    path: Seq<u8>,
    resolved: Seq<u8>,
    reason: Seq<char>,
)
    requires
        s.wf(),
    ensures
        is_below(s.located(path), s.server_root),
        s.reaches(OutcomeView::Resolved(resolved)) <==> is_below(resolved, s.server_root),
        !is_below(resolved, s.server_root) ==> s.refusal(OutcomeView::Resolved(resolved))
            is PermissionDenied,
        !s.reaches(OutcomeView::Failed(reason)),
        s.refusal(OutcomeView::Failed(reason)) == ErrorView::Io(reason),
{
    lemma_located(s, path);
}

/// What a client asks for and may not reach, or what does not exist, is
/// refused with the answer of the command, and nothing is touched.
pub proof fn what_cannot_be_reached_is_refused(s: Session, outcome: OutcomeView)
    requires
        waits_for_path(s.pending),
        !s.reaches(outcome),
    ensures
        match s.pending {
            PendingView::Cwd(_) => s.resume(outcome) == s.answered(
                ResultCode::FileNotFound,
                "No such file or directory"@,
            ),
            PendingView::Rmd => s.resume(outcome) == s.answered(
                ResultCode::FileNotFound,
                "Couldn't remove folder"@,
            ),
            PendingView::Mkd(_) => s.resume(outcome) == s.answered(
                ResultCode::FileNotFound,
                "Couldn't create folder"@,
            ),
            PendingView::List => s.resume(outcome) == s.answered(
                ResultCode::InvalidParameterOrArgument,
                "No such file or directory"@,
            ),
            PendingView::Retr(path) => if valid_utf8(path) {
                s.resume(outcome) == s.sending(
                    PendingView::RetrSent,
                    ResultCode::LocalErrorInProcessing,
                    "\""@ + decode_utf8(path) + "\" doesn't exist"@,
                )
            } else {
                s.resume(outcome) == s.failed(ErrorView::Msg("No path"@))
            },
            _ => false,
        },
{
}

/// Bytes that arrive in two pieces are dealt with as if they had arrived in
/// one, where the first piece holds no end of a line and the two do not meet
/// in the middle of one.
pub proof fn pieces_make_a_line(s: Session, a: Seq<u8>, b: Seq<u8>)
    requires
        s.pending is Idle,
        crlf_index(a) is None,
        !ends_at(a + b, a.len() - 1),
    ensures
        s.update(MsgView::Received(a)).1 is Finish,
        s.update(MsgView::Received(a)).0.update(MsgView::Received(b)) == s.update(
            MsgView::Received(a + b),
        ),
{
    let t = s.update(MsgView::Received(a)).0;
    assert(t.current_cmd =~= s.current_cmd + a);
    assert forall|i: int| ends_at(a + b, i) implies i >= a.len() && ends_at(b, i - a.len()) by {
        if i < a.len() - 1 {
            assert((a + b)[i] == a[i]);
            assert((a + b)[i + 1] == a[i + 1]);
            assert(ends_at(a, i));
            lemma_no_crlf(a, i);
        } else if i >= a.len() {
            assert((a + b)[i] == b[i - a.len()]);
            assert((a + b)[i + 1] == b[i + 1 - a.len()]);
        }
    }
    assert forall|i: int| ends_at(b, i) implies ends_at(a + b, i + a.len()) by {
        assert((a + b)[i + a.len()] == b[i]);
        assert((a + b)[i + a.len() + 1] == b[i + 1]);
    }
    match crlf_index(b) {
        Some(index) => {
            assert(first_ends_at(b, index));
            let whole = index + a.len();
            assert(first_ends_at(a + b, whole)) by {
                assert(ends_at(a + b, whole));
                assert forall|j: int| 0 <= j < whole implies !#[trigger] ends_at(a + b, j) by {
                    if ends_at(a + b, j) {
                        assert(ends_at(b, j - a.len()));
                    }
                }
            }
            lemma_crlf_index(a + b, whole);
            assert(t.current_cmd + b.take(index) =~= s.current_cmd + (a + b).take(whole));
            assert((Session { current_cmd: seq![], ..t }) =~= (Session {
                current_cmd: seq![],
                ..s
            }));
        },
        None => {
            if crlf_index(a + b) is Some {
                let whole = crlf_index(a + b)->0;
                assert(first_ends_at(a + b, whole));
                assert(ends_at(b, whole - a.len()));
                lemma_no_crlf(b, whole - a.len());
            }
            assert(t.current_cmd + b =~= s.current_cmd + (a + b));
        },
    }
}

/// Where the first end of a line is not found there is none at all.
proof fn lemma_no_crlf(s: Seq<u8>, i: int)
    requires
        ends_at(s, i),
    ensures
        crlf_index(s) is Some,
    decreases i,
{
    if exists|j: int| 0 <= j < i && #[trigger] ends_at(s, j) {
        let j = choose|j: int| 0 <= j < i && #[trigger] ends_at(s, j);
        lemma_no_crlf(s, j);
    } else {
        assert(first_ends_at(s, i));
    }
}

/// Going up takes the last name from the working directory, and stays at the
/// root.
pub proof fn cdup_goes_up_once(s: Session)
    requires
        s.wf(),
    ensures
        names(s.cwd).len() == 0 ==> s.cdup().0.cwd == s.cwd,
        names(s.cwd).len() > 0 ==> components(s.cdup().0.cwd) == components(s.cwd).drop_last(),
{
    parent_components(s.cwd);
    assert(components(s.cwd)[0] == ComponentView::RootDir);
    if names(s.cwd).len() == 0 {
        assert(components(s.cwd) =~= seq![ComponentView::RootDir]);
    } else {
        assert(components(s.cwd).len() > 1);
        let parent = parent_of(s.cwd)->0;
        with_root_components(parent);
        assert(components(s.cwd).drop_last() =~= seq![ComponentView::RootDir] + names(
            s.cwd,
        ).drop_last());
    }
}

/// After a change of the working directory the client sees the path from the
/// root of the server to where the directory led.
pub proof fn cwd_shows_where_it_led(s: Session, directory: Seq<u8>, outcome: OutcomeView)
    requires
        s.reaches(outcome),
        components(s.server_root).len() > 0,
    ensures
        components(s.cwd_resolved(directory, outcome).0.cwd) == seq![ComponentView::RootDir]
            + components(outcome->Resolved_0).skip(components(s.server_root).len() as int),
{
    let dir = outcome->Resolved_0;
    let gone = components(s.server_root).len() as int;
    stripped_components(dir, s.server_root);
    let rest = stripped(dir, s.server_root)->0;
    with_root_components(rest);
    crate::path_laws::lemma_names(rest);
    crate::path_laws::lemma_tail(dir, gone);
    assert(names(rest) =~= components(rest)) by {
        if components(rest).len() > names(rest).len() {
            assert(!is_name(components(rest)[0]));
            assert(components(rest)[0] == components(dir)[gone]);
        }
    }
}

/// The file that a client offers and then sends is written where it was
/// offered, byte for byte and once.
pub proof fn offered_files_are_stored(s: Session, path: Seq<u8>, data: Seq<u8>, more: Seq<u8>)
    requires
        s.data_connection,
        !components(path).contains(ComponentView::ParentDir),
    ensures
        ({
            let offered = s.stor(path).0.resume(OutcomeView::Done).0;
            let (sent, action) = offered.update(MsgView::DataReceived(data));
            &&& action == ActionView::StoreFile(s.located(path), data)
            &&& sent.update(MsgView::DataReceived(more)).1 is Finish
        }),
{
}

/// A file is looked for where it was stored.
pub proof fn stored_files_are_found_again(s: Session, path: Seq<u8>)
    requires
        s.data_connection,
        !components(path).contains(ComponentView::ParentDir),
    ensures
        s.stor(path).0.store_path is Some,
        s.retr(path).1 == ActionView::Canonicalize(s.stor(path).0.store_path->0),
{
}

/// A directory is looked for where it was made, if the way there leads through
/// no links.
pub proof fn made_directories_are_found_again(s: Session, path: Seq<u8>)
    requires
        s.wf(),
        file_name_of(joined(s.cwd, path)) is Some,
    ensures
        ({
            let (asking, ask) = s.mkd(path);
            let (checking, check) = asking.resume(OutcomeView::Resolved(ask->Canonicalize_0));
            let (making, make) = checking.resume(OutcomeView::Flag(true));
            &&& ask is Canonicalize
            &&& check is IsDir
            &&& make is CreateDir
            &&& s.cwd(path).1 is Canonicalize
            &&& components(make->CreateDir_0) == components(s.cwd(path).1->Canonicalize_0)
        }),
{
    let whole = joined(s.cwd, path);
    let name = file_name_of(whole)->0;
    lemma_located(s, path);
    parent_and_file_name(whole);
    parent_components(whole);
    lemma_file_name(whole);
    let parent = parent_of(whole)->0;
    assert(components(whole)[0] == ComponentView::RootDir);
    assert(names(whole).len() > 0);
    assert(components(parent)[0] == ComponentView::RootDir);
    lemma_rooted(parent);
    placed_components(s.server_root, parent);
    let dir = placed(s.server_root, parent);
    let root = components(s.server_root);
    assert(root =~= components(dir).take(root.len() as int));
    joined_components(dir, name);
    assert(components(joined(dir, name)) =~= root + names(whole));
}

/// Once a file of the client has been written, the data connection is closed
/// and the client is told, and then the session rests.
pub proof fn stored_files_end_the_transfer(s: Session)
    requires
        s.pending is Stored,
        s.data_connection,
    ensures
        ({
            let (closing, close) = s.resume(OutcomeView::Done);
            let (telling, tell) = closing.resume(OutcomeView::Done);
            let (resting, rest) = telling.resume(OutcomeView::Done);
            &&& close is CloseData
            &&& tell == transfer_done()
            &&& rest is Finish
            &&& resting == (Session { data_connection: false, pending: PendingView::Idle, ..s })
        }),
{
}

/// Once data have been sent, the client is told and the data connection is
/// closed, whether or not the client can be told.
pub proof fn sent_data_end_the_transfer(s: Session, told: OutcomeView)
    requires
        s.data_connection,
    ensures
        ({
            let (telling, tell) = s.update(MsgView::TransferDone);
            let (closing, close) = telling.resume(told);
            let (resting, rest) = closing.resume(OutcomeView::Done);
            &&& tell == transfer_done()
            &&& close is CloseData
            &&& rest is Finish
            &&& resting == (Session { data_connection: false, pending: PendingView::Idle, ..s })
        }),
{
}

/// The answer that a transfer is done.
pub open spec fn transfer_done() -> ActionView {
    ActionView::Send(
        AnswerView { code: ResultCode::ClosingDataConnection, message: "Transfer done"@ },
    )
}

/// The bytes of a file that was announced reach the client as they were read.
pub proof fn files_are_sent_as_read(s: Session, path: Seq<u8>, data: Seq<u8>)
    requires
        s.pending == PendingView::RetrAnnounced(path),
        s.data_connection,
    ensures
        ({
            let (reading, read) = s.resume(OutcomeView::Done);
            let (sending, send) = reading.resume(OutcomeView::Bytes(data));
            let (closing, close) = sending.resume(OutcomeView::Done);
            let (telling, tell) = closing.resume(OutcomeView::Done);
            &&& read == ActionView::ReadFile(path)
            &&& send == ActionView::SendData(data)
            &&& close is CloseData
            &&& tell == transfer_done()
            &&& !telling.data_connection
        }),
{
}

/// The port that a client asks for is the one that is listened on.
pub proof fn the_port_asked_for_is_used(s: Session, port: u16)
    requires
        s.logged(),
        !s.data_connection,
    ensures
        ({
            let told = s.handle_cmd(CommandView::Port(port)).0.resume(OutcomeView::Done).0;
            told.handle_cmd(CommandView::Pasv).1 == ActionView::Listen(port)
        }),
{
}

/// The answer that tells a client where to open a data connection spells the
/// port that is listened on, the way a client spells a port.
pub proof fn passive_answers_name_their_port(s: Session, port: u16)
    ensures
        ({
            let (told, action) = s.pasv_listening(OutcomeView::Listening(port));
            &&& told.listener
            &&& action is Send
            &&& action->Send_0.code == ResultCode::EnteringPassiveMode
            &&& port_of(encode_utf8(action->Send_0.message)) == Some(port as int)
        }),
{
    addresses_name_their_port(port);
}

} // verus!
