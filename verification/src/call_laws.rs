//! What the calls of the library give their callers.

use vstd::prelude::*;
use vstd::utf8::{
    decode_utf8, encode_utf8, encode_utf8_decode_utf8, encode_utf8_valid_utf8, valid_utf8,
};

use crate::client::Client;
use crate::cmd::{parsed, Command};
use crate::data::DataConnection;
use crate::error::{Error, ErrorView};
use crate::ftp::{code_number, Answer, ResultCode};
use crate::line::{ends_at, find_crlf};
use crate::listing::{
    add_file_info, entry_line, entry_views, fits_calendar, get_file_info, has_month, have_months,
    is_local_time, is_shown_for, list_entries, listing, month_text, Entry, EntryView, FileTime,
    Metadata,
};
use crate::listing_laws::{is_last_segment, lemma_month_letters, month_letters};
use crate::message_laws::is_open_line;
use crate::path::{
    collected, component_views, components, copy_range, file_name_of, get_filename, get_parent,
    invalid_path, is_below, joined, lemma_last_start, names, parent_of, prefix_slash, same_bytes,
    stripped, Component, ComponentView, FilePath,
};
use crate::path_laws::{placed_bytes, unrooted_bytes, with_root_bytes};
use crate::session::{fits, Action, Msg, Outcome, Session};
use crate::text::{
    decimal, digits, lossy_text, read_text, reads, show_text, signed_decimal, text_bytes,
};
use crate::text_laws::{digits_read_back, is_decimal, is_signed_decimal, signed_digits_read_back};
use crate::user::{check_password, find_account, user_view, user_views, Account, User};
use crate::user_laws::{accounts_are_found_by_name, passwords_open_their_accounts};

verus! {

/// Numbers are written so that they read back as they are.
pub proof fn numbers_are_written_in_full(n: u64, m: i32, text: String, signed: String)
    requires
        call_ensures(decimal, (n,), text),
        call_ensures(signed_decimal, (m,), signed),
    ensures
        is_decimal(text@, n as int),
        is_signed_decimal(signed@, m as int),
{
    digits_read_back(n as nat);
    signed_digits_read_back(m as int);
}

/// Text that is written to bytes is read back from them, and bytes that are
/// read as text are those that the text is written to.
pub proof fn text_is_read_as_written(
    text: String,
    bytes: Vec<u8>,
    back: Option<String>,
    shown: String,
)
    requires
        call_ensures(text_bytes, (&text,), bytes),
        call_ensures(read_text, (&bytes,), back),
        call_ensures(show_text, (&bytes,), shown),
    ensures
        back is Some && back->0@ == text@,
        shown@ == text@,
{
    encode_utf8_valid_utf8(text@);
    encode_utf8_decode_utf8(text@);
}

/// Bytes are read as text exactly if they are text.
pub proof fn only_text_is_read(bytes: Vec<u8>, text: Option<String>, shown: String)
    requires
        call_ensures(read_text, (&bytes,), text),
        call_ensures(show_text, (&bytes,), shown),
    ensures
        text is Some <==> valid_utf8(bytes@),
        text is Some ==> text->0@ == decode_utf8(bytes@) && shown@ == text->0@,
        shown@ == lossy_text(bytes@),
{
}

/// Texts are the same exactly if they read the same.
pub proof fn texts_read_alike(text: String, word: &str, result: bool)
    requires
        call_ensures(reads, (&text, word), result),
    ensures
        result <==> text@ == word@,
{
}

/// The first end of a line is found, and none only where there is none.
pub proof fn line_ends_are_found(buf: &[u8], result: Option<usize>)
    requires
        call_ensures(find_crlf, (buf,), result),
    ensures
        result is None <==> is_open_line(buf@),
        result is Some ==> {
            let index = result->0 as int;
            &&& index + 1 < buf@.len()
            &&& buf@[index] == 0x0d && buf@[index + 1] == 0x0a
            &&& is_open_line(buf@.take(index))
        },
{
    match result {
        Some(index) => {
            let line = buf@.take(index as int);
            assert forall|i: int| 0 <= i < line.len() - 1 implies !(#[trigger] line[i] == 0x0d
                && line[i + 1] == 0x0a) by {
                assert(!ends_at(buf@, i));
            }
            assert(ends_at(buf@, index as int));
            assert(buf@[index as int] == 0x0d && buf@[index + 1] == 0x0a);
        },
        None => {
            assert forall|i: int| 0 <= i < buf@.len() - 1 implies !(#[trigger] buf@[i] == 0x0d
                && buf@[i + 1] == 0x0a) by {
                assert(!ends_at(buf@, i));
            }
        },
    }
}

/// An answer is sent as its number, its message and the end of the line.
pub proof fn answers_are_sent_in_full(
    code: ResultCode,
    message: &str,
    answer: Answer,
    number: u16,
    bytes: Vec<u8>,
)
    requires
        call_ensures(Answer::new, (code, message), answer),
        call_ensures(ResultCode::number, (code,), number),
        call_ensures(Answer::to_bytes, (&answer,), bytes),
    ensures
        number == code_number(code),
        exists|spelling: Seq<char>| #[trigger]
            is_decimal(spelling, number as int) && bytes@ == encode_utf8(
                spelling + seq![' '] + message@ + seq!['\r', '\n'],
            ),
{
    let spelling = digits(number as nat);
    digits_read_back(number as nat);
    assert(is_decimal(spelling, number as int) && bytes@ == encode_utf8(
        spelling + seq![' '] + message@ + seq!['\r', '\n'],
    ));
}

/// An error is put into the words that it was made of.
pub proof fn errors_keep_their_words(word: &str, made: Error, error: Error, text: String)
    requires
        call_ensures(Error::msg, (word,), made),
        call_ensures(Error::message, (&error,), text),
    ensures
        made@ == ErrorView::Msg(word@),
        match error {
            Error::Msg(words) => text@ == words@,
            Error::Io(reason) => text@ == reason@,
            Error::PermissionDenied => text@ == "permission denied"@,
        },
{
}

/// A path is its bytes.
pub proof fn paths_keep_their_bytes(bytes: Vec<u8>, path: FilePath, back: &Vec<u8>)
    requires
        call_ensures(FilePath::from_bytes, (bytes,), path),
        call_ensures(FilePath::as_bytes, (&path,), back),
    ensures
        back@ == bytes@,
        path@ == bytes@,
{
}

/// What is asked of one path.
pub proof fn paths_are_taken_apart(
    path: FilePath,
    start: usize,
    root: bool,
    parts: Vec<Component>,
    up: bool,
    bare: FilePath,
)
    requires
        call_ensures(FilePath::last_start, (&path,), start),
        call_ensures(FilePath::has_root, (&path,), root),
        call_ensures(FilePath::components, (&path,), parts),
        call_ensures(invalid_path, (&path,), up),
        call_ensures(FilePath::unrooted, (&path,), bare),
    ensures
        start <= path@.len() && is_last_segment(path@.skip(start as int), path@),
        root <==> path@.len() > 0 && path@[0] == 0x2f,
        parts@.len() == components(path@).len(),
        forall|i: int| #![trigger parts@[i]]
            0 <= i < parts@.len() ==> match parts@[i] {
                Component::RootDir => components(path@)[i] is RootDir,
                Component::CurDir => components(path@)[i] is CurDir,
                Component::ParentDir => components(path@)[i] is ParentDir,
                Component::Normal(name) => components(path@)[i] == ComponentView::Normal(name@),
            },
        up <==> exists|i: int|
            0 <= i < components(path@).len() && #[trigger] components(path@)[i] is ParentDir,
        bare@ == if root {
            collected(names(path@))
        } else {
            path@
        },
{
    lemma_last_start(path@);
    let last = path@.skip(start as int);
    assert(last =~= path@.skip(path@.len() - last.len()));
    unrooted_bytes(path@);
    let all = components(path@);
    assert(component_views(parts@) == all);
    assert forall|i: int| #![trigger parts@[i]] 0 <= i < parts@.len() implies parts@[i]@
        == all[i] by {
        assert(component_views(parts@)[i] == parts@[i]@);
    }
    if up {
        let i = choose|i: int| 0 <= i < all.len() && all[i] == ComponentView::ParentDir;
        assert(all[i] is ParentDir);
    } else {
        assert forall|i: int| 0 <= i < all.len() implies !(#[trigger] all[i] is ParentDir) by {
            if all[i] is ParentDir {
                assert(all[i] == ComponentView::ParentDir);
                assert(all.contains(ComponentView::ParentDir));
            }
        }
    }
}

/// What is asked of the directory and the name of a path.
pub proof fn paths_have_directories_and_names(
    path: FilePath,
    parent: Option<FilePath>,
    directory: Option<FilePath>,
    name: Option<FilePath>,
    filename: Option<FilePath>,
)
    requires
        call_ensures(FilePath::parent, (&path,), parent),
        call_ensures(get_parent, (path,), directory),
        call_ensures(FilePath::file_name, (&path,), name),
        call_ensures(get_filename, (path,), filename),
    ensures
        parent is Some <==> parent_of(path@) is Some,
        parent is Some ==> parent->0@ == parent_of(path@)->0,
        directory is Some <==> parent_of(path@) is Some,
        directory is Some ==> directory->0@ == parent_of(path@)->0,
        name is Some <==> file_name_of(path@) is Some,
        name is Some ==> name->0@ == file_name_of(path@)->0,
        filename is Some <==> file_name_of(path@) is Some,
        filename is Some ==> filename->0@ == file_name_of(path@)->0,
{
}

/// What is asked of two paths.
pub proof fn paths_are_put_together(
    a: FilePath,
    b: FilePath,
    whole: FilePath,
    below: bool,
    rest: Option<FilePath>,
)
    requires
        call_ensures(FilePath::join, (&a, &b), whole),
        call_ensures(FilePath::starts_with, (&a, &b), below),
        call_ensures(FilePath::strip_prefix, (&a, &b), rest),
    ensures
        whole@ == joined(a@, b@),
        below <==> is_below(a@, b@),
        rest is Some <==> stripped(a@, b@) is Some,
        rest is Some ==> rest->0@ == stripped(a@, b@)->0,
{
}

/// A name is added to a path as it would be seen from there.
pub proof fn names_are_added(path: &mut FilePath, name: FilePath)
    requires
        call_ensures(FilePath::push, (path, &name), ()),
    ensures
        final(path)@ == joined(old(path)@, name@),
{
}

/// A path is made to begin at the root by a slash, where it needs one.
pub proof fn paths_are_made_absolute(path: &mut FilePath)
    requires
        call_ensures(prefix_slash, (path,), ()),
    ensures
        final(path)@ == if old(path)@.len() > 0 && old(path)@[0] == 0x2f {
            old(path)@
        } else {
            seq![0x2fu8] + old(path)@
        },
{
    with_root_bytes(old(path)@);
}

/// Bytes are copied and compared as they are.
pub proof fn bytes_are_copied_and_compared(
    a: Vec<u8>,
    b: Vec<u8>,
    start: usize,
    end: usize,
    part: Vec<u8>,
    same: bool,
)
    requires
        start <= end <= a@.len(),
        call_ensures(copy_range, (&a, start, end), part),
        call_ensures(same_bytes, (&a, &b), same),
    ensures
        call_requires(copy_range, (&a, start, end)),
        part@.len() == end - start,
        forall|i: int| 0 <= i < part@.len() ==> part@[i] == a@[start + i],
        same <==> a@.len() == b@.len() && forall|i: int| 0 <= i < a@.len() ==> a@[i] == b@[i],
{
    if a@.len() == b@.len() && forall|i: int| 0 <= i < a@.len() ==> a@[i] == b@[i] {
        assert(a@ =~= b@);
    }
}

/// A command line is read as what it spells.
pub proof fn lines_are_read(line: Vec<u8>, result: Result<Command, Error>)
    requires
        call_ensures(Command::new, (line,), result),
    ensures
        result is Ok <==> parsed(line@) is Ok,
        result is Ok ==> result->Ok_0@ == parsed(line@)->Ok_0,
        result is Err ==> result->Err_0@ == parsed(line@)->Err_0,
{
}

/// A name is looked up among all accounts, the administrator first.
pub proof fn names_are_looked_up(
    admin: Option<User>,
    users: Vec<User>,
    name: String,
    account: Option<Account>,
)
    requires
        call_ensures(find_account, (&admin, &users, &name), account),
    ensures
        account is Some <==> (admin is Some && admin->0.name@ == name@) || (exists|i: int|
            0 <= i < users@.len() && (#[trigger] users@[i]).name@ == name@),
        account is Some ==> {
            &&& account->0.is_admin <==> admin is Some && admin->0.name@ == name@
            &&& account->0.is_admin ==> (account->0.pass_required <==> admin->0.password@.len()
                > 0)
            &&& !account->0.is_admin ==> exists|i: int|
                {
                    &&& 0 <= i < users@.len()
                    &&& (#[trigger] users@[i]).name@ == name@
                    &&& account->0.pass_required <==> users@[i].password@.len() > 0
                    &&& forall|j: int| 0 <= j < i ==> (#[trigger] users@[j]).name@ != name@
                }
        },
{
    let views = user_views(users@);
    accounts_are_found_by_name(user_view(admin), views, name@);
    assert forall|i: int| 0 <= i < users@.len() implies (#[trigger] users@[i])@ == views[i] by {}
    assert forall|i: int| 0 <= i < views.len() implies #[trigger] views[i] == users@[i]@ by {}
    if account is Some && !account->0.is_admin {
        let i = choose|i: int|
            {
                &&& 0 <= i < views.len()
                &&& (#[trigger] views[i]).name == name@
                &&& account->0.pass_required == (views[i].password.len() > 0)
                &&& forall|j: int| 0 <= j < i ==> (#[trigger] views[j]).name != name@
            };
        assert(users@[i].name@ == name@);
        assert forall|j: int| 0 <= j < i implies (#[trigger] users@[j]).name@ != name@ by {
            assert(views[j].name != name@);
        }
    }
}

/// A password is held against all accounts of the name, and that of the
/// administrator against theirs alone.
pub proof fn passwords_are_checked(
    admin: Option<User>,
    users: Vec<User>,
    is_admin: bool,
    name: String,
    password: String,
    result: bool,
)
    requires
        is_admin ==> admin is Some,
        call_ensures(check_password, (&admin, &users, is_admin, &name, &password), result),
    ensures
        call_requires(check_password, (&admin, &users, is_admin, &name, &password)),
        is_admin ==> (result <==> admin->0.password@ == password@),
        !is_admin ==> (result <==> exists|i: int|
            {
                &&& 0 <= i < users@.len()
                &&& (#[trigger] users@[i]).name@ == name@
                &&& users@[i].password@ == password@
            }),
{
    let views = user_views(users@);
    passwords_open_their_accounts(user_view(admin), views, name@, password@);
    assert forall|i: int| 0 <= i < users@.len() implies (#[trigger] users@[i])@ == views[i] by {}
    assert forall|i: int| 0 <= i < views.len() implies #[trigger] views[i] == users@[i]@ by {}
    if !is_admin && result {
        let i = choose|i: int|
            {
                &&& 0 <= i < views.len()
                &&& (#[trigger] views[i]).name == name@
                &&& views[i].password == password@
            };
        assert(users@[i].name@ == name@);
    }
}

/// What the file system says of a file is kept as it is, and when it was last
/// written is shown in local time, as the machine shows that moment.
pub proof fn entries_keep_what_is_known(
    path: FilePath,
    is_dir: bool,
    meta: Metadata,
    info: (FileTime, u64),
    entry: Entry,
    unknown: Entry,
    fits: bool,
)
    requires
        -67_768_038_400_000_000 <= meta.mtime <= 67_768_034_000_000_000,
        call_ensures(fits_calendar, (meta.mtime,), fits),
        call_ensures(get_file_info, (&meta,), info),
        call_ensures(Entry::new, (path, is_dir, Some(meta)), entry),
        call_ensures(Entry::new, (path, is_dir, None::<Metadata>), unknown),
    ensures
        fits,
        call_requires(get_file_info, (&meta,)),
        call_requires(Entry::new, (path, is_dir, Some(meta))),
        call_requires(Entry::new, (path, is_dir, None::<Metadata>)),
        is_shown_for(info.0, meta.mtime),
        is_local_time(info.0, meta.mtime as int),
        info.1 == meta.size,
        entry.path@ == path@ && unknown.path@ == path@,
        entry.is_dir == is_dir && unknown.is_dir == is_dir,
        unknown.info is None,
        entry.info is Some,
        entry.info->0.size == meta.size,
        entry.info->0.readonly == meta.readonly,
        is_shown_for(entry.info->0.time, meta.mtime),
        is_local_time(entry.info->0.time, meta.mtime as int),
        has_month(entry@) && has_month(unknown@),
{
}

/// A file is added to a listing by its line, and what stands there stays.
pub proof fn lines_are_added(entry: Entry, out: &mut Vec<u8>)
    requires
        entry.info is Some ==> 0 <= entry.info->0.time.month <= 11,
        call_ensures(add_file_info, (&entry, out), ()),
    ensures
        call_requires(add_file_info, (&entry, out)),
        final(out)@ == old(out)@ + entry_line(
            EntryView { path: entry.path@, is_dir: entry.is_dir, info: entry.info },
        ),
{
}

/// A directory is listed by the lines of its entries.
pub proof fn directories_are_listed(
    entries: Vec<Option<Entry>>,
    views: Seq<Option<EntryView>>,
    out: Vec<u8>,
)
    requires
        views.len() == entries@.len(),
        forall|i: int| #![trigger entries@[i]]
            0 <= i < views.len() ==> match entries@[i] {
                Some(entry) => {
                    &&& views[i] == Some(
                        EntryView { path: entry.path@, is_dir: entry.is_dir, info: entry.info },
                    )
                    &&& entry.info is Some ==> 0 <= entry.info->0.time.month <= 11
                },
                None => views[i] is None,
            },
        call_ensures(list_entries, (&entries,), out),
    ensures
        call_requires(list_entries, (&entries,)),
        out@ == listing(views),
{
    let mine = entry_views(entries@);
    assert forall|i: int| 0 <= i < views.len() implies #[trigger] mine[i] == views[i] && (
    mine[i] is Some ==> has_month(mine[i]->0)) by {
        match entries@[i] {
            Some(entry) => {
                assert(mine[i] == Some(entry@));
                assert(views[i] == Some(entry@));
            },
            None => {
                assert(mine[i] is None);
                assert(views[i] is None);
            },
        }
    }
    assert(mine =~= views);
    assert(have_months(mine));
}

/// A month has the three letters that it has in the row of all months.
pub proof fn months_are_named(month: i32, name: &'static str)
    requires
        0 <= month <= 11,
        call_ensures(month_text, (month,), name),
    ensures
        call_requires(month_text, (month,)),
        name@ == month_letters(month as int),
{
    lemma_month_letters(month as int);
}

/// A data connection begins empty.
pub proof fn data_connections_begin_empty(connection: DataConnection)
    requires
        call_ensures(DataConnection::new, (), connection),
    ensures
        connection@.len() == 0,
{
}

/// What arrives over a data connection is added to what has arrived.
pub proof fn data_are_collected(connection: &mut DataConnection, data: Vec<u8>)
    requires
        call_ensures(DataConnection::received, (connection, data), ()),
    ensures
        final(connection)@ == old(connection)@ + data@,
{
}

/// What has arrived over a data connection is handed over whole, and once.
pub proof fn data_are_handed_over(connection: &mut DataConnection, data: Option<Vec<u8>>)
    requires
        call_ensures(DataConnection::closed, (connection,), data),
    ensures
        final(connection)@.len() == 0,
        data is None <==> old(connection)@.len() == 0,
        data is Some ==> data->0@ == old(connection)@,
{
}

/// A client begins as a new session, and tells whether they have logged in.
pub proof fn clients_begin_as_new_sessions(
    root: FilePath,
    client: Client,
    other: Client,
    logged: bool,
)
    requires
        call_ensures(Client::new, (&root,), client),
        call_ensures(Client::is_logged, (&other,), logged),
    ensures
        client@ == Session::initial(root@),
        client@.wf(),
        logged <==> other@.name is Some && !other@.waiting_password,
{
}

/// A client looks up paths below the root of the server, and reaches only what
/// lies there.
pub proof fn clients_look_below_the_root(
    client: Client,
    path: FilePath,
    place: FilePath,
    outcome: Outcome,
    result: Result<FilePath, Error>,
)
    requires
        call_ensures(Client::complete_path, (&client, path), place),
        call_ensures(Client::reachable, (&client, outcome), result),
    ensures
        path@.len() > 0 && path@[0] == 0x2f ==> place@ == joined(
            client@.server_root,
            collected(names(path@)),
        ),
        !(path@.len() > 0 && path@[0] == 0x2f) ==> place@ == joined(client@.server_root, path@),
        outcome matches Outcome::Resolved(found) ==> {
            &&& result is Ok <==> is_below(found@, client@.server_root)
            &&& result is Ok ==> result->Ok_0@ == found@
            &&& result is Err ==> result->Err_0@ is PermissionDenied
        },
        outcome matches Outcome::Failed(reason) ==> result is Err && result->Err_0@
            == ErrorView::Io(reason@),
{
    placed_bytes(client@.server_root, path@);
}

/// A client deals with a message, an outcome or a command by the step of its
/// session.
pub proof fn clients_take_the_steps_of_their_sessions(
    a: &mut Client,
    msg: Msg,
    first: Action,
    b: &mut Client,
    outcome: Outcome,
    next: Action,
    c: &mut Client,
    command: Command,
    begun: Action,
    d: Client,
    fitting: bool,
)
    requires
        call_ensures(Client::update, (a, msg), first),
        call_ensures(Client::resume, (b, outcome), next),
        call_ensures(Client::handle_cmd, (c, command), begun),
        call_ensures(Client::accepts, (&d, &msg), fitting),
    ensures
        final(a)@ == old(a)@.update(msg@).0 && first@ == old(a)@.update(msg@).1,
        final(b)@ == old(b)@.resume(outcome@).0 && next@ == old(b)@.resume(outcome@).1,
        final(c)@ == old(c)@.handle_cmd(command@).0 && begun@ == old(c)@.handle_cmd(command@).1,
        final(a)@.wf() && final(b)@.wf() && final(c)@.wf(),
        fitting <==> d@.accepts(msg@),
{
}

/// A client can be asked to deal with all that the session accepts.
pub proof fn clients_take_what_their_sessions_accept(
    client: &mut Client,
    msg: Msg,
    outcome: Outcome,
    command: Command,
)
    requires
        old(client)@.wf(),
    ensures
        old(client)@.pending is Idle && old(client)@.accepts(msg@) ==> call_requires(
            Client::update,
            (client, msg),
        ),
        fits(old(client)@.pending, outcome@) ==> call_requires(Client::resume, (client, outcome)),
        old(client)@.connection && !(command is Quit && old(client)@.data_connection)
            ==> call_requires(Client::handle_cmd, (client, command)),
{
}

/// The commands of a client that can be called one by one are the steps of the
/// session.
pub proof fn single_commands_are_steps(
    a: &mut Client,
    b: &mut Client,
    c: &mut Client,
    d: &mut Client,
    e: &mut Client,
    path: FilePath,
    entered: Action,
    removed: Action,
    made: Action,
    sent: Action,
    stored: Action,
)
    requires
        call_ensures(Client::cwd, (a, path), entered),
        call_ensures(Client::rmd, (b, path), removed),
        call_ensures(Client::mkd, (c, path), made),
        call_ensures(Client::retr, (d, path), sent),
        call_ensures(Client::stor, (e, path), stored),
    ensures
        (final(a)@, entered@) == old(a)@.cwd(path@),
        (final(b)@, removed@) == old(b)@.rmd(path@),
        (final(c)@, made@) == old(c)@.mkd(path@),
        (final(d)@, sent@) == old(d)@.retr(path@),
        (final(e)@, stored@) == old(e)@.stor(path@),
        final(a)@.wf() && final(b)@.wf() && final(c)@.wf() && final(d)@.wf() && final(e)@.wf(),
{
}

/// So are those that take no path, or may do without.
pub proof fn other_commands_are_steps(
    a: &mut Client,
    b: &mut Client,
    c: &mut Client,
    path: Option<FilePath>,
    listed: Action,
    opened: Action,
    left: Action,
)
    requires
        call_ensures(Client::list, (a, path), listed),
        call_ensures(Client::pasv, (b,), opened),
        call_ensures(Client::quit, (c,), left),
    ensures
        path is Some ==> (final(a)@, listed@) == old(a)@.list(Some(path->0@)),
        path is None ==> (final(a)@, listed@) == old(a)@.list(None),
        (final(b)@, opened@) == old(b)@.pasv(),
        (final(c)@, left@) == old(c)@.quit(),
        final(a)@.wf() && final(b)@.wf() && final(c)@.wf(),
{
}

} // verus!
