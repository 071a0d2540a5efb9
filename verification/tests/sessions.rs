use ftp_server::client::Client;
use ftp_server::cmd::Command;
use ftp_server::error::Error;
use ftp_server::listing::{Entry, FileInfo, FileTime};
use ftp_server::path::FilePath;
use ftp_server::session::{Action, Msg, Outcome};

fn path(text: &str) -> FilePath {
    FilePath::from_bytes(text.as_bytes().to_vec())
}

fn shown(path: &FilePath) -> String {
    String::from_utf8_lossy(path.as_bytes()).into_owned()
}

fn describe(action: Action) -> String {
    match action {
        Action::Finish => "finish".to_string(),
        Action::Fail(error) => format!("fail {}", error.message()),
        Action::Send(answer) => format!("send {} {}", answer.code.number(), answer.message),
        Action::SendData(data) => format!("data {}", String::from_utf8_lossy(&data)),
        Action::CloseData => "close data".to_string(),
        Action::CloseControl => "close control".to_string(),
        Action::Mute => "mute".to_string(),
        Action::Unmute => "unmute".to_string(),
        Action::Listen(port) => format!("listen {}", port),
        Action::DisposeListener => "dispose listener".to_string(),
        Action::Canonicalize(path) => format!("canonicalize {}", shown(&path)),
        Action::IsDir(path) => format!("is dir {}", shown(&path)),
        Action::IsFile(path) => format!("is file {}", shown(&path)),
        Action::ReadDir(path) => format!("read dir {}", shown(&path)),
        Action::Stat(path) => format!("stat {}", shown(&path)),
        Action::ReadFile(path) => format!("read file {}", shown(&path)),
        Action::CreateDir(path) => format!("create dir {}", shown(&path)),
        Action::RemoveDir(path) => format!("remove dir {}", shown(&path)),
        Action::StoreFile(path, data) => {
            format!("store {} {}", shown(&path), String::from_utf8_lossy(&data))
        }
    }
}

fn update(client: &mut Client, msg: Msg) -> String {
    assert!(client.accepts(&msg));
    describe(client.update(msg))
}

fn send(client: &mut Client, line: &str) -> String {
    let mut data = line.as_bytes().to_vec();
    data.extend(b"\r\n");
    update(client, Msg::Received(data))
}

fn done(client: &mut Client) -> String {
    describe(client.resume(Outcome::Done))
}

fn failed(client: &mut Client) -> String {
    describe(client.resume(Outcome::Failed("broken pipe".to_string())))
}

fn resolved(client: &mut Client, text: &str) -> String {
    describe(client.resume(Outcome::Resolved(path(text))))
}

/// Sends a line that is answered at once, and gives the answer.
fn ask(client: &mut Client, line: &str) -> String {
    let answer = send(client, line);
    assert_eq!(done(client), "finish");
    answer
}

fn connected() -> Client {
    let mut client = Client::new(&path("/srv/ftp"));
    assert_eq!(update(&mut client, Msg::Accepted), "send 220 Welcome to this FTP server!");
    assert_eq!(done(&mut client), "finish");
    client
}

fn logged_in() -> Client {
    let mut client = connected();
    assert_eq!(ask(&mut client, "USER test"), "send 331 Login OK, password needed for test");
    assert!(!client.is_logged());
    assert_eq!(ask(&mut client, "PASS password"), "send 230 Welcome test");
    assert!(client.is_logged());
    client
}

fn with_data() -> Client {
    let mut client = logged_in();
    assert_eq!(send(&mut client, "PASV"), "listen 0");
    assert_eq!(
        describe(client.resume(Outcome::Listening(1337))),
        "send 227 127,0,0,1,5,57"
    );
    assert_eq!(done(&mut client), "mute");
    assert_eq!(done(&mut client), "finish");
    assert_eq!(update(&mut client, Msg::DataConnected), "unmute");
    assert_eq!(done(&mut client), "dispose listener");
    assert_eq!(done(&mut client), "finish");
    client
}

fn enter(client: &mut Client, directory: &str, real: &str) {
    send(client, &format!("CWD {}", directory));
    resolved(client, real);
    assert_eq!(done(client), "finish");
}

fn entry(text: &str, is_dir: bool) -> Entry {
    Entry {
        path: path(text),
        is_dir,
        info: Some(FileInfo {
            time: FileTime { month: 0, day: 1, hour: 23, minute: 59, offset: 0 },
            size: 9,
            readonly: false,
        }),
    }
}

#[test]
fn strangers_are_told_to_log_in() {
    let mut client = connected();
    for line in [
        "CWD a", "LIST", "PASV", "PORT 1,2,3,4,5,6", "PWD", "RETR a", "STOR a", "CDUP", "MKD a",
        "RMD a", "PASS password",
    ] {
        assert_eq!(ask(&mut client, line), "send 530 Please log first", "{}", line);
    }
}

#[test]
fn everyone_may_ask_the_rest() {
    for mut client in [connected(), logged_in()] {
        assert_eq!(ask(&mut client, "AUTH TLS"), "send 502 Not implemented");
        assert_eq!(ask(&mut client, "SYST"), "send 200 I won't tell!");
        assert_eq!(ask(&mut client, "TYPE I"), "send 200 Transfer type changed successfully");
        assert_eq!(ask(&mut client, "NOOP"), "send 200 Doing nothing");
        assert_eq!(ask(&mut client, "feat x"), "send 500 \"FEAT\": Not implemented");
    }
}

#[test]
fn logins_take_a_name_and_its_password() {
    let mut client = connected();
    assert_eq!(ask(&mut client, "USER "), "send 501 Invalid username");
    assert_eq!(ask(&mut client, "USER nobody"), "send 530 Unknown user...");
    assert_eq!(ask(&mut client, "PASS password"), "send 530 Please log first");
    assert_eq!(ask(&mut client, "USER test"), "send 331 Login OK, password needed for test");
    assert_eq!(ask(&mut client, "PWD"), "send 530 Please log first");
    assert_eq!(ask(&mut client, "PASS wrong"), "send 530 Invalid password");
    assert!(!client.is_logged());
    assert_eq!(ask(&mut client, "PASS password"), "send 230 Welcome test");
    assert!(client.is_logged());
    assert_eq!(ask(&mut client, "PASS password"), "send 230 Already logged in");
    assert_eq!(ask(&mut client, "PASS wrong"), "send 230 Already logged in");
    assert!(client.is_logged());
    assert_eq!(ask(&mut client, "PWD"), "send 257 \"/\" ");
    assert_eq!(ask(&mut client, "USER nobody"), "send 530 Unknown user...");
    assert!(client.is_logged());
    assert_eq!(ask(&mut client, "USER test"), "send 331 Login OK, password needed for test");
    assert!(!client.is_logged());
}

#[test]
fn lines_are_put_together_from_pieces() {
    let mut client = connected();
    assert_eq!(update(&mut client, Msg::Received(b"NO".to_vec())), "finish");
    assert_eq!(update(&mut client, Msg::Received(b"".to_vec())), "finish");
    assert_eq!(
        update(&mut client, Msg::Received(b"OP\r\nQUIT\r\n".to_vec())),
        "send 200 Doing nothing"
    );
    assert_eq!(done(&mut client), "finish");
    assert_eq!(ask(&mut client, "SYST"), "send 200 I won't tell!");
}

#[test]
fn an_end_of_line_in_two_pieces_is_missed() {
    let mut client = connected();
    assert_eq!(update(&mut client, Msg::Received(b"NOOP\r".to_vec())), "finish");
    assert_eq!(update(&mut client, Msg::Received(b"\n".to_vec())), "finish");
    assert_eq!(
        update(&mut client, Msg::Received(b" x\r\n".to_vec())),
        "send 500 \"NOOP\r\n\": Not implemented"
    );
}

#[test]
fn faulty_lines_are_passed_over() {
    let mut client = connected();
    assert_eq!(send(&mut client, "USER"), "finish");
    assert_eq!(send(&mut client, "TYPE X"), "finish");
    assert_eq!(ask(&mut client, "NOOP"), "send 200 Doing nothing");
}

#[test]
fn answers_that_cannot_be_sent_are_errors() {
    let mut client = connected();
    assert_eq!(send(&mut client, "NOOP"), "send 200 Doing nothing");
    assert_eq!(failed(&mut client), "fail broken pipe");
    let mut client = Client::new(&path("/srv/ftp"));
    update(&mut client, Msg::Accepted);
    assert_eq!(failed(&mut client), "finish");
}

#[test]
fn the_working_directory_is_changed_and_told() {
    let mut client = logged_in();
    assert_eq!(ask(&mut client, "PWD"), "send 257 \"/\" ");
    assert_eq!(send(&mut client, "CWD docs/old"), "canonicalize /srv/ftp/docs/old");
    assert_eq!(
        resolved(&mut client, "/srv/ftp/docs/old"),
        "send 250 Directory changed to \"docs/old\""
    );
    assert_eq!(done(&mut client), "finish");
    assert_eq!(ask(&mut client, "PWD"), "send 257 \"/docs/old\" ");
    assert_eq!(send(&mut client, "CWD ../new"), "canonicalize /srv/ftp/docs/old/../new");
    assert_eq!(resolved(&mut client, "/srv/ftp/docs/new"), "send 250 Directory changed to \"../new\"");
    done(&mut client);
    assert_eq!(ask(&mut client, "PWD"), "send 257 \"/docs/new\" ");
    assert_eq!(send(&mut client, "CWD /"), "canonicalize /srv/ftp/");
    assert_eq!(resolved(&mut client, "/srv/ftp"), "send 250 Directory changed to \"/\"");
    done(&mut client);
    assert_eq!(ask(&mut client, "PWD"), "send 257 \"/\" ");
}

#[test]
fn nobody_leaves_the_root() {
    let mut client = logged_in();
    assert_eq!(send(&mut client, "CWD ../.."), "canonicalize /srv/ftp/../..");
    assert_eq!(resolved(&mut client, "/"), "send 550 No such file or directory");
    done(&mut client);
    assert_eq!(send(&mut client, "CWD ../ftpx"), "canonicalize /srv/ftp/../ftpx");
    assert_eq!(resolved(&mut client, "/srv/ftpx"), "send 550 No such file or directory");
    done(&mut client);
    assert_eq!(send(&mut client, "CWD missing"), "canonicalize /srv/ftp/missing");
    assert_eq!(failed(&mut client), "send 550 No such file or directory");
    done(&mut client);
    assert_eq!(ask(&mut client, "PWD"), "send 257 \"/\" ");
    send(&mut client, "RMD /link");
    assert_eq!(resolved(&mut client, "/etc"), "send 550 Couldn't remove folder");
    done(&mut client);
    send(&mut client, "MKD /link/new");
    assert_eq!(resolved(&mut client, "/etc"), "send 550 Couldn't create folder");
}

#[test]
fn a_directory_of_no_text_is_shown_with_marks() {
    let mut client = logged_in();
    let directory = FilePath::from_bytes(b"d\xff".to_vec());
    let action = client.handle_cmd(Command::Cwd(directory));
    assert_eq!(describe(action), "canonicalize /srv/ftp/d\u{fffd}");
    let real = FilePath::from_bytes(b"/srv/ftp/d\xff".to_vec());
    assert_eq!(
        describe(client.resume(Outcome::Resolved(real))),
        "send 250 Directory changed to \"d\u{fffd}\""
    );
    done(&mut client);
    assert_eq!(ask(&mut client, "PWD"), "send 550 No such file or directory");
}

#[test]
fn cdup_goes_up() {
    let mut client = logged_in();
    enter(&mut client, "a/b", "/srv/ftp/a/b");
    for there in ["/a", "/", "/"] {
        assert_eq!(ask(&mut client, "CDUP"), "send 200 Done");
        assert_eq!(ask(&mut client, "PWD"), format!("send 257 \"{}\" ", there));
    }
}

#[test]
fn directories_are_removed() {
    let mut client = logged_in();
    enter(&mut client, "a", "/srv/ftp/a");
    assert_eq!(send(&mut client, "RMD b"), "canonicalize /srv/ftp/a/b");
    assert_eq!(resolved(&mut client, "/srv/ftp/a/b"), "remove dir /srv/ftp/a/b");
    assert_eq!(done(&mut client), "send 250 Folder successfully removed");
    assert_eq!(done(&mut client), "finish");
    send(&mut client, "RMD b");
    resolved(&mut client, "/srv/ftp/a/b");
    assert_eq!(failed(&mut client), "send 550 Couldn't remove folder");
}

#[test]
fn directories_are_made() {
    let mut client = logged_in();
    assert_eq!(send(&mut client, "MKD a/new"), "canonicalize /srv/ftp/a");
    assert_eq!(resolved(&mut client, "/srv/ftp/real"), "is dir /srv/ftp/real");
    assert_eq!(describe(client.resume(Outcome::Flag(true))), "create dir /srv/ftp/real/new");
    assert_eq!(done(&mut client), "send 257 Folder successfully created!");
    assert_eq!(done(&mut client), "finish");
    send(&mut client, "MKD a/new");
    resolved(&mut client, "/srv/ftp/real");
    assert_eq!(describe(client.resume(Outcome::Flag(false))), "send 550 Couldn't create folder");
    done(&mut client);
    send(&mut client, "MKD a/new");
    resolved(&mut client, "/srv/ftp/real");
    client.resume(Outcome::Flag(true));
    assert_eq!(failed(&mut client), "send 550 Couldn't create folder");
    done(&mut client);
    assert_eq!(ask(&mut client, "MKD /"), "send 550 Couldn't create folder");
    assert_eq!(send(&mut client, "MKD a/.."), "canonicalize /srv/ftp/a");
    resolved(&mut client, "/srv/ftp/a");
    assert_eq!(describe(client.resume(Outcome::Flag(true))), "send 550 Couldn't create folder");
}

#[test]
fn transfers_need_a_data_connection() {
    let mut client = logged_in();
    for line in ["LIST", "RETR a", "STOR a", "STOR ../a"] {
        assert_eq!(ask(&mut client, line), "send 426 No opened data connection");
    }
    assert_eq!(update(&mut client, Msg::TransferDone), "finish");
    assert_eq!(update(&mut client, Msg::DataReceived(b"x".to_vec())), "finish");
}

#[test]
fn ports_are_opened() {
    let mut client = logged_in();
    assert_eq!(ask(&mut client, "PORT 127,0,0,1,4,210"), "send 200 Data port is now 1234");
    assert_eq!(send(&mut client, "PASV"), "listen 1234");
    assert_eq!(failed(&mut client), "fail broken pipe");
    assert_eq!(send(&mut client, "PASV"), "listen 1234");
    assert_eq!(describe(client.resume(Outcome::Listening(1234))), "send 227 127,0,0,1,4,210");
    assert_eq!(failed(&mut client), "fail broken pipe");
    let mut client = with_data();
    assert_eq!(ask(&mut client, "PASV"), "send 125 Already listening...");
}

#[test]
fn a_data_connection_without_a_listener_is_taken() {
    let mut client = logged_in();
    assert_eq!(update(&mut client, Msg::DataConnected), "unmute");
    assert_eq!(done(&mut client), "finish");
}

#[test]
fn directories_are_listed() {
    let mut client = with_data();
    assert_eq!(send(&mut client, "LIST"), "canonicalize /srv/ftp/");
    assert_eq!(resolved(&mut client, "/srv/ftp"), "send 125 Starting to list directory...");
    assert_eq!(done(&mut client), "is dir /srv/ftp");
    assert_eq!(describe(client.resume(Outcome::Flag(true))), "read dir /srv/ftp");
    let entries = vec![
        Some(entry("/srv/ftp/a", true)),
        None,
        Some(entry("/srv/ftp/b", false)),
    ];
    assert_eq!(
        describe(client.resume(Outcome::Entries(entries))),
        "data drw-rw-rw- 1 anonymous anonymous 9 Jan 1 23:59 a/\r\n\
         -rw-rw-rw- 1 anonymous anonymous 9 Jan 1 23:59 b\r\n"
    );
    assert_eq!(done(&mut client), "finish");
    assert_eq!(update(&mut client, Msg::TransferDone), "send 226 Transfer done");
    assert_eq!(failed(&mut client), "close data");
    assert_eq!(done(&mut client), "finish");
    assert_eq!(ask(&mut client, "LIST"), "send 426 No opened data connection");
}

#[test]
fn files_are_listed() {
    let mut client = with_data();
    assert_eq!(send(&mut client, "LIST b"), "canonicalize /srv/ftp/b");
    resolved(&mut client, "/srv/ftp/b");
    done(&mut client);
    assert_eq!(describe(client.resume(Outcome::Flag(false))), "stat /srv/ftp/b");
    assert_eq!(
        describe(client.resume(Outcome::Found(entry("/srv/ftp/b", false)))),
        "data -rw-rw-rw- 1 anonymous anonymous 9 Jan 1 23:59 b\r\n"
    );
    assert_eq!(failed(&mut client), "fail broken pipe");
}

#[test]
fn listings_that_fail_are_answered() {
    let mut client = with_data();
    send(&mut client, "LIST nowhere");
    assert_eq!(failed(&mut client), "send 501 No such file or directory");
    done(&mut client);
    send(&mut client, "LIST /");
    resolved(&mut client, "/srv/ftp");
    done(&mut client);
    client.resume(Outcome::Flag(true));
    assert_eq!(failed(&mut client), "send 501 No such file or directory");
    done(&mut client);
    send(&mut client, "LIST /");
    resolved(&mut client, "/srv/ftp");
    assert_eq!(failed(&mut client), "fail broken pipe");
}

#[test]
fn files_are_sent() {
    let mut client = with_data();
    assert_eq!(send(&mut client, "RETR a.txt"), "canonicalize /srv/ftp/a.txt");
    assert_eq!(resolved(&mut client, "/srv/ftp/real.txt"), "is file /srv/ftp/real.txt");
    assert_eq!(
        describe(client.resume(Outcome::Flag(true))),
        "send 125 Starting to send file..."
    );
    assert_eq!(done(&mut client), "read file /srv/ftp/real.txt");
    assert_eq!(describe(client.resume(Outcome::Bytes(b"hello".to_vec()))), "data hello");
    assert_eq!(done(&mut client), "close data");
    assert_eq!(done(&mut client), "send 226 Transfer done");
    assert_eq!(done(&mut client), "finish");
}

#[test]
fn files_that_cannot_be_sent_are_answered() {
    let mut client = with_data();
    send(&mut client, "RETR nothing");
    assert_eq!(failed(&mut client), "send 451 \"/nothing\" doesn't exist");
    assert_eq!(done(&mut client), "close data");
    assert_eq!(done(&mut client), "send 226 Transfer done");
    assert_eq!(done(&mut client), "finish");
    let mut client = with_data();
    send(&mut client, "RETR dir");
    resolved(&mut client, "/srv/ftp/dir");
    assert_eq!(
        describe(client.resume(Outcome::Flag(false))),
        "send 451 \"/srv/ftp/dir\" doesn't exist"
    );
    assert_eq!(failed(&mut client), "fail broken pipe");
    let action = client.handle_cmd(Command::Retr(FilePath::from_bytes(b"\xff".to_vec())));
    assert_eq!(describe(action), "canonicalize /srv/ftp/\u{fffd}");
    assert_eq!(failed(&mut client), "fail No path");
    send(&mut client, "RETR f");
    resolved(&mut client, "/srv/ftp/f");
    client.resume(Outcome::Flag(true));
    done(&mut client);
    assert_eq!(failed(&mut client), "fail broken pipe");
}

#[test]
fn files_are_stored() {
    let mut client = with_data();
    enter(&mut client, "up", "/srv/ftp/up");
    assert_eq!(ask(&mut client, "STOR new.txt"), "send 125 Starting to send file...");
    assert_eq!(
        update(&mut client, Msg::DataReceived(b"bytes".to_vec())),
        "store /srv/ftp/up/new.txt bytes"
    );
    assert_eq!(done(&mut client), "close data");
    assert_eq!(done(&mut client), "send 226 Transfer done");
    assert_eq!(done(&mut client), "finish");
    assert_eq!(update(&mut client, Msg::DataReceived(b"more".to_vec())), "finish");
}

#[test]
fn files_are_stored_below_the_root() {
    let mut client = with_data();
    assert_eq!(send(&mut client, "STOR ../../etc/passwd"), "fail permission denied");
    assert_eq!(update(&mut client, Msg::DataReceived(b"x".to_vec())), "finish");
    ask(&mut client, "STOR /etc/./passwd");
    assert_eq!(
        update(&mut client, Msg::DataReceived(b"x".to_vec())),
        "store /srv/ftp/etc/passwd x"
    );
    assert_eq!(failed(&mut client), "fail broken pipe");
}

#[test]
fn a_file_is_stored_after_the_connection_is_gone() {
    let mut client = with_data();
    ask(&mut client, "STOR f");
    update(&mut client, Msg::TransferDone);
    done(&mut client);
    done(&mut client);
    assert_eq!(update(&mut client, Msg::DataReceived(b"x".to_vec())), "store /srv/ftp/f x");
    assert_eq!(done(&mut client), "send 226 Transfer done");
}

#[test]
fn clients_leave() {
    let mut client = connected();
    assert_eq!(send(&mut client, "QUIT"), "send 221 Closing connection...");
    assert_eq!(done(&mut client), "close control");
    assert_eq!(done(&mut client), "finish");
    let mut client = connected();
    send(&mut client, "QUIT");
    assert_eq!(failed(&mut client), "fail broken pipe");
}

#[test]
fn some_messages_cannot_be_dealt_with() {
    let client = Client::new(&path("/srv/ftp"));
    assert!(!client.accepts(&Msg::DataConnected));
    assert!(!client.accepts(&Msg::Received(b"NOOP\r\n".to_vec())));
    assert!(client.accepts(&Msg::Received(b"NOOP".to_vec())));
    assert!(client.accepts(&Msg::Received(b"USER\r\n".to_vec())));
    assert!(client.accepts(&Msg::Accepted));
    let client = with_data();
    assert!(!client.accepts(&Msg::Received(b"QUIT\r\n".to_vec())));
    assert!(client.accepts(&Msg::Received(b"NOOP\r\n".to_vec())));
}

#[test]
fn what_was_made_is_found_again() {
    let mut client = with_data();
    enter(&mut client, "up", "/srv/ftp/up");
    assert_eq!(send(&mut client, "MKD new"), "canonicalize /srv/ftp/up");
    resolved(&mut client, "/srv/ftp/up");
    assert_eq!(describe(client.resume(Outcome::Flag(true))), "create dir /srv/ftp/up/new");
    done(&mut client);
    done(&mut client);
    assert_eq!(send(&mut client, "CWD new"), "canonicalize /srv/ftp/up/new");
    failed(&mut client);
    done(&mut client);
    ask(&mut client, "STOR f");
    assert_eq!(update(&mut client, Msg::DataReceived(b"x".to_vec())), "store /srv/ftp/up/f x");
    done(&mut client);
    done(&mut client);
    done(&mut client);
    assert_eq!(update(&mut client, Msg::DataConnected), "unmute");
    done(&mut client);
    assert_eq!(send(&mut client, "RETR f"), "canonicalize /srv/ftp/up/f");
}

#[test]
fn paths_are_completed_below_the_root() {
    let client = Client::new(&path("/srv/ftp"));
    assert_eq!(shown(&client.complete_path(path("/../ftp2"))), "/srv/ftp/../ftp2");
    assert_eq!(shown(&client.complete_path(path("a/b"))), "/srv/ftp/a/b");
    match client.reachable(Outcome::Resolved(path("/srv/ftp/a"))) {
        Ok(found) => assert_eq!(shown(&found), "/srv/ftp/a"),
        Err(error) => panic!("{}", error.message()),
    }
    let sibling = client.reachable(Outcome::Resolved(path("/srv/ftp2")));
    assert!(matches!(sibling, Err(Error::PermissionDenied)));
    match client.reachable(Outcome::Failed("not found".to_string())) {
        Err(Error::Io(reason)) => assert_eq!(reason, "not found"),
        _ => panic!("no such file was reached"),
    }
}

#[test]
fn nobody_who_is_logged_in_is_told_to_log_in() {
    let mut client = logged_in();
    for line in [
        "CWD a", "LIST", "PASV", "PORT 1,2,3,4,5,6", "PWD", "RETR a", "STOR a", "CDUP", "MKD a",
        "RMD a", "PASS x", "AUTH", "SYST", "TYPE A", "NOOP", "FEAT", "USER ", "USER nobody",
    ] {
        assert!(client.is_logged());
        let mut action = send(&mut client, line);
        while !action.starts_with("finish") && !action.starts_with("fail") {
            assert_ne!(action, "send 530 Please log first", "{}", line);
            action = if action.starts_with("canonicalize") || action.starts_with("listen") {
                failed(&mut client)
            } else {
                done(&mut client)
            };
        }
    }
}
