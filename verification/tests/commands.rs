use ftp_server::cmd::{Command, TransferType};

fn describe(line: &[u8]) -> String {
    fn shown(path: ftp_server::path::FilePath) -> String {
        String::from_utf8_lossy(path.as_bytes()).into_owned()
    }
    match Command::new(line.to_vec()) {
        Ok(Command::Auth) => "auth".to_string(),
        Ok(Command::CdUp) => "cdup".to_string(),
        Ok(Command::Cwd(path)) => format!("cwd {}", shown(path)),
        Ok(Command::List(Some(path))) => format!("list {}", shown(path)),
        Ok(Command::List(None)) => "list".to_string(),
        Ok(Command::Mkd(path)) => format!("mkd {}", shown(path)),
        Ok(Command::NoOp) => "noop".to_string(),
        Ok(Command::Pass(text)) => format!("pass {}", text),
        Ok(Command::Pasv) => "pasv".to_string(),
        Ok(Command::Port(port)) => format!("port {}", port),
        Ok(Command::Pwd) => "pwd".to_string(),
        Ok(Command::Quit) => "quit".to_string(),
        Ok(Command::Retr(path)) => format!("retr {}", shown(path)),
        Ok(Command::Rmd(path)) => format!("rmd {}", shown(path)),
        Ok(Command::Stor(path)) => format!("stor {}", shown(path)),
        Ok(Command::Syst) => "syst".to_string(),
        Ok(Command::Type(TransferType::Ascii)) => "type ascii".to_string(),
        Ok(Command::Type(TransferType::Image)) => "type image".to_string(),
        Ok(Command::Unknown(word)) => format!("unknown {}", word),
        Ok(Command::User(text)) => format!("user {}", text),
        Err(error) => format!("error {}", error.message()),
    }
}

#[test]
fn every_command_is_read() {
    let lines: [(&[u8], &str); 22] = [
        (b"AUTH TLS", "auth"),
        (b"CDUP", "cdup"),
        (b"CWD /a/b", "cwd /a/b"),
        (b"LIST", "list"),
        (b"LIST docs", "list docs"),
        (b"MKD new", "mkd new"),
        (b"NOOP", "noop"),
        (b"PASS secret word", "pass secret word"),
        (b"PASV", "pasv"),
        (b"PORT 127,0,0,1,4,1", "port 1025"),
        (b"PWD", "pwd"),
        (b"QUIT", "quit"),
        (b"RETR a file", "retr a file"),
        (b"RMD old", "rmd old"),
        (b"STOR up.txt", "stor up.txt"),
        (b"SYST", "syst"),
        (b"TYPE A", "type ascii"),
        (b"TYPE a n", "type ascii"),
        (b"TYPE I", "type image"),
        (b"TYPE L 8", "type image"),
        (b"USER test", "user test"),
        (b"USER ", "user "),
    ];
    for (line, command) in lines {
        assert_eq!(describe(line), command);
    }
}

#[test]
fn the_case_of_a_command_does_not_matter() {
    assert_eq!(describe(b"user Test"), "user Test");
    assert_eq!(describe(b"QuIt"), "quit");
    assert_eq!(describe(b"feat"), "unknown FEAT");
    assert_eq!(describe(b""), "unknown ");
}

#[test]
fn faulty_commands_are_errors() {
    for line in ["CWD", "MKD", "PASS", "PORT", "RETR", "RMD", "STOR", "TYPE", "USER"] {
        assert_eq!(describe(line.as_bytes()), "error no command parameter");
    }
    assert_eq!(describe(b"USER \xff"), "error invalid UTF-8");
    assert_eq!(describe(b"\xff\xfe"), "error invalid UTF-8");
    assert_eq!(describe(b"TYPE E"), "error unknown transfer type");
    assert_eq!(describe(b"TYPE "), "error unknown transfer type");
    for address in ["1,2,3,4,5", "1,2,3,4,5,6,7", "1,2,3,4,5,256", "1,2,3,4,,6", "1,2,3,4,x,6", "1,2,3,4,5,0006"] {
        let line = format!("PORT {}", address);
        assert_eq!(describe(line.as_bytes()), "error invalid address", "{}", address);
    }
}

#[test]
fn ports_are_two_bytes() {
    assert_eq!(describe(b"PORT 127,0,0,1,0,0"), "port 0");
    assert_eq!(describe(b"PORT 127,0,0,1,0,21"), "port 21");
    assert_eq!(describe(b"PORT 255,255,255,255,255,255"), "port 65535");
    assert_eq!(describe(b"PORT 127,0,0,1,005,057"), "port 1337");
}
