use ftp_server::error::Error;
use ftp_server::ftp::{Answer, ResultCode};

#[test]
fn answers_are_lines() {
    let answer = Answer::new(ResultCode::ServiceReadyForNewUser, "Welcome to this FTP server!");
    assert_eq!(answer.to_bytes(), b"220 Welcome to this FTP server!\r\n".to_vec());
    let answer = Answer::new(ResultCode::FileNotFound, "");
    assert_eq!(answer.to_bytes(), b"550 \r\n".to_vec());
    let answer = Answer::new(ResultCode::PATHNAMECreated, "\"/\u{e9}\" ");
    assert_eq!(answer.to_bytes(), b"257 \"/\xc3\xa9\" \r\n".to_vec());
}

#[test]
fn codes_have_their_numbers() {
    let numbers = [
        (ResultCode::DataConnectionAlreadyOpen, 125),
        (ResultCode::Okay, 200),
        (ResultCode::ServiceReadyForNewUser, 220),
        (ResultCode::ServiceClosingControlConnection, 221),
        (ResultCode::ClosingDataConnection, 226),
        (ResultCode::EnteringPassiveMode, 227),
        (ResultCode::UserLoggedIn, 230),
        (ResultCode::RequestedFileActionOkay, 250),
        (ResultCode::PATHNAMECreated, 257),
        (ResultCode::UserNameOkayNeedPassword, 331),
        (ResultCode::ConnectionClosed, 426),
        (ResultCode::LocalErrorInProcessing, 451),
        (ResultCode::UnknownCommand, 500),
        (ResultCode::InvalidParameterOrArgument, 501),
        (ResultCode::CommandNotImplemented, 502),
        (ResultCode::NotLoggedIn, 530),
        (ResultCode::FileNotFound, 550),
    ];
    for (code, number) in numbers {
        assert_eq!(code.number(), number);
        let line = Answer::new(code, "x").to_bytes();
        assert_eq!(line.len(), 7);
        assert_eq!(&line[3..], b" x\r\n");
    }
}

#[test]
fn errors_are_put_into_words() {
    assert_eq!(Error::msg("No path").message(), "No path");
    assert_eq!(Error::Io("disk full".to_string()).message(), "disk full");
    assert_eq!(Error::PermissionDenied.message(), "permission denied");
}
