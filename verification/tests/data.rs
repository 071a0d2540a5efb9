use ftp_server::data::DataConnection;

#[test]
fn data_are_handed_over_once_and_whole() {
    let mut connection = DataConnection::new();
    connection.received(b"one ".to_vec());
    connection.received(vec![]);
    connection.received(b"two".to_vec());
    assert_eq!(connection.closed(), Some(b"one two".to_vec()));
    assert_eq!(connection.closed(), None);
}

#[test]
fn nothing_received_is_nothing_handed_over() {
    let mut connection = DataConnection::new();
    assert_eq!(connection.closed(), None);
    connection.received(vec![]);
    assert_eq!(connection.closed(), None);
}
