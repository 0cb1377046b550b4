use mock_imap::command::{parse_command, parse_line, Command, ProtocolError, Request};

fn request(tag: &[u8], command: Command) -> Result<Request, ProtocolError> {
    Ok(Request { tag: tag.to_vec(), command })
}

#[test]
fn login_needs_a_space_after_the_word() {
    assert_eq!(parse_line(b"a1 LOGIN mail@example.com 12345"), request(b"a1", Command::Login));
    assert_eq!(parse_line(b"a1 LOGIN "), request(b"a1", Command::Login));
    assert_eq!(parse_line(b"a1 LOGIN"), request(b"a1", Command::Unknown));
}

#[test]
fn select_needs_a_space_after_the_word() {
    assert_eq!(parse_line(b"a2 SELECT INBOX"), request(b"a2", Command::Select));
    assert_eq!(parse_line(b"a2 SELECT \"INBOX\""), request(b"a2", Command::Select));
    assert_eq!(parse_line(b"a2 SELECT"), request(b"a2", Command::Unknown));
}

#[test]
fn fetch_carries_its_sequence_number() {
    assert_eq!(
        parse_line(b"a3 FETCH 1 (FLAGS INTERNALDATE RFC822.SIZE BODY.PEEK[])"),
        request(b"a3", Command::Fetch(1))
    );
    assert_eq!(parse_line(b"a3 FETCH 20 x"), request(b"a3", Command::Fetch(20)));
    assert_eq!(parse_line(b"a3 FETCH 0 x"), request(b"a3", Command::Fetch(0)));
    assert_eq!(parse_line(b"a3 FETCH 3 "), request(b"a3", Command::Fetch(3)));
    assert_eq!(parse_line(b"a3 FETCH +4 x"), request(b"a3", Command::Fetch(4)));
    assert_eq!(parse_line(b"a3 FETCH 2147483647 x"), request(b"a3", Command::Fetch(2147483647)));
}

#[test]
fn logout_needs_no_space() {
    assert_eq!(parse_line(b"a4 LOGOUT"), request(b"a4", Command::Logout));
    assert_eq!(parse_line(b"a4 LOGOUT now"), request(b"a4", Command::Logout));
    assert_eq!(parse_line(b"a4 LOGOUTx"), request(b"a4", Command::Logout));
}

#[test]
fn the_tag_is_all_before_the_first_space() {
    assert_eq!(parse_line(b" LOGOUT"), request(b"", Command::Logout));
    assert_eq!(parse_line(b"A.1/b LOGIN x"), request(b"A.1/b", Command::Login));
    assert_eq!(parse_line("\u{e9}1 LOGIN x".as_bytes()), request("\u{e9}1".as_bytes(), Command::Login));
    assert_eq!(parse_line(b"a  LOGIN x"), request(b"a", Command::Unknown));
}

#[test]
fn other_commands_are_unknown() {
    assert_eq!(parse_line(b"a5 NOOP"), request(b"a5", Command::Unknown));
    assert_eq!(parse_line(b"a5 login x y"), request(b"a5", Command::Unknown));
    assert_eq!(parse_line(b"a5 FETCH"), request(b"a5", Command::Unknown));
    assert_eq!(parse_line(b"a5 "), request(b"a5", Command::Unknown));
    assert_eq!(parse_line(b"a5 CAPABILITY"), request(b"a5", Command::Unknown));
}

#[test]
fn a_line_without_a_space_is_malformed() {
    assert_eq!(parse_line(b"LOGOUT"), Err(ProtocolError::MalformedLine));
    assert_eq!(parse_line(b""), Err(ProtocolError::MalformedLine));
    assert_eq!(parse_line(b"a1\tLOGIN\tx"), Err(ProtocolError::MalformedLine));
}

#[test]
fn fetch_without_a_space_after_its_number_is_incomplete() {
    assert_eq!(parse_line(b"a3 FETCH 3"), Err(ProtocolError::IncompleteFetch));
    assert_eq!(parse_line(b"a3 FETCH "), Err(ProtocolError::IncompleteFetch));
    assert_eq!(parse_line(b"a3 FETCH abc"), Err(ProtocolError::IncompleteFetch));
}

#[test]
fn fetch_of_no_number_is_refused() {
    assert_eq!(parse_line(b"a3 FETCH abc (FLAGS)"), Err(ProtocolError::InvalidSequenceNumber));
    assert_eq!(parse_line(b"a3 FETCH  3 (FLAGS)"), Err(ProtocolError::InvalidSequenceNumber));
    assert_eq!(parse_line(b"a3 FETCH 1:5 (FLAGS)"), Err(ProtocolError::InvalidSequenceNumber));
    assert_eq!(parse_line(b"a3 FETCH -1 (FLAGS)"), Err(ProtocolError::InvalidSequenceNumber));
    assert_eq!(parse_line(b"a3 FETCH 2147483648 (FLAGS)"), Err(ProtocolError::InvalidSequenceNumber));
}

#[test]
fn parse_command_reads_what_follows_the_tag() {
    assert_eq!(parse_command(b"LOGIN a b"), Ok(Command::Login));
    assert_eq!(parse_command(b"SELECT INBOX"), Ok(Command::Select));
    assert_eq!(parse_command(b"FETCH 12 (FLAGS)"), Ok(Command::Fetch(12)));
    assert_eq!(parse_command(b"LOGOUT"), Ok(Command::Logout));
    assert_eq!(parse_command(b""), Ok(Command::Unknown));
    assert_eq!(parse_command(b"FETCH 12"), Err(ProtocolError::IncompleteFetch));
    assert_eq!(parse_command(b"FETCH x y"), Err(ProtocolError::InvalidSequenceNumber));
}
