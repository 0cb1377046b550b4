use mock_imap::command::ProtocolError;
use mock_imap::fixture::{fixture_body, FILLER, TEMPLATE};
use mock_imap::reply::GREETING;
use mock_imap::responder::{Connection, Ending, Phase};
use mock_imap::session::{replay, Transcript};

const SELECT_LINES: &str = "* FLAGS (\\Answered \\Flagged \\Deleted \\Seen \\Draft \\Forwarded NonJunk $Forwarded $Junk $label1 $label2)\r\n\
* OK [PERMANENTFLAGS (\\Answered \\Flagged \\Deleted \\Seen \\Draft \\Forwarded NonJunk $Forwarded $Junk $label1 $label2 \\*)]\r\n\
* OK [URLMECH INTERNAL]\r\n\
* 1212 EXISTS\r\n\
* 0 RECENT\r\n\
* OK [UIDVALIDITY 1491927899]\r\n\
* OK [UIDNEXT 1250]\r\n";

fn fetch_text(tag: &str, id: usize) -> String {
    let body = format!("{}{}", TEMPLATE, FILLER.repeat(id.saturating_sub(1)));
    let size = body.len();
    format!(
        "* {id} FETCH (INTERNALDATE \"17-Jun-2017 10:18:07 +0200\" RFC822.SIZE {size} BODY[] {{{size}}}\r\n{body} FLAGS (\\Seen NonJunk))\r\n{tag} OK FETCH complete\r\n"
    )
}

fn lines(texts: &[&str]) -> Vec<Vec<u8>> {
    texts.iter().map(|text| text.as_bytes().to_vec()).collect()
}

#[test]
fn a_new_connection_is_greeted_and_awaits_a_line() {
    let (connection, greeting) = Connection::accept();
    assert_eq!(greeting, GREETING.as_bytes().to_vec());
    assert_eq!(connection.phase(), Phase::AwaitingLine);
    assert!(connection.is_open());
}

#[test]
fn login_is_accepted_whatever_the_credentials() {
    let (mut connection, _) = Connection::accept();
    assert_eq!(connection.receive(b"a LOGIN a b"), b"a OK User logged in (30)\r\n".to_vec());
    assert_eq!(connection.receive(b"b LOGIN "), b"b OK User logged in (30)\r\n".to_vec());
    assert_eq!(connection.phase(), Phase::AwaitingLine);
}

#[test]
fn select_describes_the_mailbox() {
    let (mut connection, _) = Connection::accept();
    let expected = format!("{SELECT_LINES}s1 OK [READ-WRITE] SELECT completed\r\n");
    assert_eq!(connection.receive(b"s1 SELECT INBOX"), expected.into_bytes());
    assert!(connection.is_open());
}

#[test]
fn fetch_needs_neither_login_nor_select() {
    let (mut connection, _) = Connection::accept();
    assert_eq!(connection.receive(b"f FETCH 2 (BODY[])"), fetch_text("f", 2).into_bytes());
    assert!(connection.is_open());
}

#[test]
fn fetch_of_message_three_reports_its_size() {
    let (mut connection, _) = Connection::accept();
    let out = connection.receive(b"a3 FETCH 3 (FLAGS INTERNALDATE RFC822.SIZE BODY.PEEK[])");
    let size = TEMPLATE.len() + 2 * (72 + 2);
    let head = format!(
        "* 3 FETCH (INTERNALDATE \"17-Jun-2017 10:18:07 +0200\" RFC822.SIZE {size} BODY[] {{{size}}}\r\n"
    );
    assert!(out.starts_with(head.as_bytes()));
    let body = out[head.len()..head.len() + size].to_vec();
    assert_eq!(body, format!("{TEMPLATE}{FILLER}{FILLER}").into_bytes());
    assert_eq!(body, fixture_body(3));
    assert_eq!(out[head.len() + size..].to_vec(), b" FLAGS (\\Seen NonJunk))\r\na3 OK FETCH complete\r\n".to_vec());
}

#[test]
fn fetch_of_message_three_gives_the_size_in_digits() {
    let (mut connection, _) = Connection::accept();
    let out = connection.receive(b"a3 FETCH 3 (BODY[])");
    let head = b"* 3 FETCH (INTERNALDATE \"17-Jun-2017 10:18:07 +0200\" RFC822.SIZE 844 BODY[] {844}\r\n";
    assert!(out.starts_with(head));
    assert_eq!(out.len(), head.len() + 844 + b" FLAGS (\\Seen NonJunk))\r\na3 OK FETCH complete\r\n".len());
}

#[test]
fn fetch_twice_gives_the_same_bytes() {
    let (mut connection, _) = Connection::accept();
    let first = connection.receive(b"t FETCH 5 (BODY[])");
    let second = connection.receive(b"t FETCH 5 (BODY[])");
    assert_eq!(first, second);
    let other_tag = connection.receive(b"u FETCH 5 (FLAGS)");
    let data = first.len() - b"t OK FETCH complete\r\n".len();
    assert_eq!(first[..data], other_tag[..data]);
    assert!(connection.is_open());
}

#[test]
fn logout_closes_the_connection() {
    let (mut connection, _) = Connection::accept();
    assert_eq!(connection.receive(b"q LOGOUT"), b"q OK LOGOUT completed\r\n".to_vec());
    assert_eq!(connection.phase(), Phase::Closed(Ending::LoggedOut));
    assert!(!connection.is_open());
}

#[test]
fn a_closed_connection_writes_nothing() {
    let (mut connection, _) = Connection::accept();
    connection.receive(b"q LOGOUT");
    assert_eq!(connection.receive(b"a LOGIN a b"), Vec::<u8>::new());
    assert_eq!(connection.phase(), Phase::Closed(Ending::LoggedOut));
    connection.peer_closed();
    assert_eq!(connection.phase(), Phase::Closed(Ending::LoggedOut));
}

#[test]
fn the_peer_may_close_the_stream() {
    let (mut connection, _) = Connection::accept();
    connection.receive(b"a LOGIN a b");
    connection.peer_closed();
    assert_eq!(connection.phase(), Phase::Closed(Ending::PeerClosed));
    assert_eq!(connection.receive(b"a LOGIN a b"), Vec::<u8>::new());
}

#[test]
fn a_line_without_a_space_fails_the_connection() {
    let (mut connection, _) = Connection::accept();
    assert_eq!(connection.receive(b"LOGOUT"), Vec::<u8>::new());
    assert_eq!(connection.phase(), Phase::Closed(Ending::Failed(ProtocolError::MalformedLine)));
}

#[test]
fn an_unknown_command_fails_the_connection() {
    let (mut connection, _) = Connection::accept();
    assert_eq!(connection.receive(b"a NOOP"), Vec::<u8>::new());
    assert_eq!(connection.phase(), Phase::Closed(Ending::Failed(ProtocolError::UnknownCommand)));
}

#[test]
fn fetch_without_a_number_writes_nothing() {
    for line in [&b"a FETCH abc (BODY[])"[..], b"a FETCH  1 (BODY[])", b"a FETCH -3 x", b"a FETCH 1,2 x"] {
        let (mut connection, _) = Connection::accept();
        assert_eq!(connection.receive(line), Vec::<u8>::new());
        assert_eq!(
            connection.phase(),
            Phase::Closed(Ending::Failed(ProtocolError::InvalidSequenceNumber))
        );
    }
}

#[test]
fn fetch_without_arguments_writes_nothing() {
    for line in [&b"a FETCH "[..], b"a FETCH 1", b"a FETCH (BODY[])"] {
        let (mut connection, _) = Connection::accept();
        assert_eq!(connection.receive(line), Vec::<u8>::new());
        assert_eq!(connection.phase(), Phase::Closed(Ending::Failed(ProtocolError::IncompleteFetch)));
    }
}

#[test]
fn only_a_line_that_cannot_be_served_is_an_error() {
    assert!(!Ending::LoggedOut.is_failure());
    assert!(!Ending::PeerClosed.is_failure());
    assert!(Ending::Failed(ProtocolError::MalformedLine).is_failure());
    assert!(Ending::Failed(ProtocolError::IncompleteFetch).is_failure());
    assert!(Ending::Failed(ProtocolError::InvalidSequenceNumber).is_failure());
    assert!(Ending::Failed(ProtocolError::UnknownCommand).is_failure());
}

#[test]
fn a_whole_session_is_answered_tag_for_tag() {
    let sent = lines(&[
        "a1 LOGIN a b",
        "a2 SELECT INBOX",
        "a3 FETCH 1 (FLAGS INTERNALDATE RFC822.SIZE BODY.PEEK[])",
        "a4 LOGOUT",
    ]);
    let expected = format!(
        "{GREETING}a1 OK User logged in (30)\r\n{SELECT_LINES}a2 OK [READ-WRITE] SELECT completed\r\n{}a4 OK LOGOUT completed\r\n",
        fetch_text("a3", 1)
    );
    assert_eq!(
        replay(&sent),
        Transcript { output: expected.into_bytes(), lines_read: 4, ending: Ending::LoggedOut }
    );
}

#[test]
fn the_client_script_is_answered_in_full() {
    let mut sent = vec![b"A0001 LOGIN mail@example.com 12345".to_vec(), b"A0002 SELECT INBOX".to_vec()];
    let mut expected = format!(
        "{GREETING}A0001 OK User logged in (30)\r\n{SELECT_LINES}A0002 OK [READ-WRITE] SELECT completed\r\n"
    );
    for id in 1..=20usize {
        let tag = format!("A{:04}", id + 2);
        sent.push(format!("{tag} FETCH {id} (FLAGS INTERNALDATE RFC822.SIZE BODY.PEEK[])").into_bytes());
        expected.push_str(&fetch_text(&tag, id));
    }
    sent.push(b"A0023 LOGOUT".to_vec());
    expected.push_str("A0023 OK LOGOUT completed\r\n");
    let transcript = replay(&sent);
    assert_eq!(transcript.lines_read, 23);
    assert_eq!(transcript.ending, Ending::LoggedOut);
    assert_eq!(transcript.output, expected.into_bytes());
}

#[test]
fn no_line_is_read_after_a_malformed_one() {
    let sent = lines(&["a1 LOGIN a b", "garbage", "a2 SELECT INBOX", "a3 LOGOUT"]);
    let expected = format!("{GREETING}a1 OK User logged in (30)\r\n");
    assert_eq!(
        replay(&sent),
        Transcript {
            output: expected.into_bytes(),
            lines_read: 2,
            ending: Ending::Failed(ProtocolError::MalformedLine),
        }
    );
}

#[test]
fn no_line_is_read_after_a_bad_fetch() {
    let sent = lines(&["a1 LOGIN a b", "a2 FETCH one (BODY[])", "a3 LOGOUT"]);
    let expected = format!("{GREETING}a1 OK User logged in (30)\r\n");
    assert_eq!(
        replay(&sent),
        Transcript {
            output: expected.into_bytes(),
            lines_read: 2,
            ending: Ending::Failed(ProtocolError::InvalidSequenceNumber),
        }
    );
}

#[test]
fn no_line_is_read_after_logout() {
    let sent = lines(&["a1 LOGOUT", "a2 LOGIN a b"]);
    let expected = format!("{GREETING}a1 OK LOGOUT completed\r\n");
    assert_eq!(
        replay(&sent),
        Transcript { output: expected.into_bytes(), lines_read: 1, ending: Ending::LoggedOut }
    );
}

#[test]
fn a_peer_that_says_nothing_gets_the_greeting() {
    assert_eq!(
        replay(&[]),
        Transcript {
            output: GREETING.as_bytes().to_vec(),
            lines_read: 0,
            ending: Ending::PeerClosed,
        }
    );
}

#[test]
fn a_peer_that_leaves_without_logout_is_served_until_then() {
    let sent = lines(&["a1 LOGIN a b", "a2 FETCH 2 x"]);
    let expected = format!("{GREETING}a1 OK User logged in (30)\r\n{}", fetch_text("a2", 2));
    assert_eq!(
        replay(&sent),
        Transcript { output: expected.into_bytes(), lines_read: 2, ending: Ending::PeerClosed }
    );
}

#[test]
fn two_connections_do_not_disturb_each_other() {
    let script = ["LOGIN a b", "SELECT INBOX", "FETCH 4 (BODY.PEEK[])", "LOGOUT"];
    let (mut first, first_greeting) = Connection::accept();
    let (mut second, second_greeting) = Connection::accept();
    let mut first_out = first_greeting;
    let mut second_out = second_greeting;
    let mut first_sent = Vec::new();
    let mut second_sent = Vec::new();
    for (i, command) in script.iter().enumerate() {
        let one = format!("x{i} {command}").into_bytes();
        let two = format!("y{i} {command}").into_bytes();
        second_out.extend(second.receive(&two));
        first_out.extend(first.receive(&one));
        first_sent.push(one);
        second_sent.push(two);
    }
    assert_eq!(first.phase(), Phase::Closed(Ending::LoggedOut));
    assert_eq!(second.phase(), Phase::Closed(Ending::LoggedOut));
    assert_eq!(first_out, replay(&first_sent).output);
    assert_eq!(second_out, replay(&second_sent).output);
    assert_ne!(first_out, second_out);
}
