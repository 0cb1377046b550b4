//! Command lines: a tag, a space, and the command with its arguments.

use vstd::prelude::*;
use vstd::slice::{slice_subrange, slice_to_vec};
use vstd::string::StringSliceAdditionalSpecFns;
use crate::bytes::{lemma_first_index, split_at_first, split_once, starts_with, SPACE};
use crate::decimal::{
    decimal, is_digit, lemma_decimal_reads_back, parse_sequence_number, sequence_number,
    MAX_SEQUENCE_NUMBER,
};

verus! {

/// The words that a command begins with. The first three take arguments
/// and end in the space that comes before them.
pub const LOGIN: &'static str = "LOGIN ";

pub const SELECT: &'static str = "SELECT ";

pub const FETCH: &'static str = "FETCH ";

/// `LOGOUT` takes no argument and needs no space after it.
pub const LOGOUT: &'static str = "LOGOUT";

/// What a line asks for. The arguments of `LOGIN` and `SELECT` are not kept:
/// no reply depends on them.
#[derive(Clone, Copy, Debug, PartialEq, Eq, Structural)]
pub enum Command {
    Login,
    Select,
    /// `FETCH`, with the sequence number of the message.
    Fetch(u32),
    Logout,
    /// Anything else.
    Unknown,
}

/// Why a line ends the connection.
#[derive(Clone, Copy, Debug, PartialEq, Eq, Structural)]
pub enum ProtocolError {
    /// The line holds no space, so it has no tag.
    MalformedLine,
    /// No space follows the first argument of `FETCH`.
    IncompleteFetch,
    /// The first argument of `FETCH` is no sequence number.
    InvalidSequenceNumber,
    /// The command is none of `LOGIN`, `SELECT`, `FETCH` and `LOGOUT`.
    UnknownCommand,
}

/// A line that was read successfully.
#[derive(Debug, PartialEq, Eq)]
pub struct Request {
    pub tag: Vec<u8>,
    pub command: Command,
}

/// The command in what follows the tag. The words are tried in this order,
/// each as a prefix of `rest`.
pub open spec fn command_of(rest: Seq<u8>) -> Result<Command, ProtocolError> {
    if LOGIN.spec_bytes().is_prefix_of(rest) {
        Ok(Command::Login)
    } else if SELECT.spec_bytes().is_prefix_of(rest) {
        Ok(Command::Select)
    } else if FETCH.spec_bytes().is_prefix_of(rest) {
        let arguments = rest.subrange(FETCH.spec_bytes().len() as int, rest.len() as int);
        match split_at_first(arguments, SPACE) {
            None => Err(ProtocolError::IncompleteFetch),
            Some((token, _)) => match sequence_number(token) {
                None => Err(ProtocolError::InvalidSequenceNumber),
                Some(id) => Ok(Command::Fetch(id)),
            },
        }
    } else if LOGOUT.spec_bytes().is_prefix_of(rest) {
        Ok(Command::Logout)
    } else {
        Ok(Command::Unknown)
    }
}

/// What a line says: its tag, which is all that stands before the first
/// space, and its command.
pub open spec fn parsed(line: Seq<u8>) -> Result<(Seq<u8>, Command), ProtocolError> {
    match split_at_first(line, SPACE) {
        None => Err(ProtocolError::MalformedLine),
        Some((tag, rest)) => match command_of(rest) {
            Ok(command) => Ok((tag, command)),
            Err(e) => Err(e),
        },
    }
}

/// The line that is made of `tag`, a space and `rest`.
pub open spec fn tagged(tag: Seq<u8>, rest: Seq<u8>) -> Seq<u8> {
    tag.push(SPACE) + rest
}

/// The bytes of the four command words.
pub proof fn lemma_command_words()
    ensures
        LOGIN.spec_bytes() == seq![0x4cu8, 0x4f, 0x47, 0x49, 0x4e, 0x20],
        SELECT.spec_bytes() == seq![0x53u8, 0x45, 0x4c, 0x45, 0x43, 0x54, 0x20],
        FETCH.spec_bytes() == seq![0x46u8, 0x45, 0x54, 0x43, 0x48, 0x20],
        LOGOUT.spec_bytes() == seq![0x4cu8, 0x4f, 0x47, 0x4f, 0x55, 0x54],
{
    reveal_strlit("LOGIN ");
    reveal_strlit("SELECT ");
    reveal_strlit("FETCH ");
    reveal_strlit("LOGOUT");
    assert(vstd::utf8::is_ascii_chars(LOGIN@));
    assert(vstd::utf8::is_ascii_chars(SELECT@));
    assert(vstd::utf8::is_ascii_chars(FETCH@));
    assert(vstd::utf8::is_ascii_chars(LOGOUT@));
    vstd::string::is_ascii_spec_bytes(LOGIN);
    vstd::string::is_ascii_spec_bytes(SELECT);
    vstd::string::is_ascii_spec_bytes(FETCH);
    vstd::string::is_ascii_spec_bytes(LOGOUT);
    assert(LOGIN.spec_bytes() =~= seq![0x4cu8, 0x4f, 0x47, 0x49, 0x4e, 0x20]);
    assert(SELECT.spec_bytes() =~= seq![0x53u8, 0x45, 0x4c, 0x45, 0x43, 0x54, 0x20]);
    assert(FETCH.spec_bytes() =~= seq![0x46u8, 0x45, 0x54, 0x43, 0x48, 0x20]);
    assert(LOGOUT.spec_bytes() =~= seq![0x4cu8, 0x4f, 0x47, 0x4f, 0x55, 0x54]);
}

/// A line is split where its tag ends, if the tag holds no space.
pub proof fn lemma_tagged_splits(tag: Seq<u8>, rest: Seq<u8>)
    requires
        !tag.contains(SPACE),
    ensures
        split_at_first(tagged(tag, rest), SPACE) == Some((tag, rest)),
{
    let line = tagged(tag, rest);
    let at = tag.len() as int;
    assert(line[at] == SPACE);
    assert forall|j: int| 0 <= j < at implies line[j] != SPACE by {
        assert(line[j] == tag[j]);
    }
    lemma_first_index(line, SPACE, at);
    assert(line.subrange(0, at) == tag);
    assert(line.subrange(at + 1, line.len() as int) == rest);
}

/// A line whose tag holds no space and whose command begins with `LOGIN` and
/// a space is a `LOGIN`, whatever its arguments.
pub proof fn lemma_reads_login(tag: Seq<u8>, arguments: Seq<u8>)
    requires
        !tag.contains(SPACE),
    ensures
        parsed(tagged(tag, LOGIN.spec_bytes() + arguments)) == Ok::<
            (Seq<u8>, Command),
            ProtocolError,
        >((tag, Command::Login)),
{
    let rest = LOGIN.spec_bytes() + arguments;
    lemma_tagged_splits(tag, rest);
    assert(rest.subrange(0, LOGIN.spec_bytes().len() as int) == LOGIN.spec_bytes());
}

/// A line whose tag holds no space and whose command begins with `SELECT` and
/// a space is a `SELECT`, whatever its arguments.
pub proof fn lemma_reads_select(tag: Seq<u8>, arguments: Seq<u8>)
    requires
        !tag.contains(SPACE),
    ensures
        parsed(tagged(tag, SELECT.spec_bytes() + arguments)) == Ok::<
            (Seq<u8>, Command),
            ProtocolError,
        >((tag, Command::Select)),
{
    let rest = SELECT.spec_bytes() + arguments;
    lemma_tagged_splits(tag, rest);
    lemma_command_words();
    assert(rest.subrange(0, SELECT.spec_bytes().len() as int) == SELECT.spec_bytes());
    assert(rest[0] != LOGIN.spec_bytes()[0]);
    assert(rest.subrange(0, LOGIN.spec_bytes().len() as int)[0] == rest[0]);
}

/// A line whose tag holds no space and whose command begins with `FETCH` and
/// a space is read by its first argument: the argument must end in a space
/// and be a sequence number.
pub proof fn lemma_reads_fetch_arguments(tag: Seq<u8>, arguments: Seq<u8>)
    requires
        !tag.contains(SPACE),
    ensures
        parsed(tagged(tag, FETCH.spec_bytes() + arguments)) == match split_at_first(
            arguments,
            SPACE,
        ) {
            None => Err::<(Seq<u8>, Command), ProtocolError>(ProtocolError::IncompleteFetch),
            Some((token, _)) => match sequence_number(token) {
                None => Err(ProtocolError::InvalidSequenceNumber),
                Some(id) => Ok((tag, Command::Fetch(id))),
            },
        },
{
    let rest = FETCH.spec_bytes() + arguments;
    lemma_tagged_splits(tag, rest);
    lemma_command_words();
    assert(rest.subrange(0, FETCH.spec_bytes().len() as int) == FETCH.spec_bytes());
    assert(rest[0] != LOGIN.spec_bytes()[0]);
    assert(rest.subrange(0, LOGIN.spec_bytes().len() as int)[0] == rest[0]);
    assert(rest[0] != SELECT.spec_bytes()[0]);
    if SELECT.spec_bytes().len() <= rest.len() {
        assert(rest.subrange(0, SELECT.spec_bytes().len() as int)[0] == rest[0]);
    }
    assert(rest.subrange(FETCH.spec_bytes().len() as int, rest.len() as int) == arguments);
}

/// A line whose tag holds no space and whose command is `FETCH`, a space, the
/// numeral of a sequence number, a space and anything more is a `FETCH` of
/// that number.
pub proof fn lemma_reads_fetch(tag: Seq<u8>, id: u32, arguments: Seq<u8>)
    requires
        !tag.contains(SPACE),
        id <= MAX_SEQUENCE_NUMBER,
    ensures
        parsed(tagged(tag, FETCH.spec_bytes() + tagged(decimal(id as nat), arguments))) == Ok::<
            (Seq<u8>, Command),
            ProtocolError,
        >((tag, Command::Fetch(id))),
{
    let numeral = decimal(id as nat);
    lemma_reads_fetch_arguments(tag, tagged(numeral, arguments));
    lemma_decimal_reads_back(id as nat);
    assert(!numeral.contains(SPACE)) by {
        if numeral.contains(SPACE) {
            let j = choose|j: int| 0 <= j < numeral.len() && numeral[j] == SPACE;
            assert(is_digit(numeral[j]));
        }
    }
    lemma_tagged_splits(numeral, arguments);
}

/// A line whose tag holds no space and whose command begins with `LOGOUT` is
/// a `LOGOUT`, whatever follows the word.
pub proof fn lemma_reads_logout(tag: Seq<u8>, trailing: Seq<u8>)
    requires
        !tag.contains(SPACE),
    ensures
        parsed(tagged(tag, LOGOUT.spec_bytes() + trailing)) == Ok::<
            (Seq<u8>, Command),
            ProtocolError,
        >((tag, Command::Logout)),
{
    let rest = LOGOUT.spec_bytes() + trailing;
    lemma_tagged_splits(tag, rest);
    lemma_command_words();
    assert(rest.subrange(0, LOGOUT.spec_bytes().len() as int) == LOGOUT.spec_bytes());
    assert(rest[3] != LOGIN.spec_bytes()[3]);
    assert(rest.subrange(0, LOGIN.spec_bytes().len() as int)[3] == rest[3]);
    assert(rest[0] != SELECT.spec_bytes()[0]);
    assert(rest[0] != FETCH.spec_bytes()[0]);
    if SELECT.spec_bytes().len() <= rest.len() {
        assert(rest.subrange(0, SELECT.spec_bytes().len() as int)[0] == rest[0]);
    }
    assert(rest.subrange(0, FETCH.spec_bytes().len() as int)[0] == rest[0]);
}

/// Reads the command in what follows the tag. Only a `FETCH` can fail: when
/// no space follows its first argument, or when that argument is no sequence
/// number.
pub fn parse_command(rest: &[u8]) -> (r: Result<Command, ProtocolError>)
    ensures
        r == command_of(rest@),
{
    if starts_with(rest, LOGIN.as_bytes()) {
        Ok(Command::Login)
    } else if starts_with(rest, SELECT.as_bytes()) {
        Ok(Command::Select)
    } else if starts_with(rest, FETCH.as_bytes()) {
        let arguments = slice_subrange(rest, FETCH.as_bytes().len(), rest.len());
        match split_once(arguments, SPACE) {
            None => Err(ProtocolError::IncompleteFetch),
            Some((token, _)) => match parse_sequence_number(token) {
                None => Err(ProtocolError::InvalidSequenceNumber),
                Some(id) => Ok(Command::Fetch(id)),
            },
        }
    } else if starts_with(rest, LOGOUT.as_bytes()) {
        Ok(Command::Logout)
    } else {
        Ok(Command::Unknown)
    }
}

/// Reads one line, without its line ending. A line without a space fails
/// as `MalformedLine`; what follows the first space is read by
/// `parse_command`.
pub fn parse_line(line: &[u8]) -> (r: Result<Request, ProtocolError>)
    ensures
        match r {
            Ok(request) => parsed(line@) == Ok::<(Seq<u8>, Command), ProtocolError>(
                (request.tag@, request.command),
            ),
            Err(e) => parsed(line@) == Err::<(Seq<u8>, Command), ProtocolError>(e),
        },
{
    match split_once(line, SPACE) {
        None => Err(ProtocolError::MalformedLine),
        Some((tag, rest)) => match parse_command(rest) {
            Ok(command) => Ok(Request { tag: slice_to_vec(tag), command }),
            Err(e) => Err(e),
        },
    }
}

} // verus!
