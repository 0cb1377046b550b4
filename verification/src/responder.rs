//! One connection: what is written for each line that is read, and when the
//! connection ends. Reading and writing are the caller's part.

use vstd::prelude::*;
use vstd::string::StringSliceAdditionalSpecFns;
use crate::bytes::{split_at_first, SPACE};
use crate::command::{
    lemma_reads_fetch_arguments, parse_line, parsed, tagged, Command, ProtocolError, FETCH,
};
use crate::decimal::sequence_number;
use crate::reply::{
    fetch_reply, greeting, login_reply, logout_reply, select_reply, write_fetch_reply,
    write_greeting, write_login_reply, write_logout_reply, write_select_reply,
};

verus! {

/// Why a connection was closed.
#[derive(Clone, Copy, Debug, PartialEq, Eq, Structural)]
pub enum Ending {
    /// The peer sent `LOGOUT` and got its reply.
    LoggedOut,
    /// The peer closed the stream.
    PeerClosed,
    /// A line could not be served. Nothing was written for it.
    Failed(ProtocolError),
}

impl Ending {
    /// Whether the connection ended in an error. A logout and a peer that
    /// closes the stream are no errors.
    pub fn is_failure(&self) -> (failed: bool)
        ensures
            failed == (*self matches Ending::Failed(_)),
    {
        match self {
            Ending::Failed(_) => true,
            _ => false,
        }
    }
}

/// Where a connection stands between two lines. While a line is served the
/// connection is on its way from `AwaitingLine` to one of the two.
#[derive(Clone, Copy, Debug, PartialEq, Eq, Structural)]
pub enum Phase {
    /// The next line may be read.
    AwaitingLine,
    /// No line is read any more, and the stream is to be closed.
    Closed(Ending),
}

/// What a line brings about on a connection that awaits one: the bytes to
/// write, and where the connection stands once they are written.
#[verifier::opaque]
pub open spec fn reaction(line: Seq<u8>) -> (Seq<u8>, Phase) {
    match parsed(line) {
        Ok((tag, Command::Login)) => (login_reply(tag), Phase::AwaitingLine),
        Ok((tag, Command::Select)) => (select_reply(tag), Phase::AwaitingLine),
        Ok((tag, Command::Fetch(id))) => (fetch_reply(tag, id as nat), Phase::AwaitingLine),
        Ok((tag, Command::Logout)) => (logout_reply(tag), Phase::Closed(Ending::LoggedOut)),
        Ok((_, Command::Unknown)) => (
            Seq::empty(),
            Phase::Closed(Ending::Failed(ProtocolError::UnknownCommand)),
        ),
        Err(e) => (Seq::empty(), Phase::Closed(Ending::Failed(e))),
    }
}

/// A line that cannot be served is answered with nothing at all: no part of
/// a reply is written before the connection is closed.
pub proof fn lemma_failure_writes_nothing(line: Seq<u8>)
    ensures
        reaction(line).1 matches Phase::Closed(Ending::Failed(_)) ==> reaction(line).0
            == Seq::<u8>::empty(),
        reaction(line).1 == Phase::Closed(Ending::Failed(ProtocolError::MalformedLine))
            <==> !line.contains(SPACE),
{
    reveal(reaction);
    line.index_of_first_ensures(SPACE);
}

/// A `FETCH` whose sequence number is missing, because no space ends its
/// first argument, or whose first argument is no sequence number, closes the
/// connection, and nothing is written for it.
pub proof fn lemma_bad_fetch_writes_nothing(tag: Seq<u8>, arguments: Seq<u8>)
    requires
        !tag.contains(SPACE),
        match split_at_first(arguments, SPACE) {
            None => true,
            Some((token, _)) => sequence_number(token) is None,
        },
    ensures
        reaction(tagged(tag, FETCH.spec_bytes() + arguments)) == (
            Seq::<u8>::empty(),
            Phase::Closed(
                Ending::Failed(
                    if split_at_first(arguments, SPACE) is None {
                        ProtocolError::IncompleteFetch
                    } else {
                        ProtocolError::InvalidSequenceNumber
                    },
                ),
            ),
        ),
{
    reveal(reaction);
    lemma_reads_fetch_arguments(tag, arguments);
}

/// The state of one connection.
pub struct Connection {
    phase: Phase,
}

impl Connection {
    /// Where the connection stands, in contracts.
    pub closed spec fn spec_phase(&self) -> Phase {
        self.phase
    }

    /// A connection that was just accepted, and the greeting to write on it.
    pub fn accept() -> (r: (Connection, Vec<u8>))
        ensures
            r.0.phase() == Phase::AwaitingLine,
            r.1@ == greeting(),
    {
        let mut out: Vec<u8> = Vec::new();
        write_greeting(&mut out);
        (Connection { phase: Phase::AwaitingLine }, out)
    }

    /// Where the connection stands.
    #[verifier::when_used_as_spec(spec_phase)]
    pub fn phase(&self) -> (phase: Phase)
        ensures
            phase == self.spec_phase(),
    {
        self.phase
    }

    /// Whether a line may still be read.
    pub fn is_open(&self) -> (open: bool)
        ensures
            open == (self.phase() == Phase::AwaitingLine),
    {
        match self.phase {
            Phase::AwaitingLine => true,
            Phase::Closed(_) => false,
        }
    }

    /// Takes one line, without its line ending, and returns what is to be
    /// written and flushed before the next line is read. A closed connection
    /// stays as it is and writes nothing.
    pub fn receive(&mut self, line: &[u8]) -> (out: Vec<u8>)
        ensures
            old(self).phase() == Phase::AwaitingLine ==> (out@, final(self).phase()) == reaction(
                line@,
            ),
            old(self).phase() != Phase::AwaitingLine ==> out@ == Seq::<u8>::empty()
                && final(self).phase() == old(self).phase(),
    {
        proof {
            reveal(reaction);
        }
        let mut out: Vec<u8> = Vec::new();
        if !self.is_open() {
            return out;
        }
        match parse_line(line) {
            Err(e) => {
                self.phase = Phase::Closed(Ending::Failed(e));
            },
            Ok(request) => {
                let tag = request.tag.as_slice();
                match request.command {
                    Command::Login => {
                        write_login_reply(&mut out, tag);
                    },
                    Command::Select => {
                        write_select_reply(&mut out, tag);
                    },
                    Command::Fetch(id) => {
                        write_fetch_reply(&mut out, tag, id);
                    },
                    Command::Logout => {
                        write_logout_reply(&mut out, tag);
                        self.phase = Phase::Closed(Ending::LoggedOut);
                    },
                    Command::Unknown => {
                        self.phase = Phase::Closed(
                            Ending::Failed(ProtocolError::UnknownCommand),
                        );
                    },
                }
            },
        }
        out
    }

    /// Takes note that the peer closed the stream. A connection that was
    /// closed before keeps its ending.
    pub fn peer_closed(&mut self)
        ensures
            final(self).phase() == match old(self).phase() {
                Phase::AwaitingLine => Phase::Closed(Ending::PeerClosed),
                closed => closed,
            },
    {
        if self.is_open() {
            self.phase = Phase::Closed(Ending::PeerClosed);
        }
    }
}

} // verus!
