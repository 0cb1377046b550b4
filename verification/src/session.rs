//! A whole connection at once: the lines that a peer sends, and all that is
//! written back.

use vstd::prelude::*;
use vstd::string::StringSliceAdditionalSpecFns;
use crate::bytes::{append, texts, SPACE};
use crate::command::{
    lemma_reads_fetch, lemma_reads_login, lemma_reads_logout, lemma_reads_select, parsed,
    tagged, Command, ProtocolError, FETCH, LOGIN, LOGOUT, SELECT,
};
use crate::decimal::{decimal, MAX_SEQUENCE_NUMBER};
use crate::fixture::body;
use crate::reply::{
    fetch_data, fetch_reply, greeting, login_reply, logout_reply, select_reply, FETCH_DONE,
};
use crate::responder::{lemma_failure_writes_nothing, reaction, Connection, Ending, Phase};

verus! {

/// What a connection wrote, how many lines it read, and how it ended.
#[derive(Debug, PartialEq, Eq)]
pub struct Transcript {
    pub output: Vec<u8>,
    pub lines_read: usize,
    pub ending: Ending,
}

/// A transcript as a mathematical value.
pub struct Outcome {
    pub output: Seq<u8>,
    pub lines_read: nat,
    pub ending: Ending,
}

impl View for Transcript {
    type V = Outcome;

    open spec fn view(&self) -> Outcome {
        Outcome { output: self.output@, lines_read: self.lines_read as nat, ending: self.ending }
    }
}

/// What happens on a connection that awaits a line when the peer sends
/// `lines` and then closes the stream: the bytes written, the number of lines
/// read, and the ending. The lines are served one by one, and none is read
/// after the one that closes the connection.
pub open spec fn exchange(lines: Seq<Seq<u8>>) -> Outcome
    decreases lines.len(),
{
    if lines.len() == 0 {
        Outcome { output: Seq::empty(), lines_read: 0, ending: Ending::PeerClosed }
    } else {
        let (out, phase) = reaction(lines[0]);
        match phase {
            Phase::Closed(ending) => Outcome { output: out, lines_read: 1, ending },
            Phase::AwaitingLine => after(out, 1, exchange(lines.drop_first())),
        }
    }
}

/// The outcome of a connection that wrote `output` for its first `lines_read`
/// lines and then went on as `rest` says.
pub open spec fn after(output: Seq<u8>, lines_read: nat, rest: Outcome) -> Outcome {
    Outcome {
        output: output + rest.output,
        lines_read: lines_read + rest.lines_read,
        ending: rest.ending,
    }
}

/// The same for a new connection: the greeting comes first.
pub open spec fn session(lines: Seq<Seq<u8>>) -> Outcome {
    after(greeting(), 0, exchange(lines))
}

/// Whether each of `lines` leaves the connection open.
pub open spec fn all_served(lines: Seq<Seq<u8>>) -> bool {
    forall|i: int| 0 <= i < lines.len() ==> (#[trigger] reaction(lines[i])).1 == Phase::AwaitingLine
}

/// What one more line adds to a connection that is still open after `i` lines.
proof fn lemma_serve_next(lines: Seq<Seq<u8>>, written: Seq<u8>, i: int)
    requires
        0 <= i < lines.len(),
    ensures
        after(written, i as nat, exchange(lines.skip(i))) == match reaction(lines[i]).1 {
            Phase::Closed(ending) => Outcome {
                output: written + reaction(lines[i]).0,
                lines_read: (i + 1) as nat,
                ending,
            },
            Phase::AwaitingLine => after(
                written + reaction(lines[i]).0,
                (i + 1) as nat,
                exchange(lines.skip(i + 1)),
            ),
        },
{
    let rest = lines.skip(i);
    assert(rest[0] == lines[i]);
    assert(rest.drop_first() == lines.skip(i + 1));
    let out = reaction(lines[i]).0;
    let next = exchange(lines.skip(i + 1));
    assert(written + (out + next.output) == (written + out) + next.output);
}

/// Serves `lines` as one connection would, from the greeting to the end.
pub fn replay(lines: &[Vec<u8>]) -> (t: Transcript)
    ensures
        t@ == session(texts(lines@)),
{
    let ghost all = texts(lines@);
    let (mut connection, mut output) = Connection::accept();
    let mut i: usize = 0;
    assert(all.skip(0) == all);
    while i < lines.len() && connection.is_open()
        invariant
            i <= lines.len(),
            all == texts(lines@),
            match connection.phase() {
                Phase::AwaitingLine => session(all) == after(
                    output@,
                    i as nat,
                    exchange(all.skip(i as int)),
                ),
                Phase::Closed(ending) => session(all) == (Outcome {
                    output: output@,
                    lines_read: i as nat,
                    ending,
                }),
            },
        decreases lines.len() - i,
    {
        proof {
            lemma_serve_next(all, output@, i as int);
        }
        let written = connection.receive(lines[i].as_slice());
        append(&mut output, written.as_slice());
        i += 1;
    }
    connection.peer_closed();
    match connection.phase() {
        Phase::Closed(ending) => Transcript { output, lines_read: i, ending },
        Phase::AwaitingLine => Transcript { output, lines_read: i, ending: Ending::PeerClosed },
    }
}

/// Lines that are all served are all read, and what comes after them is
/// served as on a connection of its own.
pub proof fn lemma_exchange_continues(before: Seq<Seq<u8>>, rest: Seq<Seq<u8>>)
    requires
        all_served(before),
    ensures
        exchange(before).lines_read == before.len(),
        exchange(before).ending == Ending::PeerClosed,
        exchange(before + rest) == after(exchange(before).output, before.len(), exchange(rest)),
    decreases before.len(),
{
    if before.len() == 0 {
        assert(before + rest == rest);
        assert(Seq::<u8>::empty() + exchange(rest).output == exchange(rest).output);
    } else {
        let first = reaction(before[0]);
        let tail = before.drop_first();
        assert(first.1 == Phase::AwaitingLine);
        assert forall|i: int| 0 <= i < tail.len() implies (#[trigger] reaction(tail[i])).1
            == Phase::AwaitingLine by {
            assert(tail[i] == before[i + 1]);
        }
        lemma_exchange_continues(tail, rest);
        assert((before + rest)[0] == before[0]);
        assert((before + rest).drop_first() == tail + rest);
        assert(first.0 + (exchange(tail).output + exchange(rest).output) == (first.0 + exchange(
            tail,
        ).output) + exchange(rest).output);
    }
}

/// Lines that are all served are still all served with one more such line.
pub proof fn lemma_all_served_push(before: Seq<Seq<u8>>, line: Seq<u8>)
    requires
        all_served(before),
        reaction(line).1 == Phase::AwaitingLine,
    ensures
        all_served(before.push(line)),
{
    let lines = before.push(line);
    assert forall|i: int| 0 <= i < lines.len() implies (#[trigger] reaction(lines[i])).1
        == Phase::AwaitingLine by {
        if i < before.len() {
            assert(lines[i] == before[i]);
        } else {
            assert(lines[i] == line);
        }
    }
}

/// A line that is served adds its reply to what was written before it.
pub proof fn lemma_served_line(before: Seq<Seq<u8>>, line: Seq<u8>)
    requires
        all_served(before),
        reaction(line).1 == Phase::AwaitingLine,
    ensures
        all_served(before.push(line)),
        exchange(before.push(line)).output == exchange(before).output + reaction(line).0,
{
    let one = seq![line];
    assert(before.push(line) == before + one);
    lemma_exchange_continues(before, one);
    lemma_all_served_push(before, line);
    assert(one[0] == line);
    assert(exchange(one.drop_first()).output == Seq::<u8>::empty());
    assert(reaction(line).0 + Seq::<u8>::empty() == reaction(line).0);
}

/// The line that closes a connection is the last one that is read: whatever
/// the peer sends after it changes nothing.
pub proof fn lemma_closing_line_is_last(
    before: Seq<Seq<u8>>,
    line: Seq<u8>,
    later: Seq<Seq<u8>>,
    ending: Ending,
)
    requires
        all_served(before),
        reaction(line).1 == Phase::Closed(ending),
    ensures
        session(before.push(line) + later) == (Outcome {
            output: session(before).output + reaction(line).0,
            lines_read: before.len() + 1,
            ending,
        }),
{
    let tail = seq![line] + later;
    assert(before.push(line) + later == before + tail);
    lemma_exchange_continues(before, tail);
    assert(tail[0] == line);
    let served = exchange(before).output;
    assert(greeting() + (served + reaction(line).0) == (greeting() + served) + reaction(line).0);
}

/// A line without a space closes the connection at once: nothing is written
/// for it, and no line after it is read.
pub proof fn lemma_malformed_line_ends_session(
    before: Seq<Seq<u8>>,
    line: Seq<u8>,
    later: Seq<Seq<u8>>,
)
    requires
        all_served(before),
        !line.contains(SPACE),
    ensures
        session(before.push(line) + later) == (Outcome {
            output: session(before).output,
            lines_read: before.len() + 1,
            ending: Ending::Failed(ProtocolError::MalformedLine),
        }),
{
    lemma_failure_writes_nothing(line);
    lemma_closing_line_is_last(
        before,
        line,
        later,
        Ending::Failed(ProtocolError::MalformedLine),
    );
    assert(session(before).output + Seq::<u8>::empty() == session(before).output);
}

/// What three lines that are served and a fourth that closes the connection
/// bring about on a new connection.
proof fn lemma_session_of_four(
    first: Seq<u8>,
    second: Seq<u8>,
    third: Seq<u8>,
    last: Seq<u8>,
    ending: Ending,
)
    requires
        reaction(first).1 == Phase::AwaitingLine,
        reaction(second).1 == Phase::AwaitingLine,
        reaction(third).1 == Phase::AwaitingLine,
        reaction(last).1 == Phase::Closed(ending),
    ensures
        session(seq![first, second, third, last]) == (Outcome {
            output: greeting() + reaction(first).0 + reaction(second).0 + reaction(third).0
                + reaction(last).0,
            lines_read: 4,
            ending,
        }),
{
    let none = Seq::<Seq<u8>>::empty();
    lemma_served_line(none, first);
    lemma_served_line(none.push(first), second);
    lemma_served_line(none.push(first).push(second), third);
    let before = none.push(first).push(second).push(third);
    lemma_closing_line_is_last(before, last, Seq::empty(), ending);
    assert(before.push(last) + Seq::<Seq<u8>>::empty() == seq![first, second, third, last]);
    assert(Seq::<u8>::empty() + reaction(first).0 == reaction(first).0);
    let served = reaction(first).0 + reaction(second).0 + reaction(third).0;
    assert(greeting() + served == greeting() + reaction(first).0 + reaction(second).0 + reaction(
        third,
    ).0);
}

/// A peer that logs in, selects a mailbox, fetches a message and logs out,
/// under tags without a space, is sent the greeting and then the reply to
/// each command under that command's own tag, and nothing else. The
/// connection ends with the logout.
pub proof fn lemma_round_trip(
    login_tag: Seq<u8>,
    credentials: Seq<u8>,
    select_tag: Seq<u8>,
    mailbox: Seq<u8>,
    fetch_tag: Seq<u8>,
    id: u32,
    items: Seq<u8>,
    logout_tag: Seq<u8>,
)
    requires
        !login_tag.contains(SPACE),
        !select_tag.contains(SPACE),
        !fetch_tag.contains(SPACE),
        !logout_tag.contains(SPACE),
        id <= MAX_SEQUENCE_NUMBER,
    ensures
        session(
            seq![
                tagged(login_tag, LOGIN.spec_bytes() + credentials),
                tagged(select_tag, SELECT.spec_bytes() + mailbox),
                tagged(fetch_tag, FETCH.spec_bytes() + tagged(decimal(id as nat), items)),
                tagged(logout_tag, LOGOUT.spec_bytes()),
            ],
        ) == (Outcome {
            output: greeting() + login_reply(login_tag) + select_reply(select_tag) + fetch_reply(
                fetch_tag,
                id as nat,
            ) + logout_reply(logout_tag),
            lines_read: 4,
            ending: Ending::LoggedOut,
        }),
{
    let login = tagged(login_tag, LOGIN.spec_bytes() + credentials);
    let select = tagged(select_tag, SELECT.spec_bytes() + mailbox);
    let fetch = tagged(fetch_tag, FETCH.spec_bytes() + tagged(decimal(id as nat), items));
    let logout = tagged(logout_tag, LOGOUT.spec_bytes());
    assert(reaction(login) == (login_reply(login_tag), Phase::AwaitingLine)) by {
        reveal(reaction);
        lemma_reads_login(login_tag, credentials);
    }
    assert(reaction(select) == (select_reply(select_tag), Phase::AwaitingLine)) by {
        reveal(reaction);
        lemma_reads_select(select_tag, mailbox);
    }
    assert(reaction(fetch) == (fetch_reply(fetch_tag, id as nat), Phase::AwaitingLine)) by {
        reveal(reaction);
        lemma_reads_fetch(fetch_tag, id, items);
    }
    assert(reaction(logout) == (logout_reply(logout_tag), Phase::Closed(Ending::LoggedOut))) by {
        reveal(reaction);
        lemma_reads_logout(logout_tag, Seq::empty());
        assert(LOGOUT.spec_bytes() + Seq::<u8>::empty() == LOGOUT.spec_bytes());
    }
    lemma_session_of_four(login, select, fetch, logout, Ending::LoggedOut);
}

/// Two `FETCH`es of one sequence number on one connection are answered with
/// the same message, byte for byte: each reply is the same untagged response
/// with `body(id)` in it, followed by the line of its own tag.
pub proof fn lemma_fetch_twice(
    before: Seq<Seq<u8>>,
    first: Seq<u8>,
    second: Seq<u8>,
    first_tag: Seq<u8>,
    second_tag: Seq<u8>,
    id: u32,
)
    requires
        all_served(before),
        parsed(first) == Ok::<(Seq<u8>, Command), ProtocolError>(
            (first_tag, Command::Fetch(id)),
        ),
        parsed(second) == Ok::<(Seq<u8>, Command), ProtocolError>(
            (second_tag, Command::Fetch(id)),
        ),
    ensures
        reaction(first).0 == fetch_data(id as nat, body(id as nat)) + first_tag
            + FETCH_DONE.spec_bytes(),
        reaction(second).0 == fetch_data(id as nat, body(id as nat)) + second_tag
            + FETCH_DONE.spec_bytes(),
        all_served(before.push(first).push(second)),
        exchange(before.push(first).push(second)).output == exchange(before).output + reaction(
            first,
        ).0 + reaction(second).0,
{
    assert(reaction(first) == (fetch_reply(first_tag, id as nat), Phase::AwaitingLine)) by {
        reveal(reaction);
    }
    assert(reaction(second) == (fetch_reply(second_tag, id as nat), Phase::AwaitingLine)) by {
        reveal(reaction);
    }
    lemma_served_line(before, first);
    lemma_served_line(before.push(first), second);
}

} // verus!
