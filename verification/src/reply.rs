//! The replies, byte for byte.

use vstd::prelude::*;
use vstd::string::StringSliceAdditionalSpecFns;
use crate::bytes::append;
use crate::decimal::{decimal, push_decimal};
use crate::fixture::{body, filler, fixture_body, lemma_body_len, template};

verus! {

/// What a new connection is greeted with.
pub const GREETING: &'static str =
    "* OK [CAPABILITY IMAP4 IMAP4rev1 AUTH=PLAIN AUTH=LOGIN AUTH=CRAM-MD5 AUTH=DIGEST-MD5 CHILDREN ENABLE I18NLEVEL=2 ID IDLE MOVE MULTIAPPEND NAMESPACE QUOTA SORT STATUS=SIZE UIDPLUS UNSELECT WITHIN XLIST] IMAP server ready (P18 TLSv1.3:TLS_AES_256_GCM_SHA384)\r\n";

/// After the tag, in the reply to `LOGIN`.
pub const LOGIN_DONE: &'static str = " OK User logged in (30)\r\n";

/// The seven lines that describe the mailbox, in the order in which they are sent.
pub const MAILBOX_FLAGS: &'static str =
    "* FLAGS (\\Answered \\Flagged \\Deleted \\Seen \\Draft \\Forwarded NonJunk $Forwarded $Junk $label1 $label2)\r\n";

pub const MAILBOX_PERMANENT_FLAGS: &'static str =
    "* OK [PERMANENTFLAGS (\\Answered \\Flagged \\Deleted \\Seen \\Draft \\Forwarded NonJunk $Forwarded $Junk $label1 $label2 \\*)]\r\n";

pub const MAILBOX_URL_MECHANISM: &'static str = "* OK [URLMECH INTERNAL]\r\n";

pub const MAILBOX_EXISTS: &'static str = "* 1212 EXISTS\r\n";

pub const MAILBOX_RECENT: &'static str = "* 0 RECENT\r\n";

pub const MAILBOX_UID_VALIDITY: &'static str = "* OK [UIDVALIDITY 1491927899]\r\n";

pub const MAILBOX_UID_NEXT: &'static str = "* OK [UIDNEXT 1250]\r\n";

/// After the tag, in the reply to `SELECT`.
pub const SELECT_DONE: &'static str = " OK [READ-WRITE] SELECT completed\r\n";

/// The parts of the untagged `FETCH` response, between which the sequence
/// number, the size (twice) and the message stand.
pub const FETCH_START: &'static str = "* ";

pub const FETCH_DATE_AND_SIZE: &'static str =
    " FETCH (INTERNALDATE \"17-Jun-2017 10:18:07 +0200\" RFC822.SIZE ";

pub const FETCH_LITERAL_START: &'static str = " BODY[] {";

pub const FETCH_LITERAL_END: &'static str = "}\r\n";

pub const FETCH_FLAGS: &'static str = " FLAGS (\\Seen NonJunk))\r\n";

/// After the tag, in the reply to `FETCH`.
pub const FETCH_DONE: &'static str = " OK FETCH complete\r\n";

/// After the tag, in the reply to `LOGOUT`.
pub const LOGOUT_DONE: &'static str = " OK LOGOUT completed\r\n";

/// The greeting: one untagged line that lists what the server can do.
pub open spec fn greeting() -> Seq<u8> {
    GREETING.spec_bytes()
}

/// The reply to `LOGIN`: one line under the tag of the command.
pub open spec fn login_reply(tag: Seq<u8>) -> Seq<u8> {
    tag + LOGIN_DONE.spec_bytes()
}

/// The seven untagged lines of the reply to `SELECT`.
pub open spec fn mailbox_status() -> Seq<u8> {
    MAILBOX_FLAGS.spec_bytes() + MAILBOX_PERMANENT_FLAGS.spec_bytes()
        + MAILBOX_URL_MECHANISM.spec_bytes() + MAILBOX_EXISTS.spec_bytes()
        + MAILBOX_RECENT.spec_bytes() + MAILBOX_UID_VALIDITY.spec_bytes()
        + MAILBOX_UID_NEXT.spec_bytes()
}

/// The reply to `SELECT`: the seven lines on the mailbox, and one line under
/// the tag of the command.
pub open spec fn select_reply(tag: Seq<u8>) -> Seq<u8> {
    mailbox_status() + tag + SELECT_DONE.spec_bytes()
}

/// The untagged `FETCH` response that carries `message` as the message with
/// sequence number `id`. The length of `message` stands in it twice, as the
/// size and in the braces before the message itself.
pub open spec fn fetch_data(id: nat, message: Seq<u8>) -> Seq<u8> {
    FETCH_START.spec_bytes() + decimal(id) + FETCH_DATE_AND_SIZE.spec_bytes() + decimal(
        message.len(),
    ) + FETCH_LITERAL_START.spec_bytes() + decimal(message.len())
        + FETCH_LITERAL_END.spec_bytes() + message + FETCH_FLAGS.spec_bytes()
}

/// The reply to `FETCH`: the untagged response with the message of that
/// sequence number, and one line under the tag of the command.
pub open spec fn fetch_reply(tag: Seq<u8>, id: nat) -> Seq<u8> {
    fetch_data(id, body(id)) + tag + FETCH_DONE.spec_bytes()
}

/// The reply to `LOGOUT`: one line under the tag of the command.
pub open spec fn logout_reply(tag: Seq<u8>) -> Seq<u8> {
    tag + LOGOUT_DONE.spec_bytes()
}

/// For a sequence number of 1 or more the message is
/// `len(template) + (id - 1) * len(filler)` bytes long, and the reply to
/// `FETCH` gives exactly that number twice: as the size, and in the braces
/// before the message.
pub proof fn lemma_fetch_reply_size(tag: Seq<u8>, id: nat)
    requires
        id >= 1,
    ensures
        body(id).len() == template().len() + (id - 1) * filler().len(),
        fetch_reply(tag, id) == FETCH_START.spec_bytes() + decimal(id)
            + FETCH_DATE_AND_SIZE.spec_bytes() + decimal(
            (template().len() + (id - 1) * filler().len()) as nat,
        ) + FETCH_LITERAL_START.spec_bytes() + decimal(
            (template().len() + (id - 1) * filler().len()) as nat,
        ) + FETCH_LITERAL_END.spec_bytes() + body(id) + FETCH_FLAGS.spec_bytes() + tag
            + FETCH_DONE.spec_bytes(),
{
    lemma_body_len(id);
}

/// Appends the greeting to `out`.
pub fn write_greeting(out: &mut Vec<u8>)
    ensures
        final(out)@ == old(out)@ + greeting(),
{
    append(out, GREETING.as_bytes());
}

/// Appends the reply to `LOGIN` to `out`.
pub fn write_login_reply(out: &mut Vec<u8>, tag: &[u8])
    ensures
        final(out)@ == old(out)@ + login_reply(tag@),
{
    append(out, tag);
    append(out, LOGIN_DONE.as_bytes());
    assert(out@ == old(out)@ + login_reply(tag@));
}

/// Appends the reply to `SELECT` to `out`.
pub fn write_select_reply(out: &mut Vec<u8>, tag: &[u8])
    ensures
        final(out)@ == old(out)@ + select_reply(tag@),
{
    append(out, MAILBOX_FLAGS.as_bytes());
    append(out, MAILBOX_PERMANENT_FLAGS.as_bytes());
    append(out, MAILBOX_URL_MECHANISM.as_bytes());
    append(out, MAILBOX_EXISTS.as_bytes());
    append(out, MAILBOX_RECENT.as_bytes());
    append(out, MAILBOX_UID_VALIDITY.as_bytes());
    append(out, MAILBOX_UID_NEXT.as_bytes());
    append(out, tag);
    append(out, SELECT_DONE.as_bytes());
    assert(out@ == old(out)@ + select_reply(tag@));
}

/// Appends to `out` the untagged `FETCH` response that carries `message`.
pub fn write_fetch_data(out: &mut Vec<u8>, id: u32, message: &[u8])
    ensures
        final(out)@ == old(out)@ + fetch_data(id as nat, message@),
{
    let size: u64 = message.len() as u64;
    append(out, FETCH_START.as_bytes());
    push_decimal(out, id as u64);
    append(out, FETCH_DATE_AND_SIZE.as_bytes());
    push_decimal(out, size);
    append(out, FETCH_LITERAL_START.as_bytes());
    push_decimal(out, size);
    append(out, FETCH_LITERAL_END.as_bytes());
    append(out, message);
    append(out, FETCH_FLAGS.as_bytes());
    assert(out@ == old(out)@ + fetch_data(id as nat, message@));
}

/// Appends the reply to `FETCH` to `out`.
pub fn write_fetch_reply(out: &mut Vec<u8>, tag: &[u8], id: u32)
    ensures
        final(out)@ == old(out)@ + fetch_reply(tag@, id as nat),
{
    let message = fixture_body(id);
    write_fetch_data(out, id, message.as_slice());
    append(out, tag);
    append(out, FETCH_DONE.as_bytes());
    assert(out@ == old(out)@ + fetch_reply(tag@, id as nat));
}

/// Appends the reply to `LOGOUT` to `out`.
pub fn write_logout_reply(out: &mut Vec<u8>, tag: &[u8])
    ensures
        final(out)@ == old(out)@ + logout_reply(tag@),
{
    append(out, tag);
    append(out, LOGOUT_DONE.as_bytes());
    assert(out@ == old(out)@ + logout_reply(tag@));
}

} // verus!
