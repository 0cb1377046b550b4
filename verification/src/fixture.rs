//! The message that every `FETCH` returns: a fixed template, made longer by
//! one filler line for each step of the sequence number past the first.

use vstd::prelude::*;
use vstd::string::StringSliceAdditionalSpecFns;
use crate::bytes::append;

verus! {

/// The message with sequence number 1.
pub const TEMPLATE: &'static str = "Return-Path: <sender@example.org>\r\n\
Delivered-To: mail@example.com\r\n\
Received: from mail.example.org (mail.example.org [192.0.2.25])\r\n\
\tby mx.example.com with ESMTPS id 4A7C21F3\r\n\
\tfor <mail@example.com>; Sat, 17 Jun 2017 10:18:07 +0200 (CEST)\r\n\
Date: Sat, 17 Jun 2017 10:18:05 +0200\r\n\
From: Sender <sender@example.org>\r\n\
To: Recipient <mail@example.com>\r\n\
Subject: Fixture message\r\n\
Message-ID: <20170617081805.4A7C21F3@mail.example.org>\r\n\
MIME-Version: 1.0\r\n\
Content-Type: text/plain; charset=us-ascii\r\n\
Content-Transfer-Encoding: 7bit\r\n\
\r\n\
This message is a fixture. Every line below this paragraph is filler\r\n\
that makes the message longer, one line for each step of its sequence\r\n\
number past the first.\r\n\
\r\n";

/// One filler line: 72 letters and the line ending.
pub const FILLER: &'static str =
    "XXXXXXXXXXXXXXXXXXXXXXXXXXXXXXXXXXXXXXXXXXXXXXXXXXXXXXXXXXXXXXXXXXXXXXXX\r\n";

/// The bytes of the template.
pub open spec fn template() -> Seq<u8> {
    TEMPLATE.spec_bytes()
}

/// The bytes of one filler line.
pub open spec fn filler() -> Seq<u8> {
    FILLER.spec_bytes()
}

/// `count` filler lines, one after the other.
pub open spec fn padding(count: nat) -> Seq<u8>
    decreases count,
{
    if count == 0 {
        Seq::empty()
    } else {
        padding((count - 1) as nat) + filler()
    }
}

/// How many filler lines the message with sequence number `id` holds.
pub open spec fn filler_lines(id: nat) -> nat {
    if id >= 1 {
        (id - 1) as nat
    } else {
        0
    }
}

/// The message with sequence number `id`.
pub open spec fn body(id: nat) -> Seq<u8> {
    template() + padding(filler_lines(id))
}

/// A filler line is 74 bytes long: 72 letters, a carriage return and a line feed.
pub proof fn lemma_filler_len()
    ensures
        filler().len() == 72 + 2,
{
    reveal_strlit(
        "XXXXXXXXXXXXXXXXXXXXXXXXXXXXXXXXXXXXXXXXXXXXXXXXXXXXXXXXXXXXXXXXXXXXXXXX\r\n",
    );
    assert(vstd::utf8::is_ascii_chars(FILLER@));
    vstd::string::is_ascii_spec_bytes(FILLER);
}

/// Filler lines are all of one length.
pub proof fn lemma_padding_len(count: nat)
    ensures
        padding(count).len() == count * filler().len(),
    decreases count,
{
    let len = filler().len() as int;
    if count > 0 {
        lemma_padding_len((count - 1) as nat);
        assert((count - 1) * len + len == count * len) by (nonlinear_arith);
    } else {
        assert(0 * len == 0);
    }
}

/// The length of a message is that of the template and of its filler lines:
/// for a sequence number of 1 or more,
/// `len(template) + (id - 1) * len(filler)`.
pub proof fn lemma_body_len(id: nat)
    requires
        id >= 1,
    ensures
        body(id).len() == template().len() + (id - 1) * filler().len(),
        body(id).len() == template().len() + (id - 1) * 74,
{
    lemma_padding_len(filler_lines(id));
    lemma_filler_len();
}

/// Builds the message with sequence number `id`.
pub fn fixture_body(id: u32) -> (out: Vec<u8>)
    ensures
        out@ == body(id as nat),
{
    let mut out: Vec<u8> = Vec::new();
    append(&mut out, TEMPLATE.as_bytes());
    let mut k: u32 = 1;
    while k < id
        invariant
            1 <= k,
            k <= id || (id == 0 && k == 1),
            out@ == template() + padding((k - 1) as nat),
        decreases id - k,
    {
        append(&mut out, FILLER.as_bytes());
        k += 1;
    }
    out
}

} // verus!
