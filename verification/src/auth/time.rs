//! Authentication by time: the client sends the time and its tag, and no time stamp is taken twice.

use vstd::prelude::*;
use crate::auth::TAG_LEN;
use crate::bytes::{
    append, be64, copy_range, from_be64, lemma_be64_round_trip, push_be64, read_be64,
};
use crate::primitives::{hmac_sha256, hmac_sha256_of, hmac_sha256_verify, INPUT_LIMIT};

verus! {

/// The length of what a client sends first: a time stamp and its tag.
pub const HEADER_LEN: usize = 40;

/// How old a time stamp may be, in microseconds.
pub const MAX_AGE: u64 = 5_000_000;

/// How far ahead of the server's clock a time stamp may be, in microseconds.
pub const MAX_LEAD: u64 = 1_000_000;

/// What a client sends first, at the time `now` in microseconds since 1970:
/// the time, and its tag under the key.
pub open spec fn hello(key: Seq<u8>, now: u64) -> Seq<u8> {
    be64(now) + hmac_sha256_of(key, be64(now))
}

/// The client of the authentication by time.
pub struct Client {
    key: Vec<u8>,
}

impl Client {
    #[verifier::type_invariant]
    spec fn key_fits(self) -> bool {
        self.key@.len() <= INPUT_LIMIT
    }

    /// The key that is shared with the other side.
    pub closed spec fn key(&self) -> Seq<u8> {
        self.key@
    }

    /// A client that holds `key`.
    pub fn new(key: Vec<u8>) -> (c: Client)
        requires
            key@.len() <= INPUT_LIMIT,
        ensures
            c.key() == key@,
    {
        Client { key }
    }

    /// The message that opens a stream at the time `now`.
    pub fn hello(&self, now: u64) -> (msg: Vec<u8>)
        ensures
            msg@ == hello(self.key(), now),
            msg@.len() == HEADER_LEN,
            hmac_sha256_of(self.key(), be64(now)).len() == TAG_LEN,
    {
        proof {
            use_type_invariant(self);
        }
        let mut msg: Vec<u8> = Vec::new();
        push_be64(&mut msg, now);
        assert(msg@ =~= be64(now));
        let tag = hmac_sha256(self.key.as_slice(), msg.as_slice());
        append(&mut msg, tag.as_slice());
        msg
    }
}

/// Why a stream is refused.
#[derive(Debug, Clone, Copy, PartialEq, Eq, Structural)]
pub enum Refusal {
    /// The time stamp is too old or too far ahead.
    OutOfWindow,
    /// The time stamp is not later than the last one seen.
    Replayed,
    /// The tag is not that of the time stamp.
    BadTag,
}

/// What the server makes of the bytes received so far.
pub enum Verdict {
    /// The header is not complete yet.
    NeedMore,
    /// The stream is refused.
    Refused(Refusal),
    /// The stream is admitted; `rest` holds the bytes that followed the header.
    Admitted { rest: Vec<u8> },
}

/// What a [`Verdict`] stands for.
pub enum VerdictValue {
    NeedMore,
    Refused(Refusal),
    Admitted { rest: Seq<u8> },
}

impl View for Verdict {
    type V = VerdictValue;

    open spec fn view(&self) -> VerdictValue {
        match self {
            Verdict::NeedMore => VerdictValue::NeedMore,
            Verdict::Refused(r) => VerdictValue::Refused(*r),
            Verdict::Admitted { rest } => VerdictValue::Admitted { rest: rest@ },
        }
    }
}

/// The time stamp at the start of a header.
pub open spec fn stamp(buf: Seq<u8>) -> u64 {
    from_be64(buf.subrange(0, 8))
}

/// Whether a time stamp lies in the window round the time `now`.
pub open spec fn in_window(stamp: u64, now: u64) -> bool {
    stamp + MAX_AGE >= now && stamp <= now + MAX_LEAD
}

/// The verdict on the bytes `buf` at the time `now`, when the last time
/// stamp seen is `last`. The window is tested first, then the order of the
/// time stamps, then the tag.
pub open spec fn verdict(key: Seq<u8>, buf: Seq<u8>, now: u64, last: u64) -> VerdictValue {
    if buf.len() < HEADER_LEN {
        VerdictValue::NeedMore
    } else if !in_window(stamp(buf), now) {
        VerdictValue::Refused(Refusal::OutOfWindow)
    } else if stamp(buf) <= last {
        VerdictValue::Refused(Refusal::Replayed)
    } else if buf.subrange(8, HEADER_LEN as int) != hmac_sha256_of(key, buf.subrange(0, 8)) {
        VerdictValue::Refused(Refusal::BadTag)
    } else {
        VerdictValue::Admitted { rest: buf.skip(HEADER_LEN as int) }
    }
}

/// The last time stamp seen after the bytes `buf` were judged: the time
/// stamp of `buf` where it lies in the window and is later than `last`,
/// whatever its tag; else `last`.
pub open spec fn last_seen(buf: Seq<u8>, now: u64, last: u64) -> u64 {
    if buf.len() >= HEADER_LEN && in_window(stamp(buf), now) && stamp(buf) > last {
        stamp(buf)
    } else {
        last
    }
}

/// No stream is admitted with a time stamp that is not later than the last
/// one seen; and a time stamp that was admitted is the last one seen
/// afterwards, so the same header is refused when it comes again.
pub proof fn lemma_no_replay(key: Seq<u8>, buf: Seq<u8>, now: u64, later: u64, last: u64)
    ensures
        verdict(key, buf, now, last) is Admitted ==> stamp(buf) > last,
        verdict(key, buf, now, last) is Admitted ==> !(verdict(
            key,
            buf,
            later,
            last_seen(buf, now, last),
        ) is Admitted),
{
}

/// A client that holds the key of the server is admitted when its message
/// comes within the window and no time stamp as late as its own was seen;
/// what it sends after the message is what the server hands on.
pub proof fn lemma_hello_admitted(key: Seq<u8>, sent: u64, now: u64, last: u64, more: Seq<u8>)
    requires
        in_window(sent, now),
        sent > last,
        hmac_sha256_of(key, be64(sent)).len() == TAG_LEN,
    ensures
        verdict(key, hello(key, sent) + more, now, last) == (VerdictValue::Admitted { rest: more }),
        last_seen(hello(key, sent) + more, now, last) == sent,
{
    let tag = hmac_sha256_of(key, be64(sent));
    let buf = hello(key, sent) + more;
    lemma_be64_round_trip(sent);
    assert(buf.subrange(0, 8) =~= be64(sent));
    assert(buf.subrange(8, HEADER_LEN as int) =~= tag);
    assert(buf.skip(HEADER_LEN as int) =~= more);
}

/// The server of the authentication by time.
pub struct Server {
    key: Vec<u8>,
}

impl Server {
    #[verifier::type_invariant]
    spec fn key_fits(self) -> bool {
        self.key@.len() <= INPUT_LIMIT
    }

    /// The key that is shared with the other side.
    pub closed spec fn key(&self) -> Seq<u8> {
        self.key@
    }

    /// A server that holds `key`.
    pub fn new(key: Vec<u8>) -> (s: Server)
        requires
            key@.len() <= INPUT_LIMIT,
        ensures
            s.key() == key@,
    {
        Server { key }
    }

    /// Judges the bytes received so far on a stream, at the time `now` in
    /// microseconds since 1970. `last` is the last time stamp seen on any
    /// stream and is brought up to date.
    pub fn check(&self, buf: &[u8], now: u64, last: &mut u64) -> (v: Verdict)
        ensures
            v@ == verdict(self.key(), buf@, now, *old(last)),
            *final(last) == last_seen(buf@, now, *old(last)),
    {
        proof {
            use_type_invariant(self);
        }
        if buf.len() < HEADER_LEN {
            return Verdict::NeedMore;
        }
        let stamp = read_be64(buf);
        if (stamp as u128) + (MAX_AGE as u128) < now as u128 || stamp as u128 > (now as u128) + (
        MAX_LEAD as u128) {
            return Verdict::Refused(Refusal::OutOfWindow);
        }
        if stamp <= *last {
            return Verdict::Refused(Refusal::Replayed);
        }
        *last = stamp;
        let head = copy_range(buf, 0, 8);
        let tag = copy_range(buf, 8, HEADER_LEN);
        if !hmac_sha256_verify(self.key.as_slice(), head.as_slice(), tag.as_slice()) {
            return Verdict::Refused(Refusal::BadTag);
        }
        let rest = copy_range(buf, HEADER_LEN, buf.len());
        assert(rest@ =~= buf@.skip(HEADER_LEN as int));
        Verdict::Admitted { rest }
    }
}

} // verus!
