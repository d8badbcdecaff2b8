//! Authentication by challenge: the server sends random bytes, the client answers with their tag.

use vstd::prelude::*;
use crate::auth::TAG_LEN;
use crate::bytes::copy_range;
use crate::primitives::{
    hmac_sha256, hmac_sha256_of, hmac_sha256_verify, system_random, INPUT_LIMIT,
};

verus! {

/// The length of a challenge, in bytes.
pub const NOUNCE_LEN: usize = 20;

/// What a client makes of the bytes received from the server.
pub enum Answer {
    /// The challenge is not complete yet.
    NeedMore,
    /// More came than a challenge: the stream fails.
    ProtocolError,
    /// The challenge is complete; `tag` is what is sent back.
    Reply { tag: Vec<u8> },
}

/// What an [`Answer`] stands for.
pub enum AnswerValue {
    NeedMore,
    ProtocolError,
    Reply { tag: Seq<u8> },
}

impl View for Answer {
    type V = AnswerValue;

    open spec fn view(&self) -> AnswerValue {
        match self {
            Answer::NeedMore => AnswerValue::NeedMore,
            Answer::ProtocolError => AnswerValue::ProtocolError,
            Answer::Reply { tag } => AnswerValue::Reply { tag: tag@ },
        }
    }
}

/// The answer to the bytes `buf` received from the server: the tag of the
/// challenge under the key, once exactly a challenge has come.
pub open spec fn answer(key: Seq<u8>, buf: Seq<u8>) -> AnswerValue {
    if buf.len() < NOUNCE_LEN {
        AnswerValue::NeedMore
    } else if buf.len() != NOUNCE_LEN {
        AnswerValue::ProtocolError
    } else {
        AnswerValue::Reply { tag: hmac_sha256_of(key, buf) }
    }
}

/// The client of the authentication by challenge.
pub struct Client {
    key: Vec<u8>,
}

impl Client {
    #[verifier::type_invariant]
    spec fn key_fits(self) -> bool {
        self.key@.len() <= INPUT_LIMIT
    }

    /// The key that is shared with the other side.
    pub closed spec fn key(&self) -> Seq<u8> {
        self.key@
    }

    /// A client that holds `key`.
    pub fn new(key: Vec<u8>) -> (c: Client)
        requires
            key@.len() <= INPUT_LIMIT,
        ensures
            c.key() == key@,
    {
        Client { key }
    }

    /// Answers the bytes received so far from the server.
    pub fn respond(&self, buf: &[u8]) -> (a: Answer)
        ensures
            a@ == answer(self.key(), buf@),
            a matches Answer::Reply { tag } ==> tag@.len() == TAG_LEN,
    {
        proof {
            use_type_invariant(self);
        }
        if buf.len() < NOUNCE_LEN {
            Answer::NeedMore
        } else if buf.len() != NOUNCE_LEN {
            Answer::ProtocolError
        } else {
            Answer::Reply { tag: hmac_sha256(self.key.as_slice(), buf) }
        }
    }
}

/// What the server makes of the bytes received from a client.
pub enum Verdict {
    /// The tag is not complete yet.
    NeedMore,
    /// The tag is not that of the challenge: the stream is refused.
    Refused,
    /// The stream is admitted; `rest` holds the bytes that followed the tag.
    Admitted { rest: Vec<u8> },
}

/// What a [`Verdict`] stands for.
pub enum VerdictValue {
    NeedMore,
    Refused,
    Admitted { rest: Seq<u8> },
}

impl View for Verdict {
    type V = VerdictValue;

    open spec fn view(&self) -> VerdictValue {
        match self {
            Verdict::NeedMore => VerdictValue::NeedMore,
            Verdict::Refused => VerdictValue::Refused,
            Verdict::Admitted { rest } => VerdictValue::Admitted { rest: rest@ },
        }
    }
}

/// The verdict on the bytes `buf` that a client sent in answer to `nounce`.
pub open spec fn verdict(key: Seq<u8>, nounce: Seq<u8>, buf: Seq<u8>) -> VerdictValue {
    if buf.len() < TAG_LEN {
        VerdictValue::NeedMore
    } else if buf.subrange(0, TAG_LEN as int) != hmac_sha256_of(key, nounce) {
        VerdictValue::Refused
    } else {
        VerdictValue::Admitted { rest: buf.skip(TAG_LEN as int) }
    }
}

/// A client that holds the key of the server is admitted with its answer,
/// and what it sends after the answer is what the server hands on.
pub proof fn lemma_answer_admitted(key: Seq<u8>, nounce: Seq<u8>, more: Seq<u8>)
    requires
        nounce.len() == NOUNCE_LEN,
        hmac_sha256_of(key, nounce).len() == TAG_LEN,
    ensures
        answer(key, nounce) matches AnswerValue::Reply { tag } && verdict(key, nounce, tag + more)
            == (VerdictValue::Admitted { rest: more }),
{
    let tag = hmac_sha256_of(key, nounce);
    assert((tag + more).subrange(0, TAG_LEN as int) =~= tag);
    assert((tag + more).skip(TAG_LEN as int) =~= more);
}

/// The server of the authentication by challenge.
pub struct Server {
    key: Vec<u8>,
}

impl Server {
    #[verifier::type_invariant]
    spec fn key_fits(self) -> bool {
        self.key@.len() <= INPUT_LIMIT
    }

    /// The key that is shared with the other side.
    pub closed spec fn key(&self) -> Seq<u8> {
        self.key@
    }

    /// A server that holds `key`.
    pub fn new(key: Vec<u8>) -> (s: Server)
        requires
            key@.len() <= INPUT_LIMIT,
        ensures
            s.key() == key@,
    {
        Server { key }
    }

    /// A fresh challenge for a stream, or nothing where the system gives no
    /// random bytes.
    pub fn challenge(&self) -> (nounce: Option<Vec<u8>>)
        ensures
            nounce matches Some(n) ==> n@.len() == NOUNCE_LEN,
    {
        system_random(NOUNCE_LEN)
    }

    /// Judges the bytes that a client sent in answer to the challenge
    /// `nounce`.
    pub fn check(&self, nounce: &[u8], buf: &[u8]) -> (v: Verdict)
        requires
            nounce@.len() <= INPUT_LIMIT,
        ensures
            v@ == verdict(self.key(), nounce@, buf@),
    {
        proof {
            use_type_invariant(self);
        }
        if buf.len() < TAG_LEN {
            return Verdict::NeedMore;
        }
        let tag = copy_range(buf, 0, TAG_LEN);
        if !hmac_sha256_verify(self.key.as_slice(), nounce, tag.as_slice()) {
            return Verdict::Refused;
        }
        let rest = copy_range(buf, TAG_LEN, buf.len());
        assert(rest@ =~= buf@.skip(TAG_LEN as int));
        Verdict::Admitted { rest }
    }
}

} // verus!
