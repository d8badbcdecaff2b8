//! Authenticated encryption of a stream: each frame is sealed with its length in front.

use vstd::prelude::*;
use crate::components::Component;
use vstd::utf8::encode_utf8;
use crate::argument::{pairs_view, ArgValue, Argument};
use crate::bytes::{append, be16, be64, copy_range, push_be16, push_be64};
use crate::error::{Error, ErrorValue};
use crate::helper::{
    field_values, fit, list_len_at, list_len_of, misfit, misuse, parse_spec, text_at, text_of, Field,
    FieldValue, Kind,
};
use crate::primitives::{
    aead_open, aead_seal, lowercase, lowercase_of, opened_of, pbkdf2_of, pbkdf2_sha256,
    sealed_of, system_random, trimmed, trimmed_of, Cipher, INPUT_LIMIT, SEAL_TAG_LEN,
};

verus! {

/// The number of rounds in which a key is derived from a password.
pub const ROUNDS: u32 = 4096;

/// The length of the sealed length of a frame: two bytes and a tag.
pub const HEADER_LEN: usize = 18;

/// The longest frame that can be sent.
pub const MAX_FRAME: usize = 0x1_0000;

/// Which way a node works.
#[derive(Debug, Clone, Copy, PartialEq, Eq, Structural)]
pub enum Role {
    Encoder,
    Decoder,
}

/// The counter that gives each sealed piece of a stream its own nonce: the
/// four random bytes that the stream starts with, then the count.
pub struct Counter {
    iv: [u8; 4],
    count: u64,
}

/// The nonce for the piece with number `count` of a stream that starts with `iv`.
pub open spec fn nonce_of(iv: Seq<u8>, count: u64) -> Seq<u8> {
    iv + be64(count)
}

impl Counter {
    /// The four bytes that the stream starts with.
    pub closed spec fn iv(&self) -> Seq<u8> {
        self.iv@
    }

    /// The number of nonces that were handed out.
    pub closed spec fn count(&self) -> u64 {
        self.count
    }

    /// A counter for a stream that starts with `iv`.
    pub fn new(iv: [u8; 4]) -> (c: Counter)
        ensures
            c.iv() == iv@,
            c.count() == 0,
    {
        Counter { iv, count: 0 }
    }

    /// The counter for a sealed stream of which `buf` was received: the
    /// stream starts with the four bytes that its nonces start with. Gives
    /// nothing while fewer bytes are there.
    pub fn from_stream(buf: &[u8]) -> (c: Option<Counter>)
        ensures
            match c {
                Some(counter) => buf@.len() >= 4 && counter.iv() == buf@.subrange(0, 4)
                    && counter.count() == 0,
                None => buf@.len() < 4,
            },
    {
        if buf.len() < 4 {
            None
        } else {
            let iv = [buf[0], buf[1], buf[2], buf[3]];
            assert(iv@ =~= buf@.subrange(0, 4));
            Some(Counter { iv, count: 0 })
        }
    }

    /// The number of nonces that were handed out.
    pub fn used(&self) -> (n: u64)
        ensures
            n == self.count(),
    {
        self.count
    }

    /// The next nonce, or nothing when all the nonces are used up.
    pub fn advance(&mut self) -> (nonce: Option<[u8; 12]>)
        ensures
            final(self).iv() == old(self).iv(),
            match nonce {
                Some(n) => old(self).count() < u64::MAX && n@ == nonce_of(
                    old(self).iv(),
                    old(self).count(),
                ) && final(self).count() == old(self).count() + 1,
                None => old(self).count() == u64::MAX && final(self).count() == old(self).count(),
            },
    {
        if self.count == u64::MAX {
            return None;
        }
        let mut tail: Vec<u8> = Vec::new();
        push_be64(&mut tail, self.count);
        assert(tail@ =~= be64(self.count));
        let nonce: [u8; 12] = [
            self.iv[0],
            self.iv[1],
            self.iv[2],
            self.iv[3],
            tail[0],
            tail[1],
            tail[2],
            tail[3],
            tail[4],
            tail[5],
            tail[6],
            tail[7],
        ];
        assert(nonce@ =~= nonce_of(self.iv@, self.count));
        self.count = self.count + 1;
        Some(nonce)
    }
}

/// A node that seals or opens a stream.
pub struct Actor {
    key: Vec<u8>,
    algo: Cipher,
    role: Role,
}

/// The algorithm that a name stands for, the name being in lower case and
/// without white space round it.
pub open spec fn cipher_of(name: Seq<char>) -> Option<Cipher> {
    if name == ""@ || name == "chacha20"@ || name == "chacha20_poly1305"@ {
        Some(Cipher::ChaCha20Poly1305)
    } else if name == "aes_128_gcm"@ {
        Some(Cipher::Aes128Gcm)
    } else if name == "aes"@ || name == "aes_gcm"@ || name == "aes_256_gcm"@ {
        Some(Cipher::Aes256Gcm)
    } else {
        None
    }
}

/// The way that a function name stands for.
pub open spec fn role_of(function: Option<Seq<char>>) -> Option<Role> {
    if function == Some("aead_encode"@) {
        Some(Role::Encoder)
    } else if function == Some("aead_decode"@) {
        Some(Role::Decoder)
    } else {
        None
    }
}

/// The fields that the component declares.
pub open spec fn fields() -> Seq<FieldValue> {
    seq![
        FieldValue { name: "key"@, kind: Kind::Str },
        FieldValue { name: "algorithm"@, kind: Kind::Str },
        FieldValue { name: "salt"@, kind: Kind::Str },
        FieldValue { name: "outputs"@, kind: Kind::List },
        FieldValue { name: "function_name"@, kind: Kind::Str },
    ]
}


/// What a node is made of.
pub struct ActorValue {
    pub key: Seq<u8>,
    pub algo: Cipher,
    pub role: Role,
}

/// What the arguments make of the component, or the misuse that is
/// reported. The key is derived from the password `key` and from `salt`, for
/// which a fixed text stands in where none is given, and has the length that
/// the algorithm asks for. The name of the algorithm is read in lower case
/// and without the white space round it; no name stands for ChaCha20.
pub open spec fn create_spec(args: Seq<(Seq<char>, ArgValue)>) -> Result<ActorValue, ErrorValue> {
    match parse_spec(fields(), args) {
        Err(e) => Err(misfit(e)),
        Ok(values) => if list_len_of(values, 3) != Some(1nat) {
            Err(misuse("aead must have exactly 1 output"@))
        } else if text_of(values, 0) is None {
            Err(misuse("aead needs a key"@))
        } else {
            let pass = encode_utf8(text_of(values, 0).unwrap());
            let salt = match text_of(values, 2) {
                Some(s) => encode_utf8(s),
                None => encode_utf8("sopipe_is_good"@),
            };
            let name = match text_of(values, 1) {
                Some(n) => trimmed_of(lowercase_of(n)),
                None => ""@,
            };
            if pass.len() > INPUT_LIMIT || salt.len() > INPUT_LIMIT {
                Err(misuse("aead: key or salt too long"@))
            } else {
                match (cipher_of(name), role_of(text_of(values, 4))) {
                    (None, _) => Err(misuse("unknown cipher"@)),
                    (Some(_), None) => Err(misuse("unknown function"@)),
                    (Some(algo), Some(role)) => Ok(
                        ActorValue {
                            key: pbkdf2_of(ROUNDS, salt, pass, algo.spec_key_len()),
                            algo,
                            role,
                        },
                    ),
                }
            }
        },
    }
}

fn same(text: &str, wanted: &str) -> (r: bool)
    ensures
        r == (text@ == wanted@),
{
    String::from_str(text) == String::from_str(wanted)
}

/// The algorithm that a name stands for, the name being in lower case and
/// without white space round it; see [`cipher_of`].
pub fn cipher_named(name: &str) -> (r: Option<Cipher>)
    ensures
        r == cipher_of(name@),
{
    if same(name, "") || same(name, "chacha20") || same(name, "chacha20_poly1305") {
        Some(Cipher::ChaCha20Poly1305)
    } else if same(name, "aes_128_gcm") {
        Some(Cipher::Aes128Gcm)
    } else if same(name, "aes") || same(name, "aes_gcm") || same(name, "aes_256_gcm") {
        Some(Cipher::Aes256Gcm)
    } else {
        None
    }
}

/// Derives the key of a node of `algo` from a password and a salt.
pub fn derive_key(algo: Cipher, salt: &[u8], pass: &[u8]) -> (key: Vec<u8>)
    requires
        salt@.len() <= INPUT_LIMIT,
        pass@.len() <= INPUT_LIMIT,
    ensures
        key@ == pbkdf2_of(ROUNDS, salt@, pass@, algo.spec_key_len()),
        key@.len() == algo.spec_key_len(),
{
    pbkdf2_sha256(ROUNDS, salt, pass, algo.key_len())
}

/// Makes the node that the pipeline asks for.
pub fn create(arguments: &[(String, Argument)]) -> (r: Result<Actor, Error>)
    ensures
        match create_spec(pairs_view(arguments@)) {
            Ok(a) => r is Ok && r->Ok_0@ == a,
            Err(e) => r is Err && r->Err_0@ == e,
        },
{
    let mut declared: Vec<Field> = Vec::new();
    declared.push(Field::new("key", Kind::Str));
    declared.push(Field::new("algorithm", Kind::Str));
    declared.push(Field::new("salt", Kind::Str));
    declared.push(Field::new("outputs", Kind::List));
    declared.push(Field::new("function_name", Kind::Str));
    assert(field_values(declared@) =~= fields());
    let values = match fit(arguments, declared.as_slice()) {
        Ok(values) => values,
        Err(e) => {
            return Err(e);
        },
    };
    match list_len_at(&values, 3) {
        Some(1) => {},
        _ => {
            return Err(Error::misused("aead must have exactly 1 output"));
        },
    }
    let pass: &[u8] = match text_at(&values, 0) {
        Some(text) => text.as_str().as_bytes(),
        None => {
            return Err(Error::misused("aead needs a key"));
        },
    };
    let salt: &[u8] = match text_at(&values, 2) {
        Some(text) => text.as_str().as_bytes(),
        None => "sopipe_is_good".as_bytes(),
    };
    let algo = match text_at(&values, 1) {
        Some(text) => {
            let lower = lowercase(text.as_str());
            cipher_named(trimmed(lower.as_str()))
        },
        None => cipher_named(""),
    };
    if pass.len() > INPUT_LIMIT || salt.len() > INPUT_LIMIT {
        return Err(Error::misused("aead: key or salt too long"));
    }
    let algo = match algo {
        Some(algo) => algo,
        None => {
            return Err(Error::misused("unknown cipher"));
        },
    };
    let role = match text_at(&values, 4) {
        Some(f) => {
            if same(f.as_str(), "aead_encode") {
                Role::Encoder
            } else if same(f.as_str(), "aead_decode") {
                Role::Decoder
            } else {
                return Err(Error::misused("unknown function"));
            }
        },
        None => {
            return Err(Error::misused("unknown function"));
        },
    };
    Ok(Actor { key: derive_key(algo, salt, pass), algo, role })
}

/// A frame as it is sent: its length less one, in two bytes, sealed with the
/// nonce number `count`, then the frame itself, sealed with the next nonce.
pub open spec fn sealed_frame(algo: Cipher, key: Seq<u8>, iv: Seq<u8>, count: u64, msg: Seq<u8>) -> Seq<
    u8,
> {
    sealed_of(algo.id(), key, nonce_of(iv, count), be16((msg.len() - 1) as u16)) + sealed_of(
        algo.id(),
        key,
        nonce_of(iv, (count + 1) as u64),
        msg,
    )
}

/// Why a frame is not sent.
#[derive(Debug, Clone, Copy, PartialEq, Eq, Structural)]
pub enum Unsealed {
    /// The frame is empty: there is nothing to send.
    Empty,
    /// The frame is longer than a sealed frame can be.
    TooLong,
    /// The nonces of the stream are used up.
    Exhausted,
}

impl Actor {
    #[verifier::type_invariant]
    spec fn key_fits(self) -> bool {
        self.key@.len() == self.algo.spec_key_len()
    }

    /// What the node is made of.
    pub closed spec fn view(&self) -> ActorValue {
        ActorValue { key: self.key@, algo: self.algo, role: self.role }
    }

    /// Which way the node works.
    pub fn role(&self) -> (r: Role)
        ensures
            r == self@.role,
    {
        self.role
    }

    /// The four bytes that a sealed stream starts with, or nothing where the
    /// system gives no random bytes.
    pub fn fresh_iv() -> (iv: Option<[u8; 4]>) {
        match system_random(4) {
            Some(bytes) => Some([bytes[0], bytes[1], bytes[2], bytes[3]]),
            None => None,
        }
    }

    /// Seals the next frame of a stream. An empty frame is not sent. What is
    /// sent for a frame opens to the frame, whatever follows it in the
    /// stream, and takes all the bytes that were sent for it.
    pub fn encode(&self, counter: &mut Counter, msg: &[u8]) -> (r: Result<Vec<u8>, Unsealed>)
        ensures
            final(counter).iv() == old(counter).iv(),
            match r {
                Ok(out) => 0 < msg@.len() <= MAX_FRAME && old(counter).count() < u64::MAX - 1
                    && out@ == sealed_frame(
                    self@.algo,
                    self@.key,
                    old(counter).iv(),
                    old(counter).count(),
                    msg@,
                ) && final(counter).count() == old(counter).count() + 2 && out@.len() == HEADER_LEN
                    + msg@.len() + SEAL_TAG_LEN && forall|more: Seq<u8>| #[trigger]
                    opened_frame(
                        self@.algo,
                        self@.key,
                        old(counter).iv(),
                        old(counter).count(),
                        out@ + more,
                    ) == (OpenedValue::Frame { data: msg@, consumed: out@.len() }),
                Err(Unsealed::Empty) => msg@.len() == 0 && final(counter).count() == old(
                    counter,
                ).count(),
                Err(Unsealed::TooLong) => msg@.len() > MAX_FRAME && final(counter).count() == old(
                    counter,
                ).count(),
                Err(Unsealed::Exhausted) => 0 < msg@.len() <= MAX_FRAME && old(counter).count()
                    >= u64::MAX - 1 && final(counter).count() == old(counter).count(),
            },
    {
        proof {
            use_type_invariant(self);
        }
        if msg.len() == 0 {
            return Err(Unsealed::Empty);
        }
        if msg.len() > MAX_FRAME {
            return Err(Unsealed::TooLong);
        }
        if counter.used() >= u64::MAX - 1 {
            return Err(Unsealed::Exhausted);
        }
        let first = match counter.advance() {
            Some(n) => n,
            None => {
                return Err(Unsealed::Exhausted);
            },
        };
        let second = match counter.advance() {
            Some(n) => n,
            None => {
                return Err(Unsealed::Exhausted);
            },
        };
        let mut length: Vec<u8> = Vec::new();
        push_be16(&mut length, (msg.len() - 1) as u16);
        assert(length@ =~= be16((msg@.len() - 1) as u16));
        let mut out = aead_seal(self.algo, self.key.as_slice(), &first, length.as_slice());
        let body = aead_seal(self.algo, self.key.as_slice(), &second, msg);
        append(&mut out, body.as_slice());
        proof {
            let iv = old(counter).iv();
            let count = old(counter).count();
            assert(out@ == sealed_frame(self@.algo, self@.key, iv, count, msg@));
            assert forall|more: Seq<u8>| #[trigger]
                opened_frame(self@.algo, self@.key, iv, count, out@ + more) == (
                OpenedValue::Frame { data: msg@, consumed: out@.len() }) by {
                lemma_frame_round_trip(self@.algo, self@.key, iv, count, msg@, more);
            }
        }
        Ok(out)
    }
}

/// What the opening side makes of the bytes received so far.
pub enum Opened {
    /// More bytes are needed.
    NeedMore,
    /// A frame is complete; `consumed` bytes of the buffer are done with.
    Frame { data: Vec<u8>, consumed: usize },
    /// A piece does not open: the stream fails.
    Failed,
}

/// What an [`Opened`] stands for.
pub enum OpenedValue {
    NeedMore,
    Frame { data: Seq<u8>, consumed: nat },
    Failed,
}

impl View for Opened {
    type V = OpenedValue;

    open spec fn view(&self) -> OpenedValue {
        match self {
            Opened::NeedMore => OpenedValue::NeedMore,
            Opened::Frame { data, consumed } => OpenedValue::Frame {
                data: data@,
                consumed: *consumed as nat,
            },
            Opened::Failed => OpenedValue::Failed,
        }
    }
}

/// The length of the frame that an opened header announces.
pub open spec fn announced(header: Seq<u8>) -> nat {
    (header[0] * 256 + header[1] + 1) as nat
}

/// The next frame in `buf`, the bytes of a sealed stream that follow its
/// first four, when `count` nonces were used before: the header is opened
/// with the nonce number `count`, and the frame, of the length that the
/// header gives, with the next.
pub open spec fn opened_frame(algo: Cipher, key: Seq<u8>, iv: Seq<u8>, count: u64, buf: Seq<u8>) -> OpenedValue {
    if buf.len() < HEADER_LEN {
        OpenedValue::NeedMore
    } else {
        match opened_of(algo.id(), key, nonce_of(iv, count), buf.subrange(0, HEADER_LEN as int)) {
            None => OpenedValue::Failed,
            Some(header) => if header.len() != 2 {
                OpenedValue::Failed
            } else {
                let total = HEADER_LEN + announced(header) + SEAL_TAG_LEN;
                if buf.len() < total {
                    OpenedValue::NeedMore
                } else {
                    match opened_of(
                        algo.id(),
                        key,
                        nonce_of(iv, (count + 1) as u64),
                        buf.subrange(HEADER_LEN as int, total as int),
                    ) {
                        None => OpenedValue::Failed,
                        Some(data) => OpenedValue::Frame { data, consumed: total as nat },
                    }
                }
            },
        }
    }
}

/// A frame that was sealed opens to itself, and takes all its bytes, whatever
/// follows it, as long as a sealed piece opens to what was sealed.
pub proof fn lemma_frame_round_trip(
    algo: Cipher,
    key: Seq<u8>,
    iv: Seq<u8>,
    count: u64,
    msg: Seq<u8>,
    more: Seq<u8>,
)
    requires
        0 < msg.len() <= MAX_FRAME,
        count < u64::MAX,
        ({
            let header = be16((msg.len() - 1) as u16);
            let sealed = sealed_of(algo.id(), key, nonce_of(iv, count), header);
            sealed.len() == HEADER_LEN && opened_of(algo.id(), key, nonce_of(iv, count), sealed)
                == Some(header)
        }),
        ({
            let sealed = sealed_of(algo.id(), key, nonce_of(iv, (count + 1) as u64), msg);
            sealed.len() == msg.len() + SEAL_TAG_LEN && opened_of(
                algo.id(),
                key,
                nonce_of(iv, (count + 1) as u64),
                sealed,
            ) == Some(msg)
        }),
    ensures
        opened_frame(algo, key, iv, count, sealed_frame(algo, key, iv, count, msg) + more) == (
        OpenedValue::Frame { data: msg, consumed: sealed_frame(algo, key, iv, count, msg).len() }),
{
    let header = be16((msg.len() - 1) as u16);
    let first = sealed_of(algo.id(), key, nonce_of(iv, count), header);
    let second = sealed_of(algo.id(), key, nonce_of(iv, (count + 1) as u64), msg);
    let buf = first + second + more;
    assert(buf.subrange(0, HEADER_LEN as int) =~= first);
    let n = (msg.len() - 1) as int;
    assert(header[0] == (n / 256) as u8 && header[1] == (n % 256) as u8);
    assert(announced(header) == msg.len());
    let total = HEADER_LEN + msg.len() + SEAL_TAG_LEN;
    assert(buf.subrange(HEADER_LEN as int, total as int) =~= second);
    assert(sealed_frame(algo, key, iv, count, msg) + more =~= buf);
}

impl Actor {
    /// Opens the next frame in `buf`, the bytes received and not done with,
    /// behind the first four of the stream. The counter moves only when a
    /// frame comes out.
    pub fn decode(&self, counter: &mut Counter, buf: &[u8]) -> (r: Opened)
        requires
            old(counter).count() < u64::MAX - 1,
        ensures
            final(counter).iv() == old(counter).iv(),
            r@ == opened_frame(
                self@.algo,
                self@.key,
                old(counter).iv(),
                old(counter).count(),
                buf@,
            ),
            final(counter).count() == if r is Frame {
                old(counter).count() + 2
            } else {
                old(counter).count() as int
            },
    {
        proof {
            use_type_invariant(self);
        }
        if buf.len() < HEADER_LEN {
            return Opened::NeedMore;
        }
        let mut probe = Counter { iv: counter.iv, count: counter.count };
        let first = match probe.advance() {
            Some(n) => n,
            None => {
                return Opened::Failed;
            },
        };
        let second = match probe.advance() {
            Some(n) => n,
            None => {
                return Opened::Failed;
            },
        };
        let sealed_header = copy_range(buf, 0, HEADER_LEN);
        let header = match aead_open(self.algo, self.key.as_slice(), &first, sealed_header.as_slice()) {
            Some(header) => header,
            None => {
                return Opened::Failed;
            },
        };
        if header.len() != 2 {
            return Opened::Failed;
        }
        let length: usize = header[0] as usize * 256 + header[1] as usize + 1;
        let total: usize = HEADER_LEN + length + SEAL_TAG_LEN;
        if buf.len() < total {
            return Opened::NeedMore;
        }
        let sealed_body = copy_range(buf, HEADER_LEN, total);
        match aead_open(self.algo, self.key.as_slice(), &second, sealed_body.as_slice()) {
            Some(data) => {
                counter.count = probe.count;
                Opened::Frame { data, consumed: total }
            },
            None => Opened::Failed,
        }
    }
}

/// The component, as it is registered with the pipeline.
pub fn init() -> (c: Component)
    ensures
        c == Component::Aead,
{
    Component::Aead
}

} // verus!
