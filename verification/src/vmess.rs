//! The client side of VMess: the request that opens a stream, and the encrypted chunks of its data.

use vstd::prelude::*;
use crate::components::Component;
use crate::address::{Addr, AddrValue};
use crate::bytes::{
    append, be16, be32, be64, copy_range, from_be32, push_be16, push_be32, push_be64,
};
use crate::argument::{pairs_view, Argument};
use crate::error::{Error, ErrorKind, ErrorValue};
use crate::helper::{
    fit, list_len_at, list_len_of, misfit, parse_spec, text_at, text_of, Field, FieldValue, Kind,
};
use crate::text::chars_of;
use crate::primitives::{
    aes128_encrypt, aes128_of, hmac_md5, hmac_md5_of, md5, md5_of, random_block,
};

verus! {

/// One step of the FNV-1a hash of 32 bits.
pub open spec fn fnv1a_step(hash: u32, byte: u8) -> u32 {
    (((hash ^ (byte as u32)) as int * 16777619) % 0x1_0000_0000) as u32
}

/// The FNV-1a hash of 32 bits of `x`.
pub open spec fn fnv1a_of(x: Seq<u8>) -> u32
    decreases x.len(),
{
    if x.len() == 0 {
        0x811c9dc5
    } else {
        fnv1a_step(fnv1a_of(x.drop_last()), x.last())
    }
}

/// Computes the FNV-1a hash of 32 bits of `x`.
pub fn fnv1a(x: &[u8]) -> (hash: u32)
    ensures
        hash == fnv1a_of(x@),
{
    let prime: u32 = 16777619;
    let mut hash: u32 = 0x811c9dc5;
    let mut i: usize = 0;
    assert(x@.take(0) =~= Seq::<u8>::empty());
    while i < x.len()
        invariant
            i <= x@.len(),
            prime == 16777619,
            hash == fnv1a_of(x@.take(i as int)),
        decreases x@.len() - i,
    {
        assert(x@.take(i + 1).drop_last() =~= x@.take(i as int));
        hash = hash ^ (x[i] as u32);
        hash = hash.wrapping_mul(prime);
        i += 1;
    }
    assert(x@.take(x@.len() as int) =~= x@);
    hash
}

/// The state of an AES-128 cipher in CFB mode: the key, the block of sixteen
/// bytes that is mixed into the data, and the place in it of the next byte.
pub struct CfbState {
    pub key: Seq<u8>,
    pub block: Seq<u8>,
    pub p: nat,
}

impl CfbState {
    /// The state in which the next byte is mixed: where the block is used
    /// up, it is encrypted anew.
    pub open spec fn ready(self) -> CfbState {
        if self.p == 16 {
            CfbState { key: self.key, block: aes128_of(self.key, self.block), p: 0 }
        } else {
            self
        }
    }

    /// The byte that `byte` is turned into, in either direction.
    pub open spec fn mixed(self, byte: u8) -> u8 {
        byte ^ self.ready().block[self.ready().p as int]
    }

    /// The state after `cipher`, a byte of the encrypted stream, has passed.
    pub open spec fn after(self, cipher: u8) -> CfbState {
        let s = self.ready();
        CfbState { key: s.key, block: s.block.update(s.p as int, cipher), p: s.p + 1 }
    }

    /// The encryption of `data`.
    pub open spec fn encoded(self, data: Seq<u8>) -> Seq<u8>
        decreases data.len(),
    {
        if data.len() == 0 {
            Seq::empty()
        } else {
            let head = self.encoded(data.drop_last());
            head.push(self.after_all(head).mixed(data.last()))
        }
    }

    /// The decryption of `cipher`.
    pub open spec fn decoded(self, cipher: Seq<u8>) -> Seq<u8>
        decreases cipher.len(),
    {
        if cipher.len() == 0 {
            Seq::empty()
        } else {
            self.decoded(cipher.drop_last()).push(
                self.after_all(cipher.drop_last()).mixed(cipher.last()),
            )
        }
    }

    /// The state after the bytes `cipher` of the encrypted stream have passed.
    pub open spec fn after_all(self, cipher: Seq<u8>) -> CfbState
        decreases cipher.len(),
    {
        if cipher.len() == 0 {
            self
        } else {
            self.after_all(cipher.drop_last()).after(cipher.last())
        }
    }
}

/// The encryption has the length of the data.
pub proof fn lemma_encoded_len(s: CfbState, data: Seq<u8>)
    ensures
        s.encoded(data).len() == data.len(),
    decreases data.len(),
{
    if data.len() > 0 {
        lemma_encoded_len(s, data.drop_last());
    }
}

/// The decryption has the length of the encrypted bytes.
pub proof fn lemma_decoded_len(s: CfbState, cipher: Seq<u8>)
    ensures
        s.decoded(cipher).len() == cipher.len(),
    decreases cipher.len(),
{
    if cipher.len() > 0 {
        lemma_decoded_len(s, cipher.drop_last());
    }
}

/// Decrypting what was encrypted, from the same state, gives the data back.
pub proof fn lemma_cfb_round_trip(s: CfbState, data: Seq<u8>)
    ensures
        s.decoded(s.encoded(data)) == data,
    decreases data.len(),
{
    if data.len() > 0 {
        let head = data.drop_last();
        let c_head = s.encoded(head);
        lemma_cfb_round_trip(s, head);
        lemma_encoded_len(s, head);
        let st = s.after_all(c_head);
        let b = data.last();
        let c = st.mixed(b);
        let k = st.ready().block[st.ready().p as int];
        assert((b ^ k) ^ k == b) by (bit_vector);
        assert(s.encoded(data) == c_head.push(c));
        assert(s.encoded(data).drop_last() =~= c_head);
        assert(s.decoded(s.encoded(data)) =~= data);
    } else {
        assert(s.decoded(s.encoded(data)) =~= data);
    }
}

/// The cipher of the VMess data stream: AES-128 in CFB mode, byte by byte.
#[derive(Debug)]
pub struct AES128CFB {
    key: [u8; 16],
    state: [u8; 16],
    p: usize,
}

impl View for AES128CFB {
    type V = CfbState;

    closed spec fn view(&self) -> CfbState {
        CfbState { key: self.key@, block: self.state@, p: self.p as nat }
    }
}

impl AES128CFB {
    #[verifier::type_invariant]
    spec fn in_block(self) -> bool {
        self.p <= 16
    }

    /// A cipher that starts from the initial vector `iv`.
    pub fn new(key: [u8; 16], iv: [u8; 16]) -> (c: AES128CFB)
        ensures
            c@ == (CfbState { key: key@, block: iv@, p: 16 }),
    {
        AES128CFB { key, state: iv, p: 16 }
    }

    /// Encrypts `data` in place.
    pub fn encode(&mut self, data: &mut Vec<u8>)
        ensures
            final(data)@ == old(self)@.encoded(old(data)@),
            final(self)@ == old(self)@.after_all(final(data)@),
    {
        let ghost start = self@;
        let ghost plain = data@;
        let mut key = self.key;
        let mut state = self.state;
        let mut p = self.p;
        proof {
            use_type_invariant(&*self);
        }
        let mut i: usize = 0;
        assert(plain.take(0) =~= Seq::<u8>::empty());
        while i < data.len()
            invariant
                i <= data@.len(),
                data@.len() == plain.len(),
                p <= 16,
                key@ == start.key,
                data@.take(i as int) == start.encoded(plain.take(i as int)),
                data@.skip(i as int) == plain.skip(i as int),
                (CfbState { key: key@, block: state@, p: p as nat }) == start.after_all(
                    data@.take(i as int),
                ),
            decreases data@.len() - i,
        {
            let ghost st = CfbState { key: key@, block: state@, p: p as nat };
            let ghost done = data@.take(i as int);
            if p == 16 {
                state = aes128_encrypt(&key, &state);
                p = 0;
            }
            let byte = data[i];
            assert(byte == plain[i as int]) by {
                assert(data@.skip(i as int)[0] == plain.skip(i as int)[0]);
            }
            let mixed = byte ^ state[p];
            let ghost rest = data@.skip(i as int);
            data.set(i, mixed);
            state[p] = mixed;
            p += 1;
            i += 1;
            proof {
                assert(plain.take(i as int).drop_last() =~= plain.take(i - 1));
                assert(data@.take(i as int) =~= done.push(mixed));
                assert(data@.take(i as int).drop_last() =~= done);
                assert forall|k: int| 0 <= k < data@.len() - i implies data@.skip(i as int)[k]
                    == plain.skip(i as int)[k] by {
                    assert(rest[k + 1] == plain.skip(i - 1)[k + 1]);
                }
                assert(data@.skip(i as int) =~= plain.skip(i as int));
                assert((CfbState { key: key@, block: state@, p: p as nat }) == st.after(mixed));
            }
        }
        proof {
            assert(data@.take(data@.len() as int) =~= data@);
            assert(plain.take(plain.len() as int) =~= plain);
        }
        self.state = state;
        self.p = p;
    }

    /// Decrypts `data` in place.
    pub fn decode(&mut self, data: &mut Vec<u8>)
        ensures
            final(data)@ == old(self)@.decoded(old(data)@),
            final(self)@ == old(self)@.after_all(old(data)@),
    {
        let ghost start = self@;
        let ghost cipher = data@;
        let mut key = self.key;
        let mut state = self.state;
        let mut p = self.p;
        proof {
            use_type_invariant(&*self);
        }
        let mut i: usize = 0;
        assert(cipher.take(0) =~= Seq::<u8>::empty());
        while i < data.len()
            invariant
                i <= data@.len(),
                data@.len() == cipher.len(),
                p <= 16,
                key@ == start.key,
                data@.take(i as int) == start.decoded(cipher.take(i as int)),
                data@.skip(i as int) == cipher.skip(i as int),
                (CfbState { key: key@, block: state@, p: p as nat }) == start.after_all(
                    cipher.take(i as int),
                ),
            decreases data@.len() - i,
        {
            let ghost st = CfbState { key: key@, block: state@, p: p as nat };
            let ghost done = data@.take(i as int);
            if p == 16 {
                state = aes128_encrypt(&key, &state);
                p = 0;
            }
            let byte = data[i];
            assert(byte == cipher[i as int]) by {
                assert(data@.skip(i as int)[0] == cipher.skip(i as int)[0]);
            }
            let mixed = byte ^ state[p];
            let ghost rest = data@.skip(i as int);
            data.set(i, mixed);
            state[p] = byte;
            p += 1;
            i += 1;
            proof {
                assert(cipher.take(i as int).drop_last() =~= cipher.take(i - 1));
                assert(cipher.take(i as int).last() == byte);
                assert(data@.take(i as int) =~= done.push(mixed));
                assert forall|k: int| 0 <= k < data@.len() - i implies data@.skip(i as int)[k]
                    == cipher.skip(i as int)[k] by {
                    assert(rest[k + 1] == cipher.skip(i - 1)[k + 1]);
                }
                assert(data@.skip(i as int) =~= cipher.skip(i as int));
                assert((CfbState { key: key@, block: state@, p: p as nat }) == st.after(byte));
            }
        }
        proof {
            assert(data@.take(data@.len() as int) =~= data@);
            assert(cipher.take(cipher.len() as int) =~= cipher);
        }
        self.state = state;
        self.p = p;
    }
}

/// The bytes of the text that is hashed with the user's identifier into the
/// key of the request header.
pub open spec fn magic() -> Seq<u8> {
    seq![99u8, 52u8, 56u8, 54u8, 49u8, 57u8, 102u8, 101u8, 45u8, 56u8, 102u8, 48u8, 50u8, 45u8, 52u8, 57u8, 101u8, 48u8, 45u8, 98u8, 57u8, 101u8, 57u8, 45u8, 101u8, 100u8, 102u8, 55u8, 54u8, 51u8, 101u8, 49u8, 55u8, 101u8, 50u8, 49u8]
}

/// The address as the request header writes it: its type, then its bytes, a
/// domain name with its length in one byte before it.
pub open spec fn addr_bytes(addr: AddrValue) -> Seq<u8> {
    match addr {
        AddrValue::V4(x) => seq![1u8] + x,
        AddrValue::V6(x) => seq![3u8] + x,
        AddrValue::Domain(x) => seq![2u8, (x.len() % 256) as u8] + x,
    }
}

/// The request header before its checksum: version 1, the initial vector and
/// the key of the data stream, the response code 39, the option for the
/// standard format, the cipher AES-128-CFB with no padding, a reserved byte,
/// the command for TCP, the port and the address.
pub open spec fn request_body(addr: AddrValue, port: u16, key: Seq<u8>, iv: Seq<u8>) -> Seq<u8> {
    seq![1u8] + iv + key + seq![39u8, 1u8, 1u8, 0u8, 1u8] + be16(port) + addr_bytes(addr)
}

/// The key under which the request header is encrypted.
pub open spec fn header_key(user_id: Seq<u8>) -> Seq<u8> {
    md5_of(user_id + magic())
}

/// The initial vector with which the request header is encrypted.
pub open spec fn header_iv(time: u64) -> Seq<u8> {
    md5_of(be64(time) + be64(time) + be64(time) + be64(time))
}

/// The message that opens a stream: the code that authenticates the user at
/// the time `time`, in seconds, then the request header with its checksum,
/// encrypted.
pub open spec fn handshake(
    user_id: Seq<u8>,
    addr: AddrValue,
    port: u16,
    key: Seq<u8>,
    iv: Seq<u8>,
    time: u64,
) -> Seq<u8> {
    let body = request_body(addr, port, key, iv);
    let cipher = CfbState { key: header_key(user_id), block: header_iv(time), p: 16 };
    hmac_md5_of(user_id, be64(time)) + cipher.encoded(body + be32(fnv1a_of(body)))
}

/// A chunk of the data stream before it is encrypted: the length of what
/// follows it in two bytes, the checksum of the data, and the data.
pub open spec fn chunk(data: Seq<u8>) -> Seq<u8> {
    be16(((data.len() + 4) % 0x1_0000) as u16) + be32(fnv1a_of(data)) + data
}

/// Builds the message that opens a stream to `addr` and `port`.
pub fn forward_handshake_msg(
    user_id: [u8; 16],
    addr: Addr,
    port: u16,
    key: [u8; 16],
    iv: [u8; 16],
    time: u64,
) -> (msg: Vec<u8>)
    ensures
        msg@ == handshake(user_id@, addr@, port, key@, iv@, time),
{
    let mut stamp: Vec<u8> = Vec::new();
    push_be64(&mut stamp, time);
    assert(stamp@ =~= be64(time));
    let auth = hmac_md5(user_id.as_slice(), stamp.as_slice());

    let mut body: Vec<u8> = Vec::new();
    body.push(1);
    append(&mut body, iv.as_slice());
    append(&mut body, key.as_slice());
    body.push(39);
    body.push(1);
    body.push(1);
    body.push(0);
    body.push(1);
    push_be16(&mut body, port);
    match &addr {
        Addr::V4(x) => {
            body.push(1);
            append(&mut body, x.as_slice());
        },
        Addr::V6(x) => {
            body.push(3);
            append(&mut body, x.as_slice());
        },
        Addr::Domain(x) => {
            body.push(2);
            body.push((x.len() % 256) as u8);
            append(&mut body, x.as_slice());
        },
    }
    assert(body@ =~= request_body(addr@, port, key@, iv@));
    let ghost plain = body@;
    let checksum = fnv1a(body.as_slice());
    push_be32(&mut body, checksum);

    let salt: [u8; 36] = [99, 52, 56, 54, 49, 57, 102, 101, 45, 56, 102, 48, 50, 45, 52, 57, 101, 48, 45, 98, 57, 101, 57, 45, 101, 100, 102, 55, 54, 51, 101, 49, 55, 101, 50, 49];
    let mut seed: Vec<u8> = Vec::new();
    append(&mut seed, user_id.as_slice());
    append(&mut seed, salt.as_slice());
    assert(seed@ =~= user_id@ + magic());
    let mut times: Vec<u8> = Vec::new();
    push_be64(&mut times, time);
    push_be64(&mut times, time);
    push_be64(&mut times, time);
    push_be64(&mut times, time);
    assert(times@ =~= be64(time) + be64(time) + be64(time) + be64(time));
    let mut cipher = AES128CFB::new(md5(seed.as_slice()), md5(times.as_slice()));
    cipher.encode(&mut body);

    let mut msg: Vec<u8> = Vec::new();
    append(&mut msg, auth.as_slice());
    append(&mut msg, body.as_slice());
    assert(msg@ =~= handshake(user_id@, addr@, port, key@, iv@, time));
    msg
}

proof fn lemma_chunk_len(n: nat)
    ensures
        (n % 0x1_0000 + 4) % 0x1_0000 == (n + 4) % 0x1_0000,
{
}

/// Builds the next chunk of the data stream from `data` and encrypts it.
pub fn forward_msg(encoder: &mut AES128CFB, data: &[u8]) -> (msg: Vec<u8>)
    ensures
        msg@ == old(encoder)@.encoded(chunk(data@)),
        final(encoder)@ == old(encoder)@.after_all(msg@),
{
    let len: u16 = ((data.len() % 0x1_0000 + 4) % 0x1_0000) as u16;
    proof {
        lemma_chunk_len(data@.len());
    }
    let mut buf: Vec<u8> = Vec::new();
    push_be16(&mut buf, len);
    push_be32(&mut buf, fnv1a(data));
    append(&mut buf, data);
    assert(buf@ =~= chunk(data@));
    encoder.encode(&mut buf);
    buf
}

/// The cipher with which the answers of the server are decrypted: its key
/// and its initial vector are the MD5 digests of those of the request.
pub fn response_cipher(key: &[u8; 16], iv: &[u8; 16]) -> (c: AES128CFB)
    ensures
        c@ == (CfbState { key: md5_of(key@), block: md5_of(iv@), p: 16 }),
{
    AES128CFB::new(md5(key.as_slice()), md5(iv.as_slice()))
}

/// A fresh key and a fresh initial vector for the data of one stream.
pub fn session_secrets() -> (r: ([u8; 16], [u8; 16])) {
    (random_block(), random_block())
}

/// The bytes received from the server and not read yet.
pub struct BufReader {
    buffer: Vec<u8>,
    pos: usize,
}

impl View for BufReader {
    type V = Seq<u8>;

    closed spec fn view(&self) -> Seq<u8> {
        self.buffer@.skip(self.pos as int)
    }
}

impl BufReader {
    #[verifier::type_invariant]
    spec fn in_buffer(self) -> bool {
        self.pos <= self.buffer@.len()
    }

    /// A reader that holds nothing yet.
    pub fn new() -> (r: BufReader)
        ensures
            r@ == Seq::<u8>::empty(),
    {
        let r = BufReader { buffer: Vec::new(), pos: 0 };
        assert(r@ =~= Seq::<u8>::empty());
        r
    }

    /// Adds a message that was received.
    pub fn feed(&mut self, mail: &[u8])
        ensures
            final(self)@ == old(self)@ + mail@,
    {
        proof {
            use_type_invariant(&*self);
        }
        let mut buffer = copy_range(self.buffer.as_slice(), self.pos, self.buffer.len());
        append(&mut buffer, mail);
        assert(buffer@.skip(0) =~= buffer@);
        assert(buffer@ =~= self@ + mail@);
        self.pos = 0;
        self.buffer = buffer;
    }

    /// Takes all that is there, if anything is.
    pub fn take(&mut self) -> (r: Option<Vec<u8>>)
        ensures
            final(self)@ == Seq::<u8>::empty(),
            match r {
                Some(bytes) => bytes@ == old(self)@ && bytes@.len() > 0,
                None => old(self)@.len() == 0,
            },
    {
        proof {
            use_type_invariant(&*self);
        }
        if self.pos == self.buffer.len() {
            assert(self@ =~= Seq::<u8>::empty());
            return None;
        }
        let rest = copy_range(self.buffer.as_slice(), self.pos, self.buffer.len());
        assert(rest@ =~= self@);
        self.pos = 0;
        self.buffer = Vec::new();
        assert(self@ =~= Seq::<u8>::empty());
        Some(rest)
    }

    /// Reads `len` bytes, if so many are there; else nothing is read.
    pub fn read_exact(&mut self, len: usize) -> (r: Option<Vec<u8>>)
        ensures
            match r {
                Some(bytes) => old(self)@.len() >= len && bytes@ == old(self)@.take(len as int)
                    && final(self)@ == old(self)@.skip(len as int),
                None => old(self)@.len() < len && final(self)@ == old(self)@,
            },
    {
        proof {
            use_type_invariant(&*self);
        }
        if self.buffer.len() - self.pos < len {
            return None;
        }
        let bytes = copy_range(self.buffer.as_slice(), self.pos, self.pos + len);
        assert(bytes@ =~= self@.take(len as int));
        let ghost before = self@;
        self.pos = self.pos + len;
        assert(self@ =~= before.skip(len as int));
        Some(bytes)
    }
}

/// Where the reading of the server's answers stands.
#[derive(Debug, Clone, Copy, PartialEq, Eq, Structural)]
pub enum Stage {
    /// The four bytes of the response header are awaited.
    Head,
    /// The command of the response header, `len` bytes, is awaited.
    Command { len: usize },
    /// The length and the checksum of the next chunk are awaited.
    Length,
    /// The `len` bytes of data of a chunk are awaited, whose checksum is
    /// `checksum`.
    Body { len: usize, checksum: u32 },
    /// The stream has failed.
    Failed,
}

/// What a step of the reading gives.
pub enum Received {
    /// More bytes are needed for this stage.
    NeedMore,
    /// The stage is done; go on with the next.
    Advanced,
    /// A chunk of data is complete.
    Data(Vec<u8>),
    /// The stream has failed: the response does not answer the request, a
    /// chunk is too short, or a checksum is wrong.
    Failed,
}

/// The reader of the stream of answers of the server.
pub struct Receiver {
    reader: BufReader,
    decoder: AES128CFB,
    stage: Stage,
}

impl Receiver {
    /// The bytes received and not read yet.
    pub closed spec fn pending(&self) -> Seq<u8> {
        self.reader@
    }

    /// The state of the cipher that decrypts the answers.
    pub closed spec fn cipher(&self) -> CfbState {
        self.decoder@
    }

    /// Where the reading stands.
    pub closed spec fn stage(&self) -> Stage {
        self.stage
    }

    /// A receiver for a stream whose request had `key` and `iv`.
    pub fn new(key: &[u8; 16], iv: &[u8; 16]) -> (r: Receiver)
        ensures
            r.pending() == Seq::<u8>::empty(),
            r.stage() == Stage::Head,
            r.cipher() == (CfbState { key: md5_of(key@), block: md5_of(iv@), p: 16 }),
    {
        Receiver { reader: BufReader::new(), decoder: response_cipher(key, iv), stage: Stage::Head }
    }

    /// Adds a message that was received from the server.
    pub fn feed(&mut self, mail: &[u8])
        ensures
            final(self).pending() == old(self).pending() + mail@,
            final(self).cipher() == old(self).cipher(),
            final(self).stage() == old(self).stage(),
    {
        self.reader.feed(mail);
    }

    /// The number of bytes that the stage needs.
    pub open spec fn needed(stage: Stage) -> nat {
        match stage {
            Stage::Head => 4,
            Stage::Command { len } => len as nat,
            Stage::Length => 6,
            Stage::Body { len, .. } => len as nat,
            Stage::Failed => 0,
        }
    }

    /// Makes one step: reads what the stage needs, if it is there, decrypts
    /// it and moves to the next stage.
    ///
    /// The response header must start with the code 39 of the request. A
    /// chunk gives its length, which counts the four bytes of the checksum,
    /// so it is four at least; the checksum must be that of the data.
    pub fn poll(&mut self) -> (r: Received)
        ensures
            old(self).stage() is Failed ==> r is Failed && final(self).stage() is Failed
                && final(self).pending() == old(self).pending(),
            !(old(self).stage() is Failed) && old(self).pending().len() < Self::needed(
                old(self).stage(),
            ) ==> r is NeedMore && final(self).stage() == old(self).stage()
                && final(self).pending() == old(self).pending() && final(self).cipher() == old(
                self,
            ).cipher(),
            !(old(self).stage() is Failed) && old(self).pending().len() >= Self::needed(
                old(self).stage(),
            ) ==> {
                let n = Self::needed(old(self).stage()) as int;
                let raw = old(self).pending().take(n);
                let plain = old(self).cipher().decoded(raw);
                &&& final(self).pending() == old(self).pending().skip(n)
                &&& final(self).cipher() == old(self).cipher().after_all(raw)
                &&& match old(self).stage() {
                    Stage::Head => if plain[0] == 39 {
                        r is Advanced && final(self).stage() == (Stage::Command {
                            len: plain[3] as usize,
                        })
                    } else {
                        r is Failed && final(self).stage() is Failed
                    },
                    Stage::Command { .. } => r is Advanced && final(self).stage() is Length,
                    Stage::Length => if plain[0] * 256 + plain[1] >= 4 {
                        r is Advanced && final(self).stage() == (Stage::Body {
                            len: (plain[0] * 256 + plain[1] - 4) as usize,
                            checksum: from_be32(plain.skip(2)),
                        })
                    } else {
                        r is Failed && final(self).stage() is Failed
                    },
                    Stage::Body { checksum, .. } => if fnv1a_of(plain) == checksum {
                        r matches Received::Data(d) && d@ == plain && final(self).stage() is Length
                    } else {
                        r is Failed && final(self).stage() is Failed
                    },
                    Stage::Failed => true,
                }
            },
    {
        let need: usize = match self.stage {
            Stage::Head => 4,
            Stage::Command { len } => len,
            Stage::Length => 6,
            Stage::Body { len, .. } => len,
            Stage::Failed => {
                return Received::Failed;
            },
        };
        let mut bytes = match self.reader.read_exact(need) {
            Some(bytes) => bytes,
            None => {
                return Received::NeedMore;
            },
        };
        let ghost state = self.decoder@;
        self.decoder.decode(&mut bytes);
        proof {
            lemma_decoded_len(state, old(self).pending().take(need as int));
        }
        match self.stage {
            Stage::Head => {
                if bytes[0] == 39 {
                    self.stage = Stage::Command { len: bytes[3] as usize };
                    Received::Advanced
                } else {
                    self.stage = Stage::Failed;
                    Received::Failed
                }
            },
            Stage::Command { .. } => {
                self.stage = Stage::Length;
                Received::Advanced
            },
            Stage::Length => {
                let len: usize = bytes[0] as usize * 256 + bytes[1] as usize;
                if len >= 4 {
                    let checksum: u32 = ((bytes[2] as u32 * 256 + bytes[3] as u32) * 256
                        + bytes[4] as u32) * 256 + bytes[5] as u32;
                    self.stage = Stage::Body { len: len - 4, checksum };
                    Received::Advanced
                } else {
                    self.stage = Stage::Failed;
                    Received::Failed
                }
            },
            Stage::Body { checksum, .. } => {
                if fnv1a(bytes.as_slice()) == checksum {
                    self.stage = Stage::Length;
                    Received::Data(bytes)
                } else {
                    self.stage = Stage::Failed;
                    Received::Failed
                }
            },
            Stage::Failed => Received::Failed,
        }
    }
}

/// The value of a hexadecimal digit.
pub open spec fn hex_value(c: char) -> Option<u8> {
    if '0' <= c && c <= '9' {
        Some((c as u32 - '0' as u32) as u8)
    } else if 'a' <= c && c <= 'f' {
        Some((c as u32 - 'a' as u32 + 10) as u8)
    } else if 'A' <= c && c <= 'F' {
        Some((c as u32 - 'A' as u32 + 10) as u8)
    } else {
        None
    }
}

/// The characters of `s` that are no hyphen.
pub open spec fn without_hyphens(s: Seq<char>) -> Seq<char>
    decreases s.len(),
{
    if s.len() == 0 {
        Seq::empty()
    } else if s.last() == '-' {
        without_hyphens(s.drop_last())
    } else {
        without_hyphens(s.drop_last()).push(s.last())
    }
}

/// Whether the first `n` pairs of `digits` are hexadecimal digits.
pub open spec fn hex_pairs(digits: Seq<char>, n: int) -> bool {
    forall|i: int| 0 <= i < 2 * n ==> (#[trigger] hex_value(digits[i])) is Some
}

/// The identifier of a user that a text writes: without its hyphens, the
/// text starts with thirty-two hexadecimal digits, two for each byte.
pub open spec fn uid_of(x: Seq<char>) -> Option<Seq<u8>> {
    let digits = without_hyphens(x);
    if digits.len() >= 32 && hex_pairs(digits, 16) {
        Some(
            Seq::new(
                16,
                |i: int|
                    (hex_value(digits[2 * i]).unwrap() * 16 + hex_value(
                        digits[2 * i + 1],
                    ).unwrap()) as u8,
            ),
        )
    } else {
        None
    }
}

fn hex_digit(c: char) -> (r: Option<u8>)
    ensures
        r == hex_value(c),
        r matches Some(v) ==> v < 16,
{
    if '0' <= c && c <= '9' {
        Some((c as u32 - '0' as u32) as u8)
    } else if 'a' <= c && c <= 'f' {
        Some((c as u32 - 'a' as u32 + 10) as u8)
    } else if 'A' <= c && c <= 'F' {
        Some((c as u32 - 'A' as u32 + 10) as u8)
    } else {
        None
    }
}

/// Reads the identifier of a user, as `de305d54-75b4-431b-adb2-eb6b9e546014`.
pub fn parse_uid(x: &str) -> (r: Option<[u8; 16]>)
    ensures
        match uid_of(x@) {
            Some(id) => r is Some && r->Some_0@ == id,
            None => r is None,
        },
{
    let chars = chars_of(x);
    let mut digits: Vec<char> = Vec::new();
    let mut i: usize = 0;
    assert(chars@.take(0) =~= Seq::<char>::empty());
    while i < chars.len()
        invariant
            i <= chars@.len(),
            digits@ == without_hyphens(chars@.take(i as int)),
        decreases chars@.len() - i,
    {
        assert(chars@.take(i + 1).drop_last() =~= chars@.take(i as int));
        if chars[i] != '-' {
            digits.push(chars[i]);
        }
        i += 1;
    }
    assert(chars@.take(chars@.len() as int) =~= chars@);
    assert(digits@ == without_hyphens(x@));
    if digits.len() < 32 {
        return None;
    }
    let mut id: [u8; 16] = [0; 16];
    let mut k: usize = 0;
    while k < 16
        invariant
            k <= 16,
            digits@.len() >= 32,
            digits@ == without_hyphens(x@),
            hex_pairs(digits@, k as int),
            forall|j: int|
                0 <= j < k ==> (#[trigger] id@[j]) == (hex_value(digits@[2 * j]).unwrap() * 16
                    + hex_value(digits@[2 * j + 1]).unwrap()) as u8,
        decreases 16 - k,
    {
        let hi = hex_digit(digits[2 * k]);
        let lo = hex_digit(digits[2 * k + 1]);
        match (hi, lo) {
            (Some(hi), Some(lo)) => {
                id[k] = hi * 16 + lo;
            },
            _ => {
                proof {
                    if hex_pairs(digits@, 16) {
                        assert(hex_value(digits@[2 * k as int]) is Some);
                        assert(hex_value(digits@[2 * k + 1]) is Some);
                    }
                }
                return None;
            },
        }
        k += 1;
    }
    assert(id@ =~= uid_of(x@)->Some_0);
    Some(id)
}

/// The client side of VMess: it opens each stream with a request that only
/// the holder of the user's identifier can make.
#[derive(Debug)]
pub struct Client {
    user_id: [u8; 16],
}

/// The fields that the component declares: the identifier of the user, and
/// the two that every component receives.
pub open spec fn fields() -> Seq<FieldValue> {
    seq![
        FieldValue { name: "user_id"@, kind: Kind::Str },
        FieldValue { name: "outputs"@, kind: Kind::List },
        FieldValue { name: "function_name"@, kind: Kind::Str },
    ]
}

/// The text of the error for a node that has not exactly one output.
pub open spec fn one_output() -> ErrorValue {
    ErrorValue { kind: ErrorKind::Misuse, msg: "vmess must have exactly 1 output"@, source: None }
}

/// The text of the error for an identifier that cannot be read.
pub open spec fn bad_uid() -> ErrorValue {
    ErrorValue { kind: ErrorKind::Misuse, msg: "vmess needs a valid user_id"@, source: None }
}

/// What the arguments make of the component: the identifier of the user, or
/// the misuse that is reported.
pub open spec fn create_spec(args: Seq<(Seq<char>, crate::argument::ArgValue)>) -> Result<
    Seq<u8>,
    ErrorValue,
> {
    match parse_spec(fields(), args) {
        Err(e) => Err(misfit(e)),
        Ok(values) => if list_len_of(values, 1) != Some(1nat) {
            Err(one_output())
        } else {
            match text_of(values, 0) {
                None => Err(bad_uid()),
                Some(text) => match uid_of(text) {
                    None => Err(bad_uid()),
                    Some(id) => Ok(id),
                },
            }
        },
    }
}

impl Client {
    /// The identifier of the user.
    pub closed spec fn user_id(&self) -> Seq<u8> {
        self.user_id@
    }

    /// A client for the user with the identifier given.
    pub fn new(user_id: [u8; 16]) -> (c: Client)
        ensures
            c.user_id() == user_id@,
    {
        Client { user_id }
    }

    /// The message that opens a stream to `addr` and `port` at the time
    /// `time`, in seconds since 1970, with `key` and `iv` for its data.
    pub fn open_stream(&self, addr: Addr, port: u16, key: [u8; 16], iv: [u8; 16], time: u64) -> (msg:
        Vec<u8>)
        ensures
            msg@ == handshake(self.user_id(), addr@, port, key@, iv@, time),
    {
        forward_handshake_msg(self.user_id, addr, port, key, iv, time)
    }
}

/// Makes the client that a node of the pipeline asks for.
pub fn create(arguments: &[(String, Argument)]) -> (r: Result<Client, Error>)
    ensures
        match create_spec(pairs_view(arguments@)) {
            Ok(id) => r is Ok && r->Ok_0.user_id() == id,
            Err(e) => r is Err && r->Err_0@ == e,
        },
{
    let mut declared: Vec<Field> = Vec::new();
    declared.push(Field::new("user_id", Kind::Str));
    declared.push(Field::new("outputs", Kind::List));
    declared.push(Field::new("function_name", Kind::Str));
    assert(crate::helper::field_values(declared@) =~= fields());
    let values = match fit(arguments, declared.as_slice()) {
        Ok(values) => values,
        Err(e) => {
            return Err(e);
        },
    };
    match list_len_at(&values, 1) {
        Some(1) => {},
        _ => {
            return Err(Error::misused("vmess must have exactly 1 output"));
        },
    }
    let text = match text_at(&values, 0) {
        Some(text) => text,
        None => {
            return Err(Error::misused("vmess needs a valid user_id"));
        },
    };
    match parse_uid(text.as_str()) {
        Some(id) => Ok(Client::new(id)),
        None => Err(Error::misused("vmess needs a valid user_id")),
    }
}

/// The component, as it is registered with the pipeline.
pub fn init() -> (c: Component)
    ensures
        c == Component::Vmess,
{
    Component::Vmess
}

} // verus!
