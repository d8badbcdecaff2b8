//! A node that mixes a key into a stream with exclusive or.

use vstd::prelude::*;
use crate::components::Component;
use vstd::arithmetic::div_mod::{lemma_add_mod_noop_right, lemma_mod_self_0, lemma_small_mod};
use vstd::utf8::encode_utf8;
use crate::argument::{pairs_view, ArgValue, Argument};
use crate::bytes::copy_range;
use crate::error::{Error, ErrorValue};
use crate::helper::{
    field_values, fit, list_len_at, list_len_of, misfit, misuse, parse_spec, text_at, text_of,
    Field, FieldValue, Kind,
};

verus! {

/// A node that mixes a key into a stream, in both directions.
#[derive(Debug)]
pub struct Actor {
    key: Vec<u8>,
}

/// A frame with the key mixed in, the byte of the key at `count` first, and
/// the key taken again from its start when it is used up.
pub open spec fn mixed(key: Seq<u8>, count: nat, msg: Seq<u8>) -> Seq<u8> {
    Seq::new(msg.len(), |i: int| msg[i] ^ key[(count + i) % (key.len() as int)])
}

/// Mixing the key in twice, from the same place in the key, gives the frame
/// back.
pub proof fn lemma_mixed_twice(key: Seq<u8>, count: nat, msg: Seq<u8>)
    ensures
        mixed(key, count, mixed(key, count, msg)) == msg,
{
    let once = mixed(key, count, msg);
    assert forall|i: int| 0 <= i < msg.len() implies mixed(key, count, once)[i] == msg[i] by {
        let k = key[(count + i) % (key.len() as int)];
        let b = msg[i];
        assert((b ^ k) ^ k == b) by (bit_vector);
    }
    assert(mixed(key, count, once) =~= msg);
}

/// Mixing a stream frame by frame is mixing it as a whole: the place in the
/// key goes on from frame to frame.
pub proof fn lemma_mixed_in_frames(key: Seq<u8>, count: nat, first: Seq<u8>, second: Seq<u8>)
    requires
        key.len() > 0,
    ensures
        mixed(key, count, first) + mixed(
            key,
            ((count + first.len()) as int % (key.len() as int)) as nat,
            second,
        ) == mixed(key, count, first + second),
{
    let n = key.len() as int;
    let next = ((count + first.len()) as int % n) as nat;
    let whole = mixed(key, count, first + second);
    let parts = mixed(key, count, first) + mixed(key, next, second);
    assert forall|i: int| 0 <= i < whole.len() implies parts[i] == whole[i] by {
        if i >= first.len() {
            let j = i - first.len();
            lemma_add_mod_noop_right(j, (count + first.len()) as int, n);
            assert((next + j) % n == (count + i) % n);
        }
    }
    assert(parts =~= whole);
}

/// The fields that the component declares.
pub open spec fn fields() -> Seq<FieldValue> {
    seq![
        FieldValue { name: "key"@, kind: Kind::Str },
        FieldValue { name: "outputs"@, kind: Kind::List },
        FieldValue { name: "function_name"@, kind: Kind::Str },
        FieldValue { name: "read_only"@, kind: Kind::Flag },
    ]
}

/// What the arguments make of the component: the bytes of the key, or the
/// misuse that is reported. The key is a text that is not empty.
pub open spec fn create_spec(args: Seq<(Seq<char>, ArgValue)>) -> Result<Seq<u8>, ErrorValue> {
    match parse_spec(fields(), args) {
        Err(e) => Err(misfit(e)),
        Ok(values) => if list_len_of(values, 1) != Some(1nat) {
            Err(misuse("xor must have exactly 1 output"@))
        } else {
            match text_of(values, 0) {
                None => Err(misuse("xor needs a key"@)),
                Some(key) => if encode_utf8(key).len() == 0 {
                    Err(misuse("xor needs a key"@))
                } else {
                    Ok(encode_utf8(key))
                },
            }
        },
    }
}

impl Actor {
    #[verifier::type_invariant]
    spec fn has_key(self) -> bool {
        self.key@.len() > 0
    }

    /// The bytes of the key.
    pub closed spec fn key(&self) -> Seq<u8> {
        self.key@
    }

    /// A node with the key given, or nothing where the key is empty.
    pub fn new(key: Vec<u8>) -> (a: Option<Actor>)
        ensures
            match a {
                Some(actor) => key@.len() > 0 && actor.key() == key@,
                None => key@.len() == 0,
            },
    {
        if key.len() == 0 {
            None
        } else {
            Some(Actor { key })
        }
    }

    /// Mixes the key into the next frame of one direction of a stream.
    /// `count` is the place in the key at which the frame starts, and is
    /// moved to the place at which the next frame starts.
    pub fn xor(&self, count: &mut usize, msg: &mut Vec<u8>)
        requires
            *old(count) < self.key().len(),
        ensures
            final(msg)@ == mixed(self.key(), *old(count) as nat, old(msg)@),
            *final(count) == (*old(count) + old(msg)@.len()) % (self.key().len() as int),
            *final(count) < self.key().len(),
    {
        proof {
            use_type_invariant(self);
        }
        let ghost start = *count;
        let ghost plain = msg@;
        let n = self.key.len();
        let mut i: usize = 0;
        proof {
            lemma_small_mod(start as nat, n as nat);
        }
        while i < msg.len()
            invariant
                i <= msg@.len(),
                msg@.len() == plain.len(),
                n == self.key@.len(),
                n > 0,
                *count < n,
                *count == (start + i) % (n as int),
                forall|j: int| 0 <= j < i ==> msg@[j] == plain[j] ^ self.key@[(start + j) % (
                n as int)],
                forall|j: int| i <= j < msg@.len() ==> msg@[j] == plain[j],
            decreases msg@.len() - i,
        {
            let byte = msg[i] ^ self.key[*count];
            msg.set(i, byte);
            let ghost c = *count;
            *count = if *count + 1 == n {
                0
            } else {
                *count + 1
            };
            proof {
                lemma_add_mod_noop_right(1, (start + i) as int, n as int);
                if c + 1 == n {
                    lemma_mod_self_0(n as int);
                } else {
                    lemma_small_mod((c + 1) as nat, n as nat);
                }
            }
            assert(*count == (start + i + 1) % (n as int));
            i += 1;
        }
        assert(msg@ =~= mixed(self.key@, start as nat, plain));
    }
}

/// Makes the node that the pipeline asks for.
pub fn create(arguments: &[(String, Argument)]) -> (r: Result<Actor, Error>)
    ensures
        match create_spec(pairs_view(arguments@)) {
            Ok(key) => r is Ok && r->Ok_0.key() == key,
            Err(e) => r is Err && r->Err_0@ == e,
        },
{
    let mut declared: Vec<Field> = Vec::new();
    declared.push(Field::new("key", Kind::Str));
    declared.push(Field::new("outputs", Kind::List));
    declared.push(Field::new("function_name", Kind::Str));
    declared.push(Field::new("read_only", Kind::Flag));
    assert(field_values(declared@) =~= fields());
    let values = match fit(arguments, declared.as_slice()) {
        Ok(values) => values,
        Err(e) => {
            return Err(e);
        },
    };
    match list_len_at(&values, 1) {
        Some(1) => {},
        _ => {
            return Err(Error::misused("xor must have exactly 1 output"));
        },
    }
    let key = match text_at(&values, 0) {
        Some(text) => text.as_str().as_bytes(),
        None => {
            return Err(Error::misused("xor needs a key"));
        },
    };
    match Actor::new(copy_range(key, 0, key.len())) {
        Some(actor) => {
            assert(key@.subrange(0, key@.len() as int) =~= key@);
            Ok(actor)
        },
        None => Err(Error::misused("xor needs a key")),
    }
}

/// The component, as it is registered with the pipeline.
pub fn init() -> (c: Component)
    ensures
        c == Component::Xor,
{
    Component::Xor
}

} // verus!
