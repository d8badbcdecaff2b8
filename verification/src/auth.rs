//! Authentication of streams with a shared key, by time stamp or by challenge.

use vstd::prelude::*;
use crate::components::Component;
use vstd::utf8::encode_utf8;
use crate::argument::{pairs_view, ArgValue, Argument};
use crate::error::{Error, ErrorValue};
use crate::helper::{
    field_values, fit, list_len_at, list_len_of, misfit, misuse, parse_spec, text_at, text_is, text_of, Field,
    FieldValue, Kind,
};
use crate::primitives::{pbkdf2_of, pbkdf2_sha256, INPUT_LIMIT};

pub mod challenge;
pub mod time;

verus! {

/// The length of a key and of a tag, in bytes.
pub const TAG_LEN: usize = 32;

/// The number of rounds in which a key is derived from a password.
pub const ROUNDS: u32 = 4096;

/// The key that is derived from a password and a salt.
pub open spec fn derived_key(salt: Seq<u8>, pass: Seq<u8>) -> Seq<u8> {
    pbkdf2_of(ROUNDS, salt, pass, TAG_LEN as nat)
}

/// Derives the key of the authenticators from a password and a salt.
pub fn derive_key(salt: &[u8], pass: &[u8]) -> (key: Vec<u8>)
    requires
        salt@.len() <= INPUT_LIMIT,
        pass@.len() <= INPUT_LIMIT,
    ensures
        key@ == derived_key(salt@, pass@),
        key@.len() == TAG_LEN,
{
    pbkdf2_sha256(ROUNDS, salt, pass, TAG_LEN)
}

/// An authenticator, as a node of the pipeline asks for it.
pub enum Actor {
    TimeClient(time::Client),
    TimeServer(time::Server),
    ChallengeClient(challenge::Client),
    ChallengeServer(challenge::Server),
}

/// Which authenticator a node asks for.
#[derive(Debug, Clone, Copy, PartialEq, Eq, Structural)]
pub enum Role {
    TimeClient,
    TimeServer,
    ChallengeClient,
    ChallengeServer,
}

impl Actor {
    /// Which authenticator it is.
    pub open spec fn role(&self) -> Role {
        match self {
            Actor::TimeClient(_) => Role::TimeClient,
            Actor::TimeServer(_) => Role::TimeServer,
            Actor::ChallengeClient(_) => Role::ChallengeClient,
            Actor::ChallengeServer(_) => Role::ChallengeServer,
        }
    }

    /// The key that the authenticator holds.
    pub open spec fn key(&self) -> Seq<u8> {
        match self {
            Actor::TimeClient(c) => c.key(),
            Actor::TimeServer(s) => s.key(),
            Actor::ChallengeClient(c) => c.key(),
            Actor::ChallengeServer(s) => s.key(),
        }
    }
}

/// The fields that the component declares.
pub open spec fn fields() -> Seq<FieldValue> {
    seq![
        FieldValue { name: "key"@, kind: Kind::Str },
        FieldValue { name: "method"@, kind: Kind::Str },
        FieldValue { name: "salt"@, kind: Kind::Str },
        FieldValue { name: "outputs"@, kind: Kind::List },
        FieldValue { name: "function_name"@, kind: Kind::Str },
    ]
}


/// The authenticator that a method and a function name ask for.
pub open spec fn role_of(method: Option<Seq<char>>, function: Option<Seq<char>>) -> Option<Role> {
    let timed = method is None || method == Some(""@) || method == Some("time"@);
    let challenged = method == Some("challenge"@);
    if function == Some("auth_client"@) {
        if timed {
            Some(Role::TimeClient)
        } else if challenged {
            Some(Role::ChallengeClient)
        } else {
            None
        }
    } else if function == Some("auth_server"@) {
        if timed {
            Some(Role::TimeServer)
        } else if challenged {
            Some(Role::ChallengeServer)
        } else {
            None
        }
    } else {
        None
    }
}

/// What the arguments make of the component: which authenticator, and with
/// which key; or the misuse that is reported. The key is derived from the
/// password `key` and from `salt`, for which a fixed text stands in where
/// none is given; neither may be longer than a digest takes.
pub open spec fn create_spec(args: Seq<(Seq<char>, ArgValue)>) -> Result<
    (Role, Seq<u8>),
    ErrorValue,
> {
    match parse_spec(fields(), args) {
        Err(e) => Err(misfit(e)),
        Ok(values) => if list_len_of(values, 3) != Some(1nat) {
            Err(misuse("auth must have exactly 1 output"@))
        } else if text_of(values, 0) is None {
            Err(misuse("auth needs a key"@))
        } else {
            let pass = encode_utf8(text_of(values, 0).unwrap());
            let salt = match text_of(values, 2) {
                Some(s) => encode_utf8(s),
                None => encode_utf8("sopipe_is_good"@),
            };
            if pass.len() > INPUT_LIMIT || salt.len() > INPUT_LIMIT {
                Err(misuse("auth: key or salt too long"@))
            } else {
                match role_of(text_of(values, 1), text_of(values, 4)) {
                    None => Err(misuse("unknown auth method. Available: time, challenge"@)),
                    Some(role) => Ok((role, derived_key(salt, pass))),
                }
            }
        },
    }
}

/// Makes the authenticator that a node of the pipeline asks for.
pub fn create(arguments: &[(String, Argument)]) -> (r: Result<Actor, Error>)
    ensures
        match create_spec(pairs_view(arguments@)) {
            Ok((role, key)) => r is Ok && r->Ok_0.role() == role && r->Ok_0.key() == key,
            Err(e) => r is Err && r->Err_0@ == e,
        },
{
    let mut declared: Vec<Field> = Vec::new();
    declared.push(Field::new("key", Kind::Str));
    declared.push(Field::new("method", Kind::Str));
    declared.push(Field::new("salt", Kind::Str));
    declared.push(Field::new("outputs", Kind::List));
    declared.push(Field::new("function_name", Kind::Str));
    assert(field_values(declared@) =~= fields());
    let values = match fit(arguments, declared.as_slice()) {
        Ok(values) => values,
        Err(e) => {
            return Err(e);
        },
    };
    match list_len_at(&values, 3) {
        Some(1) => {},
        _ => {
            return Err(Error::misused("auth must have exactly 1 output"));
        },
    }
    let pass: &[u8] = match text_at(&values, 0) {
        Some(text) => text.as_str().as_bytes(),
        None => {
            return Err(Error::misused("auth needs a key"));
        },
    };
    let salt: &[u8] = match text_at(&values, 2) {
        Some(text) => text.as_str().as_bytes(),
        None => "sopipe_is_good".as_bytes(),
    };
    if pass.len() > INPUT_LIMIT || salt.len() > INPUT_LIMIT {
        return Err(Error::misused("auth: key or salt too long"));
    }
    let method = text_at(&values, 1);
    let function = text_at(&values, 4);
    let timed = method.is_none() || text_is(method, "") || text_is(method, "time");
    let challenged = text_is(method, "challenge");
    let client = text_is(function, "auth_client");
    let server = text_is(function, "auth_server");
    if (client || server) && (timed || challenged) {
        let key = derive_key(salt, pass);
        if client {
            if timed {
                Ok(Actor::TimeClient(time::Client::new(key)))
            } else {
                Ok(Actor::ChallengeClient(challenge::Client::new(key)))
            }
        } else {
            if timed {
                Ok(Actor::TimeServer(time::Server::new(key)))
            } else {
                Ok(Actor::ChallengeServer(challenge::Server::new(key)))
            }
        }
    } else {
        Err(Error::misused("unknown auth method. Available: time, challenge"))
    }
}

/// The component, as it is registered with the pipeline.
pub fn init() -> (c: Component)
    ensures
        c == Component::Auth,
{
    Component::Auth
}

} // verus!
