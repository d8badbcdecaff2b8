//! A node that carries a stream in an HTTP/2 request to a server.

use vstd::prelude::*;
use crate::components::Component;
use crate::argument::{pairs_view, ArgValue, Argument};
use crate::error::{Error, ErrorValue};
use crate::helper::{
    field_values, fit, misfit, misuse, number_at, number_of, parse_spec, text_at, text_of, Field,
    FieldValue, Kind,
};

verus! {

/// A node that opens an HTTP/2 stream to a server and carries the data of
/// the pipeline in it.
#[derive(Debug)]
pub struct Actor {
    pub domain: String,
    pub path: String,
    pub port: u16,
}

/// What an [`Actor`] stands for.
pub struct ActorValue {
    pub domain: Seq<char>,
    pub path: Seq<char>,
    pub port: u16,
}

impl View for Actor {
    type V = ActorValue;

    open spec fn view(&self) -> ActorValue {
        ActorValue { domain: self.domain@, path: self.path@, port: self.port }
    }
}

/// The path with a slash in front, where it has none.
pub open spec fn rooted(path: Seq<char>) -> Seq<char> {
    if path.len() > 0 && path[0] == '/' {
        path
    } else {
        seq!['/'] + path
    }
}

/// The port, where one is given, else that of HTTPS.
pub open spec fn port_or_default(port: u16) -> u16 {
    if port == 0 {
        443
    } else {
        port
    }
}

/// The fields that the component declares.
pub open spec fn fields() -> Seq<FieldValue> {
    seq![
        FieldValue { name: "domain"@, kind: Kind::Str },
        FieldValue { name: "path"@, kind: Kind::Str },
        FieldValue { name: "port"@, kind: Kind::Int },
        FieldValue { name: "outputs"@, kind: Kind::List },
        FieldValue { name: "function_name"@, kind: Kind::Str },
    ]
}

/// What the arguments make of the component, or the misuse that is
/// reported. The domain must be given; the path starts with a slash, which
/// is added where it is missing; the port is 443 where none is given.
pub open spec fn create_spec(args: Seq<(Seq<char>, ArgValue)>) -> Result<ActorValue, ErrorValue> {
    match parse_spec(fields(), args) {
        Err(e) => Err(misfit(e)),
        Ok(values) => match text_of(values, 0) {
            None => Err(misuse("missing field `domain`"@)),
            Some(domain) => if number_of(values, 2) is Some && number_of(values, 2).unwrap()
                > 65535 {
                Err(misuse("the input number does not fit `u16`"@))
            } else {
                let path = match text_of(values, 1) {
                    Some(p) => p,
                    None => Seq::empty(),
                };
                let port = match number_of(values, 2) {
                    Some(p) => p as u16,
                    None => 0u16,
                };
                Ok(ActorValue { domain, path: rooted(path), port: port_or_default(port) })
            },
        },
    }
}

impl Actor {
    /// The node for a domain, a path and a port as they were given.
    pub fn new(domain: String, path: String, port: u16) -> (a: Actor)
        ensures
            a@ == (ActorValue { domain: domain@, path: rooted(path@), port: port_or_default(port) }),
    {
        let rooted_path = if path.as_str().unicode_len() > 0 && path.as_str().get_char(0) == '/' {
            path
        } else {
            let slash = String::from_str("/");
            proof {
                reveal_strlit("/");
                assert("/"@ =~= seq!['/']);
            }
            slash.concat(path.as_str())
        };
        Actor {
            domain,
            path: rooted_path,
            port: if port == 0 {
                443
            } else {
                port
            },
        }
    }
}

/// Makes the node that the pipeline asks for.
pub fn create(arguments: &[(String, Argument)]) -> (r: Result<Actor, Error>)
    ensures
        match create_spec(pairs_view(arguments@)) {
            Ok(a) => r is Ok && r->Ok_0@ == a,
            Err(e) => r is Err && r->Err_0@ == e,
        },
{
    let mut declared: Vec<Field> = Vec::new();
    declared.push(Field::new("domain", Kind::Str));
    declared.push(Field::new("path", Kind::Str));
    declared.push(Field::new("port", Kind::Int));
    declared.push(Field::new("outputs", Kind::List));
    declared.push(Field::new("function_name", Kind::Str));
    assert(field_values(declared@) =~= fields());
    let values = match fit(arguments, declared.as_slice()) {
        Ok(values) => values,
        Err(e) => {
            return Err(e);
        },
    };
    let domain = match text_at(&values, 0) {
        Some(d) => d.clone(),
        None => {
            return Err(Error::misused("missing field `domain`"));
        },
    };
    let port: u16 = match number_at(&values, 2) {
        Some(p) => {
            if p > 65535 {
                return Err(Error::misused("the input number does not fit `u16`"));
            }
            p as u16
        },
        None => 0,
    };
    let path = match text_at(&values, 1) {
        Some(p) => p.clone(),
        None => String::new(),
    };
    Ok(Actor::new(domain, path, port))
}

/// The component, as it is registered with the pipeline.
pub fn init() -> (c: Component)
    ensures
        c == Component::Http2,
{
    Component::Http2
}

} // verus!
