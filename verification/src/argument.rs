//! The values that a script hands to components.

use vstd::prelude::*;

verus! {

/// A value a user can hand to a component in a script.
#[derive(Debug)]
pub enum Argument {
    String(String),
    Int(u64),
    Vec(Vec<Argument>),
    /// The absent value: what a field holds when nothing was given for it.
    Nil,
}

/// What an [`Argument`] stands for: text, a number, a list of values, or nothing.
pub enum ArgValue {
    Text(Seq<char>),
    Number(u64),
    List(Seq<ArgValue>),
    Nothing,
}

/// What an argument stands for.
pub open spec fn value_of(a: Argument) -> ArgValue
    decreases a,
{
    match a {
        Argument::String(s) => ArgValue::Text(s@),
        Argument::Int(x) => ArgValue::Number(x),
        Argument::Vec(v) => ArgValue::List(
            Seq::new(
                v.len() as nat,
                |i: int|
                    if 0 <= i < v.len() {
                        value_of(v[i])
                    } else {
                        ArgValue::Nothing
                    },
            ),
        ),
        Argument::Nil => ArgValue::Nothing,
    }
}

impl View for Argument {
    type V = ArgValue;

    open spec fn view(&self) -> ArgValue {
        value_of(*self)
    }
}

impl ArgValue {
    /// The tag of the value, as it is shown in diagnostics.
    pub open spec fn type_label(self) -> Seq<char> {
        match self {
            ArgValue::Text(_) => "string"@,
            ArgValue::Number(_) => "int"@,
            ArgValue::List(_) => "vec"@,
            ArgValue::Nothing => "none"@,
        }
    }
}

/// The views of the items of a list, in order.
pub open spec fn views_of(items: Seq<Argument>) -> Seq<ArgValue> {
    items.map_values(|a: Argument| a@)
}

/// The views of a list of named arguments.
pub open spec fn pairs_view(args: Seq<(String, Argument)>) -> Seq<(Seq<char>, ArgValue)> {
    args.map_values(|p: (String, Argument)| (p.0@, p.1@))
}

/// A list argument is viewed as the views of its items.
pub proof fn lemma_list_view(v: Vec<Argument>)
    ensures
        Argument::Vec(v)@ == ArgValue::List(views_of(v@)),
{
    let lhs = value_of(Argument::Vec(v))->List_0;
    assert(lhs.len() == v@.len());
    assert forall|i: int| 0 <= i < lhs.len() implies lhs[i] == views_of(v@)[i] by {
        assert(lhs[i] == v[i]@);
    }
    assert(lhs =~= views_of(v@));
}

/// A deep copy of an argument.
pub fn copy_of(a: &Argument) -> (r: Argument)
    ensures
        r@ == a@,
    decreases a,
{
    match a {
        Argument::String(s) => Argument::String(s.clone()),
        Argument::Int(x) => Argument::Int(*x),
        Argument::Vec(v) => {
            let mut out: Vec<Argument> = Vec::new();
            let mut i: usize = 0;
            while i < v.len()
                invariant
                    i <= v.len(),
                    out.len() == i,
                    *a == Argument::Vec(*v),
                    forall|j: int| 0 <= j < i ==> out[j]@ == v[j]@,
                decreases v.len() - i,
            {
                proof {
                    let list = (*a)->Vec_0;
                    assert(list == *v);
                    assert(decreases_to!(*a => list[i as int]));
                }
                out.push(copy_of(&v[i]));
                i += 1;
            }
            proof {
                lemma_list_view(out);
                lemma_list_view(*v);
                assert(views_of(out@) =~= views_of(v@));
            }
            Argument::Vec(out)
        },
        Argument::Nil => Argument::Nil,
    }
}

impl Clone for Argument {
    fn clone(&self) -> (r: Self)
        ensures
            r@ == self@,
    {
        copy_of(self)
    }
}

impl Default for Argument {
    /// The absent value: what a field holds that no argument fills.
    fn default() -> (a: Argument)
        ensures
            a is Nil,
    {
        Argument::Nil
    }
}

impl From<String> for Argument {
    fn from(x: String) -> (a: Argument) {
        Argument::String(x)
    }
}

impl vstd::std_specs::convert::FromSpecImpl<String> for Argument {
    open spec fn obeys_from_spec() -> bool {
        true
    }

    open spec fn from_spec(x: String) -> Argument {
        Argument::String(x)
    }
}

impl From<u64> for Argument {
    fn from(x: u64) -> (a: Argument) {
        Argument::Int(x)
    }
}

impl vstd::std_specs::convert::FromSpecImpl<u64> for Argument {
    open spec fn obeys_from_spec() -> bool {
        true
    }

    open spec fn from_spec(x: u64) -> Argument {
        Argument::Int(x)
    }
}

impl Argument {
    /// The tag of the value, as it is shown in diagnostics: `string`, `int`,
    /// `vec` or `none`.
    pub fn type_label(&self) -> (name: &'static str)
        ensures
            name@ == self@.type_label(),
    {
        match self {
            Argument::String(_) => "string",
            Argument::Int(_) => "int",
            Argument::Vec(_) => "vec",
            Argument::Nil => "none",
        }
    }

    /// The text, if the value is text.
    pub fn as_string(&self) -> (r: Option<&String>)
        ensures
            r == (match *self {
                Argument::String(s) => Some(&s),
                _ => None,
            }),
    {
        match self {
            Argument::String(x) => Some(x),
            _ => None,
        }
    }

    /// The number, if the value is a number.
    pub fn as_int(&self) -> (r: Option<&u64>)
        ensures
            r == (match *self {
                Argument::Int(x) => Some(&x),
                _ => None,
            }),
    {
        match self {
            Argument::Int(x) => Some(x),
            _ => None,
        }
    }

    /// The items, if the value is a list.
    pub fn as_vec(&self) -> (r: Option<&[Argument]>)
        ensures
            match *self {
                Argument::Vec(v) => r.is_some() && r.unwrap()@ == v@,
                _ => r.is_none(),
            },
    {
        match self {
            Argument::Vec(x) => Some(x.as_slice()),
            _ => None,
        }
    }

    /// Whether the value is the absent value.
    pub fn is_none(&self) -> (r: bool)
        ensures
            r == (*self is Nil),
    {
        match self {
            Argument::Nil => true,
            _ => false,
        }
    }
}

} // verus!

