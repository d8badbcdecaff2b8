//! Fitting the arguments of a node to the fields that a component declares.

use vstd::prelude::*;
use crate::argument::{copy_of, pairs_view, ArgValue, Argument};
use crate::error::{Error, ErrorKind, ErrorValue};
use crate::text::{decimal, decimal_of};

verus! {

/// Why a list of arguments does not fit the fields of a component.
#[derive(Debug)]
#[allow(inconsistent_fields)]
pub enum ArgParseError {
    UnsupportedType(&'static str),
    /// A number does not fit the type named.
    Overflow(&'static str),
    /// A value of the kind `supplied` stands where the field takes `expected`.
    TypeError { supplied: &'static str, expected: &'static str },
    /// An argument names no field, or a field that was given before, or a
    /// field that must be given is missing; the text says which.
    DeserializeError(String),
    /// There are more arguments than fields, and one of them at least is
    /// named.
    TooManyArguments { supplied: usize, expected: usize },
    /// There are more arguments than fields, and all of them are positional.
    TooManyPositionalArguments,
    Unknown,
}

/// What an [`ArgParseError`] stands for.
#[allow(inconsistent_fields)]
pub enum ParseFault {
    UnsupportedType(Seq<char>),
    Overflow(Seq<char>),
    TypeError { supplied: Seq<char>, expected: Seq<char> },
    DeserializeError(Seq<char>),
    TooManyArguments { supplied: usize, expected: usize },
    TooManyPositionalArguments,
    Unknown,
}

impl View for ArgParseError {
    type V = ParseFault;

    open spec fn view(&self) -> ParseFault {
        match self {
            ArgParseError::UnsupportedType(t) => ParseFault::UnsupportedType(t@),
            ArgParseError::Overflow(t) => ParseFault::Overflow(t@),
            ArgParseError::TypeError { supplied, expected } => ParseFault::TypeError {
                supplied: supplied@,
                expected: expected@,
            },
            ArgParseError::DeserializeError(m) => ParseFault::DeserializeError(m@),
            ArgParseError::TooManyArguments { supplied, expected } => ParseFault::TooManyArguments {
                supplied: *supplied,
                expected: *expected,
            },
            ArgParseError::TooManyPositionalArguments => ParseFault::TooManyPositionalArguments,
            ArgParseError::Unknown => ParseFault::Unknown,
        }
    }
}

impl ArgParseError {
    /// The text of the error.
    pub open spec fn spec_message(fault: ParseFault) -> Seq<char> {
        match fault {
            ParseFault::UnsupportedType(t) => "the type `"@ + t + "` is not supported"@,
            ParseFault::Overflow(t) => "the input number does not fit `"@ + t + "`"@,
            ParseFault::TypeError { supplied, expected } => "expecting "@ + expected
                + ", received "@ + supplied,
            ParseFault::DeserializeError(m) => "deserialize error. msg: "@ + m,
            ParseFault::TooManyArguments { supplied, expected } => "expecting "@ + decimal_of(
                expected as nat,
            ) + " arguments, received "@ + decimal_of(supplied as nat),
            ParseFault::TooManyPositionalArguments => "too many positional arguments"@,
            ParseFault::Unknown => "unknown data store error"@,
        }
    }

    /// The text of the error, as it is shown to the user.
    pub fn message(&self) -> (m: String)
        ensures
            m@ == Self::spec_message(self@),
    {
        match self {
            ArgParseError::UnsupportedType(t) => {
                let mut m = String::from_str("the type `");
                m.append(t);
                m.append("` is not supported");
                m
            },
            ArgParseError::Overflow(t) => {
                let mut m = String::from_str("the input number does not fit `");
                m.append(t);
                m.append("`");
                m
            },
            ArgParseError::TypeError { supplied, expected } => {
                let mut m = String::from_str("expecting ");
                m.append(expected);
                m.append(", received ");
                m.append(supplied);
                m
            },
            ArgParseError::DeserializeError(text) => {
                let mut m = String::from_str("deserialize error. msg: ");
                m.append(text.as_str());
                m
            },
            ArgParseError::TooManyArguments { supplied, expected } => {
                let mut m = String::from_str("expecting ");
                m.append(decimal(*expected as u64).as_str());
                m.append(" arguments, received ");
                m.append(decimal(*supplied as u64).as_str());
                m
            },
            ArgParseError::TooManyPositionalArguments => String::from_str(
                "too many positional arguments",
            ),
            ArgParseError::Unknown => String::from_str("unknown data store error"),
        }
    }
}

/// The kind of value that a field takes.
#[derive(Debug, Clone, Copy, PartialEq, Eq, Structural)]
pub enum Kind {
    /// A number.
    Int,
    /// Text.
    Str,
    /// A list.
    List,
    /// A presence flag: the field is named and no value is given.
    Flag,
    /// Any value.
    Any,
}

impl Kind {
    /// Whether a field of this kind takes `value`.
    pub open spec fn accepts(self, value: ArgValue) -> bool {
        match self {
            Kind::Int => value is Number,
            Kind::Str => value is Text,
            Kind::List => value is List,
            Kind::Flag => value is Nothing,
            Kind::Any => true,
        }
    }

    /// The name of what a field of this kind takes, as diagnostics show it.
    pub open spec fn label(self) -> Seq<char> {
        match self {
            Kind::Int => "int"@,
            Kind::Str => "string"@,
            Kind::List => "vec"@,
            Kind::Flag => "none"@,
            Kind::Any => "any"@,
        }
    }

    fn expected(self) -> (s: &'static str)
        ensures
            s@ == self.label(),
    {
        match self {
            Kind::Int => "int",
            Kind::Str => "string",
            Kind::List => "vec",
            Kind::Flag => "none",
            Kind::Any => "any",
        }
    }

    fn takes(self, value: &Argument) -> (r: bool)
        ensures
            r == self.accepts(value@),
    {
        match self {
            Kind::Int => matches!(value, Argument::Int(_)),
            Kind::Str => matches!(value, Argument::String(_)),
            Kind::List => matches!(value, Argument::Vec(_)),
            Kind::Flag => matches!(value, Argument::Nil),
            Kind::Any => true,
        }
    }
}

/// A field that a component declares: its name and the kind of its value.
#[derive(Debug)]
pub struct Field {
    pub name: String,
    pub kind: Kind,
}

/// What a [`Field`] stands for.
pub struct FieldValue {
    pub name: Seq<char>,
    pub kind: Kind,
}

impl View for Field {
    type V = FieldValue;

    open spec fn view(&self) -> FieldValue {
        FieldValue { name: self.name@, kind: self.kind }
    }
}

impl Field {
    /// A field called `name` that takes values of `kind`.
    pub fn new(name: &str, kind: Kind) -> (f: Field)
        ensures
            f@ == (FieldValue { name: name@, kind }),
    {
        Field { name: String::from_str(name), kind }
    }
}

/// The views of the fields of a component.
pub open spec fn field_values(fields: Seq<Field>) -> Seq<FieldValue> {
    fields.map_values(|f: Field| f@)
}

/// The fields of a component are well declared when each has a name and no
/// two share one.
pub open spec fn declared(fields: Seq<FieldValue>) -> bool {
    &&& forall|i: int| 0 <= i < fields.len() ==> (#[trigger] fields[i]).name.len() > 0
    &&& forall|i: int, j: int|
        0 <= i < j < fields.len() ==> (#[trigger] fields[i]).name != (#[trigger] fields[j]).name
}

/// The index of the first of the first `n` fields that is called `key`.
pub open spec fn field_index(fields: Seq<FieldValue>, key: Seq<char>, n: int) -> Option<int>
    decreases n,
{
    if n <= 0 {
        None
    } else {
        match field_index(fields, key, n - 1) {
            Some(i) => Some(i),
            None => if fields[n - 1].name == key {
                Some(n - 1)
            } else {
                None
            },
        }
    }
}

/// Whether one of the first `n` arguments is given under the name `key`.
pub open spec fn keyed(args: Seq<(Seq<char>, ArgValue)>, key: Seq<char>, n: int) -> bool
    decreases n,
{
    if n <= 0 {
        false
    } else {
        keyed(args, key, n - 1) || args[n - 1].0 == key
    }
}

/// The fields, among the first `n`, that no argument names: those that the
/// positional arguments fill, in the order of declaration.
pub open spec fn unused(fields: Seq<FieldValue>, args: Seq<(Seq<char>, ArgValue)>, n: int) -> Seq<
    int,
>
    decreases n,
{
    if n <= 0 {
        Seq::empty()
    } else if keyed(args, fields[n - 1].name, args.len() as int) {
        unused(fields, args, n - 1)
    } else {
        unused(fields, args, n - 1).push(n - 1)
    }
}

/// The number of positional arguments among the first `k`.
pub open spec fn positional(args: Seq<(Seq<char>, ArgValue)>, k: int) -> int
    decreases k,
{
    if k <= 0 {
        0
    } else if args[k - 1].0.len() == 0 {
        positional(args, k - 1) + 1
    } else {
        positional(args, k - 1)
    }
}

/// The field that the argument `k` is for: the field that it names, or, for
/// a positional argument, the next field that no argument names.
pub open spec fn target(fields: Seq<FieldValue>, args: Seq<(Seq<char>, ArgValue)>, k: int) -> Option<
    int,
> {
    if args[k].0.len() == 0 {
        let free = unused(fields, args, fields.len() as int);
        let p = positional(args, k);
        if p < free.len() {
            Some(free[p])
        } else {
            None
        }
    } else {
        field_index(fields, args[k].0, fields.len() as int)
    }
}

/// What the field `i` holds when the first `n` arguments are taken: the
/// value of the argument that is for it, if there is one.
pub open spec fn held(
    fields: Seq<FieldValue>,
    args: Seq<(Seq<char>, ArgValue)>,
    n: int,
    i: int,
) -> Option<ArgValue>
    decreases n,
{
    if n <= 0 {
        None
    } else if target(fields, args, n - 1) == Some(i) {
        Some(args[n - 1].1)
    } else {
        held(fields, args, n - 1, i)
    }
}

/// The text of the error for an argument that names no field.
pub open spec fn unknown_field(key: Seq<char>) -> Seq<char> {
    "unknown field `"@ + key + "`"@
}

/// The text of the error for an argument that names a field given before.
pub open spec fn duplicate_field(key: Seq<char>) -> Seq<char> {
    "duplicate field `"@ + key + "`"@
}

/// What is wrong with the argument `k`, the arguments before it being taken.
pub open spec fn fault(fields: Seq<FieldValue>, args: Seq<(Seq<char>, ArgValue)>, k: int) -> Option<
    ParseFault,
> {
    let key = args[k].0;
    let value = args[k].1;
    match target(fields, args, k) {
        None => if key.len() == 0 {
            Some(ParseFault::TooManyPositionalArguments)
        } else {
            Some(ParseFault::DeserializeError(unknown_field(key)))
        },
        Some(i) => if held(fields, args, k, i) is Some {
            Some(ParseFault::DeserializeError(duplicate_field(key)))
        } else if !fields[i].kind.accepts(value) {
            Some(
                ParseFault::TypeError {
                    supplied: value.type_label(),
                    expected: fields[i].kind.label(),
                },
            )
        } else {
            None
        },
    }
}

/// What is wrong with the first of the first `n` arguments that has a fault.
pub open spec fn first_fault(
    fields: Seq<FieldValue>,
    args: Seq<(Seq<char>, ArgValue)>,
    n: int,
) -> Option<ParseFault>
    decreases n,
{
    if n <= 0 {
        None
    } else {
        match first_fault(fields, args, n - 1) {
            Some(e) => Some(e),
            None => fault(fields, args, n - 1),
        }
    }
}

/// What the arguments give for each declared field, in the order of
/// declaration: the value given for the field, or nothing. A named argument
/// is for the field of that name; the positional arguments fill, in their
/// order, the fields that no argument names. More arguments than fields are
/// refused at once: as too many positional arguments where all of them are
/// positional, else as too many arguments. Else the first argument with a
/// fault decides the error.
pub open spec fn parse_spec(fields: Seq<FieldValue>, args: Seq<(Seq<char>, ArgValue)>) -> Result<
    Seq<Option<ArgValue>>,
    ParseFault,
> {
    if args.len() > fields.len() {
        if positional(args, args.len() as int) == args.len() {
            Err(ParseFault::TooManyPositionalArguments)
        } else {
            Err(
                ParseFault::TooManyArguments {
                    supplied: args.len() as usize,
                    expected: fields.len() as usize,
                },
            )
        }
    } else {
        match first_fault(fields, args, args.len() as int) {
            Some(e) => Err(e),
            None => Ok(
                Seq::new(fields.len(), |i: int| held(fields, args, args.len() as int, i)),
            ),
        }
    }
}

/// The views of the values of the fields.
pub open spec fn slot_values(slots: Seq<Option<Argument>>) -> Seq<Option<ArgValue>> {
    slots.map_values(
        |s: Option<Argument>|
            match s {
                Some(a) => Some(a@),
                None => None,
            },
    )
}

/// The index that the search for a field gives is that of a field of that
/// name; where it gives none, no field has the name.
pub proof fn lemma_field_index(fields: Seq<FieldValue>, key: Seq<char>, n: int)
    requires
        0 <= n <= fields.len(),
    ensures
        match field_index(fields, key, n) {
            Some(i) => 0 <= i < n && fields[i].name == key,
            None => forall|i: int| 0 <= i < n ==> (#[trigger] fields[i]).name != key,
        },
    decreases n,
{
    if n > 0 {
        lemma_field_index(fields, key, n - 1);
    }
}

/// The fields left for the positional arguments are fields that no argument
/// names, and they stand in the order of declaration.
pub proof fn lemma_unused(fields: Seq<FieldValue>, args: Seq<(Seq<char>, ArgValue)>, n: int)
    requires
        0 <= n <= fields.len(),
    ensures
        forall|p: int|
            0 <= p < unused(fields, args, n).len() ==> {
                let i = #[trigger] unused(fields, args, n)[p];
                0 <= i < n && !keyed(args, fields[i].name, args.len() as int)
            },
        forall|p: int, q: int|
            0 <= p < q < unused(fields, args, n).len() ==> (#[trigger] unused(fields, args, n)[p])
                < (#[trigger] unused(fields, args, n)[q]),
    decreases n,
{
    if n > 0 {
        lemma_unused(fields, args, n - 1);
    }
}

/// An argument given under a name makes the name one that the arguments give.
pub proof fn lemma_keyed(args: Seq<(Seq<char>, ArgValue)>, key: Seq<char>, k: int, n: int)
    requires
        0 <= k < n,
        args[k].0 == key,
    ensures
        keyed(args, key, n),
    decreases n,
{
    if k < n - 1 {
        lemma_keyed(args, key, k, n - 1);
    }
}

/// A field holds a value only where an argument is for it.
pub proof fn lemma_held_from(
    fields: Seq<FieldValue>,
    args: Seq<(Seq<char>, ArgValue)>,
    n: int,
    i: int,
) -> (j: int)
    requires
        held(fields, args, n, i) is Some,
    ensures
        0 <= j < n,
        target(fields, args, j) == Some(i),
    decreases n,
{
    if target(fields, args, n - 1) == Some(i) {
        n - 1
    } else {
        lemma_held_from(fields, args, n - 1, i)
    }
}

/// A field for which an argument is holds a value.
pub proof fn lemma_held_by(
    fields: Seq<FieldValue>,
    args: Seq<(Seq<char>, ArgValue)>,
    n: int,
    i: int,
    j: int,
)
    requires
        0 <= j < n,
        target(fields, args, j) == Some(i),
    ensures
        held(fields, args, n, i) is Some,
    decreases n,
{
    if j < n - 1 {
        lemma_held_by(fields, args, n - 1, i, j);
    }
}

/// The count of positional arguments grows with the arguments counted, and
/// passes each positional argument by one.
pub proof fn lemma_positional(args: Seq<(Seq<char>, ArgValue)>, k: int, n: int)
    requires
        0 <= k <= n,
    ensures
        0 <= positional(args, k) <= positional(args, n),
        k < n && args[k].0.len() == 0 ==> positional(args, k) < positional(args, n),
    decreases n,
{
    if k < n {
        lemma_positional(args, k, n - 1);
    } else if k > 0 {
        lemma_positional(args, k - 1, k - 1);
        lemma_positional_nonneg(args, k);
    }
}

proof fn lemma_positional_nonneg(args: Seq<(Seq<char>, ArgValue)>, k: int)
    ensures
        0 <= positional(args, k),
    decreases k,
{
    if k > 0 {
        lemma_positional_nonneg(args, k - 1);
    }
}

/// No argument has a fault exactly when the first fault is none.
pub proof fn lemma_no_fault(fields: Seq<FieldValue>, args: Seq<(Seq<char>, ArgValue)>, n: int)
    requires
        0 <= n,
    ensures
        first_fault(fields, args, n) is None <==> forall|k: int|
            0 <= k < n ==> (#[trigger] fault(fields, args, k)) is None,
    decreases n,
{
    if n > 0 {
        lemma_no_fault(fields, args, n - 1);
        if first_fault(fields, args, n) is None {
            assert forall|k: int| 0 <= k < n implies (#[trigger] fault(fields, args, k))
                is None by {
                if k < n - 1 {
                } else {
                    assert(fault(fields, args, n - 1) is None);
                }
            }
        } else {
            if first_fault(fields, args, n - 1) is None {
                assert(fault(fields, args, n - 1) is Some);
            }
        }
    }
}

/// Whether an argument is given under a name depends only on the arguments
/// looked at.
proof fn lemma_keyed_prefix(args: Seq<(Seq<char>, ArgValue)>, key: Seq<char>, k: int, i: int)
    requires
        0 <= i <= k <= args.len(),
    ensures
        keyed(args.take(k), key, i) == keyed(args, key, i),
    decreases i,
{
    if i > 0 {
        lemma_keyed_prefix(args, key, k, i - 1);
    }
}

/// One more argument takes at most one field away from the fields that no
/// argument names, and a positional argument takes none.
proof fn lemma_unused_step(fields: Seq<FieldValue>, args: Seq<(Seq<char>, ArgValue)>, k: int, j: int)
    requires
        declared(fields),
        0 <= k < args.len(),
        0 <= j <= fields.len(),
    ensures
        unused(fields, args.take(k + 1), j).len() + (if args[k].0.len() > 0 && exists|i: int|
            0 <= i < j && (#[trigger] fields[i]).name == args[k].0 {
            1int
        } else {
            0int
        }) >= unused(fields, args.take(k), j).len(),
    decreases j,
{
    if j > 0 {
        lemma_unused_step(fields, args, k, j - 1);
        let name = fields[j - 1].name;
        let key = args[k].0;
        lemma_keyed_prefix(args, name, k, k);
        lemma_keyed_prefix(args, name, k + 1, k + 1);
        assert(keyed(args, name, k + 1) == (keyed(args, name, k) || key == name));
        assert(args.take(k).len() == k && args.take(k + 1).len() == k + 1);
        if key == name {
            assert(key.len() > 0);
            assert(!exists|i: int| 0 <= i < j - 1 && (#[trigger] fields[i]).name == key) by {
                if exists|i: int| 0 <= i < j - 1 && (#[trigger] fields[i]).name == key {
                    let i = choose|i: int| 0 <= i < j - 1 && (#[trigger] fields[i]).name == key;
                    assert(fields[i].name != fields[j - 1].name);
                }
            }
            assert(fields[j - 1].name == key);
        } else {
            if exists|i: int| 0 <= i < j - 1 && (#[trigger] fields[i]).name == key {
                let i = choose|i: int| 0 <= i < j - 1 && (#[trigger] fields[i]).name == key;
                assert(0 <= i < j && fields[i].name == key);
            }
        }
    }
}

/// The positional arguments and the fields that arguments name are together
/// no more than the arguments.
proof fn lemma_positional_room(fields: Seq<FieldValue>, args: Seq<(Seq<char>, ArgValue)>, k: int)
    requires
        declared(fields),
        0 <= k <= args.len(),
    ensures
        positional(args, k) + fields.len() - unused(fields, args.take(k), fields.len() as int).len()
            <= k,
    decreases k,
{
    let m = fields.len() as int;
    if k == 0 {
        lemma_all_unused(fields, args.take(0), m);
    } else {
        lemma_positional_room(fields, args, k - 1);
        lemma_unused_step(fields, args, k - 1, m);
    }
}

/// Where there are no arguments, no field is named.
proof fn lemma_all_unused(fields: Seq<FieldValue>, args: Seq<(Seq<char>, ArgValue)>, j: int)
    requires
        args.len() == 0,
        0 <= j <= fields.len(),
    ensures
        unused(fields, args, j).len() == j,
    decreases j,
{
    if j > 0 {
        lemma_all_unused(fields, args, j - 1);
    }
}

/// Where the arguments are no more than the fields, there is a field that
/// no argument names for each positional argument.
pub proof fn lemma_positional_fit_always(fields: Seq<FieldValue>, args: Seq<(Seq<char>, ArgValue)>)
    requires
        declared(fields),
        args.len() <= fields.len(),
    ensures
        positional_fit(fields, args),
{
    lemma_positional_room(fields, args, args.len() as int);
    assert(args.take(args.len() as int) =~= args);
}

/// The arguments are refused for too many positional arguments exactly
/// when they are more than the fields and all of them are positional: fewer
/// arguments always leave room for the positional ones.
pub proof fn lemma_positional_refused_iff(
    fields: Seq<FieldValue>,
    args: Seq<(Seq<char>, ArgValue)>,
)
    requires
        declared(fields),
    ensures
        parse_spec(fields, args) == Err::<Seq<Option<ArgValue>>, ParseFault>(
            ParseFault::TooManyPositionalArguments,
        ) <==> args.len() > fields.len() && positional(args, args.len() as int) == args.len(),
{
    if args.len() <= fields.len() {
        lemma_positional_fit_always(fields, args);
        lemma_never_too_many(fields, args, args.len() as int);
    }
}

proof fn lemma_never_too_many(fields: Seq<FieldValue>, args: Seq<(Seq<char>, ArgValue)>, n: int)
    requires
        0 <= n <= args.len(),
        positional_fit(fields, args),
    ensures
        first_fault(fields, args, n) != Some(ParseFault::TooManyPositionalArguments),
    decreases n,
{
    if n > 0 {
        lemma_never_too_many(fields, args, n - 1);
        if args[n - 1].0.len() == 0 {
            lemma_positional(args, n - 1, args.len() as int);
        }
    }
}

/// Each argument holds a value of the kind of the field that it is for.
pub open spec fn well_typed(fields: Seq<FieldValue>, args: Seq<(Seq<char>, ArgValue)>) -> bool {
    forall|k: int|
        0 <= k < args.len() ==> (#[trigger] target(fields, args, k) matches Some(i)
            ==> fields[i].kind.accepts(args[k].1))
}

/// Each named argument names a field.
pub open spec fn names_known(fields: Seq<FieldValue>, args: Seq<(Seq<char>, ArgValue)>) -> bool {
    forall|k: int|
        0 <= k < args.len() && (#[trigger] args[k]).0.len() > 0 ==> field_index(
            fields,
            args[k].0,
            fields.len() as int,
        ) is Some
}

/// No two named arguments share their name.
pub open spec fn names_unique(args: Seq<(Seq<char>, ArgValue)>) -> bool {
    forall|j: int, k: int|
        0 <= j < k < args.len() && (#[trigger] args[j]).0.len() > 0 ==> args[j].0 != (
        #[trigger] args[k]).0
}

/// There is a field that no argument names for each positional argument.
pub open spec fn positional_fit(fields: Seq<FieldValue>, args: Seq<(Seq<char>, ArgValue)>) -> bool {
    positional(args, args.len() as int) <= unused(fields, args, fields.len() as int).len()
}

/// Arguments no more than the fields, each of the kind of its field, are
/// taken exactly when each named argument names a field, no two of them the
/// same; the positional arguments then find fields that no argument names.
/// A named argument is held by the field of its name, and the
/// positional arguments by the fields that no argument names, in the order
/// of declaration; so a flag that is named holds the absent value, and a
/// flag that is not named holds nothing.
pub proof fn lemma_parse_succeeds_iff(fields: Seq<FieldValue>, args: Seq<(Seq<char>, ArgValue)>)
    requires
        declared(fields),
        args.len() <= fields.len(),
        well_typed(fields, args),
    ensures
        parse_spec(fields, args) is Ok <==> names_known(fields, args) && names_unique(args),
        positional_fit(fields, args),
        parse_spec(fields, args) matches Ok(values) ==> {
            &&& values.len() == fields.len()
            &&& forall|k: int|
                0 <= k < args.len() ==> (#[trigger] target(fields, args, k) matches Some(i) && 0
                    <= i < fields.len() && values[i] == Some(args[k].1))
            &&& forall|i: int|
                0 <= i < fields.len() && !keyed(args, fields[i].name, args.len() as int)
                    && !unused(fields, args, fields.len() as int).take(
                    positional(args, args.len() as int),
                ).contains(i) ==> (#[trigger] values[i]) is None
        },
{
    let n = args.len() as int;
    let m = fields.len() as int;
    let free = unused(fields, args, m);
    lemma_no_fault(fields, args, n);
    lemma_unused(fields, args, m);
    lemma_positional(args, 0, n);
    lemma_positional_fit_always(fields, args);
    if parse_spec(fields, args) is Ok {
        assert(first_fault(fields, args, n) is None);
        assert forall|k: int| 0 <= k < n && (#[trigger] args[k]).0.len() > 0 implies field_index(
            fields,
            args[k].0,
            m,
        ) is Some by {
            assert(fault(fields, args, k) is None);
        }
        assert forall|j: int, k: int|
            0 <= j < k < n && (#[trigger] args[j]).0.len() > 0 implies args[j].0 != (
            #[trigger] args[k]).0 by {
            if args[j].0 == args[k].0 {
                assert(fault(fields, args, j) is None);
                assert(fault(fields, args, k) is None);
                let i = target(fields, args, k)->Some_0;
                lemma_held_by(fields, args, k, i, j);
            }
        }
        let values = parse_spec(fields, args)->Ok_0;
        assert forall|k: int| 0 <= k < n implies (#[trigger] target(fields, args, k) matches Some(
            i,
        ) && 0 <= i < m && values[i] == Some(args[k].1)) by {
            assert(fault(fields, args, k) is None);
            let i = target(fields, args, k)->Some_0;
            lemma_target_in_range(fields, args, k);
            lemma_held_value(fields, args, n, k);
        }
        assert forall|i: int|
            0 <= i < m && !keyed(args, fields[i].name, n) && !free.take(
                positional(args, n),
            ).contains(i) implies (#[trigger] values[i]) is None by {
            if held(fields, args, n, i) is Some {
                let j = lemma_held_from(fields, args, n, i);
                if args[j].0.len() == 0 {
                    lemma_positional(args, j, n);
                    let p = positional(args, j);
                    assert(free.take(positional(args, n))[p] == i);
                } else {
                    lemma_field_index(fields, args[j].0, m);
                    lemma_keyed(args, args[j].0, j, n);
                }
            }
        }
    }
    if names_known(fields, args) && names_unique(args) && positional_fit(fields, args) {
        assert forall|k: int| 0 <= k < n implies (#[trigger] fault(fields, args, k)) is None by {
            let key = args[k].0;
            if key.len() == 0 {
                lemma_positional(args, k, n);
                let p = positional(args, k);
                let i = free[p];
                assert(target(fields, args, k) == Some(i));
                if held(fields, args, k, i) is Some {
                    let j = lemma_held_from(fields, args, k, i);
                    if args[j].0.len() == 0 {
                        lemma_positional(args, j, k);
                        lemma_positional(args, j, n);
                        let q = positional(args, j);
                        assert(free[q] < free[p]);
                    } else {
                        lemma_field_index(fields, args[j].0, m);
                        lemma_keyed(args, args[j].0, j, n);
                    }
                }
            } else {
                assert(args[k].0.len() > 0);
                lemma_field_index(fields, key, m);
                let i = field_index(fields, key, m)->Some_0;
                if held(fields, args, k, i) is Some {
                    let j = lemma_held_from(fields, args, k, i);
                    if args[j].0.len() == 0 {
                        lemma_positional(args, j, n);
                        let q = positional(args, j);
                        assert(free[q] == i);
                        lemma_keyed(args, key, k, n);
                    } else {
                        lemma_field_index(fields, args[j].0, m);
                        assert(args[j].0.len() > 0);
                    }
                }
            }
            assert(target(fields, args, k) matches Some(i) ==> fields[i].kind.accepts(args[k].1));
        }
    }
}

/// The field that an argument is for is one of the fields.
proof fn lemma_target_in_range(fields: Seq<FieldValue>, args: Seq<(Seq<char>, ArgValue)>, k: int)
    requires
        0 <= k < args.len(),
    ensures
        target(fields, args, k) matches Some(i) ==> 0 <= i < fields.len(),
{
    lemma_unused(fields, args, fields.len() as int);
    lemma_field_index(fields, args[k].0, fields.len() as int);
    lemma_positional_nonneg(args, k);
    if args[k].0.len() == 0 && target(fields, args, k) is Some {
        let i = unused(fields, args, fields.len() as int)[positional(args, k)];
        assert(0 <= i < fields.len());
    }
}

/// Where no argument has a fault, the field that an argument is for holds
/// the value of that argument.
proof fn lemma_held_value(
    fields: Seq<FieldValue>,
    args: Seq<(Seq<char>, ArgValue)>,
    n: int,
    k: int,
)
    requires
        0 <= k < n <= args.len(),
        forall|j: int| 0 <= j < n ==> (#[trigger] fault(fields, args, j)) is None,
        target(fields, args, k) is Some,
    ensures
        held(fields, args, n, target(fields, args, k)->Some_0) == Some(args[k].1),
    decreases n,
{
    let i = target(fields, args, k)->Some_0;
    if k < n - 1 {
        lemma_held_value(fields, args, n - 1, k);
        if target(fields, args, n - 1) == Some(i) {
            assert(fault(fields, args, n - 1) is None);
            lemma_held_by(fields, args, n - 1, i, k);
        }
    }
}


fn find_field(fields: &[Field], key: &String) -> (r: Option<usize>)
    ensures
        match field_index(field_values(fields@), key@, fields@.len() as int) {
            Some(i) => r == Some(i as usize) && 0 <= i < fields@.len() && fields@[i].name@ == key@,
            None => r is None,
        },
{
    let ghost fs = field_values(fields@);
    let mut i: usize = 0;
    while i < fields.len()
        invariant
            i <= fields@.len(),
            fs == field_values(fields@),
            field_index(fs, key@, i as int) is None,
        decreases fields@.len() - i,
    {
        assert(fs[i as int] == fields@[i as int]@);
        if fields[i].name == *key {
            proof {
                lemma_field_index_found(fs, key@, i as int, fields@.len() as int);
            }
            return Some(i);
        }
        i += 1;
    }
    None
}

/// Once a field called `key` is found at `i`, and none before it, the search
/// among more fields still gives `i`.
proof fn lemma_field_index_found(fields: Seq<FieldValue>, key: Seq<char>, i: int, n: int)
    requires
        0 <= i < n <= fields.len(),
        field_index(fields, key, i) is None,
        fields[i].name == key,
    ensures
        field_index(fields, key, n) == Some(i),
    decreases n - i,
{
    if n > i + 1 {
        lemma_field_index_found(fields, key, i, n - 1);
    }
}

/// The first argument with a fault decides, however many follow it.
proof fn lemma_first_fault_at(
    fields: Seq<FieldValue>,
    args: Seq<(Seq<char>, ArgValue)>,
    k: int,
    n: int,
)
    requires
        0 <= k < n,
        first_fault(fields, args, k) is None,
        fault(fields, args, k) is Some,
    ensures
        first_fault(fields, args, n) == fault(fields, args, k),
    decreases n - k,
{
    if n > k + 1 {
        lemma_first_fault_at(fields, args, k, n - 1);
    }
}

fn is_keyed(args: &[(String, Argument)], key: &String) -> (r: bool)
    ensures
        r == keyed(pairs_view(args@), key@, args@.len() as int),
{
    let ghost a = pairs_view(args@);
    let mut k: usize = 0;
    while k < args.len()
        invariant
            k <= args@.len(),
            a == pairs_view(args@),
            !keyed(a, key@, k as int),
        decreases args@.len() - k,
    {
        assert(a[k as int].0 == args@[k as int].0@);
        if args[k].0 == *key {
            proof {
                lemma_keyed_grows(a, key@, k + 1, args@.len() as int);
            }
            return true;
        }
        k += 1;
    }
    false
}

proof fn lemma_keyed_grows(args: Seq<(Seq<char>, ArgValue)>, key: Seq<char>, m: int, n: int)
    requires
        m <= n,
        keyed(args, key, m),
    ensures
        keyed(args, key, n),
    decreases n - m,
{
    if m < n {
        lemma_keyed_grows(args, key, m, n - 1);
    }
}

fn unused_fields(fields: &[Field], args: &[(String, Argument)]) -> (free: Vec<usize>)
    ensures
        free@.len() == unused(
            field_values(fields@),
            pairs_view(args@),
            fields@.len() as int,
        ).len(),
        forall|p: int|
            0 <= p < free@.len() ==> (#[trigger] free@[p]) as int == unused(
                field_values(fields@),
                pairs_view(args@),
                fields@.len() as int,
            )[p] && free@[p] < fields@.len(),
{
    let ghost fs = field_values(fields@);
    let ghost a = pairs_view(args@);
    let mut free: Vec<usize> = Vec::new();
    let mut i: usize = 0;
    while i < fields.len()
        invariant
            i <= fields@.len(),
            fs == field_values(fields@),
            a == pairs_view(args@),
            free@.len() == unused(fs, a, i as int).len(),
            forall|p: int|
                0 <= p < free@.len() ==> (#[trigger] free@[p]) as int == unused(fs, a, i as int)[p]
                    && free@[p] < fields@.len(),
        decreases fields@.len() - i,
    {
        assert(fs[i as int] == fields@[i as int]@);
        if !is_keyed(args, &fields[i].name) {
            free.push(i);
        }
        i += 1;
    }
    free
}

/// A cursor over a list of arguments: it hands out the name of an argument,
/// then its value, then the name of the next. The items of a list can be
/// walked through before the list is left behind.
pub struct Deserializer<'de> {
    args: &'de [(String, Argument)],
    pos: usize,
    ident: bool,
    list_pos: Option<usize>,
}

impl<'de> Deserializer<'de> {
    #[verifier::type_invariant]
    spec fn in_range(self) -> bool {
        &&& self.pos <= self.args@.len()
        &&& !self.ident ==> self.pos < self.args@.len()
        &&& self.list_pos matches Some(p) ==> !self.ident && self.args@[self.pos as int].1 is Vec
            && p <= self.args@[self.pos as int].1->Vec_0@.len()
    }

    /// The arguments that the cursor walks over.
    pub closed spec fn source(&self) -> Seq<(String, Argument)> {
        self.args@
    }

    /// The number of arguments that the cursor has left behind.
    pub closed spec fn position(&self) -> nat {
        self.pos as nat
    }

    /// Whether a name comes next, and not a value.
    pub closed spec fn expects_key(&self) -> bool {
        self.ident
    }

    /// The place in the list that is walked through, if one is.
    pub closed spec fn list_position(&self) -> Option<usize> {
        self.list_pos
    }

    /// The value that comes next: the next item of the list that is walked
    /// through, or the value of the argument at the cursor.
    pub closed spec fn upcoming(&self) -> Argument {
        match self.list_pos {
            Some(p) => self.args@[self.pos as int].1->Vec_0@[p as int],
            None => self.args@[self.pos as int].1,
        }
    }

    /// A cursor at the start of `args`.
    pub fn from_args(args: &'de [(String, Argument)]) -> (de: Deserializer<'de>)
        ensures
            de.source() == args@,
            de.position() == 0,
            de.expects_key(),
            de.list_position() is None,
    {
        Deserializer { args, pos: 0, ident: true, list_pos: None }
    }

    /// Whether all arguments are left behind.
    pub fn is_done(&self) -> (done: bool)
        requires
            self.expects_key(),
        ensures
            done == (self.position() == self.source().len()),
            self.position() <= self.source().len(),
    {
        proof {
            use_type_invariant(self);
        }
        self.pos == self.args.len()
    }

    /// The name of the argument at the cursor. Its value comes next.
    pub fn next_key(&mut self) -> (key: &'de String)
        requires
            old(self).expects_key(),
            old(self).position() < old(self).source().len(),
        ensures
            *key == old(self).source()[old(self).position() as int].0,
            !final(self).expects_key(),
            final(self).list_position() is None,
            final(self).position() == old(self).position(),
            final(self).source() == old(self).source(),
    {
        proof {
            use_type_invariant(&*self);
        }
        self.ident = false;
        &self.args[self.pos].0
    }

    /// The value that comes next, without moving the cursor.
    pub fn peek_next_value(&self) -> (value: &'de Argument)
        requires
            !self.expects_key(),
            self.list_position() matches Some(p) ==> p < self.source()[self.position() as int].1->Vec_0@.len(),
        ensures
            *value == self.upcoming(),
            self.list_position() is None ==> *value == self.source()[self.position() as int].1,
    {
        proof {
            use_type_invariant(self);
        }
        match self.list_pos {
            Some(p) => match &self.args[self.pos].1 {
                Argument::Vec(items) => &items[p],
                other => other,
            },
            None => &self.args[self.pos].1,
        }
    }

    /// The value that comes next. In a list, the cursor moves to the next
    /// item; else it leaves the argument behind, and a name comes next.
    pub fn next_value(&mut self) -> (value: &'de Argument)
        requires
            !old(self).expects_key(),
            old(self).list_position() matches Some(p) ==> p < old(self).source()[old(
                self,
            ).position() as int].1->Vec_0@.len(),
        ensures
            *value == old(self).upcoming(),
            final(self).source() == old(self).source(),
            match old(self).list_position() {
                Some(p) => final(self).list_position() == Some((p + 1) as usize)
                    && final(self).position() == old(self).position() && !final(self).expects_key(),
                None => final(self).list_position() is None && final(self).position() == old(
                    self,
                ).position() + 1 && final(self).expects_key() && *value == old(self).source()[old(
                    self,
                ).position() as int].1,
            },
    {
        proof {
            use_type_invariant(&*self);
        }
        match self.list_pos {
            Some(p) => match &self.args[self.pos].1 {
                Argument::Vec(items) => {
                    let count = items.len();
                    assert(p < count);
                    self.list_pos = Some(p + 1);
                    &items[p]
                },
                other => other,
            },
            None => {
                let value = &self.args[self.pos].1;
                self.ident = true;
                self.pos = self.pos + 1;
                value
            },
        }
    }

    /// Starts to walk through the list that comes next, and gives the number
    /// of its items; or gives nothing, where no list comes next.
    pub fn enter_list(&mut self) -> (len: Option<usize>)
        requires
            !old(self).expects_key(),
            old(self).list_position() is None,
        ensures
            final(self).source() == old(self).source(),
            final(self).position() == old(self).position(),
            !final(self).expects_key(),
            match len {
                Some(n) => old(self).upcoming() is Vec && n == old(self).upcoming()->Vec_0@.len()
                    && final(self).list_position() == Some(0usize),
                None => !(old(self).upcoming() is Vec) && final(self).list_position() is None,
            },
    {
        proof {
            use_type_invariant(&*self);
        }
        match &self.args[self.pos].1 {
            Argument::Vec(items) => {
                self.list_pos = Some(0);
                Some(items.len())
            },
            _ => None,
        }
    }

    /// Leaves the list that is walked through, and the argument that holds
    /// it, behind. A name comes next.
    pub fn leave_list(&mut self)
        requires
            old(self).list_position() is Some,
        ensures
            final(self).source() == old(self).source(),
            final(self).position() == old(self).position() + 1,
            final(self).expects_key(),
            final(self).list_position() is None,
    {
        proof {
            use_type_invariant(&*self);
        }
        let count = self.args.len();
        assert(self.pos < count);
        self.list_pos = None;
        self.ident = true;
        self.pos = self.pos + 1;
    }
}

/// Whether every argument is positional.
fn all_positional(args: &[(String, Argument)]) -> (r: bool)
    ensures
        r == (positional(pairs_view(args@), args@.len() as int) == args@.len()),
{
    let ghost a = pairs_view(args@);
    let mut k: usize = 0;
    while k < args.len()
        invariant
            k <= args@.len(),
            a == pairs_view(args@),
            positional(a, k as int) == k,
        decreases args@.len() - k,
    {
        assert(a[k as int].0 == args@[k as int].0@);
        if args[k].0.as_str().unicode_len() != 0 {
            proof {
                lemma_positional_short(a, k + 1, a.len() as int);
            }
            return false;
        }
        k += 1;
    }
    true
}

/// Once a named argument is among the first `k`, the positional ones are
/// fewer than the arguments, however many follow.
proof fn lemma_positional_short(args: Seq<(Seq<char>, ArgValue)>, k: int, n: int)
    requires
        0 < k <= n,
        positional(args, k) < k,
    ensures
        positional(args, n) < n,
    decreases n - k,
{
    if k < n {
        lemma_positional_short(args, k, n - 1);
    }
}

/// Fits a list of arguments to the fields that a component declares.
///
/// Gives, for each field in the order of declaration, the value that the
/// arguments hold for it, or `None` where they hold none. A flag that is
/// given holds the absent value.
pub fn parse_args(args: &[(String, Argument)], fields: &[Field]) -> (r: Result<
    Vec<Option<Argument>>,
    ArgParseError,
>)
    ensures
        match parse_spec(field_values(fields@), pairs_view(args@)) {
            Ok(values) => r is Ok && slot_values(r->Ok_0@) == values,
            Err(e) => r is Err && r->Err_0@ == e,
        },
{
    let ghost fs = field_values(fields@);
    let ghost a = pairs_view(args@);
    if args.len() > fields.len() {
        if all_positional(args) {
            return Err(ArgParseError::TooManyPositionalArguments);
        }
        return Err(
            ArgParseError::TooManyArguments { supplied: args.len(), expected: fields.len() },
        );
    }
    let free = unused_fields(fields, args);
    let mut slots: Vec<Option<Argument>> = Vec::new();
    let mut i: usize = 0;
    while i < fields.len()
        invariant
            i <= fields@.len(),
            slots@.len() == i,
            forall|j: int| 0 <= j < i ==> (#[trigger] slots@[j]) is None,
        decreases fields@.len() - i,
    {
        slots.push(None);
        i += 1;
    }
    let mut de = Deserializer::from_args(args);
    let mut k: usize = 0;
    let mut p: usize = 0;
    while !de.is_done()
        invariant
            k <= args@.len(),
            de.source() == args@,
            de.position() == k,
            de.expects_key(),
            fs == field_values(fields@),
            a == pairs_view(args@),
            slots@.len() == fields@.len(),
            args@.len() <= fields@.len(),
            p == positional(a, k as int),
            p <= k,
            free@.len() == unused(fs, a, fields@.len() as int).len(),
            forall|q: int|
                0 <= q < free@.len() ==> (#[trigger] free@[q]) as int == unused(
                    fs,
                    a,
                    fields@.len() as int,
                )[q] && free@[q] < fields@.len(),
            first_fault(fs, a, k as int) is None,
            forall|j: int|
                0 <= j < slots@.len() ==> (match #[trigger] slots@[j] {
                    Some(v) => held(fs, a, k as int, j) == Some(v@),
                    None => held(fs, a, k as int, j) is None,
                }),
        decreases args@.len() - k,
    {
        let key = de.next_key();
        let value = de.next_value();
        assert(a[k as int] == (key@, value@));
        let found: Option<usize> = if key.as_str().unicode_len() == 0 {
            if p < free.len() {
                Some(free[p])
            } else {
                None
            }
        } else {
            find_field(fields, key)
        };
        assert(match target(fs, a, k as int) {
            Some(t) => 0 <= t < fields@.len() && found == Some(t as usize),
            None => found is None,
        });
        let at = match found {
            Some(at) => at,
            None => {
                proof {
                    lemma_first_fault_at(fs, a, k as int, a.len() as int);
                }
                if key.as_str().unicode_len() == 0 {
                    return Err(ArgParseError::TooManyPositionalArguments);
                } else {
                    let mut m = String::from_str("unknown field `");
                    m.append(key.as_str());
                    m.append("`");
                    return Err(ArgParseError::DeserializeError(m));
                }
            },
        };
        assert(fs[at as int] == fields@[at as int]@);
        if slots[at].is_some() {
            proof {
                assert(target(fs, a, k as int) == Some(at as int));
                assert(slots@[at as int] is Some);
                assert(held(fs, a, k as int, at as int) is Some);
                assert(fault(fs, a, k as int) is Some);
                lemma_first_fault_at(fs, a, k as int, a.len() as int);
            }
            let mut m = String::from_str("duplicate field `");
            m.append(key.as_str());
            m.append("`");
            return Err(ArgParseError::DeserializeError(m));
        }
        if !fields[at].kind.takes(value) {
            proof {
                assert(target(fs, a, k as int) == Some(at as int));
                assert(slots@[at as int] is None);
                assert(held(fs, a, k as int, at as int) is None);
                assert(fault(fs, a, k as int) is Some);
                lemma_first_fault_at(fs, a, k as int, a.len() as int);
            }
            return Err(
                ArgParseError::TypeError {
                    supplied: value.type_label(),
                    expected: fields[at].kind.expected(),
                },
            );
        }
        slots.set(at, Some(copy_of(value)));
        if key.as_str().unicode_len() == 0 {
            p += 1;
        }
        k += 1;
    }
    proof {
        let wanted = Seq::new(fs.len(), |i: int| held(fs, a, a.len() as int, i));
        assert(slot_values(slots@) =~= wanted);
    }
    Ok(slots)
}

/// The misuse that an error of fitting arguments is reported as.
pub open spec fn misfit(fault: ParseFault) -> ErrorValue {
    ErrorValue { kind: ErrorKind::Misuse, msg: ArgParseError::spec_message(fault), source: None }
}

/// Fits a list of arguments to the fields of a component, as [`parse_args`]
/// does, and reports an error as a misuse.
pub fn fit(args: &[(String, Argument)], fields: &[Field]) -> (r: Result<
    Vec<Option<Argument>>,
    Error,
>)
    ensures
        match parse_spec(field_values(fields@), pairs_view(args@)) {
            Ok(values) => r is Ok && slot_values(r->Ok_0@) == values,
            Err(e) => r is Err && r->Err_0@ == misfit(e),
        },
{
    match parse_args(args, fields) {
        Ok(values) => Ok(values),
        Err(e) => Err(Error::misuse(e.message(), None)),
    }
}

/// The text that the field `i` holds, if it holds text.
pub open spec fn text_of(values: Seq<Option<ArgValue>>, i: int) -> Option<Seq<char>> {
    if 0 <= i < values.len() && values[i] matches Some(ArgValue::Text(s)) {
        Some(values[i]->Some_0->Text_0)
    } else {
        None
    }
}

/// The number that the field `i` holds, if it holds a number.
pub open spec fn number_of(values: Seq<Option<ArgValue>>, i: int) -> Option<u64> {
    if 0 <= i < values.len() && values[i] matches Some(ArgValue::Number(x)) {
        Some(values[i]->Some_0->Number_0)
    } else {
        None
    }
}

/// The length of the list that the field `i` holds, if it holds a list.
pub open spec fn list_len_of(values: Seq<Option<ArgValue>>, i: int) -> Option<nat> {
    if 0 <= i < values.len() && values[i] matches Some(ArgValue::List(l)) {
        Some(values[i]->Some_0->List_0.len())
    } else {
        None
    }
}

/// Whether the field `i` was given.
pub open spec fn given(values: Seq<Option<ArgValue>>, i: int) -> bool {
    0 <= i < values.len() && values[i] is Some
}

/// The text that the field `i` holds, if it holds text.
pub fn text_at(values: &Vec<Option<Argument>>, i: usize) -> (r: Option<&String>)
    ensures
        match text_of(slot_values(values@), i as int) {
            Some(s) => r is Some && r->Some_0@ == s,
            None => r is None,
        },
{
    if i < values.len() {
        match &values[i] {
            Some(Argument::String(s)) => Some(s),
            _ => None,
        }
    } else {
        None
    }
}

/// The number that the field `i` holds, if it holds a number.
pub fn number_at(values: &Vec<Option<Argument>>, i: usize) -> (r: Option<u64>)
    ensures
        r == number_of(slot_values(values@), i as int),
{
    if i < values.len() {
        match &values[i] {
            Some(Argument::Int(x)) => Some(*x),
            _ => None,
        }
    } else {
        None
    }
}

/// The length of the list that the field `i` holds, if it holds a list.
pub fn list_len_at(values: &Vec<Option<Argument>>, i: usize) -> (r: Option<usize>)
    ensures
        match list_len_of(slot_values(values@), i as int) {
            Some(n) => r is Some && r->Some_0 as nat == n,
            None => r is None,
        },
{
    if i < values.len() {
        match &values[i] {
            Some(Argument::Vec(v)) => {
                proof {
                    crate::argument::lemma_list_view(*v);
                }
                Some(v.len())
            },
            _ => None,
        }
    } else {
        None
    }
}

/// Whether the field `i` was given: for a flag, whether it is set.
pub fn is_given(values: &Vec<Option<Argument>>, i: usize) -> (r: bool)
    ensures
        r == given(slot_values(values@), i as int),
{
    i < values.len() && values[i].is_some()
}

/// Whether a text is there and reads `wanted`.
pub fn text_is(text: Option<&String>, wanted: &str) -> (r: bool)
    ensures
        r == (text is Some && text->Some_0@ == wanted@),
{
    match text {
        Some(t) => *t == String::from_str(wanted),
        None => false,
    }
}

/// A misuse with the text `msg` and no source.
pub open spec fn misuse(msg: Seq<char>) -> ErrorValue {
    ErrorValue { kind: ErrorKind::Misuse, msg, source: None }
}

} // verus!
