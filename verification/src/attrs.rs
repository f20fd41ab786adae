//! Reading a struct of settings out of `#[name = value]` attributes.
//!
//! Each field starts at its default. The attributes are read in order: one
//! whose name is a field's name sets that field from its value (a later one
//! overrides an earlier one); an attribute with another name, or one that is
//! not of the form `name = value`, is refused with an error. A value that the
//! field cannot take, or an attribute that is not a meta item, stops the
//! derive (the code that the settings derive generates unwraps there).
use vstd::prelude::*;
use crate::model::{Lit, Meta, unwrap_none_message, unwrap_none_message_string};

verus! {

/// What setting one field from an attribute gives.
pub enum Step<V> {
    /// The settings after the field took the value.
    Assigned(V),
    /// No field has the attribute's name.
    UnknownKey,
    /// The field cannot take the value: the derive panics with this message.
    BadValue(Seq<char>),
}

/// What `FromAttrs::assign` reports.
#[derive(Debug)]
pub enum AssignResult {
    Assigned,
    UnknownKey,
    BadValue(String),
}

/// A struct of settings that can be read from attributes.
pub trait FromAttrs: View + Sized {
    /// The struct's name, as the error messages give it.
    spec fn struct_name() -> Seq<char>;

    /// The settings before any attribute is read.
    spec fn initial() -> Self::V;

    /// Setting the field named `key` from `lit`.
    spec fn assigned(v: Self::V, key: Seq<char>, lit: Lit) -> Step<Self::V>;

    fn struct_name_string() -> (r: String)
        ensures
            r@ == Self::struct_name(),
    ;

    fn initial_value() -> (r: Self)
        ensures
            r@ == Self::initial(),
    ;

    fn assign(&mut self, key: &String, lit: &Lit) -> (r: AssignResult)
        ensures
            match Self::assigned(old(self)@, key@, *lit) {
                Step::Assigned(v) => r is Assigned && final(self)@ == v,
                Step::UnknownKey => r is UnknownKey,
                Step::BadValue(m) => r matches AssignResult::BadValue(s) && s@ == m,
            },
    ;
}

/// The outcome of reading attributes.
pub enum Reading<V> {
    /// The settings that the attributes give.
    Parsed(V),
    /// The error that the reading returns.
    Rejected(Seq<char>),
    /// The reading panics with this message.
    Aborted(Seq<char>),
}

pub open spec fn unknown_meta_message<T: FromAttrs>() -> Seq<char> {
    "Unknown Meta Message in "@ + T::struct_name()
}

pub open spec fn only_name_value_message() -> Seq<char> {
    "Only NameValue Attribute is supported"@
}

/// Reading one more attribute into the settings `v`.
pub open spec fn read_attr<T: FromAttrs>(v: T::V, m: Meta) -> Reading<T::V> {
    match m {
        Meta::NameValue { name, lit } => match T::assigned(v, name@, lit) {
            Step::Assigned(w) => Reading::Parsed(w),
            Step::UnknownKey => Reading::Rejected(unknown_meta_message::<T>()),
            Step::BadValue(msg) => Reading::Aborted(msg),
        },
        Meta::Unparsed => Reading::Aborted(unwrap_none_message()),
        _ => Reading::Rejected(only_name_value_message()),
    }
}

/// Reading the attributes `attrs`, in order, from the initial settings.
pub open spec fn read_attrs<T: FromAttrs>(attrs: Seq<Meta>) -> Reading<T::V>
    decreases attrs.len(),
{
    if attrs.len() == 0 {
        Reading::Parsed(T::initial())
    } else {
        match read_attrs::<T>(attrs.drop_last()) {
            Reading::Parsed(v) => read_attr::<T>(v, attrs.last()),
            other => other,
        }
    }
}

/// The outcome of reading attributes, with the settings as a value.
#[derive(Debug)]
pub enum AttrsOutcome<T> {
    Parsed(T),
    Rejected(String),
    Aborted(String),
}

impl<T: View> View for AttrsOutcome<T> {
    type V = Reading<T::V>;

    open spec fn view(&self) -> Reading<T::V> {
        match self {
            AttrsOutcome::Parsed(t) => Reading::Parsed(t@),
            AttrsOutcome::Rejected(e) => Reading::Rejected(e@),
            AttrsOutcome::Aborted(m) => Reading::Aborted(m@),
        }
    }
}

/// Reads the attributes `attrs` into settings of type `T`.
pub fn read_attributes<T: FromAttrs>(attrs: &Vec<Meta>) -> (r: AttrsOutcome<T>)
    ensures
        r@ == read_attrs::<T>(attrs@),
{
    let mut v = T::initial_value();
    let n = attrs.len();
    assert(attrs@.take(0) =~= Seq::<Meta>::empty());
    for i in 0..n
        invariant
            n == attrs@.len(),
            read_attrs::<T>(attrs@.take(i as int)) == Reading::Parsed(v@),
    {
        proof {
            assert(attrs@.take(i + 1).drop_last() =~= attrs@.take(i as int));
            assert(attrs@.take(i + 1).last() == attrs@[i as int]);
        }
        match &attrs[i] {
            Meta::NameValue { name, lit } => {
                match v.assign(name, lit) {
                    AssignResult::Assigned => {},
                    AssignResult::UnknownKey => {
                        let mut msg = String::from_str("Unknown Meta Message in ");
                        let s = T::struct_name_string();
                        msg.append(s.as_str());
                        proof { lemma_read_attrs_stops::<T>(attrs@, i as int); }
                        return AttrsOutcome::Rejected(msg);
                    },
                    AssignResult::BadValue(m) => {
                        proof { lemma_read_attrs_stops::<T>(attrs@, i as int); }
                        return AttrsOutcome::Aborted(m);
                    },
                }
            },
            Meta::Unparsed => {
                proof { lemma_read_attrs_stops::<T>(attrs@, i as int); }
                return AttrsOutcome::Aborted(unwrap_none_message_string());
            },
            _ => {
                proof { lemma_read_attrs_stops::<T>(attrs@, i as int); }
                return AttrsOutcome::Rejected(String::from_str("Only NameValue Attribute is supported"));
            },
        }
    }
    assert(attrs@.take(n as int) =~= attrs@);
    AttrsOutcome::Parsed(v)
}

/// Reads settings of type `T` from `attrs`: `Err` holds the error that the
/// reading returns. (Where the reading panics, the input is left out.)
pub fn from_attrs<T: FromAttrs>(attrs: &Vec<Meta>) -> (r: Result<T, String>)
    requires
        !(read_attrs::<T>(attrs@) is Aborted),
    ensures
        r matches Ok(t) ==> read_attrs::<T>(attrs@) == Reading::<T::V>::Parsed(t@),
        r matches Err(e) ==> read_attrs::<T>(attrs@) == Reading::<T::V>::Rejected(e@),
{
    match read_attributes::<T>(attrs) {
        AttrsOutcome::Parsed(t) => Ok(t),
        AttrsOutcome::Rejected(e) => Err(e),
        AttrsOutcome::Aborted(m) => Err(m),
    }
}

/// Once the reading of a prefix of the attributes has stopped, reading more
/// of them does not change the outcome.
pub proof fn lemma_read_attrs_stops<T: FromAttrs>(attrs: Seq<Meta>, i: int)
    requires
        0 <= i < attrs.len(),
        !(read_attrs::<T>(attrs.take(i + 1)) is Parsed),
    ensures
        read_attrs::<T>(attrs) == read_attrs::<T>(attrs.take(i + 1)),
    decreases attrs.len(),
{
    if attrs.len() > i + 1 {
        assert(attrs.drop_last().take(i + 1) =~= attrs.take(i + 1));
        lemma_read_attrs_stops::<T>(attrs.drop_last(), i);
    } else {
        assert(attrs.take(i + 1) =~= attrs);
    }
}

} // verus!
