//! Values bound to a statement or read from a row.

use crate::error::Error;
use crate::text::{copy_text, text_of};
use crate::util::Timestamp;
use vstd::prelude::*;
use vstd::std_specs::convert::FromSpecImpl;
use vstd::string::StringExecFns;

verus! {

/// One value of a column: the column's type and, unless the value is null,
/// what it holds.
#[derive(Debug, Clone, PartialEq, Eq)]
pub enum Value {
    Bool(Option<bool>),
    Int(Option<i32>),
    Unsigned(Option<u32>),
    String(Option<String>),
    Bytes(Option<Vec<u8>>),
    DateTime(Option<Timestamp>),
}

/// What a value holds, with texts as sequences of characters and bytes as
/// sequences of bytes.
pub enum ValueView {
    Bool(Option<bool>),
    Int(Option<i32>),
    Unsigned(Option<u32>),
    String(Option<Seq<char>>),
    Bytes(Option<Seq<u8>>),
    DateTime(Option<Timestamp>),
}

/// The bytes of an optional byte vector.
pub open spec fn bytes_of(bytes: Option<Vec<u8>>) -> Option<Seq<u8>> {
    match bytes {
        Some(b) => Some(b@),
        None => None,
    }
}

impl View for Value {
    type V = ValueView;

    open spec fn view(&self) -> ValueView {
        match *self {
            Value::Bool(b) => ValueView::Bool(b),
            Value::Int(i) => ValueView::Int(i),
            Value::Unsigned(u) => ValueView::Unsigned(u),
            Value::String(s) => ValueView::String(text_of(s)),
            Value::Bytes(b) => ValueView::Bytes(bytes_of(b)),
            Value::DateTime(t) => ValueView::DateTime(t),
        }
    }
}

/// The instant that stands for a null instant where one is required: the
/// Unix epoch.
pub open spec fn epoch() -> Timestamp {
    Timestamp { secs: 0, nanos: 0 }
}

impl ValueView {
    /// The text of a text value, which may be null. Any other value is no
    /// text.
    pub open spec fn as_text(self) -> Result<Option<Seq<char>>, Error> {
        match self {
            ValueView::String(s) => Ok(s),
            _ => Err(Error::DecodeFailure),
        }
    }

    /// The integer of an integer value, which may be null.
    pub open spec fn as_int(self) -> Result<Option<i32>, Error> {
        match self {
            ValueView::Int(i) => Ok(i),
            _ => Err(Error::DecodeFailure),
        }
    }

    /// The unsigned integer of an unsigned value, which may be null, or of
    /// an integer value that is neither null nor negative.
    pub open spec fn as_unsigned(self) -> Result<Option<u32>, Error> {
        match self {
            ValueView::Unsigned(u) => Ok(u),
            ValueView::Int(Some(i)) => if i >= 0 {
                Ok(Some(i as u32))
            } else {
                Err(Error::DecodeFailure)
            },
            _ => Err(Error::DecodeFailure),
        }
    }

    /// The truth value of a boolean value, which may be null.
    pub open spec fn as_bool(self) -> Result<Option<bool>, Error> {
        match self {
            ValueView::Bool(b) => Ok(b),
            _ => Err(Error::DecodeFailure),
        }
    }

    /// The instant of an instant value, which may be null.
    pub open spec fn as_instant(self) -> Result<Option<Timestamp>, Error> {
        match self {
            ValueView::DateTime(t) => Ok(t),
            _ => Err(Error::DecodeFailure),
        }
    }
}

/// `wanted`, or `fallback` where `wanted` is null.
pub open spec fn or_default<T>(wanted: Result<Option<T>, Error>, fallback: T) -> Result<T, Error> {
    match wanted {
        Ok(Some(v)) => Ok(v),
        Ok(None) => Ok(fallback),
        Err(e) => Err(e),
    }
}

/// The text of a result, where it is one.
pub open spec fn text_in(made: Result<String, Error>) -> Result<Seq<char>, Error> {
    match made {
        Ok(s) => Ok(s@),
        Err(e) => Err(e),
    }
}

/// The optional text of a result, where it is one.
pub open spec fn optional_text_in(made: Result<Option<String>, Error>) -> Result<
    Option<Seq<char>>,
    Error,
> {
    match made {
        Ok(s) => Ok(text_of(s)),
        Err(e) => Err(e),
    }
}

impl Value {
    /// A copy of this value.
    pub fn duplicate(&self) -> (copy: Value)
        ensures
            copy@ == self@,
    {
        match self {
            Value::Bool(b) => Value::Bool(*b),
            Value::Int(i) => Value::Int(*i),
            Value::Unsigned(u) => Value::Unsigned(*u),
            Value::String(s) => Value::String(copy_text(s)),
            Value::Bytes(b) => match b {
                Some(bytes) => Value::Bytes(Some(bytes.clone())),
                None => Value::Bytes(None),
            },
            Value::DateTime(t) => Value::DateTime(*t),
        }
    }

    /// The text this value holds, which may be null. A value of another type
    /// cannot be decoded as a text.
    pub fn to_optional_text(&self) -> (text: Result<Option<String>, Error>)
        ensures
            optional_text_in(text) == self@.as_text(),
    {
        match self {
            Value::String(s) => Ok(copy_text(s)),
            _ => Err(Error::DecodeFailure),
        }
    }

    /// The text this value holds, the empty text where it is null.
    pub fn to_text(&self) -> (text: Result<String, Error>)
        ensures
            text_in(text) == or_default(self@.as_text(), Seq::<char>::empty()),
    {
        match self {
            Value::String(Some(s)) => Ok(s.clone()),
            Value::String(None) => Ok(String::new()),
            _ => Err(Error::DecodeFailure),
        }
    }

    /// The integer this value holds, which may be null.
    pub fn to_optional_int(&self) -> (number: Result<Option<i32>, Error>)
        ensures
            number == self@.as_int(),
    {
        match self {
            Value::Int(i) => Ok(*i),
            _ => Err(Error::DecodeFailure),
        }
    }

    /// The integer this value holds, zero where it is null.
    pub fn to_int(&self) -> (number: Result<i32, Error>)
        ensures
            number == or_default(self@.as_int(), 0i32),
    {
        match self {
            Value::Int(Some(i)) => Ok(*i),
            Value::Int(None) => Ok(0),
            _ => Err(Error::DecodeFailure),
        }
    }

    /// The unsigned integer this value holds, which may be null. An integer
    /// value is accepted where it is neither null nor negative.
    pub fn to_optional_unsigned(&self) -> (unsigned: Result<Option<u32>, Error>)
        ensures
            unsigned == self@.as_unsigned(),
    {
        match self {
            Value::Unsigned(u) => Ok(*u),
            Value::Int(Some(i)) => if *i >= 0 {
                Ok(Some(*i as u32))
            } else {
                Err(Error::DecodeFailure)
            },
            _ => Err(Error::DecodeFailure),
        }
    }

    /// The unsigned integer this value holds, zero where it is null.
    pub fn to_unsigned(&self) -> (unsigned: Result<u32, Error>)
        ensures
            unsigned == or_default(self@.as_unsigned(), 0u32),
    {
        match self.to_optional_unsigned() {
            Ok(Some(u)) => Ok(u),
            Ok(None) => Ok(0),
            Err(e) => Err(e),
        }
    }

    /// The truth value this value holds, which may be null.
    pub fn to_optional_bool(&self) -> (truth: Result<Option<bool>, Error>)
        ensures
            truth == self@.as_bool(),
    {
        match self {
            Value::Bool(b) => Ok(*b),
            _ => Err(Error::DecodeFailure),
        }
    }

    /// The truth value this value holds, false where it is null.
    pub fn to_bool(&self) -> (truth: Result<bool, Error>)
        ensures
            truth == or_default(self@.as_bool(), false),
    {
        match self {
            Value::Bool(Some(b)) => Ok(*b),
            Value::Bool(None) => Ok(false),
            _ => Err(Error::DecodeFailure),
        }
    }

    /// The instant this value holds, which may be null.
    pub fn to_optional_instant(&self) -> (instant: Result<Option<Timestamp>, Error>)
        ensures
            instant == self@.as_instant(),
    {
        match self {
            Value::DateTime(t) => Ok(*t),
            _ => Err(Error::DecodeFailure),
        }
    }

    /// The instant this value holds, the Unix epoch where it is null.
    pub fn to_instant(&self) -> (instant: Result<Timestamp, Error>)
        ensures
            instant == or_default(self@.as_instant(), epoch()),
    {
        match self {
            Value::DateTime(Some(t)) => Ok(*t),
            Value::DateTime(None) => Ok(Timestamp { secs: 0, nanos: 0 }),
            _ => Err(Error::DecodeFailure),
        }
    }
}

impl From<i32> for Value {
    fn from(value: i32) -> (made: Value) {
        Value::Int(Some(value))
    }
}

impl FromSpecImpl<i32> for Value {
    open spec fn obeys_from_spec() -> bool {
        true
    }

    open spec fn from_spec(value: i32) -> Value {
        Value::Int(Some(value))
    }
}

impl From<Option<i32>> for Value {
    fn from(value: Option<i32>) -> (made: Value) {
        Value::Int(value)
    }
}

impl FromSpecImpl<Option<i32>> for Value {
    open spec fn obeys_from_spec() -> bool {
        true
    }

    open spec fn from_spec(value: Option<i32>) -> Value {
        Value::Int(value)
    }
}

impl From<u32> for Value {
    fn from(value: u32) -> (made: Value) {
        Value::Unsigned(Some(value))
    }
}

impl FromSpecImpl<u32> for Value {
    open spec fn obeys_from_spec() -> bool {
        true
    }

    open spec fn from_spec(value: u32) -> Value {
        Value::Unsigned(Some(value))
    }
}

impl From<Option<u32>> for Value {
    fn from(value: Option<u32>) -> (made: Value) {
        Value::Unsigned(value)
    }
}

impl FromSpecImpl<Option<u32>> for Value {
    open spec fn obeys_from_spec() -> bool {
        true
    }

    open spec fn from_spec(value: Option<u32>) -> Value {
        Value::Unsigned(value)
    }
}

impl From<String> for Value {
    fn from(value: String) -> (made: Value) {
        Value::String(Some(value))
    }
}

impl FromSpecImpl<String> for Value {
    open spec fn obeys_from_spec() -> bool {
        true
    }

    open spec fn from_spec(value: String) -> Value {
        Value::String(Some(value))
    }
}

impl From<Option<String>> for Value {
    fn from(value: Option<String>) -> (made: Value) {
        Value::String(value)
    }
}

impl FromSpecImpl<Option<String>> for Value {
    open spec fn obeys_from_spec() -> bool {
        true
    }

    open spec fn from_spec(value: Option<String>) -> Value {
        Value::String(value)
    }
}

impl From<bool> for Value {
    fn from(value: bool) -> (made: Value) {
        Value::Bool(Some(value))
    }
}

impl FromSpecImpl<bool> for Value {
    open spec fn obeys_from_spec() -> bool {
        true
    }

    open spec fn from_spec(value: bool) -> Value {
        Value::Bool(Some(value))
    }
}

impl From<Option<bool>> for Value {
    fn from(value: Option<bool>) -> (made: Value) {
        Value::Bool(value)
    }
}

impl FromSpecImpl<Option<bool>> for Value {
    open spec fn obeys_from_spec() -> bool {
        true
    }

    open spec fn from_spec(value: Option<bool>) -> Value {
        Value::Bool(value)
    }
}

impl From<Timestamp> for Value {
    fn from(value: Timestamp) -> (made: Value) {
        Value::DateTime(Some(value))
    }
}

impl FromSpecImpl<Timestamp> for Value {
    open spec fn obeys_from_spec() -> bool {
        true
    }

    open spec fn from_spec(value: Timestamp) -> Value {
        Value::DateTime(Some(value))
    }
}

impl From<Option<Timestamp>> for Value {
    fn from(value: Option<Timestamp>) -> (made: Value) {
        Value::DateTime(value)
    }
}

impl FromSpecImpl<Option<Timestamp>> for Value {
    open spec fn obeys_from_spec() -> bool {
        true
    }

    open spec fn from_spec(value: Option<Timestamp>) -> Value {
        Value::DateTime(value)
    }
}

/// A text value that holds a copy of the text. No value can be named in a
/// specification as the copy of a borrowed text, so what the conversion
/// makes is stated on the conversion itself.
impl<'a> From<&'a str> for Value {
    fn from(value: &'a str) -> (made: Value)
        ensures
            made@ == ValueView::String(Some(value@)),
    {
        Value::String(Some(String::from_str(value)))
    }
}

impl<'a> FromSpecImpl<&'a str> for Value {
    open spec fn obeys_from_spec() -> bool {
        false
    }

    open spec fn from_spec(value: &'a str) -> Value {
        arbitrary()
    }
}

impl<'a> From<Option<&'a str>> for Value {
    fn from(value: Option<&'a str>) -> (made: Value)
        ensures
            made@ == ValueView::String(
                match value {
                    Some(s) => Some(s@),
                    None => None,
                },
            ),
    {
        match value {
            Some(s) => Value::String(Some(String::from_str(s))),
            None => Value::String(None),
        }
    }
}

impl<'a> FromSpecImpl<Option<&'a str>> for Value {
    open spec fn obeys_from_spec() -> bool {
        false
    }

    open spec fn from_spec(value: Option<&'a str>) -> Value {
        arbitrary()
    }
}

/// The values bound to a statement, in the order of its placeholders.
#[derive(Debug, Default, Clone, PartialEq, Eq)]
pub struct Values(pub Vec<Value>);

/// The views of a sequence of values.
pub open spec fn value_views(values: Seq<Value>) -> Seq<ValueView> {
    values.map_values(|value: Value| value@)
}

impl View for Values {
    type V = Seq<ValueView>;

    open spec fn view(&self) -> Seq<ValueView> {
        value_views(self.0@)
    }
}

impl Values {
    /// Adds `value` behind the values bound so far.
    pub fn push(&mut self, value: Value)
        ensures
            final(self)@ == old(self)@.push(value@),
    {
        proof {
            assert(value_views(self.0@.push(value)) == value_views(self.0@).push(value@));
        }
        self.0.push(value);
    }

    /// Moves the values of `other` behind the values bound so far, leaving
    /// `other` empty.
    pub fn append(&mut self, other: &mut Values)
        ensures
            final(self)@ == old(self)@ + old(other)@,
            final(other)@.len() == 0,
    {
        proof {
            assert(value_views(self.0@ + other.0@) == value_views(self.0@) + value_views(
                other.0@,
            ));
        }
        self.0.append(&mut other.0);
    }
}

} // verus!
