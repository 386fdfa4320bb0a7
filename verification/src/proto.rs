pub mod db;

use protobuf::well_known_types::{Int32Value, StringValue};
use vstd::prelude::*;

verus! {

/// `protobuf::well_known_types::Int32Value`, the message that wraps an `i32`.
#[verifier::external_type_specification]
#[verifier::external_body]
pub struct ExInt32Value(Int32Value);

/// `protobuf::well_known_types::StringValue`, the message that wraps a string.
#[verifier::external_type_specification]
#[verifier::external_body]
pub struct ExStringValue(StringValue);

/// The number that an `Int32Value` message holds in its one field.
pub uninterp spec fn int32_value_content(pb: Int32Value) -> i32;

/// The text that a `StringValue` message holds in its one field.
pub uninterp spec fn string_value_content(pb: StringValue) -> Seq<char>;

/// `Int32Value::new`: a message whose field holds its default, zero.
#[verifier::external_body]
fn int32_value_new() -> (pb: Int32Value)
    ensures
        int32_value_content(pb) == 0,
{
    Int32Value::new()
}

/// `Int32Value::set_value`: the message's field then holds `v`.
#[verifier::external_body]
fn int32_value_set(pb: &mut Int32Value, v: i32)
    ensures
        int32_value_content(*final(pb)) == v,
{
    pb.set_value(v)
}

/// `Int32Value::get_value`: the number the message's field holds.
#[verifier::external_body]
fn int32_value_get(pb: &Int32Value) -> (v: i32)
    ensures
        v == int32_value_content(*pb),
{
    pb.get_value()
}

/// `StringValue::new`: a message whose field holds its default, the empty
/// string.
#[verifier::external_body]
fn string_value_new() -> (pb: StringValue)
    ensures
        string_value_content(pb) == Seq::<char>::empty(),
{
    StringValue::new()
}

/// `StringValue::set_value`: the message's field then holds `v`.
#[verifier::external_body]
fn string_value_set(pb: &mut StringValue, v: String)
    ensures
        string_value_content(*final(pb)) == v@,
{
    pb.set_value(v)
}

/// `StringValue::get_value`: the text the message's field holds.
#[verifier::external_body]
fn string_value_get(pb: &StringValue) -> (v: &str)
    ensures
        v@ == string_value_content(*pb),
{
    pb.get_value()
}

/// A conversion failure.
#[derive(Debug, PartialEq, Eq)]
pub struct ConvertError;

/// Conversion of a value to and from its protobuf message.
pub trait ProtobufConvert: Sized {
    /// Type of the protobuf clone of Self
    type ProtoStruct;

    /// Struct -> ProtoStruct
    fn to_pb(&self) -> Self::ProtoStruct;

    /// ProtoStruct -> Struct
    fn from_pb(pb: Self::ProtoStruct) -> Result<Self, ConvertError>;
}

impl ProtobufConvert for i32 {
    type ProtoStruct = Int32Value;

    /// A message that holds the number.
    fn to_pb(&self) -> (pb: Int32Value)
        ensures
            int32_value_content(pb) == *self,
    {
        let mut val = int32_value_new();
        int32_value_set(&mut val, *self);
        val
    }

    /// The number the message holds; never fails.
    fn from_pb(pb: Int32Value) -> (res: Result<i32, ConvertError>)
        ensures
            res == Ok::<i32, ConvertError>(int32_value_content(pb)),
    {
        Ok(int32_value_get(&pb))
    }
}

impl ProtobufConvert for String {
    type ProtoStruct = StringValue;

    /// A message that holds the string.
    fn to_pb(&self) -> (pb: StringValue)
        ensures
            string_value_content(pb) == self@,
    {
        let mut val = string_value_new();
        string_value_set(&mut val, self.clone());
        val
    }

    /// The string the message holds; never fails.
    fn from_pb(pb: StringValue) -> (res: Result<String, ConvertError>)
        ensures
            res matches Ok(s) && s@ == string_value_content(pb),
    {
        Ok(string_value_get(&pb).to_owned())
    }
}

} // verus!
