use vstd::prelude::*;
use vstd::utf8::{decode_utf8, encode_utf8, valid_utf8};

verus! {

/// `String::from_utf8`: the string that `bytes` encode in UTF-8, or an
/// error, mapped here to `()`, when they are not valid UTF-8.
#[verifier::external_body]
fn string_from_utf8(bytes: Vec<u8>) -> (res: Result<String, ()>)
    ensures
        res is Ok <==> valid_utf8(bytes@),
        res matches Ok(s) ==> s@ == decode_utf8(bytes@),
{
    String::from_utf8(bytes).map_err(|_e| ())
}

/// The UTF-8 bytes of `s`.
fn utf8_bytes(s: &String) -> (bytes: Vec<u8>)
    ensures
        bytes@ == encode_utf8(s@),
{
    vstd::slice::slice_to_vec(s.as_str().as_bytes())
}

/// A value stored in a binary map as bytes.
pub trait BinaryValue: Sized {
    fn to_bytes(&self) -> Vec<u8>;

    fn from_bytes(bytes: Vec<u8>) -> Result<Self, ()>;
}

/// A string payload.
#[derive(Debug, Clone, PartialEq, Eq)]
pub struct SomeData(pub String);

/// Another string payload.
#[derive(Debug, Clone, PartialEq, Eq)]
pub struct AnotherData(pub String);

impl BinaryValue for SomeData {
    /// The UTF-8 bytes of the string.
    fn to_bytes(&self) -> (bytes: Vec<u8>)
        ensures
            bytes@ == encode_utf8(self.0@),
    {
        utf8_bytes(&self.0)
    }

    /// The payload whose string `bytes` encode, or `Err(())` when they are
    /// not valid UTF-8.
    fn from_bytes(bytes: Vec<u8>) -> (res: Result<Self, ()>)
        ensures
            res is Ok <==> valid_utf8(bytes@),
            res matches Ok(d) ==> d.0@ == decode_utf8(bytes@),
    {
        let data = string_from_utf8(bytes)?;
        Ok(SomeData(data))
    }
}

impl BinaryValue for AnotherData {
    /// The UTF-8 bytes of the string.
    fn to_bytes(&self) -> (bytes: Vec<u8>)
        ensures
            bytes@ == encode_utf8(self.0@),
    {
        utf8_bytes(&self.0)
    }

    /// The payload whose string `bytes` encode, or `Err(())` when they are
    /// not valid UTF-8.
    fn from_bytes(bytes: Vec<u8>) -> (res: Result<Self, ()>)
        ensures
            res is Ok <==> valid_utf8(bytes@),
            res matches Ok(d) ==> d.0@ == decode_utf8(bytes@),
    {
        let data = string_from_utf8(bytes)?;
        Ok(AnotherData(data))
    }
}

/// Decoding the bytes of a string gives the string back: whatever
/// `to_bytes` writes, `from_bytes` accepts and turns into an equal payload.
pub proof fn lemma_bytes_roundtrip(s: Seq<char>)
    ensures
        valid_utf8(encode_utf8(s)),
        decode_utf8(encode_utf8(s)) == s,
{
    vstd::utf8::encode_utf8_valid_utf8(s);
    vstd::utf8::encode_utf8_decode_utf8(s);
}

} // verus!
