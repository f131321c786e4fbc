//! A codec that hands messages through as they are: PHP has already
//! serialised them.

use crate::wire::bytes_of;
use bytes::{Buf, BufMut, Bytes};
use tonic::codec::{DecodeBuf, EncodeBuf};
use tonic::Status;
use vstd::prelude::*;

verus! {

/// `tonic::codec::EncodeBuf`.
#[verifier::external_type_specification]
#[verifier::external_body]
pub struct ExEncodeBuf<'a>(tonic::codec::EncodeBuf<'a>);

/// `tonic::codec::DecodeBuf`.
#[verifier::external_type_specification]
#[verifier::external_body]
pub struct ExDecodeBuf<'a>(tonic::codec::DecodeBuf<'a>);

/// The bytes that have been written to a buffer.
pub uninterp spec fn encoded(buf: EncodeBuf<'_>) -> Seq<u8>;

/// The bytes of the message that is being read.
pub uninterp spec fn undecoded(buf: DecodeBuf<'_>) -> Seq<u8>;

/// Appends bytes to a buffer.
///
/// Calls `bytes::BufMut::put` on an `EncodeBuf`. Taken on trust: the bytes
/// come behind those that the buffer holds.
#[verifier::external_body]
fn put(dst: &mut EncodeBuf<'_>, item: Bytes)
    ensures
        encoded(*final(dst)) == encoded(*old(dst)) + bytes_of(item),
{
    dst.put(item);
}

/// How many bytes are left to read.
///
/// Calls `bytes::Buf::remaining` on a `DecodeBuf`. Taken on trust: it is the
/// length of the message that the buffer stands for.
#[verifier::external_body]
fn remaining(src: &DecodeBuf<'_>) -> (r: usize)
    ensures
        r == undecoded(*src).len(),
{
    src.remaining()
}

/// Takes bytes from the front of a buffer.
///
/// Calls `bytes::Buf::copy_to_bytes` on a `DecodeBuf`. Taken on trust: the
/// bytes at the front are handed out and leave the buffer.
#[verifier::external_body]
fn copy_to_bytes(src: &mut DecodeBuf<'_>, len: usize) -> (r: Bytes)
    requires
        len <= undecoded(*old(src)).len(),
    ensures
        bytes_of(r) == undecoded(*old(src)).take(len as int),
        undecoded(*final(src)) == undecoded(*old(src)).skip(len as int),
{
    src.copy_to_bytes(len)
}

/// The bytes of a buffer after a message is written to it.
pub open spec fn after_encoding(before: Seq<u8>, message: Seq<u8>) -> Seq<u8> {
    before + message
}

/// The message that bytes stand for.
pub open spec fn decoded_message(bytes: Seq<u8>) -> Option<Seq<u8>> {
    Some(bytes)
}

#[derive(Debug, Clone, Copy)]
pub struct RawBytesCodec;

#[derive(Debug, Clone)]
pub struct RawBytesEncoder;

#[derive(Debug, Clone)]
pub struct RawBytesDecoder;

impl RawBytesEncoder {
    /// Writes a message as it is.
    pub fn encode(&mut self, item: Bytes, dst: &mut EncodeBuf<'_>) -> (r: Result<(), Status>)
        ensures
            r is Ok,
            encoded(*final(dst)) == after_encoding(encoded(*old(dst)), bytes_of(item)),
    {
        put(dst, item);
        Ok(())
    }
}

impl RawBytesDecoder {
    /// Reads a message as it is.
    ///
    /// A message of no bytes is an empty message: no message at all would
    /// make the call fail.
    pub fn decode(&mut self, src: &mut DecodeBuf<'_>) -> (r: Result<Option<Bytes>, Status>)
        ensures
            r matches Ok(Some(item)) && decoded_message(undecoded(*old(src))) == Some(
                bytes_of(item),
            ),
            undecoded(*final(src)) == Seq::<u8>::empty(),
    {
        let len: usize = remaining(src);
        if len == 0 {
            assert(undecoded(*src) =~= Seq::<u8>::empty());
            return Ok(Some(Bytes::new()));
        }
        let ghost message = undecoded(*src);
        let item = copy_to_bytes(src, len);
        proof {
            assert(message.take(len as int) =~= message);
            assert(message.skip(len as int) =~= Seq::<u8>::empty());
        }
        Ok(Some(item))
    }
}

impl RawBytesCodec {
    /// The encoder of the codec.
    pub fn encoder(&mut self) -> (r: RawBytesEncoder)
        ensures
            r == RawBytesEncoder,
    {
        RawBytesEncoder
    }

    /// The decoder of the codec.
    pub fn decoder(&mut self) -> (r: RawBytesDecoder)
        ensures
            r == RawBytesDecoder,
    {
        RawBytesDecoder
    }
}

/// A message that is written alone is read back as it was, the empty message
/// too.
pub proof fn law_messages_come_back(message: Seq<u8>)
    ensures
        decoded_message(after_encoding(Seq::empty(), message)) == Some(message),
{
    assert(Seq::<u8>::empty() + message =~= message);
}

/// Nothing is added to a message and nothing of it is lost, whatever its length:
/// what was written before stays, and the message follows byte for byte; what is
/// read is every byte there is.
pub proof fn law_messages_are_not_changed(before: Seq<u8>, message: Seq<u8>, i: int)
    ensures
        after_encoding(before, message).len() == before.len() + message.len(),
        0 <= i < before.len() ==> after_encoding(before, message)[i] == before[i],
        0 <= i < message.len() ==> after_encoding(before, message)[before.len() + i] == message[i],
        decoded_message(message) == Some(message),
{
}

} // verus!
