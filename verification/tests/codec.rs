use bytes::Bytes;
use grpc_php_rs::codec::{RawBytesCodec, RawBytesDecoder, RawBytesEncoder};
use tonic::codec::{DecodeBuf, Decoder, EncodeBody, EncodeBuf, Encoder, Streaming};
use tonic::Status;

struct TestEncoder(RawBytesEncoder);

impl Encoder for TestEncoder {
    type Item = Bytes;
    type Error = Status;

    fn encode(&mut self, item: Bytes, dst: &mut EncodeBuf<'_>) -> Result<(), Status> {
        self.0.encode(item, dst)
    }
}

struct TestDecoder(RawBytesDecoder);

impl Decoder for TestDecoder {
    type Item = Bytes;
    type Error = Status;

    fn decode(&mut self, src: &mut DecodeBuf<'_>) -> Result<Option<Bytes>, Status> {
        self.0.decode(src)
    }
}

/// Writes messages with the encoder and reads them back with the decoder.
fn round_trip(messages: Vec<&'static [u8]>) -> Vec<Vec<u8>> {
    let mut codec = RawBytesCodec;
    let items: Vec<Result<Bytes, Status>> =
        messages.into_iter().map(|m| Ok(Bytes::from_static(m))).collect();
    let body = EncodeBody::new_client(
        TestEncoder(codec.encoder()),
        tokio_stream::iter(items),
        None,
        None,
    );
    let mut stream = Streaming::new_request(TestDecoder(codec.decoder()), body, None, None);
    let rt = tokio::runtime::Builder::new_current_thread().enable_all().build().unwrap();
    rt.block_on(async {
        let mut read = Vec::new();
        while let Some(message) = stream.message().await.unwrap() {
            read.push(message.to_vec());
        }
        read
    })
}

#[test]
fn codec_produces_encoder_and_decoder() {
    let mut codec = RawBytesCodec;
    let _encoder = codec.encoder();
    let _decoder = codec.decoder();
}

#[test]
fn a_message_comes_back_as_it_was() {
    assert_eq!(round_trip(vec![b"\x00\xffhello"]), vec![b"\x00\xffhello".to_vec()]);
}

#[test]
fn an_empty_message_is_a_message() {
    assert_eq!(round_trip(vec![b""]), vec![Vec::<u8>::new()]);
}

#[test]
fn messages_keep_their_bounds() {
    assert_eq!(
        round_trip(vec![b"one", b"", b"three"]),
        vec![b"one".to_vec(), Vec::new(), b"three".to_vec()]
    );
}
