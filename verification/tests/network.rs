//! What the settings of an endpoint do on the wire.

use bytes::Bytes;
use grpc_php_rs::clock::now_usec;
use grpc_php_rs::codec::{RawBytesCodec, RawBytesDecoder, RawBytesEncoder};
use grpc_php_rs::credentials::{CredentialStore, CredentialsInner, GrpcChannelCredentials};
use grpc_php_rs::endpoint::build_endpoint;
use grpc_php_rs::request::{build_request, method_path};
use grpc_php_rs::value::{ArrayKey, PhpValue};
use std::time::Duration;
use std::pin::Pin;
use tokio::net::{UnixListener, UnixStream};
use tokio_stream::Stream;
use tonic::codec::{Codec, DecodeBuf, Decoder, EncodeBuf, Encoder};
use tonic::codegen::{BoxFuture, Context, Poll, Service};
use tonic::transport::Endpoint;
use tonic::Status;

struct TestCodec(RawBytesCodec);
struct TestEncoder(RawBytesEncoder);
struct TestDecoder(RawBytesDecoder);

impl Encoder for TestEncoder {
    type Item = Bytes;
    type Error = Status;

    fn encode(&mut self, item: Bytes, dst: &mut EncodeBuf<'_>) -> Result<(), Status> {
        self.0.encode(item, dst)
    }
}

impl Decoder for TestDecoder {
    type Item = Bytes;
    type Error = Status;

    fn decode(&mut self, src: &mut DecodeBuf<'_>) -> Result<Option<Bytes>, Status> {
        self.0.decode(src)
    }
}

impl Codec for TestCodec {
    type Encode = Bytes;
    type Decode = Bytes;
    type Encoder = TestEncoder;
    type Decoder = TestDecoder;

    fn encoder(&mut self) -> TestEncoder {
        TestEncoder(self.0.encoder())
    }

    fn decoder(&mut self) -> TestDecoder {
        TestDecoder(self.0.decoder())
    }
}

fn number(name: &str, n: i64) -> (ArrayKey, PhpValue) {
    (ArrayKey::String(name.to_string()), PhpValue::Long(n))
}

fn text(name: &str, s: &str) -> (ArrayKey, PhpValue) {
    (ArrayKey::String(name.to_string()), PhpValue::Str(s.as_bytes().to_vec()))
}

/// A listener and the target that it listens at. The name is one that needs no
/// file.
fn listener(name: &str) -> (UnixListener, String) {
    let path = format!("\0grpc_php_rs_{name}_{}", now_usec());
    (UnixListener::bind(&path).unwrap(), format!("unix://{path}"))
}

fn block_on<F: std::future::Future>(future: F) -> F::Output {
    tokio::runtime::Builder::new_current_thread().enable_all().build().unwrap().block_on(async {
        match tokio::time::timeout(Duration::from_secs(15), future).await {
            Ok(output) => output,
            Err(_) => panic!("the network test took too long"),
        }
    })
}

/// Reads from a socket until there is enough.
async fn read(socket: &UnixStream, enough: usize) -> Vec<u8> {
    let mut all = Vec::new();
    while all.len() < enough {
        socket.readable().await.unwrap();
        let mut chunk = [0u8; 4096];
        match socket.try_read(&mut chunk) {
            Ok(0) => return all,
            Ok(n) => all.extend_from_slice(&chunk[..n]),
            Err(_) => {}
        }
    }
    all
}

/// The settings and the growth of the connection window that a client starts
/// with.
fn opening(args: Vec<(ArrayKey, PhpValue)>) -> (Vec<(u16, u32)>, Option<u32>) {
    block_on(async {
        let (listener, target) = listener("opening");
        let endpoint: Endpoint = build_endpoint(&target, &args, None).unwrap();
        let client = tokio::spawn(async move { endpoint.connect().await });
        let (socket, _) = listener.accept().await.unwrap();
        let bytes = read(&socket, 24 + 9 + 6 + 9 + 4).await;
        assert_eq!(&bytes[..24], b"PRI * HTTP/2.0\r\n\r\nSM\r\n\r\n");
        let mut settings = Vec::new();
        let mut growth = None;
        let mut rest = &bytes[24..];
        while rest.len() >= 9 {
            let len = u32::from_be_bytes([0, rest[0], rest[1], rest[2]]) as usize;
            if rest.len() < 9 + len {
                break;
            }
            let payload = &rest[9..9 + len];
            if rest[3] == 4 {
                for pair in payload.chunks(6) {
                    settings.push((
                        u16::from_be_bytes([pair[0], pair[1]]),
                        u32::from_be_bytes([pair[2], pair[3], pair[4], pair[5]]),
                    ));
                }
            } else if rest[3] == 8 {
                growth = Some(u32::from_be_bytes([payload[0], payload[1], payload[2], payload[3]]));
            }
            rest = &rest[9 + len..];
        }
        client.abort();
        (settings, growth)
    })
}

const INITIAL_WINDOW: u16 = 4;
const MAX_FRAME: u16 = 5;
const PLAIN_WINDOW: u32 = 65_535;

#[test]
fn http2_settings_reach_the_wire() {
    let (settings, growth) = opening(vec![
        number("grpc.http2.max_frame_size", 20_000),
        number("grpc.http2.lookahead_bytes", 70_000),
    ]);
    assert!(settings.contains(&(MAX_FRAME, 20_000)));
    assert!(settings.contains(&(INITIAL_WINDOW, 70_000)));
    assert_eq!(growth, Some(5 * 1024 * 1024 - PLAIN_WINDOW));
}

#[test]
fn a_large_stream_window_raises_the_connection_window() {
    let (settings, growth) = opening(vec![number("grpc.http2.lookahead_bytes", 8_000_000)]);
    assert!(settings.contains(&(INITIAL_WINDOW, 8_000_000)));
    assert_eq!(growth, Some(8_000_000 - PLAIN_WINDOW));
}

#[test]
fn sizes_out_of_bounds_are_ignored() {
    let (settings, _) = opening(vec![
        number("grpc.http2.max_frame_size", 16_383),
        number("grpc.http2.lookahead_bytes", 0),
    ]);
    assert!(!settings.contains(&(MAX_FRAME, 16_383)));
    assert!(!settings.contains(&(INITIAL_WINDOW, 0)));
}

#[test]
fn adaptive_windows_take_the_place_of_fixed_ones() {
    let (settings, _) = opening(vec![
        number("grpc.http2.lookahead_bytes", 70_000),
        number("grpc.http2.bdp_probe", 1),
    ]);
    assert!(!settings.contains(&(INITIAL_WINDOW, 70_000)));
    let (settings, _) = opening(vec![
        number("grpc.http2.lookahead_bytes", 70_000),
        number("grpc.http2.bdp_probe", 0),
    ]);
    assert!(settings.contains(&(INITIAL_WINDOW, 70_000)));
}

#[test]
fn a_silent_server_is_noticed() {
    block_on(async {
        let (listener, target) = listener("silent");
        let args = vec![
            number("grpc.keepalive_time_ms", 100),
            number("grpc.keepalive_timeout_ms", 100),
        ];
        let channel = build_endpoint(&target, &args, None).unwrap().connect_lazy();
        let server = tokio::spawn(async move {
            let (socket, _) = listener.accept().await.unwrap();
            read(&socket, usize::MAX).await;
        });
        let mut client = tonic::client::Grpc::new(channel);
        client.ready().await.unwrap();
        let request = build_request(&vec![], &vec![], Bytes::new(), 0, 0);
        let path = method_path("/s/m").unwrap();
        let outcome = client.unary(request, path, TestCodec(RawBytesCodec)).await;
        assert!(outcome.is_err());
        server.abort();
    });
}

#[test]
fn the_given_name_is_used_for_tls() {
    let mut store = CredentialStore::new();
    let roots = Some("roots".to_string());
    let creds = GrpcChannelCredentials::create_ssl(&mut store, roots, None, None).unwrap();
    let tls = match creds.inner {
        CredentialsInner::Ssl { tls_config } => tls_config,
        CredentialsInner::Composite { .. } => panic!("plain TLS credentials expected"),
    };
    let named = |name: &str| {
        let args = vec![text("grpc.ssl_target_name_override", name)];
        build_endpoint("host:1", &args, Some(tls.clone())).is_ok()
    };
    assert!(named("other.example"));
    assert!(!named("not a name"));
}

/// The connections that a listener accepts.
struct Incoming(UnixListener);

impl Stream for Incoming {
    type Item = Result<UnixStream, std::io::Error>;

    fn poll_next(self: Pin<&mut Self>, cx: &mut Context<'_>) -> Poll<Option<Self::Item>> {
        self.0.poll_accept(cx).map(|accepted| Some(accepted.map(|(socket, _)| socket)))
    }
}

/// A service that refuses every call, and says who called with what.
#[derive(Clone)]
struct Mirror;

impl tonic::server::NamedService for Mirror {
    const NAME: &'static str = "s";
}

impl Service<http::Request<tonic::body::Body>> for Mirror {
    type Response = http::Response<tonic::body::Body>;
    type Error = std::convert::Infallible;
    type Future = BoxFuture<Self::Response, Self::Error>;

    fn poll_ready(&mut self, _cx: &mut Context<'_>) -> Poll<Result<(), Self::Error>> {
        Poll::Ready(Ok(()))
    }

    fn call(&mut self, request: http::Request<tonic::body::Body>) -> Self::Future {
        let said = |name: &str| {
            request.headers().get(name).map_or(String::new(), |v| v.to_str().unwrap().to_string())
        };
        let words = format!(
            "{}|{}|{}|{}",
            said("user-agent"),
            said("x-mine"),
            said("grpc-timeout"),
            request.uri().path()
        );
        Box::pin(async move { Ok(Status::permission_denied(words).into_http()) })
    }
}

#[test]
fn a_request_reaches_the_server() {
    block_on(async {
        let (listener, target) = listener("mirror");
        let server = tokio::spawn(
            tonic::transport::Server::builder()
                .add_service(Mirror)
                .serve_with_incoming(Incoming(listener)),
        );
        let args = vec![text("grpc.primary_user_agent", "mine/1.0")];
        let channel = build_endpoint(&target, &args, None).unwrap().connect_lazy();
        let mut client = tonic::client::Grpc::new(channel);
        client.ready().await.unwrap();
        let send = vec![("x-mine".to_string(), "1".to_string())];
        let request = build_request(&send, &vec![], Bytes::from_static(b"hi"), 9_000_000, 0);
        let path = method_path("/s/m").unwrap();
        let status = client.unary(request, path, TestCodec(RawBytesCodec)).await.unwrap_err();
        assert_eq!(status.code(), tonic::Code::PermissionDenied);
        let words: Vec<&str> = status.message().split('|').collect();
        assert!(words[0].starts_with("mine/1.0 "));
        assert_eq!(words[1..], ["1", "9000000u", "/s/m"]);
        server.abort();
    });
}
