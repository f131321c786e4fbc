use grpc_php_rs::error::{
    default_exception, invalid_argument, logic_exception, runtime_exception, ExceptionClass,
    GrpcError,
};
use tonic::transport::Endpoint;

#[test]
fn error_display_messages() {
    let err = GrpcError::InvalidArg("bad input".into());
    assert_eq!(err.to_string(), "invalid argument: bad input");

    let err = GrpcError::InvalidUri("not://valid".into());
    assert_eq!(err.to_string(), "invalid URI: not://valid");

    let err = GrpcError::CallbackFailed("plugin error".into());
    assert_eq!(err.to_string(), "callback failed: plugin error");

    let err = GrpcError::Status {
        code: 14,
        message: "unavailable".into(),
    };
    assert_eq!(err.to_string(), "gRPC status 14: unavailable");

    let io_err = std::io::Error::other("test io");
    let err = GrpcError::RuntimeInit(io_err);
    assert!(err.to_string().contains("test io"));
}

#[test]
fn error_from_io() {
    let io_err = std::io::Error::other("fail");
    let grpc_err: GrpcError = io_err.into();
    assert!(matches!(grpc_err, GrpcError::RuntimeInit(_)));
}

#[test]
fn error_from_transport() {
    let e = Endpoint::from_shared("not a uri".to_string()).unwrap_err();
    let err: GrpcError = e.into();
    assert!(matches!(err, GrpcError::Transport(_)));
    assert_eq!(err.to_string(), "transport error: invalid URI");
}

#[test]
fn an_io_error_reads_as_it_is_displayed() {
    let err = GrpcError::RuntimeInit(std::io::Error::other("no threads"));
    assert_eq!(err.to_string(), "failed to initialize tokio runtime: no threads");
}

#[test]
fn errors_are_thrown_as_plain_exceptions() {
    let e = GrpcError::Status { code: -3, message: "odd".into() }.into_exception();
    assert_eq!(e.class, ExceptionClass::Exception);
    assert_eq!(e.message, "gRPC status -3: odd");
    assert_eq!(e.code, 0);
}

#[test]
fn exception_classes_and_codes() {
    let e = invalid_argument("a");
    assert_eq!((e.class.name(), e.message.as_str(), e.code), ("InvalidArgumentException", "a", 1));
    let e = logic_exception("b", 8);
    assert_eq!((e.class.name(), e.message.as_str(), e.code), ("LogicException", "b", 8));
    let e = runtime_exception("c");
    assert_eq!((e.class.name(), e.message.as_str(), e.code), ("RuntimeException", "c", 0));
    let e = default_exception("d");
    assert_eq!((e.class.name(), e.message.as_str(), e.code), ("Exception", "d", 0));
}

#[test]
fn an_unknown_class_falls_back_to_exception() {
    let e = logic_exception("b", 8).resolved(false);
    assert_eq!((e.class.name(), e.message.as_str(), e.code), ("Exception", "b", 8));
    let e = logic_exception("b", 8).resolved(true);
    assert_eq!(e.class.name(), "LogicException");
}
