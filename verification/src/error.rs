//! Errors, and the PHP exceptions that they become.

use crate::text::{joined, signed_text, decimal};
use vstd::prelude::*;
use vstd::string::{to_string_from_display_ensures, StringExecFns};

verus! {

/// `std::io::Error`.
#[verifier::external_type_specification]
#[verifier::external_body]
pub struct ExIoError(std::io::Error);

/// `tonic::transport::Error`.
#[verifier::external_type_specification]
#[verifier::external_body]
pub struct ExTransportError(tonic::transport::Error);

/// The text that `tonic::transport::Error` displays.
pub uninterp spec fn transport_error_text(error: tonic::transport::Error) -> Seq<char>;

/// The text of a transport error.
///
/// Calls the `Display` impl of `tonic::transport::Error`. Taken on trust: the
/// text is fixed by the error, and is one of the four descriptions that the
/// crate has for its kinds of error.
#[verifier::external_body]
pub(crate) fn transport_error_string(error: &tonic::transport::Error) -> (r: String)
    ensures
        r@ == transport_error_text(*error),
        r@ == "transport error"@ || r@ == "invalid URI"@ || r@
            == "user agent is not a valid header value"@ || r@
            == "cannot apply TLS config for unix domain socket"@,
{
    error.to_string()
}

/// The exception classes that the extension throws.
#[derive(Debug, Clone, Copy, PartialEq, Eq, Structural)]
pub enum ExceptionClass {
    Exception,
    InvalidArgumentException,
    LogicException,
    RuntimeException,
}

impl ExceptionClass {
    /// The PHP name of the class.
    pub open spec fn spec_name(self) -> Seq<char> {
        match self {
            ExceptionClass::Exception => "Exception"@,
            ExceptionClass::InvalidArgumentException => "InvalidArgumentException"@,
            ExceptionClass::LogicException => "LogicException"@,
            ExceptionClass::RuntimeException => "RuntimeException"@,
        }
    }

    /// The PHP name of the class.
    pub fn name(self) -> (r: &'static str)
        ensures
            r@ == self.spec_name(),
    {
        match self {
            ExceptionClass::Exception => "Exception",
            ExceptionClass::InvalidArgumentException => "InvalidArgumentException",
            ExceptionClass::LogicException => "LogicException",
            ExceptionClass::RuntimeException => "RuntimeException",
        }
    }
}

/// A PHP exception about to be thrown.
#[derive(Debug)]
pub struct PhpException {
    pub class: ExceptionClass,
    pub message: String,
    pub code: i32,
}

/// What a PHP exception holds.
pub struct ExceptionView {
    pub class: ExceptionClass,
    pub message: Seq<char>,
    pub code: int,
}

impl View for PhpException {
    type V = ExceptionView;

    open spec fn view(&self) -> ExceptionView {
        ExceptionView { class: self.class, message: self.message@, code: self.code as int }
    }
}

impl PhpException {
    /// The exception as it can be thrown: `\Exception` stands in for a class
    /// that the engine does not have.
    pub fn resolved(self, class_found: bool) -> (r: PhpException)
        ensures
            r@ == (ExceptionView {
                class: if class_found {
                    self.class
                } else {
                    ExceptionClass::Exception
                },
                ..self@
            }),
    {
        if class_found {
            self
        } else {
            PhpException {
                class: ExceptionClass::Exception,
                message: self.message,
                code: self.code,
            }
        }
    }
}

/// The exception of a class with a message and a code.
pub open spec fn exception(class: ExceptionClass, message: Seq<char>, code: int) -> ExceptionView {
    ExceptionView { class, message, code }
}

/// Builds an exception of a given class.
fn class_exception(class: ExceptionClass, message: &str, code: i32) -> (r: PhpException)
    ensures
        r@ == exception(class, message@, code as int),
{
    PhpException { class, message: message.to_owned(), code }
}

/// The view of [`invalid_argument`].
pub open spec fn invalid_argument_view(message: Seq<char>) -> ExceptionView {
    exception(ExceptionClass::InvalidArgumentException, message, 1)
}

/// `InvalidArgumentException` with code 1, for argument and validation errors.
pub fn invalid_argument(message: &str) -> (r: PhpException)
    ensures
        r@ == invalid_argument_view(message@),
{
    class_exception(ExceptionClass::InvalidArgumentException, message, 1)
}

/// `LogicException` carrying a call error code, for batch sequencing errors.
pub fn logic_exception(message: &str, call_error: i32) -> (r: PhpException)
    ensures
        r@ == exception(ExceptionClass::LogicException, message@, call_error as int),
{
    class_exception(ExceptionClass::LogicException, message, call_error)
}

/// `RuntimeException`, for the use of a closed resource.
pub fn runtime_exception(message: &str) -> (r: PhpException)
    ensures
        r@ == exception(ExceptionClass::RuntimeException, message@, 0),
{
    class_exception(ExceptionClass::RuntimeException, message, 0)
}

/// A plain `\Exception` with code 0.
pub fn default_exception(message: &str) -> (r: PhpException)
    ensures
        r@ == exception(ExceptionClass::Exception, message@, 0),
{
    class_exception(ExceptionClass::Exception, message, 0)
}

/// What can go wrong below the PHP surface.
#[derive(Debug)]
pub enum GrpcError {
    RuntimeInit(std::io::Error),
    Transport(tonic::transport::Error),
    Status { code: i32, message: String },
    InvalidArg(String),
    InvalidUri(String),
    CallbackFailed(String),
}

/// Whether `text` is how the error reads.
///
/// An I/O error reads as it is displayed.
pub open spec fn reads_as(error: GrpcError, text: Seq<char>) -> bool {
    match error {
        GrpcError::RuntimeInit(e) => exists|detail: String| #[trigger]
            to_string_from_display_ensures(&e, detail) && text
                == "failed to initialize tokio runtime: "@ + detail@,
        GrpcError::Transport(e) => text == "transport error: "@ + transport_error_text(e),
        GrpcError::Status { code, message } => text == "gRPC status "@ + decimal(code as int)
            + ": "@ + message@,
        GrpcError::InvalidArg(s) => text == "invalid argument: "@ + s@,
        GrpcError::InvalidUri(s) => text == "invalid URI: "@ + s@,
        GrpcError::CallbackFailed(s) => text == "callback failed: "@ + s@,
    }
}

/// Whether an error is thrown as the exception: a plain `\Exception` with its
/// text.
pub open spec fn thrown_as(error: GrpcError, thrown: ExceptionView) -> bool {
    thrown.class == ExceptionClass::Exception && thrown.code == 0 && reads_as(
        error,
        thrown.message,
    )
}

impl GrpcError {
    /// How the error reads.
    pub fn to_string(&self) -> (r: String)
        ensures
            reads_as(*self, r@),
    {
        match self {
            GrpcError::RuntimeInit(e) => {
                let detail = e.to_string();
                assert(to_string_from_display_ensures(e, detail));
                joined("failed to initialize tokio runtime: ", detail.as_str())
            },
            GrpcError::Transport(e) => joined(
                "transport error: ",
                transport_error_string(e).as_str(),
            ),
            GrpcError::Status { code, message } => {
                let mut t = joined("gRPC status ", signed_text(*code as i64).as_str());
                t.append(": ");
                t.append(message.as_str());
                t
            },
            GrpcError::InvalidArg(s) => joined("invalid argument: ", s.as_str()),
            GrpcError::InvalidUri(s) => joined("invalid URI: ", s.as_str()),
            GrpcError::CallbackFailed(s) => joined("callback failed: ", s.as_str()),
        }
    }

    /// The exception that the error is thrown as.
    pub fn into_exception(self) -> (r: PhpException)
        ensures
            thrown_as(self, r@),
    {
        PhpException { class: ExceptionClass::Exception, message: self.to_string(), code: 0 }
    }
}

impl From<std::io::Error> for GrpcError {
    fn from(e: std::io::Error) -> (r: GrpcError) {
        GrpcError::RuntimeInit(e)
    }
}

impl vstd::std_specs::convert::FromSpecImpl<std::io::Error> for GrpcError {
    open spec fn obeys_from_spec() -> bool {
        true
    }

    open spec fn from_spec(e: std::io::Error) -> GrpcError {
        GrpcError::RuntimeInit(e)
    }
}

impl From<tonic::transport::Error> for GrpcError {
    fn from(e: tonic::transport::Error) -> (r: GrpcError) {
        GrpcError::Transport(e)
    }
}

impl vstd::std_specs::convert::FromSpecImpl<tonic::transport::Error> for GrpcError {
    open spec fn obeys_from_spec() -> bool {
        true
    }

    open spec fn from_spec(e: tonic::transport::Error) -> GrpcError {
        GrpcError::Transport(e)
    }
}

// ---------------------------------------------------------------------------
// Laws
// ---------------------------------------------------------------------------

/// An exception is seen as it is thrown, with its class, all of its message and
/// its code; an argument error is an `InvalidArgumentException` of code 1. Each
/// class has its own name in PHP.
pub proof fn law_exceptions_are_seen_whole(thrown: PhpException, class: ExceptionClass, text: Seq<
    char,
>, code: int)
    ensures
        thrown@.class == thrown.class,
        thrown@.message == thrown.message@,
        thrown@.code == thrown.code,
        exception(class, text, code) == (ExceptionView { class, message: text, code }),
        invalid_argument_view(text) == (ExceptionView {
            class: ExceptionClass::InvalidArgumentException,
            message: text,
            code: 1,
        }),
        ExceptionClass::Exception.spec_name() == "Exception"@,
        ExceptionClass::InvalidArgumentException.spec_name() == "InvalidArgumentException"@,
        ExceptionClass::LogicException.spec_name() == "LogicException"@,
        ExceptionClass::RuntimeException.spec_name() == "RuntimeException"@,
{
}

/// What is wrong is said whole, whatever its length: the text of an error is a
/// fixed beginning for its kind, then all that the error holds. The exception is
/// a plain `\Exception` of code 0 with that text.
pub proof fn law_errors_are_told_whole(error: GrpcError, text: Seq<char>, thrown: ExceptionView)
    ensures
        error matches GrpcError::InvalidArg(why) ==> (reads_as(error, text) <==> text
            == "invalid argument: "@ + why@),
        error matches GrpcError::InvalidUri(why) ==> (reads_as(error, text) <==> text
            == "invalid URI: "@ + why@),
        error matches GrpcError::CallbackFailed(why) ==> (reads_as(error, text) <==> text
            == "callback failed: "@ + why@),
        error matches GrpcError::Transport(e) ==> (reads_as(error, text) <==> text
            == "transport error: "@ + transport_error_text(e)),
        error matches GrpcError::Status { code, message } ==> (reads_as(error, text) <==> text
            == "gRPC status "@ + decimal(code as int) + ": "@ + message@),
        error matches GrpcError::RuntimeInit(e) ==> (reads_as(error, text) <==> exists|
            detail: String,
        | #[trigger]
            to_string_from_display_ensures(&e, detail) && text
                == "failed to initialize tokio runtime: "@ + detail@),
        thrown_as(error, thrown) <==> thrown.class is Exception && thrown.code == 0 && reads_as(
            error,
            thrown.message,
        ),
{
}

} // verus!
