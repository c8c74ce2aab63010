//! The error vocabulary shared by the document loader and field extraction.
use vstd::prelude::*;
use vstd::string::*;

verus! {

#[verifier::external_type_specification]
#[verifier::external_body]
pub struct ExIoError(std::io::Error);

#[verifier::external_type_specification]
#[verifier::external_body]
pub struct ExParseIntError(core::num::ParseIntError);

#[verifier::external_type_specification]
#[verifier::external_body]
pub struct ExFromUtf8Error(std::string::FromUtf8Error);

#[verifier::external_type_specification]
#[verifier::external_body]
pub struct ExUtf8Error(core::str::Utf8Error);

pub type Result<T> = core::result::Result<T, Error>;

/// Core error kinds. Variants that concern one field of a document carry
/// that field's dotted path.
#[derive(Debug)]
pub enum Error {
    /// Error reading raw contents of file.
    FileIO(std::io::Error),
    /// Parsing error while reading a file: one diagnostic line per problem.
    FileSyntax(String),
    /// Expected a valid array of values for field value.
    InvalidArray(&'static str),
    /// Expected a valid Ipv4 network address for field value.
    InvalidIpv4Addr(&'static str),
    /// Expected a valid SocketAddrV4 address pair for field value.
    InvalidSocketAddrV4(&'static str),
    /// Expected a string for field value.
    InvalidString(&'static str),
    /// Expected a URL for field value.
    InvalidUrl(&'static str),
    /// Occurs when a file that should exist does not or could not be read.
    FileNotFound(String),
    /// Occurs when making lower level IO calls.
    IO(std::io::Error),
    /// IP Address error
    IPFailed,
    /// When an error occurs parsing an integer.
    ParseIntError(core::num::ParseIntError),
    /// When an error occurs converting a `String` from a UTF-8 byte vector.
    StringFromUtf8Error(std::string::FromUtf8Error),
    /// Occurs when a `uname` call returns an error.
    UnameFailed(String),
    /// When an error occurs attempting to interpret a sequence of u8 as a string.
    Utf8Error(core::str::Utf8Error),
}

/// The text `prefix`, then `field`, then `suffix`.
pub open spec fn framed(prefix: Seq<char>, field: Seq<char>, suffix: Seq<char>) -> Seq<char> {
    prefix + field + suffix
}

/// Builds `prefix ++ field ++ suffix` as an owned string.
fn frame(prefix: &str, field: &str, suffix: &str) -> (r: String)
    ensures
        r@ == framed(prefix@, field@, suffix@),
{
    let mut s = String::from_str(prefix);
    s.append(field);
    s.append(suffix);
    s
}

/// Relies on the deprecated `std::error::Error::description` of
/// `io::Error`: a short text for the error.
#[verifier::external_body]
fn io_description(e: &std::io::Error) -> &str {
    #[allow(deprecated)]
    std::error::Error::description(e)
}

impl Error {
    /// A one-line, human-readable message saying what was expected and, for
    /// field-level errors, which field failed.
    pub fn message(&self) -> (r: String)
        ensures
            self matches Error::InvalidArray(f)
                ==> r@ == framed("Invalid array of values, field="@, f@, ""@),
            self matches Error::InvalidIpv4Addr(f) ==> r@ == framed(
                "Invalid Ipv4 address, field="@,
                f@,
                ". (example: \"127.0.0.0\")"@,
            ),
            self matches Error::InvalidSocketAddrV4(f) ==> r@ == framed(
                "Invalid Ipv4 network address pair, field="@,
                f@,
                ". (example: \"127.0.0.0:8080\")"@,
            ),
            self matches Error::InvalidString(f)
                ==> r@ == framed("Invalid string value, field="@, f@, "."@),
            self matches Error::InvalidUrl(f)
                ==> r@ == framed("Invalid URL value, field="@, f@, "."@),
            self matches Error::FileSyntax(d)
                ==> r@ == framed("Syntax errors while parsing file:\n\n"@, d@, ""@),
            self matches Error::FileNotFound(p) ==> r@ == framed("File not found at: "@, p@, ""@),
            self matches Error::UnameFailed(m) ==> r@ == m@,
            self matches Error::FileIO(e) ==> exists|t: String|
                to_string_from_display_ensures::<std::io::Error>(&e, t) && r@ == framed(
                    "Error reading file: "@,
                    t@,
                    ""@,
                ),
            self matches Error::IO(e) ==> to_string_from_display_ensures::<std::io::Error>(&e, r),
            self matches Error::ParseIntError(e) ==> to_string_from_display_ensures::<
                core::num::ParseIntError,
            >(&e, r),
            self matches Error::StringFromUtf8Error(e) ==> to_string_from_display_ensures::<
                std::string::FromUtf8Error,
            >(&e, r),
            self matches Error::Utf8Error(e) ==> to_string_from_display_ensures::<
                core::str::Utf8Error,
            >(&e, r),
            self is IPFailed ==> r@ == "Failed to discover this hosts IP address"@,
    {
        match self {
            Error::FileIO(e) => {
                let t = e.to_string();
                frame("Error reading file: ", t.as_str(), "")
            },
            Error::FileSyntax(d) => frame("Syntax errors while parsing file:\n\n", d.as_str(), ""),
            Error::InvalidArray(f) => frame("Invalid array of values, field=", f, ""),
            Error::InvalidIpv4Addr(f) => frame(
                "Invalid Ipv4 address, field=",
                f,
                ". (example: \"127.0.0.0\")",
            ),
            Error::InvalidSocketAddrV4(f) => frame(
                "Invalid Ipv4 network address pair, field=",
                f,
                ". (example: \"127.0.0.0:8080\")",
            ),
            Error::InvalidString(f) => frame("Invalid string value, field=", f, "."),
            Error::InvalidUrl(f) => frame("Invalid URL value, field=", f, "."),
            Error::FileNotFound(p) => frame("File not found at: ", p.as_str(), ""),
            Error::IO(e) => e.to_string(),
            Error::IPFailed => String::from_str("Failed to discover this hosts IP address"),
            Error::ParseIntError(e) => e.to_string(),
            Error::StringFromUtf8Error(e) => e.to_string(),
            Error::UnameFailed(m) => m.clone(),
            Error::Utf8Error(e) => e.to_string(),
        }
    }

    /// A short description of the error's kind; for a lower-level I/O error,
    /// that error's own description.
    pub fn description(&self) -> (r: &str)
        ensures
            self is FileIO ==> r@ == "Unable to read the raw contents of file"@,
            self is FileSyntax ==> r@ == "Error parsing contents of file"@,
            self is InvalidArray ==> r@ == "Invalid array of values encountered while parsing file"@,
            self is InvalidIpv4Addr
                ==> r@ == "Invalid Ipv4 network address encountered while parsing file"@,
            self is InvalidSocketAddrV4
                ==> r@ == "Invalid Ipv4 network address pair encountered while parsing file"@,
            self is InvalidString ==> r@ == "Invalid string value encountered while parsing a file"@,
            self is InvalidUrl ==> r@ == "Invalid URL value encountered while parsing file"@,
            self is FileNotFound ==> r@ == "File not found"@,
            self is IPFailed ==> r@ == "Failed to discover this hosts IP address"@,
            self is ParseIntError ==> r@ == "Failed to parse an integer from a string!"@,
            self is StringFromUtf8Error
                ==> r@ == "Failed to convert a string from a Vec<u8> as UTF-8"@,
            self is UnameFailed ==> r@ == "Failed to get uname on host"@,
            self is Utf8Error ==> r@ == "Failed to interpret a sequence of bytes as a string"@,
    {
        match self {
            Error::FileIO(_) => "Unable to read the raw contents of file",
            Error::FileSyntax(_) => "Error parsing contents of file",
            Error::InvalidArray(_) => "Invalid array of values encountered while parsing file",
            Error::InvalidIpv4Addr(_) => "Invalid Ipv4 network address encountered while parsing file",
            Error::InvalidSocketAddrV4(_) => "Invalid Ipv4 network address pair encountered while parsing file",
            Error::InvalidString(_) => "Invalid string value encountered while parsing a file",
            Error::InvalidUrl(_) => "Invalid URL value encountered while parsing file",
            Error::FileNotFound(_) => "File not found",
            Error::IO(e) => io_description(e),
            Error::IPFailed => "Failed to discover this hosts IP address",
            Error::ParseIntError(_) => "Failed to parse an integer from a string!",
            Error::StringFromUtf8Error(_) => "Failed to convert a string from a Vec<u8> as UTF-8",
            Error::UnameFailed(_) => "Failed to get uname on host",
            Error::Utf8Error(_) => "Failed to interpret a sequence of bytes as a string",
        }
    }
}

impl From<std::io::Error> for Error {
    fn from(err: std::io::Error) -> (r: Self)
        ensures
            r matches Error::IO(e) && e == err,
    {
        Error::IO(err)
    }
}

impl vstd::std_specs::convert::FromSpecImpl<std::io::Error> for Error {
    open spec fn obeys_from_spec() -> bool {
        true
    }

    open spec fn from_spec(v: std::io::Error) -> Self {
        Error::IO(v)
    }
}

impl From<core::num::ParseIntError> for Error {
    fn from(err: core::num::ParseIntError) -> (r: Self)
        ensures
            r matches Error::ParseIntError(e) && e == err,
    {
        Error::ParseIntError(err)
    }
}

impl vstd::std_specs::convert::FromSpecImpl<core::num::ParseIntError> for Error {
    open spec fn obeys_from_spec() -> bool {
        true
    }

    open spec fn from_spec(v: core::num::ParseIntError) -> Self {
        Error::ParseIntError(v)
    }
}

impl From<std::string::FromUtf8Error> for Error {
    fn from(err: std::string::FromUtf8Error) -> (r: Self)
        ensures
            r matches Error::StringFromUtf8Error(e) && e == err,
    {
        Error::StringFromUtf8Error(err)
    }
}

impl vstd::std_specs::convert::FromSpecImpl<std::string::FromUtf8Error> for Error {
    open spec fn obeys_from_spec() -> bool {
        true
    }

    open spec fn from_spec(v: std::string::FromUtf8Error) -> Self {
        Error::StringFromUtf8Error(v)
    }
}

impl From<core::str::Utf8Error> for Error {
    fn from(err: core::str::Utf8Error) -> (r: Self)
        ensures
            r matches Error::Utf8Error(e) && e == err,
    {
        Error::Utf8Error(err)
    }
}

impl vstd::std_specs::convert::FromSpecImpl<core::str::Utf8Error> for Error {
    open spec fn obeys_from_spec() -> bool {
        true
    }

    open spec fn from_spec(v: core::str::Utf8Error) -> Self {
        Error::Utf8Error(v)
    }
}

} // verus!
