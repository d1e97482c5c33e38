//! The error types of the library.
use vstd::prelude::*;
use crate::list::ListResponse;

verus! {

/// A text that should have been a number and is not.
#[derive(Debug)]
pub struct ParseIntError {
    /// The text that failed to parse.
    pub value: String,
}

/// HTML that does not have the shape the parser expects.
#[derive(Debug)]
pub struct HtmlParseError {
    pub message: &'static str,
}

/// Something that the source always provides turned out to be missing or duplicated.
#[derive(Debug)]
pub struct InvariantError {
    pub message: String,
}

/// A CSS selector that does not parse.
#[derive(Debug)]
pub struct SelectorError {
    pub message: String,
}

/// An error reported by a third-party API.
#[derive(Debug)]
pub struct ExternalApiError {
    pub message: &'static str,
}

/// A value could not be built.
#[derive(Debug)]
pub struct BuildError {
    pub message: &'static str,
}

/// A body that could not be deserialized.
#[derive(Debug)]
pub struct DeserializationError {
    pub message: &'static str,
    /// The text that was being deserialized.
    pub serialized: String,
}

/// A response that reports failure, by its status code or by its body.
#[derive(Debug)]
pub struct ResponseError {
    pub message: &'static str,
    /// The HTTP status code.
    pub status: u16,
    /// The response headers, as name and value bytes.
    pub headers: Vec<(String, Vec<u8>)>,
    pub body: String,
}

/// A raw list reply that reports failure, by its status code or by its result;
/// the parsed response where the failure is in the result.
#[derive(Debug)]
pub struct UnsuccessfulResponseError {
    pub message: &'static str,
    /// The HTTP status code.
    pub status: u16,
    /// The response headers, as name and value bytes.
    pub headers: Vec<(String, Vec<u8>)>,
    pub body: Option<ListResponse>,
}

/// A conversion between two types failed.
#[derive(Debug)]
pub struct TypeConversionError {
    /// A description of the error that caused the failure, where there was one.
    pub source: Option<String>,
    pub message: String,
}

impl TypeConversionError {
    /// A conversion error caused by `source`.
    pub fn new(source: String) -> (res: Self)
        ensures
            res.source == Some(source),
            res.message@ == "Conversion between types failed"@,
    {
        TypeConversionError {
            source: Some(source),
            message: "Conversion between types failed".to_owned(),
        }
    }

    /// The error as text: `Type conversion error: ` and the message.
    pub fn to_string(&self) -> (res: String)
        ensures
            res@ == "Type conversion error: "@ + self.message@,
    {
        let mut out = "Type conversion error: ".to_owned();
        out.append(self.message.as_str());
        out
    }
}

/// A failed conversion between representations.
#[derive(Debug)]
pub enum ConversionError {
    /// Bytes that are not UTF-8.
    Utf8(std::str::Utf8Error),
    /// An owned byte buffer that is not UTF-8.
    FromUtf8(std::string::FromUtf8Error),
    /// A header value that is not visible ASCII.
    ToStr(reqwest::header::ToStrError),
    TypeConversion(TypeConversionError),
}

/// The error body that the Nopecha API answers with.
#[derive(Debug, PartialEq)]
pub struct NopechaErrorBody {
    error: usize,
    message: String,
}

impl NopechaErrorBody {
    pub fn new(error: usize, message: String) -> (res: Self)
        ensures
            res.error() == error,
            res.message() == message,
    {
        NopechaErrorBody { error, message }
    }

    pub closed spec fn error(&self) -> usize {
        self.error
    }

    pub closed spec fn message(&self) -> String {
        self.message
    }

    /// The error code.
    #[verifier::when_used_as_spec(error)]
    pub fn error_code(&self) -> (res: usize)
        ensures
            res == self.error(),
    {
        self.error
    }

    /// The error message.
    pub fn message_text(&self) -> (res: &String)
        ensures
            *res == self.message(),
    {
        &self.message
    }
}

/// The errors of the Nopecha API that the pipeline tells apart.
#[derive(Debug)]
pub enum NopechaError {
    /// The answer is not ready yet (code 14).
    IncompleteJob(NopechaErrorBody),
    /// The account has no credit left (code 16).
    OutOfCredit(NopechaErrorBody),
    Other(NopechaErrorBody),
}

/// How an error code of the Nopecha API is classified.
pub open spec fn nopecha_error_of(body: NopechaErrorBody) -> NopechaError {
    if body.error() == 14 {
        NopechaError::IncompleteJob(body)
    } else if body.error() == 16 {
        NopechaError::OutOfCredit(body)
    } else {
        NopechaError::Other(body)
    }
}

impl From<NopechaErrorBody> for NopechaError {
    fn from(body: NopechaErrorBody) -> (res: Self)
        ensures
            res == nopecha_error_of(body),
    {
        if body.error_code() == 14 {
            NopechaError::IncompleteJob(body)
        } else if body.error_code() == 16 {
            NopechaError::OutOfCredit(body)
        } else {
            NopechaError::Other(body)
        }
    }
}

impl vstd::std_specs::convert::FromSpecImpl<NopechaErrorBody> for NopechaError {
    open spec fn obeys_from_spec() -> bool {
        true
    }

    open spec fn from_spec(v: NopechaErrorBody) -> NopechaError {
        nopecha_error_of(v)
    }
}

/// The error of a value that fails its type's validation.
#[derive(Debug, Clone, PartialEq, Eq)]
pub struct ValidationError {
    pub value: String,
    pub message: String,
}

/// Why a text could not be read as a date.
#[derive(Debug, Clone, Copy, PartialEq, Eq)]
pub enum DateParseErrorKind {
    /// A field is out of its range.
    OutOfRange,
    /// The fields do not name an existing date.
    Impossible,
    /// The text does not give enough fields.
    NotEnough,
    /// A character is not what the format asks for.
    Invalid,
    /// The text ends too early.
    TooShort,
    /// The text has characters after the format's end.
    TooLong,
    /// The format itself is bad.
    BadFormat,
}

/// The errors of the domain types.
#[derive(Debug)]
pub enum TypeError {
    /// A date text that does not parse.
    ChronoParse(DateParseErrorKind),
    /// A value that breaks its type's rule.
    Validation(ValidationError),
}

/// The error type of the library.
#[derive(Debug)]
pub enum SmesError {
    Build(BuildError),
    Conversion(ConversionError),
    /// A `Set-Cookie` value that is no cookie.
    CookieParse(cookie::ParseError),
    Deserialization(DeserializationError),
    ExternalApi(ExternalApiError),
    HtmlParse(HtmlParseError),
    Image(image::ImageError),
    /// A text that cannot be a header value.
    InvalidHeaderValue(reqwest::header::InvalidHeaderValue),
    Invariant(InvariantError),
    /// A field that the response should have had.
    MissingExpectedField(String),
    Nopecha(NopechaError),
    ParseInt(ParseIntError),
    /// A failed HTTP exchange.
    Reqwest(reqwest::Error),
    Scraper(SelectorError),
    /// A value that JSON could not carry.
    SerdeJson(serde_json::Error),
    Response(ResponseError),
    /// A raw list reply that reports failure.
    UnsuccessfulResponse(UnsuccessfulResponseError),
    Type(TypeError),
}

/// `image::ImageError`, carried as it is.
#[verifier::external_type_specification]
#[verifier::external_body]
pub struct ExImageError(image::ImageError);

/// `std::string::FromUtf8Error`, carried as it is.
#[verifier::external_type_specification]
#[verifier::external_body]
pub struct ExFromUtf8Error(std::string::FromUtf8Error);

/// `reqwest::header::ToStrError`, carried as it is.
#[verifier::external_type_specification]
#[verifier::external_body]
pub struct ExToStrError(reqwest::header::ToStrError);

/// `reqwest::header::InvalidHeaderValue`, carried as it is.
#[verifier::external_type_specification]
#[verifier::external_body]
pub struct ExInvalidHeaderValue(reqwest::header::InvalidHeaderValue);

/// `reqwest::Error`, carried as it is.
#[verifier::external_type_specification]
#[verifier::external_body]
pub struct ExReqwestError(reqwest::Error);

/// `serde_json::Error`, carried as it is.
#[verifier::external_type_specification]
#[verifier::external_body]
pub struct ExSerdeJsonError(serde_json::Error);

/// `std::str::Utf8Error`, carried as it is.
#[verifier::external_type_specification]
#[verifier::external_body]
pub struct ExUtf8Error(std::str::Utf8Error);

} // verus!
