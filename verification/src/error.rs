//! Error taxonomy of the extraction pipeline, and the generic error value
//! that the framework turns into a response.

use vstd::prelude::*;

verus! {

/// Terminal, non-retryable failures of the URL encoded body aggregator.
#[derive(Debug)]
pub enum UrlencodedError {
    /// Declared media type or charset does not match or resolve.
    ContentType,
    /// Content-Length header present but unparsable.
    UnknownLength,
    /// Declared or accumulated size exceeds the configured limit.
    Overflow { size: usize, limit: usize },
    /// Decode or deserialize failure after a successful drain.
    Parse,
    /// The underlying stream read failed; carries the transport's message.
    Payload { message: String },
}

/// Generic error value: enough to build an error response from.
#[derive(Debug)]
pub struct Error {
    pub status: u16,
    pub message: String,
}

impl UrlencodedError {
    /// Wrap a failed stream read: how a transport error enters the taxonomy.
    pub fn payload(message: String) -> (r: Self)
        ensures
            r == (UrlencodedError::Payload { message }),
    {
        UrlencodedError::Payload { message }
    }

    /// The response status this failure maps to.
    pub open spec fn spec_status(&self) -> u16 {
        match self {
            UrlencodedError::ContentType => 415u16,
            UrlencodedError::UnknownLength => 411u16,
            UrlencodedError::Overflow { .. } => 413u16,
            UrlencodedError::Parse => 400u16,
            UrlencodedError::Payload { .. } => 400u16,
        }
    }

    /// The human-readable description of this failure.
    pub open spec fn spec_message(&self) -> Seq<char> {
        match self {
            UrlencodedError::ContentType => "Content type error"@,
            UrlencodedError::UnknownLength => "Payload size is now known"@,
            UrlencodedError::Overflow { .. } => "URL encoded payload is larger than allowed"@,
            UrlencodedError::Parse => "Parse error"@,
            UrlencodedError::Payload { .. } => "Payload error"@,
        }
    }

    /// The human-readable description of this failure.
    pub fn message(&self) -> (r: &'static str)
        ensures
            r@ == self.spec_message(),
    {
        match self {
            UrlencodedError::ContentType => "Content type error",
            UrlencodedError::UnknownLength => "Payload size is now known",
            UrlencodedError::Overflow { .. } => "URL encoded payload is larger than allowed",
            UrlencodedError::Parse => "Parse error",
            UrlencodedError::Payload { .. } => "Payload error",
        }
    }

    /// The default lossless conversion into the generic error value.
    pub fn to_error(&self) -> (r: Error)
        ensures
            r.status == self.spec_status(),
            r.message@ == self.spec_message(),
    {
        Error { status: self.status(), message: String::from_str(self.message()) }
    }

    /// The response status this failure maps to.
    pub fn status(&self) -> (r: u16)
        ensures
            r == self.spec_status(),
    {
        match self {
            UrlencodedError::ContentType => 415,
            UrlencodedError::UnknownLength => 411,
            UrlencodedError::Overflow { .. } => 413,
            UrlencodedError::Parse => 400,
            UrlencodedError::Payload { .. } => 400,
        }
    }
}

} // verus!
