//! Errors of the library, with the text and HTTP status they are reported
//! with.
use vstd::prelude::*;

verus! {

/// An error of the index. Errors that come from outside the library carry
/// their message.
#[derive(Debug, Clone, PartialEq, Eq)]
pub enum AlexandriaError {
    Io(String),
    Database(String),
    Migration(String),
    Config(String),
    Ffprobe(String),
    NotFound(String),
    BadRequest(String),
    Other(String),
}

/// The text of an error, as it is displayed.
pub open spec fn error_text(e: AlexandriaError) -> Seq<char> {
    match e {
        AlexandriaError::Io(m) => "IO error: "@ + m@,
        AlexandriaError::Database(m) => "Database error: "@ + m@,
        AlexandriaError::Migration(m) => "Migration error: "@ + m@,
        AlexandriaError::Config(m) => "Configuration error: "@ + m@,
        AlexandriaError::Ffprobe(m) => "FFprobe error: "@ + m@,
        AlexandriaError::NotFound(m) => "Not found: "@ + m@,
        AlexandriaError::BadRequest(m) => "Bad request: "@ + m@,
        AlexandriaError::Other(m) => m@,
    }
}

/// The HTTP status an error is answered with.
pub open spec fn error_status(e: AlexandriaError) -> u16 {
    match e {
        AlexandriaError::NotFound(_) => 404,
        AlexandriaError::BadRequest(_) => 400,
        _ => 500,
    }
}

/// The message an error is answered with: the bare message of a missing item
/// or of a bad request, the displayed text behind "Internal error: " for the
/// rest.
pub open spec fn error_response_message(e: AlexandriaError) -> Seq<char> {
    match e {
        AlexandriaError::NotFound(m) => m@,
        AlexandriaError::BadRequest(m) => m@,
        _ => "Internal error: "@ + error_text(e),
    }
}

/// `prefix` followed by `m`.
fn prefixed(prefix: &str, m: &String) -> (r: String)
    ensures
        r@ == prefix@ + m@,
{
    let mut s = String::from_str(prefix);
    s.append(m.as_str());
    s
}

impl AlexandriaError {
    /// The displayed text of the error.
    pub fn message(&self) -> (r: String)
        ensures
            r@ == error_text(*self),
    {
        match self {
            AlexandriaError::Io(m) => prefixed("IO error: ", m),
            AlexandriaError::Database(m) => prefixed("Database error: ", m),
            AlexandriaError::Migration(m) => prefixed("Migration error: ", m),
            AlexandriaError::Config(m) => prefixed("Configuration error: ", m),
            AlexandriaError::Ffprobe(m) => prefixed("FFprobe error: ", m),
            AlexandriaError::NotFound(m) => prefixed("Not found: ", m),
            AlexandriaError::BadRequest(m) => prefixed("Bad request: ", m),
            AlexandriaError::Other(m) => m.clone(),
        }
    }

    /// The HTTP status the error is answered with.
    pub fn status_code(&self) -> (r: u16)
        ensures
            r == error_status(*self),
    {
        match self {
            AlexandriaError::NotFound(_) => 404,
            AlexandriaError::BadRequest(_) => 400,
            _ => 500,
        }
    }

    /// The message the error is answered with.
    pub fn response_message(&self) -> (r: String)
        ensures
            r@ == error_response_message(*self),
    {
        match self {
            AlexandriaError::NotFound(m) => m.clone(),
            AlexandriaError::BadRequest(m) => m.clone(),
            _ => {
                let text = self.message();
                prefixed("Internal error: ", &text)
            },
        }
    }
}

} // verus!
