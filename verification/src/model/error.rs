//! The ways an operation can fail.

use crate::util::text::{concat, dec, usize_to_string};
use vstd::prelude::*;

verus! {

/// One failure. A failure that began outside the library (in the connection,
/// the environment, a file) carries that failure's own description.
#[derive(Debug)]
pub enum RsrqError {
    /// No connection to Redis could be made.
    RedisConnError(String),
    /// Redis refused or failed an operation.
    RedisOpError(String),
    /// A command line, a status string or a duration could not be read.
    CmdParserError(String),
    /// A required environment variable is missing.
    EnvError(String),
    /// No job has this identifier.
    JobNotFound(usize),
    /// The system clock could not be read.
    SystemTimeError(String),
    /// A stored value or a key could not be read.
    ParserError(String),
    /// A job script holds no properties line.
    SnakemakeInvalidJobScript(String),
    /// The properties of a job script are no valid JSON.
    InvalidJson(String),
    /// A file could not be opened.
    FileNotFound(String),
    /// A file could not be read.
    FileReadError(String),
    /// Another input or output operation failed.
    IOError(String),
    /// Any other failure.
    GeneralError(String),
}

/// A failure, with its description as a sequence of characters.
pub enum RsrqErrorView {
    RedisConnError(Seq<char>),
    RedisOpError(Seq<char>),
    CmdParserError(Seq<char>),
    EnvError(Seq<char>),
    JobNotFound(usize),
    SystemTimeError(Seq<char>),
    ParserError(Seq<char>),
    SnakemakeInvalidJobScript(Seq<char>),
    InvalidJson(Seq<char>),
    FileNotFound(Seq<char>),
    FileReadError(Seq<char>),
    IOError(Seq<char>),
    GeneralError(Seq<char>),
}

impl View for RsrqError {
    type V = RsrqErrorView;

    open spec fn view(&self) -> RsrqErrorView {
        match self {
            RsrqError::RedisConnError(e) => RsrqErrorView::RedisConnError(e@),
            RsrqError::RedisOpError(e) => RsrqErrorView::RedisOpError(e@),
            RsrqError::CmdParserError(e) => RsrqErrorView::CmdParserError(e@),
            RsrqError::EnvError(e) => RsrqErrorView::EnvError(e@),
            RsrqError::JobNotFound(id) => RsrqErrorView::JobNotFound(*id),
            RsrqError::SystemTimeError(e) => RsrqErrorView::SystemTimeError(e@),
            RsrqError::ParserError(e) => RsrqErrorView::ParserError(e@),
            RsrqError::SnakemakeInvalidJobScript(e) => RsrqErrorView::SnakemakeInvalidJobScript(
                e@,
            ),
            RsrqError::InvalidJson(e) => RsrqErrorView::InvalidJson(e@),
            RsrqError::FileNotFound(e) => RsrqErrorView::FileNotFound(e@),
            RsrqError::FileReadError(e) => RsrqErrorView::FileReadError(e@),
            RsrqError::IOError(e) => RsrqErrorView::IOError(e@),
            RsrqError::GeneralError(e) => RsrqErrorView::GeneralError(e@),
        }
    }
}

impl RsrqError {
    /// The line that describes the failure to a user.
    pub open spec fn display(&self) -> Seq<char> {
        match self {
            RsrqError::RedisConnError(e) => "Redis connection error: "@ + e@,
            RsrqError::RedisOpError(e) => "Redis operation error: "@ + e@,
            RsrqError::CmdParserError(e) => "Command parser error: "@ + e@,
            RsrqError::EnvError(e) => "Environment variable error: "@ + e@,
            RsrqError::JobNotFound(id) => "Job not found: "@ + dec(*id as nat),
            RsrqError::SystemTimeError(e) => "System time error: "@ + e@,
            RsrqError::ParserError(e) => "Parser error: "@ + e@,
            RsrqError::SnakemakeInvalidJobScript(e) => "Snakemake invalid job script: "@ + e@,
            RsrqError::InvalidJson(e) => "Invalid JSON: "@ + e@,
            RsrqError::FileNotFound(e) => "File not found: "@ + e@,
            RsrqError::FileReadError(e) => "File read error: "@ + e@,
            RsrqError::IOError(e) => "IO error: "@ + e@,
            RsrqError::GeneralError(e) => "General error: "@ + e@,
        }
    }

    /// The line that describes the failure to a user.
    pub fn to_string(&self) -> (r: String)
        ensures
            r@ == self.display(),
    {
        match self {
            RsrqError::RedisConnError(e) => concat("Redis connection error: ", e.as_str()),
            RsrqError::RedisOpError(e) => concat("Redis operation error: ", e.as_str()),
            RsrqError::CmdParserError(e) => concat("Command parser error: ", e.as_str()),
            RsrqError::EnvError(e) => concat("Environment variable error: ", e.as_str()),
            RsrqError::JobNotFound(id) => concat(
                "Job not found: ",
                usize_to_string(*id).as_str(),
            ),
            RsrqError::SystemTimeError(e) => concat("System time error: ", e.as_str()),
            RsrqError::ParserError(e) => concat("Parser error: ", e.as_str()),
            RsrqError::SnakemakeInvalidJobScript(e) => concat(
                "Snakemake invalid job script: ",
                e.as_str(),
            ),
            RsrqError::InvalidJson(e) => concat("Invalid JSON: ", e.as_str()),
            RsrqError::FileNotFound(e) => concat("File not found: ", e.as_str()),
            RsrqError::FileReadError(e) => concat("File read error: ", e.as_str()),
            RsrqError::IOError(e) => concat("IO error: ", e.as_str()),
            RsrqError::GeneralError(e) => concat("General error: ", e.as_str()),
        }
    }
}

} // verus!
