//! The run as a whole: two files are sought, the first is shown, the second
//! is sent. The run proceeds by stages. Each stage names what its
//! surroundings are to do next; what came of it is handed back as an event,
//! and decides the stage that follows.
use crate::error::CustomError;
use crate::text::decode;
use vstd::prelude::*;
use vstd::utf8::{decode_utf8, valid_utf8};

verus! {

/// Where the searches start.
pub const ROOT_DIR: &'static str = "/";

/// The name of the file that is shown.
pub const SPECIAL_FILE: &'static str = "special_file.txt";

/// The name of the file that is sent.
pub const SECRET_FILE: &'static str = "secret_file.txt";

/// What stands above the text of the file that is shown.
pub const SHOW_HEADER: &'static str = "Contents of special_file.txt:\n";

/// The line that reports a request that went through.
pub const SENT_LINE: &'static str = "Data sent to remote server successfully";

/// What stands before the failure in the line that reports a request that
/// did not go through.
pub const SEND_FAILED: &'static str = "Error sending data to remote server: ";

/// A stage of the run: what is to be done next, and what the stages after
/// it will need.
#[derive(Debug, PartialEq, Eq)]
pub enum Stage<P> {
    /// Search from `ROOT_DIR` for `SPECIAL_FILE`; answered by `Located`.
    SeekSpecial,
    /// Search from `ROOT_DIR` for `SECRET_FILE`; answered by `Located`.
    SeekSecret { special: P },
    /// Read the file at `special` in full; answered by `Read`.
    ReadSpecial { special: P, secret: P },
    /// Write `text` as a line to standard output; answered by `Written`.
    Show { text: String, secret: P },
    /// Read the file at `secret` in full; answered by `Read`.
    ReadSecret { secret: P },
    /// Hand `payload` to the transmitter; answered by `Sent`.
    Send { payload: Vec<u8> },
    /// Write `line` to standard error where `failed`, to standard output
    /// where not; answered by `Written`.
    Report { line: String, failed: bool },
    /// Leave, with success or with the failure that ended the run.
    Done { result: Result<(), CustomError> },
}

/// What came of the work that a stage named.
#[derive(Debug, PartialEq, Eq)]
pub enum Event<P> {
    /// A search ended: with the path of the file, or without one.
    Located(Option<P>),
    /// A file was read: its bytes, or the description of what failed.
    Read(Result<Vec<u8>, String>),
    /// The text was written.
    Written,
    /// The transmitter is done: with success, or with its failure.
    Sent(Result<(), CustomError>),
}

/// The line that reports the failure `e` of the transmission: what the
/// failure is about, after `SEND_FAILED`.
pub open spec fn failure_line(e: CustomError) -> Seq<char> {
    SEND_FAILED@ + e.about()
}

/// The stage that follows `stage` on `event`.
///
/// A file that is not found, a file that cannot be read, and a first file
/// that is no text end the run with that failure. The second file is
/// handed to the transmitter as it was read. Whatever comes of the sending
/// is reported, and the run then ends with success. An event that does not
/// answer the stage leaves the stage as it is.
pub open spec fn follows<P>(stage: Stage<P>, event: Event<P>, next: Stage<P>) -> bool {
    match (stage, event) {
        (Stage::SeekSpecial, Event::Located(Some(special))) => {
            next == Stage::SeekSecret { special }
        },
        (Stage::SeekSpecial, Event::Located(None)) => {
            &&& next matches Stage::Done { result: Err(CustomError::FileNotFound(name)) }
            &&& name@ == SPECIAL_FILE@
        },
        (Stage::SeekSecret { special }, Event::Located(Some(secret))) => {
            next == Stage::ReadSpecial { special, secret }
        },
        (Stage::SeekSecret { .. }, Event::Located(None)) => {
            &&& next matches Stage::Done { result: Err(CustomError::FileNotFound(name)) }
            &&& name@ == SECRET_FILE@
        },
        (Stage::ReadSpecial { secret, .. }, Event::Read(Ok(bytes))) => {
            if valid_utf8(bytes@) {
                &&& next matches Stage::Show { text, secret: kept }
                &&& kept == secret
                &&& text@ == SHOW_HEADER@ + decode_utf8(bytes@)
            } else {
                &&& next matches Stage::Done { result: Err(e) }
                &&& e is DecodeError
            }
        },
        (Stage::ReadSpecial { .. }, Event::Read(Err(detail))) => {
            next == Stage::Done::<P> { result: Err(CustomError::IoError(detail)) }
        },
        (Stage::Show { secret, .. }, Event::Written) => {
            next == Stage::ReadSecret { secret }
        },
        (Stage::ReadSecret { .. }, Event::Read(Ok(bytes))) => {
            next == Stage::Send::<P> { payload: bytes }
        },
        (Stage::ReadSecret { .. }, Event::Read(Err(detail))) => {
            next == Stage::Done::<P> { result: Err(CustomError::IoError(detail)) }
        },
        (Stage::Send { .. }, Event::Sent(Ok(_))) => {
            &&& next matches Stage::Report { line, failed }
            &&& !failed
            &&& line@ == SENT_LINE@
        },
        (Stage::Send { .. }, Event::Sent(Err(e))) => {
            &&& next matches Stage::Report { line, failed }
            &&& failed
            &&& line@ == failure_line(e)
        },
        (Stage::Report { .. }, Event::Written) => {
            next == Stage::Done::<P> { result: Ok(()) }
        },
        _ => next == stage,
    }
}

/// The stage with which every run begins.
pub fn start<P>() -> (stage: Stage<P>)
    ensures
        stage == Stage::<P>::SeekSpecial,
{
    Stage::SeekSpecial
}

/// Goes from `stage` to the stage that follows it on `event`.
pub fn advance<P>(stage: Stage<P>, event: Event<P>) -> (next: Stage<P>)
    ensures
        follows(stage, event, next),
{
    match stage {
        Stage::SeekSpecial => match event {
            Event::Located(Some(special)) => Stage::SeekSecret { special },
            Event::Located(None) => Stage::Done {
                result: Err(CustomError::FileNotFound(String::from_str(SPECIAL_FILE))),
            },
            _ => Stage::SeekSpecial,
        },
        Stage::SeekSecret { special } => match event {
            Event::Located(Some(secret)) => Stage::ReadSpecial { special, secret },
            Event::Located(None) => Stage::Done {
                result: Err(CustomError::FileNotFound(String::from_str(SECRET_FILE))),
            },
            _ => Stage::SeekSecret { special },
        },
        Stage::ReadSpecial { special, secret } => match event {
            Event::Read(Ok(bytes)) => match decode(bytes.as_slice()) {
                Ok(contents) => Stage::Show {
                    text: String::from_str(SHOW_HEADER).concat(contents.as_str()),
                    secret,
                },
                Err(e) => Stage::Done { result: Err(e) },
            },
            Event::Read(Err(detail)) => Stage::Done { result: Err(CustomError::IoError(detail)) },
            _ => Stage::ReadSpecial { special, secret },
        },
        Stage::Show { text, secret } => match event {
            Event::Written => Stage::ReadSecret { secret },
            _ => Stage::Show { text, secret },
        },
        Stage::ReadSecret { secret } => match event {
            Event::Read(Ok(payload)) => Stage::Send { payload },
            Event::Read(Err(detail)) => Stage::Done { result: Err(CustomError::IoError(detail)) },
            _ => Stage::ReadSecret { secret },
        },
        Stage::Send { payload } => match event {
            Event::Sent(Ok(_)) => Stage::Report {
                line: String::from_str(SENT_LINE),
                failed: false,
            },
            Event::Sent(Err(e)) => Stage::Report {
                line: String::from_str(SEND_FAILED).concat(e.detail()),
                failed: true,
            },
            _ => Stage::Send { payload },
        },
        Stage::Report { line, failed } => match event {
            Event::Written => Stage::Done { result: Ok(()) },
            _ => Stage::Report { line, failed },
        },
        Stage::Done { result } => Stage::Done { result },
    }
}

} // verus!
