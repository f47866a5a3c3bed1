use vstd::prelude::*;

use crate::format::Format;

verus! {

/// How the output destination failed, as the caller saw it. The closing of
/// a pipe's consuming end is kept apart because it ends a run silently.
#[derive(Clone, Copy, PartialEq, Eq, Structural, Debug)]
pub enum IoErrorKind {
    BrokenPipe,
    Other,
}

/// Everything a run can fail with. The first two variants arise while the
/// configuration is resolved, before any input is read; the others while
/// documents are transcoded or written out.
#[derive(Debug)]
pub enum Error {
    /// A token that names no supported format; carries the token.
    UnrecognizedFormat(String),
    /// An input-only format was requested as the destination.
    UnsupportedOutputFormat(Format),
    /// The input bytes break the input format's grammar; carries the
    /// parser's message.
    MalformedInput(String),
    /// The destination format cannot represent a value of the document;
    /// carries the serializer's message.
    UnsupportedValue(String),
    /// The output destination stopped accepting bytes.
    IOFailure(IoErrorKind),
}

impl Error {
    /// An error of the transcoding stage, as opposed to one caught while the
    /// configuration was resolved.
    pub open spec fn from_transcoding(self) -> bool {
        self matches Error::MalformedInput(_) || self matches Error::UnsupportedValue(_)
            || self matches Error::IOFailure(_)
    }
}

/// Whether `err` says that the consuming end of the output closed early.
pub fn is_broken_pipe(err: &Error) -> (r: bool)
    ensures
        r == (*err == Error::IOFailure(IoErrorKind::BrokenPipe)),
{
    matches!(err, Error::IOFailure(IoErrorKind::BrokenPipe))
}

/// What a finished run should report: nothing when it succeeded, and also
/// nothing when the consuming end of a pipe closed early — that case ends
/// the run with success semantics. Every other error is surfaced unchanged.
pub fn surfaced_error(outcome: Result<(), Error>) -> (r: Option<Error>)
    ensures
        match outcome {
            Ok(_) => r is None,
            Err(e) => if e == Error::IOFailure(IoErrorKind::BrokenPipe) {
                r is None
            } else {
                r == Some(e)
            },
        },
{
    match outcome {
        Ok(()) => None,
        Err(e) => if is_broken_pipe(&e) {
            None
        } else {
            Some(e)
        },
    }
}

} // verus!
