//! Resolution of one file reference: interpret the bytes the read produced as
//! UTF-8 text, or turn the failure into a decode error that names the path.

use vstd::prelude::*;
use vstd::utf8::{decode_utf8, valid_utf8};

use crate::observe::{event_of, Observer, ReadOutcome, ReadOutcomeView};

verus! {

/// The message String::from_utf8 gives for a byte sequence that is not valid
/// UTF-8. It depends on the bytes alone.
pub uninterp spec fn utf8_failure_message(bytes: Seq<u8>) -> Seq<char>;

/// Relies on String::from_utf8: it returns Ok exactly when the bytes are a
/// valid UTF-8 encoding, and then the string they encode; the error's
/// rendering depends on the bytes alone.
#[verifier::external_body]
fn utf8_to_string(bytes: Vec<u8>) -> (r: Result<String, String>)
    ensures
        r is Ok <==> valid_utf8(bytes@),
        r matches Ok(s) ==> s@ == decode_utf8(bytes@),
        r matches Err(m) ==> m@ == utf8_failure_message(bytes@),
{
    String::from_utf8(bytes).map_err(|e| e.to_string())
}

/// Why resolving a file reference failed.
#[derive(Debug, PartialEq)]
pub enum ExpandError {
    /// The file could not be read; `message` renders the underlying failure.
    Read { path: String, message: String },
    /// The file was read, but its contents are not valid UTF-8 text.
    Parse { path: String, message: String },
}

/// The mathematical value of an expansion error.
pub ghost enum ExpandErrorView {
    Read { path: Seq<char>, message: Seq<char> },
    Parse { path: Seq<char>, message: Seq<char> },
}

impl View for ExpandError {
    type V = ExpandErrorView;

    open spec fn view(&self) -> ExpandErrorView {
        match self {
            ExpandError::Read { path, message } => ExpandErrorView::Read {
                path: path@,
                message: message@,
            },
            ExpandError::Parse { path, message } => ExpandErrorView::Parse {
                path: path@,
                message: message@,
            },
        }
    }
}

impl ExpandError {
    /// The path of the reference whose resolution failed.
    pub fn path(&self) -> (r: &String)
        ensures
            match self@ {
                ExpandErrorView::Read { path, .. } => r@ == path,
                ExpandErrorView::Parse { path, .. } => r@ == path,
            },
    {
        match self {
            ExpandError::Read { path, .. } => path,
            ExpandError::Parse { path, .. } => path,
        }
    }

    /// A description of the failure, naming the path and the cause.
    pub fn describe(&self) -> (r: String)
        ensures
            r@ == self@.describe(),
    {
        match self {
            ExpandError::Read { path, message } => String::from_str("error reading file ")
                .concat(path.as_str())
                .concat(": ")
                .concat(message.as_str()),
            ExpandError::Parse { path, message } => String::from_str("error parsing file ")
                .concat(path.as_str())
                .concat(": ")
                .concat(message.as_str()),
        }
    }
}

impl ExpandErrorView {
    /// The description `ExpandError::describe` returns.
    pub open spec fn describe(self) -> Seq<char> {
        match self {
            ExpandErrorView::Read { path, message } => "error reading file "@ + path + ": "@
                + message,
            ExpandErrorView::Parse { path, message } => "error parsing file "@ + path + ": "@
                + message,
        }
    }
}

/// What resolving one read outcome yields: the referenced text, or the error
/// that aborts the decode.
pub open spec fn spec_resolve(path: Seq<char>, outcome: ReadOutcomeView) -> Result<
    Seq<char>,
    ExpandErrorView,
> {
    match outcome {
        ReadOutcomeView::Data(bytes) => if valid_utf8(bytes) {
            Ok(decode_utf8(bytes))
        } else {
            Err(ExpandErrorView::Parse { path, message: utf8_failure_message(bytes) })
        },
        ReadOutcomeView::Failure(message) => Err(ExpandErrorView::Read { path, message }),
    }
}

/// Resolves the outcome of reading a referenced file: the file's contents as
/// text on success, an error naming the path otherwise.
pub fn resolve_read(path: &str, outcome: ReadOutcome) -> (r: Result<String, ExpandError>)
    ensures
        match r {
            Ok(s) => spec_resolve(path@, outcome@) == Ok::<Seq<char>, ExpandErrorView>(s@),
            Err(e) => spec_resolve(path@, outcome@) == Err::<Seq<char>, ExpandErrorView>(e@),
        },
{
    match outcome {
        ReadOutcome::Data(bytes) => match utf8_to_string(bytes) {
            Ok(s) => Ok(s),
            Err(message) => Err(
                ExpandError::Parse { path: String::from_str(path), message },
            ),
        },
        ReadOutcome::Failure(message) => Err(
            ExpandError::Read { path: String::from_str(path), message },
        ),
    }
}

/// Resolves one read outcome as `resolve_read` does, after reporting it to
/// the observer: the observer hears of the read exactly once, whatever the
/// resolution yields.
pub fn finish_expand<O: Observer>(observer: &mut O, path: &str, outcome: ReadOutcome) -> (r:
    Result<String, ExpandError>)
    ensures
        final (observer).log() == old(observer).log().push(event_of(path@, outcome@)),
        match r {
            Ok(s) => spec_resolve(path@, outcome@) == Ok::<Seq<char>, ExpandErrorView>(s@),
            Err(e) => spec_resolve(path@, outcome@) == Err::<Seq<char>, ExpandErrorView>(e@),
        },
{
    observer.notify(path, &outcome);
    resolve_read(path, outcome)
}

} // verus!
