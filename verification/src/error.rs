//! Typed parse failures. Every failure the compiler can raise carries a
//! kind from a closed taxonomy plus a human-readable message holding a
//! bounded snippet of the source near the fault.
use vstd::prelude::*;

verus! {

use vstd::string::StrSliceExecFns;
use vstd::string::StringExecFns;
use crate::expression::Expression;

/// The closed taxonomy of parse failures.
#[derive(Debug, Clone, Copy, PartialEq, Eq, Structural)]
pub enum ErrorKind {
    UnterminatedMarker,
    EmptyBlockContent,
    UnknownHelper,
    MissingRequiredArgument,
    ArityMismatch,
    UnresolvableScopeReference,
    MismatchedBlockClose,
    ElseNotAllowedHere,
    UnboundPrivateVariable,
}

/// A parse failure: its kind and a diagnostic message.
#[derive(Debug)]
pub struct ParseError {
    pub kind: ErrorKind,
    pub message: String,
}

/// A result mirrors its model when the payload's view or the error's kind
/// agrees with the model exactly.
pub open spec fn res_matches<T: View>(r: Result<T, ParseError>, s: Result<T::V, ErrorKind>) -> bool {
    match r {
        Ok(v) => s == Ok::<T::V, ErrorKind>(v@),
        Err(e) => s == Err::<T::V, ErrorKind>(e.kind),
    }
}

/// As `res_matches`, for results whose payload is optional.
pub open spec fn res_opt_matches<T: View>(
    r: Result<Option<T>, ParseError>,
    s: Result<Option<T::V>, ErrorKind>,
) -> bool {
    match r {
        Ok(Some(v)) => s == Ok::<Option<T::V>, ErrorKind>(Some(v@)),
        Ok(None) => s == Ok::<Option<T::V>, ErrorKind>(None),
        Err(e) => s == Err::<Option<T::V>, ErrorKind>(e.kind),
    }
}

/// The last thirty-two characters of a snippet, so that diagnostics
/// stay bounded however long the remaining input is.
pub open spec fn spec_rcap(s: Seq<char>) -> Seq<char> {
    if s.len() > 32 {
        s.subrange(s.len() - 32, s.len() as int)
    } else {
        s
    }
}

pub fn rcap<'a>(src: &'a str) -> (r: &'a str)
    ensures
        r@ == spec_rcap(src@),
{
    let n = src.unicode_len();
    if n > 32 {
        src.substring_char(n - 32, n)
    } else {
        src
    }
}

impl ParseError {
    /// A failure at a recognized marker, quoting the text around it.
    pub fn new(kind: ErrorKind, message: &str, expression: &Expression<'_>) -> (e: Self)
        ensures
            e.kind == kind,
    {
        let mut m = String::new();
        m.append(message);
        m.append(" near \"");
        m.append(expression.around());
        m.append("\"");
        ParseError { kind, message: m }
    }

    /// A marker or block that never ends before the input does.
    pub fn unclosed(preffix: &str) -> (e: Self)
        ensures
            e.kind == ErrorKind::UnterminatedMarker,
    {
        let mut m = String::new();
        m.append("unclosed block near ");
        m.append(rcap(preffix));
        ParseError { kind: ErrorKind::UnterminatedMarker, message: m }
    }
}

} // verus!
