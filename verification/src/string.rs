//! Unescaping of string literal bodies.
//!
//! The body of a string literal (the text between its quotes) may contain
//! escape sequences introduced by a backslash. Unescaping turns the raw
//! bytes into the bytes of the value, and fails on a malformed escape or on
//! a bare control character, pointing at the exact offending substring.

use vstd::prelude::*;
use crate::error::Error;
use crate::source::Span;

verus! {

/// Why unescaping failed.
#[derive(Clone, Copy, Debug, PartialEq, Eq, Structural)]
pub enum EscapeError {
    /// A backslash followed by a byte that opens no escape sequence.
    BadEscape,
    /// A backslash at the very end of the literal body.
    TruncatedEscape,
    /// A control character that stands unescaped in the literal body.
    BareControl,
}

/// The outcome of unescaping a raw literal body: the unescaped bytes, or the
/// first failure, located by its byte offset and length within the body.
pub enum Unescaped {
    Done(Seq<u8>),
    Fail { at: int, len: int, kind: EscapeError },
}

/// The replacement byte of a single-character escape sequence, if `b` is one
/// of the supported escape characters.
pub open spec fn escape_value(b: u8) -> Option<u8> {
    if b == 34 {  // \"
        Some(34)
    } else if b == 92 {  // \\
        Some(92)
    } else if b == 47 {  // \/
        Some(47)
    } else if b == 110 {  // \n
        Some(10)
    } else if b == 114 {  // \r
        Some(13)
    } else if b == 116 {  // \t
        Some(9)
    } else {
        None
    }
}

/// The message that each failure reports.
pub open spec fn escape_error_message(kind: EscapeError) -> Seq<char> {
    match kind {
        EscapeError::BadEscape => "Invalid escape sequence."@,
        EscapeError::TruncatedEscape => "Unexpected end of string after escape character."@,
        EscapeError::BareControl => "Control characters must be escaped."@,
    }
}

/// What unescaping a raw literal body yields: processed byte by byte from
/// the front, the first failure wins.
pub open spec fn spec_unescape(s: Seq<u8>) -> Unescaped
    decreases s.len(),
{
    if s.len() == 0 {
        Unescaped::Done(Seq::empty())
    } else if s[0] == 92 {
        if s.len() == 1 {
            Unescaped::Fail { at: 0, len: 1, kind: EscapeError::TruncatedEscape }
        } else {
            match escape_value(s[1]) {
                Some(c) => match spec_unescape(s.skip(2)) {
                    Unescaped::Done(t) => Unescaped::Done(seq![c] + t),
                    Unescaped::Fail { at, len, kind } => Unescaped::Fail {
                        at: at + 2,
                        len,
                        kind,
                    },
                },
                None => Unescaped::Fail { at: 0, len: 2, kind: EscapeError::BadEscape },
            }
        }
    } else if s[0] < 32 {
        Unescaped::Fail { at: 0, len: 1, kind: EscapeError::BareControl }
    } else {
        match spec_unescape(s.skip(1)) {
            Unescaped::Done(t) => Unescaped::Done(seq![s[0]] + t),
            Unescaped::Fail { at, len, kind } => Unescaped::Fail { at: at + 1, len, kind },
        }
    }
}

/// `spec_unescape` of the whole body, rephrased over an already-processed
/// clean prefix: the unescaped bytes gain the prefix, a failure offset moves
/// by the prefix's raw length.
pub open spec fn unescape_prepend(prefix: Seq<u8>, shift: int, u: Unescaped) -> Unescaped {
    match u {
        Unescaped::Done(t) => Unescaped::Done(prefix + t),
        Unescaped::Fail { at, len, kind } => Unescaped::Fail { at: at + shift, len, kind },
    }
}

/// The exec mirror of `escape_value`.
fn escape_replacement(b: u8) -> (r: Option<u8>)
    ensures
        r == escape_value(b),
{
    if b == 34 {
        Some(34)
    } else if b == 92 {
        Some(92)
    } else if b == 47 {
        Some(47)
    } else if b == 110 {
        Some(10)
    } else if b == 114 {
        Some(13)
    } else if b == 116 {
        Some(9)
    } else {
        None
    }
}

/// Convert the raw text of a string span into its unescaped bytes, or fail
/// on the first malformed escape with the exact offending span.
#[verifier::loop_isolation(false)]
pub fn unescape(input: &[u8], span: Span) -> (r: Result<Vec<u8>, Error>)
    requires
        span.valid(input@.len()),
    ensures
        r is Ok <==> spec_unescape(span.text(input@)) is Done,
        r matches Ok(v) ==> spec_unescape(span.text(input@)) == Unescaped::Done(v@),
        r matches Err(e) ==> {
            &&& spec_unescape(span.text(input@)) matches Unescaped::Fail { at, len, kind }
            &&& e.span == Some(
                Span {
                    start: (span.start + at) as usize,
                    end: (span.start + at + len) as usize,
                },
            )
            &&& e.message@ == escape_error_message(kind)
        },
{
    let ghost raw = span.text(input@);
    let n: usize = span.end - span.start;
    let mut out: Vec<u8> = Vec::new();
    let mut i: usize = 0;
    proof {
        assert(raw.skip(0) =~= raw);
        match spec_unescape(raw) {
            Unescaped::Done(t) => {
                assert(Seq::<u8>::empty() + t =~= t);
            },
            Unescaped::Fail { .. } => {},
        }
    }
    while i < n
        invariant
            0 <= i <= n,
            spec_unescape(raw) == unescape_prepend(out@, i as int, spec_unescape(raw.skip(i as int))),
        decreases n - i,
    {
        let ghost rest = raw.skip(i as int);
        let b = input[span.start + i];
        proof {
            assert(rest[0] == b);
        }
        if b == 92 {
            if i + 1 >= n {
                proof {
                    assert(rest.len() == 1);
                }
                let sp = Span { start: span.start + i, end: span.start + i + 1 };
                return Err(
                    Error::with_span("Unexpected end of string after escape character.", sp),
                );
            }
            let b2 = input[span.start + i + 1];
            proof {
                assert(rest[1] == b2);
            }
            match escape_replacement(b2) {
                Some(c) => {
                    let ghost old_out = out@;
                    out.push(c);
                    proof {
                        assert(rest.skip(2) =~= raw.skip(i + 2));
                        match spec_unescape(raw.skip(i + 2)) {
                            Unescaped::Done(t) => {
                                assert(out@ + t =~= old_out + (seq![c] + t));
                            },
                            Unescaped::Fail { .. } => {},
                        }
                    }
                    i += 2;
                },
                None => {
                    let sp = Span { start: span.start + i, end: span.start + i + 2 };
                    return Err(Error::with_span("Invalid escape sequence.", sp));
                },
            }
        } else if b < 32 {
            let sp = Span { start: span.start + i, end: span.start + i + 1 };
            return Err(Error::with_span("Control characters must be escaped.", sp));
        } else {
            let ghost old_out = out@;
            out.push(b);
            proof {
                assert(rest.skip(1) =~= raw.skip(i + 1));
                match spec_unescape(raw.skip(i + 1)) {
                    Unescaped::Done(t) => {
                        assert(out@ + t =~= old_out + (seq![b] + t));
                    },
                    Unescaped::Fail { .. } => {},
                }
            }
            i += 1;
        }
    }
    proof {
        assert(raw.skip(i as int) =~= Seq::<u8>::empty());
        assert(out@ + Seq::<u8>::empty() =~= out@);
    }
    Ok(out)
}

} // verus!
