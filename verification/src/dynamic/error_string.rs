//! An error message put together piece by piece.

use vstd::prelude::*;
use vstd::std_specs::convert::FromSpecImpl;
use crate::dynamic::Error;

verus! {

/// A message under construction. Its view is the text pasted so far.
pub struct ErrorString {
    s: String,
}

impl View for ErrorString {
    type V = Seq<char>;

    closed spec fn view(&self) -> Seq<char> {
        self.s@
    }
}

impl ErrorString {
    /// An empty message.
    pub fn new() -> (out: Self)
        ensures
            out@ == Seq::<char>::empty(),
    {
        Self { s: String::new() }
    }

    /// `p`, short for paste: the message with `ss` added at its end.
    pub fn p(self, ss: &str) -> (out: Self)
        ensures
            out@ == self@ + ss@,
    {
        let mut s = self.s;
        s.append(ss);
        Self { s }
    }

    /// Wrap the message in a `Result::Err`.
    pub fn err<T>(self) -> (r: Result<T, Error>)
        ensures
            r matches Err(Error::GeneralBuf(s)) && s@ == self@,
    {
        Error::GeneralBuf(self.s).err()
    }
}

impl Default for ErrorString {
    fn default() -> (out: Self)
        ensures
            out@ == Seq::<char>::empty(),
    {
        Self { s: String::new() }
    }
}

impl From<String> for ErrorString {
    /// A message that starts out as `s`.
    fn from(s: String) -> (out: Self)
        ensures
            out@ == s@,
    {
        Self { s }
    }
}

impl FromSpecImpl<String> for ErrorString {
    open spec fn obeys_from_spec() -> bool {
        true
    }

    closed spec fn from_spec(s: String) -> Self {
        Self { s }
    }
}

impl<'a> From<&'a str> for ErrorString {
    /// A message that starts out as `ss`.
    fn from(ss: &'a str) -> (out: Self)
        ensures
            out@ == ss@,
    {
        Self { s: ss.to_owned() }
    }
}

impl<'a> FromSpecImpl<&'a str> for ErrorString {
    open spec fn obeys_from_spec() -> bool {
        false
    }

    closed spec fn from_spec(ss: &'a str) -> Self {
        choose|e: ErrorString| e@ == ss@
    }
}

impl From<ErrorString> for String {
    /// The text of the message.
    fn from(e: ErrorString) -> (out: String)
        ensures
            out@ == e@,
    {
        e.s
    }
}

impl FromSpecImpl<ErrorString> for String {
    open spec fn obeys_from_spec() -> bool {
        true
    }

    closed spec fn from_spec(e: ErrorString) -> String {
        e.s
    }
}

impl From<ErrorString> for Error {
    /// The message as an error.
    fn from(e: ErrorString) -> (out: Error)
        ensures
            out matches Error::GeneralBuf(s) && s@ == e@,
    {
        Error::GeneralBuf(e.s)
    }
}

impl FromSpecImpl<ErrorString> for Error {
    open spec fn obeys_from_spec() -> bool {
        true
    }

    closed spec fn from_spec(e: ErrorString) -> Error {
        Error::GeneralBuf(e.s)
    }
}

} // verus!
