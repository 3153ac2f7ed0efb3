//! The failure that every reading function of the library reports.
use vstd::prelude::*;
use vstd::string::*;

verus! {

/// The one failure kind of the library: a message and nothing else.
#[derive(Debug)]
pub struct ParseError {
    msg: String,
}

impl View for ParseError {
    type V = Seq<char>;

    /// The message.
    closed spec fn view(&self) -> Seq<char> {
        self.msg@
    }
}

impl Clone for ParseError {
    fn clone(&self) -> (e: ParseError)
        ensures
            e@ == self@,
    {
        ParseError { msg: self.msg.clone() }
    }
}

impl ParseError {
    pub fn new(msg: String) -> (e: ParseError)
        ensures
            e@ == msg@,
    {
        ParseError { msg }
    }

    pub fn from_str(s: &str) -> (e: ParseError)
        ensures
            e@ == s@,
    {
        ParseError { msg: String::from_str(s) }
    }

    pub fn msg(&self) -> (m: String)
        ensures
            m@ == self@,
    {
        self.msg.clone()
    }

    /// The failure as it is shown: its message after "ParseError: ".
    pub fn to_string(&self) -> (s: String)
        ensures
            s@ == "ParseError: "@ + self@,
    {
        String::from_str("ParseError: ").concat(self.msg.as_str())
    }
}

} // verus!
