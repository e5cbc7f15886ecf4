//! The one kind of failure that the interpreter reports.

use vstd::prelude::*;
use vstd::std_specs::convert::{FromSpec, FromSpecImpl};
use vstd::string::*;

verus! {

/// A failure of the reader, the syntax builder or the evaluator. Every
/// failure is the same flat kind: a message for a human reader.
#[derive(Debug)]
pub struct Error(pub(crate) String);

impl View for Error {
    type V = Seq<char>;

    /// The message.
    open(crate) spec fn view(&self) -> Seq<char> {
        self.0@
    }
}

impl Error {
    /// An error that carries `message`.
    pub fn new(message: &str) -> (e: Error)
        ensures
            e@ == message@,
    {
        Error(String::from_str(message))
    }

    /// The message of this error.
    pub fn message(&self) -> (s: &str)
        ensures
            s@ == self@,
    {
        self.0.as_str()
    }

    /// The message of this error, as an owned string.
    pub fn to_string(&self) -> (s: String)
        ensures
            s@ == self@,
    {
        self.0.clone()
    }
}

impl From<String> for Error {
    fn from(msg: String) -> (e: Error) {
        Error(msg)
    }
}

impl FromSpecImpl<String> for Error {
    open spec fn obeys_from_spec() -> bool {
        true
    }

    open(crate) spec fn from_spec(msg: String) -> Error {
        Error(msg)
    }
}

/// The error made from an owned string carries that string as its message.
pub proof fn from_string_message(msg: String)
    ensures
        (<Error as FromSpec<String>>::from_spec(msg))@ == msg@,
{
}

} // verus!
