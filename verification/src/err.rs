//! Plain error values carrying a message for the user.

use vstd::prelude::*;

verus! {

/// A runtime failure described by one sentence.
#[derive(Debug)]
pub struct RuntimeError {
    msg: String,
}

impl View for RuntimeError {
    type V = Seq<char>;

    closed spec fn view(&self) -> Seq<char> {
        self.msg@
    }
}

impl RuntimeError {
    /// Wrap a borrowed message.
    pub fn from_str(str: &str) -> (r: RuntimeError)
        ensures
            r@ == str@,
    {
        RuntimeError { msg: String::from_str(str) }
    }

    /// Wrap an owned message.
    pub fn from_string(string: String) -> (r: RuntimeError)
        ensures
            r@ == string@,
    {
        RuntimeError { msg: string }
    }

    /// Wrap a borrowed message, boxed.
    pub fn box_from_str(str: &str) -> (r: Box<RuntimeError>)
        ensures
            r@ == str@,
    {
        Box::new(RuntimeError::from_str(str))
    }

    /// Wrap an owned message, boxed.
    pub fn box_from_string(string: String) -> (r: Box<RuntimeError>)
        ensures
            r@ == string@,
    {
        Box::new(RuntimeError::from_string(string))
    }

    /// The sentence this error carries.
    pub fn message(&self) -> (r: &str)
        ensures
            r@ == self@,
    {
        self.msg.as_str()
    }
}

/// A command-line argument could not be understood.
#[derive(Debug)]
pub struct ArgParseError {
    pub msg: String,
}

/// A worker thread ended abnormally.
#[derive(Debug)]
pub struct ThreadingError {}

impl ThreadingError {
    /// The sentence shown for this error.
    pub fn message(&self) -> (r: String)
        ensures
            r@ == "Threading error"@,
    {
        String::from_str("Threading error")
    }
}

} // verus!
