//! The envelope that every operation answers with.

use vstd::prelude::*;
use vstd::string::*;

verus! {

/// The code of an answer that reports success.
pub const SUCCESS: i32 = 0;

/// The code of an answer that reports failure.
pub const FAILURE: i32 = 99999;

/// An answer: a code, a message for the reader, and the payload.
#[derive(Debug)]
pub struct Response<T> {
    pub code: i32,
    pub message: String,
    pub data: T,
}

impl<T: Clone> Clone for Response<T> {
    fn clone(&self) -> (r: Self)
        ensures
            r.code == self.code,
            r.message@ == self.message@,
            cloned(self.data, r.data),
    {
        Response { code: self.code, message: self.message.clone(), data: self.data.clone() }
    }
}

impl<T> Response<T> {
    /// An answer with the given code, message and payload.
    pub fn new(code: i32, message: &str, data: T) -> (r: Response<T>)
        ensures
            r.code == code,
            r.message@ == message@,
            r.data == data,
    {
        Response { code, message: String::from_str(message), data }
    }

    /// An answer that reports success.
    pub fn ok(message: &str, data: T) -> (r: Self)
        ensures
            r.code == SUCCESS,
            r.message@ == message@,
            r.data == data,
    {
        Self::new(SUCCESS, message, data)
    }

    /// An answer that reports failure.
    pub fn fail(message: &str, data: T) -> (r: Self)
        ensures
            r.code == FAILURE,
            r.message@ == message@,
            r.data == data,
    {
        Self::new(FAILURE, message, data)
    }

    /// Whether the answer reports success.
    pub fn succeeded(&self) -> (r: bool)
        ensures
            r == (self.code == SUCCESS),
    {
        self.code == SUCCESS
    }
}

} // verus!
