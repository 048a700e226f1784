//! Unwrapping with a diagnostic: what has no value is turned into the text
//! to report, and handed up to whoever ends the run.

use vstd::prelude::*;
use vstd::string::*;

verus! {

/// Unwrapping that yields a diagnostic text where there is no value.
pub trait UnwrapExt<T>: Sized {
    /// The value, or else the text to report under the heading `msg`.
    spec fn unwrapped(self, msg: Seq<char>) -> Result<T, Seq<char>>;

    /// Unwraps the value, or gives the text to report under the heading
    /// `msg`.
    fn unwrap_or_error(self, msg: &str) -> (outcome: Result<T, String>)
        ensures
            match outcome {
                Ok(value) => self.unwrapped(msg@) == Ok::<T, Seq<char>>(value),
                Err(text) => self.unwrapped(msg@) == Err::<T, Seq<char>>(text@),
            },
    ;
}

/// A missing value is reported by the heading alone.
impl<T> UnwrapExt<T> for Option<T> {
    open spec fn unwrapped(self, msg: Seq<char>) -> Result<T, Seq<char>> {
        match self {
            Some(value) => Ok(value),
            None => Err(msg),
        }
    }

    fn unwrap_or_error(self, msg: &str) -> (outcome: Result<T, String>) {
        match self {
            Some(value) => Ok(value),
            None => Err(String::from_str(msg)),
        }
    }
}

/// An error is reported by the heading, a colon and the error's own text.
impl<T> UnwrapExt<T> for Result<T, String> {
    open spec fn unwrapped(self, msg: Seq<char>) -> Result<T, Seq<char>> {
        match self {
            Ok(value) => Ok(value),
            Err(reason) => Err(msg + ": "@ + reason@),
        }
    }

    fn unwrap_or_error(self, msg: &str) -> (outcome: Result<T, String>) {
        match self {
            Ok(value) => Ok(value),
            Err(reason) => {
                let mut text = String::from_str(msg);
                text.append(": ");
                text.append(reason.as_str());
                Err(text)
            },
        }
    }
}

} // verus!
