use vstd::prelude::*;

verus! {

/// The errors that end a run before any entry is handled.
pub enum Error {
    /// A failure described by a message.
    Generic(String),
    /// An input/output failure, with the system's message.
    IO(String),
    /// The user's request could not be carried out.
    OperationCancelled(String),
}

impl Error {
    /// A generic error with the given message.
    pub fn new(message: String) -> (r: Self)
        ensures
            r matches Error::Generic(m) && m@ == message@,
    {
        Error::Generic(message)
    }

    /// A cancellation with the given message.
    pub fn op_cancelled(message: &str) -> (r: Self)
        ensures
            r matches Error::OperationCancelled(m) && m@ == message@,
    {
        Error::OperationCancelled(String::from_str(message))
    }
}

} // verus!
