use vstd::prelude::*;

verus! {

/// A plain error value carrying a human-readable message.
///
/// Both failure classes of an attempt (infrastructure and domain) are
/// reported through messages of this shape.
pub struct SimpleError {
    message: String,
}

impl View for SimpleError {
    type V = Seq<char>;

    closed spec fn view(&self) -> Seq<char> {
        self.message@
    }
}

impl SimpleError {
    pub fn new(message: &str) -> (e: Self)
        ensures
            e@ == message@,
    {
        Self { message: message.to_owned() }
    }

    /// The message this error carries.
    pub fn message(&self) -> (m: &String)
        ensures
            m@ == self@,
    {
        &self.message
    }

    /// Gives the message up, consuming the error.
    pub fn into_message(self) -> (m: String)
        ensures
            m@ == self@,
    {
        self.message
    }
}

} // verus!
