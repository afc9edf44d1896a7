use vstd::prelude::*;

verus! {

/// An error that only carries a human-readable message.
#[derive(Debug)]
pub struct OpaqueError {
    msg: String,
}

impl View for OpaqueError {
    type V = Seq<char>;

    closed spec fn view(&self) -> Seq<char> {
        self.msg@
    }
}

impl OpaqueError {
    pub fn new(msg: String) -> (e: OpaqueError)
        ensures
            e@ == msg@,
    {
        OpaqueError { msg }
    }

    /// The message, as shown to the user.
    pub fn message(&self) -> (r: String)
        ensures
            r@ == self@,
    {
        self.msg.clone()
    }
}

pub type OResult<T> = Result<T, OpaqueError>;

} // verus!
