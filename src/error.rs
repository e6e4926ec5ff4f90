//! The failures that reading a repository can end in.

use vstd::prelude::*;
use vstd::string::StringExecFns;

verus! {

/// A repository could not be read: an I/O error, a corrupt object or the like. What was
/// being done is in `context`, what went wrong in `cause`.
#[derive(Clone, Debug)]
pub struct Error {
    pub context: String,
    pub cause: String,
}

/// Whether the context of `e` ends with `subject`: the ref or path that was being read.
pub open spec fn names(e: Error, subject: Seq<char>) -> bool {
    let c = e.context@;
    subject.len() <= c.len() && c.subrange(c.len() - subject.len(), c.len() as int) == subject
}

impl Error {
    /// A failure while doing `action` for `subject`.
    pub fn new(action: &str, subject: &str, cause: String) -> (r: Error)
        ensures
            r.context@ == action@ + " "@ + subject@,
            r.cause == cause,
            names(r, subject@),
    {
        let r = Error { context: String::from_str(action).concat(" ").concat(subject), cause };
        let ghost c = r.context@;
        assert(c.subrange(c.len() - subject@.len(), c.len() as int) =~= subject@);
        r
    }

    /// The context and the cause on one line.
    pub fn message(&self) -> (r: String)
        ensures
            r@ == self.context@ + ": "@ + self.cause@,
    {
        self.context.clone().concat(": ").concat(self.cause.as_str())
    }
}

} // verus!
