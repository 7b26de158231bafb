use vstd::prelude::*;

verus! {

/// A failure of one pipeline stage, carrying a readable description.
#[derive(Debug)]
pub struct Error {
    pub description: String,
}

impl Error {
    pub fn new(s: &str) -> (r: Self)
        ensures
            r.description@ == s@,
    {
        Error { description: String::from_str(s) }
    }

    /// The description as it is shown to a user.
    pub fn message(&self) -> (r: String)
        ensures
            r@ == "Syntax error: "@ + self.description@,
    {
        String::from_str("Syntax error: ").concat(self.description.as_str())
    }
}

} // verus!
