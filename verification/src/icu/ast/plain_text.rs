//! Literal text.

use vstd::prelude::*;

use crate::args::Args;
use crate::context::Context;
use crate::model::FormatError;

verus! {

/// A run of literal text, copied verbatim to the output.
#[derive(Debug)]
pub struct PlainText {
    /// The literal text.
    pub text: String,
}

impl PlainText {
    /// Construct a `PlainText`.
    pub fn new(text: &str) -> (p: PlainText)
        ensures
            p.text@ == text@,
    {
        PlainText { text: text.to_owned() }
    }

    /// Copy the literal text verbatim to the stream.  Cannot fail.
    pub fn apply_format<A: Args>(&self, _ctx: &Context, stream: &mut String, _args: &A) -> (r:
        Result<(), FormatError>)
        ensures
            final(stream)@ == old(stream)@ + self.text@,
            r is Ok,
    {
        stream.append(self.text.as_str());
        Ok(())
    }
}

} // verus!
