//! The `#` placeholder.

use vstd::prelude::*;

use crate::args::Args;
use crate::context::Context;
use crate::decimal::append_i64;
use crate::decimal::int_digits;
use crate::model::FormatError;

verus! {

/// Marker node substituting the numeric value currently carried by the
/// context, set by an enclosing plural branch.
#[derive(Debug)]
pub struct PlaceholderFormat;

impl PlaceholderFormat {
    /// Construct a `PlaceholderFormat`.
    pub fn new() -> PlaceholderFormat {
        PlaceholderFormat
    }

    /// Write the numeric value carried by the context; fail when no
    /// enclosing plural branch set one.
    pub fn apply_format<A: Args>(&self, ctx: &Context, stream: &mut String, _args: &A) -> (r:
        Result<(), FormatError>)
        ensures
            final(stream)@ == old(stream)@ + (match ctx.plural_view() {
                Some(n) => int_digits(n),
                None => Seq::<char>::empty(),
            }),
            (match r {
                Ok(_) => ctx.plural_view() is Some,
                Err(e) => ctx.plural_view() is None && e == FormatError::MissingPluralValue,
            }),
    {
        match ctx.plural_value {
            Some(n) => {
                append_i64(stream, n);
                Ok(())
            },
            None => {
                proof {
                    assert(stream@ =~= old(stream)@ + Seq::<char>::empty());
                }
                Err(FormatError::MissingPluralValue)
            },
        }
    }
}

} // verus!
