//! One element of a parsed message tree.

use vstd::prelude::*;

use crate::args::Args;
use crate::context::Context;
use crate::icu::ast::placeholder_format::PlaceholderFormat;
use crate::icu::ast::plain_text::PlainText;
use crate::icu::ast::plural_format::PluralFormat;
use crate::icu::ast::select_format::SelectFormat;
use crate::icu::ast::simple_format::SimpleFormat;
use crate::model::fmt_part;
use crate::model::part_view;
use crate::model::plural_view;
use crate::model::select_view;
use crate::model::size_part;
use crate::model::size_plural;
use crate::model::size_select;
use crate::model::FormatError;

verus! {

/// Part of a message.  May be something that requires formatting a value or
/// just plain text.
///
/// The node kinds form a closed set; formatting dispatches by exhaustive
/// match on the variant.
#[derive(Debug)]
pub enum MessagePart {
    /// Literal text.
    Text(PlainText),
    /// The `#` placeholder.
    Placeholder(PlaceholderFormat),
    /// Simple substitution of a variable.
    Simple(SimpleFormat),
    /// Plural branching on a numeric variable.
    Plural(PluralFormat),
    /// Select branching on a string variable.
    Select(SelectFormat),
}

impl MessagePart {
    /// Format this message part: write what the node produces and report the
    /// node's failure, if any.
    pub fn apply_format<A: Args>(&self, ctx: &Context, stream: &mut String, args: &A) -> (r:
        Result<(), FormatError>)
        ensures
            final(stream)@ == old(stream)@ + fmt_part(
                part_view(*self),
                ctx.plural_view(),
                args.entries(),
            ).0,
            (match r {
                Ok(_) => fmt_part(part_view(*self), ctx.plural_view(), args.entries()).1 is None,
                Err(e) => fmt_part(part_view(*self), ctx.plural_view(), args.entries()).1 == Some(
                    e,
                ),
            }),
        decreases size_part(part_view(*self)), 0int, 0int,
    {
        match self {
            MessagePart::Text(t) => t.apply_format(ctx, stream, args),
            MessagePart::Placeholder(p) => p.apply_format(ctx, stream, args),
            MessagePart::Simple(f) => f.apply_format(ctx, stream, args),
            MessagePart::Plural(f) => {
                proof {
                    assert(size_part(part_view(*self)) == 1 + size_plural(plural_view(*f)));
                }
                f.apply_format(ctx, stream, args)
            },
            MessagePart::Select(f) => {
                proof {
                    assert(size_part(part_view(*self)) == 1 + size_select(select_view(*f)));
                }
                f.apply_format(ctx, stream, args)
            },
        }
    }
}

} // verus!
