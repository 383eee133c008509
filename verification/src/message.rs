//! The immutable root of a parsed message tree.

use vstd::prelude::*;

use crate::args::Args;
use crate::context::Context;
use crate::message_part::MessagePart;
use crate::model::fmt_message;
use crate::model::fmt_parts;
use crate::model::msg_view;
use crate::model::parts_view;
use crate::model::size_message;
use crate::model::FormatError;
use crate::model::MessageV;
use crate::model::PartV;

verus! {

/// A message that has been localized and can be formatted.
///
/// A `Message` is an immutable ordered sequence of format nodes.  It is
/// built once, by [`crate::icu::parse::parse`] or programmatically, and never
/// mutated afterwards, so one tree is safely reusable across any number of
/// formatting calls.
#[derive(Debug)]
pub struct Message {
    /// The ordered top-level format nodes.
    pub parts: Vec<MessagePart>,
}

impl View for Message {
    type V = MessageV;

    open spec fn view(&self) -> MessageV {
        msg_view(*self)
    }
}

impl Message {
    /// Construct a message from constituent parts.
    pub fn new(parts: Vec<MessagePart>) -> (m: Message)
        ensures
            m@ == (MessageV { parts: parts_view(parts@) }),
    {
        Message { parts }
    }

    /// Format a message, returning a string.
    ///
    /// This never fails outwardly: if a node fails, the output produced up
    /// to the failure point is returned as is.
    pub fn format_message<A: Args>(&self, args: &A) -> (out: String)
        ensures
            out@ == fmt_message(self@, None::<int>, args.entries()).0,
    {
        let mut out = String::new();
        let _ = self.write_message(&mut out, args);
        out
    }

    /// Write a message to a stream, propagating the first node failure.
    ///
    /// Earlier nodes' output stays in the stream even when a later node
    /// fails.
    pub fn write_message<A: Args>(&self, stream: &mut String, args: &A) -> (r: Result<
        (),
        FormatError,
    >)
        ensures
            final(stream)@ == old(stream)@ + fmt_message(self@, None::<int>, args.entries()).0,
            (match r {
                Ok(_) => fmt_message(self@, None::<int>, args.entries()).1 is None,
                Err(e) => fmt_message(self@, None::<int>, args.entries()).1 == Some(e),
            }),
    {
        let context = Context::new(None);
        self.write_with(&context, stream, args)
    }

    /// Apply each node in sequence under `ctx`, short-circuiting on the
    /// first failure.
    pub fn write_with<A: Args>(&self, ctx: &Context, stream: &mut String, args: &A) -> (r: Result<
        (),
        FormatError,
    >)
        ensures
            final(stream)@ == old(stream)@ + fmt_message(self@, ctx.plural_view(), args.entries()).0,
            (match r {
                Ok(_) => fmt_message(self@, ctx.plural_view(), args.entries()).1 is None,
                Err(e) => fmt_message(self@, ctx.plural_view(), args.entries()).1 == Some(e),
            }),
        decreases size_message(self@), 2int, 0int,
    {
        let r = self.write_parts_from(0, ctx, stream, args);
        proof {
            assert(self@.parts.skip(0) =~= self@.parts);
        }
        r
    }

    /// Apply the nodes from index `from` on.
    fn write_parts_from<A: Args>(
        &self,
        from: usize,
        ctx: &Context,
        stream: &mut String,
        args: &A,
    ) -> (r: Result<(), FormatError>)
        requires
            from <= self.parts@.len(),
        ensures
            final(stream)@ == old(stream)@ + fmt_parts(
                self@.parts.skip(from as int),
                ctx.plural_view(),
                args.entries(),
            ).0,
            (match r {
                Ok(_) => fmt_parts(
                    self@.parts.skip(from as int),
                    ctx.plural_view(),
                    args.entries(),
                ).1 is None,
                Err(e) => fmt_parts(
                    self@.parts.skip(from as int),
                    ctx.plural_view(),
                    args.entries(),
                ).1 == Some(e),
            }),
        decreases size_message(self@), 1int, self.parts@.len() - from,
    {
        proof {
            crate::model::lemma_parts_view_len(self.parts@);
        }
        if from == self.parts.len() {
            proof {
                assert(self@.parts.skip(from as int) =~= Seq::<PartV>::empty());
                assert(stream@ =~= old(stream)@ + Seq::<char>::empty());
            }
            Ok(())
        } else {
            proof {
                crate::model::lemma_parts_view_index(self.parts@, from as int);
                crate::model::lemma_size_part_le(self@.parts, from as int);
                assert(self@.parts.skip(from as int)[0] == self@.parts[from as int]);
                assert(self@.parts.skip(from as int).drop_first() =~= self@.parts.skip(
                    from as int + 1,
                ));
            }
            let part = &self.parts[from];
            let r = part.apply_format(ctx, stream, args);
            match r {
                Ok(_) => {
                    let r2 = self.write_parts_from(from + 1, ctx, stream, args);
                    proof {
                        assert(stream@ =~= old(stream)@ + fmt_parts(
                            self@.parts.skip(from as int),
                            ctx.plural_view(),
                            args.entries(),
                        ).0);
                    }
                    r2
                },
                Err(e) => Err(e),
            }
        }
    }
}

} // verus!
