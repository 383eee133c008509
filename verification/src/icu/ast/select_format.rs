//! Select branching on a string variable.

use vstd::prelude::*;

use crate::args::Args;
use crate::context::Context;
use crate::message::Message;
use crate::model::fmt_part;
use crate::model::mappings_view;
use crate::model::msg_view;
use crate::model::select_choose;
use crate::model::select_view;
use crate::model::size_select;
use crate::model::FormatError;
use crate::model::PartV;
use crate::model::SelectV;
use crate::value::Value;

verus! {

/// One mapping from a match token to the message it selects.
#[derive(Debug)]
pub struct SelectMapping {
    /// The value to match against.
    pub value: String,
    /// The message chosen when the variable equals `value`.
    pub message: Message,
}

/// Using a value, select the appropriate message and format it.
///
/// Mappings are scanned in insertion order for exact equality; the first
/// match wins, and the mandatory default message is used when none matches.
/// A `SelectFormat` without a default case cannot exist: the constructor
/// takes the default message.
#[derive(Debug)]
pub struct SelectFormat {
    /// The name of the variable whose value should be formatted.
    pub variable_name: String,
    /// Given a value of a variable, this maps that to a message format.
    pub mappings: Vec<SelectMapping>,
    /// The message format to use if no valid mapping is found for the
    /// variable value.
    pub default: Message,
}

impl SelectFormat {
    /// Construct a `SelectFormat` from its variable name and its mandatory
    /// default case.
    pub fn new(variable_name: &str, default: Message) -> (f: SelectFormat)
        ensures
            select_view(f) == (SelectV {
                name: variable_name@,
                mappings: Seq::empty(),
                default: msg_view(default),
            }),
    {
        SelectFormat { variable_name: variable_name.to_owned(), mappings: Vec::new(), default }
    }

    /// Map a value for a particular message.
    pub fn map(&mut self, value: &str, message: Message)
        ensures
            select_view(*final(self)) == (SelectV {
                mappings: select_view(*old(self)).mappings.push((value@, msg_view(message))),
                ..select_view(*old(self))
            }),
    {
        let mapping = SelectMapping { value: value.to_owned(), message };
        self.mappings.push(mapping);
        proof {
            crate::model::lemma_mappings_view_push(old(self).mappings@, self.mappings@.last());
        }
    }

    /// Given a value, determine which `Message` to use: the first mapping
    /// matching `value`, or the default.
    pub fn lookup_message(&self, value: &str) -> (m: &Message)
        ensures
            msg_view(*m) == (match select_choose(select_view(*self).mappings, value@) {
                Some(chosen) => chosen,
                None => select_view(*self).default,
            }),
    {
        let key: String = value.to_owned();
        let n = self.mappings.len();
        proof {
            crate::model::lemma_mappings_view_len(self.mappings@);
            assert(select_view(*self).mappings.skip(0) =~= select_view(*self).mappings);
        }
        for i in 0..n
            invariant
                n == self.mappings@.len(),
                key@ == value@,
                mappings_view(self.mappings@).len() == n,
                select_choose(select_view(*self).mappings, value@) == select_choose(
                    select_view(*self).mappings.skip(i as int),
                    value@,
                ),
        {
            proof {
                crate::model::lemma_mappings_view_index(self.mappings@, i as int);
                assert(select_view(*self).mappings.skip(i as int)[0] == select_view(
                    *self,
                ).mappings[i as int]);
            }
            if self.mappings[i].value == key {
                return &self.mappings[i].message;
            }
            proof {
                assert(select_view(*self).mappings.skip(i as int).drop_first() =~= select_view(
                    *self,
                ).mappings.skip(i as int + 1));
            }
        }
        proof {
            assert(select_view(*self).mappings.skip(n as int) =~= Seq::<
                (Seq<char>, crate::model::MessageV),
            >::empty());
        }
        &self.default
    }

    /// Look the variable up as a string, select the first matching mapping
    /// (or the default) and format it under the same context.
    pub fn apply_format<A: Args>(&self, ctx: &Context, stream: &mut String, args: &A) -> (r:
        Result<(), FormatError>)
        ensures
            final(stream)@ == old(stream)@ + fmt_part(
                PartV::Select(select_view(*self)),
                ctx.plural_view(),
                args.entries(),
            ).0,
            (match r {
                Ok(_) => fmt_part(
                    PartV::Select(select_view(*self)),
                    ctx.plural_view(),
                    args.entries(),
                ).1 is None,
                Err(e) => fmt_part(
                    PartV::Select(select_view(*self)),
                    ctx.plural_view(),
                    args.entries(),
                ).1 == Some(e),
            }),
        decreases size_select(select_view(*self)), 3int, 0int,
    {
        let arg = args.get(self.variable_name.as_str());
        match arg {
            Some(v) => match v {
                Value::Str(s) => {
                    let message = self.lookup_message(s.as_str());
                    proof {
                        crate::model::lemma_select_message_size(select_view(*self));
                    }
                    message.write_with(ctx, stream, args)
                },
                Value::Number(_) => {
                    proof {
                        assert(stream@ =~= old(stream)@ + Seq::<char>::empty());
                    }
                    Err(FormatError::WrongValueKind)
                },
            },
            None => {
                proof {
                    assert(stream@ =~= old(stream)@ + Seq::<char>::empty());
                }
                Err(FormatError::MissingArgument)
            },
        }
    }
}

} // verus!
