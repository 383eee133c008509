//! Plural branching on a numeric variable.

use vstd::prelude::*;

use crate::args::Args;
use crate::context::Context;
use crate::message::Message;
use crate::model::find_literal;
use crate::model::fmt_part;
use crate::model::lits_view;
use crate::model::msg_view;
use crate::model::plural_choose;
use crate::model::plural_view;
use crate::model::size_plural;
use crate::model::FormatError;
use crate::model::PartV;
use crate::model::PluralV;
use crate::value::Value;

verus! {

/// Using a numeric value, select the appropriate message and format it.
///
/// Resolution order, first match wins: an exact literal override, the
/// `one` category when the value is 1 (the reduced two-way rule: full CLDR
/// category computation is out of scope), and finally the mandatory default
/// case.  The `zero`, `two`, `few` and `many` categories are stored but never
/// selected by the reduced rule.
///
/// A `PluralFormat` without a default case cannot exist: the constructor
/// takes the default message.
#[derive(Debug)]
pub struct PluralFormat {
    /// The name of the variable whose value should be formatted.
    pub variable_name: String,
    /// Exact-value overrides, scanned in order before any category rule.
    pub literals: Vec<(i64, Message)>,
    /// The `zero` category message.
    pub zero: Option<Message>,
    /// The `one` category message.
    pub one: Option<Message>,
    /// The `two` category message.
    pub two: Option<Message>,
    /// The `few` category message.
    pub few: Option<Message>,
    /// The `many` category message.
    pub many: Option<Message>,
    /// The mandatory default (`other`) message.
    pub other: Message,
}

impl PluralFormat {
    /// Construct a `PluralFormat` from its variable name and its mandatory
    /// default case.
    pub fn new(variable_name: &str, other: Message) -> (f: PluralFormat)
        ensures
            plural_view(f) == (PluralV {
                name: variable_name@,
                literals: Seq::empty(),
                zero: None,
                one: None,
                two: None,
                few: None,
                many: None,
                other: msg_view(other),
            }),
    {
        PluralFormat {
            variable_name: variable_name.to_owned(),
            literals: Vec::new(),
            zero: None,
            one: None,
            two: None,
            few: None,
            many: None,
            other,
        }
    }

    /// Set the `zero` category message.
    pub fn zero(&mut self, message: Message)
        ensures
            plural_view(*final(self)) == (PluralV {
                zero: Some(msg_view(message)),
                ..plural_view(*old(self))
            }),
    {
        self.zero = Some(message);
    }

    /// Set the `one` category message.
    pub fn one(&mut self, message: Message)
        ensures
            plural_view(*final(self)) == (PluralV {
                one: Some(msg_view(message)),
                ..plural_view(*old(self))
            }),
    {
        self.one = Some(message);
    }

    /// Set the `two` category message.
    pub fn two(&mut self, message: Message)
        ensures
            plural_view(*final(self)) == (PluralV {
                two: Some(msg_view(message)),
                ..plural_view(*old(self))
            }),
    {
        self.two = Some(message);
    }

    /// Set the `few` category message.
    pub fn few(&mut self, message: Message)
        ensures
            plural_view(*final(self)) == (PluralV {
                few: Some(msg_view(message)),
                ..plural_view(*old(self))
            }),
    {
        self.few = Some(message);
    }

    /// Set the `many` category message.
    pub fn many(&mut self, message: Message)
        ensures
            plural_view(*final(self)) == (PluralV {
                many: Some(msg_view(message)),
                ..plural_view(*old(self))
            }),
    {
        self.many = Some(message);
    }

    /// Add an exact-value override.
    pub fn literal(&mut self, value: i64, message: Message)
        ensures
            plural_view(*final(self)) == (PluralV {
                literals: plural_view(*old(self)).literals.push(
                    (value as int, msg_view(message)),
                ),
                ..plural_view(*old(self))
            }),
    {
        self.literals.push((value, message));
        proof {
            crate::model::lemma_lits_view_push(old(self).literals@, self.literals@.last());
        }
    }

    /// Given a value, determine which `Message` to use: the first exact
    /// override, then the reduced category rule, then the default case.
    pub fn lookup_message(&self, value: i64) -> (m: &Message)
        ensures
            msg_view(*m) == plural_choose(plural_view(*self), value as int),
    {
        let n = self.literals.len();
        proof {
            crate::model::lemma_lits_view_len(self.literals@);
            assert(plural_view(*self).literals.skip(0) =~= plural_view(*self).literals);
        }
        for i in 0..n
            invariant
                n == self.literals@.len(),
                lits_view(self.literals@).len() == n,
                find_literal(plural_view(*self).literals, value as int) == find_literal(
                    plural_view(*self).literals.skip(i as int),
                    value as int,
                ),
        {
            proof {
                crate::model::lemma_lits_view_index(self.literals@, i as int);
                assert(plural_view(*self).literals.skip(i as int)[0] == plural_view(
                    *self,
                ).literals[i as int]);
            }
            if self.literals[i].0 == value {
                return &self.literals[i].1;
            }
            proof {
                assert(plural_view(*self).literals.skip(i as int).drop_first() =~= plural_view(
                    *self,
                ).literals.skip(i as int + 1));
            }
        }
        proof {
            assert(plural_view(*self).literals.skip(n as int) =~= Seq::<
                (int, crate::model::MessageV),
            >::empty());
        }
        if value == 1 {
            match &self.one {
                Some(m) => {
                    return m;
                },
                None => (),
            }
        }
        &self.other
    }

    /// Look the variable up as a number, select the branch for its value and
    /// format that branch under a context carrying the value.
    pub fn apply_format<A: Args>(&self, ctx: &Context, stream: &mut String, args: &A) -> (r:
        Result<(), FormatError>)
        ensures
            final(stream)@ == old(stream)@ + fmt_part(
                PartV::Plural(plural_view(*self)),
                ctx.plural_view(),
                args.entries(),
            ).0,
            (match r {
                Ok(_) => fmt_part(
                    PartV::Plural(plural_view(*self)),
                    ctx.plural_view(),
                    args.entries(),
                ).1 is None,
                Err(e) => fmt_part(
                    PartV::Plural(plural_view(*self)),
                    ctx.plural_view(),
                    args.entries(),
                ).1 == Some(e),
            }),
        decreases size_plural(plural_view(*self)), 3int, 0int,
    {
        let arg = args.get(self.variable_name.as_str());
        match arg {
            Some(v) => match v {
                Value::Number(n) => {
                    let chosen = self.lookup_message(*n);
                    let derived = ctx.with_plural_value(*n);
                    proof {
                        crate::model::lemma_plural_choose_size(plural_view(*self));
                    }
                    chosen.write_with(&derived, stream, args)
                },
                Value::Str(_) => {
                    proof {
                        assert(stream@ =~= old(stream)@ + Seq::<char>::empty());
                    }
                    Err(FormatError::WrongValueKind)
                },
            },
            None => {
                proof {
                    assert(stream@ =~= old(stream)@ + Seq::<char>::empty());
                }
                Err(FormatError::MissingArgument)
            },
        }
    }
}

} // verus!
