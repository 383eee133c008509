//! Simple variable substitution.

use vstd::prelude::*;

use crate::args::lookup_entries;
use crate::args::Args;
use crate::context::Context;
use crate::decimal::append_i64;
use crate::model::display_of;
use crate::model::FormatError;
use crate::value::Value;

verus! {

/// A simple message consisting of a value to be formatted.
#[derive(Debug)]
pub struct SimpleFormat {
    /// The name of the variable whose value should be formatted.
    pub variable_name: String,
}

impl SimpleFormat {
    /// Construct a `SimpleFormat`.
    pub fn new(variable_name: &str) -> (f: SimpleFormat)
        ensures
            f.variable_name@ == variable_name@,
    {
        SimpleFormat { variable_name: variable_name.to_owned() }
    }

    /// Look the variable up and write its display form; fail with a
    /// missing-argument error when it is absent.
    pub fn apply_format<A: Args>(&self, _ctx: &Context, stream: &mut String, args: &A) -> (r:
        Result<(), FormatError>)
        ensures
            final(stream)@ == old(stream)@ + (match lookup_entries(args.entries(), self.variable_name@) {
                Some(v) => display_of(v),
                None => Seq::<char>::empty(),
            }),
            (match r {
                Ok(_) => lookup_entries(args.entries(), self.variable_name@) is Some,
                Err(e) => lookup_entries(args.entries(), self.variable_name@) is None && e
                    == FormatError::MissingArgument,
            }),
    {
        let arg = args.get(self.variable_name.as_str());
        match arg {
            Some(v) => {
                match v {
                    Value::Str(s) => stream.append(s.as_str()),
                    Value::Number(n) => append_i64(stream, *n),
                }
                Ok(())
            },
            None => {
                proof {
                    assert(stream@ =~= old(stream)@ + Seq::<char>::empty());
                }
                Err(FormatError::MissingArgument)
            },
        }
    }
}

} // verus!
