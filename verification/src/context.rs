//! Per-call formatting state threaded through recursive formatting.

use vstd::prelude::*;

use crate::args::Args;
use crate::message::Message;
use crate::model::fmt_message;

verus! {

/// Small value carrying locale state and, inside a plural branch, the numeric
/// value that `#` placeholders within that branch substitute.  It never holds
/// named arguments: lookup by name is strictly the [`Args`] model's job.
#[derive(Debug)]
pub struct Context {
    /// Locale tag, kept as a placeholder for future locale integration.  The
    /// current resolution rules never read it.
    pub locale: Option<String>,
    /// The numeric value selected by an enclosing plural branch, if any.
    pub plural_value: Option<i64>,
}

impl Context {
    /// The plural value as an unbounded integer.
    pub open spec fn plural_view(&self) -> Option<int> {
        match self.plural_value {
            Some(n) => Some(n as int),
            None => None,
        }
    }

    /// Construct a context carrying the given plural value and no locale.
    pub fn new(plural_value: Option<i64>) -> (c: Context)
        ensures
            c.plural_value == plural_value,
            c.locale is None,
    {
        Context { locale: None, plural_value }
    }

    /// Derive the context for a plural branch: the same locale, with the
    /// resolved numeric value for `#` placeholders in that branch.
    pub fn with_plural_value(&self, value: i64) -> (c: Context)
        ensures
            c.plural_view() == Some(value as int),
    {
        let locale = match &self.locale {
            Some(s) => Some(s.clone()),
            None => None,
        };
        Context { locale, plural_value: Some(value) }
    }

    /// Format `message` against `args`, starting from this context.
    ///
    /// Failures degrade to partial output: the result is everything the nodes
    /// before the first failing node produced.
    pub fn format<A: Args>(&self, message: &Message, args: &A) -> (out: String)
        ensures
            out@ == fmt_message(message@, self.plural_view(), args.entries()).0,
    {
        let mut out = String::new();
        let _ = message.write_with(self, &mut out, args);
        out
    }
}

impl Default for Context {
    /// The default context has no locale and no plural value.
    fn default() -> (c: Context)
        ensures
            c.plural_value is None,
            c.locale is None,
    {
        Context::new(None)
    }
}

} // verus!
