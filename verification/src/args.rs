//! The argument model: a lookup capability from names to values, and a
//! persistent, append-only scope chain implementing it.

use vstd::prelude::*;

use crate::value::IntoValue;
use crate::value::Value;
use crate::value::ValueV;

verus! {

/// What a name resolves to in a scope chain: the nearest (most recently
/// added) binding wins, so later bindings shadow earlier ones.
pub open spec fn lookup_entries(entries: Seq<(Seq<char>, ValueV)>, name: Seq<char>) -> Option<
    ValueV,
>
    decreases entries.len(),
{
    if entries.len() == 0 {
        None
    } else if entries.last().0 == name {
        Some(entries.last().1)
    } else {
        lookup_entries(entries.drop_last(), name)
    }
}

/// A lookup capability from argument names to values.
///
/// Any backing structure will do, as long as `get` resolves names against the
/// bindings it models, nearest binding first.
pub trait Args {
    /// The bindings this instance models, oldest first.
    spec fn entries(&self) -> Seq<(Seq<char>, ValueV)>;

    /// Retrieve the nearest binding of `name`, if any.
    fn get(&self, name: &str) -> (r: Option<&Value>)
        ensures
            match r {
                Some(v) => lookup_entries(self.entries(), name@) == Some(v@),
                None => lookup_entries(self.entries(), name@) is None,
            },
    ;
}

/// An argument scope with no bindings at all.
#[derive(Debug)]
pub struct EmptyArgs;

impl Args for EmptyArgs {
    open spec fn entries(&self) -> Seq<(Seq<char>, ValueV)> {
        Seq::empty()
    }

    fn get(&self, _name: &str) -> (r: Option<&Value>) {
        None
    }
}

/// Holds the arguments being used to format a [`Message`].
///
/// The chain is persistent and append-only: [`ListArgs::arg`] never mutates
/// an existing chain, it returns a new one that extends it, so several
/// extensions can share an unmodified prefix.  Lookup cost is proportional to
/// chain depth, which is fine: messages take few arguments.
///
/// [`Message`]: crate::Message
#[derive(Debug)]
pub struct ListArgs {
    /// The bindings, oldest first; the last one shadows the rest.
    pub items: Vec<(String, Value)>,
}

impl ListArgs {
    /// Add an argument.  This returns a new chain which extends this one;
    /// this chain itself is left untouched.
    pub fn arg<T: IntoValue>(&self, name: &str, value: T) -> (r: ListArgs)
        ensures
            r.entries() == self.entries().push((name@, value.value_view())),
    {
        let mut items: Vec<(String, Value)> = Vec::new();
        let n = self.items.len();
        for i in 0..n
            invariant
                n == self.items.len(),
                items@.len() == i,
                forall|j: int|
                    0 <= j < i ==> (#[trigger] items@[j]).0@ == self.items@[j].0@
                        && items@[j].1@ == self.items@[j].1@,
        {
            let entry = (self.items[i].0.clone(), self.items[i].1.clone());
            items.push(entry);
        }
        items.push((name.to_owned(), value.to_value()));
        let r = ListArgs { items };
        proof {
            assert(r.entries() =~= self.entries().push((name@, value.value_view())));
        }
        r
    }
}

/// Create a one-argument scope chain.
pub fn arg<T: IntoValue>(name: &str, value: T) -> (r: ListArgs)
    ensures
        r.entries() == seq![(name@, value.value_view())],
{
    let mut items: Vec<(String, Value)> = Vec::new();
    items.push((name.to_owned(), value.to_value()));
    let r = ListArgs { items };
    proof {
        assert(r.entries() =~= seq![(name@, value.value_view())]);
    }
    r
}

impl Args for ListArgs {
    open spec fn entries(&self) -> Seq<(Seq<char>, ValueV)> {
        self.items@.map_values(|p: (String, Value)| (p.0@, p.1@))
    }

    /// Retrieve the argument with the given `name`; the binding added last
    /// wins.
    fn get(&self, name: &str) -> (r: Option<&Value>) {
        let key: String = name.to_owned();
        let mut j = self.items.len();
        proof {
            assert(self.entries().take(j as int) =~= self.entries());
        }
        while j > 0
            invariant
                j <= self.items.len(),
                key@ == name@,
                lookup_entries(self.entries().take(j as int), name@) == lookup_entries(
                    self.entries(),
                    name@,
                ),
            decreases j,
        {
            j = j - 1;
            if self.items[j].0 == key {
                proof {
                    let pre = self.entries().take(j + 1 as int);
                    assert(pre.last() == self.entries()[j as int]);
                }
                return Some(&self.items[j].1);
            }
            proof {
                let pre = self.entries().take(j + 1 as int);
                assert(pre.last() == self.entries()[j as int]);
                assert(pre.drop_last() =~= self.entries().take(j as int));
            }
        }
        proof {
            assert(self.entries().take(0) =~= Seq::<(Seq<char>, ValueV)>::empty());
        }
        None
    }
}

} // verus!
