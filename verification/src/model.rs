//! The mathematical model of message trees and of formatting.
//!
//! Each executable tree type has a view built from `Seq`, `int` and
//! `Option`; the formatting semantics is a spec function over those views.
//! The executable formatter is proved to produce exactly what the semantics
//! says.

use vstd::prelude::*;

use crate::args::lookup_entries;
use crate::decimal::int_digits;
use crate::icu::ast::plural_format::PluralFormat;
use crate::icu::ast::select_format::SelectFormat;
use crate::icu::ast::select_format::SelectMapping;
use crate::message::Message;
use crate::message_part::MessagePart;
use crate::value::ValueV;

verus! {

/// A format-time failure: an argument binding error surfaced by `write`.
#[derive(Clone, Copy, Debug, PartialEq, Eq, Structural)]
pub enum FormatError {
    /// A referenced variable is absent from the arguments.
    MissingArgument,
    /// A referenced variable holds the wrong kind of value for its node.
    WrongValueKind,
    /// A `#` placeholder has no enclosing plural branch.
    MissingPluralValue,
}

/// The view of a message: an ordered sequence of node views.
pub struct MessageV {
    pub parts: Seq<PartV>,
}

/// The view of one format node.
pub enum PartV {
    /// Literal text.
    Text(Seq<char>),
    /// The `#` placeholder.
    Placeholder,
    /// Simple substitution of the named variable.
    Simple(Seq<char>),
    /// Plural branching on the named variable.
    Plural(PluralV),
    /// Select branching on the named variable.
    Select(SelectV),
}

/// The view of a plural node.
pub struct PluralV {
    pub name: Seq<char>,
    pub literals: Seq<(int, MessageV)>,
    pub zero: Option<MessageV>,
    pub one: Option<MessageV>,
    pub two: Option<MessageV>,
    pub few: Option<MessageV>,
    pub many: Option<MessageV>,
    pub other: MessageV,
}

/// The view of a select node.
pub struct SelectV {
    pub name: Seq<char>,
    pub mappings: Seq<(Seq<char>, MessageV)>,
    pub default: MessageV,
}

// ---------------------------------------------------------------------------
// Views of the executable tree types.
// ---------------------------------------------------------------------------
/// The view of a message tree.
pub open spec fn msg_view(m: Message) -> MessageV
    decreases m,
{
    MessageV { parts: parts_view(m.parts@) }
}

/// The views of a sequence of nodes, in order.
pub open spec fn parts_view(ps: Seq<MessagePart>) -> Seq<PartV>
    decreases ps,
{
    if ps.len() == 0 {
        Seq::empty()
    } else {
        seq![part_view(ps[0])] + parts_view(ps.drop_first())
    }
}

/// The view of one node.
pub open spec fn part_view(p: MessagePart) -> PartV
    decreases p,
{
    match p {
        MessagePart::Text(t) => PartV::Text(t.text@),
        MessagePart::Placeholder(_) => PartV::Placeholder,
        MessagePart::Simple(s) => PartV::Simple(s.variable_name@),
        MessagePart::Plural(f) => PartV::Plural(plural_view(f)),
        MessagePart::Select(f) => PartV::Select(select_view(f)),
    }
}

/// The view of a plural node.
pub open spec fn plural_view(f: PluralFormat) -> PluralV
    decreases f,
{
    PluralV {
        name: f.variable_name@,
        literals: lits_view(f.literals@),
        zero: opt_view(f.zero),
        one: opt_view(f.one),
        two: opt_view(f.two),
        few: opt_view(f.few),
        many: opt_view(f.many),
        other: msg_view(f.other),
    }
}

/// The views of exact-value overrides, in order.
pub open spec fn lits_view(ls: Seq<(i64, Message)>) -> Seq<(int, MessageV)>
    decreases ls,
{
    if ls.len() == 0 {
        Seq::empty()
    } else {
        seq![(ls[0].0 as int, msg_view(ls[0].1))] + lits_view(ls.drop_first())
    }
}

/// The view of an optional category message.
pub open spec fn opt_view(o: Option<Message>) -> Option<MessageV>
    decreases o,
{
    match o {
        Some(m) => Some(msg_view(m)),
        None => None,
    }
}

/// The view of a select node.
pub open spec fn select_view(f: SelectFormat) -> SelectV
    decreases f,
{
    SelectV {
        name: f.variable_name@,
        mappings: mappings_view(f.mappings@),
        default: msg_view(f.default),
    }
}

/// The views of select mappings, in order.
pub open spec fn mappings_view(ms: Seq<SelectMapping>) -> Seq<(Seq<char>, MessageV)>
    decreases ms,
{
    if ms.len() == 0 {
        Seq::empty()
    } else {
        seq![(ms[0].value@, msg_view(ms[0].message))] + mappings_view(ms.drop_first())
    }
}

// ---------------------------------------------------------------------------
// Sizes, used as termination measures by the formatter.
// ---------------------------------------------------------------------------
/// Node count of a message view.
pub open spec fn size_message(m: MessageV) -> nat
    decreases m,
{
    1 + size_parts(m.parts)
}

/// Node count of a sequence of node views.
pub open spec fn size_parts(ps: Seq<PartV>) -> nat
    decreases ps,
{
    if ps.len() == 0 {
        0
    } else {
        size_part(ps[0]) + size_parts(ps.drop_first())
    }
}

/// Node count of one node view.
pub open spec fn size_part(p: PartV) -> nat
    decreases p,
{
    match p {
        PartV::Text(_) => 1,
        PartV::Placeholder => 1,
        PartV::Simple(_) => 1,
        PartV::Plural(f) => 1 + size_plural(f),
        PartV::Select(f) => 1 + size_select(f),
    }
}

/// Node count of a plural node's children.
pub open spec fn size_plural(f: PluralV) -> nat
    decreases f,
{
    size_lits(f.literals) + size_opt(f.zero) + size_opt(f.one) + size_opt(f.two) + size_opt(f.few)
        + size_opt(f.many) + size_message(f.other)
}

/// Node count of a select node's children.
pub open spec fn size_select(f: SelectV) -> nat
    decreases f,
{
    size_mappings(f.mappings) + size_message(f.default)
}

/// Node count of the override messages.
pub open spec fn size_lits(ls: Seq<(int, MessageV)>) -> nat
    decreases ls,
{
    if ls.len() == 0 {
        0
    } else {
        size_message(ls[0].1) + size_lits(ls.drop_first())
    }
}

/// Node count of an optional category message.
pub open spec fn size_opt(o: Option<MessageV>) -> nat
    decreases o,
{
    match o {
        Some(m) => size_message(m),
        None => 0,
    }
}

/// Node count of the mapping messages.
pub open spec fn size_mappings(ms: Seq<(Seq<char>, MessageV)>) -> nat
    decreases ms,
{
    if ms.len() == 0 {
        0
    } else {
        size_message(ms[0].1) + size_mappings(ms.drop_first())
    }
}

// ---------------------------------------------------------------------------
// Branch resolution.
// ---------------------------------------------------------------------------
/// The first exact-value override matching `n`, if any.
pub open spec fn find_literal(ls: Seq<(int, MessageV)>, n: int) -> Option<MessageV>
    decreases ls,
{
    if ls.len() == 0 {
        None
    } else if ls[0].0 == n {
        Some(ls[0].1)
    } else {
        find_literal(ls.drop_first(), n)
    }
}

/// The sub-message a plural node selects for the value `n`: an exact literal
/// override first, then the reduced category rule (`n == 1` selects `one`
/// when present), then the default case.
pub open spec fn plural_choose(f: PluralV, n: int) -> MessageV {
    match find_literal(f.literals, n) {
        Some(m) => m,
        None => if n == 1 && f.one is Some {
            f.one->0
        } else {
            f.other
        },
    }
}

/// The first mapping matching `v`, if any.
pub open spec fn select_choose(ms: Seq<(Seq<char>, MessageV)>, v: Seq<char>) -> Option<MessageV>
    decreases ms,
{
    if ms.len() == 0 {
        None
    } else if ms[0].0 == v {
        Some(ms[0].1)
    } else {
        select_choose(ms.drop_first(), v)
    }
}

/// The sub-message a select node selects for the value `v`.
pub open spec fn select_message(f: SelectV, v: Seq<char>) -> MessageV {
    match select_choose(f.mappings, v) {
        Some(m) => m,
        None => f.default,
    }
}

// ---------------------------------------------------------------------------
// The formatting semantics.
// ---------------------------------------------------------------------------
/// The display form of a value: text verbatim, numbers in decimal.
pub open spec fn display_of(v: ValueV) -> Seq<char> {
    match v {
        ValueV::Str(s) => s,
        ValueV::Number(n) => int_digits(n),
    }
}

/// What formatting a message produces: the output text and, when a node
/// failed, the first failure.  Output written before the failing node stays.
pub open spec fn fmt_message(
    m: MessageV,
    pv: Option<int>,
    args: Seq<(Seq<char>, ValueV)>,
) -> (Seq<char>, Option<FormatError>)
    decreases size_message(m), 2int,
{
    fmt_parts(m.parts, pv, args)
}

/// Format nodes in sequence, short-circuiting on the first failure.
pub open spec fn fmt_parts(
    ps: Seq<PartV>,
    pv: Option<int>,
    args: Seq<(Seq<char>, ValueV)>,
) -> (Seq<char>, Option<FormatError>)
    decreases size_parts(ps), 1int,
    via fmt_parts_decreases
{
    if ps.len() == 0 {
        (Seq::empty(), None)
    } else {
        let head = fmt_part(ps[0], pv, args);
        if head.1 is Some {
            head
        } else {
            let tail = fmt_parts(ps.drop_first(), pv, args);
            (head.0 + tail.0, tail.1)
        }
    }
}

/// Format one node.
pub open spec fn fmt_part(
    p: PartV,
    pv: Option<int>,
    args: Seq<(Seq<char>, ValueV)>,
) -> (Seq<char>, Option<FormatError>)
    decreases size_part(p), 0int,
    via fmt_part_decreases
{
    match p {
        PartV::Text(t) => (t, None),
        PartV::Placeholder => match pv {
            Some(n) => (int_digits(n), None),
            None => (Seq::empty(), Some(FormatError::MissingPluralValue)),
        },
        PartV::Simple(name) => match lookup_entries(args, name) {
            Some(v) => (display_of(v), None),
            None => (Seq::empty(), Some(FormatError::MissingArgument)),
        },
        PartV::Plural(f) => match lookup_entries(args, f.name) {
            None => (Seq::empty(), Some(FormatError::MissingArgument)),
            Some(ValueV::Str(_)) => (Seq::empty(), Some(FormatError::WrongValueKind)),
            Some(ValueV::Number(n)) => fmt_message(plural_choose(f, n), Some(n), args),
        },
        PartV::Select(f) => match lookup_entries(args, f.name) {
            None => (Seq::empty(), Some(FormatError::MissingArgument)),
            Some(ValueV::Number(_)) => (Seq::empty(), Some(FormatError::WrongValueKind)),
            Some(ValueV::Str(v)) => fmt_message(select_message(f, v), pv, args),
        },
    }
}

#[via_fn]
proof fn fmt_parts_decreases(ps: Seq<PartV>, pv: Option<int>, args: Seq<(Seq<char>, ValueV)>) {
    if ps.len() > 0 {
        lemma_size_part_pos(ps[0]);
    }
}

/// Every node counts at least itself.
pub proof fn lemma_size_part_pos(p: PartV)
    ensures
        size_part(p) >= 1,
{
    match p {
        PartV::Text(_) => (),
        PartV::Placeholder => (),
        PartV::Simple(_) => (),
        PartV::Plural(_) => (),
        PartV::Select(_) => (),
    }
}

#[via_fn]
proof fn fmt_part_decreases(p: PartV, pv: Option<int>, args: Seq<(Seq<char>, ValueV)>) {
    match p {
        PartV::Plural(f) => {
            lemma_plural_choose_size(f);
        },
        PartV::Select(f) => {
            lemma_select_message_size(f);
        },
        _ => (),
    }
}

/// Whatever branch a plural node selects is smaller than the node.
pub proof fn lemma_plural_choose_size(f: PluralV)
    ensures
        forall|n: int| #[trigger] size_message(plural_choose(f, n)) <= size_plural(f),
{
    assert forall|n: int| #[trigger] size_message(plural_choose(f, n)) <= size_plural(f) by {
        lemma_find_literal_size(f.literals, n);
    }
}

/// A literal override's message is counted in the overrides' size.
pub proof fn lemma_find_literal_size(ls: Seq<(int, MessageV)>, n: int)
    ensures
        find_literal(ls, n) is Some ==> size_message(find_literal(ls, n)->0) <= size_lits(ls),
    decreases ls.len(),
{
    if ls.len() > 0 && ls[0].0 != n {
        lemma_find_literal_size(ls.drop_first(), n);
    }
}

/// Whatever branch a select node selects is smaller than the node.
pub proof fn lemma_select_message_size(f: SelectV)
    ensures
        forall|v: Seq<char>| #[trigger] size_message(select_message(f, v)) <= size_select(f),
{
    assert forall|v: Seq<char>| #[trigger] size_message(select_message(f, v)) <= size_select(f) by {
        lemma_select_choose_size(f.mappings, v);
    }
}

/// A mapping's message is counted in the mappings' size.
pub proof fn lemma_select_choose_size(ms: Seq<(Seq<char>, MessageV)>, v: Seq<char>)
    ensures
        select_choose(ms, v) is Some ==> size_message(select_choose(ms, v)->0) <= size_mappings(
            ms,
        ),
    decreases ms.len(),
{
    if ms.len() > 0 && ms[0].0 != v {
        lemma_select_choose_size(ms.drop_first(), v);
    }
}

// ---------------------------------------------------------------------------
// Facts about the view functions.
// ---------------------------------------------------------------------------
/// `parts_view` keeps the length.
pub proof fn lemma_parts_view_len(ps: Seq<MessagePart>)
    ensures
        parts_view(ps).len() == ps.len(),
    decreases ps.len(),
{
    if ps.len() > 0 {
        lemma_parts_view_len(ps.drop_first());
    }
}

/// `parts_view` maps element by element.
pub proof fn lemma_parts_view_index(ps: Seq<MessagePart>, i: int)
    requires
        0 <= i < ps.len(),
    ensures
        parts_view(ps).len() == ps.len(),
        parts_view(ps)[i] == part_view(ps[i]),
    decreases ps.len(),
{
    lemma_parts_view_len(ps);
    if i > 0 {
        lemma_parts_view_index(ps.drop_first(), i - 1);
    }
}

/// `lits_view` keeps the length and maps element by element.
pub proof fn lemma_lits_view_index(ls: Seq<(i64, Message)>, i: int)
    requires
        0 <= i < ls.len(),
    ensures
        lits_view(ls).len() == ls.len(),
        lits_view(ls)[i] == (ls[i].0 as int, msg_view(ls[i].1)),
    decreases ls.len(),
{
    lemma_lits_view_len(ls);
    if i > 0 {
        lemma_lits_view_index(ls.drop_first(), i - 1);
    }
}

/// `lits_view` keeps the length.
pub proof fn lemma_lits_view_len(ls: Seq<(i64, Message)>)
    ensures
        lits_view(ls).len() == ls.len(),
    decreases ls.len(),
{
    if ls.len() > 0 {
        lemma_lits_view_len(ls.drop_first());
    }
}

/// Appending an override appends its view.
pub proof fn lemma_lits_view_push(ls: Seq<(i64, Message)>, l: (i64, Message))
    ensures
        lits_view(ls.push(l)) == lits_view(ls).push((l.0 as int, msg_view(l.1))),
    decreases ls.len(),
{
    if ls.len() == 0 {
        assert(ls.push(l)[0] == l);
        assert(ls.push(l).drop_first() =~= Seq::<(i64, Message)>::empty());
        assert(lits_view(ls.push(l)) == seq![(l.0 as int, msg_view(l.1))] + lits_view(
            Seq::<(i64, Message)>::empty(),
        ));
        assert(lits_view(ls.push(l)) =~= lits_view(ls).push((l.0 as int, msg_view(l.1))));
    } else {
        assert(ls.push(l)[0] == ls[0]);
        assert(ls.push(l).drop_first() =~= ls.drop_first().push(l));
        lemma_lits_view_push(ls.drop_first(), l);
        assert(lits_view(ls.push(l)) == seq![(ls[0].0 as int, msg_view(ls[0].1))] + lits_view(
            ls.drop_first(),
        ).push((l.0 as int, msg_view(l.1))));
        assert(lits_view(ls) == seq![(ls[0].0 as int, msg_view(ls[0].1))] + lits_view(
            ls.drop_first(),
        ));
        assert(lits_view(ls.push(l)) =~= lits_view(ls).push((l.0 as int, msg_view(l.1))));
    }
}

/// `mappings_view` keeps the length.
pub proof fn lemma_mappings_view_len(ms: Seq<SelectMapping>)
    ensures
        mappings_view(ms).len() == ms.len(),
    decreases ms.len(),
{
    if ms.len() > 0 {
        lemma_mappings_view_len(ms.drop_first());
    }
}

/// `mappings_view` maps element by element.
pub proof fn lemma_mappings_view_index(ms: Seq<SelectMapping>, i: int)
    requires
        0 <= i < ms.len(),
    ensures
        mappings_view(ms).len() == ms.len(),
        mappings_view(ms)[i] == (ms[i].value@, msg_view(ms[i].message)),
    decreases ms.len(),
{
    lemma_mappings_view_len(ms);
    if i > 0 {
        lemma_mappings_view_index(ms.drop_first(), i - 1);
    }
}

/// Appending a mapping appends its view.
pub proof fn lemma_mappings_view_push(ms: Seq<SelectMapping>, m: SelectMapping)
    ensures
        mappings_view(ms.push(m)) == mappings_view(ms).push((m.value@, msg_view(m.message))),
    decreases ms.len(),
{
    if ms.len() == 0 {
        assert(ms.push(m)[0] == m);
        assert(ms.push(m).drop_first() =~= Seq::<SelectMapping>::empty());
        assert(mappings_view(ms.push(m)) == seq![(m.value@, msg_view(m.message))] + mappings_view(
            Seq::<SelectMapping>::empty(),
        ));
        assert(mappings_view(ms.push(m)) =~= mappings_view(ms).push(
            (m.value@, msg_view(m.message)),
        ));
    } else {
        assert(ms.push(m)[0] == ms[0]);
        assert(ms.push(m).drop_first() =~= ms.drop_first().push(m));
        lemma_mappings_view_push(ms.drop_first(), m);
        assert(mappings_view(ms.push(m)) == seq![(ms[0].value@, msg_view(ms[0].message))]
            + mappings_view(ms.drop_first()).push((m.value@, msg_view(m.message))));
        assert(mappings_view(ms) == seq![(ms[0].value@, msg_view(ms[0].message))] + mappings_view(
            ms.drop_first(),
        ));
        assert(mappings_view(ms.push(m)) =~= mappings_view(ms).push(
            (m.value@, msg_view(m.message)),
        ));
    }
}

// ---------------------------------------------------------------------------
// Laws.
// ---------------------------------------------------------------------------
/// Every node of the sequence is plain text.
pub open spec fn all_plain(ps: Seq<PartV>) -> bool {
    forall|i: int| 0 <= i < ps.len() ==> (#[trigger] ps[i]) is Text
}

/// The concatenation of the literal texts of a sequence of nodes, plain
/// text contributing its text and nothing else.
pub open spec fn concat_texts(ps: Seq<PartV>) -> Seq<char>
    decreases ps,
{
    if ps.len() == 0 {
        Seq::empty()
    } else {
        (match ps[0] {
            PartV::Text(t) => t,
            _ => Seq::empty(),
        }) + concat_texts(ps.drop_first())
    }
}

/// A message built solely of plain-text nodes formats to the concatenation
/// of its literal texts, under every context and every set of arguments,
/// and cannot fail.
pub proof fn lemma_plain_text_format(m: MessageV, pv: Option<int>, args: Seq<(Seq<char>, ValueV)>)
    requires
        all_plain(m.parts),
    ensures
        fmt_message(m, pv, args) == (concat_texts(m.parts), None::<FormatError>),
{
    lemma_plain_parts(m.parts, pv, args);
}

/// The node-sequence half of [`lemma_plain_text_format`].
proof fn lemma_plain_parts(ps: Seq<PartV>, pv: Option<int>, args: Seq<(Seq<char>, ValueV)>)
    requires
        all_plain(ps),
    ensures
        fmt_parts(ps, pv, args) == (concat_texts(ps), None::<FormatError>),
    decreases ps.len(),
{
    if ps.len() > 0 {
        assert(ps[0] is Text);
        assert forall|i: int| 0 <= i < ps.drop_first().len() implies (#[trigger] ps.drop_first()[i]) is Text by {
            assert(ps.drop_first()[i] == ps[i + 1]);
        }
        lemma_plain_parts(ps.drop_first(), pv, args);
        let t = (match ps[0] {
            PartV::Text(t0) => t0,
            _ => Seq::<char>::empty(),
        });
        assert(fmt_part(ps[0], pv, args) == (t, None::<FormatError>));
        assert(concat_texts(ps) == t + concat_texts(ps.drop_first()));
        assert(fmt_parts(ps, pv, args) == (
            t + fmt_parts(ps.drop_first(), pv, args).0,
            fmt_parts(ps.drop_first(), pv, args).1,
        ));
    }
}

/// A node's size is counted in its sequence's size.
pub proof fn lemma_size_part_le(ps: Seq<PartV>, i: int)
    requires
        0 <= i < ps.len(),
    ensures
        size_part(ps[i]) <= size_parts(ps),
    decreases ps.len(),
{
    if i > 0 {
        lemma_size_part_le(ps.drop_first(), i - 1);
    }
}

} // verus!
