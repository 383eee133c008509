//! The template grammar, defined as spec functions over character
//! sequences.
//!
//! Each `p_*` function consumes input starting at `pos` and yields the
//! position after the consumed text together with what was recognized, or
//! `None` when the alternative does not match there.  Alternatives are tried
//! in fixed priority order (placeholder, simple, plural, select, literal
//! text) and a message is one-or-more parts.  The executable parser is
//! proved to return exactly what these functions describe.

use vstd::prelude::*;

use crate::model::MessageV;
use crate::model::PartV;
use crate::model::PluralV;
use crate::model::SelectV;

verus! {

/// Characters that end a variable name.
pub open spec fn is_name_stop(c: char) -> bool {
    c == ',' || c == '}'
}

/// Characters that end a run of literal text.
pub open spec fn is_text_stop(c: char) -> bool {
    c == '{' || c == '#'
}

/// An ASCII decimal digit.
pub open spec fn is_digit(c: char) -> bool {
    ('0' as u32) <= (c as u32) && (c as u32) <= ('9' as u32)
}

/// Whitespace, as the grammar skips it.
pub open spec fn is_space(c: char) -> bool {
    c == ' ' || c == '\t' || c == '\r' || c == '\n'
}

/// An ASCII alphanumeric character, as allowed in a select match token.
pub open spec fn is_alnum(c: char) -> bool {
    (('a' as u32) <= (c as u32) && (c as u32) <= ('z' as u32)) || (('A' as u32) <= (c as u32) && (c
        as u32) <= ('Z' as u32)) || is_digit(c)
}

/// End of the variable name starting at `pos`.
pub open spec fn name_end(s: Seq<char>, pos: int) -> int
    decreases s.len() - pos,
{
    if 0 <= pos < s.len() && !is_name_stop(s[pos]) {
        name_end(s, pos + 1)
    } else {
        pos
    }
}

/// End of the literal text starting at `pos`.
pub open spec fn text_end(s: Seq<char>, pos: int) -> int
    decreases s.len() - pos,
{
    if 0 <= pos < s.len() && !is_text_stop(s[pos]) {
        text_end(s, pos + 1)
    } else {
        pos
    }
}

/// End of the digit run starting at `pos`.
pub open spec fn digits_end(s: Seq<char>, pos: int) -> int
    decreases s.len() - pos,
{
    if 0 <= pos < s.len() && is_digit(s[pos]) {
        digits_end(s, pos + 1)
    } else {
        pos
    }
}

/// First non-whitespace position at or after `pos`.
pub open spec fn ws_end(s: Seq<char>, pos: int) -> int
    decreases s.len() - pos,
{
    if 0 <= pos < s.len() && is_space(s[pos]) {
        ws_end(s, pos + 1)
    } else {
        pos
    }
}

/// End of the alphanumeric run starting at `pos`.
pub open spec fn alnum_end(s: Seq<char>, pos: int) -> int
    decreases s.len() - pos,
{
    if 0 <= pos < s.len() && is_alnum(s[pos]) {
        alnum_end(s, pos + 1)
    } else {
        pos
    }
}

/// Position of the first `}` at or after `pos`, or the end of the input.
pub open spec fn body_end(s: Seq<char>, pos: int) -> int
    decreases s.len() - pos,
{
    if 0 <= pos < s.len() && s[pos] != '}' {
        body_end(s, pos + 1)
    } else {
        pos
    }
}

/// The keyword `plural`.
pub open spec fn kw_plural() -> Seq<char> {
    seq!['p', 'l', 'u', 'r', 'a', 'l']
}

/// The keyword `select`.
pub open spec fn kw_select() -> Seq<char> {
    seq!['s', 'e', 'l', 'e', 'c', 't']
}

/// The keyword `one`.
pub open spec fn kw_one() -> Seq<char> {
    seq!['o', 'n', 'e']
}

/// The keyword `other`.
pub open spec fn kw_other() -> Seq<char> {
    seq!['o', 't', 'h', 'e', 'r']
}

/// The word `w` occurs in `s` at position `pos`.
pub open spec fn matches_at(s: Seq<char>, pos: int, w: Seq<char>) -> bool {
    0 <= pos && pos + w.len() <= s.len() && (forall|i: int|
        0 <= i < w.len() ==> s[pos + i] == w[i])
}

/// The numeric value of one digit character.
pub open spec fn digit_val(c: char) -> int {
    (c as u32) - ('0' as u32)
}

/// The value of the digit run `s[lo..hi)`, most significant digit first.
pub open spec fn digits_val(s: Seq<char>, lo: int, hi: int) -> int
    decreases hi - lo,
{
    if lo >= hi {
        0
    } else {
        digits_val(s, lo, hi - 1) * 10 + digit_val(s[hi - 1])
    }
}

/// One parsed branch of a plural construct.
pub enum PluralPartV {
    /// An exact-value override, `=N {...}`.
    Lit(int, MessageV),
    /// The `one` category.
    One(MessageV),
    /// The mandatory default, `other {...}`.
    Other(MessageV),
}

// ---------------------------------------------------------------------------
// The grammar.
// ---------------------------------------------------------------------------
/// `simple := "{" varName "}"`.
pub open spec fn p_simple(s: Seq<char>, pos: int) -> Option<(int, Seq<char>)> {
    if 0 <= pos < s.len() && s[pos] == '{' {
        let ne = name_end(s, pos + 1);
        if ne > pos + 1 && ne < s.len() && s[ne] == '}' {
            Some((ne + 1, s.subrange(pos + 1, ne)))
        } else {
            None
        }
    } else {
        None
    }
}

/// `subMessage := "{" message "}"`: the body runs to the first `}`, must be
/// nonempty, and is parsed as a full message; what the inner message leaves
/// unconsumed is discarded.
pub open spec fn p_submessage(s: Seq<char>, pos: int) -> Option<(int, MessageV)>
    decreases s.len() - pos, 0int,
{
    if 0 <= pos < s.len() && s[pos] == '{' {
        let e = body_end(s, pos + 1);
        if e > pos + 1 && e < s.len() {
            match p_message(s.subrange(pos + 1, e), 0) {
                Some(r) => Some((e + 1, r.1)),
                None => None,
            }
        } else {
            None
        }
    } else {
        None
    }
}

/// `pluralPart := "=" integer subMessage`, with the integer required to fit
/// an `i64`; trailing whitespace is consumed.
pub open spec fn p_plural_literal(s: Seq<char>, pos: int) -> Option<(int, PluralPartV)>
    decreases s.len() - pos, 1int,
{
    if 0 <= pos < s.len() && s[pos] == '=' {
        let de = digits_end(s, pos + 1);
        if de > pos + 1 && digits_val(s, pos + 1, de) <= i64::MAX {
            let w = ws_end(s, de);
            if pos <= w <= s.len() {
                match p_submessage(s, w) {
                    Some(r) => Some((ws_end(s, r.0), PluralPartV::Lit(digits_val(s, pos + 1, de), r.1))),
                    None => None,
                }
            } else {
                None
            }
        } else {
            None
        }
    } else {
        None
    }
}

/// `pluralPart := categoryKeyword subMessage`, with surrounding whitespace
/// consumed.
pub open spec fn p_plural_cat(s: Seq<char>, pos: int, kw: Seq<char>) -> Option<(int, MessageV)>
    decreases s.len() - pos, 1int,
{
    let w1 = ws_end(s, pos);
    if matches_at(s, w1, kw) {
        let w2 = ws_end(s, w1 + kw.len());
        if pos <= w2 <= s.len() {
            match p_submessage(s, w2) {
                Some(r) => Some((ws_end(s, r.0), r.1)),
                None => None,
            }
        } else {
            None
        }
    } else {
        None
    }
}

/// One plural branch: an exact override, `one`, or `other`, tried in that
/// order.
pub open spec fn p_plural_part(s: Seq<char>, pos: int) -> Option<(int, PluralPartV)>
    decreases s.len() - pos, 2int,
{
    match p_plural_literal(s, pos) {
        Some(r) => Some(r),
        None => match p_plural_cat(s, pos, kw_one()) {
            Some(r) => Some((r.0, PluralPartV::One(r.1))),
            None => match p_plural_cat(s, pos, kw_other()) {
                Some(r) => Some((r.0, PluralPartV::Other(r.1))),
                None => None,
            },
        },
    }
}

/// As many plural branches as will parse, in order.
pub open spec fn p_plural_parts(s: Seq<char>, pos: int) -> (int, Seq<PluralPartV>)
    decreases s.len() - pos, 3int,
{
    match p_plural_part(s, pos) {
        Some(r) => if pos < r.0 && r.0 <= s.len() {
            let rest = p_plural_parts(s, r.0);
            (rest.0, seq![r.1] + rest.1)
        } else {
            (pos, Seq::empty())
        },
        None => (pos, Seq::empty()),
    }
}

/// Fold parsed plural branches into overrides, the `one` category and the
/// default: overrides keep their order, the last `one` wins, the first
/// `other` wins.
pub open spec fn plural_fold(parts: Seq<PluralPartV>) -> (
    Seq<(int, MessageV)>,
    Option<MessageV>,
    Option<MessageV>,
)
    decreases parts.len(),
{
    if parts.len() == 0 {
        (Seq::empty(), None, None)
    } else {
        let t = plural_fold(parts.drop_first());
        match parts[0] {
            PluralPartV::Lit(c, m) => (seq![(c, m)] + t.0, t.1, t.2),
            PluralPartV::One(m) => (
                t.0,
                if t.1 is Some {
                    t.1
                } else {
                    Some(m)
                },
                t.2,
            ),
            PluralPartV::Other(m) => (t.0, t.1, Some(m)),
        }
    }
}

/// Build a plural node from its parsed branches; fails when no `other`
/// branch supplies the mandatory default case.
pub open spec fn plural_build(name: Seq<char>, parts: Seq<PluralPartV>) -> Option<PluralV> {
    let f = plural_fold(parts);
    match f.2 {
        Some(other) => Some(
            PluralV {
                name,
                literals: f.0,
                zero: None,
                one: f.1,
                two: None,
                few: None,
                many: None,
                other,
            },
        ),
        None => None,
    }
}

/// `plural := "{" varName "," "plural" "," pluralPart+ "}"`.
pub open spec fn p_plural(s: Seq<char>, pos: int) -> Option<(int, PluralV)>
    decreases s.len() - pos, 1int,
{
    if 0 <= pos < s.len() && s[pos] == '{' {
        match p_plural_inner(s, pos + 1) {
            Some(r) => if r.0 < s.len() && s[r.0] == '}' {
                Some((r.0 + 1, r.1))
            } else {
                None
            },
            None => None,
        }
    } else {
        None
    }
}

/// The inside of a plural construct, after the opening brace.
pub open spec fn p_plural_inner(s: Seq<char>, pos: int) -> Option<(int, PluralV)>
    decreases s.len() - pos, 4int,
{
    let ne = name_end(s, pos);
    if 0 <= pos <= s.len() && ne > pos && ne < s.len() && s[ne] == ',' {
        let w1 = ws_end(s, ne + 1);
        if matches_at(s, w1, kw_plural()) {
            let w2 = ws_end(s, w1 + 6);
            if w2 < s.len() && s[w2] == ',' {
                let w3 = ws_end(s, w2 + 1);
                if pos <= w3 <= s.len() {
                    let r = p_plural_parts(s, w3);
                    if r.1.len() > 0 {
                        match plural_build(s.subrange(pos, ne), r.1) {
                            Some(f) => Some((r.0, f)),
                            None => None,
                        }
                    } else {
                        None
                    }
                } else {
                    None
                }
            } else {
                None
            }
        } else {
            None
        }
    } else {
        None
    }
}

/// `selectPart := matchToken subMessage`, with surrounding whitespace
/// consumed; the match token is a nonempty alphanumeric run.
pub open spec fn p_select_match(s: Seq<char>, pos: int) -> Option<(int, (Seq<char>, MessageV))>
    decreases s.len() - pos, 2int,
{
    let w1 = ws_end(s, pos);
    let ae = alnum_end(s, w1);
    if 0 <= w1 && w1 < ae && ae <= s.len() {
        let w2 = ws_end(s, ae);
        if pos <= w2 <= s.len() {
            match p_submessage(s, w2) {
                Some(r) => Some((ws_end(s, r.0), (s.subrange(w1, ae), r.1))),
                None => None,
            }
        } else {
            None
        }
    } else {
        None
    }
}

/// As many select branches as will parse, in order.
pub open spec fn p_select_parts(s: Seq<char>, pos: int) -> (int, Seq<(Seq<char>, MessageV)>)
    decreases s.len() - pos, 3int,
{
    match p_select_match(s, pos) {
        Some(r) => if pos < r.0 && r.0 <= s.len() {
            let rest = p_select_parts(s, r.0);
            (rest.0, seq![r.1] + rest.1)
        } else {
            (pos, Seq::empty())
        },
        None => (pos, Seq::empty()),
    }
}

/// Split parsed select branches into the mappings and the default: the
/// first branch named `other` supplies the default, every other branch stays
/// a mapping, in order.
pub open spec fn select_fold(parts: Seq<(Seq<char>, MessageV)>) -> (
    Seq<(Seq<char>, MessageV)>,
    Option<MessageV>,
)
    decreases parts.len(),
{
    if parts.len() == 0 {
        (Seq::empty(), None)
    } else if parts[0].0 == kw_other() {
        (parts.drop_first(), Some(parts[0].1))
    } else {
        let t = select_fold(parts.drop_first());
        (seq![parts[0]] + t.0, t.1)
    }
}

/// Build a select node from its parsed branches; fails when no `other`
/// branch supplies the mandatory default case.
pub open spec fn select_build(name: Seq<char>, parts: Seq<(Seq<char>, MessageV)>) -> Option<
    SelectV,
> {
    let f = select_fold(parts);
    match f.1 {
        Some(d) => Some(SelectV { name, mappings: f.0, default: d }),
        None => None,
    }
}

/// `select := "{" varName "," "select" "," selectPart+ "}"`.
pub open spec fn p_select(s: Seq<char>, pos: int) -> Option<(int, SelectV)>
    decreases s.len() - pos, 1int,
{
    if 0 <= pos < s.len() && s[pos] == '{' {
        match p_select_inner(s, pos + 1) {
            Some(r) => if r.0 < s.len() && s[r.0] == '}' {
                Some((r.0 + 1, r.1))
            } else {
                None
            },
            None => None,
        }
    } else {
        None
    }
}

/// The inside of a select construct, after the opening brace.
pub open spec fn p_select_inner(s: Seq<char>, pos: int) -> Option<(int, SelectV)>
    decreases s.len() - pos, 4int,
{
    let ne = name_end(s, pos);
    if 0 <= pos <= s.len() && ne > pos && ne < s.len() && s[ne] == ',' {
        let w1 = ws_end(s, ne + 1);
        if matches_at(s, w1, kw_select()) {
            let w2 = ws_end(s, w1 + 6);
            if w2 < s.len() && s[w2] == ',' {
                let w3 = ws_end(s, w2 + 1);
                if pos <= w3 <= s.len() {
                    let r = p_select_parts(s, w3);
                    if r.1.len() > 0 {
                        match select_build(s.subrange(pos, ne), r.1) {
                            Some(f) => Some((r.0, f)),
                            None => None,
                        }
                    } else {
                        None
                    }
                } else {
                    None
                }
            } else {
                None
            }
        } else {
            None
        }
    } else {
        None
    }
}

/// One part, by the fixed priority order: placeholder, simple, plural,
/// select, literal text.
pub open spec fn p_part(s: Seq<char>, pos: int) -> Option<(int, PartV)>
    decreases s.len() - pos, 2int,
{
    if 0 <= pos < s.len() && s[pos] == '#' {
        Some((pos + 1, PartV::Placeholder))
    } else {
        match p_simple(s, pos) {
            Some(r) => Some((r.0, PartV::Simple(r.1))),
            None => match p_plural(s, pos) {
                Some(r) => Some((r.0, PartV::Plural(r.1))),
                None => match p_select(s, pos) {
                    Some(r) => Some((r.0, PartV::Select(r.1))),
                    None => {
                        let te = text_end(s, pos);
                        if 0 <= pos && te > pos {
                            Some((te, PartV::Text(s.subrange(pos, te))))
                        } else {
                            None
                        }
                    },
                },
            },
        }
    }
}

/// As many parts as will parse, in order.
pub open spec fn p_parts(s: Seq<char>, pos: int) -> (int, Seq<PartV>)
    decreases s.len() - pos, 3int,
{
    match p_part(s, pos) {
        Some(r) => if pos < r.0 && r.0 <= s.len() {
            let rest = p_parts(s, r.0);
            (rest.0, seq![r.1] + rest.1)
        } else {
            (pos, Seq::empty())
        },
        None => (pos, Seq::empty()),
    }
}

/// `message := part+`: one-or-more parts; empty input, or input whose first
/// part does not parse, is a failure.
pub open spec fn p_message(s: Seq<char>, pos: int) -> Option<(int, MessageV)>
    decreases s.len() - pos, 4int,
{
    let r = p_parts(s, pos);
    if r.1.len() == 0 {
        None
    } else {
        Some((r.0, MessageV { parts: r.1 }))
    }
}

} // verus!
