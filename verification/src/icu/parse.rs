//! The recursive-descent template parser.
//!
//! Parsing walks the text by character position; every function is proved
//! to return exactly what the corresponding grammar function in
//! [`crate::icu::grammar`] describes.

use vstd::prelude::*;

use crate::icu::ast::plain_text::PlainText;
use crate::icu::ast::placeholder_format::PlaceholderFormat;
use crate::icu::ast::plural_format::PluralFormat;
use crate::icu::ast::select_format::SelectFormat;
use crate::icu::ast::select_format::SelectMapping;
use crate::icu::ast::simple_format::SimpleFormat;
use crate::icu::grammar::alnum_end;
use crate::icu::grammar::body_end;
use crate::icu::grammar::digit_val;
use crate::icu::grammar::digits_end;
use crate::icu::grammar::digits_val;
use crate::icu::grammar::is_alnum;
use crate::icu::grammar::is_digit;
use crate::icu::grammar::is_name_stop;
use crate::icu::grammar::is_space;
use crate::icu::grammar::is_text_stop;
use crate::icu::grammar::kw_one;
use crate::icu::grammar::kw_other;
use crate::icu::grammar::kw_plural;
use crate::icu::grammar::kw_select;
use crate::icu::grammar::matches_at;
use crate::icu::grammar::name_end;
use crate::icu::grammar::p_message;
use crate::icu::grammar::p_part;
use crate::icu::grammar::p_parts;
use crate::icu::grammar::p_plural;
use crate::icu::grammar::p_plural_cat;
use crate::icu::grammar::p_plural_inner;
use crate::icu::grammar::p_plural_literal;
use crate::icu::grammar::p_plural_part;
use crate::icu::grammar::p_plural_parts;
use crate::icu::grammar::p_select;
use crate::icu::grammar::p_select_inner;
use crate::icu::grammar::p_select_match;
use crate::icu::grammar::p_select_parts;
use crate::icu::grammar::p_simple;
use crate::icu::grammar::p_submessage;
use crate::icu::grammar::plural_fold;
use crate::icu::grammar::select_fold;
use crate::icu::grammar::text_end;
use crate::icu::grammar::ws_end;
use crate::icu::grammar::PluralPartV;
use crate::message::Message;
use crate::message_part::MessagePart;
use crate::model::lits_view;
use crate::model::mappings_view;
use crate::model::msg_view;
use crate::model::opt_view;
use crate::model::parts_view;
use crate::model::plural_view;
use crate::model::select_view;
use crate::model::MessageV;
use vstd::string::StrSliceExecFns;

verus! {

/// An error resulting from `parse`: one opaque kind, with no location or
/// cause detail.
#[derive(Clone, Copy, Debug, PartialEq, Eq, Structural)]
pub enum ParseError {
    /// The message could not be parsed.
    NotImplemented,
}

impl ParseError {
    /// A short description of the error.
    pub fn description(&self) -> (s: &'static str)
        ensures
            s@ =~= "Not implemented."@,
    {
        match *self {
            ParseError::NotImplemented => "Not implemented.",
        }
    }
}

// ---------------------------------------------------------------------------
// Scanners.
// ---------------------------------------------------------------------------
/// Executable test for [`is_name_stop`].
fn name_stop_char(c: char) -> (b: bool)
    ensures
        b == is_name_stop(c),
{
    c == ',' || c == '}'
}

/// Executable test for [`is_text_stop`].
fn text_stop_char(c: char) -> (b: bool)
    ensures
        b == is_text_stop(c),
{
    c == '{' || c == '#'
}

/// Executable test for [`is_digit`].
fn digit_char_test(c: char) -> (b: bool)
    ensures
        b == is_digit(c),
{
    ('0' as u32) <= (c as u32) && (c as u32) <= ('9' as u32)
}

/// Executable test for [`is_space`].
fn space_char(c: char) -> (b: bool)
    ensures
        b == is_space(c),
{
    c == ' ' || c == '\t' || c == '\r' || c == '\n'
}

/// Executable test for [`is_alnum`].
fn alnum_char(c: char) -> (b: bool)
    ensures
        b == is_alnum(c),
{
    (('a' as u32) <= (c as u32) && (c as u32) <= ('z' as u32)) || (('A' as u32) <= (c as u32) && (c
        as u32) <= ('Z' as u32)) || (('0' as u32) <= (c as u32) && (c as u32) <= ('9' as u32))
}

/// Executable test for a closing brace.
fn brace_char(c: char) -> (b: bool)
    ensures
        b == (c == '}'),
{
    c == '}'
}

/// Find the end of the variable name starting at `pos`.
fn scan_name(s: &str, pos: usize) -> (e: usize)
    requires
        pos <= s@.len(),
    ensures
        e == name_end(s@, pos as int),
        pos <= e <= s@.len(),
{
    let n = s.unicode_len();
    let mut i = pos;
    while i < n && !name_stop_char(s.get_char(i))
        invariant
            pos <= i <= n,
            n == s@.len(),
            name_end(s@, pos as int) == name_end(s@, i as int),
        decreases n - i,
    {
        i = i + 1;
    }
    i
}

/// Find the end of the literal text starting at `pos`.
fn scan_text(s: &str, pos: usize) -> (e: usize)
    requires
        pos <= s@.len(),
    ensures
        e == text_end(s@, pos as int),
        pos <= e <= s@.len(),
{
    let n = s.unicode_len();
    let mut i = pos;
    while i < n && !text_stop_char(s.get_char(i))
        invariant
            pos <= i <= n,
            n == s@.len(),
            text_end(s@, pos as int) == text_end(s@, i as int),
        decreases n - i,
    {
        i = i + 1;
    }
    i
}

/// Find the end of the digit run starting at `pos`.
fn scan_digits(s: &str, pos: usize) -> (e: usize)
    requires
        pos <= s@.len(),
    ensures
        e == digits_end(s@, pos as int),
        pos <= e <= s@.len(),
        forall|i: int| pos <= i < e ==> is_digit(#[trigger] s@[i]),
{
    let n = s.unicode_len();
    let mut i = pos;
    while i < n && digit_char_test(s.get_char(i))
        invariant
            pos <= i <= n,
            n == s@.len(),
            digits_end(s@, pos as int) == digits_end(s@, i as int),
            forall|j: int| pos <= j < i ==> is_digit(#[trigger] s@[j]),
        decreases n - i,
    {
        i = i + 1;
    }
    i
}

/// Skip whitespace starting at `pos`.
fn skip_ws(s: &str, pos: usize) -> (e: usize)
    requires
        pos <= s@.len(),
    ensures
        e == ws_end(s@, pos as int),
        pos <= e <= s@.len(),
{
    let n = s.unicode_len();
    let mut i = pos;
    while i < n && space_char(s.get_char(i))
        invariant
            pos <= i <= n,
            n == s@.len(),
            ws_end(s@, pos as int) == ws_end(s@, i as int),
        decreases n - i,
    {
        i = i + 1;
    }
    i
}

/// Find the end of the alphanumeric run starting at `pos`.
fn scan_alnum(s: &str, pos: usize) -> (e: usize)
    requires
        pos <= s@.len(),
    ensures
        e == alnum_end(s@, pos as int),
        pos <= e <= s@.len(),
{
    let n = s.unicode_len();
    let mut i = pos;
    while i < n && alnum_char(s.get_char(i))
        invariant
            pos <= i <= n,
            n == s@.len(),
            alnum_end(s@, pos as int) == alnum_end(s@, i as int),
        decreases n - i,
    {
        i = i + 1;
    }
    i
}

/// Find the first `}` at or after `pos`.
fn scan_body(s: &str, pos: usize) -> (e: usize)
    requires
        pos <= s@.len(),
    ensures
        e == body_end(s@, pos as int),
        pos <= e <= s@.len(),
{
    let n = s.unicode_len();
    let mut i = pos;
    while i < n && !brace_char(s.get_char(i))
        invariant
            pos <= i <= n,
            n == s@.len(),
            body_end(s@, pos as int) == body_end(s@, i as int),
        decreases n - i,
    {
        i = i + 1;
    }
    i
}

/// Does the word `w` occur in `s` at `pos`?
fn match_at(s: &str, pos: usize, w: &str) -> (b: bool)
    requires
        pos <= s@.len(),
    ensures
        b == matches_at(s@, pos as int, w@),
{
    let wn = w.unicode_len();
    let n = s.unicode_len();
    if n - pos < wn {
        return false;
    }
    let mut i: usize = 0;
    while i < wn
        invariant
            0 <= i <= wn,
            wn == w@.len(),
            n == s@.len(),
            pos + wn <= n,
            forall|j: int| 0 <= j < i ==> s@[pos + j] == w@[j],
        decreases wn - i,
    {
        if s.get_char(pos + i) != w.get_char(i) {
            return false;
        }
        i = i + 1;
    }
    true
}

// ---------------------------------------------------------------------------
// Digit runs.
// ---------------------------------------------------------------------------
/// The value of a digit run is nonnegative and grows with its length.
proof fn lemma_digits_val_grows(s: Seq<char>, lo: int, mid: int, hi: int)
    requires
        lo <= mid <= hi <= s.len(),
        0 <= lo,
        forall|i: int| lo <= i < hi ==> is_digit(#[trigger] s[i]),
    ensures
        0 <= digits_val(s, lo, mid) <= digits_val(s, lo, hi),
    decreases hi - mid,
{
    if mid == hi {
        lemma_digits_val_nonneg(s, lo, hi);
    } else {
        lemma_digits_val_grows(s, lo, mid, hi - 1);
        lemma_digits_val_nonneg(s, lo, hi - 1);
    }
}

/// The value of a digit run is nonnegative.
proof fn lemma_digits_val_nonneg(s: Seq<char>, lo: int, hi: int)
    requires
        0 <= lo,
        hi <= s.len(),
        forall|i: int| lo <= i < hi ==> is_digit(#[trigger] s[i]),
    ensures
        digits_val(s, lo, hi) >= 0,
    decreases hi - lo,
{
    if lo < hi {
        lemma_digits_val_nonneg(s, lo, hi - 1);
    }
}

/// Read the value of the digit run `s[lo..hi)` as an `i64`, or report that
/// it does not fit.
fn digits_to_i64(s: &str, lo: usize, hi: usize) -> (r: Option<i64>)
    requires
        lo <= hi <= s@.len(),
        forall|i: int| lo <= i < hi ==> is_digit(#[trigger] s@[i]),
    ensures
        (match r {
            Some(v) => v as int == digits_val(s@, lo as int, hi as int) && v >= 0,
            None => digits_val(s@, lo as int, hi as int) > i64::MAX,
        }),
{
    let mut acc: i64 = 0;
    let mut i = lo;
    proof {
        lemma_digits_val_nonneg(s@, lo as int, hi as int);
    }
    while i < hi
        invariant
            lo <= i <= hi <= s@.len(),
            forall|j: int| lo <= j < hi ==> is_digit(#[trigger] s@[j]),
            0 <= acc,
            acc as int == digits_val(s@, lo as int, i as int),
        decreases hi - i,
    {
        let c = s.get_char(i);
        let d: i64 = (((c as u32) - ('0' as u32)) as u8) as i64;
        proof {
            assert(is_digit(s@[i as int]));
            assert(0 <= d < 10);
            assert(d as int == digit_val(s@[i as int]));
        }
        if acc > (i64::MAX - d) / 10 {
            proof {
                assert(acc as int * 10 + d as int > i64::MAX) by (nonlinear_arith)
                    requires
                        acc as int > (i64::MAX - d as int) / 10,
                        0 <= d < 10,
                        acc >= 0,
                ;
                assert(digits_val(s@, lo as int, i as int + 1) > i64::MAX);
                lemma_digits_val_grows(s@, lo as int, i as int + 1, hi as int);
            }
            return None;
        }
        proof {
            assert(acc as int * 10 + d as int <= i64::MAX) by (nonlinear_arith)
                requires
                    acc as int <= (i64::MAX - d as int) / 10,
                    0 <= d < 10,
                    acc >= 0,
            ;
        }
        acc = acc * 10 + d;
        i = i + 1;
    }
    Some(acc)
}

// ---------------------------------------------------------------------------
// The parser proper.
// ---------------------------------------------------------------------------
/// One parsed branch of a plural construct.
enum PluralPart {
    /// An exact-value override.
    Literal(i64, Message),
    /// The `one` category.
    One(Message),
    /// The mandatory default.
    Other(Message),
}

/// The view of a parsed plural branch.
spec fn pp_view(p: PluralPart) -> PluralPartV {
    match p {
        PluralPart::Literal(c, m) => PluralPartV::Lit(c as int, msg_view(m)),
        PluralPart::One(m) => PluralPartV::One(msg_view(m)),
        PluralPart::Other(m) => PluralPartV::Other(msg_view(m)),
    }
}

/// The views of parsed select branches, in order.
spec fn sel_parts_view(ps: Seq<(String, Message)>) -> Seq<(Seq<char>, MessageV)>
    decreases ps,
{
    if ps.len() == 0 {
        Seq::empty()
    } else {
        seq![(ps[0].0@, msg_view(ps[0].1))] + sel_parts_view(ps.drop_first())
    }
}

/// `simple := "{" varName "}"`.
fn parse_simple(s: &str, pos: usize) -> (r: Option<(usize, SimpleFormat)>)
    requires
        pos <= s@.len(),
    ensures
        (match r {
            Some(p) => p_simple(s@, pos as int) == Some((p.0 as int, p.1.variable_name@)) && pos
                < p.0 <= s@.len(),
            None => p_simple(s@, pos as int) is None,
        }),
{
    let n = s.unicode_len();
    if pos < n && s.get_char(pos) == '{' {
        let ne = scan_name(s, pos + 1);
        if ne > pos + 1 && ne < n && s.get_char(ne) == '}' {
            let f = SimpleFormat::new(s.substring_char(pos + 1, ne));
            Some((ne + 1, f))
        } else {
            None
        }
    } else {
        None
    }
}

/// `subMessage := "{" message "}"`.
fn parse_submessage(s: &str, pos: usize) -> (r: Option<(usize, Message)>)
    requires
        pos <= s@.len(),
    ensures
        (match r {
            Some(p) => p_submessage(s@, pos as int) == Some((p.0 as int, p.1@)) && pos < p.0
                <= s@.len(),
            None => p_submessage(s@, pos as int) is None,
        }),
    decreases s@.len() - pos, 0int,
{
    let n = s.unicode_len();
    if pos < n && s.get_char(pos) == '{' {
        let e = scan_body(s, pos + 1);
        if e > pos + 1 && e < n {
            let body = s.substring_char(pos + 1, e);
            match parse_message(body, 0) {
                Some((_, m)) => Some((e + 1, m)),
                None => None,
            }
        } else {
            None
        }
    } else {
        None
    }
}

/// `pluralPart := "=" integer subMessage`.
fn parse_plural_literal(s: &str, pos: usize) -> (r: Option<(usize, PluralPart)>)
    requires
        pos <= s@.len(),
    ensures
        (match r {
            Some(p) => p_plural_literal(s@, pos as int) == Some((p.0 as int, pp_view(p.1))) && pos
                < p.0 <= s@.len(),
            None => p_plural_literal(s@, pos as int) is None,
        }),
    decreases s@.len() - pos, 1int,
{
    let n = s.unicode_len();
    if pos < n && s.get_char(pos) == '=' {
        let de = scan_digits(s, pos + 1);
        if de > pos + 1 {
            match digits_to_i64(s, pos + 1, de) {
                Some(v) => {
                    let w = skip_ws(s, de);
                    if pos <= w && w <= n {
                        match parse_submessage(s, w) {
                            Some((p2, m)) => {
                                let e = skip_ws(s, p2);
                                Some((e, PluralPart::Literal(v, m)))
                            },
                            None => None,
                        }
                    } else {
                        None
                    }
                },
                None => None,
            }
        } else {
            None
        }
    } else {
        None
    }
}

/// `pluralPart := categoryKeyword subMessage`.
fn parse_plural_cat(s: &str, pos: usize, kw: &str) -> (r: Option<(usize, Message)>)
    requires
        pos <= s@.len(),
    ensures
        (match r {
            Some(p) => p_plural_cat(s@, pos as int, kw@) == Some((p.0 as int, p.1@)) && pos < p.0
                <= s@.len(),
            None => p_plural_cat(s@, pos as int, kw@) is None,
        }),
    decreases s@.len() - pos, 1int,
{
    let n = s.unicode_len();
    let w1 = skip_ws(s, pos);
    if match_at(s, w1, kw) {
        let w2 = skip_ws(s, w1 + kw.unicode_len());
        if pos <= w2 && w2 <= n {
            match parse_submessage(s, w2) {
                Some((p2, m)) => {
                    let e = skip_ws(s, p2);
                    Some((e, m))
                },
                None => None,
            }
        } else {
            None
        }
    } else {
        None
    }
}

/// One plural branch: an exact override, `one`, or `other`, in that order.
fn parse_plural_part(s: &str, pos: usize) -> (r: Option<(usize, PluralPart)>)
    requires
        pos <= s@.len(),
    ensures
        (match r {
            Some(p) => p_plural_part(s@, pos as int) == Some((p.0 as int, pp_view(p.1))) && pos
                < p.0 <= s@.len(),
            None => p_plural_part(s@, pos as int) is None,
        }),
    decreases s@.len() - pos, 2int,
{
    match parse_plural_literal(s, pos) {
        Some(p) => Some(p),
        None => {
            proof {
                reveal_strlit("one");
                assert("one"@ =~= kw_one());
            }
            match parse_plural_cat(s, pos, "one") {
                Some((e, m)) => Some((e, PluralPart::One(m))),
                None => {
                    proof {
                        reveal_strlit("other");
                        assert("other"@ =~= kw_other());
                    }
                    match parse_plural_cat(s, pos, "other") {
                        Some((e, m)) => Some((e, PluralPart::Other(m))),
                        None => None,
                    }
                },
            }
        },
    }
}

/// Parse plural branches while they last, folding them into the overrides,
/// the `one` category and the default as the grammar's fold describes.  The
/// boolean tells whether at least one branch parsed.
fn parse_plural_fold(s: &str, pos: usize) -> (r: (
    usize,
    (Vec<(i64, Message)>, Option<Message>, Option<Message>),
    bool,
))
    requires
        pos <= s@.len(),
    ensures
        ({
            let pr = p_plural_parts(s@, pos as int);
            let f = plural_fold(pr.1);
            &&& pr.0 == r.0 as int
            &&& lits_view(r.1.0@) == f.0
            &&& opt_view(r.1.1) == f.1
            &&& opt_view(r.1.2) == f.2
            &&& r.2 == (pr.1.len() > 0)
            &&& pos <= r.0 <= s@.len()
        }),
    decreases s@.len() - pos, 3int,
{
    let n = s.unicode_len();
    match parse_plural_part(s, pos) {
        Some((p2, part)) => {
            if pos < p2 && p2 <= n {
                let rec = parse_plural_fold(s, p2);
                let e = rec.0;
                let (mut lits, mut one, mut other) = rec.1;
                proof {
                    assert((seq![pp_view(part)] + p_plural_parts(s@, p2 as int).1).drop_first()
                        =~= p_plural_parts(s@, p2 as int).1);
                }
                match part {
                    PluralPart::Literal(c, m) => {
                        let ghost prev = lits@;
                        lits.insert(0, (c, m));
                        proof {
                            assert(lits@.drop_first() =~= prev);
                            assert(lits_view(lits@) =~= seq![
                                (lits@[0].0 as int, msg_view(lits@[0].1)),
                            ] + lits_view(prev));
                        }
                    },
                    PluralPart::One(m) => {
                        if one.is_none() {
                            one = Some(m);
                        }
                    },
                    PluralPart::Other(m) => {
                        other = Some(m);
                    },
                }
                (e, (lits, one, other), true)
            } else {
                (pos, (Vec::new(), None, None), false)
            }
        },
        None => (pos, (Vec::new(), None, None), false),
    }
}

/// The inside of a plural construct, after the opening brace.
fn parse_plural_inner(s: &str, pos: usize) -> (r: Option<(usize, PluralFormat)>)
    requires
        pos <= s@.len(),
    ensures
        (match r {
            Some(p) => p_plural_inner(s@, pos as int) == Some((p.0 as int, plural_view(p.1)))
                && pos <= p.0 <= s@.len(),
            None => p_plural_inner(s@, pos as int) is None,
        }),
    decreases s@.len() - pos, 4int,
{
    let n = s.unicode_len();
    let ne = scan_name(s, pos);
    if ne > pos && ne < n && s.get_char(ne) == ',' {
        let w1 = skip_ws(s, ne + 1);
        proof {
            reveal_strlit("plural");
            assert("plural"@ =~= kw_plural());
        }
        if match_at(s, w1, "plural") {
            let w2 = skip_ws(s, w1 + 6);
            if w2 < n && s.get_char(w2) == ',' {
                let w3 = skip_ws(s, w2 + 1);
                if pos <= w3 && w3 <= n {
                    let rec = parse_plural_fold(s, w3);
                    let e = rec.0;
                    let (lits, one, other_opt) = rec.1;
                    let any = rec.2;
                    if any {
                        match other_opt {
                            Some(other) => {
                                let f = PluralFormat {
                                    variable_name: s.substring_char(pos, ne).to_owned(),
                                    literals: lits,
                                    zero: None,
                                    one,
                                    two: None,
                                    few: None,
                                    many: None,
                                    other,
                                };
                                Some((e, f))
                            },
                            None => None,
                        }
                    } else {
                        None
                    }
                } else {
                    None
                }
            } else {
                None
            }
        } else {
            None
        }
    } else {
        None
    }
}

/// `plural := "{" varName "," "plural" "," pluralPart+ "}"`.
fn parse_plural(s: &str, pos: usize) -> (r: Option<(usize, PluralFormat)>)
    requires
        pos <= s@.len(),
    ensures
        (match r {
            Some(p) => p_plural(s@, pos as int) == Some((p.0 as int, plural_view(p.1))) && pos
                < p.0 <= s@.len(),
            None => p_plural(s@, pos as int) is None,
        }),
    decreases s@.len() - pos, 1int,
{
    let n = s.unicode_len();
    if pos < n && s.get_char(pos) == '{' {
        match parse_plural_inner(s, pos + 1) {
            Some((e, f)) => {
                if e < n && s.get_char(e) == '}' {
                    Some((e + 1, f))
                } else {
                    None
                }
            },
            None => None,
        }
    } else {
        None
    }
}

/// `selectPart := matchToken subMessage`.
fn parse_select_match(s: &str, pos: usize) -> (r: Option<(usize, (String, Message))>)
    requires
        pos <= s@.len(),
    ensures
        (match r {
            Some(p) => p_select_match(s@, pos as int) == Some(
                (p.0 as int, (p.1.0@, msg_view(p.1.1))),
            ) && pos < p.0 <= s@.len(),
            None => p_select_match(s@, pos as int) is None,
        }),
    decreases s@.len() - pos, 2int,
{
    let n = s.unicode_len();
    let w1 = skip_ws(s, pos);
    let ae = scan_alnum(s, w1);
    if w1 < ae {
        let w2 = skip_ws(s, ae);
        if pos <= w2 && w2 <= n {
            match parse_submessage(s, w2) {
                Some((p2, m)) => {
                    let e = skip_ws(s, p2);
                    let tok = s.substring_char(w1, ae).to_owned();
                    Some((e, (tok, m)))
                },
                None => None,
            }
        } else {
            None
        }
    } else {
        None
    }
}

/// Parse select branches while they last, in order.
fn parse_select_parts(s: &str, pos: usize) -> (r: (usize, Vec<(String, Message)>))
    requires
        pos <= s@.len(),
    ensures
        p_select_parts(s@, pos as int) == (r.0 as int, sel_parts_view(r.1@)),
        pos <= r.0 <= s@.len(),
    decreases s@.len() - pos, 3int,
{
    let n = s.unicode_len();
    match parse_select_match(s, pos) {
        Some((p2, part)) => {
            if pos < p2 && p2 <= n {
                let (e, mut rest) = parse_select_parts(s, p2);
                let ghost prev = rest@;
                rest.insert(0, part);
                proof {
                    assert(rest@.drop_first() =~= prev);
                    assert(sel_parts_view(rest@) =~= seq![(rest@[0].0@, msg_view(rest@[0].1))]
                        + sel_parts_view(prev));
                }
                (e, rest)
            } else {
                (pos, Vec::new())
            }
        },
        None => (pos, Vec::new()),
    }
}

/// Split parsed select branches into the mappings and the default: the
/// first branch named `other` is the default, everything else stays a
/// mapping, in order.
fn select_from_parts(parts: Vec<(String, Message)>) -> (r: Option<(Vec<SelectMapping>, Message)>)
    ensures
        ({
            let f = select_fold(sel_parts_view(parts@));
            match r {
                Some(p) => f.1 is Some && mappings_view(p.0@) == f.0 && msg_view(p.1) == f.1->0,
                None => f.1 is None,
            }
        }),
    decreases parts@.len(),
{
    let mut parts = parts;
    if parts.len() == 0 {
        None
    } else {
        let ghost orig = parts@;
        let head = parts.remove(0);
        proof {
            assert(parts@ =~= orig.drop_first());
            assert(sel_parts_view(orig) =~= seq![(orig[0].0@, msg_view(orig[0].1))]
                + sel_parts_view(orig.drop_first()));
        }
        let other_key: String = "other".to_owned();
        proof {
            reveal_strlit("other");
            assert(other_key@ =~= kw_other());
        }
        if head.0 == other_key {
            let mut ms: Vec<SelectMapping> = Vec::new();
            let mut rest = parts;
            let ghost tail0 = rest@;
            proof {
                assert(mappings_view(ms@) + sel_parts_view(rest@) =~= sel_parts_view(tail0));
            }
            while rest.len() > 0
                invariant
                    mappings_view(ms@) + sel_parts_view(rest@) == sel_parts_view(tail0),
                decreases rest@.len(),
            {
                let ghost msprev = ms@;
                let ghost rprev = rest@;
                let p = rest.remove(0);
                ms.push(SelectMapping { value: p.0, message: p.1 });
                proof {
                    crate::model::lemma_mappings_view_push(msprev, ms@.last());
                    assert(rest@ =~= rprev.drop_first());
                    assert(sel_parts_view(rprev) =~= seq![(rprev[0].0@, msg_view(rprev[0].1))]
                        + sel_parts_view(rprev.drop_first()));
                    assert(mappings_view(ms@) + sel_parts_view(rest@) =~= mappings_view(msprev)
                        + sel_parts_view(rprev));
                }
            }
            proof {
                assert(sel_parts_view(rest@) =~= Seq::<(Seq<char>, MessageV)>::empty());
                assert(mappings_view(ms@) =~= mappings_view(ms@) + sel_parts_view(rest@));
                assert(sel_parts_view(orig)[0] == (orig[0].0@, msg_view(orig[0].1)));
                assert(sel_parts_view(orig)[0].0 == kw_other());
                assert(select_fold(sel_parts_view(orig)) == (
                    sel_parts_view(orig).drop_first(),
                    Some(sel_parts_view(orig)[0].1),
                ));
                assert(sel_parts_view(orig).drop_first() =~= sel_parts_view(tail0));
                assert(mappings_view(ms@) == sel_parts_view(tail0));
            }
            Some((ms, head.1))
        } else {
            proof {
                assert(sel_parts_view(orig)[0] == (orig[0].0@, msg_view(orig[0].1)));
                assert(sel_parts_view(orig)[0].0 != kw_other());
                assert(select_fold(sel_parts_view(orig)) == (
                    seq![sel_parts_view(orig)[0]] + select_fold(
                        sel_parts_view(orig).drop_first(),
                    ).0,
                    select_fold(sel_parts_view(orig).drop_first()).1,
                ));
                assert(sel_parts_view(orig).drop_first() == sel_parts_view(parts@));
            }
            match select_from_parts(parts) {
                Some((ms, d)) => {
                    let mut ms = ms;
                    let ghost msprev = ms@;
                    ms.insert(0, SelectMapping { value: head.0, message: head.1 });
                    proof {
                        assert(ms@.drop_first() =~= msprev);
                        assert(ms@[0] == (SelectMapping { value: orig[0].0, message: orig[0].1 }));
                        assert(mappings_view(ms@) =~= seq![(ms@[0].value@, msg_view(ms@[0].message))]
                            + mappings_view(msprev));
                        assert(mappings_view(ms@) =~= seq![sel_parts_view(orig)[0]] + select_fold(
                            sel_parts_view(orig).drop_first(),
                        ).0);
                    }
                    Some((ms, d))
                },
                None => None,
            }
        }
    }
}

/// The inside of a select construct, after the opening brace.
fn parse_select_inner(s: &str, pos: usize) -> (r: Option<(usize, SelectFormat)>)
    requires
        pos <= s@.len(),
    ensures
        (match r {
            Some(p) => p_select_inner(s@, pos as int) == Some((p.0 as int, select_view(p.1)))
                && pos <= p.0 <= s@.len(),
            None => p_select_inner(s@, pos as int) is None,
        }),
    decreases s@.len() - pos, 4int,
{
    let n = s.unicode_len();
    let ne = scan_name(s, pos);
    if ne > pos && ne < n && s.get_char(ne) == ',' {
        let w1 = skip_ws(s, ne + 1);
        proof {
            reveal_strlit("select");
            assert("select"@ =~= kw_select());
        }
        if match_at(s, w1, "select") {
            let w2 = skip_ws(s, w1 + 6);
            if w2 < n && s.get_char(w2) == ',' {
                let w3 = skip_ws(s, w2 + 1);
                if pos <= w3 && w3 <= n {
                    let (e, parts) = parse_select_parts(s, w3);
                    if parts.len() == 0 {
                        proof {
                            assert(sel_parts_view(parts@).len() == 0);
                        }
                        None
                    } else {
                        proof {
                            assert(sel_parts_view(parts@).len() > 0);
                        }
                        match select_from_parts(parts) {
                            Some((ms, d)) => {
                                let f = SelectFormat {
                                    variable_name: s.substring_char(pos, ne).to_owned(),
                                    mappings: ms,
                                    default: d,
                                };
                                Some((e, f))
                            },
                            None => None,
                        }
                    }
                } else {
                    None
                }
            } else {
                None
            }
        } else {
            None
        }
    } else {
        None
    }
}

/// `select := "{" varName "," "select" "," selectPart+ "}"`.
fn parse_select(s: &str, pos: usize) -> (r: Option<(usize, SelectFormat)>)
    requires
        pos <= s@.len(),
    ensures
        (match r {
            Some(p) => p_select(s@, pos as int) == Some((p.0 as int, select_view(p.1))) && pos
                < p.0 <= s@.len(),
            None => p_select(s@, pos as int) is None,
        }),
    decreases s@.len() - pos, 1int,
{
    let n = s.unicode_len();
    if pos < n && s.get_char(pos) == '{' {
        match parse_select_inner(s, pos + 1) {
            Some((e, f)) => {
                if e < n && s.get_char(e) == '}' {
                    Some((e + 1, f))
                } else {
                    None
                }
            },
            None => None,
        }
    } else {
        None
    }
}

/// One part, by the fixed priority order: placeholder, simple, plural,
/// select, literal text.
fn parse_part(s: &str, pos: usize) -> (r: Option<(usize, MessagePart)>)
    requires
        pos <= s@.len(),
    ensures
        (match r {
            Some(p) => p_part(s@, pos as int) == Some((p.0 as int, crate::model::part_view(p.1)))
                && pos < p.0 <= s@.len(),
            None => p_part(s@, pos as int) is None,
        }),
    decreases s@.len() - pos, 2int,
{
    let n = s.unicode_len();
    if pos < n && s.get_char(pos) == '#' {
        Some((pos + 1, MessagePart::Placeholder(PlaceholderFormat::new())))
    } else {
        match parse_simple(s, pos) {
            Some((e, f)) => Some((e, MessagePart::Simple(f))),
            None => match parse_plural(s, pos) {
                Some((e, f)) => Some((e, MessagePart::Plural(f))),
                None => match parse_select(s, pos) {
                    Some((e, f)) => Some((e, MessagePart::Select(f))),
                    None => {
                        let te = scan_text(s, pos);
                        if te > pos {
                            let t = PlainText::new(s.substring_char(pos, te));
                            Some((te, MessagePart::Text(t)))
                        } else {
                            None
                        }
                    },
                },
            },
        }
    }
}

/// As many parts as will parse, in order.
fn parse_parts(s: &str, pos: usize) -> (r: (usize, Vec<MessagePart>))
    requires
        pos <= s@.len(),
    ensures
        p_parts(s@, pos as int) == (r.0 as int, parts_view(r.1@)),
        pos <= r.0 <= s@.len(),
    decreases s@.len() - pos, 3int,
{
    let n = s.unicode_len();
    match parse_part(s, pos) {
        Some((p2, part)) => {
            if pos < p2 && p2 <= n {
                let (e, mut rest) = parse_parts(s, p2);
                let ghost prev = rest@;
                rest.insert(0, part);
                proof {
                    assert(rest@.drop_first() =~= prev);
                    assert(parts_view(rest@) =~= seq![crate::model::part_view(rest@[0])]
                        + parts_view(prev));
                }
                (e, rest)
            } else {
                (pos, Vec::new())
            }
        },
        None => (pos, Vec::new()),
    }
}

/// `message := part+`.
fn parse_message(s: &str, pos: usize) -> (r: Option<(usize, Message)>)
    requires
        pos <= s@.len(),
    ensures
        (match r {
            Some(p) => p_message(s@, pos as int) == Some((p.0 as int, p.1@)) && pos <= p.0
                <= s@.len(),
            None => p_message(s@, pos as int) is None,
        }),
    decreases s@.len() - pos, 4int,
{
    let (e, parts) = parse_parts(s, pos);
    proof {
        crate::model::lemma_parts_view_len(parts@);
    }
    if parts.len() == 0 {
        None
    } else {
        Some((e, Message::new(parts)))
    }
}

// ---------------------------------------------------------------------------
// The public parsing interface.
// ---------------------------------------------------------------------------
/// Parse a whole template and return its [`Message`] tree.
///
/// The template parses successfully exactly when the grammar recognizes a
/// message covering all of the input; anything else — an unterminated
/// construct, a plural or select without its mandatory `other` case, an
/// exact override too large for an `i64`, or trailing text the grammar
/// cannot take — is one opaque [`ParseError`].
pub fn parse(message: &str) -> (r: Result<Message, ParseError>)
    ensures
        (match r {
            Ok(m) => p_message(message@, 0) == Some((message@.len() as int, m@)),
            Err(_) => (match p_message(message@, 0) {
                Some(pr) => pr.0 != message@.len(),
                None => true,
            }),
        }),
{
    let n = message.unicode_len();
    match parse_message(message, 0) {
        Some((e, m)) => {
            if e == n {
                Ok(m)
            } else {
                Err(ParseError::NotImplemented)
            }
        },
        None => Err(ParseError::NotImplemented),
    }
}

/// Parse a leading message and hand back the unconsumed rest of the input
/// beside it.
pub fn message_parser<'a>(s: &'a str) -> (r: Result<(&'a str, Message), ParseError>)
    ensures
        (match r {
            Ok(p) => (match p_message(s@, 0) {
                Some(pr) => p.1@ == pr.1 && p.0@ == s@.subrange(pr.0, s@.len() as int),
                None => false,
            }),
            Err(_) => p_message(s@, 0) is None,
        }),
{
    match parse_message(s, 0) {
        Some((e, m)) => {
            let rest = s.substring_char(e, s.unicode_len());
            Ok((rest, m))
        },
        None => Err(ParseError::NotImplemented),
    }
}

/// Parse one-or-more parts and hand back the unconsumed rest of the input
/// beside them.
pub fn message_parts<'a>(s: &'a str) -> (r: Result<(&'a str, Vec<MessagePart>), ParseError>)
    ensures
        (match r {
            Ok(p) => ({
                let pr = p_parts(s@, 0);
                pr.1.len() > 0 && parts_view(p.1@) == pr.1 && p.0@ == s@.subrange(
                    pr.0,
                    s@.len() as int,
                )
            }),
            Err(_) => p_parts(s@, 0).1.len() == 0,
        }),
{
    let (e, parts) = parse_parts(s, 0);
    proof {
        crate::model::lemma_parts_view_len(parts@);
    }
    if parts.len() == 0 {
        Err(ParseError::NotImplemented)
    } else {
        let rest = s.substring_char(e, s.unicode_len());
        Ok((rest, parts))
    }
}

/// Parse a simple format, `"{" varName "}"`, at the start of the input, and
/// hand back the unconsumed rest beside it.
pub fn simple_format<'a>(s: &'a str) -> (r: Result<(&'a str, MessagePart), ParseError>)
    ensures
        (match r {
            Ok(p) => (match p_simple(s@, 0) {
                Some(pr) => crate::model::part_view(p.1) == crate::model::PartV::Simple(pr.1)
                    && p.0@ == s@.subrange(pr.0, s@.len() as int),
                None => false,
            }),
            Err(_) => p_simple(s@, 0) is None,
        }),
{
    match parse_simple(s, 0) {
        Some((e, f)) => {
            let rest = s.substring_char(e, s.unicode_len());
            Ok((rest, MessagePart::Simple(f)))
        },
        None => Err(ParseError::NotImplemented),
    }
}

/// Parse a run of literal text at the start of the input, and hand back the
/// unconsumed rest beside it.
pub fn plain_text<'a>(s: &'a str) -> (r: Result<(&'a str, MessagePart), ParseError>)
    ensures
        (match r {
            Ok(p) => text_end(s@, 0) > 0 && crate::model::part_view(p.1)
                == crate::model::PartV::Text(s@.subrange(0, text_end(s@, 0))) && p.0@
                == s@.subrange(text_end(s@, 0), s@.len() as int),
            Err(_) => text_end(s@, 0) == 0,
        }),
{
    let te = scan_text(s, 0);
    if te > 0 {
        let t = PlainText::new(s.substring_char(0, te));
        let rest = s.substring_char(te, s.unicode_len());
        Ok((rest, MessagePart::Text(t)))
    } else {
        Err(ParseError::NotImplemented)
    }
}

} // verus!
