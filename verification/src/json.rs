//! JSON values, a specification-level grammar, and a parser proved against
//! it.
//!
//! [`sp_json`] defines which character sequences are well-formed JSON texts
//! and what value they denote; [`parse_json`] is the executable parser,
//! proved to return exactly what the grammar says.  Numbers keep their exact
//! value when they are integers in `i64` range; any other number (a
//! fraction, an exponent, or an overflowing integer) is kept as
//! [`JsonValue::NumOther`], which no record field accepts.

use vstd::prelude::*;

use crate::text::{char_from_u32, chars_to_string, digit_val, is_digit};

verus! {

broadcast use vstd::std_specs::vec::group_vec_axioms;

/// A parsed JSON value.
pub enum JsonValue {
    Null,
    Bool(bool),
    /// A number written as an integer in `i64` range.
    Int(i64),
    /// Any other number: fraction, exponent, or out of `i64` range.
    NumOther,
    Str(String),
    Arr(Vec<JsonValue>),
    Obj(Vec<(String, JsonValue)>),
}

/// The mathematical shape of a JSON value.
pub enum Jv {
    Null,
    Bool(bool),
    Int(int),
    NumOther,
    Str(Seq<char>),
    Arr(Seq<Jv>),
    Obj(Seq<(Seq<char>, Jv)>),
}

/// The mathematical value a [`JsonValue`] stands for.
pub open spec fn jv_of(v: JsonValue) -> Jv
    decreases v,
{
    match v {
        JsonValue::Null => Jv::Null,
        JsonValue::Bool(b) => Jv::Bool(b),
        JsonValue::Int(n) => Jv::Int(n as int),
        JsonValue::NumOther => Jv::NumOther,
        JsonValue::Str(s) => Jv::Str(s@),
        JsonValue::Arr(a) => Jv::Arr(jv_of_seq(a@)),
        JsonValue::Obj(o) => Jv::Obj(jv_of_fields(o@)),
    }
}

pub open spec fn jv_of_seq(a: Seq<JsonValue>) -> Seq<Jv>
    decreases a,
{
    if a.len() == 0 {
        Seq::empty()
    } else {
        jv_of_seq(a.drop_last()) + seq![jv_of(a.last())]
    }
}

pub open spec fn jv_of_fields(o: Seq<(String, JsonValue)>) -> Seq<(Seq<char>, Jv)>
    decreases o,
{
    if o.len() == 0 {
        Seq::empty()
    } else {
        jv_of_fields(o.drop_last()) + seq![(o.last().0@, jv_of(o.last().1))]
    }
}

pub proof fn lemma_jv_of_seq_props(a: Seq<JsonValue>)
    ensures
        jv_of_seq(a).len() == a.len(),
        forall|k: int| 0 <= k < a.len() ==> jv_of_seq(a)[k] == jv_of(a[k]),
    decreases a.len(),
{
    if a.len() > 0 {
        lemma_jv_of_seq_props(a.drop_last());
    }
}

pub proof fn lemma_jv_of_fields_props(o: Seq<(String, JsonValue)>)
    ensures
        jv_of_fields(o).len() == o.len(),
        forall|k: int|
            0 <= k < o.len() ==> jv_of_fields(o)[k] == (o[k].0@, jv_of(o[k].1)),
    decreases o.len(),
{
    if o.len() > 0 {
        lemma_jv_of_fields_props(o.drop_last());
    }
}

// ---------------------------------------------------------------------------
// The grammar
// ---------------------------------------------------------------------------

/// JSON insignificant whitespace.
pub open spec fn is_ws(c: char) -> bool {
    c == ' ' || c == '\t' || c == '\n' || c == '\r'
}

/// Characters remaining from position `i`; the termination measure of the
/// grammar functions.
pub open spec fn rem(s: Seq<char>, i: int) -> int {
    if i <= s.len() {
        s.len() - i
    } else {
        0
    }
}

/// `j`, but never below `lo`.  Positions returned by the grammar functions
/// always move forward, so in every reachable use this is `j` itself; it
/// keeps the forward motion evident for the termination measure.
pub open spec fn at_least(lo: int, j: int) -> int {
    if j >= lo {
        j
    } else {
        lo
    }
}

/// First position at or after `i` holding no whitespace.
pub open spec fn sp_skip_ws(s: Seq<char>, i: int) -> int
    decreases rem(s, i),
{
    if 0 <= i < s.len() && is_ws(s[i]) {
        sp_skip_ws(s, i + 1)
    } else {
        i
    }
}

/// Value of a hexadecimal digit, or 16 for any other character.
pub open spec fn hex_val(c: char) -> int {
    let u = (c as u32) as int;
    if 48 <= u <= 57 {
        u - 48
    } else if 97 <= u <= 102 {
        u - 87
    } else if 65 <= u <= 70 {
        u - 55
    } else {
        16
    }
}

/// Whether four hexadecimal digits start at `i`.
pub open spec fn hex4_ok(s: Seq<char>, i: int) -> bool {
    i + 4 <= s.len() && hex_val(s[i]) < 16 && hex_val(s[i + 1]) < 16 && hex_val(s[i + 2]) < 16
        && hex_val(s[i + 3]) < 16
}

/// Value of the four hexadecimal digits starting at `i`.
pub open spec fn hex4_val(s: Seq<char>, i: int) -> int {
    hex_val(s[i]) * 0x1000 + hex_val(s[i + 1]) * 0x100 + hex_val(s[i + 2]) * 0x10 + hex_val(
        s[i + 3],
    )
}

/// Parses the body of a string literal from `i` (just after the opening
/// quote) to just after the closing quote: plain characters, short escapes,
/// and `\uXXXX` escapes with surrogate pairs for characters beyond the
/// basic plane.  Unescaped control characters, lone surrogates and an
/// unterminated literal are errors.
pub open spec fn sp_string_body(s: Seq<char>, i: int) -> Option<(Seq<char>, int)>
    decreases rem(s, i),
{
    if !(0 <= i < s.len()) {
        None
    } else {
        let c = s[i];
        if c == '"' {
            Some((Seq::empty(), i + 1))
        } else if c == '\\' {
            if i + 1 >= s.len() {
                None
            } else {
                let e = s[i + 1];
                if e == '"' || e == '\\' || e == '/' {
                    match sp_string_body(s, i + 2) {
                        None => None,
                        Some((t, j)) => Some((seq![e] + t, j)),
                    }
                } else if e == 'b' || e == 'f' || e == 'n' || e == 'r' || e == 't' {
                    let d = if e == 'b' {
                        '\u{8}'
                    } else if e == 'f' {
                        '\u{c}'
                    } else if e == 'n' {
                        '\n'
                    } else if e == 'r' {
                        '\r'
                    } else {
                        '\t'
                    };
                    match sp_string_body(s, i + 2) {
                        None => None,
                        Some((t, j)) => Some((seq![d] + t, j)),
                    }
                } else if e == 'u' {
                    if !hex4_ok(s, i + 2) {
                        None
                    } else {
                        let code = hex4_val(s, i + 2);
                        if 0xd800 <= code < 0xdc00 {
                            if !(i + 8 <= s.len() && s[i + 6] == '\\' && s[i + 7] == 'u'
                                && hex4_ok(s, i + 8)) {
                                None
                            } else {
                                let lo = hex4_val(s, i + 8);
                                if !(0xdc00 <= lo < 0xe000) {
                                    None
                                } else {
                                    let cp = 0x10000 + (code - 0xd800) * 0x400 + (lo - 0xdc00);
                                    match sp_string_body(s, i + 12) {
                                        None => None,
                                        Some((t, j)) => Some((seq![(cp as u32) as char] + t, j)),
                                    }
                                }
                            }
                        } else if 0xdc00 <= code < 0xe000 {
                            None
                        } else {
                            match sp_string_body(s, i + 6) {
                                None => None,
                                Some((t, j)) => Some((seq![(code as u32) as char] + t, j)),
                            }
                        }
                    }
                } else {
                    None
                }
            }
        } else if (c as u32) < 0x20 {
            None
        } else {
            match sp_string_body(s, i + 1) {
                None => None,
                Some((t, j)) => Some((seq![c] + t, j)),
            }
        }
    }
}

/// Reads decimal digits from `i`, folding them onto `acc`; returns the
/// folded value and the first position holding no digit.
pub open spec fn sp_scan_digits(s: Seq<char>, i: int, acc: int) -> (int, int)
    decreases rem(s, i),
{
    if 0 <= i < s.len() && is_digit(s[i]) {
        sp_scan_digits(s, i + 1, acc * 10 + digit_val(s[i]))
    } else {
        (acc, i)
    }
}

/// Classifies a parsed number: an integral value in `i64` range keeps its
/// value, anything else is kept only as "some other number".
pub open spec fn num_jv(neg: bool, integral: bool, mag: int) -> Jv {
    let v = if neg {
        -mag
    } else {
        mag
    };
    if integral && -0x8000_0000_0000_0000 <= v <= 0x7fff_ffff_ffff_ffff {
        Jv::Int(v)
    } else {
        Jv::NumOther
    }
}

/// Parses an optional exponent part, ending the number.
pub open spec fn sp_exp_part(s: Seq<char>, i: int, neg: bool, integral: bool, mag: int) -> Option<
    (Jv, int),
> {
    if i < s.len() && (s[i] == 'e' || s[i] == 'E') {
        let j = if i + 2 <= s.len() && (s[i + 1] == '+' || s[i + 1] == '-') {
            i + 2
        } else {
            i + 1
        };
        if !(j < s.len() && is_digit(s[j])) {
            None
        } else {
            Some((num_jv(neg, false, mag), sp_scan_digits(s, j, 0).1))
        }
    } else {
        Some((num_jv(neg, integral, mag), i))
    }
}

/// Parses a number at `i`: optional minus, an integer part with no
/// superfluous leading zero, then optional fraction and exponent parts.
pub open spec fn sp_number(s: Seq<char>, i: int) -> Option<(Jv, int)> {
    let neg = 0 <= i < s.len() && s[i] == '-';
    let i0 = if neg {
        i + 1
    } else {
        i
    };
    if !(0 <= i0 < s.len() && is_digit(s[i0])) {
        None
    } else {
        let p1 = if s[i0] == '0' {
            (0int, i0 + 1)
        } else {
            sp_scan_digits(s, i0, 0)
        };
        let mag = p1.0;
        let i1 = p1.1;
        if i1 < s.len() && s[i1] == '.' {
            if !(i1 + 1 < s.len() && is_digit(s[i1 + 1])) {
                None
            } else {
                sp_exp_part(s, sp_scan_digits(s, i1 + 1, 0).1, neg, false, mag)
            }
        } else {
            sp_exp_part(s, i1, neg, true, mag)
        }
    }
}

/// Parses one JSON value starting exactly at `i`.
pub open spec fn sp_value(s: Seq<char>, i: int) -> Option<(Jv, int)>
    decreases rem(s, i), 0int,
{
    if !(0 <= i < s.len()) {
        None
    } else {
        let c = s[i];
        if c == '{' {
            let j = at_least(i + 1, sp_skip_ws(s, i + 1));
            if j < s.len() && s[j] == '}' {
                Some((Jv::Obj(Seq::empty()), j + 1))
            } else {
                match sp_members(s, j) {
                    None => None,
                    Some((fs, k)) => Some((Jv::Obj(fs), k)),
                }
            }
        } else if c == '[' {
            let j = at_least(i + 1, sp_skip_ws(s, i + 1));
            if j < s.len() && s[j] == ']' {
                Some((Jv::Arr(Seq::empty()), j + 1))
            } else {
                match sp_elems(s, j) {
                    None => None,
                    Some((es, k)) => Some((Jv::Arr(es), k)),
                }
            }
        } else if c == '"' {
            match sp_string_body(s, i + 1) {
                None => None,
                Some((t, j)) => Some((Jv::Str(t), j)),
            }
        } else if c == 't' {
            if s.len() - i >= 4 && s[i + 1] == 'r' && s[i + 2] == 'u' && s[i + 3] == 'e' {
                Some((Jv::Bool(true), i + 4))
            } else {
                None
            }
        } else if c == 'f' {
            if i + 5 <= s.len() && s[i + 1] == 'a' && s[i + 2] == 'l' && s[i + 3] == 's' && s[i
                + 4] == 'e' {
                Some((Jv::Bool(false), i + 5))
            } else {
                None
            }
        } else if c == 'n' {
            if s.len() - i >= 4 && s[i + 1] == 'u' && s[i + 2] == 'l' && s[i + 3] == 'l' {
                Some((Jv::Null, i + 4))
            } else {
                None
            }
        } else if c == '-' || is_digit(c) {
            sp_number(s, i)
        } else {
            None
        }
    }
}

/// Parses the members of an object from `i` (after the opening brace or a
/// comma) to just after the closing brace.
pub open spec fn sp_members(s: Seq<char>, i: int) -> Option<(Seq<(Seq<char>, Jv)>, int)>
    decreases rem(s, i), 1int,
{
    let k0 = at_least(i, sp_skip_ws(s, i));
    if !(k0 < s.len() && s[k0] == '"') {
        None
    } else {
        match sp_string_body(s, k0 + 1) {
            None => None,
            Some((key, e0)) => {
                let k1 = at_least(k0 + 2, e0);
                let k2 = at_least(k1, sp_skip_ws(s, k1));
                if !(k2 < s.len() && s[k2] == ':') {
                    None
                } else {
                    let k3 = at_least(k2 + 1, sp_skip_ws(s, k2 + 1));
                    match sp_value(s, k3) {
                        None => None,
                        Some((v, e1)) => {
                            let k4 = at_least(k3 + 1, e1);
                            let k5 = at_least(k4, sp_skip_ws(s, k4));
                            if k5 < s.len() && s[k5] == ',' {
                                match sp_members(s, k5 + 1) {
                                    None => None,
                                    Some((rest, e2)) => Some((seq![(key, v)] + rest, e2)),
                                }
                            } else if k5 < s.len() && s[k5] == '}' {
                                Some((seq![(key, v)], k5 + 1))
                            } else {
                                None
                            }
                        },
                    }
                }
            },
        }
    }
}

/// Parses the elements of an array from `i` (after the opening bracket or a
/// comma) to just after the closing bracket.
pub open spec fn sp_elems(s: Seq<char>, i: int) -> Option<(Seq<Jv>, int)>
    decreases rem(s, i), 1int,
{
    let k0 = at_least(i, sp_skip_ws(s, i));
    if !(k0 < s.len()) {
        None
    } else {
        match sp_value(s, k0) {
            None => None,
            Some((v, e0)) => {
                let k1 = at_least(k0 + 1, e0);
                let k2 = at_least(k1, sp_skip_ws(s, k1));
                if k2 < s.len() && s[k2] == ',' {
                    match sp_elems(s, k2 + 1) {
                        None => None,
                        Some((rest, e1)) => Some((seq![v] + rest, e1)),
                    }
                } else if k2 < s.len() && s[k2] == ']' {
                    Some((seq![v], k2 + 1))
                } else {
                    None
                }
            },
        }
    }
}

/// The value denoted by the whole text `s`, if `s` is a well-formed JSON
/// text: optional whitespace, one value, optional whitespace, end of input.
pub open spec fn sp_json(s: Seq<char>) -> Option<Jv> {
    let i = at_least(0, sp_skip_ws(s, 0));
    match sp_value(s, i) {
        None => None,
        Some((v, j)) => {
            let k = at_least(j, sp_skip_ws(s, j));
            if k >= s.len() {
                Some(v)
            } else {
                None
            }
        },
    }
}

// ---------------------------------------------------------------------------
// The parser
// ---------------------------------------------------------------------------

fn skip_ws(s: &Vec<char>, i: usize) -> (j: usize)
    requires
        i <= s@.len(),
    ensures
        j as int == sp_skip_ws(s@, i as int),
        i <= j <= s@.len(),
{
    let mut j: usize = i;
    while j < s.len() && (s[j] == ' ' || s[j] == '\t' || s[j] == '\n' || s[j] == '\r')
        invariant
            i <= j <= s@.len(),
            sp_skip_ws(s@, i as int) == sp_skip_ws(s@, j as int),
        decreases s@.len() - j,
    {
        j = j + 1;
    }
    j
}

fn is_digit_x(c: char) -> (b: bool)
    ensures
        b == is_digit(c),
{
    let u = c as u32;
    48 <= u && u <= 57
}

fn hex_digit(c: char) -> (d: u32)
    ensures
        d as int == hex_val(c),
{
    let u = c as u32;
    if 48 <= u && u <= 57 {
        u - 48
    } else if 97 <= u && u <= 102 {
        u - 87
    } else if 65 <= u && u <= 70 {
        u - 55
    } else {
        16
    }
}

/// Reads the four hexadecimal digits at `i`, if they are there.
fn hex4(s: &Vec<char>, i: usize) -> (r: Option<u32>)
    requires
        i <= s@.len(),
    ensures
        r matches Some(v) ==> hex4_ok(s@, i as int) && v as int == hex4_val(s@, i as int) && v
            < 0x10000,
        r is None ==> !hex4_ok(s@, i as int),
{
    if s.len() - i < 4 {
        return None;
    }
    let d0 = hex_digit(s[i]);
    let d1 = hex_digit(s[i + 1]);
    let d2 = hex_digit(s[i + 2]);
    let d3 = hex_digit(s[i + 3]);
    if d0 < 16 && d1 < 16 && d2 < 16 && d3 < 16 {
        Some(d0 * 0x1000 + d1 * 0x100 + d2 * 0x10 + d3)
    } else {
        None
    }
}

fn parse_string_body(s: &Vec<char>, i: usize) -> (r: Option<(Vec<char>, usize)>)
    requires
        i <= s@.len(),
    ensures
        r matches Some(p) ==> sp_string_body(s@, i as int) == Some((p.0@, p.1 as int)) && i < p.1
            <= s@.len(),
        r is None ==> sp_string_body(s@, i as int) is None,
    decreases s@.len() - i,
{
    if i >= s.len() {
        return None;
    }
    let c = s[i];
    if c == '"' {
        return Some((Vec::new(), i + 1));
    }
    if c == '\\' {
        if i + 1 >= s.len() {
            return None;
        }
        let e = s[i + 1];
        if e == '"' || e == '\\' || e == '/' {
            match parse_string_body(s, i + 2) {
                None => None,
                Some((mut t, j)) => {
                    let ghost t0 = t@;
                    t.insert(0, e);
                    proof {
                        assert(t@ =~= seq![e] + t0);
                    }
                    Some((t, j))
                },
            }
        } else if e == 'b' || e == 'f' || e == 'n' || e == 'r' || e == 't' {
            let d: char = if e == 'b' {
                '\u{8}'
            } else if e == 'f' {
                '\u{c}'
            } else if e == 'n' {
                '\n'
            } else if e == 'r' {
                '\r'
            } else {
                '\t'
            };
            match parse_string_body(s, i + 2) {
                None => None,
                Some((mut t, j)) => {
                    let ghost t0 = t@;
                    t.insert(0, d);
                    proof {
                        assert(t@ =~= seq![d] + t0);
                    }
                    Some((t, j))
                },
            }
        } else if e == 'u' {
            let code = match hex4(s, i + 2) {
                None => {
                    return None;
                },
                Some(v) => v,
            };
            if 0xd800 <= code && code < 0xdc00 {
                if s.len() - i < 8 || !(s[i + 6] == '\\' && s[i + 7] == 'u') {
                    return None;
                }
                let lo = match hex4(s, i + 8) {
                    None => {
                        return None;
                    },
                    Some(v) => v,
                };
                if !(0xdc00 <= lo && lo < 0xe000) {
                    return None;
                }
                let cp: u32 = 0x10000 + (code - 0xd800) * 0x400 + (lo - 0xdc00);
                let ch: char = match char_from_u32(cp) {
                    Some(ch) => ch,
                    None => {
                        proof {
                            assert(false);
                        }
                        '0'
                    },
                };
                match parse_string_body(s, i + 12) {
                    None => None,
                    Some((mut t, j)) => {
                        let ghost t0 = t@;
                        t.insert(0, ch);
                        proof {
                            assert(t@ =~= seq![ch] + t0);
                        }
                        Some((t, j))
                    },
                }
            } else if 0xdc00 <= code && code < 0xe000 {
                None
            } else {
                let ch: char = match char_from_u32(code) {
                    Some(ch) => ch,
                    None => {
                        proof {
                            assert(false);
                        }
                        '0'
                    },
                };
                match parse_string_body(s, i + 6) {
                    None => None,
                    Some((mut t, j)) => {
                        let ghost t0 = t@;
                        t.insert(0, ch);
                        proof {
                            assert(t@ =~= seq![ch] + t0);
                        }
                        Some((t, j))
                    },
                }
            }
        } else {
            None
        }
    } else if (c as u32) < 0x20 {
        None
    } else {
        match parse_string_body(s, i + 1) {
            None => None,
            Some((mut t, j)) => {
                let ghost t0 = t@;
                t.insert(0, c);
                proof {
                    assert(t@ =~= seq![c] + t0);
                }
                Some((t, j))
            },
        }
    }
}

/// Reads decimal digits from `i`; `mag` is exact unless `over` reports that
/// the value left `i64` range.
fn scan_digits(s: &Vec<char>, i: usize) -> (r: (u64, usize, bool))
    requires
        i <= s@.len(),
    ensures
        r.1 as int == sp_scan_digits(s@, i as int, 0).1,
        i <= r.1 <= s@.len(),
        !r.2 ==> r.0 as int == sp_scan_digits(s@, i as int, 0).0 && r.0
            <= 0x8000_0000_0000_0000u64,
        r.2 ==> sp_scan_digits(s@, i as int, 0).0 > 0x8000_0000_0000_0000,
        i < s@.len() && is_digit(s@[i as int]) ==> r.1 > i,
{
    let mut j: usize = i;
    let mut mag: u64 = 0;
    let mut over: bool = false;
    let ghost acc: int = 0;
    while j < s.len() && is_digit_x(s[j])
        invariant
            i <= j <= s@.len(),
            sp_scan_digits(s@, i as int, 0) == sp_scan_digits(s@, j as int, acc),
            !over ==> mag as int == acc && mag <= 0x8000_0000_0000_0000u64,
            over ==> acc > 0x8000_0000_0000_0000,
        decreases s@.len() - j,
    {
        let d: u64 = (s[j] as u32 - 48) as u64;
        proof {
            assert(is_digit(s@[j as int]));
        }
        if !over {
            if mag > 922337203685477580u64 {
                over = true;
            } else {
                let nm: u64 = mag * 10 + d;
                if nm > 0x8000_0000_0000_0000u64 {
                    over = true;
                } else {
                    mag = nm;
                }
            }
        }
        proof {
            acc = acc * 10 + digit_val(s@[j as int]);
        }
        j = j + 1;
    }
    (mag, j, over)
}

fn parse_number(s: &Vec<char>, i: usize) -> (r: Option<(JsonValue, usize)>)
    requires
        i < s@.len(),
        s@[i as int] == '-' || is_digit(s@[i as int]),
    ensures
        r matches Some(p) ==> sp_number(s@, i as int) == Some((jv_of(p.0), p.1 as int)) && i < p.1
            <= s@.len(),
        r is None ==> sp_number(s@, i as int) is None,
{
    let n = s.len();
    let neg = s[i] == '-';
    let i0: usize = if neg {
        i + 1
    } else {
        i
    };
    if i0 >= s.len() {
        return None;
    }
    if !is_digit_x(s[i0]) {
        return None;
    }
    let (mag, i1, over): (u64, usize, bool) = if s[i0] == '0' {
        (0u64, i0 + 1, false)
    } else {
        scan_digits(s, i0)
    };
    let mut integral = true;
    let mut i2: usize = i1;
    if i1 < s.len() && s[i1] == '.' {
        if !(s.len() - i1 >= 2 && is_digit_x(s[i1 + 1])) {
            return None;
        }
        let (_, fr_end, _): (u64, usize, bool) = scan_digits(s, i1 + 1);
        integral = false;
        i2 = fr_end;
    }
    let ghost spec_mag = if s@[i0 as int] == '0' {
        0int
    } else {
        sp_scan_digits(s@, i0 as int, 0).0
    };
    // exponent part
    if i2 < s.len() && (s[i2] == 'e' || s[i2] == 'E') {
        let j: usize = if s.len() - i2 >= 2 && (s[i2 + 1] == '+' || s[i2 + 1] == '-') {
            i2 + 2
        } else {
            i2 + 1
        };
        if !(j < s.len() && is_digit_x(s[j])) {
            return None;
        }
        let (_, e_end, _): (u64, usize, bool) = scan_digits(s, j);
        proof {
            assert(sp_exp_part(s@, i2 as int, neg, integral, spec_mag) == Some(
                (num_jv(neg, false, spec_mag), e_end as int),
            ));
        }
        return Some((JsonValue::NumOther, e_end));
    }
    // no exponent: the number ends at i2
    if !integral || over {
        return Some((JsonValue::NumOther, i2));
    }
    if neg {
        if mag == 0x8000_0000_0000_0000u64 {
            return Some((JsonValue::Int(i64::MIN), i2));
        }
        return Some((JsonValue::Int(-(mag as i64)), i2));
    }
    if mag > 0x7fff_ffff_ffff_ffffu64 {
        return Some((JsonValue::NumOther, i2));
    }
    Some((JsonValue::Int(mag as i64), i2))
}

fn parse_value(s: &Vec<char>, i: usize) -> (r: Option<(JsonValue, usize)>)
    requires
        i <= s@.len(),
    ensures
        r matches Some(p) ==> sp_value(s@, i as int) == Some((jv_of(p.0), p.1 as int)) && i < p.1
            <= s@.len(),
        r is None ==> sp_value(s@, i as int) is None,
    decreases s@.len() - i, 0int,
{
    if i >= s.len() {
        return None;
    }
    let c = s[i];
    if c == '{' {
        let j = skip_ws(s, i + 1);
        if j < s.len() && s[j] == '}' {
            return Some((JsonValue::Obj(Vec::new()), j + 1));
        }
        match parse_members(s, j) {
            None => None,
            Some((fs, k)) => Some((JsonValue::Obj(fs), k)),
        }
    } else if c == '[' {
        let j = skip_ws(s, i + 1);
        if j < s.len() && s[j] == ']' {
            return Some((JsonValue::Arr(Vec::new()), j + 1));
        }
        match parse_elems(s, j) {
            None => None,
            Some((es, k)) => Some((JsonValue::Arr(es), k)),
        }
    } else if c == '"' {
        match parse_string_body(s, i + 1) {
            None => None,
            Some((t, j)) => {
                let st = chars_to_string(&t);
                Some((JsonValue::Str(st), j))
            },
        }
    } else if c == 't' {
        if s.len() - i >= 4 && s[i + 1] == 'r' && s[i + 2] == 'u' && s[i + 3] == 'e' {
            Some((JsonValue::Bool(true), i + 4))
        } else {
            None
        }
    } else if c == 'f' {
        if s.len() - i >= 5 && s[i + 1] == 'a' && s[i + 2] == 'l' && s[i + 3] == 's' && s[i + 4]
            == 'e' {
            Some((JsonValue::Bool(false), i + 5))
        } else {
            None
        }
    } else if c == 'n' {
        if s.len() - i >= 4 && s[i + 1] == 'u' && s[i + 2] == 'l' && s[i + 3] == 'l' {
            Some((JsonValue::Null, i + 4))
        } else {
            None
        }
    } else {
        let u = c as u32;
        if c == '-' || (48 <= u && u <= 57) {
            parse_number(s, i)
        } else {
            None
        }
    }
}

fn parse_members(s: &Vec<char>, i: usize) -> (r: Option<(Vec<(String, JsonValue)>, usize)>)
    requires
        i <= s@.len(),
    ensures
        r matches Some(p) ==> sp_members(s@, i as int) == Some((jv_of_fields(p.0@), p.1 as int))
            && i < p.1 <= s@.len(),
        r is None ==> sp_members(s@, i as int) is None,
    decreases s@.len() - i, 1int,
{
    let k0 = skip_ws(s, i);
    if !(k0 < s.len() && s[k0] == '"') {
        return None;
    }
    let (key, e0) = match parse_string_body(s, k0 + 1) {
        None => {
            return None;
        },
        Some(p) => p,
    };
    let k2 = skip_ws(s, e0);
    if !(k2 < s.len() && s[k2] == ':') {
        return None;
    }
    let k3 = skip_ws(s, k2 + 1);
    let (v, e1) = match parse_value(s, k3) {
        None => {
            return None;
        },
        Some(p) => p,
    };
    let k5 = skip_ws(s, e1);
    let key_str = chars_to_string(&key);
    if k5 < s.len() && s[k5] == ',' {
        match parse_members(s, k5 + 1) {
            None => None,
            Some((mut rest, e2)) => {
                let ghost rest0 = rest@;
                rest.insert(0, (key_str, v));
                proof {
                    lemma_jv_of_fields_props(rest@);
                    lemma_jv_of_fields_props(rest0);
                    assert(jv_of_fields(rest@) =~~= seq![(key@, jv_of(v))] + jv_of_fields(
                        rest0,
                    ));
                }
                Some((rest, e2))
            },
        }
    } else if k5 < s.len() && s[k5] == '}' {
        let mut one: Vec<(String, JsonValue)> = Vec::new();
        one.push((key_str, v));
        proof {
            lemma_jv_of_fields_props(one@);
            assert(jv_of_fields(one@) =~~= seq![(key@, jv_of(v))]);
        }
        Some((one, k5 + 1))
    } else {
        None
    }
}

fn parse_elems(s: &Vec<char>, i: usize) -> (r: Option<(Vec<JsonValue>, usize)>)
    requires
        i <= s@.len(),
    ensures
        r matches Some(p) ==> sp_elems(s@, i as int) == Some((jv_of_seq(p.0@), p.1 as int)) && i
            < p.1 <= s@.len(),
        r is None ==> sp_elems(s@, i as int) is None,
    decreases s@.len() - i, 1int,
{
    let k0 = skip_ws(s, i);
    if k0 >= s.len() {
        return None;
    }
    let (v, e0) = match parse_value(s, k0) {
        None => {
            return None;
        },
        Some(p) => p,
    };
    let k2 = skip_ws(s, e0);
    if k2 < s.len() && s[k2] == ',' {
        match parse_elems(s, k2 + 1) {
            None => None,
            Some((mut rest, e1)) => {
                let ghost rest0 = rest@;
                rest.insert(0, v);
                proof {
                    lemma_jv_of_seq_props(rest@);
                    lemma_jv_of_seq_props(rest0);
                    assert(jv_of_seq(rest@) =~~= seq![jv_of(v)] + jv_of_seq(rest0));
                }
                Some((rest, e1))
            },
        }
    } else if k2 < s.len() && s[k2] == ']' {
        let mut one: Vec<JsonValue> = Vec::new();
        one.push(v);
        proof {
            lemma_jv_of_seq_props(one@);
            assert(jv_of_seq(one@) =~~= seq![jv_of(v)]);
        }
        Some((one, k2 + 1))
    } else {
        None
    }
}

/// Parses a whole JSON text: the value it denotes, or `None` when the text
/// is not well-formed JSON.
pub fn parse_json(s: &Vec<char>) -> (r: Option<JsonValue>)
    ensures
        r matches Some(v) ==> sp_json(s@) == Some(jv_of(v)),
        r is None ==> sp_json(s@) is None,
{
    let i = skip_ws(s, 0);
    match parse_value(s, i) {
        None => None,
        Some((v, j)) => {
            let k = skip_ws(s, j);
            if k >= s.len() {
                Some(v)
            } else {
                None
            }
        },
    }
}

} // verus!
