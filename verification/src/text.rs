//! Plain-text building blocks: decimal printing and parsing, character
//! classification, path splitting, and JSON string escaping.
//!
//! Every executable function is proved to agree with a spec function over
//! `Seq<char>`, so the rest of the crate can state its contracts purely in
//! terms of sequences of characters.

use vstd::prelude::*;
use vstd::string::StrSliceExecFns;

verus! {

// ---------------------------------------------------------------------------
// Characters and digits
// ---------------------------------------------------------------------------

/// ASCII decimal digit.
pub open spec fn is_digit(c: char) -> bool {
    48 <= c as u32 && c as u32 <= 57
}

/// Numeric value of a decimal digit.
pub open spec fn digit_val(c: char) -> int {
    c as u32 - 48
}

/// The character for a decimal digit value in 0..10.
pub open spec fn digit_char(d: int) -> char {
    if d == 0 { '0' }
    else if d == 1 { '1' }
    else if d == 2 { '2' }
    else if d == 3 { '3' }
    else if d == 4 { '4' }
    else if d == 5 { '5' }
    else if d == 6 { '6' }
    else if d == 7 { '7' }
    else if d == 8 { '8' }
    else { '9' }
}

/// The character for a hexadecimal digit value in 0..16, lower case.
pub open spec fn hex_char(d: int) -> char {
    if d < 10 { digit_char(d) }
    else if d == 10 { 'a' }
    else if d == 11 { 'b' }
    else if d == 12 { 'c' }
    else if d == 13 { 'd' }
    else if d == 14 { 'e' }
    else { 'f' }
}

fn digit_char_x(d: u64) -> (c: char)
    requires
        d < 10,
    ensures
        c == digit_char(d as int),
{
    if d == 0 { '0' }
    else if d == 1 { '1' }
    else if d == 2 { '2' }
    else if d == 3 { '3' }
    else if d == 4 { '4' }
    else if d == 5 { '5' }
    else if d == 6 { '6' }
    else if d == 7 { '7' }
    else if d == 8 { '8' }
    else { '9' }
}

fn hex_char_x(d: u32) -> (c: char)
    requires
        d < 16,
    ensures
        c == hex_char(d as int),
{
    if d < 10 { digit_char_x(d as u64) }
    else if d == 10 { 'a' }
    else if d == 11 { 'b' }
    else if d == 12 { 'c' }
    else if d == 13 { 'd' }
    else if d == 14 { 'e' }
    else { 'f' }
}

// ---------------------------------------------------------------------------
// Decimal representations
// ---------------------------------------------------------------------------

/// Decimal representation of a nonnegative integer, most significant digit
/// first, with no leading zeros (`0` is written `"0"`).
pub open spec fn dec_nat(n: int) -> Seq<char>
    recommends
        n >= 0,
    decreases n,
{
    if n < 10 {
        seq![digit_char(n)]
    } else {
        dec_nat(n / 10) + seq![digit_char(n % 10)]
    }
}

/// Decimal representation of an integer, with a leading `-` when negative.
pub open spec fn dec_int(n: int) -> Seq<char> {
    if n < 0 {
        seq!['-'] + dec_nat(-n)
    } else {
        dec_nat(n)
    }
}

/// Appends the decimal representation of `n` to `out`.
pub fn push_dec_u64(out: &mut Vec<char>, n: u64)
    ensures
        final(out)@ == old(out)@ + dec_nat(n as int),
    decreases n,
{
    if n < 10 {
        out.push(digit_char_x(n));
    } else {
        push_dec_u64(out, n / 10);
        out.push(digit_char_x(n % 10));
    }
}

/// Appends the decimal representation of `n` to `out`.
pub fn push_dec_i64(out: &mut Vec<char>, n: i64)
    ensures
        final(out)@ == old(out)@ + dec_int(n as int),
{
    if n < 0 {
        out.push('-');
        let mag: u64 = if n == i64::MIN {
            9223372036854775808u64
        } else {
            (-n) as u64
        };
        assert(mag == -(n as int));
        push_dec_u64(out, mag);
    } else {
        push_dec_u64(out, n as u64);
    }
}

// ---------------------------------------------------------------------------
// Strings and character vectors
// ---------------------------------------------------------------------------

/// The characters of `s`, as a vector.
pub fn str_chars(s: &str) -> (v: Vec<char>)
    ensures
        v@ == s@,
{
    let n = s.unicode_len();
    let mut v: Vec<char> = Vec::new();
    let mut i: usize = 0;
    while i < n
        invariant
            n == s@.len(),
            i <= n,
            v@ == s@.take(i as int),
        decreases n - i,
    {
        v.push(s.get_char(i));
        i = i + 1;
        proof {
            assert(s@.take(i as int) =~= s@.take(i - 1) + seq![s@[i - 1]]);
        }
    }
    proof {
        assert(s@.take(n as int) =~= s@);
    }
    v
}

/// Relies on `String: FromIterator<char>`: collecting characters yields the
/// string made of exactly those characters, in order.
#[verifier::external_body]
pub fn chars_to_string(v: &Vec<char>) -> (s: String)
    ensures
        s@ == v@,
{
    v.iter().collect()
}

/// Relies on `char::from_u32`: `Some` exactly for valid Unicode scalar
/// values (at most 0x10FFFF and not a surrogate), returning the character
/// with that code point.
#[verifier::external_body]
pub fn char_from_u32(u: u32) -> (r: Option<char>)
    ensures
        (u < 0xd800 || (0xe000 <= u && u <= 0x10ffff)) ==> r == Some(u as char),
        !(u < 0xd800 || (0xe000 <= u && u <= 0x10ffff)) ==> r is None,
{
    char::from_u32(u)
}

/// Appends the characters of `s` to `out`.
pub fn push_str_chars(out: &mut Vec<char>, s: &str)
    ensures
        final(out)@ == old(out)@ + s@,
{
    let n = s.unicode_len();
    let mut i: usize = 0;
    while i < n
        invariant
            n == s@.len(),
            i <= n,
            out@ == old(out)@ + s@.take(i as int),
        decreases n - i,
    {
        out.push(s.get_char(i));
        i = i + 1;
        proof {
            assert(s@.take(i as int) =~= s@.take(i - 1) + seq![s@[i - 1]]);
        }
    }
    proof {
        assert(s@.take(n as int) =~= s@);
    }
}

/// Character-for-character string equality.
pub fn str_eq(a: &str, b: &str) -> (r: bool)
    ensures
        r == (a@ == b@),
{
    let na = a.unicode_len();
    let nb = b.unicode_len();
    if na != nb {
        proof {
            assert(a@ != b@) by {
                assert(a@.len() != b@.len());
            }
        }
        return false;
    }
    let mut i: usize = 0;
    while i < na
        invariant
            na == a@.len(),
            nb == b@.len(),
            na == nb,
            i <= na,
            forall|j: int| 0 <= j < i ==> a@[j] == b@[j],
        decreases na - i,
    {
        if a.get_char(i) != b.get_char(i) {
            proof {
                assert(a@[i as int] != b@[i as int]);
            }
            return false;
        }
        i = i + 1;
    }
    proof {
        assert(a@ =~= b@);
    }
    true
}

/// Character-for-character equality of a character vector and a string.
pub fn chars_eq_str(a: &Vec<char>, b: &str) -> (r: bool)
    ensures
        r == (a@ == b@),
{
    let nb = b.unicode_len();
    if a.len() != nb {
        proof {
            assert(a@.len() != b@.len());
        }
        return false;
    }
    let mut i: usize = 0;
    while i < nb
        invariant
            nb == b@.len(),
            nb == a@.len(),
            i <= nb,
            forall|j: int| 0 <= j < i ==> a@[j] == b@[j],
        decreases nb - i,
    {
        if a[i] != b.get_char(i) {
            proof {
                assert(a@[i as int] != b@[i as int]);
            }
            return false;
        }
        i = i + 1;
    }
    proof {
        assert(a@ =~= b@);
    }
    true
}

// ---------------------------------------------------------------------------
// Splitting a path into segments
// ---------------------------------------------------------------------------

/// The segments of `s` split on `/`.  The empty string has one empty
/// segment; each separator starts a new segment.
pub open spec fn split_slash(s: Seq<char>) -> Seq<Seq<char>>
    decreases s.len(),
{
    if s.len() == 0 {
        seq![Seq::<char>::empty()]
    } else if s.last() == '/' {
        split_slash(s.drop_last()) + seq![Seq::<char>::empty()]
    } else {
        let r = split_slash(s.drop_last());
        r.update(r.len() - 1, r.last() + seq![s.last()])
    }
}

pub proof fn lemma_split_slash_len(s: Seq<char>)
    ensures
        split_slash(s).len() >= 1,
    decreases s.len(),
{
    if s.len() > 0 {
        lemma_split_slash_len(s.drop_last());
    }
}

/// View of a vector of character vectors as a sequence of sequences.
pub open spec fn segs_view(v: Seq<Vec<char>>) -> Seq<Seq<char>> {
    Seq::new(v.len(), |i: int| v[i]@)
}

/// Splits `s` on `/` into segments.
pub fn split_on_slash(s: &Vec<char>) -> (r: Vec<Vec<char>>)
    ensures
        segs_view(r@) == split_slash(s@),
{
    let mut done: Vec<Vec<char>> = Vec::new();
    let mut cur: Vec<char> = Vec::new();
    let mut i: usize = 0;
    proof {
        assert(s@.take(0) =~= Seq::<char>::empty());
        assert(segs_view(done@) + seq![cur@] =~= split_slash(s@.take(0)));
    }
    while i < s.len()
        invariant
            i <= s@.len(),
            segs_view(done@) + seq![cur@] == split_slash(s@.take(i as int)),
        decreases s@.len() - i,
    {
        let ghost prefix = s@.take(i as int);
        let c = s[i];
        i = i + 1;
        proof {
            assert(s@.take(i as int).drop_last() =~= prefix);
            assert(s@.take(i as int).last() == c);
        }
        if c == '/' {
            done.push(cur);
            cur = Vec::new();
            proof {
                assert(segs_view(done@) + seq![cur@] =~= split_slash(s@.take(i as int)));
            }
        } else {
            let ghost cur0 = cur@;
            cur.push(c);
            proof {
                let r = split_slash(prefix);
                lemma_split_slash_len(prefix);
                assert(r == segs_view(done@) + seq![cur0]);
                assert(r.last() == cur0);
                assert(cur@ == cur0.push(c));
                assert(segs_view(done@) + seq![cur@] =~~= r.update(
                    r.len() - 1,
                    r.last() + seq![c],
                ));
            }
        }
    }
    proof {
        assert(s@.take(s@.len() as int) =~= s@);
    }
    done.push(cur);
    proof {
        assert(segs_view(done@) =~= segs_view(done@.drop_last()) + seq![cur@]);
    }
    done
}

/// Whether `s` is free of path separators.
pub open spec fn no_slash(s: Seq<char>) -> bool {
    forall|j: int| 0 <= j < s.len() ==> s[j] != '/'
}

/// A separator-free string is a single segment.
pub proof fn lemma_split_no_slash(s: Seq<char>)
    requires
        no_slash(s),
    ensures
        split_slash(s) == seq![s],
    decreases s.len(),
{
    if s.len() == 0 {
        assert(split_slash(s) =~~= seq![s]);
    } else {
        lemma_split_no_slash(s.drop_last());
        assert(split_slash(s) =~~= seq![s]);
    }
}

/// Appending separator-free text extends the last segment.
pub proof fn lemma_split_append_no_slash(p: Seq<char>, t: Seq<char>)
    requires
        no_slash(t),
    ensures
        split_slash(p + t) == split_slash(p).update(
            split_slash(p).len() - 1,
            split_slash(p).last() + t,
        ),
    decreases t.len(),
{
    lemma_split_slash_len(p);
    let r = split_slash(p);
    if t.len() == 0 {
        assert(p + t =~= p);
        assert(r.update(r.len() - 1, r.last() + t) =~~= r);
    } else {
        lemma_split_append_no_slash(p, t.drop_last());
        let r1 = split_slash(p + t.drop_last());
        assert((p + t).drop_last() =~= p + t.drop_last());
        assert((p + t).last() == t.last());
        assert(t.last() != '/');
        assert(split_slash(p + t) == r1.update(r1.len() - 1, r1.last() + seq![t.last()]));
        assert(split_slash(p + t) =~~= r.update(r.len() - 1, r.last() + t));
    }
}

/// A path of two separator-free segments splits into exactly those two.
pub proof fn lemma_split_two(a: Seq<char>, t: Seq<char>)
    requires
        no_slash(a),
        no_slash(t),
    ensures
        split_slash(a + seq!['/'] + t) == seq![a, t],
{
    lemma_split_no_slash(a);
    assert((a + seq!['/']).drop_last() =~= a);
    assert((a + seq!['/']).last() == '/');
    assert(split_slash(a + seq!['/']) =~~= seq![a, Seq::<char>::empty()]);
    lemma_split_append_no_slash(a + seq!['/'], t);
    assert(Seq::<char>::empty() + t =~= t);
    assert(split_slash(a + seq!['/'] + t) =~~= seq![a, t]);
}

// ---------------------------------------------------------------------------
// Parsing an `i32` path parameter
// ---------------------------------------------------------------------------

/// Value of a digit string read most significant digit first, folded onto
/// `acc`.
pub open spec fn digits_val(s: Seq<char>, acc: int) -> int
    decreases s.len(),
{
    if s.len() == 0 {
        acc
    } else {
        digits_val(s.drop_first(), acc * 10 + digit_val(s.first()))
    }
}

/// Whether every character of `s` is a decimal digit.
pub open spec fn all_digits(s: Seq<char>) -> bool {
    forall|j: int| 0 <= j < s.len() ==> is_digit(s[j])
}

/// The integer an `i32` path parameter denotes, if any: an optional sign,
/// then one or more digits, with the value in `i32` range.  Mirrors how
/// `i32` is read from a string in Rust.
pub open spec fn i32_of_str(s: Seq<char>) -> Option<int> {
    let mag = if s.len() > 0 && (s[0] == '+' || s[0] == '-') {
        s.drop_first()
    } else {
        s
    };
    if mag.len() > 0 && all_digits(mag) {
        let v = if s.len() > 0 && s[0] == '-' {
            -digits_val(mag, 0)
        } else {
            digits_val(mag, 0)
        };
        if -0x8000_0000 <= v && v <= 0x7fff_ffff {
            Some(v)
        } else {
            None
        }
    } else {
        None
    }
}

/// Parses the characters of `seg` as an `i32`, as a typed path parameter is
/// parsed: optional sign, one or more digits, value within range.
pub fn parse_i32(seg: &Vec<char>) -> (r: Option<i32>)
    ensures
        r matches Some(v) ==> i32_of_str(seg@) == Some(v as int),
        r is None ==> i32_of_str(seg@) is None,
{
    let n = seg.len();
    let mut start: usize = 0;
    let mut neg: bool = false;
    if n > 0 && (seg[0] == '+' || seg[0] == '-') {
        start = 1;
        neg = seg[0] == '-';
    }
    let ghost mag = if start == 1 { seg@.drop_first() } else { seg@ };
    proof {
        assert(seg@.skip(start as int) =~= mag);
    }
    if start >= n {
        return None;
    }
    let mut i: usize = start;
    let mut acc: u64 = 0;
    let mut over: bool = false;
    while i < n
        invariant
            start <= i <= n,
            n == seg@.len(),
            n > 0,
            start == (if seg@[0] == '+' || seg@[0] == '-' { 1int } else { 0int }),
            neg == (seg@[0] == '-'),
            mag =~= seg@.skip(start as int),
            all_digits(seg@.subrange(start as int, i as int)),
            !over ==> acc <= 0x8000_0000 && acc as int == digits_val(
                seg@.subrange(start as int, i as int),
                0,
            ),
            over ==> digits_val(seg@.subrange(start as int, i as int), 0) > 0x8000_0000,
        decreases n - i,
    {
        let c = seg[i];
        let cu = c as u32;
        if !(48 <= cu && cu <= 57) {
            proof {
                let sv = seg@;
                let mags = if sv.len() > 0 && (sv[0] == '+' || sv[0] == '-') {
                    sv.drop_first()
                } else {
                    sv
                };
                assert(mags =~= mag);
                assert(mags[i - start] == sv[i as int]);
                assert(!is_digit(mags[i - start]));
                assert(!all_digits(mags));
            }
            return None;
        }
        let d: u64 = (cu - 48) as u64;
        let ghost pre = seg@.subrange(start as int, i as int);
        proof {
            assert(seg@.subrange(start as int, i + 1) =~= pre + seq![c]);
            lemma_digits_val_snoc(pre, c, 0);
        }
        if !over {
            if acc > 0x0ccc_cccc {
                // the magnitude already exceeds any i32 after this digit
                over = true;
            } else {
                acc = acc * 10 + d;
                if acc > 0x8000_0000 {
                    over = true;
                }
            }
        }
        i = i + 1;
    }
    proof {
        assert(seg@.subrange(start as int, n as int) =~= mag);
    }
    if over {
        return None;
    }
    if neg {
        if acc == 0x8000_0000 {
            return Some(i32::MIN);
        }
        return Some(-(acc as i32));
    }
    if acc > 0x7fff_ffff {
        return None;
    }
    Some(acc as i32)
}

/// Appending a digit multiplies the folded value by ten and adds the digit.
pub proof fn lemma_digits_val_snoc(s: Seq<char>, c: char, acc: int)
    ensures
        digits_val(s + seq![c], acc) == digits_val(s, acc) * 10 + digit_val(c),
    decreases s.len(),
{
    let t = s + seq![c];
    assert(t.len() == s.len() + 1);
    if s.len() == 0 {
        assert(t.first() == c);
        assert(t.drop_first() =~= Seq::<char>::empty());
        assert(digits_val(t, acc) == digits_val(t.drop_first(), acc * 10 + digit_val(c)));
        assert(digits_val(t.drop_first(), acc * 10 + digit_val(c)) == acc * 10 + digit_val(c));
        assert(digits_val(s, acc) == acc);
    } else {
        assert(t.first() == s.first());
        assert(t.drop_first() =~= s.drop_first() + seq![c]);
        lemma_digits_val_snoc(s.drop_first(), c, acc * 10 + digit_val(s.first()));
        assert(digits_val(t, acc) == digits_val(t.drop_first(), acc * 10 + digit_val(s.first())));
    }
}

pub proof fn lemma_digit_char_val(d: int)
    requires
        0 <= d < 10,
    ensures
        digit_val(digit_char(d)) == d,
        is_digit(digit_char(d)),
        digit_char(d) != '/',
        digit_char(d) != '+',
        digit_char(d) != '-',
{
}

/// The decimal representation of a nonnegative integer is one or more
/// digits and reads back as the same value.
pub proof fn lemma_dec_nat_digits(n: int)
    requires
        n >= 0,
    ensures
        all_digits(dec_nat(n)),
        dec_nat(n).len() >= 1,
        digits_val(dec_nat(n), 0) == n,
        no_slash(dec_nat(n)),
    decreases n,
{
    if n < 10 {
        lemma_digit_char_val(n);
        let c = digit_char(n);
        assert(seq![c].drop_first() =~= Seq::<char>::empty());
        assert(seq![c].first() == c);
        assert(dec_nat(n) == seq![c]);
        assert(digits_val(seq![c], 0) == digits_val(seq![c].drop_first(), 0 * 10 + digit_val(c)));
        assert(digits_val(Seq::<char>::empty(), digit_val(c)) == digit_val(c));
        assert(digits_val(dec_nat(n), 0) == n);
    } else {
        lemma_dec_nat_digits(n / 10);
        lemma_digit_char_val(n % 10);
        lemma_digits_val_snoc(dec_nat(n / 10), digit_char(n % 10), 0);
        assert(digits_val(dec_nat(n), 0) == (n / 10) * 10 + n % 10);
    }
}

/// Printing an `i32` and reading it back as a typed path parameter gives
/// the same value.
pub proof fn lemma_dec_int_i32_round_trip(n: int)
    requires
        -0x8000_0000 <= n <= 0x7fff_ffff,
    ensures
        i32_of_str(dec_int(n)) == Some(n),
        no_slash(dec_int(n)),
        dec_int(n).len() >= 1,
{
    if n >= 0 {
        lemma_dec_nat_digits(n);
        let s = dec_int(n);
        assert(is_digit(s[0]));
        assert(s[0] != '+' && s[0] != '-');
    } else {
        lemma_dec_nat_digits(-n);
        let s = dec_int(n);
        assert(s[0] == '-');
        assert(s.drop_first() =~= dec_nat(-n));
        assert(all_digits(s.drop_first()));
        assert(digits_val(s.drop_first(), 0) == -n);
    }
}

// ---------------------------------------------------------------------------
// JSON string escaping
// ---------------------------------------------------------------------------

/// How one character is written inside a JSON string: quotes and
/// backslashes get a backslash escape, control characters a `\u00XX`
/// escape, and every other character stands for itself.
pub open spec fn escape_char(c: char) -> Seq<char> {
    if c == '"' {
        seq!['\\', '"']
    } else if c == '\\' {
        seq!['\\', '\\']
    } else if (c as u32) < 0x20 {
        seq!['\\', 'u', '0', '0', hex_char((c as u32) as int / 16), hex_char((c as u32) as int % 16)]
    } else {
        seq![c]
    }
}

/// The body of a JSON string literal for the text `s`.
pub open spec fn escape(s: Seq<char>) -> Seq<char>
    decreases s.len(),
{
    if s.len() == 0 {
        Seq::<char>::empty()
    } else {
        escape(s.drop_last()) + escape_char(s.last())
    }
}

/// A full JSON string literal for the text `s`, quotes included.
pub open spec fn quoted(s: Seq<char>) -> Seq<char> {
    seq!['"'] + escape(s) + seq!['"']
}

/// Appends the JSON string literal for `s`, quotes included, to `out`.
pub fn push_quoted(out: &mut Vec<char>, s: &str)
    ensures
        final(out)@ == old(out)@ + quoted(s@),
{
    out.push('"');
    let n = s.unicode_len();
    let mut i: usize = 0;
    while i < n
        invariant
            n == s@.len(),
            i <= n,
            out@ == old(out)@ + seq!['"'] + escape(s@.take(i as int)),
        decreases n - i,
    {
        let c = s.get_char(i);
        let cu = c as u32;
        if c == '"' {
            out.push('\\');
            out.push('"');
        } else if c == '\\' {
            out.push('\\');
            out.push('\\');
        } else if cu < 0x20 {
            out.push('\\');
            out.push('u');
            out.push('0');
            out.push('0');
            out.push(hex_char_x(cu / 16));
            out.push(hex_char_x(cu % 16));
        } else {
            out.push(c);
        }
        i = i + 1;
        proof {
            assert(s@.take(i as int).drop_last() =~= s@.take(i - 1));
            assert(s@.take(i as int).last() == s@[i - 1]);
            assert(out@ =~= old(out)@ + seq!['"'] + escape(s@.take(i as int)));
        }
    }
    out.push('"');
    proof {
        assert(s@.take(n as int) =~= s@);
        assert(out@ =~= old(out)@ + quoted(s@));
    }
}

} // verus!
