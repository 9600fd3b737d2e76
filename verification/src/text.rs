//! Text utilities shared by the lexer, the parser and the code generator:
//! decimal text of an integer, parsing decimal text back, and character-level
//! string operations.

use vstd::prelude::*;

verus! {

// ---------------------------------------------------------------------------
// Characters
// ---------------------------------------------------------------------------

/// The decimal digit characters `'0'` through `'9'`.
pub open spec fn is_digit_char(c: char) -> bool {
    48 <= c as u32 <= 57
}

/// The numeric value of a decimal digit character.
pub open spec fn digit_val(c: char) -> int {
    c as u32 - 48
}

pub fn check_digit(c: char) -> (r: bool)
    ensures
        r == is_digit_char(c),
{
    let u = c as u32;
    48 <= u && u <= 57
}

pub fn digit_of_char(c: char) -> (d: u32)
    requires
        is_digit_char(c),
    ensures
        d == digit_val(c),
        d < 10,
{
    (c as u32) - 48
}

/// The decimal digit character for a value below ten.
pub open spec fn char_of_digit(d: int) -> char {
    if d == 0 { '0' }
    else if d == 1 { '1' }
    else if d == 2 { '2' }
    else if d == 3 { '3' }
    else if d == 4 { '4' }
    else if d == 5 { '5' }
    else if d == 6 { '6' }
    else if d == 7 { '7' }
    else if d == 8 { '8' }
    else { '9' }
}

pub fn digit_to_char(d: u32) -> (c: char)
    requires
        d < 10,
    ensures
        c == char_of_digit(d as int),
{
    if d == 0 { '0' }
    else if d == 1 { '1' }
    else if d == 2 { '2' }
    else if d == 3 { '3' }
    else if d == 4 { '4' }
    else if d == 5 { '5' }
    else if d == 6 { '6' }
    else if d == 7 { '7' }
    else if d == 8 { '8' }
    else { '9' }
}

// ---------------------------------------------------------------------------
// Digit strings and their values
// ---------------------------------------------------------------------------

pub open spec fn all_digits(s: Seq<char>) -> bool {
    forall|i: int| 0 <= i < s.len() ==> is_digit_char(#[trigger] s[i])
}

/// The value of a string of decimal digits, most significant first.
pub open spec fn digits_val(s: Seq<char>) -> int
    decreases s.len(),
{
    if s.len() == 0 {
        0
    } else {
        digits_val(s.drop_last()) * 10 + digit_val(s.last())
    }
}

pub proof fn lemma_digits_val_nonneg(s: Seq<char>)
    requires
        all_digits(s),
    ensures
        digits_val(s) >= 0,
    decreases s.len(),
{
    if s.len() > 0 {
        lemma_digits_val_nonneg(s.drop_last());
    }
}

// ---------------------------------------------------------------------------
// Parsing decimal text
// ---------------------------------------------------------------------------

/// The integer denoted by decimal text: an optional sign followed by at least
/// one digit, with no other characters.
pub open spec fn parse_int_text(s: Seq<char>) -> Option<int> {
    if s.len() == 0 {
        None
    } else if s[0] == '-' || s[0] == '+' {
        if s.len() >= 2 && all_digits(s.subrange(1, s.len() as int)) {
            if s[0] == '-' {
                Some(-digits_val(s.subrange(1, s.len() as int)))
            } else {
                Some(digits_val(s.subrange(1, s.len() as int)))
            }
        } else {
            None
        }
    } else if all_digits(s) {
        Some(digits_val(s))
    } else {
        None
    }
}

/// As `parse_int_text`, further requiring the value to fit in an `i32`.
pub open spec fn parse_i32_text(s: Seq<char>) -> Option<i32> {
    match parse_int_text(s) {
        Some(v) => if i32::MIN <= v <= i32::MAX { Some(v as i32) } else { None },
        None => None,
    }
}

pub fn text_to_i32(s: &str) -> (r: Option<i32>)
    ensures
        r == parse_i32_text(s@),
{
    let n = s.unicode_len();
    if n == 0 {
        return None;
    }
    let first = s.get_char(0);
    let neg = first == '-';
    let signed = neg || first == '+';
    let start: usize = if signed { 1 } else { 0 };
    if n <= start {
        return None;
    }
    let ghost digs = s@.subrange(start as int, n as int);
    let mut i: usize = start;
    let mut acc: u64 = 0;
    while i < n
        invariant
            start <= i <= n,
            n == s@.len(),
            start < n,
            signed == (s@[0] == '-' || s@[0] == '+'),
            neg == (s@[0] == '-'),
            start == if signed { 1int } else { 0int },
            digs == s@.subrange(start as int, n as int),
            forall|k: int| start <= k < i ==> is_digit_char(#[trigger] s@[k]),
            all_digits(digs.take(i - start)),
            digits_val(digs.take(i - start)) <= 0xFFFF_FFFF
                ==> acc == digits_val(digs.take(i - start)),
            digits_val(digs.take(i - start)) > 0xFFFF_FFFF ==> acc > 0xFFFF_FFFF,
            acc < 0x10_0000_0000u64,
        decreases n - i,
    {
        let c = s.get_char(i);
        if !check_digit(c) {
            proof {
                assert(s@[i as int] == c);
                assert(!all_digits(digs) || signed) by {
                    if !signed {
                        assert(digs =~= s@);
                    }
                }
                if signed {
                    assert(digs[i - start] == c);
                    assert(!all_digits(digs));
                    assert(s@.subrange(1, s@.len() as int) == digs);
                }
            }
            return None;
        }
        let ghost p = digs.take(i - start);
        let ghost p2 = digs.take(i + 1 - start);
        proof {
            assert(p2.drop_last() =~= p);
            assert(p2.last() == s@[i as int]);
            lemma_digits_val_nonneg(p);
        }
        let d = digit_of_char(c);
        if acc <= 0xFFFF_FFFFu64 {
            acc = acc * 10 + (d as u64);
        }
        i += 1;
    }
    proof {
        assert(digs.take(i - start) =~= digs);
        if !signed {
            assert(digs =~= s@);
        } else {
            assert(digs =~= s@.subrange(1, s@.len() as int));
        }
        lemma_digits_val_nonneg(digs);
    }
    if neg {
        if acc <= 0x8000_0000u64 {
            let v: i64 = -(acc as i64);
            Some(v as i32)
        } else {
            None
        }
    } else {
        if acc <= 0x7FFF_FFFFu64 {
            Some(acc as i32)
        } else {
            None
        }
    }
}

// ---------------------------------------------------------------------------
// Printing decimal text
// ---------------------------------------------------------------------------

/// The digits of a positive number, most significant first; empty for zero.
pub open spec fn pos_digits_text(n: int) -> Seq<char>
    decreases n,
{
    if n <= 0 {
        Seq::empty()
    } else {
        pos_digits_text(n / 10).push(char_of_digit(n % 10))
    }
}

/// The decimal text of an integer: a minus sign for negative values, no sign
/// otherwise, and no leading zeros.
pub open spec fn int_text(v: int) -> Seq<char> {
    if v == 0 {
        seq!['0']
    } else if v > 0 {
        pos_digits_text(v)
    } else {
        seq!['-'] + pos_digits_text(-v)
    }
}

/// Relies on `String::push`: appends the single character `c` at the end.
#[verifier::external_body]
pub fn push_char(s: &mut String, c: char)
    ensures
        final(s)@ == old(s)@ + seq![c],
{
    s.push(c);
}

fn append_digits(m: u64, out: &mut String)
    ensures
        final(out)@ == old(out)@ + pos_digits_text(m as int),
    decreases m,
{
    if m == 0 {
        proof {
            assert(old(out)@ + pos_digits_text(0) =~= old(out)@);
        }
        return;
    }
    append_digits(m / 10, out);
    let d = (m % 10) as u32;
    push_char(out, digit_to_char(d));
    proof {
        assert(final(out)@ =~= old(out)@ + pos_digits_text(m as int));
    }
}

pub fn i32_to_text(v: i32) -> (r: String)
    ensures
        r@ == int_text(v as int),
{
    let mut out = String::new();
    if v == 0 {
        push_char(&mut out, '0');
        proof {
            assert(out@ =~= seq!['0']);
        }
        return out;
    }
    let m: u64 = if v < 0 {
        push_char(&mut out, '-');
        (-(v as i64)) as u64
    } else {
        v as u64
    };
    append_digits(m, &mut out);
    proof {
        if v < 0 {
            assert(out@ =~= seq!['-'] + pos_digits_text(-(v as int)));
        }
    }
    out
}

// ---------------------------------------------------------------------------
// Round trip: printing then parsing gives the value back
// ---------------------------------------------------------------------------

proof fn lemma_pos_digits_props(n: int)
    requires
        n >= 0,
    ensures
        all_digits(pos_digits_text(n)),
        digits_val(pos_digits_text(n)) == n,
        n > 0 ==> pos_digits_text(n).len() >= 1,
    decreases n,
{
    if n > 0 {
        lemma_pos_digits_props(n / 10);
        let s = pos_digits_text(n);
        let p = pos_digits_text(n / 10);
        assert(s == p.push(char_of_digit(n % 10)));
        assert(s.drop_last() =~= p);
        assert(s.last() == char_of_digit(n % 10));
        assert(digit_val(char_of_digit(n % 10)) == n % 10);
        assert(digits_val(s) == digits_val(p) * 10 + n % 10);
        assert(forall|i: int| 0 <= i < s.len() ==> is_digit_char(#[trigger] s[i]));
    }
}

/// Law: the decimal text of any `i32` parses back to exactly that value.
pub proof fn lemma_int_text_round_trip(v: i32)
    ensures
        parse_i32_text(int_text(v as int)) == Some(v),
{
    let s = int_text(v as int);
    if v == 0 {
        assert(s == seq!['0']);
        assert(s[0] == '0');
        assert(s.len() == 1);
        assert(is_digit_char('0'));
        assert(all_digits(s));
        assert(s.drop_last() =~= Seq::<char>::empty());
        assert(digits_val(s) == digits_val(s.drop_last()) * 10 + digit_val('0'));
        assert(digits_val(s) == 0);
    } else if v > 0 {
        lemma_pos_digits_props(v as int);
        assert(is_digit_char(s[0]));
        assert(s[0] != '-' && s[0] != '+') by {
            assert('-' as u32 == 45);
            assert('+' as u32 == 43);
        }
        assert(parse_int_text(s) == Some(v as int));
    } else {
        lemma_pos_digits_props(-(v as int));
        let p = pos_digits_text(-(v as int));
        assert(s == seq!['-'] + p);
        assert(s.len() == 1 + p.len());
        assert(s[0] == '-');
        assert(s.subrange(1, s.len() as int) =~= p);
        assert(parse_int_text(s) == Some(-digits_val(p)));
        assert(digits_val(p) == -(v as int));
    }
}

// ---------------------------------------------------------------------------
// Cursor arithmetic
// ---------------------------------------------------------------------------

/// How many positions are left before `len`, never negative: the termination
/// measure of every cursor-driven recursion in the lexer and the parser.
pub open spec fn rem_at(len: int, pos: int) -> int {
    if pos <= len {
        len - pos
    } else {
        0
    }
}

// ---------------------------------------------------------------------------
// String comparison
// ---------------------------------------------------------------------------

/// Character-for-character equality of two string slices.
pub fn str_eq(a: &str, b: &str) -> (r: bool)
    ensures
        r == (a@ == b@),
{
    let n = a.unicode_len();
    if n != b.unicode_len() {
        return false;
    }
    let mut i: usize = 0;
    while i < n
        invariant
            i <= n,
            n == a@.len(),
            n == b@.len(),
            forall|j: int| 0 <= j < i ==> a@[j] == b@[j],
        decreases n - i,
    {
        if a.get_char(i) != b.get_char(i) {
            return false;
        }
        i += 1;
    }
    proof {
        assert(a@ =~= b@);
    }
    true
}

} // verus!
