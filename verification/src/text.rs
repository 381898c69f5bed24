//! Small text utilities shared by the lexer, the error reports and the IR
//! writer: character-exact string comparison and decimal rendering.

use vstd::prelude::*;

verus! {

/// Relies on String::push: appends exactly one character at the end.
#[verifier::external_body]
pub fn push_char(s: &mut String, c: char)
    ensures
        final(s)@ == old(s)@.push(c),
{
    s.push(c)
}

/// Character-by-character comparison of two string slices.
pub fn str_eq(a: &str, b: &str) -> (r: bool)
    ensures
        r == (a@ == b@),
{
    let n = a.unicode_len();
    let m = b.unicode_len();
    if n != m {
        assert(a@.len() != b@.len());
        return false;
    }
    let mut i: usize = 0;
    while i < n
        invariant
            n == a@.len(),
            n == b@.len(),
            i <= n,
            forall|k: int| 0 <= k < i ==> a@[k] == b@[k],
        decreases n - i,
    {
        if a.get_char(i) != b.get_char(i) {
            return false;
        }
        i = i + 1;
    }
    proof {
        assert(a@ =~= b@);
    }
    true
}

/// The decimal digit character for a value below ten.
pub open spec fn spec_digit_char(d: int) -> char {
    if d == 0 { '0' }
    else if d == 1 { '1' }
    else if d == 2 { '2' }
    else if d == 3 { '3' }
    else if d == 4 { '4' }
    else if d == 5 { '5' }
    else if d == 6 { '6' }
    else if d == 7 { '7' }
    else if d == 8 { '8' }
    else { '9' }
}

pub fn digit_char(d: u64) -> (c: char)
    requires
        d < 10,
    ensures
        c == spec_digit_char(d as int),
{
    if d == 0 { '0' }
    else if d == 1 { '1' }
    else if d == 2 { '2' }
    else if d == 3 { '3' }
    else if d == 4 { '4' }
    else if d == 5 { '5' }
    else if d == 6 { '6' }
    else if d == 7 { '7' }
    else if d == 8 { '8' }
    else { '9' }
}

/// The decimal rendering of a non-negative integer, most significant digit
/// first, without leading zeroes (a single zero for zero itself).
pub open spec fn spec_dec(n: int) -> Seq<char>
    decreases n,
{
    if n < 10 {
        seq![spec_digit_char(n)]
    } else {
        spec_dec(n / 10).push(spec_digit_char(n % 10))
    }
}

/// The decimal rendering of an integer, a minus sign in front of a negative
/// one.
pub open spec fn spec_dec_signed(n: int) -> Seq<char> {
    if n >= 0 {
        spec_dec(n)
    } else {
        seq!['-'] + spec_dec(-n)
    }
}

pub fn render_u64(n: u64) -> (r: String)
    ensures
        r@ == spec_dec(n as int),
    decreases n,
{
    if n < 10 {
        let mut s = String::new();
        push_char(&mut s, digit_char(n));
        proof {
            assert(s@ =~= spec_dec(n as int));
        }
        s
    } else {
        let mut s = render_u64(n / 10);
        push_char(&mut s, digit_char(n % 10));
        s
    }
}

pub fn render_i64(n: i64) -> (r: String)
    ensures
        r@ == spec_dec_signed(n as int),
{
    if n >= 0 {
        render_u64(n as u64)
    } else {
        let m: u64 = ((-(n + 1)) as u64) + 1;
        assert(m == -(n as int));
        let mut s = String::new();
        push_char(&mut s, '-');
        let rest = render_u64(m);
        s.append(rest.as_str());
        proof {
            assert(s@ =~= spec_dec_signed(n as int));
        }
        s
    }
}

/// `len` copies of the one character, for the underline of an error report.
pub open spec fn spec_repeat_char(c: char, len: int) -> Seq<char>
    decreases len,
{
    if len <= 0 {
        Seq::empty()
    } else {
        spec_repeat_char(c, len - 1).push(c)
    }
}

pub fn repeat_char(c: char, len: u64) -> (r: String)
    ensures
        r@ == spec_repeat_char(c, len as int),
{
    let mut s = String::new();
    let mut i: u64 = 0;
    proof {
        assert(s@ =~= spec_repeat_char(c, 0));
    }
    while i < len
        invariant
            i <= len,
            s@ == spec_repeat_char(c, i as int),
        decreases len - i,
    {
        push_char(&mut s, c);
        i = i + 1;
    }
    s
}

} // verus!
