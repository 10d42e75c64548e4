//! Small verified text utilities: character-exact string comparison and
//! conversion between `&str` and character vectors.

use vstd::prelude::*;
use vstd::string::StrSliceExecFns;

verus! {

/// Relies on String::push from std: appending one character to a string
/// appends exactly that character to its character sequence.
pub assume_specification[ String::push ](s: &mut String, c: char)
    ensures
        final(s)@ == old(s)@.push(c),
;

/// Build a string from a sequence of characters.
pub fn chars_to_string(v: &Vec<char>) -> (r: String)
    ensures
        r@ == v@,
{
    let mut s = String::new();
    let mut i: usize = 0;
    while i < v.len()
        invariant
            i <= v@.len(),
            s@ == v@.subrange(0, i as int),
        decreases v@.len() - i,
    {
        s.push(v[i]);
        proof {
            assert(s@ =~= v@.subrange(0, i + 1));
        }
        i = i + 1;
    }
    proof {
        assert(s@ =~= v@);
    }
    s
}

/// Character-for-character string equality.
pub fn str_eq(a: &str, b: &str) -> (r: bool)
    ensures
        r == (a@ == b@),
{
    let la = a.unicode_len();
    let lb = b.unicode_len();
    if la != lb {
        proof {
            assert(a@.len() != b@.len());
        }
        return false;
    }
    let mut i: usize = 0;
    while i < la
        invariant
            la == a@.len(),
            la == b@.len(),
            i <= la,
            forall|j: int| 0 <= j < i ==> a@[j] == b@[j],
        decreases la - i,
    {
        if a.get_char(i) != b.get_char(i) {
            return false;
        }
        i = i + 1;
    }
    proof {
        assert(a@ =~= b@);
    }
    true
}

/// The characters of a string, as a vector.
pub fn str_to_chars(s: &str) -> (r: Vec<char>)
    ensures
        r@ == s@,
{
    let n = s.unicode_len();
    let mut v: Vec<char> = Vec::new();
    let mut i: usize = 0;
    while i < n
        invariant
            n == s@.len(),
            i <= n,
            v@ == s@.subrange(0, i as int),
        decreases n - i,
    {
        let c = s.get_char(i);
        v.push(c);
        proof {
            assert(v@ =~= s@.subrange(0, i + 1 as int));
        }
        i = i + 1;
    }
    proof {
        assert(v@ =~= s@);
    }
    v
}


/// The digit character for one decimal digit.
pub open spec fn digit_char(d: nat) -> char {
    if d == 0 { '0' } else if d == 1 { '1' } else if d == 2 { '2' } else if d == 3 { '3' }
    else if d == 4 { '4' } else if d == 5 { '5' } else if d == 6 { '6' } else if d == 7 { '7' }
    else if d == 8 { '8' } else { '9' }
}

/// The decimal digit a character stands for, if any.
pub open spec fn digit_val(c: char) -> Option<nat> {
    if c == '0' { Some(0nat) } else if c == '1' { Some(1nat) } else if c == '2' { Some(2nat) }
    else if c == '3' { Some(3nat) } else if c == '4' { Some(4nat) } else if c == '5' { Some(5nat) }
    else if c == '6' { Some(6nat) } else if c == '7' { Some(7nat) } else if c == '8' { Some(8nat) }
    else if c == '9' { Some(9nat) } else { None }
}

/// The decimal digits of `n`, most significant first.
pub open spec fn dec_digits(n: nat) -> Seq<char>
    decreases n,
{
    if n < 10 {
        seq![digit_char(n)]
    } else {
        dec_digits(n / 10).push(digit_char(n % 10))
    }
}

/// The canonical decimal rendering of an integer: a minus sign for negative
/// values, digits without leading zeros.
pub open spec fn int_chars(i: int) -> Seq<char> {
    if i < 0 {
        seq!['-'] + dec_digits((-i) as nat)
    } else {
        dec_digits(i as nat)
    }
}

/// Is `s` a canonical digit string: nonempty, digits only, no leading zero?
pub open spec fn canonical_digits(s: Seq<char>) -> bool {
    &&& s.len() >= 1
    &&& forall|i: int| 0 <= i < s.len() ==> (#[trigger] digit_val(s[i])) is Some
    &&& (s.len() > 1 ==> s[0] != '0')
}

/// The value of a digit string.
pub open spec fn digits_val(s: Seq<char>) -> nat
    decreases s.len(),
{
    if s.len() == 0 {
        0
    } else {
        digits_val(s.drop_last()) * 10 + digit_val(s.last()).unwrap_or(0nat)
    }
}

/// The integer a decimal string stands for: canonical digits with an
/// optional minus sign, within the machine range; anything else is
/// rejected.
pub open spec fn spec_parse_i32(s: Seq<char>) -> Option<i32> {
    if s.len() >= 1 && s[0] == '-' {
        let t = s.subrange(1, s.len() as int);
        if canonical_digits(t) && digits_val(t) >= 1 && digits_val(t) <= 0x8000_0000 {
            Some((-(digits_val(t) as int)) as i32)
        } else {
            None
        }
    } else {
        if canonical_digits(s) && digits_val(s) <= 0x7fff_ffff {
            Some(digits_val(s) as i32)
        } else {
            None
        }
    }
}

/// Exec digit rendering.
fn digit_char_exec(d: u32) -> (r: char)
    requires
        d < 10,
    ensures
        r == digit_char(d as nat),
{
    if d == 0 { '0' } else if d == 1 { '1' } else if d == 2 { '2' } else if d == 3 { '3' }
    else if d == 4 { '4' } else if d == 5 { '5' } else if d == 6 { '6' } else if d == 7 { '7' }
    else if d == 8 { '8' } else { '9' }
}

/// Exec digit reading.
pub fn digit_val_exec(c: char) -> (r: Option<u32>)
    ensures
        match r {
            Some(d) => digit_val(c) == Some(d as nat) && d < 10,
            None => digit_val(c) is None,
        },
{
    if c == '0' { Some(0) } else if c == '1' { Some(1) } else if c == '2' { Some(2) }
    else if c == '3' { Some(3) } else if c == '4' { Some(4) } else if c == '5' { Some(5) }
    else if c == '6' { Some(6) } else if c == '7' { Some(7) } else if c == '8' { Some(8) }
    else if c == '9' { Some(9) } else { None }
}

/// Append the decimal digits of `m`, by the same recursion as the spec.
fn push_dec(v: &mut Vec<char>, m: u32)
    ensures
        final(v)@ == old(v)@ + dec_digits(m as nat),
    decreases m,
{
    if m < 10 {
        v.push(digit_char_exec(m));
        proof {
            assert(v@ =~= old(v)@ + dec_digits(m as nat));
        }
    } else {
        push_dec(v, m / 10);
        v.push(digit_char_exec(m % 10));
        proof {
            assert(v@ =~= old(v)@ + dec_digits(m as nat));
        }
    }
}

/// Append the decimal digits of a wide unsigned value.
pub fn push_u64(v: &mut Vec<char>, m: u64)
    ensures
        final(v)@ == old(v)@ + dec_digits(m as nat),
    decreases m,
{
    if m < 10 {
        v.push(digit_char_exec(m as u32));
        proof {
            assert(v@ =~= old(v)@ + dec_digits(m as nat));
        }
    } else {
        push_u64(v, m / 10);
        v.push(digit_char_exec((m % 10) as u32));
        proof {
            assert(v@ =~= old(v)@ + dec_digits(m as nat));
        }
    }
}

/// Append the canonical decimal rendering of `x`.
pub fn push_i32(v: &mut Vec<char>, x: i32)
    ensures
        final(v)@ == old(v)@ + int_chars(x as int),
{
    if x < 0 {
        v.push('-');
        let m = (-(x as i64)) as u32;
        push_dec(v, m);
        proof {
            assert(v@ =~= old(v)@ + int_chars(x as int));
        }
    } else {
        push_dec(v, x as u32);
    }
}

/// A digit string's value never shrinks as the string grows to the right.
proof fn lemma_digits_val_prefix(s: Seq<char>, j: int)
    requires
        0 <= j <= s.len(),
    ensures
        digits_val(s.subrange(0, j)) <= digits_val(s),
    decreases s.len() - j,
{
    if j < s.len() {
        lemma_digits_val_prefix(s.subrange(0, s.len() - 1), j);
        assert(s.subrange(0, s.len() - 1).subrange(0, j) =~= s.subrange(0, j));
        assert(s.subrange(0, s.len() - 1) =~= s.drop_last());
    } else {
        assert(s.subrange(0, j) =~= s);
    }
}

/// Parse a whole character slice as a decimal integer, per
/// `spec_parse_i32`.
pub fn parse_i32(s: &[char]) -> (r: Option<i32>)
    ensures
        r == spec_parse_i32(s@),
{
    let n = s.len();
    if n == 0 {
        return None;
    }
    let neg = s[0] == '-';
    let start: usize = if neg { 1 } else { 0 };
    let ghost t = if neg { s@.subrange(1, s@.len() as int) } else { s@ };
    if n == start {
        return None;
    }
    if n - start > 1 && s[start] == '0' {
        proof {
            assert(t[0] == '0');
            assert(!canonical_digits(t));
        }
        return None;
    }
    let mut acc: u64 = 0;
    let mut i: usize = start;
    while i < n
        invariant
            start <= i <= n,
            n == s@.len(),
            start == if neg { 1int } else { 0int },
            neg == (s@[0] == '-'),
            t == (if neg { s@.subrange(1, s@.len() as int) } else { s@ }),
            forall|j: int| 0 <= j < i - start ==> (#[trigger] digit_val(t[j])) is Some,
            acc == digits_val(t.subrange(0, i - start)),
            acc <= 0x8000_0000,
        decreases n - i,
    {
        proof {
            assert(t.subrange(0, i - start + 1).drop_last() =~= t.subrange(0, i - start));
            assert(t.subrange(0, i - start + 1).last() == t[i - start]);
        }
        let d = match digit_val_exec(s[i]) {
            Some(d) => d,
            None => {
                proof {
                    assert(digit_val(t[i - start]) is None);
                    assert(!canonical_digits(t));
                }
                return None;
            },
        };
        acc = acc * 10 + (d as u64);
        if acc > 0x8000_0000 {
            proof {
                lemma_digits_val_prefix(t, i - start + 1);
                assert(digits_val(t) >= acc);
            }
            return None;
        }
        i = i + 1;
    }
    proof {
        assert(t.subrange(0, n - start) =~= t);
        assert(canonical_digits(t));
    }
    if neg {
        if acc == 0 {
            return None;
        }
        Some((-(acc as i64)) as i32)
    } else {
        if acc > 0x7fff_ffff {
            return None;
        }
        Some(acc as i32)
    }
}

/// Reading back the digit character of a digit gives the digit.
proof fn lemma_digit_char_val(d: nat)
    requires
        d < 10,
    ensures
        digit_val(digit_char(d)) == Some(d),
{
    if d == 0 {
        assert(digit_val(digit_char(d)) == Some(d));
    } else if d == 1 {
        assert(digit_val(digit_char(d)) == Some(d));
    } else if d == 2 {
        assert(digit_val(digit_char(d)) == Some(d));
    } else if d == 3 {
        assert(digit_val(digit_char(d)) == Some(d));
    } else if d == 4 {
        assert(digit_val(digit_char(d)) == Some(d));
    } else if d == 5 {
        assert(digit_val(digit_char(d)) == Some(d));
    } else if d == 6 {
        assert(digit_val(digit_char(d)) == Some(d));
    } else if d == 7 {
        assert(digit_val(digit_char(d)) == Some(d));
    } else if d == 8 {
        assert(digit_val(digit_char(d)) == Some(d));
    } else {
        assert(digit_val(digit_char(d)) == Some(d));
    }
}

/// The digits of `n` are digits, without a leading zero.
pub proof fn lemma_dec_digits_canonical(n: nat)
    ensures
        canonical_digits(dec_digits(n)),
        digits_val(dec_digits(n)) == n,
        n >= 1 ==> dec_digits(n)[0] != '0',
    decreases n,
{
    if n < 10 {
        lemma_digit_char_val(n);
        let s = dec_digits(n);
        assert(s =~= seq![digit_char(n)]);
        assert(s.drop_last() =~= Seq::<char>::empty());
        assert(s.last() == digit_char(n));
        assert(digits_val(s) == digits_val(s.drop_last()) * 10 + digit_val(s.last()).unwrap_or(0nat));
        assert(digits_val(s.drop_last()) == 0);
        assert(digit_val(s.last()).unwrap_or(0nat) == n);
    } else {
        lemma_dec_digits_canonical(n / 10);
        lemma_digit_char_val(n % 10);
        let s = dec_digits(n);
        let s0 = dec_digits(n / 10);
        assert(s == s0.push(digit_char(n % 10)));
        assert(s.drop_last() =~= s0);
        assert(s.last() == digit_char(n % 10));
        assert(digits_val(s) == digits_val(s0) * 10 + digit_val(s.last()).unwrap_or(0nat));
        assert(digit_val(s.last()).unwrap_or(0nat) == n % 10);
        assert(digits_val(s) == (n / 10) * 10 + n % 10);
        assert forall|i: int| 0 <= i < s.len() implies (#[trigger] digit_val(s[i])) is Some by {
            if i < s0.len() {
                assert(digit_val(s0[i]) is Some);
            }
        }
        assert(s[0] == s0[0]);
    }
}

/// Rendering an integer and parsing it back returns the integer: the
/// decimal codec is the identity on the machine range.
pub proof fn lemma_i32_round_trip(x: i32)
    ensures
        spec_parse_i32(int_chars(x as int)) == Some(x),
{
    if x < 0 {
        let m = (-(x as int)) as nat;
        lemma_dec_digits_canonical(m);
        let s = int_chars(x as int);
        assert(s == seq!['-'] + dec_digits(m));
        assert(s[0] == '-');
        assert(s.subrange(1, s.len() as int) =~= dec_digits(m));
    } else {
        lemma_dec_digits_canonical(x as nat);
        let s = int_chars(x as int);
        assert(digit_val(s[0]) is Some);
        assert(digit_val('-') is None);
        assert(s[0] != '-');
    }
}

} // verus!
