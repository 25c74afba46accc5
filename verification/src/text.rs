//! Verified text building and inspection helpers shared by the identifier,
//! query-building and report modules.

use vstd::prelude::*;
use vstd::string::StrSliceExecFns;

verus! {

/// Relies on `String::push`: appends exactly the given character.
#[verifier::external_body]
pub fn push_char(s: &mut String, c: char)
    ensures
        final(s)@ == old(s)@.push(c),
{
    s.push(c);
}

/// The decimal digit character for a value below ten.
pub open spec fn dec_digit(d: int) -> char {
    if d == 0 {
        '0'
    } else if d == 1 {
        '1'
    } else if d == 2 {
        '2'
    } else if d == 3 {
        '3'
    } else if d == 4 {
        '4'
    } else if d == 5 {
        '5'
    } else if d == 6 {
        '6'
    } else if d == 7 {
        '7'
    } else if d == 8 {
        '8'
    } else {
        '9'
    }
}

/// The usual decimal rendering of a natural number, no leading zeros.
pub open spec fn dec_str(n: nat) -> Seq<char>
    decreases n,
{
    if n < 10 {
        seq![dec_digit(n as int)]
    } else {
        dec_str(n / 10).push(dec_digit((n % 10) as int))
    }
}

fn dec_char(d: u8) -> (c: char)
    requires
        d < 10,
    ensures
        c == dec_digit(d as int),
{
    if d == 0 {
        '0'
    } else if d == 1 {
        '1'
    } else if d == 2 {
        '2'
    } else if d == 3 {
        '3'
    } else if d == 4 {
        '4'
    } else if d == 5 {
        '5'
    } else if d == 6 {
        '6'
    } else if d == 7 {
        '7'
    } else if d == 8 {
        '8'
    } else {
        '9'
    }
}

/// Appends the decimal rendering of `n`.
pub fn append_u64(s: &mut String, n: u64)
    ensures
        final(s)@ == old(s)@ + dec_str(n as nat),
    decreases n,
{
    if n < 10 {
        push_char(s, dec_char(n as u8));
        assert(final(s)@ =~= old(s)@ + dec_str(n as nat));
    } else {
        append_u64(s, n / 10);
        push_char(s, dec_char((n % 10) as u8));
        assert(final(s)@ =~= old(s)@ + dec_str(n as nat));
    }
}

/// The lower-case hexadecimal digit character for a value below sixteen.
pub open spec fn hex_digit(d: int) -> char {
    if d < 10 {
        dec_digit(d)
    } else if d == 10 {
        'a'
    } else if d == 11 {
        'b'
    } else if d == 12 {
        'c'
    } else if d == 13 {
        'd'
    } else if d == 14 {
        'e'
    } else {
        'f'
    }
}

fn hex_char(d: u8) -> (c: char)
    requires
        d < 16,
    ensures
        c == hex_digit(d as int),
{
    if d < 10 {
        dec_char(d)
    } else if d == 10 {
        'a'
    } else if d == 11 {
        'b'
    } else if d == 12 {
        'c'
    } else if d == 13 {
        'd'
    } else if d == 14 {
        'e'
    } else {
        'f'
    }
}

/// The two hexadecimal digits of one byte, high nibble first.
pub open spec fn hex_pair(b: u8) -> Seq<char> {
    seq![hex_digit((b >> 4) as int), hex_digit((b & 0x0f) as int)]
}

/// Appends the two hexadecimal digits of one byte.
pub fn append_hex_byte(s: &mut String, b: u8)
    ensures
        final(s)@ == old(s)@ + hex_pair(b),
{
    proof {
        assert((b >> 4) < 16 && (b & 0x0f) < 16) by (bit_vector);
    }
    push_char(s, hex_char(b >> 4));
    push_char(s, hex_char(b & 0x0f));
    assert(final(s)@ =~= old(s)@ + hex_pair(b));
}

/// Whether `c` is a decimal digit.
pub open spec fn is_digit(c: char) -> bool {
    '0' <= c <= '9'
}

/// The numeric value of a digit character.
pub open spec fn digit_val(c: char) -> int {
    c as int - '0' as int
}

/// Whether every character is a decimal digit.
pub open spec fn all_digits(s: Seq<char>) -> bool {
    forall|i: int| 0 <= i < s.len() ==> is_digit(s[i])
}

/// The value of a digit string read as a decimal number.
pub open spec fn digits_val(s: Seq<char>) -> int
    decreases s.len(),
{
    if s.len() == 0 {
        0
    } else {
        digits_val(s.drop_last()) * 10 + digit_val(s.last())
    }
}

/// Ten to the `k`.
pub open spec fn pow10(k: nat) -> nat
    decreases k,
{
    if k == 0 {
        1
    } else {
        10 * pow10((k - 1) as nat)
    }
}

/// A digit string's value is non-negative.
pub proof fn lemma_digits_val_nonneg(s: Seq<char>)
    requires
        all_digits(s),
    ensures
        digits_val(s) >= 0,
    decreases s.len(),
{
    if s.len() > 0 {
        assert(all_digits(s.drop_last()));
        lemma_digits_val_nonneg(s.drop_last());
    }
}

/// Extending a digit string can only grow its value.
pub proof fn lemma_digits_val_prefix(s: Seq<char>, k: int)
    requires
        all_digits(s),
        0 <= k <= s.len(),
    ensures
        digits_val(s) >= digits_val(s.subrange(0, k)),
    decreases s.len() - k,
{
    if k < s.len() {
        lemma_digits_val_prefix(s, k + 1);
        let shorter = s.subrange(0, k);
        let longer = s.subrange(0, k + 1);
        assert(longer.drop_last() =~= shorter);
        assert(all_digits(shorter)) by {
            assert(forall|i: int| 0 <= i < shorter.len() ==> shorter[i] == s[i]);
        }
        lemma_digits_val_nonneg(shorter);
        assert(digits_val(longer) == digits_val(shorter) * 10 + digit_val(s[k]));
    } else {
        assert(s.subrange(0, k) =~= s);
    }
}

/// Whether `c` is a decimal digit.
pub fn is_digit_char(c: char) -> (r: bool)
    ensures
        r == is_digit(c),
{
    '0' <= c && c <= '9'
}

/// Reads `chars[from .. to]` as an unsigned decimal number.
///
/// `None` when a non-digit stands in the range or the value does not fit in
/// 64 bits.
pub fn scan_digits(chars: &Vec<char>, from: usize, to: usize) -> (r: Option<u64>)
    requires
        from <= to <= chars@.len(),
    ensures
        r matches Some(v) ==> all_digits(chars@.subrange(from as int, to as int)) && v
            == digits_val(chars@.subrange(from as int, to as int)),
        r is None ==> !all_digits(chars@.subrange(from as int, to as int)) || digits_val(
            chars@.subrange(from as int, to as int),
        ) > u64::MAX,
{
    let ghost whole = chars@.subrange(from as int, to as int);
    let mut val: u64 = 0;
    let mut i: usize = from;
    while i < to
        invariant
            from <= i <= to <= chars@.len(),
            whole == chars@.subrange(from as int, to as int),
            all_digits(chars@.subrange(from as int, i as int)),
            val == digits_val(chars@.subrange(from as int, i as int)),
        decreases to - i,
    {
        let c = chars[i];
        if !is_digit_char(c) {
            proof {
                assert(whole[i - from] == c);
            }
            return None;
        }
        let d: u64 = (c as u32 - '0' as u32) as u64;
        proof {
            assert(chars@.subrange(from as int, i + 1).drop_last() =~= chars@.subrange(
                from as int,
                i as int,
            ));
            assert(chars@.subrange(from as int, i + 1).last() == c);
        }
        let shifted = match val.checked_mul(10) {
            Some(s) => s,
            None => {
                proof {
                    overflow_case(chars@, from as int, i as int, to as int, c);
                }
                return None;
            },
        };
        val = match shifted.checked_add(d) {
            Some(s) => s,
            None => {
                proof {
                    overflow_case(chars@, from as int, i as int, to as int, c);
                }
                return None;
            },
        };
        i = i + 1;
    }
    proof {
        assert(chars@.subrange(from as int, i as int) =~= whole);
    }
    Some(val)
}

/// When one more digit pushes the running value past 64 bits, the whole
/// range is either not all digits or too large.
proof fn overflow_case(chars: Seq<char>, from: int, i: int, to: int, c: char)
    requires
        0 <= from <= i < to <= chars.len(),
        all_digits(chars.subrange(from, i)),
        is_digit(c),
        c == chars[i],
        digits_val(chars.subrange(from, i)) * 10 + digit_val(c) > u64::MAX,
    ensures
        !all_digits(chars.subrange(from, to)) || digits_val(chars.subrange(from, to)) > u64::MAX,
{
    let whole = chars.subrange(from, to);
    if all_digits(whole) {
        assert(chars.subrange(from, i + 1).drop_last() =~= chars.subrange(from, i));
        assert(chars.subrange(from, i + 1).last() == c);
        assert(digits_val(chars.subrange(from, i + 1)) > u64::MAX);
        lemma_digits_val_prefix(whole, i + 1 - from);
        assert(whole.subrange(0, i + 1 - from) =~= chars.subrange(from, i + 1));
    }
}

/// The most fractional digits a parsed decimal number may carry.
pub const MAX_FRAC_DIGITS: usize = 15;

/// The position of the first `'.'`, or the length when there is none.
pub open spec fn first_dot(s: Seq<char>) -> int
    decreases s.len(),
{
    if s.len() == 0 {
        0
    } else if s[0] == '.' {
        0
    } else {
        1 + first_dot(s.drop_first())
    }
}

/// Pins `first_dot` down from a forward scan: no dot before `k`, and either
/// a dot at `k` or `k` at the end.
pub proof fn lemma_first_dot_from(s: Seq<char>, k: int)
    requires
        0 <= k <= s.len(),
        forall|j: int| 0 <= j < k ==> s[j] != '.',
        k < s.len() ==> s[k] == '.',
    ensures
        first_dot(s) == k,
    decreases k,
{
    if k == 0 {
    } else {
        assert(s[0] != '.');
        let t = s.drop_first();
        assert(forall|j: int| 0 <= j < k - 1 ==> t[j] == s[j + 1] && t[j] != '.');
        lemma_first_dot_from(t, k - 1);
    }
}

/// The digits before the first dot.
pub open spec fn int_part(s: Seq<char>) -> Seq<char> {
    s.subrange(0, first_dot(s))
}

/// The digits after the first dot; empty when there is no dot.
pub open spec fn frac_part(s: Seq<char>) -> Seq<char> {
    if first_dot(s) == s.len() {
        Seq::empty()
    } else {
        s.subrange(first_dot(s) + 1, s.len() as int)
    }
}

/// A plain unsigned decimal number: digits around at most one dot, at least
/// one digit in all.
pub open spec fn valid_number(s: Seq<char>) -> bool {
    &&& all_digits(int_part(s))
    &&& all_digits(frac_part(s))
    &&& int_part(s).len() + frac_part(s).len() > 0
}

/// The number's value as an integer numerator over `number_den`.
pub open spec fn number_num(s: Seq<char>) -> int {
    digits_val(int_part(s)) * pow10(frac_part(s).len()) + digits_val(frac_part(s))
}

/// Ten to the number of fractional digits.
pub open spec fn number_den(s: Seq<char>) -> int {
    pow10(frac_part(s).len()) as int
}

/// A digit string's value stays below ten to its length.
pub proof fn lemma_digits_val_bound(s: Seq<char>)
    requires
        all_digits(s),
    ensures
        digits_val(s) < pow10(s.len()),
    decreases s.len(),
{
    if s.len() == 0 {
    } else {
        assert(all_digits(s.drop_last()));
        lemma_digits_val_bound(s.drop_last());
        assert(digits_val(s) == digits_val(s.drop_last()) * 10 + (s.last() as int - '0' as int));
    }
}

/// Ten to a smaller power is no larger.
pub proof fn lemma_pow10_le(a: nat, b: nat)
    requires
        a <= b,
    ensures
        pow10(a) <= pow10(b),
    decreases b,
{
    if a < b {
        lemma_pow10_le(a, (b - 1) as nat);
        assert(pow10(b) == 10 * pow10((b - 1) as nat));
    }
}

/// Ten to the `k`, computed.
pub fn pow10_u64(k: usize) -> (r: u64)
    requires
        k <= MAX_FRAC_DIGITS,
    ensures
        r == pow10(k as nat),
{
    proof {
        reveal_with_fuel(pow10, 16);
    }
    let mut r: u64 = 1;
    let mut i: usize = 0;
    while i < k
        invariant
            i <= k <= MAX_FRAC_DIGITS,
            r == pow10(i as nat),
        decreases k - i,
    {
        proof {
            lemma_pow10_le(i as nat + 1, MAX_FRAC_DIGITS as nat);
            reveal_with_fuel(pow10, 16);
        }
        r = r * 10;
        i = i + 1;
    }
    r
}

/// The characters of a string slice, in order.
pub fn str_to_chars(s: &str) -> (r: Vec<char>)
    ensures
        r@ == s@,
{
    let len = s.unicode_len();
    let mut r: Vec<char> = Vec::new();
    let mut i: usize = 0;
    while i < len
        invariant
            i <= len,
            len == s@.len(),
            r@ =~= s@.subrange(0, i as int),
        decreases len - i,
    {
        r.push(s.get_char(i));
        i = i + 1;
        assert(r@ =~= s@.subrange(0, i as int));
    }
    assert(r@ =~= s@);
    r
}

/// A fresh string holding exactly the given characters.
pub fn chars_to_string(v: &Vec<char>) -> (r: String)
    ensures
        r@ == v@,
{
    let mut s = String::new();
    let mut i: usize = 0;
    while i < v.len()
        invariant
            i <= v@.len(),
            s@ =~= v@.subrange(0, i as int),
        decreases v@.len() - i,
    {
        push_char(&mut s, v[i]);
        i = i + 1;
        assert(s@ =~= v@.subrange(0, i as int));
    }
    assert(s@ =~= v@);
    s
}

} // verus!
