//! Parsing of container resource-usage report lines: ANSI escape stripping,
//! the five stats fields of one JSON line, human-readable byte sizes and
//! percentages as exact fractions, and their streaming aggregation.

use vstd::prelude::*;

use crate::error::ParseError;
use crate::math::{StreamingStat, MAX_COUNT, MAX_SAMPLE};
use crate::text::{
    all_digits, chars_to_string, digits_val, first_dot, frac_part, int_part,
    lemma_digits_val_bound, lemma_digits_val_nonneg, lemma_first_dot_from, lemma_pow10_le,
    number_den, number_num, pow10, pow10_u64, scan_digits, str_to_chars, valid_number,
    MAX_FRAC_DIGITS,
};

verus! {

/// One binary gibibyte: the unit memory readings are normalized to.
pub const GIB: u64 = 0x4000_0000;

/// One decimal gigabyte: the unit I/O readings are normalized to.
pub const GB: u64 = 1_000_000_000;

/// The control character opening an ANSI escape sequence.
pub open spec fn esc() -> char {
    '\u{1b}'
}

/// A parameter character of an ANSI control sequence.
pub open spec fn is_ansi_param(c: char) -> bool {
    ('0' <= c <= '9') || c == ';'
}

/// An ASCII letter, which closes an ANSI control sequence.
pub open spec fn is_ascii_letter(c: char) -> bool {
    ('a' <= c <= 'z') || ('A' <= c <= 'Z')
}

/// The index just past the closing letter of a parameter run starting at
/// `i`, or 0 when no letter closes it.
pub open spec fn params_end(s: Seq<char>, i: int) -> int
    decreases s.len() - i,
    when 0 <= i <= s.len()
{
    if i >= s.len() {
        0
    } else if is_ascii_letter(s[i]) {
        i + 1
    } else if is_ansi_param(s[i]) {
        params_end(s, i + 1)
    } else {
        0
    }
}

/// A closed parameter run ends past its start and within the text.
proof fn lemma_params_end_bounds(s: Seq<char>, i: int)
    requires
        0 <= i <= s.len(),
    ensures
        params_end(s, i) == 0 || i < params_end(s, i) <= s.len(),
    decreases s.len() - i,
{
    if i < s.len() && !is_ascii_letter(s[i]) && is_ansi_param(s[i]) {
        lemma_params_end_bounds(s, i + 1);
    }
}

/// Pins `params_end` down from a forward scan.
proof fn lemma_params_end_from(s: Seq<char>, i: int, j: int)
    requires
        0 <= i <= j <= s.len(),
        forall|k: int| i <= k < j ==> is_ansi_param(s[k]) && !is_ascii_letter(s[k]),
    ensures
        params_end(s, i) == if j < s.len() && is_ascii_letter(s[j]) {
            j + 1
        } else if j < s.len() && !is_ansi_param(s[j]) {
            0
        } else if j == s.len() {
            0
        } else {
            params_end(s, j)
        },
    decreases j - i,
{
    if i < j {
        lemma_params_end_from(s, i + 1, j);
    }
}

/// The length of the ANSI escape sequence starting at `i`, or 0 when none
/// starts there.
pub open spec fn escape_len(s: Seq<char>, i: int) -> int {
    if 0 <= i && i + 1 < s.len() && s[i] == esc() && s[i + 1] == '[' {
        let e = params_end(s, i + 2);
        if e > 0 {
            e - i
        } else {
            0
        }
    } else {
        0
    }
}

/// The text from `i` on with every ANSI escape sequence removed.
pub open spec fn strip_ansi_from(s: Seq<char>, i: int) -> Seq<char>
    decreases s.len() - i,
    when 0 <= i <= s.len()
    via strip_ansi_from_decreases
{
    if i >= s.len() {
        Seq::empty()
    } else if escape_len(s, i) > 0 {
        strip_ansi_from(s, i + escape_len(s, i))
    } else {
        seq![s[i]] + strip_ansi_from(s, i + 1)
    }
}

#[via_fn]
proof fn strip_ansi_from_decreases(s: Seq<char>, i: int) {
    if 0 <= i < s.len() && escape_len(s, i) > 0 {
        lemma_params_end_bounds(s, i + 2);
    }
}

/// The whole text with every ANSI escape sequence removed.
pub open spec fn strip_ansi(s: Seq<char>) -> Seq<char> {
    strip_ansi_from(s, 0)
}

/// Whether `c` is an ASCII letter.
fn is_ascii_letter_char(c: char) -> (r: bool)
    ensures
        r == is_ascii_letter(c),
{
    ('a' <= c && c <= 'z') || ('A' <= c && c <= 'Z')
}

/// Whether `c` can stand inside an ANSI control sequence's parameters.
fn is_ansi_param_char(c: char) -> (r: bool)
    ensures
        r == is_ansi_param(c),
{
    ('0' <= c && c <= '9') || c == ';'
}

/// Removes every ANSI escape sequence (`ESC [ <digits and semicolons>
/// <letter>`) from the line.
pub fn strip_ansi_escapes(chars: &Vec<char>) -> (r: Vec<char>)
    ensures
        r@ == strip_ansi(chars@),
{
    let ghost s = chars@;
    let mut out: Vec<char> = Vec::new();
    let mut i: usize = 0;
    while i < chars.len()
        invariant
            0 <= i <= s.len(),
            s == chars@,
            strip_ansi(s) == out@ + strip_ansi_from(s, i as int),
        decreases s.len() - i,
    {
        let c = chars[i];
        let mut consumed: bool = false;
        if c == '\u{1b}' && i + 1 < chars.len() {
            if chars[i + 1] == '[' {
                // scan the parameter run for its closing letter
                let mut j: usize = i + 2;
                while j < chars.len() && is_ansi_param_char(chars[j])
                    && !is_ascii_letter_char(chars[j])
                    invariant
                        i + 2 <= j <= s.len(),
                        s == chars@,
                        forall|k: int|
                            i + 2 <= k < j ==> is_ansi_param(s[k]) && !is_ascii_letter(s[k]),
                    decreases s.len() - j,
                {
                    j = j + 1;
                }
                if j < chars.len() && is_ascii_letter_char(chars[j]) {
                    proof {
                        lemma_params_end_from(s, i + 2, j as int);
                        assert(escape_len(s, i as int) == j + 1 - i);
                    }
                    i = j + 1;
                    consumed = true;
                } else {
                    proof {
                        lemma_params_end_from(s, i + 2, j as int);
                        assert(escape_len(s, i as int) == 0);
                    }
                }
            }
        }
        if !consumed {
            proof {
                assert(escape_len(s, i as int) == 0);
                assert((out@ + seq![s[i as int]]) + strip_ansi_from(s, i + 1) =~= out@ + (seq![
                    s[i as int],
                ] + strip_ansi_from(s, i + 1)));
            }
            out.push(c);
            i = i + 1;
        }
    }
    proof {
        assert(out@ + strip_ansi_from(s, i as int) =~= out@);
    }
    out
}

/// The bound every parsed fraction's parts stay under: `2^100`.
pub const RATIO_LIMIT: u128 = 0x10_0000_0000_0000_0000_0000_0000;

/// An exact non-negative fraction with parts far inside 128 bits.
#[derive(Clone, Copy, PartialEq, Eq, Structural, Debug)]
pub struct Ratio {
    pub num: u128,
    pub den: u128,
}

impl Ratio {
    pub open spec fn wf(&self) -> bool {
        1 <= self.den <= RATIO_LIMIT && self.num <= RATIO_LIMIT
    }

    /// The fraction in micro-units, rounded down and saturated at the
    /// largest admissible sample.
    pub open spec fn spec_micros_capped(&self) -> int {
        if (self.num as int) * 1_000_000 / (self.den as int) > MAX_SAMPLE as int {
            MAX_SAMPLE as int
        } else {
            (self.num as int) * 1_000_000 / (self.den as int)
        }
    }

    /// Computes the capped micro-unit reading.
    pub fn micros_capped(&self) -> (r: u64)
        requires
            self.wf(),
        ensures
            r == self.spec_micros_capped(),
            r <= MAX_SAMPLE,
    {
        proof {
            assert((self.num as int) * 1_000_000 <= (RATIO_LIMIT as int) * 1_000_000)
                by (nonlinear_arith)
                requires
                    0 <= self.num as int <= RATIO_LIMIT as int,
            ;
            assert((self.num as int) * 1_000_000 / (self.den as int) >= 0) by (nonlinear_arith)
                requires
                    1 <= self.den as int,
                    0 <= self.num as int,
            ;
        }
        let wide = self.num * 1_000_000;
        let q = wide / self.den;
        if q > MAX_SAMPLE as u128 {
            MAX_SAMPLE
        } else {
            q as u64
        }
    }
}

/// A whitespace character that surrounds a reading.
pub open spec fn is_space(c: char) -> bool {
    c == ' ' || c == '\t' || c == '\r' || c == '\n'
}

fn is_space_char(c: char) -> (r: bool)
    ensures
        r == is_space(c),
{
    c == ' ' || c == '\t' || c == '\r' || c == '\n'
}

/// The position of the first `'/'`, or the length when there is none.
pub open spec fn first_slash(s: Seq<char>) -> int
    decreases s.len(),
{
    if s.len() == 0 {
        0
    } else if s[0] == '/' {
        0
    } else {
        1 + first_slash(s.drop_first())
    }
}

proof fn lemma_first_slash_from(s: Seq<char>, k: int)
    requires
        0 <= k <= s.len(),
        forall|j: int| 0 <= j < k ==> s[j] != '/',
        k < s.len() ==> s[k] == '/',
    ensures
        first_slash(s) == k,
    decreases k,
{
    if k > 0 {
        let t = s.drop_first();
        assert(forall|j: int| 0 <= j < k - 1 ==> t[j] == s[j + 1] && t[j] != '/');
        lemma_first_slash_from(t, k - 1);
    }
}

/// How many whitespace characters open the text.
pub open spec fn lead_spaces(s: Seq<char>) -> int
    decreases s.len(),
{
    if s.len() > 0 && is_space(s[0]) {
        1 + lead_spaces(s.drop_first())
    } else {
        0
    }
}

/// The index just past the last non-whitespace character.
pub open spec fn trail_stop(s: Seq<char>) -> int
    decreases s.len(),
{
    if s.len() > 0 && is_space(s.last()) {
        trail_stop(s.drop_last())
    } else {
        s.len() as int
    }
}

/// The text with surrounding whitespace removed.
pub open spec fn trimmed(s: Seq<char>) -> Seq<char> {
    if trail_stop(s) <= lead_spaces(s) {
        Seq::empty()
    } else {
        s.subrange(lead_spaces(s), trail_stop(s))
    }
}

proof fn lemma_lead_spaces_from(s: Seq<char>, a: int)
    requires
        0 <= a <= s.len(),
        forall|k: int| 0 <= k < a ==> is_space(s[k]),
        a < s.len() ==> !is_space(s[a]),
    ensures
        lead_spaces(s) == a,
    decreases a,
{
    if a > 0 {
        let t = s.drop_first();
        assert(forall|k: int| 0 <= k < a - 1 ==> t[k] == s[k + 1] && is_space(t[k]));
        lemma_lead_spaces_from(t, a - 1);
    }
}

/// The trail stop never passes the ends of the text.
proof fn lemma_trail_stop_bounds(s: Seq<char>)
    ensures
        0 <= trail_stop(s) <= s.len(),
    decreases s.len(),
{
    if s.len() > 0 && is_space(s.last()) {
        lemma_trail_stop_bounds(s.drop_last());
    }
}

proof fn lemma_trail_stop_from(s: Seq<char>, b: int)
    requires
        0 <= b <= s.len(),
        forall|k: int| b <= k < s.len() ==> is_space(s[k]),
        b > 0 ==> !is_space(s[b - 1]),
    ensures
        trail_stop(s) == b,
    decreases s.len() - b,
{
    if b < s.len() {
        let t = s.drop_last();
        assert(forall|k: int| b <= k < t.len() ==> t[k] == s[k] && is_space(t[k]));
        assert(b > 0 ==> t[b - 1] == s[b - 1]);
        lemma_trail_stop_from(t, b);
    }
}

/// The scale factor of one byte-size unit: binary units step in powers of
/// `2^10`, decimal units in powers of `10^3`.
pub open spec fn unit_multiplier(base2: bool, level: int) -> int {
    if base2 {
        if level == 1 {
            0x400
        } else if level == 2 {
            0x10_0000
        } else if level == 3 {
            0x4000_0000
        } else {
            1
        }
    } else {
        if level == 1 {
            1000
        } else if level == 2 {
            1_000_000
        } else if level == 3 {
            1_000_000_000
        } else {
            1
        }
    }
}

/// The exact value of one trimmed byte-size reading such as `"24.6kB"`:
/// a numerator together with its power-of-ten denominator, scaled by the
/// unit. `None` for anything malformed, for the unit `"iB"`, and for a
/// numerator beyond 64 bits or fifteen fractional digits.
pub open spec fn byte_size_value(t: Seq<char>) -> Option<(int, int)> {
    if t.len() == 0 || t.last() != 'B' {
        None
    } else {
        let u = t.drop_last();
        let base2 = u.len() > 0 && u.last() == 'i';
        let v = if base2 {
            u.drop_last()
        } else {
            u
        };
        let level: int = if v.len() > 0 && (v.last() == 'K' || v.last() == 'k') {
            1
        } else if v.len() > 0 && v.last() == 'M' {
            2
        } else if v.len() > 0 && v.last() == 'G' {
            3
        } else {
            0
        };
        let w = if level == 0 {
            v
        } else {
            v.drop_last()
        };
        if base2 && level == 0 {
            None
        } else if !valid_number(w) || frac_part(w).len() > MAX_FRAC_DIGITS || number_num(w)
            > u64::MAX {
            None
        } else {
            Some((number_num(w) * unit_multiplier(base2, level), number_den(w)))
        }
    }
}

/// The value of a `"current / limit"` byte-size field: the `current` part
/// before the first `'/'`, trimmed and read as a byte size.
pub open spec fn mem_field_value(s: Seq<char>) -> Option<(int, int)> {
    byte_size_value(trimmed(s.subrange(0, first_slash(s))))
}

/// The exact value of a trimmed percentage reading such as `"7.46%"`: a
/// numerator together with its power-of-ten denominator.
pub open spec fn percent_field_value(s: Seq<char>) -> Option<(int, int)> {
    let t = trimmed(s);
    if t.len() == 0 || t.last() != '%' {
        None
    } else {
        let w = t.drop_last();
        if !valid_number(w) || frac_part(w).len() > MAX_FRAC_DIGITS || number_num(w) > u64::MAX {
            None
        } else {
            Some((number_num(w), number_den(w)))
        }
    }
}

/// Reads `piece[0 .. end]` as a plain decimal number, exactly.
fn parse_decimal_value(piece: &Vec<char>, end: usize) -> (r: Option<(u64, u64)>)
    requires
        end <= piece@.len(),
    ensures
        ({
            let w = piece@.subrange(0, end as int);
            &&& (r is Some <==> (valid_number(w) && frac_part(w).len() <= MAX_FRAC_DIGITS
                && number_num(w) <= u64::MAX))
            &&& (r matches Some(p) ==> p.0 == number_num(w) && p.1 == number_den(w) && p.1 >= 1)
        }),
{
    let ghost w = piece@.subrange(0, end as int);
    let mut dot: usize = end;
    let mut i: usize = 0;
    while i < end
        invariant
            i <= end <= piece@.len(),
            dot == end || (dot < end && piece@[dot as int] == '.'),
            dot == end ==> forall|j: int| 0 <= j < i ==> piece@[j] != '.',
            dot < end ==> forall|j: int| 0 <= j < dot ==> piece@[j] != '.',
        decreases end - i,
    {
        if piece[i] == '.' {
            if dot == end {
                dot = i;
            }
        }
        i = i + 1;
    }
    proof {
        lemma_first_dot_from(w, dot as int);
        assert(int_part(w) =~= piece@.subrange(0, dot as int));
    }
    let int_val = match scan_digits(piece, 0, dot) {
        Some(v) => v,
        None => {
            proof {
                if all_digits(int_part(w)) && valid_number(w) && frac_part(w).len()
                    <= MAX_FRAC_DIGITS && number_num(w) <= u64::MAX {
                    lemma_digits_val_nonneg(frac_part(w));
                    lemma_pow10_le(0, frac_part(w).len());
                    assert(digits_val(int_part(w)) * pow10(frac_part(w).len()) >= digits_val(
                        int_part(w),
                    ) * 1) by (nonlinear_arith)
                        requires
                            digits_val(int_part(w)) >= 0,
                            pow10(frac_part(w).len()) >= 1,
                    ;
                    assert(false);
                }
            }
            return None;
        },
    };
    let frac_start: usize = if dot == end {
        dot
    } else {
        dot + 1
    };
    let frac_len: usize = end - frac_start;
    proof {
        assert(frac_part(w) =~= piece@.subrange(frac_start as int, end as int));
    }
    if frac_len > MAX_FRAC_DIGITS {
        return None;
    }
    let frac_val = match scan_digits(piece, frac_start, end) {
        Some(v) => v,
        None => {
            proof {
                if all_digits(frac_part(w)) {
                    lemma_digits_val_bound(frac_part(w));
                    lemma_pow10_le(frac_part(w).len(), MAX_FRAC_DIGITS as nat);
                    reveal_with_fuel(pow10, 16);
                }
            }
            return None;
        },
    };
    if dot == 0 && frac_len == 0 {
        return None;
    }
    proof {
        lemma_digits_val_bound(frac_part(w));
        lemma_digits_val_nonneg(frac_part(w));
        lemma_pow10_le(frac_part(w).len(), MAX_FRAC_DIGITS as nat);
        reveal_with_fuel(pow10, 16);
    }
    let den0 = pow10_u64(frac_len);
    match int_val.checked_mul(den0) {
        Some(v) => match v.checked_add(frac_val) {
            Some(num0) => Some((num0, den0)),
            None => {
                proof {
                    lemma_decimal_overflow(w, int_val as int);
                }
                None
            },
        },
        None => {
            proof {
                lemma_decimal_overflow(w, int_val as int);
            }
            None
        },
    }
}

/// A numerator that does not fit in 64 bits marks the number as rejected.
proof fn lemma_decimal_overflow(w: Seq<char>, int_val: int)
    requires
        valid_number(w),
        int_val == digits_val(int_part(w)),
        int_val * pow10(frac_part(w).len()) + digits_val(frac_part(w)) > u64::MAX,
    ensures
        number_num(w) > u64::MAX,
{
}

/// Parses the `current` part of a `"current / limit"` byte-size reading
/// and normalizes it by `divide_by`: binary units (`KiB`, `MiB`, `GiB`)
/// step by 1024, decimal units (`KB`, `MB`, `GB`) by 1000, bare `B` is a
/// byte count.
pub fn parse_mem_current_max(input: &str, divide_by: u64) -> (r: Result<Ratio, ParseError>)
    requires
        1 <= divide_by <= 0x4000_0000,
    ensures
        r is Ok <==> mem_field_value(input@) is Some,
        r matches Err(e) ==> e == ParseError::MalformedByteSize,
        r matches Ok(q) ==> mem_field_value(input@) matches Some(p) && q.num == p.0 && q.den == p.1
            * divide_by && q.wf(),
{
    let chars = str_to_chars(input);
    let n = chars.len();
    // cut at the first '/'
    let mut slash: usize = n;
    let mut i: usize = 0;
    while i < n && slash == n
        invariant
            i <= n,
            n == chars@.len(),
            slash == n || (slash < n && chars@[slash as int] == '/'),
            slash == n ==> forall|j: int| 0 <= j < i ==> chars@[j] != '/',
            slash < n ==> forall|j: int| 0 <= j < slash ==> chars@[j] != '/',
        decreases n - i,
    {
        if chars[i] == '/' {
            slash = i;
        }
        i = i + 1;
    }
    proof {
        lemma_first_slash_from(chars@, slash as int);
    }
    match parse_trimmed_byte_size(&chars, slash) {
        Some((num0, mult, den0)) => {
            proof {
                assert((num0 as int) * (mult as int) <= (u64::MAX as int) * 0x4000_0000)
                    by (nonlinear_arith)
                    requires
                        0 <= num0 as int <= u64::MAX as int,
                        0 <= mult as int <= 0x4000_0000,
                ;
                assert((den0 as int) * (divide_by as int) <= (u64::MAX as int) * 0x4000_0000)
                    by (nonlinear_arith)
                    requires
                        0 <= den0 as int <= u64::MAX as int,
                        0 <= divide_by as int <= 0x4000_0000,
                ;
                assert((den0 as int) * (divide_by as int) >= 1) by (nonlinear_arith)
                    requires
                        1 <= den0 as int,
                        1 <= divide_by as int,
                ;
            }
            Ok(
                Ratio {
                    num: (num0 as u128) * (mult as u128),
                    den: (den0 as u128) * (divide_by as u128),
                },
            )
        },
        None => Err(ParseError::MalformedByteSize),
    }
}

/// Reads the trimmed prefix `chars[0 .. stop]` as a byte-size reading.
fn parse_trimmed_byte_size(chars: &Vec<char>, stop: usize) -> (r: Option<(u64, u64, u64)>)
    requires
        stop <= chars@.len(),
    ensures
        ({
            let value = byte_size_value(trimmed(chars@.subrange(0, stop as int)));
            &&& (r is Some <==> value is Some)
            &&& (r matches Some(p) ==> value matches Some(v) && (p.0 as int) * (p.1 as int) == v.0
                && p.2 == v.1 && p.2 >= 1 && p.1 <= 0x4000_0000)
        }),
{
    let ghost cut = chars@.subrange(0, stop as int);
    // trim the piece
    let mut a: usize = 0;
    while a < stop && is_space_char(chars[a])
        invariant
            a <= stop <= chars@.len(),
            forall|k: int| 0 <= k < a ==> is_space(chars@[k]),
        decreases stop - a,
    {
        a = a + 1;
    }
    proof {
        lemma_lead_spaces_from(cut, a as int);
    }
    if a == stop {
        proof {
            lemma_trail_stop_bounds(cut);
            assert(trimmed(cut) =~= Seq::<char>::empty());
        }
        return None;
    }
    let mut b: usize = stop;
    while b > a && is_space_char(chars[b - 1])
        invariant
            a <= b <= stop <= chars@.len(),
            forall|k: int| b <= k < stop ==> is_space(#[trigger] chars@[k]),
        decreases b,
    {
        b = b - 1;
    }
    proof {
        assert(!is_space(cut[a as int]));
        assert(b > a);
        lemma_trail_stop_from(cut, b as int);
        assert(trimmed(cut) =~= chars@.subrange(a as int, b as int));
    }
    // copy the trimmed piece so the unit suffixes peel off by index
    let mut piece: Vec<char> = Vec::new();
    let mut k: usize = a;
    while k < b
        invariant
            a <= k <= b <= chars@.len(),
            piece@ =~= chars@.subrange(a as int, k as int),
        decreases b - k,
    {
        piece.push(chars[k]);
        k = k + 1;
        assert(piece@ =~= chars@.subrange(a as int, k as int));
    }
    let ghost t = trimmed(cut);
    proof {
        assert(piece@ =~= t);
    }
    let m = piece.len();
    if m == 0 {
        return None;
    }
    if piece[m - 1] != 'B' {
        return None;
    }
    let mut end = m - 1;
    proof {
        assert(t.drop_last() =~= piece@.subrange(0, end as int));
    }
    let base2 = end > 0 && piece[end - 1] == 'i';
    if base2 {
        end = end - 1;
    }
    let level: u32 = if end > 0 && (piece[end - 1] == 'K' || piece[end - 1] == 'k') {
        end = end - 1;
        1
    } else if end > 0 && piece[end - 1] == 'M' {
        end = end - 1;
        2
    } else if end > 0 && piece[end - 1] == 'G' {
        end = end - 1;
        3
    } else {
        0
    };
    if base2 && level == 0 {
        return None;
    }
    proof {
        let u = t.drop_last();
        let v = if u.len() > 0 && u.last() == 'i' {
            u.drop_last()
        } else {
            u
        };
        assert(v =~= piece@.subrange(0, if base2 { (m - 2) as int } else { (m - 1) as int }));
        let w0 = if level == 0 {
            v
        } else {
            v.drop_last()
        };
        assert(w0 =~= piece@.subrange(0, end as int));
    }
    let mult: u64 = if base2 {
        if level == 1 {
            0x400
        } else if level == 2 {
            0x10_0000
        } else {
            0x4000_0000
        }
    } else {
        if level == 1 {
            1000
        } else if level == 2 {
            1_000_000
        } else if level == 3 {
            1_000_000_000
        } else {
            1
        }
    };
    match parse_decimal_value(&piece, end) {
        Some((num0, den0)) => Some((num0, mult, den0)),
        None => None,
    }
}

/// Parses a percentage reading such as `"7.46%"` into its exact fraction
/// over a power of ten.
pub fn parse_percentage(input: &str) -> (r: Result<Ratio, ParseError>)
    ensures
        r is Ok <==> percent_field_value(input@) is Some,
        r matches Err(e) ==> e == ParseError::MalformedPercentage,
        r matches Ok(q) ==> percent_field_value(input@) matches Some(p) && q.num == p.0 && q.den
            == p.1 && q.wf(),
{
    let chars = str_to_chars(input);
    let n = chars.len();
    // trim
    let mut a: usize = 0;
    while a < n && is_space_char(chars[a])
        invariant
            a <= n,
            n == chars@.len(),
            forall|k: int| 0 <= k < a ==> is_space(chars@[k]),
        decreases n - a,
    {
        a = a + 1;
    }
    proof {
        lemma_lead_spaces_from(chars@, a as int);
    }
    if a == n {
        proof {
            lemma_trail_stop_bounds(chars@);
            assert(trimmed(chars@) =~= Seq::<char>::empty());
        }
        return Err(ParseError::MalformedPercentage);
    }
    let mut b: usize = n;
    while b > a && is_space_char(chars[b - 1])
        invariant
            a <= b <= n,
            n == chars@.len(),
            forall|k: int| b <= k < n ==> is_space(#[trigger] chars@[k]),
        decreases b,
    {
        b = b - 1;
    }
    proof {
        assert(!is_space(chars@[a as int]));
        assert(b > a);
        lemma_trail_stop_from(chars@, b as int);
        assert(trimmed(chars@) =~= chars@.subrange(a as int, b as int));
    }
    let mut piece: Vec<char> = Vec::new();
    let mut k: usize = a;
    while k < b
        invariant
            a <= k <= b <= chars@.len(),
            piece@ =~= chars@.subrange(a as int, k as int),
        decreases b - k,
    {
        piece.push(chars[k]);
        k = k + 1;
        assert(piece@ =~= chars@.subrange(a as int, k as int));
    }
    let ghost t = trimmed(chars@);
    proof {
        assert(piece@ =~= t);
    }
    let m = piece.len();
    if m == 0 {
        return Err(ParseError::MalformedPercentage);
    }
    if piece[m - 1] != '%' {
        return Err(ParseError::MalformedPercentage);
    }
    proof {
        assert(t.drop_last() =~= piece@.subrange(0, (m - 1) as int));
    }
    match parse_decimal_value(&piece, m - 1) {
        Some((num0, den0)) => Ok(Ratio { num: num0 as u128, den: den0 as u128 }),
        None => Err(ParseError::MalformedPercentage),
    }
}

/// The five string fields (`Name`, `MemUsage`, `CPUPerc`, `BlockIO`,
/// `NetIO`) of one container-stats JSON line, where the line parses as one
/// JSON object carrying all five as strings.
pub uninterp spec fn stat_line_fields(s: Seq<char>) -> Option<
    (Seq<char>, Seq<char>, Seq<char>, Seq<char>, Seq<char>),
>;

/// Relies on `serde_json::from_str` and `Value`'s field access: one JSON
/// object's five container-stats string fields, or nothing when the line
/// is not such an object.
#[verifier::external_body]
fn parse_stat_line_json(line: &str) -> (r: Option<(String, String, String, String, String)>)
    ensures
        r is Some <==> stat_line_fields(line@) is Some,
        r matches Some(t) ==> stat_line_fields(line@) matches Some(u) && t.0@ == u.0 && t.1@ == u.1
            && t.2@ == u.2 && t.3@ == u.3 && t.4@ == u.4,
{
    let v: serde_json::Value = serde_json::from_str(line).ok()?;
    Some((
        v.get("Name")?.as_str()?.to_owned(),
        v.get("MemUsage")?.as_str()?.to_owned(),
        v.get("CPUPerc")?.as_str()?.to_owned(),
        v.get("BlockIO")?.as_str()?.to_owned(),
        v.get("NetIO")?.as_str()?.to_owned(),
    ))
}

/// Whether `p` opens `s`.
pub open spec fn is_prefix(p: Seq<char>, s: Seq<char>) -> bool {
    p.len() <= s.len() && s.subrange(0, p.len() as int) == p
}

/// Whether the prefix opens the name.
fn starts_with(name: &Vec<char>, prefix: &Vec<char>) -> (r: bool)
    ensures
        r == is_prefix(prefix@, name@),
{
    if name.len() < prefix.len() {
        assert(!is_prefix(prefix@, name@));
        return false;
    }
    let mut i: usize = 0;
    while i < prefix.len()
        invariant
            i <= prefix@.len() <= name@.len(),
            forall|k: int| 0 <= k < i ==> name@[k] == prefix@[k],
        decreases prefix@.len() - i,
    {
        if name[i] != prefix[i] {
            assert(name@.subrange(0, prefix@.len() as int)[i as int] != prefix@[i as int]);
            return false;
        }
        i = i + 1;
    }
    assert(name@.subrange(0, prefix@.len() as int) =~= prefix@);
    true
}

/// One parsed resource snapshot, in exact fractions of the configured
/// units.
#[derive(Clone, Copy, PartialEq, Eq, Structural, Debug)]
pub struct StatPoint {
    pub memory: Ratio,
    pub cpu: Ratio,
    pub block_io: Ratio,
    pub net_io: Ratio,
}

impl StatPoint {
    pub open spec fn wf(&self) -> bool {
        self.memory.wf() && self.cpu.wf() && self.block_io.wf() && self.net_io.wf()
    }
}

/// What one report line yields: nothing for an all-escape line or a
/// foreign container, a snapshot for a matching line, and a fatal error
/// for a matching line that does not parse.
pub open spec fn spec_parse_line(prefix: Seq<char>, line: Seq<char>) -> Result<
    Option<StatPoint>,
    ParseError,
> {
    let stripped = strip_ansi(line);
    if stripped.len() == 0 {
        Ok(None)
    } else {
        match stat_line_fields(stripped) {
            None => Err(ParseError::MalformedStatLine),
            Some(f) => if !is_prefix(prefix, f.0) {
                Ok(None)
            } else {
                match mem_field_value(f.1) {
                    None => Err(ParseError::MalformedByteSize),
                    Some(mem) => match percent_field_value(f.2) {
                        None => Err(ParseError::MalformedPercentage),
                        Some(cpu) => match mem_field_value(f.3) {
                            None => Err(ParseError::MalformedByteSize),
                            Some(blk) => match mem_field_value(f.4) {
                                None => Err(ParseError::MalformedByteSize),
                                Some(net) => Ok(
                                    Some(
                                        (StatPoint {
                                            memory: Ratio {
                                                num: mem.0 as u128,
                                                den: (mem.1 * GIB) as u128,
                                            },
                                            cpu: Ratio { num: cpu.0 as u128, den: cpu.1 as u128 },
                                            block_io: Ratio {
                                                num: blk.0 as u128,
                                                den: (blk.1 * GB) as u128,
                                            },
                                            net_io: Ratio {
                                                num: net.0 as u128,
                                                den: (net.1 * GB) as u128,
                                            },
                                        }),
                                    ),
                                ),
                            },
                        },
                    },
                }
            },
        }
    }
}

/// Parses container-stats report lines for one backend, keeping only the
/// containers whose name starts with the backend's prefix.
pub struct LineParser {
    name_prefix: Vec<char>,
}

impl LineParser {
    pub closed spec fn spec_prefix(&self) -> Seq<char> {
        self.name_prefix@
    }

    /// A parser for containers of the named backend.
    pub fn new(name_prefix: &str) -> (r: LineParser)
        ensures
            r.spec_prefix() == name_prefix@,
    {
        LineParser { name_prefix: str_to_chars(name_prefix) }
    }

    /// Parses one report line: strips ANSI escapes, skips empty lines and
    /// foreign containers, and reads the four resource fields; a matching
    /// line that does not parse is a fatal error for the whole scan.
    pub fn parse(&self, line: &str) -> (r: Result<Option<StatPoint>, ParseError>)
        ensures
            r == spec_parse_line(self.spec_prefix(), line@),
            r matches Ok(Some(p)) ==> p.wf(),
    {
        let chars = str_to_chars(line);
        let stripped = strip_ansi_escapes(&chars);
        if stripped.len() == 0 {
            return Ok(None);
        }
        let text = chars_to_string(&stripped);
        let (name, memory, cpu, block_io, net_io) = match parse_stat_line_json(text.as_str()) {
            Some(f) => f,
            None => {
                return Err(ParseError::MalformedStatLine);
            },
        };
        let name_chars = str_to_chars(name.as_str());
        if !starts_with(&name_chars, &self.name_prefix) {
            return Ok(None);
        }
        let memory = match parse_mem_current_max(memory.as_str(), GIB) {
            Ok(q) => q,
            Err(e) => {
                return Err(e);
            },
        };
        let cpu = match parse_percentage(cpu.as_str()) {
            Ok(q) => q,
            Err(e) => {
                return Err(e);
            },
        };
        let block_io = match parse_mem_current_max(block_io.as_str(), GB) {
            Ok(q) => q,
            Err(e) => {
                return Err(e);
            },
        };
        let net_io = match parse_mem_current_max(net_io.as_str(), GB) {
            Ok(q) => q,
            Err(e) => {
                return Err(e);
            },
        };
        Ok(Some(StatPoint { memory, cpu, block_io, net_io }))
    }
}

/// One resource's running aggregate: the largest and smallest micro-unit
/// reading seen, and the streaming statistics over all readings.
pub struct Stat {
    max: u64,
    min: u64,
    dist: StreamingStat,
}

impl Stat {
    pub closed spec fn wf(&self) -> bool {
        self.dist.wf()
    }

    pub closed spec fn samples(&self) -> Seq<int> {
        self.dist.samples()
    }

    pub closed spec fn spec_max(&self) -> u64 {
        self.max
    }

    /// An empty aggregate.
    pub fn new() -> (r: Stat)
        ensures
            r.wf(),
            r.samples() == Seq::<int>::empty(),
            r.spec_max() == 0,
    {
        Stat { max: 0, min: 0, dist: StreamingStat::new() }
    }

    /// The largest reading seen, in micro-units.
    pub fn max_micros(&self) -> (r: u64)
        ensures
            r == self.spec_max(),
    {
        self.max
    }

    /// The mean reading as the exact fraction `sum / count`, in
    /// micro-units.
    pub fn mean_parts(&self) -> (r: (u128, u64))
        requires
            self.wf(),
        ensures
            r.0 == crate::math::seq_sum(self.samples()),
            r.1 == self.samples().len(),
    {
        self.dist.mean_parts()
    }

    /// The sample variance of the readings as an exact fraction, in
    /// squared micro-units.
    pub fn sample_variance_parts(&self) -> (r: (i128, u128))
        requires
            self.wf(),
            self.samples().len() >= 2,
        ensures
            r.0 == self.samples().len() * crate::math::seq_sum_sq(self.samples()) -
                crate::math::seq_sum(self.samples()) * crate::math::seq_sum(self.samples()),
            r.1 == self.samples().len() * (self.samples().len() - 1),
    {
        self.dist.sample_variance_parts()
    }

    /// Folds in one micro-unit reading.
    fn update(&mut self, value: u64)
        requires
            old(self).wf(),
            old(self).samples().len() < MAX_COUNT,
            value <= MAX_SAMPLE,
        ensures
            final(self).wf(),
            final(self).samples() == old(self).samples().push(value as int),
            final(self).spec_max() == if value > old(self).spec_max() {
                value
            } else {
                old(self).spec_max()
            },
    {
        if value > self.max {
            self.max = value;
        }
        if value < self.min {
            self.min = value;
        }
        self.dist.update(value);
    }
}

/// The larger of a running maximum and a fresh reading.
pub open spec fn spec_max_of(current: u64, value: int) -> int {
    if value > current {
        value
    } else {
        current as int
    }
}

/// The four per-resource aggregates of one telemetry scan.
pub struct DockerStats {
    pub memory: Stat,
    pub cpu: Stat,
    pub block_io: Stat,
    pub net_io: Stat,
}

impl DockerStats {
    pub open spec fn wf(&self) -> bool {
        &&& self.memory.wf()
        &&& self.cpu.wf()
        &&& self.block_io.wf()
        &&& self.net_io.wf()
        &&& self.memory.samples().len() == self.cpu.samples().len()
        &&& self.memory.samples().len() == self.block_io.samples().len()
        &&& self.memory.samples().len() == self.net_io.samples().len()
    }

    /// Empty aggregates.
    pub fn new() -> (r: DockerStats)
        ensures
            r.wf(),
            r.memory.samples() == Seq::<int>::empty(),
    {
        DockerStats { memory: Stat::new(), cpu: Stat::new(), block_io: Stat::new(), net_io: Stat::new() }
    }

    /// Folds one snapshot into all four aggregates; reports whether there
    /// was still room for it.
    pub fn update(&mut self, point: &StatPoint) -> (r: bool)
        requires
            old(self).wf(),
            point.wf(),
        ensures
            final(self).wf(),
            r <==> old(self).memory.samples().len() < MAX_COUNT,
            r ==> final(self).memory.samples() == old(self).memory.samples().push(
                point.memory.spec_micros_capped(),
            ),
            r ==> final(self).cpu.samples() == old(self).cpu.samples().push(
                point.cpu.spec_micros_capped(),
            ),
            r ==> final(self).block_io.samples() == old(self).block_io.samples().push(
                point.block_io.spec_micros_capped(),
            ),
            r ==> final(self).net_io.samples() == old(self).net_io.samples().push(
                point.net_io.spec_micros_capped(),
            ),
            r ==> final(self).memory.spec_max() == spec_max_of(
                old(self).memory.spec_max(),
                point.memory.spec_micros_capped(),
            ),
            r ==> final(self).cpu.spec_max() == spec_max_of(
                old(self).cpu.spec_max(),
                point.cpu.spec_micros_capped(),
            ),
            r ==> final(self).block_io.spec_max() == spec_max_of(
                old(self).block_io.spec_max(),
                point.block_io.spec_micros_capped(),
            ),
            r ==> final(self).net_io.spec_max() == spec_max_of(
                old(self).net_io.spec_max(),
                point.net_io.spec_micros_capped(),
            ),
            !r ==> *final(self) == *old(self),
    {
        if self.memory.dist.count() >= MAX_COUNT {
            return false;
        }
        self.memory.update(point.memory.micros_capped());
        self.cpu.update(point.cpu.micros_capped());
        self.block_io.update(point.block_io.micros_capped());
        self.net_io.update(point.net_io.micros_capped());
        true
    }
}


} // verus!

