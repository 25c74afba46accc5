//! Numeric range samplers for date populations: a uniform draw over an
//! inclusive range, and a bell-shaped draw whose mean and spread are given
//! as percentages of the range width and whose overshoot is reflected back
//! into the range.

use vstd::prelude::*;

use rand::rngs::StdRng;

use crate::distribution::rng::gen_range_inclusive_u64;
use crate::error::ConfigError;
use crate::text::{
    all_digits, digits_val, first_dot, frac_part, int_part, lemma_digits_val_bound,
    lemma_digits_val_nonneg, lemma_first_dot_from, lemma_pow10_le, number_den, number_num, pow10,
    pow10_u64, scan_digits, str_to_chars, valid_number, MAX_FRAC_DIGITS,
};

verus! {

/// An exact fraction in `[0, 1]`, parsed from a percentage string.
#[derive(Clone, Copy, Debug)]
pub struct Percentage {
    num: u64,
    den: u64,
}

impl Percentage {
    pub closed spec fn spec_num(&self) -> u64 {
        self.num
    }

    pub closed spec fn spec_den(&self) -> u64 {
        self.den
    }

    pub closed spec fn wf(&self) -> bool {
        0 < self.den && self.num <= self.den
    }

    /// The numerator of the fraction.
    pub fn num(&self) -> (r: u64)
        ensures
            r == self.spec_num(),
    {
        self.num
    }

    /// The denominator of the fraction.
    pub fn den(&self) -> (r: u64)
        ensures
            r == self.spec_den(),
            self.wf() ==> 0 < r && self.spec_num() <= r,
    {
        self.den
    }
}

/// A percentage string: a decimal number (with at most
/// `MAX_FRAC_DIGITS` fractional digits) between 0 and 100, followed
/// by `'%'`.
pub open spec fn valid_percent_str(s: Seq<char>) -> bool {
    &&& s.len() >= 2
    &&& s.last() == '%'
    &&& valid_number(s.drop_last())
    &&& frac_part(s.drop_last()).len() <= MAX_FRAC_DIGITS
    &&& number_num(s.drop_last()) <= 100 * number_den(s.drop_last())
}

/// The fraction of one that a valid percentage string denotes, as an exact
/// numerator over `percent_den`.
pub open spec fn percent_num(s: Seq<char>) -> int {
    number_num(s.drop_last())
}

pub open spec fn percent_den(s: Seq<char>) -> int {
    100 * number_den(s.drop_last())
}

/// Parses a percentage string of the exact form `"<number>%"` with a value
/// between 0 and 100, into the exact fraction of one it denotes: `"10%"`
/// becomes `10/100`. Anything else is a configuration error.
#[verifier::rlimit(100)]
pub fn parse_percentage(s: &str) -> (r: Result<Percentage, ConfigError>)
    ensures
        r is Ok <==> valid_percent_str(s@),
        r matches Err(e) ==> e == ConfigError::InvalidPercentage,
        r matches Ok(p) ==> p.wf() && p.spec_num() == percent_num(s@) && p.spec_den()
            == percent_den(s@),
{
    let chars = str_to_chars(s);
    let n = chars.len();
    if n < 2 {
        return Err(ConfigError::InvalidPercentage);
    }
    if chars[n - 1] != '%' {
        return Err(ConfigError::InvalidPercentage);
    }
    let ghost body = s@.drop_last();
    proof {
        assert(body =~= chars@.subrange(0, n - 1));
    }
    // find the first dot of the body; `n - 1` stands for "none"
    let mut dot: usize = n - 1;
    let mut i: usize = 0;
    while i < n - 1 && dot == n - 1
        invariant
            n == chars@.len(),
            n >= 2,
            i <= n - 1,
            dot == n - 1 || (dot < n - 1 && chars@[dot as int] == '.'),
            dot == n - 1 ==> forall|j: int| 0 <= j < i ==> chars@[j] != '.',
            dot < n - 1 ==> forall|j: int| 0 <= j < dot ==> chars@[j] != '.',
        decreases n - 1 - i,
    {
        if chars[i] == '.' {
            dot = i;
        }
        i = i + 1;
    }
    proof {
        lemma_first_dot_from(body, dot as int);
        assert(first_dot(body) == dot);
    }
    proof {
        assert(int_part(body) =~= chars@.subrange(0, dot as int));
    }
    let int_val = match scan_digits(&chars, 0, dot) {
        Some(v) => v,
        None => {
            proof {
                if all_digits(int_part(body)) {
                    // only an overflowing integer part is left: far above 100
                    if valid_percent_str(s@) {
                        lemma_digits_val_nonneg(frac_part(body));
                        lemma_pow10_le(frac_part(body).len(), MAX_FRAC_DIGITS as nat);
                        reveal_with_fuel(pow10, 16);
                        assert(digits_val(int_part(body)) * pow10(frac_part(body).len())
                            >= digits_val(int_part(body)) * 1) by (nonlinear_arith)
                            requires digits_val(int_part(body)) >= 0, pow10(frac_part(body).len()) >= 1;
                        assert(100 * number_den(body) <= 100 * pow10(
                            MAX_FRAC_DIGITS as nat,
                        )) by (nonlinear_arith)
                            requires number_den(body) <= pow10(MAX_FRAC_DIGITS as nat);
                        assert(false);
                    }
                }
            }
            return Err(ConfigError::InvalidPercentage);
        },
    };
    let frac_start: usize = if dot == n - 1 {
        dot
    } else {
        dot + 1
    };
    let frac_len: usize = (n - 1) - frac_start;
    proof {
        assert(frac_part(body) =~= chars@.subrange(frac_start as int, n - 1));
    }
    if frac_len > MAX_FRAC_DIGITS {
        return Err(ConfigError::InvalidPercentage);
    }
    let frac_val = match scan_digits(&chars, frac_start, n - 1) {
        Some(v) => v,
        None => {
            proof {
                if all_digits(frac_part(body)) {
                    lemma_digits_val_bound(frac_part(body));
                    lemma_pow10_le(frac_part(body).len(), MAX_FRAC_DIGITS as nat);
                    reveal_with_fuel(pow10, 16);
                }
            }
            return Err(ConfigError::InvalidPercentage);
        },
    };
    if dot == 0 && frac_len == 0 {
        return Err(ConfigError::InvalidPercentage);
    }
    proof {
        lemma_digits_val_bound(frac_part(body));
        lemma_pow10_le(frac_part(body).len(), MAX_FRAC_DIGITS as nat);
        reveal_with_fuel(pow10, 16);
    }
    let den0 = pow10_u64(frac_len);
    let num0 = match int_val.checked_mul(den0) {
        Some(v) => match v.checked_add(frac_val) {
            Some(w) => w,
            None => {
                proof {
                    lemma_reject_when_overflowing(body, int_val as int, MAX_FRAC_DIGITS as nat);
                }
                return Err(ConfigError::InvalidPercentage);
            },
        },
        None => {
            proof {
                lemma_reject_when_overflowing(body, int_val as int, MAX_FRAC_DIGITS as nat);
            }
            return Err(ConfigError::InvalidPercentage);
        },
    };
    if num0 > 100 * den0 {
        return Err(ConfigError::InvalidPercentage);
    }
    Ok(Percentage { num: num0, den: 100 * den0 })
}

/// A number whose numerator does not fit in 64 bits lies far above 100.
proof fn lemma_reject_when_overflowing(body: Seq<char>, int_val: int, cap: nat)
    requires
        valid_number(body),
        int_val == digits_val(int_part(body)),
        frac_part(body).len() <= cap,
        cap == 15,
        int_val * pow10(frac_part(body).len()) + digits_val(frac_part(body)) > u64::MAX,
    ensures
        number_num(body) > 100 * number_den(body),
{
    lemma_digits_val_nonneg(frac_part(body));
    lemma_pow10_le(frac_part(body).len(), cap);
    reveal_with_fuel(pow10, 16);
    assert(number_num(body) > u64::MAX);
    assert(100 * number_den(body) <= 100 * pow10(cap)) by (nonlinear_arith)
        requires number_den(body) <= pow10(cap);
}

/// One draw shape over an inclusive integer range.
enum InnerRangeDistribution {
    /// Uniform over `[range_min, range_max]`.
    Uniform { range_min: u64, range_max: u64 },
    /// Bell-shaped around `range_min + mean_offset` with spread `std`,
    /// reflected back into the range.
    Bell { mean_offset: u64, std: u64, range_len: u64, range_min: u64 },
}

/// A sampler for one value out of an inclusive integer range.
pub struct RangeDistribution {
    inner: InnerRangeDistribution,
}

impl RangeDistribution {
    pub closed spec fn spec_min(&self) -> u64 {
        match self.inner {
            InnerRangeDistribution::Uniform { range_min, .. } => range_min,
            InnerRangeDistribution::Bell { range_min, .. } => range_min,
        }
    }

    pub closed spec fn spec_max(&self) -> u64 {
        match self.inner {
            InnerRangeDistribution::Uniform { range_max, .. } => range_max,
            InnerRangeDistribution::Bell { range_min, range_len, .. } => (range_min
                + range_len) as u64,
        }
    }

    /// Whether this sampler draws uniformly.
    pub closed spec fn spec_is_uniform(&self) -> bool {
        self.inner is Uniform
    }

    /// The bell shape's centre offset from the range's lower end; zero for
    /// a uniform sampler.
    pub closed spec fn spec_bell_mean_offset(&self) -> u64 {
        match self.inner {
            InnerRangeDistribution::Uniform { .. } => 0,
            InnerRangeDistribution::Bell { mean_offset, .. } => mean_offset,
        }
    }

    /// The bell shape's spread; zero for a uniform sampler.
    pub closed spec fn spec_bell_std(&self) -> u64 {
        match self.inner {
            InnerRangeDistribution::Uniform { .. } => 0,
            InnerRangeDistribution::Bell { std, .. } => std,
        }
    }

    pub closed spec fn wf(&self) -> bool {
        match self.inner {
            InnerRangeDistribution::Uniform { range_min, range_max } => range_min <= range_max,
            InnerRangeDistribution::Bell { mean_offset, std, range_len, range_min } => {
                &&& range_min + range_len <= u64::MAX
                &&& mean_offset <= range_len
                &&& range_len >= 1
            },
        }
    }

    /// Draws one value; it always lies within the configured range.
    pub fn sample(&self, rng: &mut StdRng) -> (r: u64)
        requires
            self.wf(),
        ensures
            self.spec_min() <= r <= self.spec_max(),
    {
        match &self.inner {
            InnerRangeDistribution::Uniform { range_min, range_max } => gen_range_inclusive_u64(
                rng,
                *range_min,
                *range_max,
            ),
            InnerRangeDistribution::Bell { mean_offset, std, range_len, range_min } => {
                let point = sample_bell_point(rng, *mean_offset, *std);
                let reflected = reflect_into_range(
                    point,
                    *mean_offset as i128,
                    *range_len as i128,
                );
                *range_min + (reflected as u64)
            },
        }
    }
}

/// A rough bell-curve draw centred on `mean_offset` with spread `std`: the
/// sum of twelve uniform draws over `[0, std]`, shifted so its mean is
/// `mean_offset`.
fn sample_bell_point(rng: &mut StdRng, mean_offset: u64, std: u64) -> (r: i128)
    ensures
        mean_offset - 6 * (std as int) <= r <= mean_offset + 6 * (std as int),
{
    let mut acc: i128 = 0;
    let mut i: usize = 0;
    while i < 12
        invariant
            i <= 12,
            0 <= acc <= (i as int) * (std as int),
            acc <= 12 * (u64::MAX as int),
        decreases 12 - i,
    {
        let draw = gen_range_inclusive_u64(rng, 0, std);
        proof {
            assert((i as int) * (std as int) + (std as int) == ((i + 1) as int) * (
            std as int)) by (nonlinear_arith);
            assert((i as int) * (std as int) <= 11 * (u64::MAX as int)) by (nonlinear_arith)
                requires
                    0 <= i as int <= 11,
                    0 <= std as int <= u64::MAX as int,
            ;
        }
        acc = acc + (draw as i128);
        i = i + 1;
    }
    proof {
        assert((12 as int) * (std as int) == 12 * (std as int)) by (nonlinear_arith);
    }
    (mean_offset as i128) + acc - 6 * (std as i128)
}

/// Repeatedly lifts a negative point by `mean` until it is non-negative.
pub open spec fn lifted(p: int, mean: int) -> int
    decreases (if p < 0 { -p } else { 0 }),
    when p >= 0 || mean >= 1
{
    if p < 0 && mean >= 1 {
        lifted(p + mean, mean)
    } else {
        p
    }
}

/// Repeatedly pulls a point above `range_len` back by `range_len - mean`.
pub open spec fn lowered(p: int, mean: int, range_len: int) -> int
    decreases p,
    when p <= range_len || 0 <= mean < range_len
{
    if p > range_len && 0 <= mean < range_len {
        lowered(p - (range_len - mean), mean, range_len)
    } else {
        p
    }
}

/// Where a point lands after reflection: lifted into non-negative territory
/// around the mean, then pulled back under `range_len`; where a reflection
/// step cannot make progress the point is clamped to the violated edge.
pub open spec fn reflect_spec(p: int, mean: int, range_len: int) -> int {
    let a = if mean >= 1 {
        lifted(p, mean)
    } else if p < 0 {
        0
    } else {
        p
    };
    if mean < range_len {
        lowered(a, mean, range_len)
    } else if a > range_len {
        range_len
    } else {
        a
    }
}

/// Reflects an overshooting bell draw back into `[0, range_len]`.
fn reflect_into_range(point: i128, mean: i128, range_len: i128) -> (r: i128)
    requires
        0 <= mean <= range_len,
        1 <= range_len,
    ensures
        r == reflect_spec(point as int, mean as int, range_len as int),
        0 <= r <= range_len,
{
    let mut p = point;
    if mean >= 1 {
        while p < 0
            invariant
                1 <= mean,
                lifted(p as int, mean as int) == lifted(point as int, mean as int),
            decreases (if p < 0 { -(p as int) } else { 0 }),
        {
            p = p + mean;
        }
    } else if p < 0 {
        p = 0;
    }
    let lift: i128 = p;
    if mean < range_len {
        while p > range_len
            invariant
                0 <= mean < range_len,
                p >= 0,
                lowered(p as int, mean as int, range_len as int) == lowered(
                    lift as int,
                    mean as int,
                    range_len as int,
                ),
            decreases p,
        {
            p = p - (range_len - mean);
        }
    } else if p > range_len {
        p = range_len;
    }
    p
}

/// The declarative description of a range sampler: uniform, or bell-shaped
/// with mean and spread given as percentages of the range width.
pub enum RangeDistributionBuilder {
    Uniform,
    Normal { mean: Percentage, std: Percentage },
}

impl RangeDistributionBuilder {
    pub open spec fn wf(&self) -> bool {
        match self {
            RangeDistributionBuilder::Uniform => true,
            RangeDistributionBuilder::Normal { mean, std } => mean.wf() && std.wf(),
        }
    }

    /// Builds the sampler over `[range_min, range_max]`; an empty range is a
    /// configuration error.
    ///
    /// For the bell shape, mean and standard deviation are the given
    /// percentages of the range width: the centre sits `range_len * mean`
    /// above the lower bound and the spread is `range_len * std`.
    pub fn build(&self, range_min: u64, range_max: u64) -> (r: Result<
        RangeDistribution,
        ConfigError,
    >)
        requires
            self.wf(),
        ensures
            r is Ok <==> range_min < range_max,
            r matches Err(e) ==> e == ConfigError::InvalidDateBounds,
            r matches Ok(d) ==> d.wf() && d.spec_min() == range_min && d.spec_max() == range_max,
            r matches Ok(d) ==> match self {
                RangeDistributionBuilder::Uniform => d.spec_is_uniform(),
                RangeDistributionBuilder::Normal { mean, std } => !d.spec_is_uniform()
                    && d.spec_bell_mean_offset() == spec_scaled(
                    range_max - range_min,
                    *mean,
                ) && d.spec_bell_std() == spec_scaled(range_max - range_min, *std),
            },
    {
        if range_min >= range_max {
            return Err(ConfigError::InvalidDateBounds);
        }
        let inner = match self {
            RangeDistributionBuilder::Uniform => InnerRangeDistribution::Uniform {
                range_min,
                range_max,
            },
            RangeDistributionBuilder::Normal { mean, std } => {
                let range_len = range_max - range_min;
                let mean_offset = scale_by_fraction(range_len, mean);
                let std_scaled = scale_by_fraction(range_len, std);
                InnerRangeDistribution::Bell { mean_offset, std: std_scaled, range_len, range_min }
            },
        };
        Ok(RangeDistribution { inner })
    }
}

/// The fraction of a range width: `len * num / den`, rounded down.
pub open spec fn spec_scaled(len: int, f: Percentage) -> int {
    len * (f.spec_num() as int) / (f.spec_den() as int)
}

/// `len * num / den`, never above `len` for a fraction at most one.
fn scale_by_fraction(len: u64, fraction: &Percentage) -> (r: u64)
    requires
        fraction.wf(),
    ensures
        r == spec_scaled(len as int, *fraction),
        r <= len,
{
    let num = fraction.num();
    let den = fraction.den();
    proof {
        assert((len as int) * (num as int) <= (u64::MAX as int) * (u64::MAX as int))
            by (nonlinear_arith)
            requires
                0 <= len as int <= u64::MAX as int,
                0 <= num as int <= u64::MAX as int,
        ;
    }
    let wide: u128 = (len as u128) * (num as u128) / (den as u128);
    proof {
        assert((len as int) * (num as int) / (den as int) <= len as int) by (nonlinear_arith)
            requires
                0 < den as int,
                0 <= len as int,
                0 <= num as int <= den as int,
        ;
    }
    wide as u64
}

} // verus!
