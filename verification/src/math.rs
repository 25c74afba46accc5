//! A streaming statistics accumulator: one pass, constant space, no raw
//! history kept at run time. Counts, sums and sums of squares are held
//! exactly, so the mean and both variances are exposed as exact fractions;
//! callers divide at the very end.

use vstd::prelude::*;

verus! {

/// The largest admissible sample value.
pub const MAX_SAMPLE: u64 = 0x100_0000_0000;

/// The most samples one accumulator can take.
pub const MAX_COUNT: u64 = 0x10_0000;

/// The sum of a sequence of sample values.
pub open spec fn seq_sum(s: Seq<int>) -> int
    decreases s.len(),
{
    if s.len() == 0 {
        0
    } else {
        seq_sum(s.drop_last()) + s.last()
    }
}

/// The sum of the squares of a sequence of sample values.
pub open spec fn seq_sum_sq(s: Seq<int>) -> int
    decreases s.len(),
{
    if s.len() == 0 {
        0
    } else {
        seq_sum_sq(s.drop_last()) + s.last() * s.last()
    }
}

/// The count times the sum of squares dominates the squared sum, so every
/// variance this module exposes is non-negative.
pub proof fn lemma_sum_sq_dominates(s: Seq<int>)
    ensures
        s.len() * seq_sum_sq(s) >= seq_sum(s) * seq_sum(s),
    decreases s.len(),
{
    if s.len() == 0 {
    } else {
        let t = s.drop_last();
        let y = s.last();
        let n = t.len() as int;
        let sum = seq_sum(t);
        let q = seq_sum_sq(t);
        lemma_sum_sq_dominates(t);
        if n == 0 {
            assert(t =~= Seq::<int>::empty());
            assert(seq_sum(s) == y && seq_sum_sq(s) == y * y);
            assert(s.len() * seq_sum_sq(s) >= seq_sum(s) * seq_sum(s)) by (nonlinear_arith)
                requires
                    s.len() == 1,
                    seq_sum(s) == y,
                    seq_sum_sq(s) == y * y,
            ;
        } else {
            // (S - ny)^2 >= 0, so S^2 + (ny)^2 dominates 2nSy
            assert(sum * sum + (n * y) * (n * y) - 2 * (n * y) * sum >= 0) by (nonlinear_arith);
            assert(n * q + (n * y) * (n * y) >= 2 * (n * y) * sum);
            assert(n * (q + n * (y * y) - 2 * sum * y) == n * q + (n * y) * (n * y) - 2 * (n * y)
                * sum) by (nonlinear_arith);
            assert(q + n * (y * y) - 2 * sum * y >= 0) by (nonlinear_arith)
                requires
                    n >= 1,
                    n * (q + n * (y * y) - 2 * sum * y) >= 0,
            ;
            assert((n + 1) * (q + y * y) - (sum + y) * (sum + y) == (n * q - sum * sum) + (q + n
                * (y * y) - 2 * sum * y)) by (nonlinear_arith);
            assert(seq_sum(s) == sum + y && seq_sum_sq(s) == q + y * y);
            assert(s.len() * seq_sum_sq(s) >= seq_sum(s) * seq_sum(s)) by (nonlinear_arith)
                requires
                    s.len() == n + 1,
                    seq_sum(s) == sum + y,
                    seq_sum_sq(s) == q + y * y,
                    (n + 1) * (q + y * y) - (sum + y) * (sum + y) >= 0,
            ;
        }
    }
}

/// An online accumulator for the count, sum and sum of squares of a stream
/// of samples; the ghost history records exactly which samples went in.
pub struct StreamingStat {
    count: u64,
    sum: u128,
    sum_sq: u128,
    samples: Ghost<Seq<int>>,
}

impl StreamingStat {
    /// The samples folded in so far, oldest first.
    pub closed spec fn samples(&self) -> Seq<int> {
        self.samples@
    }

    pub closed spec fn wf(&self) -> bool {
        &&& self.count == self.samples@.len()
        &&& self.count <= MAX_COUNT
        &&& self.sum == seq_sum(self.samples@)
        &&& self.sum_sq == seq_sum_sq(self.samples@)
        &&& self.sum <= (self.count as int) * (MAX_SAMPLE as int)
        &&& self.sum_sq <= (self.count as int) * ((MAX_SAMPLE as int) * (MAX_SAMPLE as int))
        &&& forall|i: int|
            0 <= i < self.samples@.len() ==> 0 <= #[trigger] self.samples@[i] <= MAX_SAMPLE
    }

    /// An empty accumulator.
    pub fn new() -> (r: StreamingStat)
        ensures
            r.wf(),
            r.samples() == Seq::<int>::empty(),
    {
        StreamingStat { count: 0, sum: 0, sum_sq: 0, samples: Ghost(Seq::empty()) }
    }

    /// How many samples went in.
    pub fn count(&self) -> (r: u64)
        requires
            self.wf(),
        ensures
            r == self.samples().len(),
    {
        self.count
    }

    /// Folds in one sample.
    pub fn update(&mut self, value: u64)
        requires
            old(self).wf(),
            old(self).samples().len() < MAX_COUNT,
            value <= MAX_SAMPLE,
        ensures
            final(self).wf(),
            final(self).samples() == old(self).samples().push(value as int),
    {
        proof {
            let s = self.samples@;
            let t = s.push(value as int);
            assert(t.drop_last() =~= s);
            assert((self.count as int) * (MAX_SAMPLE as int) + (MAX_SAMPLE as int) == ((
            self.count + 1) as int) * (MAX_SAMPLE as int)) by (nonlinear_arith);
            let m2 = (MAX_SAMPLE as int) * (MAX_SAMPLE as int);
            assert((value as int) * (value as int) <= m2) by (nonlinear_arith)
                requires
                    0 <= value as int <= MAX_SAMPLE as int,
                    m2 == (MAX_SAMPLE as int) * (MAX_SAMPLE as int),
            ;
            assert((self.count as int) * m2 + m2 == ((self.count + 1) as int) * m2)
                by (nonlinear_arith);
        }
        self.count = self.count + 1;
        self.sum = self.sum + (value as u128);
        self.sum_sq = self.sum_sq + (value as u128) * (value as u128);
        proof {
            self.samples@ = self.samples@.push(value as int);
        }
    }

    /// The mean as the exact fraction `sum / count`.
    pub fn mean_parts(&self) -> (r: (u128, u64))
        requires
            self.wf(),
        ensures
            r.0 == seq_sum(self.samples()),
            r.1 == self.samples().len(),
    {
        (self.sum, self.count)
    }

    /// The population variance as the exact fraction
    /// `(count * sum_sq - sum^2) / count^2`.
    pub fn variance_parts(&self) -> (r: (i128, u128))
        requires
            self.wf(),
            self.samples().len() >= 1,
        ensures
            r.0 == self.samples().len() * seq_sum_sq(self.samples()) - seq_sum(self.samples())
                * seq_sum(self.samples()),
            r.0 >= 0,
            r.1 == self.samples().len() * self.samples().len(),
    {
        proof {
            self.lemma_moment_bounds();
            lemma_sum_sq_dominates(self.samples());
            assert((self.sum_sq as int) <= (self.count as int) * (self.sum_sq as int))
                by (nonlinear_arith)
                requires
                    1 <= self.count as int,
                    0 <= self.sum_sq as int,
            ;
        }
        let num = (self.count as i128) * (self.sum_sq as i128) - (self.sum as i128) * (
        self.sum as i128);
        let den = (self.count as u128) * (self.count as u128);
        (num, den)
    }

    /// The sample variance as the exact fraction
    /// `(count * sum_sq - sum^2) / (count * (count - 1))`.
    pub fn sample_variance_parts(&self) -> (r: (i128, u128))
        requires
            self.wf(),
            self.samples().len() >= 2,
        ensures
            r.0 == self.samples().len() * seq_sum_sq(self.samples()) - seq_sum(self.samples())
                * seq_sum(self.samples()),
            r.0 >= 0,
            r.1 == self.samples().len() * (self.samples().len() - 1),
    {
        proof {
            self.lemma_moment_bounds();
            lemma_sum_sq_dominates(self.samples());
            assert((self.count as int) * ((self.count - 1) as int) <= (self.count as int) * (
            self.count as int)) by (nonlinear_arith)
                requires
                    2 <= self.count as int,
            ;
            assert(0 <= (self.count as int) * ((self.count - 1) as int)) by (nonlinear_arith)
                requires
                    2 <= self.count as int,
            ;
            assert((self.sum_sq as int) <= (self.count as int) * (self.sum_sq as int))
                by (nonlinear_arith)
                requires
                    1 <= self.count as int,
                    0 <= self.sum_sq as int,
            ;
        }
        let num = (self.count as i128) * (self.sum_sq as i128) - (self.sum as i128) * (
        self.sum as i128);
        let den = (self.count as u128) * ((self.count - 1) as u128);
        (num, den)
    }

    /// The second-moment products stay far inside 128 bits.
    proof fn lemma_moment_bounds(&self)
        requires
            self.wf(),
        ensures
            0 <= (self.count as int) * (self.sum_sq as int) < i128::MAX,
            0 <= (self.sum as int) * (self.sum as int) < i128::MAX,
            0 <= (self.count as int) * (self.count as int) < u128::MAX,
    {
        let c = self.count as int;
        let m = MAX_SAMPLE as int;
        let cap = MAX_COUNT as int;
        assert(self.sum_sq as int <= c * (m * m));
        assert(c * (m * m) <= cap * (m * m)) by (nonlinear_arith)
            requires
                0 <= c <= cap,
                0 <= m * m,
        ;
        assert(c * (self.sum_sq as int) <= cap * (cap * (m * m))) by (nonlinear_arith)
            requires
                0 <= c <= cap,
                0 <= self.sum_sq as int <= cap * (m * m),
        ;
        assert(cap * (cap * (m * m)) < i128::MAX) by (nonlinear_arith)
            requires
                cap == 0x10_0000,
                m == 0x100_0000_0000,
        ;
        assert(self.sum as int <= c * m);
        assert(c * m <= cap * m) by (nonlinear_arith)
            requires
                0 <= c <= cap,
                0 <= m,
        ;
        assert((self.sum as int) * (self.sum as int) <= (cap * m) * (cap * m)) by (nonlinear_arith)
            requires
                0 <= self.sum as int <= cap * m,
        ;
        assert((cap * m) * (cap * m) < i128::MAX) by (nonlinear_arith)
            requires
                cap == 0x10_0000,
                m == 0x100_0000_0000,
        ;
        assert(c * c < u128::MAX) by (nonlinear_arith)
            requires
                0 <= c <= 0x10_0000,
        ;
        assert(0 <= c * (self.sum_sq as int)) by (nonlinear_arith)
            requires
                0 <= c,
                0 <= self.sum_sq as int,
        ;
        assert(0 <= (self.sum as int) * (self.sum as int)) by (nonlinear_arith);
        assert(0 <= c * c) by (nonlinear_arith);
    }
}

} // verus!
