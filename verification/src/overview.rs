//! Reducing a selected window of samples into one envelope entry per output
//! pixel column.

use vstd::prelude::*;
use vstd::arithmetic::div_mod::{lemma_fundamental_div_mod, lemma_mod_bound};
use vstd::arithmetic::mul::{
    lemma_mul_inequality, lemma_mul_is_distributive_add_other_way, lemma_mul_nonnegative,
};

use crate::window::{
    effective_bucket_size, plan_extraction, resolved_end, resolved_start, ExtractionPlan,
    WaveformError,
};

verus! {

/// One envelope entry: the running minimum and maximum over one bucket of
/// consecutive samples. Both are seeded at 0 and only tightened by observed
/// samples, so a bucket whose samples are all strictly positive reports
/// `min == 0`, and symmetrically for an all-negative bucket. The bucket's
/// root-mean-square magnitude is floating point and is computed by the
/// caller over the bucket's samples (see `bucket_samples` and
/// `sum_of_squares`).
#[derive(Clone, Copy, Debug, PartialEq, Eq, Structural)]
pub struct SampleOverview {
    pub min: i32,
    pub max: i32,
}

/// The minimum of 0 and the values of `s`.
pub open spec fn min_seed0(s: Seq<i32>) -> int
    decreases s.len(),
{
    if s.len() == 0 {
        0
    } else {
        let rest = min_seed0(s.drop_last());
        if (s.last() as int) < rest {
            s.last() as int
        } else {
            rest
        }
    }
}

/// The maximum of 0 and the values of `s`.
pub open spec fn max_seed0(s: Seq<i32>) -> int
    decreases s.len(),
{
    if s.len() == 0 {
        0
    } else {
        let rest = max_seed0(s.drop_last());
        if (s.last() as int) > rest {
            s.last() as int
        } else {
            rest
        }
    }
}

/// Bucket `k` of the selected window `s`: the samples at indices
/// `k * b <= i < (k + 1) * b`.
pub open spec fn bucket_of(s: Seq<i32>, b: int, k: int) -> Seq<i32> {
    s.subrange(k * b, k * b + b)
}

/// The overview of a selected window: `floor(len / b)` entries, entry `k`
/// holding the seeded minimum and maximum of bucket `k`. A final partial
/// bucket contributes no entry.
pub open spec fn overview_spec(s: Seq<i32>, b: int) -> Seq<SampleOverview>
    recommends
        b >= 1,
{
    Seq::new(
        (s.len() as int / b) as nat,
        |k: int| SampleOverview {
            min: min_seed0(bucket_of(s, b, k)) as i32,
            max: max_seed0(bucket_of(s, b, k)) as i32,
        },
    )
}

/// `min_seed0` and `max_seed0` return 0 or a value of the sequence, so they
/// fit in the sample type.
proof fn lemma_seed0_in_range(s: Seq<i32>)
    ensures
        i32::MIN <= min_seed0(s) <= 0,
        0 <= max_seed0(s) <= i32::MAX,
    decreases s.len(),
{
    if s.len() > 0 {
        lemma_seed0_in_range(s.drop_last());
    }
}

/// Bucket `k` of a window of length `len` lies inside the window when
/// `k < floor(len / b)`.
proof fn lemma_bucket_in_window(len: int, b: int, k: int)
    requires
        b >= 1,
        0 <= k < len / b,
    ensures
        0 <= k * b,
        k * b + b <= len,
{
    lemma_mul_nonnegative(k, b);
    lemma_fundamental_div_mod(len, b);
    lemma_mod_bound(len, b);
    lemma_mul_inequality(k + 1, len / b, b);
    lemma_mul_is_distributive_add_other_way(b, k, 1);
}

/// Extracts the overview of the selected window: walks the samples at
/// indices `start <= i < end` in order and emits one envelope entry per
/// full bucket of `bucket_size` samples; remainder samples are discarded.
pub fn extract_overview(
    samples: &Vec<i32>,
    start: usize,
    end: usize,
    bucket_size: usize,
) -> (r: Vec<SampleOverview>)
    requires
        start <= end <= samples@.len(),
        bucket_size >= 1,
    ensures
        r@ == overview_spec(samples@.subrange(start as int, end as int), bucket_size as int),
        r@.len() == (end - start) as int / bucket_size as int,
{
    let ghost window = samples@.subrange(start as int, end as int);
    let ghost target = overview_spec(window, bucket_size as int);
    let window_len = end - start;
    let count = window_len / bucket_size;
    assert(target.len() == count);
    let mut r: Vec<SampleOverview> = Vec::new();
    let mut k: usize = 0;
    while k < count
        invariant
            start <= end <= samples@.len(),
            bucket_size >= 1,
            window == samples@.subrange(start as int, end as int),
            target == overview_spec(window, bucket_size as int),
            window_len == end - start,
            count == window_len as int / bucket_size as int,
            target.len() == count,
            k <= count,
            r@ == target.take(k as int),
        decreases count - k,
    {
        proof {
            lemma_bucket_in_window(window_len as int, bucket_size as int, k as int);
        }
        let ghost bkt = bucket_of(window, bucket_size as int, k as int);
        let base = start + k * bucket_size;
        let mut mn: i32 = 0;
        let mut mx: i32 = 0;
        let mut j: usize = 0;
        while j < bucket_size
            invariant
                start <= end <= samples@.len(),
                bucket_size >= 1,
                window == samples@.subrange(start as int, end as int),
                0 <= k as int * bucket_size as int,
                k as int * bucket_size as int + bucket_size as int <= window_len as int,
                window_len == end - start,
                base == start as int + k as int * bucket_size as int,
                bkt == bucket_of(window, bucket_size as int, k as int),
                j <= bucket_size,
                mn == min_seed0(bkt.take(j as int)),
                mx == max_seed0(bkt.take(j as int)),
            decreases bucket_size - j,
        {
            let sample = samples[base + j];
            proof {
                let t = bkt.take(j as int + 1);
                assert(t.drop_last() =~= bkt.take(j as int));
                assert(t.last() == window[k as int * bucket_size as int + j as int]);
                assert(t.last() == sample);
            }
            if sample < mn {
                mn = sample;
            }
            if sample > mx {
                mx = sample;
            }
            j += 1;
        }
        proof {
            assert(bkt.take(bucket_size as int) =~= bkt);
            lemma_seed0_in_range(bkt);
            assert(target[k as int] == (SampleOverview { min: mn, max: mx }));
        }
        r.push(SampleOverview { min: mn, max: mx });
        proof {
            assert(r@ =~= target.take(k as int + 1));
        }
        k += 1;
    }
    proof {
        assert(r@ =~= target);
    }
    r
}

/// Copies bucket `k` of the selected window out as a vector, in temporal
/// order, so the caller can run its root-mean-square pass over exactly the
/// samples that produced entry `k`.
pub fn bucket_samples(
    samples: &Vec<i32>,
    start: usize,
    end: usize,
    bucket_size: usize,
    k: usize,
) -> (r: Vec<i32>)
    requires
        start <= end <= samples@.len(),
        bucket_size >= 1,
        k < (end - start) as int / bucket_size as int,
    ensures
        r@ == bucket_of(samples@.subrange(start as int, end as int), bucket_size as int, k as int),
{
    let ghost window = samples@.subrange(start as int, end as int);
    let ghost bkt = bucket_of(window, bucket_size as int, k as int);
    proof {
        lemma_bucket_in_window((end - start) as int, bucket_size as int, k as int);
    }
    let base = start + k * bucket_size;
    let mut r: Vec<i32> = Vec::new();
    let mut j: usize = 0;
    while j < bucket_size
        invariant
            start <= end <= samples@.len(),
            bucket_size >= 1,
            window == samples@.subrange(start as int, end as int),
            0 <= k as int * bucket_size as int,
            k as int * bucket_size as int + bucket_size as int <= (end - start) as int,
            base == start as int + k as int * bucket_size as int,
            bkt == bucket_of(window, bucket_size as int, k as int),
            j <= bucket_size,
            r@ == bkt.take(j as int),
        decreases bucket_size - j,
    {
        let sample = samples[base + j];
        r.push(sample);
        proof {
            assert(r@ =~= bkt.take(j as int + 1));
        }
        j += 1;
    }
    proof {
        assert(r@ =~= bkt);
    }
    r
}

/// The sum of the squares of the values of `s`, in temporal order.
pub open spec fn sum_squares_spec(s: Seq<i32>) -> int
    decreases s.len(),
{
    if s.len() == 0 {
        0
    } else {
        sum_squares_spec(s.drop_last()) + s.last() * s.last()
    }
}

/// The exact sum of the squared sample values: the squared
/// root-mean-square of the samples times their count. The fractional
/// root-mean-square magnitude itself is left to the caller, since it is
/// not an integer.
pub fn sum_of_squares(samples: &Vec<i32>) -> (r: u128)
    ensures
        r == sum_squares_spec(samples@),
{
    let mut r: u128 = 0;
    let mut i: usize = 0;
    while i < samples.len()
        invariant
            i <= samples@.len(),
            r == sum_squares_spec(samples@.take(i as int)),
            r <= i as int * 0x4000_0000_0000_0000,
        decreases samples@.len() - i,
    {
        let sample = samples[i];
        let wide: i64 = sample as i64;
        proof {
            assert(0 <= wide as int * wide as int <= 0x4000_0000_0000_0000)
                by (nonlinear_arith)
                requires
                    i32::MIN <= wide as int <= i32::MAX,
            ;
            let t = samples@.take(i as int + 1);
            assert(t.drop_last() =~= samples@.take(i as int));
            assert(t.last() == sample);
        }
        let square: u64 = (wide * wide) as u64;
        r = r + square as u128;
        i += 1;
    }
    proof {
        assert(samples@.take(samples@.len() as int) =~= samples@);
    }
    r
}

/// The remainder samples never reach any entry: the overview of a window
/// equals the overview of the window cut back to its last full bucket
/// boundary, so the final `len % b` samples leave no trace in the result.
pub proof fn lemma_remainder_dropped(s: Seq<i32>, b: int)
    requires
        b >= 1,
    ensures
        overview_spec(s, b) == overview_spec(s.take((s.len() as int / b) * b), b),
{
    let n = s.len() as int / b;
    lemma_fundamental_div_mod(s.len() as int, b);
    lemma_mod_bound(s.len() as int, b);
    lemma_mul_nonnegative(n, b);
    let t = s.take(n * b);
    assert(t.len() == n * b);
    vstd::arithmetic::div_mod::lemma_div_multiples_vanish(n, b);
    assert(t.len() as int / b == n);
    assert forall|k: int| 0 <= k < n implies bucket_of(t, b, k) == bucket_of(s, b, k) by {
        lemma_bucket_in_window(n * b, b, k);
        assert(bucket_of(t, b, k) =~= bucket_of(s, b, k));
    }
    assert(overview_spec(s, b) =~= overview_spec(t, b));
}

/// The whole extractor in one step: validates the configuration, fixes the
/// plan, and extracts the overview of the selected window. Fails exactly as
/// `crate::window::plan_extraction` does; on success the returned plan and
/// entries are exactly those of `plan_extraction` and `extract_overview`.
pub fn extract_envelope(
    samples: &Vec<i32>,
    sample_rate: u32,
    start_time: u32,
    end_time: Option<u32>,
    samples_per_pixel: u32,
    image_width: u32,
) -> (r: Result<(ExtractionPlan, Vec<SampleOverview>), WaveformError>)
    requires
        image_width >= 1,
    ensures
        ({
            let s = resolved_start(start_time as int, sample_rate as int);
            let e = resolved_end(samples@.len() as int, end_time, sample_rate as int);
            let conflict = samples_per_pixel > 0 && end_time is Some;
            let b = effective_bucket_size(samples_per_pixel as int, e - s, image_width as int);
            match r {
                Ok(pair) => !conflict && s < e && (e - s) / b >= 1
                    && pair.0.start_sample == s && pair.0.end_sample == e
                    && pair.0.bucket_size == b && pair.0.bucket_size >= 1
                    && pair.0.overview_count == (e - s) / b
                    && pair.1@ == overview_spec(samples@.subrange(s, e), b)
                    && pair.1@.len() == pair.0.overview_count,
                Err(err) => match err {
                    WaveformError::ConflictingZoomAndEnd => conflict,
                    WaveformError::InvalidWindow => !conflict && s >= e,
                    WaveformError::EmptyResult => !conflict && s < e && (e - s) / b == 0,
                },
            }
        }),
{
    let plan = match plan_extraction(
        samples.len(),
        sample_rate,
        start_time,
        end_time,
        samples_per_pixel,
        image_width,
    ) {
        Ok(plan) => plan,
        Err(err) => {
            return Err(err);
        },
    };
    let entries = extract_overview(samples, plan.start_sample, plan.end_sample, plan.bucket_size);
    Ok((plan, entries))
}

/// Extraction is deterministic: two overviews taken from the same window
/// with the same bucket size are equal, entry for entry.
pub proof fn lemma_extract_idempotent(
    first: Seq<SampleOverview>,
    second: Seq<SampleOverview>,
    s: Seq<i32>,
    b: int,
)
    requires
        b >= 1,
        first == overview_spec(s, b),
        second == overview_spec(s, b),
    ensures
        first == second,
{
}

} // verus!
