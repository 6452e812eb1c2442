//! Resolving a time window to sample indices, deriving the bucket size, and
//! validating the configuration before extraction begins.

use vstd::prelude::*;
use vstd::arithmetic::mul::lemma_mul_upper_bound;

verus! {

/// The conditions on which the pipeline aborts before producing output.
#[derive(Clone, Copy, Debug, PartialEq, Eq, Structural)]
pub enum WaveformError {
    /// The resolved start index is at or past the resolved end index.
    InvalidWindow,
    /// An explicit bucket size and an explicit end time were both supplied.
    ConflictingZoomAndEnd,
    /// The selected window is shorter than one bucket, so no overview entry
    /// can be produced.
    EmptyResult,
}

/// A time window resolved to absolute sample indices; the selected samples
/// are those at indices `start_sample <= i < end_sample`.
#[derive(Clone, Copy, Debug, PartialEq, Eq, Structural)]
pub struct SampleWindow {
    pub start_sample: usize,
    pub end_sample: usize,
}

/// The absolute sample index at which the window starts.
pub open spec fn resolved_start(start_time: int, sample_rate: int) -> int {
    start_time * sample_rate
}

/// The absolute sample index at which the window ends: the end time scaled
/// by the sample rate and capped at the total sample count, or the total
/// sample count when no end time was given.
pub open spec fn resolved_end(total_samples: int, end_time: Option<u32>, sample_rate: int) -> int {
    match end_time {
        Some(e) => {
            if e * sample_rate < total_samples {
                e * sample_rate
            } else {
                total_samples
            }
        },
        None => total_samples,
    }
}

/// Bucket size derived from the window length when none was supplied:
/// `floor(window_len / image_width)`, floored to 1 to avoid a degenerate
/// zero-size bucket.
pub open spec fn derived_bucket_size(window_len: int, image_width: int) -> int {
    if window_len / image_width < 1 {
        1
    } else {
        window_len / image_width
    }
}

/// Resolves the time window to absolute sample indices. Returns
/// `InvalidWindow` exactly when the resolved start index is at or past the
/// resolved end index.
pub fn resolve_window(
    total_samples: usize,
    sample_rate: u32,
    start_time: u32,
    end_time: Option<u32>,
) -> (r: Result<SampleWindow, WaveformError>)
    ensures
        ({
            let s = resolved_start(start_time as int, sample_rate as int);
            let e = resolved_end(total_samples as int, end_time, sample_rate as int);
            match r {
                Ok(w) => s < e && w.start_sample == s && w.end_sample == e
                    && w.end_sample <= total_samples,
                Err(err) => err == WaveformError::InvalidWindow && s >= e,
            }
        }),
{
    proof {
        lemma_mul_upper_bound(start_time as int, u32::MAX as int, sample_rate as int, u32::MAX as int);
    }
    let start64: u64 = (start_time as u64) * (sample_rate as u64);
    let end64: u64 = match end_time {
        Some(e) => {
            proof {
                lemma_mul_upper_bound(e as int, u32::MAX as int, sample_rate as int, u32::MAX as int);
            }
            let scaled: u64 = (e as u64) * (sample_rate as u64);
            if scaled < total_samples as u64 {
                scaled
            } else {
                total_samples as u64
            }
        },
        None => total_samples as u64,
    };
    if start64 >= end64 {
        Err(WaveformError::InvalidWindow)
    } else {
        Ok(SampleWindow { start_sample: start64 as usize, end_sample: end64 as usize })
    }
}

/// Everything the extractor needs, fixed at configuration time: the resolved
/// window, the bucket size in effect, and the number of overview entries the
/// extraction will produce.
#[derive(Clone, Copy, Debug, PartialEq, Eq, Structural)]
pub struct ExtractionPlan {
    pub start_sample: usize,
    pub end_sample: usize,
    pub bucket_size: usize,
    pub overview_count: usize,
}

/// The bucket size in effect: the explicit one when it was supplied
/// (non-zero), else the one derived from the window length and image width.
pub open spec fn effective_bucket_size(
    samples_per_pixel: int,
    window_len: int,
    image_width: int,
) -> int {
    if samples_per_pixel > 0 {
        samples_per_pixel
    } else {
        derived_bucket_size(window_len, image_width)
    }
}

/// Validates the configuration and fixes the extraction plan.
///
/// Fails with `ConflictingZoomAndEnd` exactly when an explicit bucket size
/// and an explicit end time are both supplied; otherwise with
/// `InvalidWindow` exactly when the resolved start index is at or past the
/// resolved end index; otherwise with `EmptyResult` exactly when the window
/// is shorter than one bucket. On success the plan holds the resolved
/// window, the bucket size in effect and the overview count
/// `floor(window_len / bucket_size)`, which is then at least 1.
pub fn plan_extraction(
    total_samples: usize,
    sample_rate: u32,
    start_time: u32,
    end_time: Option<u32>,
    samples_per_pixel: u32,
    image_width: u32,
) -> (r: Result<ExtractionPlan, WaveformError>)
    requires
        image_width >= 1,
    ensures
        ({
            let s = resolved_start(start_time as int, sample_rate as int);
            let e = resolved_end(total_samples as int, end_time, sample_rate as int);
            let conflict = samples_per_pixel > 0 && end_time is Some;
            let b = effective_bucket_size(samples_per_pixel as int, e - s, image_width as int);
            match r {
                Ok(p) => !conflict && s < e && (e - s) / b >= 1
                    && p.start_sample == s && p.end_sample == e
                    && p.end_sample <= total_samples
                    && p.bucket_size == b && p.bucket_size >= 1
                    && p.overview_count == (e - s) / b,
                Err(err) => match err {
                    WaveformError::ConflictingZoomAndEnd => conflict,
                    WaveformError::InvalidWindow => !conflict && s >= e,
                    WaveformError::EmptyResult => !conflict && s < e && (e - s) / b == 0,
                },
            }
        }),
{
    if samples_per_pixel > 0 && end_time.is_some() {
        return Err(WaveformError::ConflictingZoomAndEnd);
    }
    let window = match resolve_window(total_samples, sample_rate, start_time, end_time) {
        Ok(w) => w,
        Err(err) => {
            return Err(err);
        },
    };
    let window_len = window.end_sample - window.start_sample;
    let bucket_size = if samples_per_pixel > 0 {
        samples_per_pixel as usize
    } else {
        derive_bucket_size(window_len, image_width)
    };
    let overview_count = window_len / bucket_size;
    if overview_count == 0 {
        return Err(WaveformError::EmptyResult);
    }
    Ok(ExtractionPlan {
        start_sample: window.start_sample,
        end_sample: window.end_sample,
        bucket_size,
        overview_count,
    })
}

/// Derives the bucket size ("samples per pixel") from the selected window
/// length and the image width.
pub fn derive_bucket_size(window_len: usize, image_width: u32) -> (r: usize)
    requires
        image_width >= 1,
    ensures
        r == derived_bucket_size(window_len as int, image_width as int),
        r >= 1,
{
    let b = window_len / (image_width as usize);
    if b < 1 {
        1
    } else {
        b
    }
}

} // verus!
