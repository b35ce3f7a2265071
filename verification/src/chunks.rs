//! How audio is cut into chunks for the inference core.

use crate::catalog::ModelCatalog;
use crate::error::FfiDemucsError;
use vstd::prelude::*;

verus! {

/// Sample rate the models were trained at. Input at any other rate is
/// resampled on the way in and on the way out.
pub const MODEL_SAMPLE_RATE: u64 = 44_100;

/// `a / b`, rounded up.
pub open spec fn ceiling_div(a: int, b: int) -> int {
    (a + b - 1) / b
}

/// How many samples `n_samples` samples at `sample_rate` become at the
/// models' rate. A rate of zero is taken to be the models' own.
pub open spec fn samples_at_model_rate(n_samples: int, sample_rate: int) -> int {
    if sample_rate == 0 || sample_rate == MODEL_SAMPLE_RATE {
        n_samples
    } else {
        ceiling_div(n_samples * MODEL_SAMPLE_RATE, sample_rate)
    }
}

/// The length handed to the core for `n_samples` samples at `sample_rate`:
/// the resampled length as a 64-bit count, held to what `usize` can express.
pub open spec fn core_length(n_samples: u64, sample_rate: u32) -> usize {
    let counted = samples_at_model_rate(n_samples as int, sample_rate as int) % 0x1_0000_0000_0000_0000;
    if counted <= usize::MAX {
        counted as usize
    } else {
        usize::MAX
    }
}

/// Resamples a length to the models' rate, as a count the core takes.
pub fn resampled_length(n_samples: u64, sample_rate: u32) -> (r: usize)
    ensures
        r == core_length(n_samples, sample_rate),
{
    let resampled: u64 = if sample_rate == 0 || sample_rate as u64 == MODEL_SAMPLE_RATE {
        n_samples
    } else {
        assert(0 <= n_samples * MODEL_SAMPLE_RATE <= u64::MAX * 44_100) by (nonlinear_arith)
            requires
                MODEL_SAMPLE_RATE == 44_100,
                0 <= n_samples <= u64::MAX,
        ;
        let at_rate: u128 = n_samples as u128 * MODEL_SAMPLE_RATE as u128;
        let rate: u128 = sample_rate as u128;
        let exact: u128 = (at_rate + (rate - 1)) / rate;
        assert(exact as u64 == exact % 0x1_0000_0000_0000_0000u128) by (bit_vector);
        #[verifier::truncate]
        let counted: u64 = exact as u64;
        counted
    };
    if resampled <= usize::MAX as u64 {
        resampled as usize
    } else {
        usize::MAX
    }
}

/// How many chunks a separation will split this many input samples into, for
/// sizing progress UI up front. `sample_rate` is the input rate; audio is
/// chunked after resampling to 44.1 kHz. `core_chunks` is the core's own
/// count for a length at its rate.
pub fn num_chunks<F: Fn(usize) -> usize>(
    n_samples: u64,
    sample_rate: u32,
    core_chunks: F,
) -> (r: u64)
    requires
        call_requires(core_chunks, (core_length(n_samples, sample_rate),)),
    ensures
        exists|count: usize| #[trigger]
            call_ensures(core_chunks, (core_length(n_samples, sample_rate),), count) && r == count,
{
    core_chunks(resampled_length(n_samples, sample_rate)) as u64
}

/// Samples per chunk at 44.1 kHz.
pub fn chunk_length(catalog: &ModelCatalog) -> (r: u64)
    ensures
        r == catalog.training_length,
{
    catalog.training_length as u64
}

/// Why a pair of channels at a sample rate cannot be separated, if it cannot:
/// the first of the three rules that it breaks.
pub open spec fn input_fault(left: nat, right: nat, sample_rate: u32) -> Option<Seq<char>> {
    if left == 0 {
        Some("audio is empty"@)
    } else if left != right {
        Some("left and right channels have different lengths"@)
    } else if sample_rate == 0 {
        Some("sample rate must be greater than zero"@)
    } else {
        None
    }
}

/// Checks that two channels of samples can be separated.
pub fn validate_input<S>(left: &[S], right: &[S], sample_rate: u32) -> (r: Result<
    (),
    FfiDemucsError,
>)
    ensures
        match input_fault(left@.len(), right@.len(), sample_rate) {
            Some(fault) => r matches Err(FfiDemucsError::InvalidInput { reason }) && reason@
                == fault,
            None => r is Ok,
        },
{
    let reason = if left.len() == 0 {
        "audio is empty"
    } else if left.len() != right.len() {
        "left and right channels have different lengths"
    } else if sample_rate == 0 {
        "sample rate must be greater than zero"
    } else {
        return Ok(());
    };
    Err(FfiDemucsError::InvalidInput { reason: reason.to_owned() })
}

/// The resampled length is the least that covers the input's duration.
pub proof fn resampling_rounds_up(n_samples: int, sample_rate: int)
    requires
        n_samples >= 0,
        sample_rate > 0,
    ensures
        ({
            let r = samples_at_model_rate(n_samples, sample_rate);
            n_samples * MODEL_SAMPLE_RATE <= r * sample_rate < n_samples * MODEL_SAMPLE_RATE
                + sample_rate
        }),
{
    let a = n_samples * MODEL_SAMPLE_RATE;
    let b = sample_rate;
    if b != MODEL_SAMPLE_RATE {
        let q = (a + b - 1) / b;
        vstd::arithmetic::div_mod::lemma_fundamental_div_mod(a + b - 1, b);
        vstd::arithmetic::div_mod::lemma_mod_bound(a + b - 1, b);
        assert(q * b == b * q) by (nonlinear_arith);
    }
}

/// More input never makes for less resampled audio.
pub proof fn resampling_is_monotonic(fewer: int, more: int, sample_rate: int)
    requires
        0 <= fewer <= more,
        sample_rate >= 0,
    ensures
        samples_at_model_rate(fewer, sample_rate) <= samples_at_model_rate(more, sample_rate),
{
    if sample_rate > 0 && sample_rate != MODEL_SAMPLE_RATE {
        vstd::arithmetic::div_mod::lemma_div_is_ordered(
            fewer * MODEL_SAMPLE_RATE + sample_rate - 1,
            more * MODEL_SAMPLE_RATE + sample_rate - 1,
            sample_rate,
        );
    }
}

/// Audio at the models' rate is not resampled, and at half that rate it
/// doubles.
pub proof fn resampling_scales_with_the_rate(n_samples: int)
    requires
        n_samples >= 0,
    ensures
        samples_at_model_rate(n_samples, 44_100) == n_samples,
        samples_at_model_rate(n_samples, 0) == n_samples,
        samples_at_model_rate(n_samples, 22_050) == 2 * n_samples,
{
}

/// Where the resampled length fits the count, that length is what the core
/// is given.
pub proof fn core_length_is_the_resampled_length(n_samples: u64, sample_rate: u32)
    requires
        samples_at_model_rate(n_samples as int, sample_rate as int) <= usize::MAX,
    ensures
        core_length(n_samples, sample_rate) == samples_at_model_rate(
            n_samples as int,
            sample_rate as int,
        ),
{
    if sample_rate > 0 {
        resampling_rounds_up(n_samples as int, sample_rate as int);
        let r = samples_at_model_rate(n_samples as int, sample_rate as int);
        assert(r >= 0) by (nonlinear_arith)
            requires
                r * sample_rate >= n_samples * MODEL_SAMPLE_RATE,
                sample_rate > 0,
                n_samples * MODEL_SAMPLE_RATE >= 0,
        ;
    }
}

/// Channels can be separated exactly if they hold samples, as many on the
/// left as on the right, at a rate above zero, however high. Otherwise the
/// first of these that fails is the one named.
pub proof fn input_is_separable_at_every_rate(left: nat, right: nat, sample_rate: u32)
    ensures
        input_fault(left, right, sample_rate) is None <==> left > 0 && left == right
            && sample_rate > 0,
        left == 0 ==> input_fault(left, right, sample_rate) == Some("audio is empty"@),
        left > 0 && left != right ==> input_fault(left, right, sample_rate) == Some(
            "left and right channels have different lengths"@,
        ),
        left > 0 && left == right && sample_rate == 0 ==> input_fault(left, right, sample_rate)
            == Some("sample rate must be greater than zero"@),
{
}

/// The check of the input accepts and refuses accordingly, whatever the
/// samples are.
pub proof fn validation_depends_on_lengths_and_rate<S>(
    left: &[S],
    right: &[S],
    sample_rate: u32,
    r: Result<(), FfiDemucsError>,
)
    requires
        call_ensures(validate_input::<S>, (left, right, sample_rate), r),
    ensures
        r is Ok <==> left@.len() > 0 && left@.len() == right@.len() && sample_rate > 0,
        r matches Err(error) ==> {
            &&& error matches FfiDemucsError::InvalidInput { reason }
            &&& left@.len() == 0 <==> reason@ == "audio is empty"@
            &&& left@.len() > 0 && left@.len() != right@.len() <==> reason@
                == "left and right channels have different lengths"@
            &&& left@.len() > 0 && left@.len() == right@.len() <==> reason@
                == "sample rate must be greater than zero"@
        },
{
    reveal_strlit("audio is empty");
    reveal_strlit("left and right channels have different lengths");
    reveal_strlit("sample rate must be greater than zero");
    assert("audio is empty"@.len() != "left and right channels have different lengths"@.len());
    assert("audio is empty"@.len() != "sample rate must be greater than zero"@.len());
    assert("left and right channels have different lengths"@.len()
        != "sample rate must be greater than zero"@.len());
}

/// The length handed to the core covers the input's duration: at the models'
/// rate it lasts as long as the input or less than a sample more. At a rate of
/// zero it is the input's own length. Of a length of more than 64 bits the low
/// ones are kept, and what `usize` cannot express is its largest value.
pub proof fn core_is_given_the_covering_length(
    n_samples: u64,
    sample_rate: u32,
    length: int,
    r: usize,
)
    requires
        sample_rate == 0 ==> length == n_samples,
        sample_rate > 0 ==> n_samples * 44_100 <= length * sample_rate < n_samples * 44_100
            + sample_rate,
        call_ensures(resampled_length, (n_samples, sample_rate), r),
    ensures
        length <= usize::MAX ==> r == length,
        length % 0x1_0000_0000_0000_0000 <= usize::MAX ==> r == length % 0x1_0000_0000_0000_0000,
        length % 0x1_0000_0000_0000_0000 > usize::MAX ==> r == usize::MAX,
        r == core_length(n_samples, sample_rate),
{
    let (n, b) = (n_samples as int, sample_rate as int);
    let exact = samples_at_model_rate(n, b);
    if b > 0 {
        resampling_rounds_up(n, b);
        assert(exact == length) by (nonlinear_arith)
            requires
                b > 0,
                n * 44_100 <= exact * b < n * 44_100 + b,
                n * 44_100 <= length * b < n * 44_100 + b,
        ;
        assert(length >= 0) by (nonlinear_arith)
            requires
                b > 0,
                n >= 0,
                n * 44_100 <= length * b,
        ;
    }
}

/// The number of chunks is the core's own count for the length that covers
/// the input's duration, wherever that length can be expressed.
pub proof fn chunks_are_counted_at_the_models_rate<F: Fn(usize) -> usize>(
    n_samples: u64,
    sample_rate: u32,
    length: usize,
    core_chunks: F,
    r: u64,
)
    requires
        sample_rate == 0 ==> length == n_samples,
        sample_rate > 0 ==> n_samples * 44_100 <= length * sample_rate < n_samples * 44_100
            + sample_rate,
        call_ensures(num_chunks::<F>, (n_samples, sample_rate, core_chunks), r),
    ensures
        exists|count: usize| #[trigger] call_ensures(core_chunks, (length,), count) && r == count,
{
    length_is_the_covering_one(n_samples, sample_rate, length);
}

/// A length that covers the input's duration is the one handed to the core.
pub proof fn length_is_the_covering_one(n_samples: u64, sample_rate: u32, length: usize)
    requires
        sample_rate == 0 ==> length == n_samples,
        sample_rate > 0 ==> n_samples * 44_100 <= length * sample_rate < n_samples * 44_100
            + sample_rate,
    ensures
        core_length(n_samples, sample_rate) == length,
{
    let (n, b, l) = (n_samples as int, sample_rate as int, length as int);
    let exact = samples_at_model_rate(n, b);
    if b > 0 {
        resampling_rounds_up(n, b);
        assert(exact == l) by (nonlinear_arith)
            requires
                b > 0,
                n * 44_100 <= exact * b < n * 44_100 + b,
                n * 44_100 <= l * b < n * 44_100 + b,
        ;
    }
}

} // verus!
