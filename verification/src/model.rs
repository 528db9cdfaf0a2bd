//! Model-artifact bookkeeping: where the speech model lives on disk, when
//! it counts as present, and how download progress is reported.

use vstd::prelude::*;

verus! {

/// A model file at or below this size is treated as an incomplete download.
pub const MODEL_MIN_BYTES: u64 = 100_000_000;

/// Denominator assumed for progress when the server reports no content
/// length (the reference model is about 142 MB).
pub const MODEL_DEFAULT_TOTAL_BYTES: u64 = 142_000_000;

/// Why acquiring the model failed.
#[derive(Clone, Copy, PartialEq, Eq, Structural, Debug)]
pub enum ModelError {
    /// The server answered with a non-success status.
    DownloadFailed(u16),
    /// The downloaded file failed the size check and was discarded.
    VerificationFailed,
}

/// The model artifact counts as downloaded iff the file exists and its
/// size exceeds the sanity threshold.
pub fn is_model_downloaded(exists: bool, size_bytes: u64) -> (r: bool)
    ensures
        r <==> (exists && size_bytes > MODEL_MIN_BYTES),
{
    exists && size_bytes > MODEL_MIN_BYTES
}

/// The models directory below the user's home directory.
pub open spec fn models_dir_suffix() -> Seq<char> {
    "/Documents/Project Data Files/Journal/models"@
}

/// The file name of the model weights.
pub open spec fn model_file_name() -> Seq<char> {
    "/ggml-base.en.bin"@
}

/// The directory that holds the model weights, below the given home
/// directory.
pub fn get_models_dir(home_dir: &str) -> (r: String)
    ensures
        r@ == home_dir@ + models_dir_suffix(),
{
    let mut s = home_dir.to_string();
    s.append("/Documents/Project Data Files/Journal/models");
    s
}

/// The full path of the model weights, below the given home directory.
pub fn get_model_path(home_dir: &str) -> (r: String)
    ensures
        r@ == home_dir@ + models_dir_suffix() + model_file_name(),
{
    let mut s = get_models_dir(home_dir);
    s.append("/ggml-base.en.bin");
    s
}

/// Whether an HTTP status code counts as success.
pub fn check_response_status(code: u16) -> (r: Result<(), ModelError>)
    ensures
        (200 <= code < 300) ==> r == Ok::<(), ModelError>(()),
        !(200 <= code < 300) ==> r == Err::<(), ModelError>(ModelError::DownloadFailed(code)),
{
    if 200 <= code && code < 300 {
        Ok(())
    } else {
        Err(ModelError::DownloadFailed(code))
    }
}

/// The check run after the stream is written out: the file must now pass
/// the presence test, else the partial file is to be deleted and the
/// download reported as failed.
pub fn verify_downloaded(exists: bool, size_bytes: u64) -> (r: Result<(), ModelError>)
    ensures
        (exists && size_bytes > MODEL_MIN_BYTES) ==> r == Ok::<(), ModelError>(()),
        !(exists && size_bytes > MODEL_MIN_BYTES) ==> r == Err::<(), ModelError>(
            ModelError::VerificationFailed),
{
    if is_model_downloaded(exists, size_bytes) {
        Ok(())
    } else {
        Err(ModelError::VerificationFailed)
    }
}

/// The percentage reported after `downloaded` of `total` bytes, floored
/// and capped at 100.
pub open spec fn percent_spec(downloaded: int, total: int) -> int {
    let p = downloaded * 100 / total;
    if p > 100 {
        100
    } else {
        p
    }
}

/// Progress of one model download: how much arrived against the expected
/// total.
pub struct DownloadProgress {
    /// Expected size in bytes; at least 1.
    pub total: u64,
    /// Bytes received so far.
    pub downloaded: u64,
}

impl DownloadProgress {
    /// Start tracking: the expected total is the advertised content length
    /// when one was given and is positive, else the default model size.
    pub fn new(content_length: Option<u64>) -> (r: DownloadProgress)
        ensures
            r.downloaded == 0,
            r.total == (match content_length {
                Option::Some(n) => if n > 0 {
                    n as int
                } else {
                    MODEL_DEFAULT_TOTAL_BYTES as int
                },
                Option::None => MODEL_DEFAULT_TOTAL_BYTES as int,
            }),
            r.total >= 1,
    {
        let total = match content_length {
            Option::Some(n) => if n > 0 {
                n
            } else {
                MODEL_DEFAULT_TOTAL_BYTES
            },
            Option::None => MODEL_DEFAULT_TOTAL_BYTES,
        };
        DownloadProgress { total, downloaded: 0 }
    }

    /// Account one received chunk and report the percentage to emit.
    pub fn record_chunk(&mut self, chunk_len: u64) -> (pct: u64)
        requires
            old(self).total >= 1,
            old(self).downloaded + chunk_len <= u64::MAX,
        ensures
            final(self).total == old(self).total,
            final(self).downloaded == old(self).downloaded + chunk_len,
            pct == percent_spec(final(self).downloaded as int, final(self).total as int),
            pct <= 100,
    {
        self.downloaded = self.downloaded + chunk_len;
        let p: u128 = (self.downloaded as u128) * 100 / (self.total as u128);
        if p > 100 {
            100
        } else {
            p as u64
        }
    }
}

/// The progress stream is sound: percentages never exceed 100, they are
/// non-decreasing as bytes arrive, and once the expected total has
/// arrived the reported percentage is exactly 100 — so a stream closed by
/// a final emission of 100 is non-decreasing and ends with 100.
pub proof fn lemma_progress_monotonic(total: int, d1: int, d2: int)
    requires
        total >= 1,
        0 <= d1 <= d2,
    ensures
        percent_spec(d1, total) <= percent_spec(d2, total),
        percent_spec(d2, total) <= 100,
        percent_spec(total, total) == 100,
{
    vstd::arithmetic::mul::lemma_mul_inequality(d1, d2, 100);
    vstd::arithmetic::div_mod::lemma_div_is_ordered(d1 * 100, d2 * 100, total);
    vstd::arithmetic::div_mod::lemma_div_pos_is_pos(d1 * 100, total);
    vstd::arithmetic::div_mod::lemma_div_multiples_vanish(100, total);
    assert(total * 100 == 100 * total) by (nonlinear_arith);
}

} // verus!
