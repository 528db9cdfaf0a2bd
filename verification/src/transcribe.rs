//! The transcriber: a process-wide context that is loaded at most once, the
//! gate that decides whether a transcription may run, and the assembly of
//! segment texts into one transcript.
//!
//! Segment texts are handled as UTF-8 bytes; the separator and trimming
//! rules only ever inspect ASCII whitespace, which no multi-byte UTF-8
//! character can contain.

use vstd::prelude::*;

verus! {

/// Why a transcription request failed.
#[derive(Clone, Copy, PartialEq, Eq, Structural, Debug)]
pub enum TranscribeError {
    /// The model artifact is not on disk; the caller should download it.
    ModelMissing,
    /// The sample buffer handed in was empty.
    NoAudio,
    /// The decoder reported a failure.
    TranscriptionFailed,
    /// Decoding ran but produced only whitespace.
    NoSpeech,
}

/// The process-wide holder of the loaded model: `loaded` is false while
/// uninitialized and true once the model has been loaded.
pub struct TranscriberContext {
    pub loaded: bool,
}

impl TranscriberContext {
    /// A fresh, uninitialized holder.
    pub fn new() -> (r: TranscriberContext)
        ensures
            !r.loaded,
    {
        TranscriberContext { loaded: false }
    }

    /// Decide whether the model is (or can now be) loaded: a no-op when
    /// already loaded; a transition to loaded when the artifact is present;
    /// `ModelMissing` otherwise. The holder is never downgraded.
    pub fn ensure_context_initialized(&mut self, model_present: bool) -> (r: Result<
        (),
        TranscribeError,
    >)
        ensures
            old(self).loaded ==> r == Ok::<(), TranscribeError>(()) && final(self).loaded,
            !old(self).loaded && model_present ==> r == Ok::<(), TranscribeError>(())
                && final(self).loaded,
            !old(self).loaded && !model_present ==> r == Err::<(), TranscribeError>(
                TranscribeError::ModelMissing) && !final(self).loaded,
    {
        if self.loaded {
            Ok(())
        } else if model_present {
            self.loaded = true;
            Ok(())
        } else {
            Err(TranscribeError::ModelMissing)
        }
    }
}

/// Release the loaded model; the holder returns to its uninitialized state.
pub fn unload_model(ctx: &mut TranscriberContext)
    ensures
        !final(ctx).loaded,
{
    ctx.loaded = false;
}

/// The decision taken before any decoding runs: an empty buffer is
/// `NoAudio`; otherwise the model must already be loaded or be present on
/// disk, else `ModelMissing`.
pub open spec fn transcribe_precheck(
    loaded: bool,
    model_present: bool,
    num_samples: nat,
) -> Result<(), TranscribeError> {
    if num_samples == 0 {
        Err(TranscribeError::NoAudio)
    } else if !loaded && !model_present {
        Err(TranscribeError::ModelMissing)
    } else {
        Ok(())
    }
}

/// Gate a transcription request: reject an empty buffer, then initialize
/// the context if needed. On success the context holds a loaded model.
pub fn begin_transcription(
    ctx: &mut TranscriberContext,
    model_present: bool,
    num_samples: usize,
) -> (r: Result<(), TranscribeError>)
    ensures
        r == transcribe_precheck(old(ctx).loaded, model_present, num_samples as nat),
        r is Ok ==> final(ctx).loaded,
        r is Err ==> *final(ctx) == *old(ctx),
{
    if num_samples == 0 {
        return Err(TranscribeError::NoAudio);
    }
    ctx.ensure_context_initialized(model_present)
}

/// ASCII whitespace: space, tab, line feed, carriage return.
pub open spec fn is_ascii_ws(b: u8) -> bool {
    b == 32 || b == 9 || b == 10 || b == 13
}

/// Whether a segment already begins with whitespace (an empty segment does
/// not).
pub open spec fn begins_with_ws(seg: Seq<u8>) -> bool {
    seg.len() > 0 && is_ascii_ws(seg[0])
}

/// Append one segment to the accumulated transcript: a single space is
/// inserted between a non-empty accumulator and a segment that does not
/// already begin with whitespace.
pub open spec fn join_one(acc: Seq<u8>, seg: Seq<u8>) -> Seq<u8> {
    if acc.len() > 0 && !begins_with_ws(seg) {
        acc + seq![32u8] + seg
    } else {
        acc + seg
    }
}

/// The concatenation of all segments, in order, under the separator rule.
pub open spec fn join_spec(segs: Seq<Seq<u8>>) -> Seq<u8>
    decreases segs.len(),
{
    if segs.len() == 0 {
        Seq::empty()
    } else {
        join_one(join_spec(segs.drop_last()), segs.last())
    }
}

/// The sequence with leading ASCII whitespace removed.
pub open spec fn trim_front(s: Seq<u8>) -> Seq<u8>
    decreases s.len(),
{
    if s.len() > 0 && is_ascii_ws(s[0]) {
        trim_front(s.drop_first())
    } else {
        s
    }
}

/// The sequence with trailing ASCII whitespace removed.
pub open spec fn trim_back(s: Seq<u8>) -> Seq<u8>
    decreases s.len(),
{
    if s.len() > 0 && is_ascii_ws(s[s.len() - 1]) {
        trim_back(s.drop_last())
    } else {
        s
    }
}

/// The sequence with surrounding ASCII whitespace removed.
pub open spec fn trim_spec(s: Seq<u8>) -> Seq<u8> {
    trim_back(trim_front(s))
}

/// The views of a vector of segment texts.
pub open spec fn seg_views(segs: Seq<Vec<u8>>) -> Seq<Seq<u8>> {
    segs.map_values(|v: Vec<u8>| v@)
}

/// Whether one byte is ASCII whitespace.
fn is_ws_byte(b: u8) -> (r: bool)
    ensures
        r == is_ascii_ws(b),
{
    b == 32 || b == 9 || b == 10 || b == 13
}

/// If whitespace stands everywhere before `lo` and not at `lo`, trimming
/// the front keeps exactly the tail from `lo`.
proof fn lemma_trim_front_at(s: Seq<u8>, lo: int)
    requires
        0 <= lo <= s.len(),
        forall|j: int| 0 <= j < lo ==> is_ascii_ws(#[trigger] s[j]),
        lo == s.len() || !is_ascii_ws(s[lo]),
    ensures
        trim_front(s) == s.subrange(lo, s.len() as int),
    decreases lo,
{
    if lo == 0 {
        assert(s.subrange(0, s.len() as int) =~= s);
    } else {
        lemma_trim_front_at(s.drop_first(), lo - 1);
        assert(s.drop_first().subrange(lo - 1, s.drop_first().len() as int) =~= s.subrange(
            lo, s.len() as int));
    }
}

/// If whitespace stands everywhere from `hi` on and not at `hi - 1`,
/// trimming the back keeps exactly the head up to `hi`.
proof fn lemma_trim_back_at(s: Seq<u8>, hi: int)
    requires
        0 <= hi <= s.len(),
        forall|j: int| hi <= j < s.len() ==> is_ascii_ws(#[trigger] s[j]),
        hi == 0 || !is_ascii_ws(s[hi - 1]),
    ensures
        trim_back(s) == s.subrange(0, hi),
    decreases s.len(),
{
    if hi < s.len() {
        lemma_trim_back_at(s.drop_last(), hi);
        assert(s.drop_last().subrange(0, hi) =~= s.subrange(0, hi));
    } else {
        assert(s.subrange(0, s.len() as int) =~= s);
    }
}

/// Assemble the transcript from the decoder's segment texts, in order:
/// join under the separator rule, then trim surrounding whitespace; a
/// transcript that is then empty is `NoSpeech`.
pub fn assemble_transcript(segments: &Vec<Vec<u8>>) -> (r: Result<Vec<u8>, TranscribeError>)
    ensures
        match r {
            Ok(t) => t@ == trim_spec(join_spec(seg_views(segments@))) && t@.len() > 0,
            Err(e) => e == TranscribeError::NoSpeech && trim_spec(
                join_spec(seg_views(segments@))).len() == 0,
        },
{
    let mut t: Vec<u8> = Vec::new();
    let mut idx: usize = 0;
    while idx < segments.len()
        invariant
            idx <= segments@.len(),
            t@ == join_spec(seg_views(segments@).take(idx as int)),
        decreases segments@.len() - idx,
    {
        let seg: &Vec<u8> = &segments[idx];
        let needs_sep: bool = t.len() > 0 && !(seg.len() > 0 && is_ws_byte(seg[0]));
        let ghost pre: Seq<u8> = t@;
        if needs_sep {
            t.push(32u8);
        }
        t.extend_from_slice(seg.as_slice());
        proof {
            let sv = seg_views(segments@);
            assert(sv.take(idx + 1).drop_last() =~= sv.take(idx as int));
            assert(sv.take(idx + 1).last() == seg@);
            if needs_sep {
                assert(t@ =~= pre + seq![32u8] + seg@);
            } else {
                assert(t@ =~= pre + seg@);
            }
            assert(t@ == join_spec(sv.take(idx + 1)));
        }
        idx = idx + 1;
    }
    proof {
        assert(seg_views(segments@).take(segments@.len() as int) =~= seg_views(segments@));
    }
    let trimmed = trim_ascii(&t);
    if trimmed.len() == 0 {
        return Err(TranscribeError::NoSpeech);
    }
    Ok(trimmed)
}

/// Remove surrounding ASCII whitespace from a byte buffer.
pub fn trim_ascii(t: &Vec<u8>) -> (r: Vec<u8>)
    ensures
        r@ == trim_spec(t@),
{
    let mut lo: usize = 0;
    while lo < t.len() && is_ws_byte(t[lo])
        invariant
            lo <= t@.len(),
            forall|j: int| 0 <= j < lo ==> is_ascii_ws(#[trigger] t@[j]),
        decreases t@.len() - lo,
    {
        lo = lo + 1;
    }
    let mut hi: usize = t.len();
    while hi > lo && is_ws_byte(t[hi - 1])
        invariant
            lo <= hi <= t@.len(),
            forall|j: int| 0 <= j < lo ==> is_ascii_ws(#[trigger] t@[j]),
            forall|j: int| hi <= j < t@.len() ==> is_ascii_ws(#[trigger] t@[j]),
        decreases hi,
    {
        hi = hi - 1;
    }
    proof {
        lemma_trim_front_at(t@, lo as int);
        if hi == lo {
            lemma_trim_back_at(t@.subrange(lo as int, t@.len() as int), 0);
        } else {
            lemma_trim_back_at(t@.subrange(lo as int, t@.len() as int), hi - lo);
        }
        assert(trim_spec(t@) == t@.subrange(lo as int, t@.len() as int).subrange(
            0, hi - lo));
        assert(t@.subrange(lo as int, t@.len() as int).subrange(0, hi - lo) =~= t@.subrange(
            lo as int, hi as int));
    }
    let mut outv: Vec<u8> = Vec::new();
    let mut j: usize = lo;
    while j < hi
        invariant
            lo <= j <= hi <= t@.len(),
            outv@ == t@.subrange(lo as int, j as int),
        decreases hi - j,
    {
        let b: u8 = t[j];
        outv.push(b);
        assert(outv@ =~= t@.subrange(lo as int, j + 1));
        j = j + 1;
    }
    outv
}

} // verus!
