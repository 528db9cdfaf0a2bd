//! Decoding an audio file to canonical form: the decisions of the packet
//! loop, the per-packet accumulation, and the final normalization.
//!
//! The container and codec work itself happens outside; this module fixes
//! what the loop does with each outcome and what the accumulated samples
//! become.

use vstd::prelude::*;

verus! {

use crate::audio::{
    frame_mean,
    all_valid, mix_to_mono, mixdown_spec, resample, resample_spec, to_ints,
};

/// Why an import failed.
#[derive(Clone, Copy, PartialEq, Eq, Structural, Debug)]
pub enum ImportError {
    /// The file could not be opened.
    OpenFailed,
    /// The container or codec was not recognized.
    UnsupportedFormat,
    /// The container holds no audio track.
    NoAudioTrack,
    /// No decoder could be built for the track.
    DecoderCreationFailed,
    /// Decoding finished without producing any samples.
    EmptyAudio,
}

/// The sample rate the transcriber requires.
pub const CANONICAL_RATE: u32 = 16000;

/// What one turn of the packet loop observed.
#[derive(Clone, Copy, PartialEq, Eq, Structural, Debug)]
pub enum DecodeEvent {
    /// A packet of track `track_id` arrived and decoded.
    Decoded { track_id: u32 },
    /// A packet of track `track_id` arrived but its decode failed.
    DecodeFailed { track_id: u32 },
    /// The container reported an unexpected end of stream.
    UnexpectedEof,
    /// The container asked for the decoder to be reset.
    ResetRequired,
    /// Any other container error.
    ContainerError,
}

/// What the packet loop does next.
#[derive(Clone, Copy, PartialEq, Eq, Structural, Debug)]
pub enum DecodeAction {
    /// Mix the decoded packet down and append it.
    Accumulate,
    /// Ignore this packet and continue.
    Skip,
    /// Reset the decoder and continue.
    ResetDecoder,
    /// Leave the loop; decoding is over.
    Finish,
}

/// The packet-loop policy: accumulate a decoded packet of the selected
/// track; skip a packet of another track or one whose decode failed;
/// reset on a reset indication; finish on end of stream or any other
/// container error.
pub open spec fn decode_step_spec(event: DecodeEvent, selected_track: u32) -> DecodeAction {
    match event {
        DecodeEvent::Decoded { track_id } => if track_id == selected_track {
            DecodeAction::Accumulate
        } else {
            DecodeAction::Skip
        },
        DecodeEvent::DecodeFailed { .. } => DecodeAction::Skip,
        DecodeEvent::UnexpectedEof => DecodeAction::Finish,
        DecodeEvent::ResetRequired => DecodeAction::ResetDecoder,
        DecodeEvent::ContainerError => DecodeAction::Finish,
    }
}

/// Decide what one loop turn does with its event.
pub fn decode_step(event: &DecodeEvent, selected_track: u32) -> (r: DecodeAction)
    ensures
        r == decode_step_spec(*event, selected_track),
{
    match event {
        DecodeEvent::Decoded { track_id } => if *track_id == selected_track {
            DecodeAction::Accumulate
        } else {
            DecodeAction::Skip
        },
        DecodeEvent::DecodeFailed { .. } => DecodeAction::Skip,
        DecodeEvent::UnexpectedEof => DecodeAction::Finish,
        DecodeEvent::ResetRequired => DecodeAction::ResetDecoder,
        DecodeEvent::ContainerError => DecodeAction::Finish,
    }
}

/// The source rate, with the default taken when the track metadata gives
/// none.
pub fn source_rate_or_default(rate: Option<u32>) -> (r: u32)
    ensures
        r == (match rate {
            Option::Some(x) => x,
            Option::None => 44100u32,
        }),
{
    match rate {
        Option::Some(x) => x,
        Option::None => 44100,
    }
}

/// The source channel count, with the default taken when the track
/// metadata gives none.
pub fn source_channels_or_default(channels: Option<u32>) -> (r: u32)
    ensures
        r == (match channels {
            Option::Some(x) => x,
            Option::None => 2u32,
        }),
{
    match channels {
        Option::Some(x) => x,
        Option::None => 2,
    }
}

/// Mix one decoded packet down to mono and append it to the accumulator.
pub fn accumulate_packet(acc: &mut Vec<i64>, packet: &Vec<i64>, channels: u32)
    requires
        channels >= 1,
        all_valid(old(acc)@),
        all_valid(packet@),
    ensures
        to_ints(final(acc)@) == to_ints(old(acc)@) + mixdown_spec(packet@, channels as int),
        final(acc)@.len() == old(acc)@.len() + packet@.len() as int / channels as int,
        forall|i: int| 0 <= i < old(acc)@.len() ==> final(acc)@[i] == old(acc)@[i],
        forall|i: int| old(acc)@.len() <= i < final(acc)@.len()
            ==> #[trigger] final(acc)@[i] as int == frame_mean(
                packet@, channels as int, i - old(acc)@.len()),
        all_valid(final(acc)@),
{
    let mono = mix_to_mono(packet, channels);
    acc.extend_from_slice(mono.as_slice());
    assert(acc@ =~= old(acc)@ + mono@);
    assert(to_ints(acc@) =~= to_ints(old(acc)@) + to_ints(mono@));
}

/// Normalize what the packet loop accumulated: an empty accumulator is
/// `EmptyAudio`; otherwise the samples resampled to the canonical rate.
pub fn finalize_decoded(acc: Vec<i64>, source_rate: u32) -> (r: Result<Vec<i64>, ImportError>)
    requires
        source_rate >= 1,
        all_valid(acc@),
        acc@.len() * (CANONICAL_RATE as int) / (source_rate as int) <= usize::MAX,
    ensures
        match r {
            Ok(v) => acc@.len() > 0 && to_ints(v@) == resample_spec(
                acc@, source_rate as int, CANONICAL_RATE as int)
                && v@.len() == resample_spec(acc@, source_rate as int, CANONICAL_RATE as int).len()
                && (forall|i: int| 0 <= i < v@.len() ==> #[trigger] v@[i] as int == resample_spec(
                    acc@, source_rate as int, CANONICAL_RATE as int)[i])
                && all_valid(v@),
            Err(e) => e == ImportError::EmptyAudio && acc@.len() == 0,
        },
{
    if acc.len() == 0 {
        return Err(ImportError::EmptyAudio);
    }
    let out = resample(&acc, source_rate, CANONICAL_RATE);
    Ok(out)
}

} // verus!
