//! The recording session and the choice of a capture configuration.
//!
//! `SharedSamples` is the state of one start/stop recording cycle: a growable
//! mono sample buffer and a running flag. The host wraps one value of it in a
//! mutex and hands sample blocks to `add_samples` from the audio callback.

use vstd::prelude::*;

verus! {

use crate::audio::all_valid;
use crate::transcribe::{transcribe_precheck, TranscribeError};

/// State shared between the audio callback, the capture worker and the
/// foreground caller during one recording cycle.
pub struct SharedSamples {
    /// Captured mono samples, in callback delivery order.
    pub samples: Vec<i64>,
    /// True exactly between a matching start/stop pair.
    pub recording: bool,
}

/// What starting a session does: the buffer is cleared and capture is on.
pub open spec fn start_transition(pre: SharedSamples, post: SharedSamples) -> bool {
    post.samples@ == Seq::<i64>::empty() && post.recording
}

/// What stopping a session does: the buffer is kept and capture is off.
pub open spec fn stop_transition(pre: SharedSamples, post: SharedSamples) -> bool {
    post.samples@ == pre.samples@ && !post.recording
}

impl SharedSamples {
    /// A fresh session: empty buffer, not recording.
    pub fn new() -> (r: SharedSamples)
        ensures
            r.samples@ == Seq::<i64>::empty(),
            !r.recording,
    {
        SharedSamples { samples: Vec::new(), recording: false }
    }

    /// Begin capture: drop anything previously buffered and raise the flag.
    pub fn start_recording(&mut self)
        ensures
            start_transition(*old(self), *final(self)),
    {
        self.samples.clear();
        self.recording = true;
    }

    /// End capture: lower the flag; the buffer stays as delivered.
    pub fn stop_recording(&mut self)
        ensures
            stop_transition(*old(self), *final(self)),
    {
        self.recording = false;
    }

    /// Whether a start/stop cycle is in flight.
    pub fn is_recording(&self) -> (r: bool)
        ensures
            r == self.recording,
    {
        self.recording
    }

    /// Append a callback block to the buffer, but only while recording;
    /// a block arriving after the stop signal is discarded.
    pub fn add_samples(&mut self, new_samples: &Vec<i64>)
        ensures
            old(self).recording ==> final(self).samples@ == old(self).samples@ + new_samples@,
            !old(self).recording ==> final(self).samples@ == old(self).samples@,
            final(self).recording == old(self).recording,
    {
        if self.recording {
            self.samples.extend_from_slice(new_samples.as_slice());
            assert(self.samples@ =~= old(self).samples@ + new_samples@);
        }
    }

    /// A snapshot of the current buffer.
    pub fn get_samples(&self) -> (r: Vec<i64>)
        ensures
            r@ == self.samples@,
    {
        let r = self.samples.clone();
        assert(r@ =~= self.samples@);
        r
    }
}

/// A session that was started and then stopped with no callback deliveries
/// holds no samples, and transcription of that buffer reports `NoAudio`,
/// whatever the state of the model and of the transcriber.
pub proof fn lemma_untouched_session_yields_no_audio(
    s0: SharedSamples,
    s1: SharedSamples,
    s2: SharedSamples,
)
    requires
        start_transition(s0, s1),
        stop_transition(s1, s2),
    ensures
        s2.samples@.len() == 0,
        forall|loaded: bool, model_present: bool|
            transcribe_precheck(loaded, model_present, s2.samples@.len())
                == Err::<(), TranscribeError>(TranscribeError::NoAudio),
{
}

/// One advertised capture configuration of an input device: a channel count
/// and a supported sample-rate range.
#[derive(Clone, Copy, PartialEq, Eq, Structural, Debug)]
pub struct InputConfigRange {
    pub channels: u16,
    pub min_rate: u32,
    pub max_rate: u32,
}

/// The capture rate the model wants.
pub const TARGET_RATE: u32 = 16000;

/// Only mono and stereo configurations are considered.
pub open spec fn eligible(c: InputConfigRange) -> bool {
    c.channels == 1 || c.channels == 2
}

/// Distance of a configuration from the target rate: zero when the target
/// lies inside its range, else the gap to the nearest endpoint.
pub open spec fn config_distance(c: InputConfigRange) -> int {
    if c.min_rate <= TARGET_RATE && TARGET_RATE <= c.max_rate {
        0
    } else if TARGET_RATE < c.min_rate {
        c.min_rate - TARGET_RATE
    } else {
        TARGET_RATE - c.max_rate
    }
}

/// Distance of one configuration from the target rate.
fn distance_to_target(c: &InputConfigRange) -> (r: u32)
    ensures
        r == config_distance(*c),
{
    if c.min_rate <= TARGET_RATE && TARGET_RATE <= c.max_rate {
        0
    } else if TARGET_RATE < c.min_rate {
        c.min_rate - TARGET_RATE
    } else {
        TARGET_RATE - c.max_rate
    }
}

/// Pick the capture configuration: among the mono and stereo configurations,
/// the first one at minimal distance from the target rate; `None` when no
/// configuration is mono or stereo.
pub fn pick_input_config(configs: &Vec<InputConfigRange>) -> (r: Option<usize>)
    ensures
        match r {
            Option::None => forall|j: int|
                0 <= j < configs@.len() ==> !eligible(#[trigger] configs@[j]),
            Option::Some(i) => i < configs@.len() && eligible(configs@[i as int])
                && (forall|j: int| 0 <= j < configs@.len() && eligible(#[trigger] configs@[j])
                    ==> config_distance(configs@[i as int]) <= config_distance(configs@[j]))
                && (forall|j: int| 0 <= j < i && eligible(#[trigger] configs@[j])
                    ==> config_distance(configs@[i as int]) < config_distance(configs@[j])),
        },
{
    let mut best: Option<usize> = None;
    let mut best_dist: u32 = 0;
    let mut i: usize = 0;
    while i < configs.len()
        invariant
            i <= configs@.len(),
            match best {
                Option::None => best_dist == 0 && forall|j: int|
                    0 <= j < i ==> !eligible(#[trigger] configs@[j]),
                Option::Some(b) => b < i && eligible(configs@[b as int])
                    && best_dist == config_distance(configs@[b as int])
                    && (forall|j: int| 0 <= j < i && eligible(#[trigger] configs@[j])
                        ==> best_dist <= config_distance(configs@[j]))
                    && (forall|j: int| 0 <= j < b && eligible(#[trigger] configs@[j])
                        ==> best_dist < config_distance(configs@[j])),
            },
        decreases configs@.len() - i,
    {
        let c = configs[i];
        if c.channels == 1 || c.channels == 2 {
            let d = distance_to_target(&c);
            match best {
                Option::None => {
                    best = Some(i);
                    best_dist = d;
                },
                Option::Some(_) => {
                    if d < best_dist {
                        best = Some(i);
                        best_dist = d;
                    }
                },
            }
        }
        i = i + 1;
    }
    best
}

/// The rate to open the chosen configuration at: the target rate when the
/// configuration brackets it, else the configuration's minimum rate.
pub fn chosen_rate(c: &InputConfigRange) -> (r: u32)
    ensures
        r == (if c.min_rate <= TARGET_RATE && TARGET_RATE <= c.max_rate {
            TARGET_RATE as int
        } else {
            c.min_rate as int
        }),
{
    if c.min_rate <= TARGET_RATE && TARGET_RATE <= c.max_rate {
        TARGET_RATE
    } else {
        c.min_rate
    }
}

} // verus!
