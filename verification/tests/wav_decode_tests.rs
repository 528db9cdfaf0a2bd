//! Decode a generated two-channel 44.1 kHz WAV with symphonia and push the
//! decoded packets through the library's accumulation and normalization.

use std::io::Cursor;

use voice_journal::audio::AMP_ONE;
use voice_journal::import::{
    accumulate_packet, decode_step, finalize_decoded, source_rate_or_default, DecodeAction,
    DecodeEvent,
};

const RATE: u32 = 44100;
const FRAMES: usize = 44100; // one second

fn push_u32(v: &mut Vec<u8>, x: u32) {
    v.extend_from_slice(&x.to_le_bytes());
}

fn push_u16(v: &mut Vec<u8>, x: u16) {
    v.extend_from_slice(&x.to_le_bytes());
}

/// A minimal PCM16 stereo WAV holding a 440 Hz sine on both channels.
fn sine_wav() -> Vec<u8> {
    let data_len: u32 = (FRAMES * 2 * 2) as u32;
    let mut v: Vec<u8> = Vec::new();
    v.extend_from_slice(b"RIFF");
    push_u32(&mut v, 36 + data_len);
    v.extend_from_slice(b"WAVE");
    v.extend_from_slice(b"fmt ");
    push_u32(&mut v, 16);
    push_u16(&mut v, 1); // PCM
    push_u16(&mut v, 2); // stereo
    push_u32(&mut v, RATE);
    push_u32(&mut v, RATE * 2 * 2); // byte rate
    push_u16(&mut v, 4); // block align
    push_u16(&mut v, 16); // bits per sample
    v.extend_from_slice(b"data");
    push_u32(&mut v, data_len);
    for i in 0..FRAMES {
        let t = i as f64 / RATE as f64;
        let s = (0.5 * (2.0 * std::f64::consts::PI * 440.0 * t).sin() * 32767.0) as i16;
        push_u16(&mut v, s as u16);
        push_u16(&mut v, s as u16);
    }
    v
}

fn f32_to_fixed(samples: &[f32]) -> Vec<i64> {
    samples
        .iter()
        .map(|&x| {
            let v = (x as f64 * AMP_ONE as f64).round();
            v.clamp(-(AMP_ONE as f64), AMP_ONE as f64) as i64
        })
        .collect()
}

#[test]
fn stereo_wav_decodes_to_canonical_mono() {
    let wav = sine_wav();

    let mss = symphonia::core::io::MediaSourceStream::new(Box::new(Cursor::new(wav)), Default::default());
    let mut hint = symphonia::core::probe::Hint::new();
    hint.with_extension("wav");

    let probed = symphonia::default::get_probe()
        .format(&hint, mss, &symphonia::core::formats::FormatOptions::default(), &symphonia::core::meta::MetadataOptions::default())
        .expect("wav should be recognized");
    let mut format = probed.format;

    let track = format.default_track().expect("one audio track");
    let track_id = track.id;
    let source_rate = source_rate_or_default(track.codec_params.sample_rate);
    assert_eq!(source_rate, RATE);

    let mut decoder = symphonia::default::get_codecs()
        .make(&track.codec_params, &symphonia::core::codecs::DecoderOptions::default())
        .expect("pcm decoder");

    let mut acc: Vec<i64> = Vec::new();
    loop {
        let (event, payload): (DecodeEvent, Option<(Vec<i64>, u32)>) = match format.next_packet()
        {
            Ok(packet) => {
                if packet.track_id() != track_id {
                    (DecodeEvent::Decoded { track_id: packet.track_id() }, None)
                } else {
                    match decoder.decode(&packet) {
                        Ok(decoded) => {
                            let spec = *decoded.spec();
                            let channels = (spec.channels.count() as u32).max(1);
                            let mut buf =
                                symphonia::core::audio::SampleBuffer::<f32>::new(decoded.capacity() as u64, spec);
                            buf.copy_interleaved_ref(decoded);
                            (
                                DecodeEvent::Decoded { track_id },
                                Some((f32_to_fixed(buf.samples()), channels)),
                            )
                        }
                        Err(_) => (DecodeEvent::DecodeFailed { track_id }, None),
                    }
                }
            }
            Err(symphonia::core::errors::Error::IoError(ref e))
                if e.kind() == std::io::ErrorKind::UnexpectedEof =>
            {
                (DecodeEvent::UnexpectedEof, None)
            }
            Err(symphonia::core::errors::Error::ResetRequired) => {
                (DecodeEvent::ResetRequired, None)
            }
            Err(_) => (DecodeEvent::ContainerError, None),
        };

        match decode_step(&event, track_id) {
            DecodeAction::Accumulate => {
                if let Some((fixed, channels)) = payload {
                    accumulate_packet(&mut acc, &fixed, channels);
                }
            }
            DecodeAction::Skip => {}
            DecodeAction::ResetDecoder => decoder.reset(),
            DecodeAction::Finish => break,
        }
    }

    // mixdown kept one sample per stereo frame
    assert_eq!(acc.len(), FRAMES);

    let out = finalize_decoded(acc, source_rate).expect("nonempty audio");
    assert_eq!(out.len(), FRAMES * 16000 / RATE as usize);
    // amplitudes stay within full scale after the whole pipeline
    assert!(out.iter().all(|&s| -AMP_ONE <= s && s <= AMP_ONE));
    // a sine at half amplitude keeps peaks near half scale
    let peak = out.iter().map(|&s| s.abs()).max().unwrap();
    assert!(peak > AMP_ONE / 4 && peak <= AMP_ONE / 2 + 100);
}
