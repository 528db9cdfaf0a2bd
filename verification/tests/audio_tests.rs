use voice_journal::audio::{mix_to_mono, resample};

fn tone(len: usize) -> Vec<i64> {
    // a crude square-ish tone, full scale down to zero and back
    (0..len).map(|i| if (i / 20) % 2 == 0 { 20000 } else { -20000 }).collect()
}

#[test]
fn resample_equal_rates_is_identity() {
    let s = tone(16000);
    let r = resample(&s, 16000, 16000);
    assert_eq!(r, s);
}

#[test]
fn resample_equal_rates_is_identity_small() {
    let s: Vec<i64> = vec![1, -2, 3];
    assert_eq!(resample(&s, 44100, 44100), s);
    let r: Vec<i64> = vec![7];
    assert_eq!(resample(&r, 1, 1), r);
}

#[test]
fn resample_empty_is_identity() {
    let s: Vec<i64> = Vec::new();
    assert_eq!(resample(&s, 48000, 16000), s);
}

#[test]
fn resample_output_length_is_scaled() {
    let s = tone(48000);
    let r = resample(&s, 48000, 16000);
    assert_eq!(r.len(), 16000);

    let s2 = tone(44100);
    let r2 = resample(&s2, 44100, 16000);
    assert_eq!(r2.len(), 44100 * 16000 / 44100);

    let s3 = tone(10);
    let r3 = resample(&s3, 3, 2);
    assert_eq!(r3.len(), 10 * 2 / 3);
}

#[test]
fn resample_threefold_downsample_picks_every_third() {
    // 48 kHz -> 16 kHz: position i * 3, fraction always zero
    let s: Vec<i64> = (0..48000).map(|i| (i % 60000) as i64 - 30000).collect();
    let r = resample(&s, 48000, 16000);
    assert_eq!(r.len(), 16000);
    assert_eq!(r[0], s[0]);
    for i in 0..16000 {
        assert_eq!(r[i], s[3 * i]);
    }
    assert_eq!(r[15999], s[(16000 - 1) * 3]);
}

#[test]
fn resample_upsample_interpolates() {
    // from 2 to 3: output 0 at p=0; (0*1 + 30000*2)/3 at p=2; s[1] at p=4
    let s: Vec<i64> = vec![0, 30000];
    let r = resample(&s, 2, 3);
    assert_eq!(r, vec![0, 20000, 30000]);
}

#[test]
fn resample_twofold_downsample() {
    let s: Vec<i64> = vec![0, 10000, 20000, 30000];
    let r = resample(&s, 4, 2);
    assert_eq!(r, vec![0, 20000]);
}

#[test]
fn mixdown_stereo_averages_pairs() {
    let s: Vec<i64> = vec![100, 200, 300, 500, 7];
    let r = mix_to_mono(&s, 2);
    // trailing partial frame (7) is dropped
    assert_eq!(r, vec![150, 400]);
}

#[test]
fn mixdown_mono_is_identity() {
    let s: Vec<i64> = vec![5, -6, 7];
    assert_eq!(mix_to_mono(&s, 1), s);
}

#[test]
fn mixdown_rounds_toward_negative_infinity() {
    let s: Vec<i64> = vec![-3, 2];
    assert_eq!(mix_to_mono(&s, 2), vec![-1]);
}

#[test]
fn mixdown_four_channels() {
    let s: Vec<i64> = vec![1, 2, 3, 4, 10, 20, 30, 40];
    assert_eq!(mix_to_mono(&s, 4), vec![2, 25]);
}

#[test]
fn mixdown_empty() {
    let s: Vec<i64> = Vec::new();
    assert_eq!(mix_to_mono(&s, 2), Vec::<i64>::new());
}
