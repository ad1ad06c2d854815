use tact_synth::{mix_beat, mix_measure, render_measure, render_tact, shortest_len, SynthError};

fn tone(n: usize, scale: f32) -> Vec<f32> {
    (0..n).map(|i| scale * ((i as f32) * 0.01).sin()).collect()
}

#[test]
fn measure_is_cut_to_shortest_channel() {
    // one channel holds a beat of one second, the other of half a second
    let a = tone(44100, 1.0);
    let b = tone(22050, 0.5);
    let out = mix_measure(&vec![a.clone(), b.clone()], 0.0f32, &|acc, x, _| acc + x);
    assert_eq!(out.len(), 22050);
    for i in 0..out.len() {
        assert_eq!(out[i], 0.0f32 + a[i] + b[i]);
    }
}

#[test]
fn measure_sum_is_not_normalised() {
    let bufs = vec![vec![0.25f32, 0.5], vec![0.25f32, 0.25, 0.75], vec![0.5f32, 0.125]];
    let out = mix_measure(&bufs, 0.0f32, &|acc, x, _| acc + x);
    assert_eq!(out, vec![1.0f32, 0.875]);
}

#[test]
fn measure_of_no_channels_is_empty() {
    let bufs: Vec<Vec<f32>> = Vec::new();
    let out = mix_measure(&bufs, 0.0f32, &|acc, x, _| acc + x);
    assert!(out.is_empty());
}

#[test]
fn measure_with_an_empty_channel_is_empty() {
    let bufs = vec![vec![1.0f32, 2.0], Vec::new()];
    let out = mix_measure(&bufs, 0.0f32, &|acc, x, _| acc + x);
    assert!(out.is_empty());
}

#[test]
fn shortest_of_lengths() {
    let bufs = vec![vec![1u8; 7], vec![1u8; 3], vec![1u8; 5]];
    assert_eq!(shortest_len(&bufs), 3);
    let none: Vec<Vec<u8>> = Vec::new();
    assert_eq!(shortest_len(&none), 0);
}

#[test]
fn two_identical_notes_sound_as_one() {
    let note = tone(441, 0.8);
    let n = 2.0f32;
    let out = mix_beat(&vec![note.clone(), note.clone()], 0.0f32, &|acc, x, _| acc + x / n).unwrap();
    assert_eq!(out, note);
}

#[test]
fn beat_averages_with_equal_weight() {
    let n = 2.0f32;
    let out = mix_beat(&vec![vec![1.0f32, 0.5], vec![0.0f32, -0.5]], 0.0f32, &|acc, x, _| acc + x / n)
        .unwrap();
    assert_eq!(out, vec![0.5f32, 0.0]);
}

#[test]
fn single_note_beat_is_unchanged() {
    let note = tone(100, 0.3);
    let out = mix_beat(&vec![note.clone()], 0.0f32, &|acc, x, _| acc + x / 1.0).unwrap();
    assert_eq!(out, note);
}

#[test]
fn beat_with_unequal_notes_is_refused() {
    let out = mix_beat(&vec![vec![1.0f32; 10], vec![1.0f32; 9]], 0.0f32, &|acc, x, _| acc + x);
    assert_eq!(out, Err(SynthError::UnequalNoteLengths));
}

#[test]
fn empty_beat_is_refused() {
    let notes: Vec<Vec<f32>> = Vec::new();
    let out = mix_beat(&notes, 0.0f32, &|acc, x, _| acc + x);
    assert_eq!(out, Err(SynthError::MalformedComposition));
}

#[test]
fn beat_step_is_told_the_note_count() {
    let out = mix_beat(
        &vec![vec![0.5f32; 4], vec![0.25f32; 4], vec![0.25f32; 4], vec![1.0f32; 4]],
        0.0f32,
        &|acc, x, n| acc + x / (n as f32),
    )
    .unwrap();
    assert_eq!(out, vec![0.5f32; 4]);
}

#[test]
fn tact_puts_beats_one_after_another() {
    let beats = vec![
        vec![vec![1.0f32, 1.0], vec![0.0f32, 0.5]],
        vec![vec![0.25f32, 0.25, 0.25]],
    ];
    let out = render_tact(&beats, 0.0f32, &|acc, x, n| acc + x / (n as f32)).unwrap();
    assert_eq!(out, vec![0.5f32, 0.75, 0.25, 0.25, 0.25]);
}

#[test]
fn tact_with_uneven_beat_is_refused() {
    let beats = vec![vec![vec![1.0f32]], vec![vec![1.0f32, 2.0], vec![1.0f32]]];
    let out = render_tact(&beats, 0.0f32, &|acc, x, _| acc + x);
    assert_eq!(out, Err(SynthError::UnequalNoteLengths));
}

#[test]
fn tact_with_empty_beat_is_refused() {
    let beats: Vec<Vec<Vec<f32>>> = vec![vec![vec![1.0f32]], Vec::new()];
    let out = render_tact(&beats, 0.0f32, &|acc, x, _| acc + x);
    assert_eq!(out, Err(SynthError::MalformedComposition));
}

#[test]
fn empty_tact_is_empty() {
    let beats: Vec<Vec<Vec<f32>>> = Vec::new();
    let out = render_tact(&beats, 0.0f32, &|acc, x, _| acc + x).unwrap();
    assert!(out.is_empty());
}

#[test]
fn measure_lasts_as_long_as_shortest_channel() {
    // at 60 bpm: channel A one beat of a whole second, channel B one of half a second
    let a = tone(44100, 1.0);
    let b = tone(22050, 0.5);
    let channels = vec![vec![vec![a.clone()]], vec![vec![b.clone()]]];
    let out = render_measure(
        &channels,
        0.0f32,
        &|acc, x, n| acc + x / (n as f32),
        &|acc, x, _| acc + x,
    )
    .unwrap();
    assert_eq!(out.len(), 22050);
    assert_eq!(out[100], 0.0f32 + a[100] + b[100]);
    assert_eq!(out[22049], 0.0f32 + a[22049] + b[22049]);
}

#[test]
fn measure_of_several_beats_per_channel() {
    let channels = vec![
        vec![vec![vec![0.5f32, 0.5]], vec![vec![1.0f32], vec![0.0f32]]],
        vec![vec![vec![0.25f32, 0.25, 0.25, 0.25]]],
    ];
    let out = render_measure(
        &channels,
        0.0f32,
        &|acc, x, n| acc + x / (n as f32),
        &|acc, x, _| acc + x,
    )
    .unwrap();
    assert_eq!(out, vec![0.75f32, 0.75, 0.75]);
}

#[test]
fn measure_with_uneven_beat_is_refused() {
    let channels = vec![vec![vec![vec![0.5f32]]], vec![vec![vec![0.5f32], vec![0.5f32, 0.5]]]];
    let out = render_measure(&channels, 0.0f32, &|acc, x, _| acc + x, &|acc, x, _| acc + x);
    assert_eq!(out, Err(SynthError::UnequalNoteLengths));
}
