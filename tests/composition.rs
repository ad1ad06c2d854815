use tact_synth::{backend_kind, check_shape, tempo, BackendKind, SynthError};

#[test]
fn tempo_accepts_positive_counts() {
    assert_eq!(tempo(60), Ok(60));
    assert_eq!(tempo(1), Ok(1));
    assert_eq!(tempo(4294967295), Ok(u32::MAX));
}

#[test]
fn tempo_refuses_other_values() {
    assert_eq!(tempo(0), Err(SynthError::MalformedComposition));
    assert_eq!(tempo(-60), Err(SynthError::MalformedComposition));
    assert_eq!(tempo(4294967296), Err(SynthError::MalformedComposition));
}

#[test]
fn shape_one_channel_one_note() {
    let measures = vec![vec![vec![vec!["a1"]]]];
    assert_eq!(check_shape(1, &measures), Ok(()));
}

#[test]
fn shape_two_channels_several_beats() {
    let measures = vec![
        vec![vec![vec!["a1", "c2"], vec!["p"]], vec![vec!["e1"]]],
        vec![vec![vec!["a1"]], vec![vec!["p"], vec!["d1"]]],
    ];
    assert_eq!(check_shape(2, &measures), Ok(()));
    let none: Vec<Vec<Vec<Vec<&str>>>> = Vec::new();
    assert_eq!(check_shape(3, &none), Ok(()));
}

#[test]
fn shape_with_wrong_channel_count() {
    let measures = vec![vec![vec![vec!["a1"]]], vec![vec![vec!["a1"]], vec![vec!["a1"]]]];
    assert_eq!(check_shape(1, &measures), Err(SynthError::MalformedComposition));
}

#[test]
fn shape_with_empty_beat() {
    let measures = vec![vec![vec![vec!["a1"], Vec::new()]]];
    assert_eq!(check_shape(1, &measures), Err(SynthError::MalformedComposition));
}

#[test]
fn backends_by_name() {
    assert_eq!(backend_kind("pulse"), Ok(BackendKind::Pulse));
    assert_eq!(backend_kind("wav"), Ok(BackendKind::Wav));
    assert_eq!(backend_kind("alsa"), Err(SynthError::UnknownBackend));
    assert_eq!(backend_kind("Wav"), Err(SynthError::UnknownBackend));
    assert_eq!(backend_kind(""), Err(SynthError::UnknownBackend));
}
