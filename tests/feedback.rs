use peelfuzz::Envelope;

#[test]
fn envelope_starts_zero_and_tracks_maxima() {
    let mut env = Envelope::new(4);
    assert_eq!(env.len(), 4);
    assert!(!env.is_interesting(&[0, 0, 0, 0]));
    assert!(env.is_interesting(&[0, 2, 0, 1]));
    assert_eq!(env.gain(&[0, 2, 0, 1]), 2);
    env.update(&[0, 2, 0, 1]);
    assert_eq!((0..4).map(|i| env.cell(i)).collect::<Vec<_>>(), vec![0, 2, 0, 1]);
    assert!(!env.is_interesting(&[0, 1, 0, 1]));
    assert!(env.is_interesting(&[0, 3, 0, 0]));
    env.update(&[5, 1, 0, 0]);
    assert_eq!((0..4).map(|i| env.cell(i)).collect::<Vec<_>>(), vec![5, 2, 0, 1]);
}
