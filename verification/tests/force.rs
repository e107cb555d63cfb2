use pq::force::forcefully_decode_attempts;

#[test]
fn force_windows() {
    assert_eq!(forcefully_decode_attempts(0), (vec![], false));
    assert_eq!(forcefully_decode_attempts(1), (vec![(0, 1)], false));
    assert_eq!(forcefully_decode_attempts(3), (vec![(0, 3), (0, 2), (1, 2)], false));
    // the pass at offset 3 overruns a buffer of four bytes at its third window
    assert_eq!(
        forcefully_decode_attempts(4),
        (vec![(0, 4), (0, 3), (1, 3), (0, 1), (1, 1)], true)
    );
}
