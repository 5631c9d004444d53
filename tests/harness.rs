use peelfuzz::{is_objective, nul_terminated, ExitKind};

#[test]
fn string_input_gets_one_trailing_nul() {
    assert_eq!(nul_terminated(b"FUZ"), vec![b'F', b'U', b'Z', 0]);
    assert_eq!(nul_terminated(b""), vec![0]);
}

#[test]
fn string_target_reading_until_nul_stops_after_input() {
    let input = b"no nul in here";
    let buf = nul_terminated(input);
    let read = buf.iter().position(|&b| b == 0).unwrap();
    assert_eq!(read, input.len());
    assert_eq!(&buf[..read], &input[..]);
}

#[test]
fn objective_fires_on_crash_and_timeout_only() {
    assert!(!is_objective(ExitKind::Returned));
    assert!(is_objective(ExitKind::Crash));
    assert!(is_objective(ExitKind::Timeout));
}
