use henmen::termination::Termination;

#[test]
fn tracks_request_and_child_process_id() {
    let mut termination: Termination = Termination::new();
    assert!(!termination.is_requested());
    assert_eq!(termination.child_process_id(), None);

    termination.set_child_process_id(4321);
    termination.request();
    assert!(termination.is_requested());
    assert_eq!(termination.child_process_id(), Some(4321));

    termination.clear_child_process_id();
    assert_eq!(termination.child_process_id(), None);
    assert!(termination.is_requested());
}

#[test]
fn a_stop_is_passed_on_to_the_child() {
    let mut termination: Termination = Termination::new();
    assert_eq!(termination.stop(), None);
    assert!(termination.is_requested());

    let mut termination: Termination = Termination::new();
    termination.set_child_process_id(4321);
    assert_eq!(termination.stop(), Some(4321));
    assert!(termination.is_requested());
    assert_eq!(termination.child_process_id(), Some(4321));
}
