use load_balance::stream::{answer, match_for_io_error, Answer, ErrorLink, Incoming, IoFailure};

#[test]
fn no_io_error_in_an_empty_chain() {
    assert_eq!(match_for_io_error(&vec![]), None);
    assert_eq!(match_for_io_error(&vec![ErrorLink::Other, ErrorLink::H2(None)]), None);
}

#[test]
fn io_error_found_directly_or_inside_h2() {
    assert_eq!(
        match_for_io_error(&vec![ErrorLink::Other, ErrorLink::Io(IoFailure::BrokenPipe)]),
        Some(IoFailure::BrokenPipe)
    );
    assert_eq!(
        match_for_io_error(&vec![ErrorLink::H2(Some(IoFailure::Other)), ErrorLink::Io(IoFailure::BrokenPipe)]),
        Some(IoFailure::Other)
    );
    assert_eq!(
        match_for_io_error(&vec![ErrorLink::H2(None), ErrorLink::Other, ErrorLink::H2(Some(IoFailure::BrokenPipe))]),
        Some(IoFailure::BrokenPipe)
    );
}

#[test]
fn messages_are_echoed() {
    match answer(Incoming::Message("msg 01".to_string())) {
        Answer::Echo(m) => assert_eq!(m, "msg 01"),
        other => panic!("unexpected {:?}", other),
    }
}

#[test]
fn broken_pipe_ends_the_relay() {
    assert!(matches!(answer(Incoming::Failure(Some(IoFailure::BrokenPipe))), Answer::Disconnected));
}

#[test]
fn other_failures_are_forwarded() {
    assert!(matches!(answer(Incoming::Failure(Some(IoFailure::Other))), Answer::Forward));
    assert!(matches!(answer(Incoming::Failure(None)), Answer::Forward));
}
