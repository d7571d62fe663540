use load_balance::echo::{echo_reply_message, echo_request_message};

#[test]
fn request_messages_are_numbered_with_two_digits() {
    assert_eq!(echo_request_message(0), "msg 00");
    assert_eq!(echo_request_message(1), "msg 01");
    assert_eq!(echo_request_message(9), "msg 09");
    assert_eq!(echo_request_message(10), "msg 10");
    assert_eq!(echo_request_message(42), "msg 42");
    assert_eq!(echo_request_message(123), "msg 123");
}

#[test]
fn request_messages_match_the_format() {
    for i in [0usize, 5, 17, 99, 100, 1000, 65535, usize::MAX] {
        assert_eq!(echo_request_message(i), format!("msg {:02}", i));
    }
}

#[test]
fn request_messages_differ() {
    assert_ne!(echo_request_message(1), echo_request_message(10));
    assert_ne!(echo_request_message(0), echo_request_message(100));
}

#[test]
fn replies_name_the_server() {
    assert_eq!(echo_reply_message("hello", "[::1]:50053"), "hello (from [::1]:50053)");
    assert_eq!(echo_reply_message("", "x"), " (from x)");
    assert_eq!(
        echo_reply_message("hello (from [::1]:50053)", "[::1]:50051"),
        "hello (from [::1]:50053) (from [::1]:50051)"
    );
}
