use rust_lab::codecs::{request_action, RequestAction};

#[test]
fn connect_line_asks_for_a_connection() {
    assert_eq!(
        request_action("connect".to_string()),
        RequestAction::Connect { peer: "127.0.0.1:9000" }
    );
}

#[test]
fn other_lines_are_sent_to_the_peer() {
    assert_eq!(
        request_action("hello".to_string()),
        RequestAction::Send { message: "hello".to_string(), peer: "127.0.0.1:9000" }
    );
    assert_eq!(
        request_action("connect ".to_string()),
        RequestAction::Send { message: "connect ".to_string(), peer: "127.0.0.1:9000" }
    );
}
