use tcp_services::frame::write_message;
use tcp_services::session::{handle_session, Action, Ending, Session};

fn stream(frames: &[(u8, i32, i32)]) -> Vec<u8> {
    let mut bytes = Vec::new();
    for &(tag, a, b) in frames {
        bytes.extend_from_slice(&write_message(tag, a, b));
    }
    bytes
}

#[test]
fn two_inserts_then_a_query_answer_fifty() {
    let input = stream(&[(b'I', 0, 100), (b'I', 1, 0), (b'Q', 0, 10)]);
    let (sent, why) = handle_session(&input);
    assert_eq!(sent, 50_i32.to_be_bytes().to_vec());
    assert_eq!(why, Ending::EndOfStream);
}

#[test]
fn query_over_raw_bytes_answers_fifty() {
    let mut input = vec![0x49u8];
    input.extend_from_slice(&0_i32.to_be_bytes());
    input.extend_from_slice(&100_i32.to_be_bytes());
    input.push(0x49);
    input.extend_from_slice(&1_i32.to_be_bytes());
    input.extend_from_slice(&0_i32.to_be_bytes());
    input.extend_from_slice(&[0x51, 0x00, 0x00, 0x00, 0x00, 0x00, 0x00, 0x00, 0x10]);
    let (sent, why) = handle_session(&input);
    assert_eq!(sent, vec![0, 0, 0, 50]);
    assert_eq!(why, Ending::EndOfStream);
}

#[test]
fn negative_mean_goes_out_as_minus_one() {
    let input = stream(&[(b'I', 1, -1), (b'I', 2, -2), (b'I', 2, -2), (b'Q', 0, 2)]);
    let (sent, why) = handle_session(&input);
    assert_eq!(sent, vec![0xFF, 0xFF, 0xFF, 0xFF]);
    assert_eq!(why, Ending::EndOfStream);
}

#[test]
fn unknown_tag_ends_the_session_without_a_response() {
    let input = stream(&[(0x58, 0, 0)]);
    let (sent, why) = handle_session(&input);
    assert!(sent.is_empty());
    assert_eq!(why, Ending::UnknownTag);
}

#[test]
fn nothing_after_an_unknown_tag_is_handled() {
    let input = stream(&[(b'I', 1, 10), (b'Q', 1, 1), (b'X', 0, 0), (b'Q', 1, 1)]);
    let (sent, why) = handle_session(&input);
    assert_eq!(sent, vec![0, 0, 0, 10]);
    assert_eq!(why, Ending::UnknownTag);
}

#[test]
fn empty_stream_is_a_clean_end() {
    let (sent, why) = handle_session(&[]);
    assert!(sent.is_empty());
    assert_eq!(why, Ending::EndOfStream);
}

#[test]
fn stream_that_breaks_inside_a_frame_is_truncated() {
    let mut input = stream(&[(b'I', 1, 10), (b'Q', 1, 1)]);
    input.extend_from_slice(&[0x51, 0, 0]);
    let (sent, why) = handle_session(&input);
    assert_eq!(sent, vec![0, 0, 0, 10]);
    assert_eq!(why, Ending::TruncatedFrame);
}

#[test]
fn each_query_sees_the_store_of_its_moment() {
    let input = stream(&[
        (b'Q', 0, 9),
        (b'I', 1, 10),
        (b'Q', 0, 9),
        (b'I', 2, 20),
        (b'Q', 0, 9),
        (b'I', 3, 31),
        (b'Q', 0, 9),
        (b'Q', 9, 0),
    ]);
    let (sent, why) = handle_session(&input);
    let mut expected = Vec::new();
    for v in [0, 10, 15, 20, 0] {
        expected.extend_from_slice(&i32::to_be_bytes(v));
    }
    assert_eq!(sent, expected);
    assert_eq!(why, Ending::EndOfStream);
}

#[test]
fn inserts_send_nothing() {
    let mut session = Session::new();
    assert!(!session.is_closed());
    assert_eq!(session.on_frame('I', 1, 5), Action::Continue);
    assert_eq!(session.on_frame('I', 2, 7), Action::Continue);
    assert!(!session.is_closed());
    assert_eq!(session.on_frame('Q', 1, 2), Action::Respond(6));
    assert!(!session.is_closed());
}

#[test]
fn fresh_session_answers_zero() {
    let mut session = Session::new();
    assert_eq!(session.on_frame('Q', i32::MIN, i32::MAX), Action::Respond(0));
}

#[test]
fn lower_case_tags_are_unknown() {
    let mut session = Session::new();
    assert_eq!(session.on_frame('i', 1, 5), Action::Close(Ending::UnknownTag));
    assert!(session.is_closed());
    let mut session = Session::new();
    assert_eq!(session.on_frame('q', 1, 5), Action::Close(Ending::UnknownTag));
    assert!(session.is_closed());
}

#[test]
fn closed_session_handles_no_further_frame() {
    let mut session = Session::new();
    assert_eq!(session.on_frame('I', 1, 5), Action::Continue);
    assert_eq!(session.on_frame('X', 0, 0), Action::Close(Ending::UnknownTag));
    assert_eq!(session.on_frame('I', 1, 500), Action::Close(Ending::UnknownTag));
    assert_eq!(session.on_frame('Q', 1, 1), Action::Close(Ending::UnknownTag));
    assert_eq!(
        session.on_read(&write_message(b'Q', 1, 1)),
        Action::Close(Ending::UnknownTag)
    );
    assert_eq!(session.on_failure(), Action::Close(Ending::UnknownTag));
    assert!(session.is_closed());
}

#[test]
fn reads_of_each_length() {
    let frame = write_message(b'I', 3, 4);
    let mut session = Session::new();
    assert_eq!(session.on_read(&frame), Action::Continue);
    assert_eq!(
        session.on_read(&write_message(b'Q', 3, 3)),
        Action::Respond(4)
    );
    assert_eq!(session.on_read(&[]), Action::Close(Ending::EndOfStream));
    assert!(session.is_closed());

    for n in 1..9 {
        let mut session = Session::new();
        assert_eq!(
            session.on_read(&frame[..n]),
            Action::Close(Ending::TruncatedFrame)
        );
        assert!(session.is_closed());
    }
}

#[test]
fn transport_failure_closes_the_session() {
    let mut session = Session::new();
    assert_eq!(session.on_frame('I', 1, 5), Action::Continue);
    assert_eq!(session.on_failure(), Action::Close(Ending::TransportError));
    assert!(session.is_closed());
    assert_eq!(session.on_read(&[]), Action::Close(Ending::TransportError));
}

#[test]
fn sessions_do_not_share_a_store() {
    let mut first = Session::new();
    let mut second = Session::new();
    assert_eq!(first.on_frame('I', 1, 100), Action::Continue);
    assert_eq!(second.on_frame('Q', 0, 10), Action::Respond(0));
    assert_eq!(first.on_frame('Q', 0, 10), Action::Respond(100));
}
