use chatcore::frame::{frame_message, FrameBuffer, ReadOutcome};
use chatcore::message::Message;
use chatcore::wire::{decode_message, encode_message};

fn round_trip(m: &Message) -> Message {
    let bytes = encode_message(m);
    decode_message(bytes.as_slice()).expect("round trip failed")
}

#[test]
fn text_round_trips() {
    match round_trip(&Message::Text(String::from("hello world"))) {
        Message::Text(t) => assert_eq!(t, "hello world"),
        _ => panic!("wrong variant"),
    }
}

#[test]
fn empty_text_round_trips() {
    match round_trip(&Message::Text(String::new())) {
        Message::Text(t) => assert_eq!(t, ""),
        _ => panic!("wrong variant"),
    }
}

#[test]
fn unicode_text_round_trips() {
    match round_trip(&Message::Text(String::from("héllo λ ✓"))) {
        Message::Text(t) => assert_eq!(t, "héllo λ ✓"),
        _ => panic!("wrong variant"),
    }
}

#[test]
fn file_round_trips_including_empty_bytes() {
    match round_trip(&Message::File(String::from("a/b.bin"), vec![0, 1, 255])) {
        Message::File(n, b) => {
            assert_eq!(n, "a/b.bin");
            assert_eq!(b, vec![0, 1, 255]);
        }
        _ => panic!("wrong variant"),
    }
    match round_trip(&Message::File(String::from(""), vec![])) {
        Message::File(n, b) => {
            assert_eq!(n, "");
            assert_eq!(b, Vec::<u8>::new());
        }
        _ => panic!("wrong variant"),
    }
}

#[test]
fn image_login_signup_passwd_quit_round_trip() {
    match round_trip(&Message::Image(vec![9, 8, 7])) {
        Message::Image(b) => assert_eq!(b, vec![9, 8, 7]),
        _ => panic!("wrong variant"),
    }
    match round_trip(&Message::Login(String::from("u"), String::from("p"))) {
        Message::Login(u, p) => {
            assert_eq!(u, "u");
            assert_eq!(p, "p");
        }
        _ => panic!("wrong variant"),
    }
    match round_trip(&Message::Signup(String::from("u2"), String::from("p2"))) {
        Message::Signup(u, p) => {
            assert_eq!(u, "u2");
            assert_eq!(p, "p2");
        }
        _ => panic!("wrong variant"),
    }
    match round_trip(&Message::Passwd(String::from("np"))) {
        Message::Passwd(p) => assert_eq!(p, "np"),
        _ => panic!("wrong variant"),
    }
    assert!(matches!(round_trip(&Message::Quit), Message::Quit));
}

#[test]
fn text_encodes_to_the_exact_bytes() {
    let bytes = encode_message(&Message::Text(String::from("hi")));
    assert_eq!(
        bytes,
        vec![0, 0, 0, 0, 2, 0, 0, 0, 0, 0, 0, 0, b'h', b'i']
    );
}

#[test]
fn file_encodes_to_the_exact_bytes() {
    let bytes = encode_message(&Message::File(String::from("a"), vec![255]));
    assert_eq!(
        bytes,
        vec![1, 0, 0, 0, 1, 0, 0, 0, 0, 0, 0, 0, b'a', 1, 0, 0, 0, 0, 0, 0, 0, 255]
    );
}

#[test]
fn quit_encodes_to_its_tag_alone() {
    assert_eq!(encode_message(&Message::Quit), vec![6, 0, 0, 0]);
}

#[test]
fn malformed_payloads_are_rejected() {
    // trailing garbage after a complete message
    let mut bytes = encode_message(&Message::Quit);
    bytes.push(0);
    assert!(decode_message(bytes.as_slice()).is_none());
    // truncated length prefix
    assert!(decode_message(&[0, 0]).is_none());
    // unknown tag
    assert!(decode_message(&[9, 0, 0, 0]).is_none());
    // text whose bytes are not UTF-8
    let bad = vec![0, 0, 0, 0, 1, 0, 0, 0, 0, 0, 0, 0, 0xFF];
    assert!(decode_message(bad.as_slice()).is_none());
}

#[test]
fn frame_carries_length_prefix_then_payload() {
    let framed = frame_message(&Message::Quit).expect("framing failed");
    assert_eq!(framed, vec![4, 0, 0, 0, 6, 0, 0, 0]);
}

#[test]
fn frames_written_back_to_back_are_read_in_order() {
    let msgs = vec![
        Message::Text(String::from("one")),
        Message::File(String::from("f"), vec![1, 2]),
        Message::Quit,
    ];
    let mut stream: Vec<u8> = Vec::new();
    for m in &msgs {
        stream.extend_from_slice(frame_message(m).unwrap().as_slice());
    }
    let mut reader = FrameBuffer::new();
    // deliver in two arbitrary pieces
    let cut = 5;
    reader.feed(&stream[..cut]);
    reader.feed(&stream[cut..]);
    match reader.read_next() {
        ReadOutcome::Frame(Message::Text(t)) => assert_eq!(t, "one"),
        _ => panic!("first frame wrong"),
    }
    match reader.read_next() {
        ReadOutcome::Frame(Message::File(n, b)) => {
            assert_eq!(n, "f");
            assert_eq!(b, vec![1, 2]);
        }
        _ => panic!("second frame wrong"),
    }
    assert!(matches!(
        reader.read_next(),
        ReadOutcome::Frame(Message::Quit)
    ));
    assert!(matches!(reader.read_next(), ReadOutcome::NeedMore));
}

#[test]
fn a_stray_zero_length_frame_is_a_no_op() {
    let mut reader = FrameBuffer::new();
    reader.feed(frame_message(&Message::Text(String::from("a"))).unwrap().as_slice());
    reader.feed(&[0, 0, 0, 0]);
    reader.feed(frame_message(&Message::Text(String::from("b"))).unwrap().as_slice());
    assert!(matches!(
        reader.read_next(),
        ReadOutcome::Frame(Message::Text(_))
    ));
    assert!(matches!(reader.read_next(), ReadOutcome::Heartbeat));
    match reader.read_next() {
        ReadOutcome::Frame(Message::Text(t)) => assert_eq!(t, "b"),
        _ => panic!("frame after heartbeat wrong"),
    }
}

#[test]
fn incomplete_frames_ask_for_more_bytes() {
    let framed = frame_message(&Message::Text(String::from("abc"))).unwrap();
    let mut reader = FrameBuffer::new();
    reader.feed(&framed[..3]);
    assert!(matches!(reader.read_next(), ReadOutcome::NeedMore));
    reader.feed(&framed[3..6]);
    assert!(matches!(reader.read_next(), ReadOutcome::NeedMore));
    reader.feed(&framed[6..]);
    assert!(matches!(reader.read_next(), ReadOutcome::Frame(_)));
}

#[test]
fn a_complete_frame_with_garbage_payload_is_corrupt() {
    let mut reader = FrameBuffer::new();
    reader.feed(&[2, 0, 0, 0, 9, 9]);
    assert!(matches!(reader.read_next(), ReadOutcome::Corrupt));
}
