use chatcore::message::Message;
use chatcore::parse::{LineCommand, ParseError};

fn parse_payload(line: &str) -> Message {
    match Message::from_str(line) {
        Ok(LineCommand::Send(m)) => m,
        other => panic!("line did not parse to a payload: {:?}", line_kind(&other)),
    }
}

fn line_kind(r: &Result<LineCommand, ParseError>) -> &'static str {
    match r {
        Ok(LineCommand::Send(_)) => "send",
        Ok(LineCommand::LoadFile(_)) => "load-file",
        Ok(LineCommand::LoadImage(_)) => "load-image",
        Err(_) => "error",
    }
}

#[test]
fn from_str_creates_a_text_message() {
    let text = "text";

    let message = parse_payload(text);

    match message {
        Message::Text(string) => {
            assert_eq!(text.to_string(), string);
        }
        _ => {
            panic!("Not text message with proper text");
        }
    }
}

#[test]
fn from_str_creates_a_quit_message() {
    let text = ".quit";

    let message = parse_payload(text);

    assert!(matches!(message, Message::Quit));
}

#[test]
fn from_str_creates_a_login_message() {
    let user = "user";
    let pass = "pass";
    let text = format!(".login {} {}", user, pass);

    let message = parse_payload(&text);

    match message {
        Message::Login(msg_user, msg_pass) => {
            assert_eq!(user, msg_user);
            assert_eq!(pass, msg_pass);
        }
        _ => {
            panic!("not Login");
        }
    }
}

#[test]
fn from_str_creates_a_signup_message() {
    let user = "user";
    let pass = "pass";
    let text = format!(".signup {} {}", user, pass);

    let message = parse_payload(&text);

    match message {
        Message::Signup(msg_user, msg_pass) => {
            assert_eq!(user, msg_user);
            assert_eq!(pass, msg_pass);
        }
        _ => {
            panic!("not Signup");
        }
    }
}

#[test]
fn from_str_creates_a_password_message_if_passwords_match() {
    let pass = "pass";
    let text = format!(".passwd {} {}", pass, pass);

    let message = parse_payload(&text);

    match message {
        Message::Passwd(msg_pass) => {
            assert_eq!(pass, msg_pass);
        }
        _ => {
            panic!("not passwd");
        }
    }
}

#[test]
fn from_str_returns_error_if_passwords_dont_match() {
    let pass = "pass";
    let pass2 = "!pass";
    let text = format!(".passwd {} {}", pass, pass2);

    let message = Message::from_str(&text);

    assert!(matches!(message, Err(_)));
}

#[test]
fn passwords_mismatch_names_the_reason() {
    let r = Message::from_str(".passwd one two");
    assert!(matches!(r, Err(ParseError::PasswdMismatch)));
    assert_eq!(
        ParseError::PasswdMismatch.message(),
        "Passwords don't match!"
    );
}

#[test]
fn login_and_passwd_parse_their_documented_examples() {
    match parse_payload(".login alice secret") {
        Message::Login(u, p) => {
            assert_eq!(u, "alice");
            assert_eq!(p, "secret");
        }
        _ => panic!("not Login"),
    }
    match parse_payload(".passwd s3cret s3cret") {
        Message::Passwd(p) => assert_eq!(p, "s3cret"),
        _ => panic!("not Passwd"),
    }
    assert!(matches!(
        Message::from_str(".passwd s3cret other"),
        Err(ParseError::PasswdMismatch)
    ));
}

#[test]
fn plain_text_with_spaces_stays_text() {
    match parse_payload("hello world") {
        Message::Text(t) => assert_eq!(t, "hello world"),
        _ => panic!("not text"),
    }
}

#[test]
fn signup_with_one_argument_is_an_error() {
    let r = Message::from_str(".signup alice");
    assert!(matches!(r, Err(ParseError::SignupUsage)));
}

#[test]
fn login_with_one_argument_is_an_error() {
    let r = Message::from_str(".login alice");
    assert!(matches!(r, Err(ParseError::LoginTwoArgs)));
}

#[test]
fn passwd_with_one_argument_is_an_error() {
    let r = Message::from_str(".passwd once");
    assert!(matches!(r, Err(ParseError::PasswdTwice)));
}

#[test]
fn unknown_commands_are_errors_not_text() {
    assert!(matches!(
        Message::from_str(".frobnicate"),
        Err(ParseError::UnknownCommand)
    ));
    assert!(matches!(
        Message::from_str(".frobnicate a"),
        Err(ParseError::UnknownCommand)
    ));
    assert!(matches!(
        Message::from_str(".frobnicate a b"),
        Err(ParseError::UnknownCommand)
    ));
}

#[test]
fn file_and_image_lines_ask_for_a_load() {
    match Message::from_str(".file /tmp/x.bin") {
        Ok(LineCommand::LoadFile(p)) => assert_eq!(p, "/tmp/x.bin"),
        _ => panic!("not a file load"),
    }
    match Message::from_str(".image pic.png") {
        Ok(LineCommand::LoadImage(p)) => assert_eq!(p, "pic.png"),
        _ => panic!("not an image load"),
    }
}

#[test]
fn four_tokens_fall_back_to_text() {
    match parse_payload(".login a b c") {
        Message::Text(t) => assert_eq!(t, ".login a b c"),
        _ => panic!("not text"),
    }
}

#[test]
fn doubled_space_falls_back_to_text() {
    match parse_payload(".login a  b") {
        Message::Text(t) => assert_eq!(t, ".login a  b"),
        _ => panic!("not text"),
    }
}
