use chatcore::cli::{Cli, Modes, DEFAULT_PORT};
use chatcore::client::{client_action, get_file_name_from_path, ClientAction};
use chatcore::err::{ArgParseError, RuntimeError, ThreadingError};
use chatcore::message::Message;
use chatcore::store::UserStore;
use chatcore::web::{login_execute, GateOutcome, LoggedUser, LoginForm};

#[test]
fn file_names_are_taken_from_the_path_end() {
    assert_eq!(get_file_name_from_path("/tmp/x.bin").unwrap(), "x.bin");
    assert_eq!(get_file_name_from_path("plain").unwrap(), "plain");
    assert_eq!(get_file_name_from_path("dir/sub/").unwrap(), "sub");
}

#[test]
fn unusable_paths_are_refused() {
    for bad in ["/", "", "..", "a/.."] {
        match get_file_name_from_path(bad) {
            Err(e) => assert_eq!(e.message(), format!("Invalid path received: {}", bad)),
            Ok(_) => panic!("accepted a path without a usable name"),
        }
    }
}

#[test]
fn received_text_is_printed() {
    match client_action(Message::Text(String::from("hi")), 0).unwrap() {
        ClientAction::Print(t) => assert_eq!(t, "hi"),
        _ => panic!("text not printed"),
    }
}

#[test]
fn received_images_are_named_by_the_timestamp() {
    match client_action(Message::Image(vec![7, 8]), 12345).unwrap() {
        ClientAction::WriteFile(path, bytes) => {
            assert_eq!(path, "images/12345");
            assert_eq!(bytes, vec![7, 8]);
        }
        _ => panic!("image not written"),
    }
}

#[test]
fn control_payloads_are_not_for_the_client() {
    match client_action(Message::Quit, 0) {
        Err(e) => assert_eq!(e.message(), "Unknown message type"),
        Ok(_) => panic!("control payload accepted"),
    }
}

#[test]
fn cli_defaults_depend_on_the_mode() {
    let client = Cli { hostname: None, port: None, web_port: None, mode: Modes::CLIENT };
    assert_eq!(client.effective_port(), DEFAULT_PORT);
    assert_eq!(client.effective_port(), 11111);
    assert_eq!(client.effective_hostname(), "127.0.0.1");
    let server = Cli { hostname: None, port: None, web_port: None, mode: Modes::SERVER };
    assert_eq!(server.effective_hostname(), "0.0.0.0");
    let fixed = Cli {
        hostname: Some(String::from("example.org")),
        port: Some(4000),
        web_port: None,
        mode: Modes::SERVER,
    };
    assert_eq!(fixed.effective_hostname(), "example.org");
    assert_eq!(fixed.effective_port(), 4000);
}

#[test]
fn runtime_errors_carry_their_message() {
    assert_eq!(RuntimeError::from_str("boom").message(), "boom");
    assert_eq!(RuntimeError::from_string(String::from("bang")).message(), "bang");
    assert_eq!(RuntimeError::box_from_str("a").message(), "a");
    assert_eq!(RuntimeError::box_from_string(String::from("b")).message(), "b");
    assert_eq!(ThreadingError {}.message(), "Threading error");
    let ape = ArgParseError { msg: String::from("bad flag") };
    assert_eq!(ape.msg, "bad flag");
}

#[test]
fn only_administrators_pass_the_web_gate() {
    let mut store = UserStore::new();
    let admin = store.bootstrap();
    let alice = store.signup("alice", "pw").unwrap();

    match LoggedUser::from_request(&store, Some(&admin.id)) {
        GateOutcome::Success(LoggedUser(u)) => assert_eq!(u.name, "admin"),
        GateOutcome::Forward => panic!("admin was forwarded"),
    }
    assert!(matches!(
        LoggedUser::from_request(&store, Some(&alice.id)),
        GateOutcome::Forward
    ));
    assert!(matches!(
        LoggedUser::from_request(&store, Some("ghost")),
        GateOutcome::Forward
    ));
    assert!(matches!(
        LoggedUser::from_request(&store, None),
        GateOutcome::Forward
    ));
}

#[test]
fn web_login_requires_admin_credentials() {
    let mut store = UserStore::new();
    store.bootstrap();
    store.signup("alice", "pw").unwrap();

    let good = LoginForm { login: String::from("admin"), password: String::from("admin") };
    assert!(login_execute(&store, &good).is_some());
    let wrong = LoginForm { login: String::from("admin"), password: String::from("nope") };
    assert!(login_execute(&store, &wrong).is_none());
    let plain = LoginForm { login: String::from("alice"), password: String::from("pw") };
    assert!(login_execute(&store, &plain).is_none());
}
