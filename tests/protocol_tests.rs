use rust_chat_app::addr::PeerAddr;
use rust_chat_app::admission::admit_connection;
use rust_chat_app::auth::{answer_reply, check_reply, passcode_matches};
use rust_chat_app::config::ServerConfig;
use rust_chat_app::errors::ServerError;
use rust_chat_app::registry::Registry;
use rust_chat_app::relay::{ReadOutcome, RelayEvent, RelayState};
use rust_chat_app::wire::{challenge_line, received_text, success_line};

fn config(max: usize) -> ServerConfig {
    ServerConfig::new(PeerAddr::new("127.0.0.1:8080"), "testpass", max).ok().unwrap()
}

#[test]
fn handshake_lines() {
    assert_eq!(challenge_line(), "PASSCODE\n");
    assert_eq!(success_line(), "AUTH_SUCCESS\n");
}

#[test]
fn received_text_drops_trailing_whitespace() {
    assert_eq!(received_text(b"hello \r\n"), "hello");
    assert_eq!(received_text(b"  two words\t\n"), "  two words");
    assert_eq!(received_text(b""), "");
}

#[test]
fn received_text_replaces_invalid_bytes() {
    assert_eq!(received_text(b"hi\xff"), "hi\u{FFFD}");
}

#[test]
fn passcode_comparison_is_exact() {
    let c = config(5);
    assert!(passcode_matches(&c, "testpass"));
    assert!(!passcode_matches(&c, "testpas"));
    assert!(!passcode_matches(&c, "TESTPASS"));
}

#[test]
fn reply_with_newline_is_accepted() {
    assert!(check_reply(&config(5), b"testpass\n").is_ok());
    assert!(check_reply(&config(5), b"testpass\r\n").is_ok());
}

#[test]
fn wrong_reply_is_refused() {
    let r = check_reply(&config(5), b"nope\n");
    assert!(matches!(r, Err(ServerError::InvalidPasscode)));
    assert!(check_reply(&config(5), b"\n").is_err());
}

#[test]
fn wrong_passcode_never_enters_registry() {
    let mut reg: Registry<Vec<u8>> = Registry::new();
    let r = admit_connection(&mut reg, &config(5), PeerAddr::new("1.2.3.4:5"), Vec::new(), b"bad\n");
    assert!(r.err().unwrap().is_invalid_passcode());
    assert_eq!(reg.size(), 0);
}

#[test]
fn right_passcode_enters_registry() {
    let mut reg: Registry<Vec<u8>> = Registry::new();
    let r = admit_connection(&mut reg, &config(5), PeerAddr::new("1.2.3.4:5"), Vec::new(), b"testpass\n");
    assert!(r.is_ok());
    assert!(reg.contains(&PeerAddr::new("1.2.3.4:5")));
}

#[test]
fn admission_past_capacity_is_refused() {
    let mut reg: Registry<Vec<u8>> = Registry::new();
    let c = config(2);
    for a in ["h:1", "h:2"] {
        assert!(admit_connection(&mut reg, &c, PeerAddr::new(a), Vec::new(), b"testpass\n").is_ok());
    }
    let r = admit_connection(&mut reg, &c, PeerAddr::new("h:3"), Vec::new(), b"testpass\n");
    assert!(matches!(r, Err(ServerError::MaxClientsReached)));
    assert_eq!(reg.size(), 2);
}

#[test]
fn relay_ends_on_close() {
    let s = RelayState::Reading.next(&RelayEvent::Read(ReadOutcome::Bytes(Vec::new())));
    assert!(s.is_terminated());
}

#[test]
fn relay_ends_on_error() {
    let s = RelayState::Reading.next(&RelayEvent::Read(ReadOutcome::Failed));
    assert!(s.is_terminated());
}

#[test]
fn relay_broadcasts_then_reads_again() {
    let s = RelayState::Reading.next(&RelayEvent::Read(ReadOutcome::Bytes(b"hi there\n".to_vec())));
    match &s {
        RelayState::Broadcasting(t) => assert_eq!(t, "hi there"),
        _ => panic!("expected a broadcast"),
    }
    let s = s.next(&RelayEvent::Delivered);
    assert!(matches!(s, RelayState::Reading));
}

#[test]
fn relay_terminated_is_final() {
    let s = RelayState::Terminated.next(&RelayEvent::Read(ReadOutcome::Bytes(b"x".to_vec())));
    assert!(s.is_terminated());
    assert!(RelayState::Terminated.next(&RelayEvent::Delivered).is_terminated());
}

#[test]
fn answer_is_success_line_only_for_the_passcode() {
    assert_eq!(answer_reply(&config(5), b"testpass\n").ok(), Some("AUTH_SUCCESS\n"));
    assert!(matches!(answer_reply(&config(5), b"other\n"), Err(ServerError::InvalidPasscode)));
}
