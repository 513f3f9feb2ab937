use rustychat::dedupe::filter_duplicates;
use rustychat::registry::Registry;
use rustychat::session::{
    phase_after, register_line, IoEvent, LineAction, Phase, RegistrationStep, Session,
};
use rustychat::transcript::{join_lines, transcript_file_name};

fn joined(r: &mut Registry, id: &str, name: &str) -> Session {
    match register_line(r, id, name) {
        RegistrationStep::Joined(s) => s,
        _ => panic!("registration refused"),
    }
}

#[test]
fn own_broadcast_is_recorded_once_and_not_written_back() {
    let mut a = Session::new("A", "alice");
    let published = match a.handle_line("hello") {
        LineAction::Publish(m) => m,
        _ => panic!("plain line not published"),
    };
    assert_eq!(published, "alice: hello");
    assert_eq!(a.handle_delivery(&published, "A"), None);
    assert_eq!(a.transcript, vec!["alice: hello".to_string()]);
}

#[test]
fn unrecognized_command_is_swallowed() {
    let mut a = Session::new("A", "alice");
    let action = a.handle_line("look &foo here");
    assert!(matches!(action, LineAction::Unrecognized));
    assert_eq!(a.transcript, vec!["alice: look &foo here".to_string()]);
}

#[test]
fn empty_line_is_ignored() {
    let mut a = Session::new("A", "alice");
    assert!(matches!(a.handle_line("x\u{8}"), LineAction::Ignore));
    assert!(matches!(a.handle_line(""), LineAction::Ignore));
    assert!(a.transcript.is_empty());
}

#[test]
fn backspaces_are_applied_before_publishing() {
    let mut a = Session::new("A", "alice");
    match a.handle_line("helo\u{8}lo") {
        LineAction::Publish(m) => assert_eq!(m, "alice: hello"),
        _ => panic!("plain line not published"),
    }
}

#[test]
fn local_commands_publish_nothing() {
    let mut a = Session::new("A", "alice");
    assert!(matches!(a.handle_line("&clear_screen"), LineAction::ClearScreen));
    assert!(matches!(a.handle_line("who? &show_users"), LineAction::ShowUsers));
    assert!(matches!(a.handle_line("&help"), LineAction::ShowHelp));
    assert_eq!(a.transcript.len(), 3);
}

#[test]
fn delivery_from_another_session_is_sanitized_recorded_and_written() {
    let mut b = Session::new("B", "bob");
    assert_eq!(b.handle_delivery("alice: hix\u{8}", "A"), Some("alice: hi".to_string()));
    assert_eq!(b.transcript, vec!["alice: hi".to_string()]);
}

#[test]
fn join_notice_text() {
    let a = Session::new("A", "alice");
    assert_eq!(a.join_notice(), "alice has joined the chat.\n\r");
}

#[test]
fn two_clients_chat_and_save() {
    let mut registry = Registry::new();
    let mut a = joined(&mut registry, "A", "alice\n");
    let mut b = joined(&mut registry, "B", "bob\n");
    let notice = b.join_notice();
    assert_eq!(a.handle_delivery(&notice, "B"), Some("bob has joined the chat.\n\r".to_string()));
    assert_eq!(b.handle_delivery(&notice, "B"), None);

    let m = match a.handle_line("hello") {
        LineAction::Publish(m) => m,
        _ => panic!("plain line not published"),
    };
    assert_eq!(b.handle_delivery(&m, "A"), Some("alice: hello".to_string()));
    assert!(b.transcript.contains(&"alice: hello".to_string()));
    assert_eq!(a.handle_delivery(&m, "A"), None);
    assert!(a.transcript.contains(&"alice: hello".to_string()));

    let saved = match a.handle_line("&save_text") {
        LineAction::SaveTranscript(lines) => lines,
        _ => panic!("save command not recognized"),
    };
    let expected = vec![
        "bob has joined the chat.\n\r".to_string(),
        "alice: hello".to_string(),
        "alice: &save_text".to_string(),
    ];
    assert_eq!(saved, expected);
    assert_eq!(saved, filter_duplicates(a.transcript.clone()));
    assert_eq!(transcript_file_name("alice", 0), "alice.txt");
    assert_eq!(transcript_file_name("alice", 1), "alice_1.txt");
    assert_eq!(
        join_lines(&saved),
        "bob has joined the chat.\n\r\nalice: hello\nalice: &save_text"
    );
}

#[test]
fn saved_transcript_drops_repeats() {
    let mut a = Session::new("A", "alice");
    a.handle_line("hi");
    a.handle_delivery("bob: yo", "B");
    a.handle_line("hi");
    match a.handle_line("&save_text") {
        LineAction::SaveTranscript(lines) => assert_eq!(
            lines,
            vec!["alice: hi".to_string(), "bob: yo".to_string(), "alice: &save_text".to_string()]
        ),
        _ => panic!("save command not recognized"),
    }
    assert_eq!(a.transcript.len(), 4);
}

#[test]
fn failures_end_the_session_and_lag_does_not() {
    assert_eq!(phase_after(Phase::Active, IoEvent::HubLagged), Phase::Active);
    assert_eq!(phase_after(Phase::Active, IoEvent::ReadEnded), Phase::Terminated);
    assert_eq!(phase_after(Phase::Active, IoEvent::ReadFailed), Phase::Terminated);
    assert_eq!(phase_after(Phase::Active, IoEvent::WriteFailed), Phase::Terminated);
    assert_eq!(phase_after(Phase::Active, IoEvent::HubClosed), Phase::Terminated);
    assert_eq!(phase_after(Phase::Registering, IoEvent::ReadFailed), Phase::Terminated);
}
