use rustychat::registry::{Registration, Registry};
use rustychat::session::{register_line, RegistrationStep};

#[test]
fn same_name_is_accepted_once() {
    let mut r = Registry::new();
    let n = 8;
    let mut accepted = 0;
    let mut taken = 0;
    for i in 0..n {
        match r.try_register(&format!("127.0.0.1:{}", 5000 + i), "bob") {
            Registration::Accepted => accepted += 1,
            Registration::NameTaken => taken += 1,
            Registration::InvalidName => panic!("valid name refused"),
        }
    }
    assert_eq!(accepted, 1);
    assert_eq!(taken, n - 1);
    assert_eq!(r.list_names(), vec!["bob".to_string()]);
}

#[test]
fn empty_or_blank_name_is_invalid() {
    let mut r = Registry::new();
    assert_eq!(r.try_register("a", ""), Registration::InvalidName);
    assert_eq!(r.try_register("a", "   \n"), Registration::InvalidName);
    assert_eq!(r.lookup("a"), None);
}

#[test]
fn names_are_trimmed_and_case_sensitive() {
    let mut r = Registry::new();
    assert_eq!(r.try_register("a", "  bob \r\n"), Registration::Accepted);
    assert_eq!(r.lookup("a"), Some("bob".to_string()));
    assert_eq!(r.try_register("b", "bob"), Registration::NameTaken);
    assert_eq!(r.try_register("b", "Bob"), Registration::Accepted);
}

#[test]
fn lookup_list_and_remove() {
    let mut r = Registry::new();
    assert_eq!(r.try_register("a", "alice"), Registration::Accepted);
    assert_eq!(r.try_register("b", "bob"), Registration::Accepted);
    let mut names = r.list_names();
    names.sort();
    assert_eq!(names, vec!["alice".to_string(), "bob".to_string()]);
    r.remove("a");
    assert_eq!(r.lookup("a"), None);
    r.remove("a");
    assert_eq!(r.lookup("b"), Some("bob".to_string()));
    assert_eq!(r.list_names(), vec!["bob".to_string()]);
}

#[test]
fn snapshot_does_not_follow_later_changes() {
    let mut r = Registry::new();
    r.try_register("a", "alice");
    let snapshot = r.list_names();
    r.try_register("b", "bob");
    assert_eq!(snapshot, vec!["alice".to_string()]);
}

#[test]
fn name_is_free_again_after_disconnect() {
    let mut r = Registry::new();
    assert!(matches!(register_line(&mut r, "A", "alice\n"), RegistrationStep::Joined(_)));
    assert!(matches!(register_line(&mut r, "B", "bob\n"), RegistrationStep::Joined(_)));
    assert!(matches!(register_line(&mut r, "C", "bob\n"), RegistrationStep::NameTaken));
    assert!(matches!(register_line(&mut r, "C", "\n"), RegistrationStep::Reprompt));
    r.remove("B");
    match register_line(&mut r, "C", "bob\n") {
        RegistrationStep::Joined(s) => {
            assert_eq!(s.identity, "C");
            assert_eq!(s.name, "bob");
            assert!(s.transcript.is_empty());
        }
        _ => panic!("retry after disconnect refused"),
    }
    assert_eq!(r.lookup("C"), Some("bob".to_string()));
}
