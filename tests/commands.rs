use rustychat::commands::{
    check_for_magic_commands, classify_token, clear_screen_code, help_text, user_list_text,
    MagicCommand,
};

#[test]
fn recognizes_each_command() {
    assert_eq!(check_for_magic_commands("&save_text\n"), MagicCommand::SaveText);
    assert_eq!(check_for_magic_commands("please &clear_screen now"), MagicCommand::ClearScreen);
    assert_eq!(check_for_magic_commands("&show_users"), MagicCommand::ShowUsers);
    assert_eq!(check_for_magic_commands("&help"), MagicCommand::Help);
}

#[test]
fn plain_text_is_no_command() {
    assert_eq!(check_for_magic_commands("hello\n"), MagicCommand::NoCommand);
    assert_eq!(check_for_magic_commands("fish & chips"), MagicCommand::NoCommand);
    assert_eq!(check_for_magic_commands("&1abc"), MagicCommand::NoCommand);
    assert_eq!(check_for_magic_commands(""), MagicCommand::NoCommand);
}

#[test]
fn unknown_token_is_unrecognized() {
    assert_eq!(check_for_magic_commands("hi &foo"), MagicCommand::Unrecognized);
    assert_eq!(check_for_magic_commands("&helpme"), MagicCommand::Unrecognized);
    assert_eq!(check_for_magic_commands("&Help"), MagicCommand::Unrecognized);
}

#[test]
fn only_the_first_token_counts() {
    assert_eq!(check_for_magic_commands("&foo &help"), MagicCommand::Unrecognized);
    assert_eq!(check_for_magic_commands("a&help &foo"), MagicCommand::Help);
    assert_eq!(check_for_magic_commands("& &_x"), MagicCommand::Unrecognized);
}

#[test]
fn classify_token_compares_exactly() {
    assert_eq!(classify_token(&None), MagicCommand::NoCommand);
    assert_eq!(classify_token(&Some("&save_text".to_string())), MagicCommand::SaveText);
    assert_eq!(classify_token(&Some("&save_texts".to_string())), MagicCommand::Unrecognized);
}

#[test]
fn reply_texts() {
    assert_eq!(clear_screen_code(), "\x1b[2J\x1b[H");
    assert!(help_text().contains("&save_text: Save the current chat history to a file."));
    let users = vec!["alice".to_string(), "bob".to_string()];
    assert_eq!(
        user_list_text(&users),
        "Current users in the chat:\n\r- alice\n\r- bob\n\r"
    );
    assert_eq!(user_list_text(&Vec::new()), "Current users in the chat:\n\r");
}
