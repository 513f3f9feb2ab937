//! In-band `&word` commands and the texts sent back for them.

use vstd::prelude::*;
use vstd::string::*;

use regex::Regex;

use crate::dedupe::lines_view;

verus! {

/// An ASCII letter or an underscore: what may follow the `&` of a command.
pub open spec fn is_token_head(c: char) -> bool {
    ('a' <= c && c <= 'z') || ('A' <= c && c <= 'Z') || c == '_'
}

/// An ASCII letter, an ASCII digit or an underscore.
pub open spec fn is_token_tail(c: char) -> bool {
    is_token_head(c) || ('0' <= c && c <= '9')
}

/// A command token starts at index `i` of `s`.
pub open spec fn token_starts_at(s: Seq<char>, i: int) -> bool {
    0 <= i && i + 1 < s.len() && s[i] == '&' && is_token_head(s[i + 1])
}

/// The first index at or after `j` that holds no token character.
pub open spec fn token_end(s: Seq<char>, j: int) -> int
    decreases s.len() - j,
{
    if j < 0 || j >= s.len() || !is_token_tail(s[j]) {
        j
    } else {
        token_end(s, j + 1)
    }
}

/// The leftmost command token of `s` found at or after index `i`.
pub open spec fn token_from(s: Seq<char>, i: int) -> Option<Seq<char>>
    decreases s.len() - i,
{
    if i < 0 || i >= s.len() {
        None
    } else if token_starts_at(s, i) {
        Some(s.subrange(i, token_end(s, i + 1)))
    } else {
        token_from(s, i + 1)
    }
}

/// The first substring of `s` that is `&` followed by an identifier, taken as
/// long as it goes.
pub open spec fn first_command_token(s: Seq<char>) -> Option<Seq<char>> {
    token_from(s, 0)
}

/// The pattern of a command token.
pub const COMMAND_PATTERN: &'static str = "&[a-zA-Z_][a-zA-Z0-9_]*";

/// Relies on `regex::Regex::find`, which returns the leftmost-first match;
/// with this pattern that is the leftmost `&` followed by an identifier
/// character, extended greedily over identifier characters. The pattern is a
/// valid one, so `Regex::new` does not fail.
#[verifier::external_body]
fn find_command_token(text: &str) -> (r: Option<String>)
    ensures
        match r {
            Some(t) => first_command_token(text@) == Some(t@),
            None => first_command_token(text@) is None,
        },
{
    let re = Regex::new(COMMAND_PATTERN).unwrap();
    re.find(text).map(|m| m.as_str().to_string())
}

/// What an input line asks the server to do.
#[derive(Clone, Copy, Debug, PartialEq, Eq, Structural)]
pub enum MagicCommand {
    /// `&save_text`: save the deduplicated transcript.
    SaveText,
    /// `&clear_screen`: clear the sender's terminal.
    ClearScreen,
    /// `&show_users`: list the connected users to the sender.
    ShowUsers,
    /// `&help`: send the help text to the sender.
    Help,
    /// A `&word` token outside the vocabulary: the line is swallowed.
    Unrecognized,
    /// No command token: the line is ordinary chat text.
    NoCommand,
}

/// The command that a found token (or none) stands for.
pub open spec fn command_of_token(t: Option<Seq<char>>) -> MagicCommand {
    match t {
        None => MagicCommand::NoCommand,
        Some(w) => if w == "&save_text"@ {
            MagicCommand::SaveText
        } else if w == "&clear_screen"@ {
            MagicCommand::ClearScreen
        } else if w == "&show_users"@ {
            MagicCommand::ShowUsers
        } else if w == "&help"@ {
            MagicCommand::Help
        } else {
            MagicCommand::Unrecognized
        },
    }
}

/// The command of a line.
pub open spec fn command_of_line(s: Seq<char>) -> MagicCommand {
    command_of_token(first_command_token(s))
}

/// Maps a found token (or none) to its command, comparing exactly.
pub fn classify_token(token: &Option<String>) -> (r: MagicCommand)
    ensures
        r == command_of_token(
            match token {
                Some(t) => Some(t@),
                None => None,
            },
        ),
{
    match token {
        None => MagicCommand::NoCommand,
        Some(t) => {
            if *t == String::from_str("&save_text") {
                MagicCommand::SaveText
            } else if *t == String::from_str("&clear_screen") {
                MagicCommand::ClearScreen
            } else if *t == String::from_str("&show_users") {
                MagicCommand::ShowUsers
            } else if *t == String::from_str("&help") {
                MagicCommand::Help
            } else {
                MagicCommand::Unrecognized
            }
        },
    }
}

/// Classifies a sanitized line by its first command token.
pub fn check_for_magic_commands(text: &str) -> (r: MagicCommand)
    ensures
        r == command_of_line(text@),
{
    let token = find_command_token(text);
    classify_token(&token)
}

/// The help text listing the commands.
pub const HELP_TEXT: &'static str = "
    \n\rMagic Commands:
    \n\r- &save_text: Save the current chat history to a file.
    \n\r- &clear_screen: Clear your terminal screen.
    \n\r- &show_users: Display a list of all users in the chat.
    \n\r- &help: Display this help message.\r
    \r";

/// The ANSI sequence that clears a terminal and homes its cursor.
pub const CLEAR_SCREEN: &'static str = "\x1b[2J\x1b[H";

/// The first line of the list of users.
pub const USER_LIST_HEADER: &'static str = "Current users in the chat:\n\r";

/// The help text sent for `&help`.
pub fn help_text() -> (r: String)
    ensures
        r@ == HELP_TEXT@,
{
    String::from_str(HELP_TEXT)
}

/// The sequence sent for `&clear_screen`.
pub fn clear_screen_code() -> (r: String)
    ensures
        r@ == CLEAR_SCREEN@,
{
    String::from_str(CLEAR_SCREEN)
}

/// One `- name` line for each of `names`, in order.
pub open spec fn user_lines(names: Seq<Seq<char>>) -> Seq<char>
    decreases names.len(),
{
    if names.len() == 0 {
        Seq::empty()
    } else {
        user_lines(names.drop_last()) + "- "@ + names.last() + "\n\r"@
    }
}

/// The list of users sent for `&show_users`.
pub fn user_list_text(users: &Vec<String>) -> (r: String)
    ensures
        r@ == USER_LIST_HEADER@ + user_lines(lines_view(users@)),
{
    let mut out = String::from_str(USER_LIST_HEADER);
    let mut i: usize = 0;
    while i < users.len()
        invariant
            i <= users@.len(),
            out@ == USER_LIST_HEADER@ + user_lines(lines_view(users@.subrange(0, i as int))),
        decreases users@.len() - i,
    {
        proof {
            let v = lines_view(users@.subrange(0, i + 1));
            assert(v.drop_last() == lines_view(users@.subrange(0, i as int)));
            assert(v.last() == users@[i as int]@);
        }
        out.append("- ");
        out.append(users[i].as_str());
        out.append("\n\r");
        i = i + 1;
    }
    proof {
        assert(users@.subrange(0, users@.len() as int) == users@);
    }
    out
}

} // verus!
