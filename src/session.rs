//! The decisions of one connected client's session: registering a name, what
//! each line it types leads to, what each broadcast delivery leads to, and
//! which failures end it. The transcript records every line the session sent
//! or received, in order.

use vstd::prelude::*;
use vstd::string::*;

use crate::commands::{check_for_magic_commands, command_of_line, MagicCommand};
use crate::dedupe::{dedupe, filter_duplicates, lines_view};
use crate::registry::{registered, registration_result, Registration, Registry};
use crate::sanitize::{apply_backspaces, process_backspaces};
use crate::text::{trim_str, trimmed};

verus! {

/// The transcript line and the broadcast text of `text` typed by `name`.
pub open spec fn chat_line(name: Seq<char>, text: Seq<char>) -> Seq<char> {
    name + ": "@ + text
}

/// The broadcast that announces `name` joining.
pub open spec fn join_notice_text(name: Seq<char>) -> Seq<char> {
    name + " has joined the chat.\n\r"@
}

/// What a typed line leads to, over sequences: the view of a `LineAction`.
pub enum LineEffect {
    Ignore,
    Publish(Seq<char>),
    SaveTranscript(Seq<Seq<char>>),
    ClearScreen,
    ShowUsers,
    ShowHelp,
    Unrecognized,
}

/// What a typed line leads to.
pub enum LineAction {
    /// The line was empty once backspaces were applied.
    Ignore,
    /// Broadcast this text to the other sessions.
    Publish(String),
    /// Save these lines (the deduplicated transcript).
    SaveTranscript(Vec<String>),
    /// Send the terminal-clear sequence to this client.
    ClearScreen,
    /// Send the list of connected users to this client.
    ShowUsers,
    /// Send the help text to this client.
    ShowHelp,
    /// The line held an unknown command: report it, send nothing.
    Unrecognized,
}

impl View for LineAction {
    type V = LineEffect;

    open spec fn view(&self) -> LineEffect {
        match self {
            LineAction::Ignore => LineEffect::Ignore,
            LineAction::Publish(m) => LineEffect::Publish(m@),
            LineAction::SaveTranscript(v) => LineEffect::SaveTranscript(lines_view(v@)),
            LineAction::ClearScreen => LineEffect::ClearScreen,
            LineAction::ShowUsers => LineEffect::ShowUsers,
            LineAction::ShowHelp => LineEffect::ShowHelp,
            LineAction::Unrecognized => LineEffect::Unrecognized,
        }
    }
}

/// The transcript after `name` types `raw` with transcript `t`.
pub open spec fn line_transcript(name: Seq<char>, t: Seq<Seq<char>>, raw: Seq<char>) -> Seq<Seq<char>> {
    let s = apply_backspaces(raw);
    if s.len() == 0 {
        t
    } else {
        t.push(chat_line(name, s))
    }
}

/// What `name` typing `raw` with transcript `t` leads to.
pub open spec fn line_effect(name: Seq<char>, t: Seq<Seq<char>>, raw: Seq<char>) -> LineEffect {
    let s = apply_backspaces(raw);
    if s.len() == 0 {
        LineEffect::Ignore
    } else {
        match command_of_line(s) {
            MagicCommand::NoCommand => LineEffect::Publish(chat_line(name, s)),
            MagicCommand::SaveText => LineEffect::SaveTranscript(
                dedupe(line_transcript(name, t, raw)),
            ),
            MagicCommand::ClearScreen => LineEffect::ClearScreen,
            MagicCommand::ShowUsers => LineEffect::ShowUsers,
            MagicCommand::Help => LineEffect::ShowHelp,
            MagicCommand::Unrecognized => LineEffect::Unrecognized,
        }
    }
}

/// What is written to the client of `identity` for a delivery of `text` from
/// `origin`: nothing for its own messages.
pub open spec fn delivery_write(identity: Seq<char>, text: Seq<char>, origin: Seq<char>) -> Option<
    Seq<char>,
> {
    if origin == identity {
        None
    } else {
        Some(apply_backspaces(text))
    }
}

/// The transcript of `identity` after a delivery of `text` from `origin`:
/// its own messages were recorded when they were typed.
pub open spec fn delivery_transcript(
    identity: Seq<char>,
    t: Seq<Seq<char>>,
    text: Seq<char>,
    origin: Seq<char>,
) -> Seq<Seq<char>> {
    if origin == identity {
        t
    } else {
        t.push(apply_backspaces(text))
    }
}

/// One registered client's state.
pub struct Session {
    /// The connection's identity, the origin tag of what it publishes.
    pub identity: String,
    /// The display name it registered.
    pub name: String,
    /// Every line sent or received, in order.
    pub transcript: Vec<String>,
}

impl Session {
    /// A session for `identity`, registered as `name`, with an empty transcript.
    pub fn new(identity: &str, name: &str) -> (r: Session)
        ensures
            r.identity@ == identity@,
            r.name@ == name@,
            r.transcript@.len() == 0,
    {
        Session {
            identity: String::from_str(identity),
            name: String::from_str(name),
            transcript: Vec::new(),
        }
    }

    /// The notice broadcast when this session joins.
    pub fn join_notice(&self) -> (r: String)
        ensures
            r@ == join_notice_text(self.name@),
    {
        self.name.clone().concat(" has joined the chat.\n\r")
    }

    /// Handles a line typed by the client: applies backspaces, records a
    /// non-empty line as `name: text`, and decides by its command token.
    pub fn handle_line(&mut self, raw: &str) -> (r: LineAction)
        ensures
            final(self).identity == old(self).identity,
            final(self).name == old(self).name,
            lines_view(final(self).transcript@) == line_transcript(
                old(self).name@,
                lines_view(old(self).transcript@),
                raw@,
            ),
            r@ == line_effect(old(self).name@, lines_view(old(self).transcript@), raw@),
    {
        let text = process_backspaces(raw);
        if text.as_str().unicode_len() == 0 {
            return LineAction::Ignore;
        }
        let message = self.name.clone().concat(": ").concat(text.as_str());
        let ghost before = self.transcript@;
        self.transcript.push(message.clone());
        proof {
            assert(lines_view(self.transcript@) == lines_view(before).push(message@));
        }
        match check_for_magic_commands(text.as_str()) {
            MagicCommand::NoCommand => LineAction::Publish(message),
            MagicCommand::SaveText => {
                let copy = self.transcript.clone();
                proof {
                    assert(copy@ =~= self.transcript@);
                }
                LineAction::SaveTranscript(filter_duplicates(copy))
            },
            MagicCommand::ClearScreen => LineAction::ClearScreen,
            MagicCommand::ShowUsers => LineAction::ShowUsers,
            MagicCommand::Help => LineAction::ShowHelp,
            MagicCommand::Unrecognized => LineAction::Unrecognized,
        }
    }

    /// Handles a broadcast of `text` from `origin`: applies backspaces; a
    /// message from another session is recorded and returned for writing to
    /// the client, one of its own is neither.
    pub fn handle_delivery(&mut self, text: &str, origin: &str) -> (r: Option<String>)
        ensures
            final(self).identity == old(self).identity,
            final(self).name == old(self).name,
            lines_view(final(self).transcript@) == delivery_transcript(
                old(self).identity@,
                lines_view(old(self).transcript@),
                text@,
                origin@,
            ),
            match r {
                Some(w) => delivery_write(old(self).identity@, text@, origin@) == Some(w@),
                None => delivery_write(old(self).identity@, text@, origin@) is None,
            },
    {
        if self.identity == String::from_str(origin) {
            return None;
        }
        let shown = process_backspaces(text);
        let ghost before = self.transcript@;
        self.transcript.push(shown.clone());
        proof {
            assert(lines_view(self.transcript@) == lines_view(before).push(shown@));
        }
        Some(shown)
    }
}

/// What one line read while registering leads to.
pub enum RegistrationStep {
    /// The name was empty once trimmed: ask again.
    Reprompt,
    /// Another connection holds the name: say so and ask again.
    NameTaken,
    /// The name is now held: the session becomes active.
    Joined(Session),
}

/// Handles one line read from a client that has no name yet: tries to
/// register its trimmed content for `identity` and, on success, opens the
/// session.
pub fn register_line(registry: &mut Registry, identity: &str, line: &str) -> (r: RegistrationStep)
    requires
        old(registry).wf(),
    ensures
        final(registry).wf(),
        final(registry)@ == registered(old(registry)@, identity@, line@),
        match registration_result(old(registry)@, line@) {
            Registration::InvalidName => r is Reprompt,
            Registration::NameTaken => r is NameTaken,
            Registration::Accepted => match r {
                RegistrationStep::Joined(s) => s.identity@ == identity@ && s.name@ == trimmed(
                    line@,
                ) && s.transcript@.len() == 0,
                _ => false,
            },
        },
{
    match registry.try_register(identity, line) {
        Registration::InvalidName => RegistrationStep::Reprompt,
        Registration::NameTaken => RegistrationStep::NameTaken,
        Registration::Accepted => RegistrationStep::Joined(Session::new(identity, trim_str(line))),
    }
}

/// The stage of a connection's session.
#[derive(Clone, Copy, Debug, PartialEq, Eq, Structural)]
pub enum Phase {
    /// Asking for a display name.
    Registering,
    /// Exchanging lines.
    Active,
    /// Over: the registry entry is dropped and the socket closed.
    Terminated,
}

/// An outcome of the session's I/O besides a line or a delivery.
#[derive(Clone, Copy, Debug, PartialEq, Eq, Structural)]
pub enum IoEvent {
    /// The client closed its side: a read gave no bytes.
    ReadEnded,
    /// Reading from the client failed.
    ReadFailed,
    /// Writing to the client failed.
    WriteFailed,
    /// The broadcast receiver fell behind and lost messages.
    HubLagged,
    /// The broadcast channel is closed.
    HubClosed,
}

/// The phase after `event` in `phase`: a lag is reported and the session goes
/// on; every other failure ends it.
pub open spec fn phase_after_spec(phase: Phase, event: IoEvent) -> Phase {
    match event {
        IoEvent::HubLagged => phase,
        _ => Phase::Terminated,
    }
}

/// The phase after `event` in `phase`.
pub fn phase_after(phase: Phase, event: IoEvent) -> (r: Phase)
    ensures
        r == phase_after_spec(phase, event),
{
    match event {
        IoEvent::HubLagged => phase,
        _ => Phase::Terminated,
    }
}

/// A session never has its own broadcast written back to its client, and
/// records it exactly once: when it was typed, not when it comes back.
pub proof fn lemma_own_message_not_echoed(
    identity: Seq<char>,
    name: Seq<char>,
    t: Seq<Seq<char>>,
    raw: Seq<char>,
)
    requires
        line_effect(name, t, raw) is Publish,
    ensures
        ({
            let m = line_effect(name, t, raw)->Publish_0;
            let t1 = line_transcript(name, t, raw);
            &&& t1 == t.push(m)
            &&& delivery_write(identity, m, identity) is None
            &&& delivery_transcript(identity, t1, m, identity) == t1
        }),
{
}

/// A line whose first command token is not a known command is never
/// broadcast.
pub proof fn lemma_unrecognized_not_published(name: Seq<char>, t: Seq<Seq<char>>, raw: Seq<char>)
    requires
        command_of_line(apply_backspaces(raw)) == MagicCommand::Unrecognized,
    ensures
        !(line_effect(name, t, raw) is Publish),
        line_effect(name, t, raw) is Unrecognized || line_effect(name, t, raw) is Ignore,
{
}

/// The transcript only grows: lines and deliveries append at most one line
/// and never change what was recorded before.
pub proof fn lemma_transcript_append_only(
    identity: Seq<char>,
    name: Seq<char>,
    t: Seq<Seq<char>>,
    raw: Seq<char>,
    text: Seq<char>,
    origin: Seq<char>,
)
    ensures
        t.is_prefix_of(line_transcript(name, t, raw)),
        line_transcript(name, t, raw).len() <= t.len() + 1,
        t.is_prefix_of(delivery_transcript(identity, t, text, origin)),
        delivery_transcript(identity, t, text, origin).len() <= t.len() + 1,
{
    assert(t.push(chat_line(name, apply_backspaces(raw))).subrange(0, t.len() as int) =~= t);
    assert(t.push(apply_backspaces(text)).subrange(0, t.len() as int) =~= t);
    assert(t.subrange(0, t.len() as int) =~= t);
}

} // verus!
