//! Voice commands and the codes they travel under.

use vstd::prelude::*;
use crate::injector::{InjectError, InputCall, InputInjector};
use crate::keys::{Key, Modifier};
use crate::text::{same_text, trim, trimmed, uppercase};

verus! {

/// A command that the phone can ask the desktop to carry out.
#[derive(Debug, Clone, Copy, PartialEq, Eq, Structural)]
pub enum VoiceCommand {
    /// Press the Enter key.
    Enter,
    /// Select everything.
    SelectAll,
    /// Copy the selection.
    Copy,
    /// Paste the clipboard.
    Paste,
    /// Cut the selection.
    Cut,
    /// Discard; nothing is pressed.
    Cancel,
}

/// The command that a code in capitals stands for.
pub open spec fn command_of_code(code: Seq<char>) -> Option<VoiceCommand> {
    if code == "ENTER"@ {
        Some(VoiceCommand::Enter)
    } else if code == "SELECT_ALL"@ {
        Some(VoiceCommand::SelectAll)
    } else if code == "COPY"@ {
        Some(VoiceCommand::Copy)
    } else if code == "PASTE"@ {
        Some(VoiceCommand::Paste)
    } else if code == "CUT"@ {
        Some(VoiceCommand::Cut)
    } else if code == "CANCEL"@ {
        Some(VoiceCommand::Cancel)
    } else {
        None
    }
}

/// The command that a text stands for: white space around it and the case
/// of its letters do not count.
pub open spec fn parsed_command(text: Seq<char>) -> Option<VoiceCommand> {
    command_of_code(uppercase(trimmed(text)))
}

impl VoiceCommand {
    /// The code of the command.
    pub open spec fn code(self) -> Seq<char> {
        match self {
            VoiceCommand::Enter => "ENTER"@,
            VoiceCommand::SelectAll => "SELECT_ALL"@,
            VoiceCommand::Copy => "COPY"@,
            VoiceCommand::Paste => "PASTE"@,
            VoiceCommand::Cut => "CUT"@,
            VoiceCommand::Cancel => "CANCEL"@,
        }
    }

    /// The command that a text stands for, if any.
    pub fn parse(s: &str) -> (command: Option<VoiceCommand>)
        ensures
            command == parsed_command(s@),
    {
        let inner = trim(s);
        let code = inner.as_str().to_uppercase();
        if same_text(code.as_str(), "ENTER") {
            Some(VoiceCommand::Enter)
        } else if same_text(code.as_str(), "SELECT_ALL") {
            Some(VoiceCommand::SelectAll)
        } else if same_text(code.as_str(), "COPY") {
            Some(VoiceCommand::Copy)
        } else if same_text(code.as_str(), "PASTE") {
            Some(VoiceCommand::Paste)
        } else if same_text(code.as_str(), "CUT") {
            Some(VoiceCommand::Cut)
        } else if same_text(code.as_str(), "CANCEL") {
            Some(VoiceCommand::Cancel)
        } else {
            None
        }
    }

    /// The code of the command.
    pub fn as_str(&self) -> (code: &'static str)
        ensures
            code@ == self.code(),
    {
        match self {
            VoiceCommand::Enter => "ENTER",
            VoiceCommand::SelectAll => "SELECT_ALL",
            VoiceCommand::Copy => "COPY",
            VoiceCommand::Paste => "PASTE",
            VoiceCommand::Cut => "CUT",
            VoiceCommand::Cancel => "CANCEL",
        }
    }
}

/// The six codes are six different texts.
pub proof fn lemma_codes_differ(one: VoiceCommand, other: VoiceCommand)
    ensures
        one.code() == other.code() ==> one == other,
        command_of_code(one.code()) == Some(one),
{
    reveal_strlit("ENTER");
    reveal_strlit("SELECT_ALL");
    reveal_strlit("COPY");
    reveal_strlit("PASTE");
    reveal_strlit("CUT");
    reveal_strlit("CANCEL");
    assert("ENTER"@.len() == 5);
    assert("SELECT_ALL"@.len() == 10);
    assert("COPY"@.len() == 4);
    assert("PASTE"@.len() == 5);
    assert("CUT"@.len() == 3);
    assert("CANCEL"@.len() == 6);
    assert("ENTER"@[0] == 'E');
    assert("PASTE"@[0] == 'P');
}

/// What is pressed for a command.
#[derive(Debug, Clone, Copy, PartialEq, Eq, Structural)]
pub enum KeyAction {
    /// One key alone.
    Press(Key),
    /// A key while Control is held.
    WithCtrl(Key),
    /// Nothing.
    Nothing,
}

/// What is pressed for a command: Enter for `Enter`; Control with A, C, V
/// and X for selecting all, copying, pasting and cutting; nothing for
/// `Cancel`.
pub open spec fn key_action_of(command: VoiceCommand) -> KeyAction {
    match command {
        VoiceCommand::Enter => KeyAction::Press(Key::Enter),
        VoiceCommand::SelectAll => KeyAction::WithCtrl(Key::A),
        VoiceCommand::Copy => KeyAction::WithCtrl(Key::C),
        VoiceCommand::Paste => KeyAction::WithCtrl(Key::V),
        VoiceCommand::Cut => KeyAction::WithCtrl(Key::X),
        VoiceCommand::Cancel => KeyAction::Nothing,
    }
}

/// What is pressed for a command.
pub fn key_action(command: &VoiceCommand) -> (action: KeyAction)
    ensures
        action == key_action_of(*command),
{
    match command {
        VoiceCommand::Enter => KeyAction::Press(Key::Enter),
        VoiceCommand::SelectAll => KeyAction::WithCtrl(Key::A),
        VoiceCommand::Copy => KeyAction::WithCtrl(Key::C),
        VoiceCommand::Paste => KeyAction::WithCtrl(Key::V),
        VoiceCommand::Cut => KeyAction::WithCtrl(Key::X),
        VoiceCommand::Cancel => KeyAction::Nothing,
    }
}

/// What is asked of the backend for a command: to press the key of
/// `key_action_of`, alone or with Control held; nothing for `Cancel`.
pub open spec fn planned_call(command: VoiceCommand) -> Option<InputCall> {
    match key_action_of(command) {
        KeyAction::Press(key) => Some(InputCall::PressKey(key)),
        KeyAction::WithCtrl(key) => Some(InputCall::KeyCombo(seq![Modifier::Ctrl], key)),
        KeyAction::Nothing => None,
    }
}

/// Carries a command out through a backend: the call of `planned_call` is
/// made on it, once, and what it answers is handed back. `Cancel` asks
/// nothing of the backend and succeeds.
pub fn execute<I: InputInjector>(command: &VoiceCommand, injector: &I) -> (done: Result<
    (),
    InjectError,
>)
    ensures
        match planned_call(*command) {
            Some(call) => injector.may_answer(call, done),
            None => done is Ok,
        },
{
    match key_action(command) {
        KeyAction::Press(key) => injector.press_key(key),
        KeyAction::WithCtrl(key) => {
            let mut modifiers: Vec<Modifier> = Vec::new();
            modifiers.push(Modifier::Ctrl);
            assert(modifiers@ =~= seq![Modifier::Ctrl]);
            injector.key_combo(modifiers.as_slice(), key)
        },
        KeyAction::Nothing => Ok(()),
    }
}

} // verus!
