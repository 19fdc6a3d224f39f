use speech2prompt_desktop::commands::{execute, key_action, KeyAction, VoiceCommand};
use speech2prompt_desktop::injector::{InjectError, InputInjector, StubInjector};
use speech2prompt_desktop::keys::{key_combo_name, Key, Modifier};
use std::cell::RefCell;

#[test]
fn test_voice_command_parse() {
    assert_eq!(VoiceCommand::parse("ENTER"), Some(VoiceCommand::Enter));
    assert_eq!(VoiceCommand::parse("enter"), Some(VoiceCommand::Enter));
    assert_eq!(VoiceCommand::parse("SELECT_ALL"), Some(VoiceCommand::SelectAll));
    assert_eq!(VoiceCommand::parse("COPY"), Some(VoiceCommand::Copy));
    assert_eq!(VoiceCommand::parse("PASTE"), Some(VoiceCommand::Paste));
    assert_eq!(VoiceCommand::parse("CUT"), Some(VoiceCommand::Cut));
    assert_eq!(VoiceCommand::parse("CANCEL"), Some(VoiceCommand::Cancel));
    assert_eq!(VoiceCommand::parse("INVALID"), None);
}

#[test]
fn test_voice_command_parse_trims_and_ignores_case() {
    assert_eq!(VoiceCommand::parse("  Select_All \n"), Some(VoiceCommand::SelectAll));
    assert_eq!(VoiceCommand::parse("\tcut"), Some(VoiceCommand::Cut));
    assert_eq!(VoiceCommand::parse(""), None);
    assert_eq!(VoiceCommand::parse("SELECT ALL"), None);
    assert_eq!(VoiceCommand::parse("BACKSPACE"), None);
}

#[test]
fn test_voice_command_codes_round_trip() {
    for command in [
        VoiceCommand::Enter,
        VoiceCommand::SelectAll,
        VoiceCommand::Copy,
        VoiceCommand::Paste,
        VoiceCommand::Cut,
        VoiceCommand::Cancel,
    ] {
        assert_eq!(VoiceCommand::parse(command.as_str()), Some(command));
    }
    assert_eq!(VoiceCommand::SelectAll.as_str(), "SELECT_ALL");
}

#[test]
fn test_key_actions() {
    assert_eq!(key_action(&VoiceCommand::Enter), KeyAction::Press(Key::Enter));
    assert_eq!(key_action(&VoiceCommand::SelectAll), KeyAction::WithCtrl(Key::A));
    assert_eq!(key_action(&VoiceCommand::Copy), KeyAction::WithCtrl(Key::C));
    assert_eq!(key_action(&VoiceCommand::Paste), KeyAction::WithCtrl(Key::V));
    assert_eq!(key_action(&VoiceCommand::Cut), KeyAction::WithCtrl(Key::X));
    assert_eq!(key_action(&VoiceCommand::Cancel), KeyAction::Nothing);
}

struct Recorder {
    log: RefCell<Vec<String>>,
    fail: bool,
}

impl InputInjector for Recorder {
    fn backend_name(&self) -> &'static str {
        "recorder"
    }

    fn type_text(&self, text: &str) -> Result<(), InjectError> {
        self.log.borrow_mut().push(format!("type:{}", text));
        Ok(())
    }

    fn press_key(&self, key: Key) -> Result<(), InjectError> {
        self.log.borrow_mut().push(format!("press:{}", key.to_ydotool()));
        if self.fail {
            Err(InjectError { message: "no".to_string() })
        } else {
            Ok(())
        }
    }

    fn key_combo(&self, modifiers: &[Modifier], key: Key) -> Result<(), InjectError> {
        self.log.borrow_mut().push(format!("combo:{}", key_combo_name(modifiers, key)));
        Ok(())
    }
}

#[test]
fn test_execute_hands_keys_to_injector() {
    let recorder = Recorder { log: RefCell::new(Vec::new()), fail: false };
    assert!(execute(&VoiceCommand::Enter, &recorder).is_ok());
    assert!(execute(&VoiceCommand::SelectAll, &recorder).is_ok());
    assert!(execute(&VoiceCommand::Copy, &recorder).is_ok());
    assert!(execute(&VoiceCommand::Paste, &recorder).is_ok());
    assert!(execute(&VoiceCommand::Cut, &recorder).is_ok());
    assert!(execute(&VoiceCommand::Cancel, &recorder).is_ok());
    assert_eq!(
        *recorder.log.borrow(),
        vec![
            "press:ENTER".to_string(),
            "combo:LEFTCTRL+A".to_string(),
            "combo:LEFTCTRL+C".to_string(),
            "combo:LEFTCTRL+V".to_string(),
            "combo:LEFTCTRL+X".to_string(),
        ]
    );
}

#[test]
fn test_execute_hands_failure_back() {
    let recorder = Recorder { log: RefCell::new(Vec::new()), fail: true };
    let failed = execute(&VoiceCommand::Enter, &recorder);
    assert_eq!(failed.unwrap_err().message, "no");
    assert!(execute(&VoiceCommand::Cancel, &recorder).is_ok());
}

#[test]
fn test_stub_injector_accepts_everything() {
    let stub = StubInjector;
    assert_eq!(stub.backend_name(), "Stub (no-op)");
    assert!(stub.type_text("hello").is_ok());
    assert!(stub.press_key(Key::Enter).is_ok());
    assert!(stub.key_combo(&[Modifier::Ctrl], Key::A).is_ok());
    assert!(execute(&VoiceCommand::Paste, &stub).is_ok());
}
