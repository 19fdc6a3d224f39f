//! Input on Wayland through the `ydotool` program: the arguments for each
//! kind of input. Running the program is left to the caller.

use vstd::prelude::*;
use crate::keys::{combo_name, key_combo_name, Key, Modifier};
use crate::text::strings_view;

verus! {

/// Why `ydotool` was not run.
#[derive(Debug, Clone, Copy, PartialEq, Eq, Structural)]
pub enum YdotoolError {
    /// The program is not installed.
    NotAvailable,
}

/// The backend for Wayland.
#[derive(Debug, Clone, Copy)]
pub struct WaylandInjector {
    /// Whether `ydotool` was found.
    pub ydotool_available: bool,
}

impl WaylandInjector {
    /// A backend, given whether `ydotool` was found.
    pub fn new(ydotool_available: bool) -> (injector: WaylandInjector)
        ensures
            injector.ydotool_available == ydotool_available,
    {
        WaylandInjector { ydotool_available }
    }

    /// The name of the backend.
    pub fn backend_name(&self) -> (name: &'static str)
        ensures
            name@ == "Wayland (ydotool)"@,
    {
        "Wayland (ydotool)"
    }

    /// The arguments for typing a text, or the reason not to run the
    /// program.
    pub fn type_text_args(&self, text: &str) -> (args: Result<Vec<String>, YdotoolError>)
        ensures
            match args {
                Ok(list) => self.ydotool_available && strings_view(list@) == seq![
                    "type"@,
                    "--clearmodifiers"@,
                    text@,
                ],
                Err(why) => !self.ydotool_available && why == YdotoolError::NotAvailable,
            },
    {
        if !self.ydotool_available {
            return Err(YdotoolError::NotAvailable);
        }
        let mut list: Vec<String> = Vec::new();
        list.push(String::from_str("type"));
        list.push(String::from_str("--clearmodifiers"));
        list.push(String::from_str(text));
        assert(strings_view(list@) =~= seq!["type"@, "--clearmodifiers"@, text@]);
        Ok(list)
    }

    /// The arguments for pressing a key.
    pub fn press_key_args(&self, key: Key) -> (args: Result<Vec<String>, YdotoolError>)
        ensures
            match args {
                Ok(list) => self.ydotool_available && strings_view(list@) == seq![
                    "key"@,
                    key.ydotool_name(),
                ],
                Err(why) => !self.ydotool_available && why == YdotoolError::NotAvailable,
            },
    {
        if !self.ydotool_available {
            return Err(YdotoolError::NotAvailable);
        }
        let mut list: Vec<String> = Vec::new();
        list.push(String::from_str("key"));
        list.push(String::from_str(key.to_ydotool()));
        assert(strings_view(list@) =~= seq!["key"@, key.ydotool_name()]);
        Ok(list)
    }

    /// The arguments for pressing a key while modifiers are held.
    pub fn key_combo_args(&self, modifiers: &[Modifier], key: Key) -> (args: Result<
        Vec<String>,
        YdotoolError,
    >)
        ensures
            match args {
                Ok(list) => self.ydotool_available && strings_view(list@) == seq![
                    "key"@,
                    combo_name(modifiers@, key),
                ],
                Err(why) => !self.ydotool_available && why == YdotoolError::NotAvailable,
            },
    {
        if !self.ydotool_available {
            return Err(YdotoolError::NotAvailable);
        }
        let mut list: Vec<String> = Vec::new();
        list.push(String::from_str("key"));
        list.push(key_combo_name(modifiers, key));
        assert(strings_view(list@) =~= seq!["key"@, combo_name(modifiers@, key)]);
        Ok(list)
    }
}

} // verus!
