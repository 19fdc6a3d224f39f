//! The capability to type text and press keys, the display servers that
//! offer it, and the choice of a backend.

use vstd::prelude::*;
use crate::keys::{Key, Modifier};
use crate::text::{lowercase, same_text};

verus! {

/// Why text or a key was not injected.
#[derive(Debug)]
pub struct InjectError {
    /// The reason in words.
    pub message: String,
}

/// What is asked of a backend, in plain values.
pub enum InputCall {
    /// To type a text.
    TypeText(Seq<char>),
    /// To press one key.
    PressKey(Key),
    /// To press a key while modifiers are held.
    KeyCombo(Seq<Modifier>, Key),
}

/// A backend that types into the window in front.
pub trait InputInjector {
    /// Whether the backend may give this answer to this call. A backend
    /// that says nothing of its own admits every answer, and so promises
    /// nothing.
    open spec fn may_answer(&self, call: InputCall, answer: Result<(), InjectError>) -> bool {
        true
    }

    /// The name of the backend.
    fn backend_name(&self) -> &'static str;

    /// Types text at the cursor.
    fn type_text(&self, text: &str) -> (done: Result<(), InjectError>)
        ensures
            self.may_answer(InputCall::TypeText(text@), done),
    ;

    /// Presses one key.
    fn press_key(&self, key: Key) -> (done: Result<(), InjectError>)
        ensures
            self.may_answer(InputCall::PressKey(key), done),
    ;

    /// Presses a key while modifiers are held.
    fn key_combo(&self, modifiers: &[Modifier], key: Key) -> (done: Result<(), InjectError>)
        ensures
            self.may_answer(InputCall::KeyCombo(modifiers@, key), done),
    ;
}

/// The display server of the session.
#[derive(Debug, Clone, Copy, PartialEq, Eq, Structural)]
pub enum DisplayServer {
    /// X11.
    X11,
    /// Wayland.
    Wayland,
    /// Neither could be told.
    Unknown,
}

/// The display server that the environment points to: the session type
/// decides if it names one, then a Wayland display, then an X11 display.
pub open spec fn detected_server(
    session_type: Option<Seq<char>>,
    wayland_display: bool,
    display: bool,
) -> DisplayServer {
    if session_type is Some && lowercase(session_type->0) == "x11"@ {
        DisplayServer::X11
    } else if session_type is Some && lowercase(session_type->0) == "wayland"@ {
        DisplayServer::Wayland
    } else if wayland_display {
        DisplayServer::Wayland
    } else if display {
        DisplayServer::X11
    } else {
        DisplayServer::Unknown
    }
}

/// What an optional text holds.
pub open spec fn str_view(text: Option<&str>) -> Option<Seq<char>> {
    match text {
        Some(inner) => Some(inner@),
        None => None,
    }
}

impl DisplayServer {
    /// Tells the display server from the environment: the value of
    /// `XDG_SESSION_TYPE` if it is set, and whether `WAYLAND_DISPLAY` and
    /// `DISPLAY` are set.
    pub fn detect(session_type: Option<&str>, wayland_display: bool, display: bool) -> (server:
        DisplayServer)
        ensures
            server == detected_server(str_view(session_type), wayland_display, display),
    {
        match session_type {
            Some(kind) => {
                let lower = kind.to_lowercase();
                if same_text(lower.as_str(), "x11") {
                    return DisplayServer::X11;
                }
                if same_text(lower.as_str(), "wayland") {
                    return DisplayServer::Wayland;
                }
            },
            None => {},
        }
        if wayland_display {
            DisplayServer::Wayland
        } else if display {
            DisplayServer::X11
        } else {
            DisplayServer::Unknown
        }
    }
}

/// A backend for injecting input.
#[derive(Debug, Clone, Copy, PartialEq, Eq, Structural)]
pub enum Backend {
    /// Through the X11 server.
    X11,
    /// Through `ydotool`, for Wayland.
    Wayland,
}

/// The backend to set up, and the one to try if that fails.
#[derive(Debug, Clone, Copy, PartialEq, Eq, Structural)]
pub struct InjectorPlan {
    /// The backend to set up first.
    pub first: Backend,
    /// The backend to set up if the first cannot be.
    pub fallback: Option<Backend>,
}

/// Why no backend was chosen.
#[derive(Debug, Clone, Copy, PartialEq, Eq, Structural)]
pub enum InjectorError {
    /// X11 was asked for, and this build has no X11 backend.
    X11NotCompiledIn,
}

impl InjectorError {
    /// The error in words.
    pub fn message(&self) -> (text: &'static str)
        ensures
            text@ == "X11 support not compiled in"@,
    {
        match self {
            InjectorError::X11NotCompiledIn => "X11 support not compiled in",
        }
    }
}

/// The display server that a preference calls for: `x11` and `wayland`,
/// in any case, name one; anything else leaves it to the environment.
pub open spec fn preferred_server(preference: Seq<char>, detected: DisplayServer) -> DisplayServer {
    if lowercase(preference) == "x11"@ {
        DisplayServer::X11
    } else if lowercase(preference) == "wayland"@ {
        DisplayServer::Wayland
    } else {
        detected
    }
}

/// The backends to set up for a display server. Where the server is
/// unknown, X11 is tried first if the build has it, and Wayland after it.
pub open spec fn plan_for(server: DisplayServer, x11_compiled: bool) -> Result<
    InjectorPlan,
    InjectorError,
> {
    match server {
        DisplayServer::X11 => if x11_compiled {
            Ok(InjectorPlan { first: Backend::X11, fallback: None })
        } else {
            Err(InjectorError::X11NotCompiledIn)
        },
        DisplayServer::Wayland => Ok(InjectorPlan { first: Backend::Wayland, fallback: None }),
        DisplayServer::Unknown => if x11_compiled {
            Ok(InjectorPlan { first: Backend::X11, fallback: Some(Backend::Wayland) })
        } else {
            Ok(InjectorPlan { first: Backend::Wayland, fallback: None })
        },
    }
}

/// Chooses the backends for the display server that the environment
/// points to.
pub fn create_injector(detected: DisplayServer, x11_compiled: bool) -> (plan: Result<
    InjectorPlan,
    InjectorError,
>)
    ensures
        plan == plan_for(preferred_server("auto"@, detected), x11_compiled),
{
    create_injector_with_preference("auto", detected, x11_compiled)
}

/// Chooses the backends by a preference: `x11` or `wayland` to force one,
/// `auto` or anything else to go by the environment.
pub fn create_injector_with_preference(
    preference: &str,
    detected: DisplayServer,
    x11_compiled: bool,
) -> (plan: Result<InjectorPlan, InjectorError>)
    ensures
        plan == plan_for(preferred_server(preference@, detected), x11_compiled),
{
    let lower = preference.to_lowercase();
    let server = if same_text(lower.as_str(), "x11") {
        DisplayServer::X11
    } else if same_text(lower.as_str(), "wayland") {
        DisplayServer::Wayland
    } else {
        detected
    };
    match server {
        DisplayServer::X11 => if x11_compiled {
            Ok(InjectorPlan { first: Backend::X11, fallback: None })
        } else {
            Err(InjectorError::X11NotCompiledIn)
        },
        DisplayServer::Wayland => Ok(InjectorPlan { first: Backend::Wayland, fallback: None }),
        DisplayServer::Unknown => if x11_compiled {
            Ok(InjectorPlan { first: Backend::X11, fallback: Some(Backend::Wayland) })
        } else {
            Ok(InjectorPlan { first: Backend::Wayland, fallback: None })
        },
    }
}

/// A backend that does nothing, for use without a display server.
pub struct StubInjector;

impl InputInjector for StubInjector {
    /// The stub answers every call with success.
    open spec fn may_answer(&self, call: InputCall, answer: Result<(), InjectError>) -> bool {
        answer is Ok
    }

    fn backend_name(&self) -> (name: &'static str)
        ensures
            name@ == "Stub (no-op)"@,
    {
        "Stub (no-op)"
    }

    fn type_text(&self, text: &str) -> (done: Result<(), InjectError>)
        ensures
            done is Ok,
    {
        Ok(())
    }

    fn press_key(&self, key: Key) -> (done: Result<(), InjectError>)
        ensures
            done is Ok,
    {
        Ok(())
    }

    fn key_combo(&self, modifiers: &[Modifier], key: Key) -> (done: Result<(), InjectError>)
        ensures
            done is Ok,
    {
        Ok(())
    }
}

} // verus!
