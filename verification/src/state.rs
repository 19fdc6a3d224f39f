//! What the application shows and remembers between events.

use vstd::prelude::*;

verus! {

/// Whether a phone is connected.
#[derive(Debug, Clone, Copy, PartialEq, Eq, Structural)]
pub enum ConnectionStatus {
    /// No phone is connected.
    Disconnected,
    /// A connection is being set up.
    Connecting,
    /// A phone is connected.
    Connected,
    /// The connection failed.
    Error,
}

impl ConnectionStatus {
    /// The name of the icon that stands for the status.
    pub open spec fn icon(self) -> Seq<char> {
        match self {
            ConnectionStatus::Disconnected => "network-offline"@,
            ConnectionStatus::Connecting => "network-idle"@,
            ConnectionStatus::Connected => "network-transmit-receive"@,
            ConnectionStatus::Error => "network-error"@,
        }
    }

    /// The name of the icon that stands for the status.
    pub fn icon_name(&self) -> (name: &'static str)
        ensures
            name@ == self.icon(),
    {
        match self {
            ConnectionStatus::Disconnected => "network-offline",
            ConnectionStatus::Connecting => "network-idle",
            ConnectionStatus::Connected => "network-transmit-receive",
            ConnectionStatus::Error => "network-error",
        }
    }
}

/// What the application remembers, in plain values.
pub struct Status {
    /// Whether a phone is connected.
    pub connection_status: ConnectionStatus,
    /// Whether input is injected.
    pub input_enabled: bool,
    /// Name of the connected phone.
    pub connected_device: Option<Seq<char>>,
    /// The text received last.
    pub last_text: Option<Seq<char>>,
    /// The command for which a phrase is being recorded.
    pub recording_command: Option<Seq<char>>,
}

/// What an optional text holds.
pub open spec fn field_view(text: Option<String>) -> Option<Seq<char>> {
    match text {
        Some(inner) => Some(inner@),
        None => None,
    }
}

/// What the application remembers.
#[derive(Debug)]
pub struct AppState {
    connection_status: ConnectionStatus,
    input_enabled: bool,
    connected_device: Option<String>,
    last_text: Option<String>,
    recording_command: Option<String>,
}

impl View for AppState {
    type V = Status;

    closed spec fn view(&self) -> Status {
        Status {
            connection_status: self.connection_status,
            input_enabled: self.input_enabled,
            connected_device: field_view(self.connected_device),
            last_text: field_view(self.last_text),
            recording_command: field_view(self.recording_command),
        }
    }
}

/// The state at start: no phone, input enabled, nothing recorded.
pub open spec fn initial_status() -> Status {
    Status {
        connection_status: ConnectionStatus::Disconnected,
        input_enabled: true,
        connected_device: None,
        last_text: None,
        recording_command: None,
    }
}

impl Default for AppState {
    fn default() -> (state: AppState)
        ensures
            state@ == initial_status(),
    {
        AppState {
            connection_status: ConnectionStatus::Disconnected,
            input_enabled: true,
            connected_device: None,
            last_text: None,
            recording_command: None,
        }
    }
}

impl AppState {
    /// The state at start.
    pub fn new() -> (state: AppState)
        ensures
            state@ == initial_status(),
    {
        AppState {
            connection_status: ConnectionStatus::Disconnected,
            input_enabled: true,
            connected_device: None,
            last_text: None,
            recording_command: None,
        }
    }

    /// A phone is connected.
    pub fn set_connected(&mut self, device_name: String)
        ensures
            final(self)@ == (Status {
                connection_status: ConnectionStatus::Connected,
                connected_device: Some(device_name@),
                ..old(self)@
            }),
    {
        self.connection_status = ConnectionStatus::Connected;
        self.connected_device = Some(device_name);
    }

    /// The phone is gone.
    pub fn set_disconnected(&mut self)
        ensures
            final(self)@ == (Status {
                connection_status: ConnectionStatus::Disconnected,
                connected_device: None,
                ..old(self)@
            }),
    {
        self.connection_status = ConnectionStatus::Disconnected;
        self.connected_device = None;
    }

    /// The connection failed.
    pub fn set_error(&mut self)
        ensures
            final(self)@ == (Status { connection_status: ConnectionStatus::Error, ..old(self)@ }),
    {
        self.connection_status = ConnectionStatus::Error;
    }

    /// Switches the injection of input on or off.
    pub fn set_input_enabled(&mut self, enabled: bool)
        ensures
            final(self)@ == (Status { input_enabled: enabled, ..old(self)@ }),
    {
        self.input_enabled = enabled;
    }

    /// Whether input is injected.
    pub fn is_input_enabled(&self) -> (enabled: bool)
        ensures
            enabled == self@.input_enabled,
    {
        self.input_enabled
    }

    /// Whether a phone is connected.
    pub fn get_status(&self) -> (status: ConnectionStatus)
        ensures
            status == self@.connection_status,
    {
        self.connection_status
    }

    /// Name of the connected phone.
    pub fn get_device_name(&self) -> (name: Option<String>)
        ensures
            field_view(name) == self@.connected_device,
    {
        match &self.connected_device {
            Some(name) => Some(name.clone()),
            None => None,
        }
    }

    /// Remembers the text received last.
    pub fn set_last_text(&mut self, text: String)
        ensures
            final(self)@ == (Status { last_text: Some(text@), ..old(self)@ }),
    {
        self.last_text = Some(text);
    }

    /// Starts recording a phrase for a command: the next text received
    /// becomes its phrase.
    pub fn start_recording(&mut self, command: String)
        ensures
            final(self)@ == (Status { recording_command: Some(command@), ..old(self)@ }),
    {
        self.recording_command = Some(command);
    }

    /// Stops recording and returns the command that was being recorded.
    pub fn stop_recording(&mut self) -> (command: Option<String>)
        ensures
            final(self)@ == (Status { recording_command: None, ..old(self)@ }),
            field_view(command) == old(self)@.recording_command,
    {
        self.recording_command.take()
    }

    /// Whether a phrase is being recorded.
    pub fn is_recording(&self) -> (recording: bool)
        ensures
            recording == self@.recording_command is Some,
    {
        self.recording_command.is_some()
    }

    /// The command for which a phrase is being recorded.
    pub fn get_recording_command(&self) -> (command: Option<String>)
        ensures
            field_view(command) == self@.recording_command,
    {
        match &self.recording_command {
            Some(command) => Some(command.clone()),
            None => None,
        }
    }
}

} // verus!
