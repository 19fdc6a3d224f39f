//! The settings of the application and their defaults.

use vstd::prelude::*;
use crate::text::{chars_of, string_of};

verus! {

/// Whether a character is a letter or a digit, as `char::is_alphanumeric`
/// tells.
pub uninterp spec fn alphanumeric(c: char) -> bool;

/// `char::is_alphanumeric` of std: the character is a letter or a digit by
/// the Unicode tables. The contract gives that answer a name.
pub assume_specification[ char::is_alphanumeric ](c: char) -> (answer: bool)
    ensures
        answer == alphanumeric(c),
;

/// A character as it may stand in a device name: letters, digits, hyphens
/// and spaces stay; a hyphen takes the place of anything else.
pub open spec fn name_char(c: char) -> char {
    if alphanumeric(c) || c == '-' || c == ' ' {
        c
    } else {
        '-'
    }
}

/// The end of the hyphens at the start of a text.
pub open spec fn hyphens_end(text: Seq<char>, from: int) -> int
    decreases text.len() - from,
{
    if from < 0 || from >= text.len() || text[from] != '-' {
        from
    } else {
        hyphens_end(text, from + 1)
    }
}

/// The start of the hyphens at the end of a text.
pub open spec fn hyphens_start(text: Seq<char>, to: int) -> int
    decreases to,
{
    if to <= 0 || to > text.len() || text[to - 1] != '-' {
        to
    } else {
        hyphens_start(text, to - 1)
    }
}

/// The host name as a device name: each character that may not stand in
/// one replaced by a hyphen, the hyphens at both ends cut off; `Desktop`
/// if nothing is left.
pub open spec fn sanitized_hostname(hostname: Seq<char>) -> Seq<char> {
    let mapped = hostname.map_values(|c: char| name_char(c));
    let start = hyphens_end(mapped, 0);
    let end = hyphens_start(mapped, mapped.len() as int);
    if start >= end {
        "Desktop"@
    } else {
        mapped.subrange(start, end)
    }
}

/// Makes a device name of a host name.
pub fn sanitize_hostname(hostname: &str) -> (name: String)
    ensures
        name@ == sanitized_hostname(hostname@),
{
    let chars = chars_of(hostname);
    let mut mapped: Vec<char> = Vec::new();
    let mut i: usize = 0;
    while i < chars.len()
        invariant
            i <= chars.len(),
            mapped@ == chars@.take(i as int).map_values(|c: char| name_char(c)),
        decreases chars.len() - i,
    {
        let c = chars[i];
        let kept = if c.is_alphanumeric() || c == '-' || c == ' ' {
            c
        } else {
            '-'
        };
        mapped.push(kept);
        assert(mapped@ =~= chars@.take(i + 1).map_values(|c: char| name_char(c)));
        i += 1;
    }
    assert(chars@.take(i as int) =~= chars@);
    let mut start: usize = 0;
    while start < mapped.len() && mapped[start] == '-'
        invariant
            start <= mapped.len(),
            hyphens_end(mapped@, 0) == hyphens_end(mapped@, start as int),
        decreases mapped.len() - start,
    {
        start += 1;
    }
    let mut end: usize = mapped.len();
    while end > 0 && mapped[end - 1] == '-'
        invariant
            end <= mapped.len(),
            hyphens_start(mapped@, mapped@.len() as int) == hyphens_start(mapped@, end as int),
        decreases end,
    {
        end -= 1;
    }
    if start >= end {
        String::from_str("Desktop")
    } else {
        string_of(&mapped, start, end)
    }
}

/// Settings of the radio link.
#[derive(Debug)]
pub struct BluetoothConfig {
    /// Name under which the desktop is advertised.
    pub device_name: String,
    /// Whether connections from paired phones are accepted without asking.
    pub auto_accept: bool,
}

impl BluetoothConfig {
    /// The defaults on a host of the given name.
    pub fn for_host(hostname: &str) -> (config: BluetoothConfig)
        ensures
            config.device_name@ == sanitized_hostname(hostname@),
            config.auto_accept,
    {
        BluetoothConfig { device_name: sanitize_hostname(hostname), auto_accept: true }
    }
}

/// Settings of the injection of input.
#[derive(Debug)]
pub struct InputConfig {
    /// Pause between keystrokes, in milliseconds.
    pub typing_delay_ms: u32,
    /// Backend to use: `auto`, `x11` or `wayland`.
    pub prefer_backend: String,
}

impl Default for InputConfig {
    fn default() -> (config: InputConfig)
        ensures
            config.typing_delay_ms == 10,
            config.prefer_backend@ == "auto"@,
    {
        InputConfig { typing_delay_ms: 10, prefer_backend: String::from_str("auto") }
    }
}

/// Settings of the history.
#[derive(Debug)]
pub struct HistoryConfig {
    /// Whether what is received is logged.
    pub enabled: bool,
    /// How many entries are kept at most.
    pub max_entries: u32,
}

impl Default for HistoryConfig {
    fn default() -> (config: HistoryConfig)
        ensures
            config.enabled,
            config.max_entries == 10000,
    {
        HistoryConfig { enabled: true, max_entries: 10000 }
    }
}

/// The settings of the application.
#[derive(Debug)]
pub struct Config {
    /// Directory for what the application stores.
    pub data_dir: String,
    /// Settings of the radio link.
    pub bluetooth: BluetoothConfig,
    /// Settings of the injection of input.
    pub input: InputConfig,
    /// Settings of the history.
    pub history: HistoryConfig,
}

impl Config {
    /// The defaults for a data directory and a host name.
    pub fn with_defaults(data_dir: String, hostname: &str) -> (config: Config)
        ensures
            config.data_dir == data_dir,
            config.bluetooth.device_name@ == sanitized_hostname(hostname@),
            config.bluetooth.auto_accept,
            config.input.typing_delay_ms == 10,
            config.input.prefer_backend@ == "auto"@,
            config.history.enabled,
            config.history.max_entries == 10000,
    {
        Config {
            data_dir,
            bluetooth: BluetoothConfig::for_host(hostname),
            input: InputConfig::default(),
            history: HistoryConfig::default(),
        }
    }
}

} // verus!
