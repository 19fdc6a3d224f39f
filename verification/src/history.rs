//! The history of what was received: the kinds of entry, the lines of an
//! export, and the pattern of a search.

use vstd::prelude::*;
use crate::text::same_text;

verus! {

/// The kind of a history entry.
#[derive(Debug, Clone, Copy, PartialEq, Eq, Structural)]
pub enum EntryType {
    /// Dictated text.
    Text,
    /// A command.
    Command,
}

impl EntryType {
    /// The name under which the kind is stored.
    pub open spec fn name(self) -> Seq<char> {
        match self {
            EntryType::Text => "TEXT"@,
            EntryType::Command => "COMMAND"@,
        }
    }

    /// The name under which the kind is stored.
    pub fn as_str(&self) -> (name: &'static str)
        ensures
            name@ == self.name(),
    {
        match self {
            EntryType::Text => "TEXT",
            EntryType::Command => "COMMAND",
        }
    }

    /// The label of the kind in an exported line: four characters wide.
    pub open spec fn label(self) -> Seq<char> {
        match self {
            EntryType::Text => "TEXT"@,
            EntryType::Command => "CMD "@,
        }
    }

    /// The label of the kind in an exported line.
    pub fn export_label(&self) -> (label: &'static str)
        ensures
            label@ == self.label(),
    {
        match self {
            EntryType::Text => "TEXT",
            EntryType::Command => "CMD ",
        }
    }

    /// The kind that a stored name stands for: `COMMAND` for commands,
    /// anything else for text.
    pub fn from_str(s: &str) -> (kind: EntryType)
        ensures
            kind == if s@ == "COMMAND"@ {
                EntryType::Command
            } else {
                EntryType::Text
            },
    {
        if same_text(s, "COMMAND") {
            EntryType::Command
        } else {
            EntryType::Text
        }
    }
}

/// One line of an export: the time in square brackets, the label of the
/// kind, a colon, the content, and a line feed.
pub open spec fn exported_line(time: Seq<char>, kind: EntryType, content: Seq<char>) -> Seq<char> {
    "["@ + time + "] "@ + kind.label() + ": "@ + content + "\n"@
}

/// Writes one line of an export.
pub fn export_line(time: &str, kind: EntryType, content: &str) -> (line: String)
    ensures
        line@ == exported_line(time@, kind, content@),
{
    let mut line = String::from_str("[");
    line.append(time);
    line.append("] ");
    line.append(kind.export_label());
    line.append(": ");
    line.append(content);
    line.append("\n");
    line
}

/// The pattern that finds the entries which contain a text: the text
/// between two percent signs.
pub open spec fn containing(query: Seq<char>) -> Seq<char> {
    "%"@ + query + "%"@
}

/// The pattern that finds the entries which contain a text.
pub fn like_pattern(query: &str) -> (pattern: String)
    ensures
        pattern@ == containing(query@),
{
    let mut pattern = String::from_str("%");
    pattern.append(query);
    pattern.append("%");
    pattern
}

/// A stored name gives back the kind it was written for.
pub proof fn lemma_entry_type_round_trip(kind: EntryType)
    ensures
        (kind.name() == "COMMAND"@) == (kind == EntryType::Command),
{
    reveal_strlit("TEXT");
    reveal_strlit("COMMAND");
    assert("TEXT"@.len() == 4);
    assert("COMMAND"@.len() == 7);
}

} // verus!
