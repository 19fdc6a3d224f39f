//! The phrases under which commands are spoken: a default for each built-in
//! command, and the user's own phrases, which replace the defaults.

use vstd::prelude::*;
use crate::clock::{creation_time_of, read_clock};
use crate::text::{
    has_char, lowercase, same_text, split_words, strings_view, trim, trimmed, uppercase, words,
};

verus! {

/// The phrase reduced to its last two words at most, in lower case, with
/// one space between them.
pub open spec fn normalized_phrase(phrase: Seq<char>) -> Seq<char> {
    let parts = words(phrase);
    if parts.len() == 0 {
        Seq::empty()
    } else if parts.len() == 1 {
        lowercase(parts[0])
    } else {
        lowercase(parts[parts.len() - 2]) + seq![' '] + lowercase(parts[parts.len() - 1])
    }
}

/// Reduces a phrase to its last two words at most, in lower case.
pub fn normalize_phrase(phrase: &str) -> (out: String)
    ensures
        out@ == normalized_phrase(phrase@),
{
    let parts = split_words(phrase);
    let n = parts.len();
    if n == 0 {
        String::new()
    } else if n == 1 {
        parts[0].as_str().to_lowercase()
    } else {
        let mut out = parts[n - 2].as_str().to_lowercase();
        out.push(' ');
        let last = parts[n - 1].as_str().to_lowercase();
        out.append(last.as_str());
        out
    }
}

/// The built-in commands with their default phrases, in the order in which
/// they are tried and listed.
pub open spec fn default_phrases() -> Seq<(Seq<char>, Seq<char>)> {
    seq![
        ("ENTER"@, "enter"@),
        ("SELECT_ALL"@, "select all"@),
        ("COPY"@, "copy"@),
        ("PASTE"@, "paste"@),
        ("CUT"@, "cut"@),
        ("CANCEL"@, "cancel"@),
    ]
}

/// What a table of pairs of texts holds.
pub open spec fn pairs_view(table: Seq<(&'static str, &'static str)>) -> Seq<
    (Seq<char>, Seq<char>),
> {
    Seq::new(table.len(), |i: int| (table[i].0@, table[i].1@))
}

/// The built-in commands with their default phrases.
pub fn default_phrase_table() -> (table: Vec<(&'static str, &'static str)>)
    ensures
        pairs_view(table@) == default_phrases(),
{
    let mut table: Vec<(&'static str, &'static str)> = Vec::new();
    table.push(("ENTER", "enter"));
    table.push(("SELECT_ALL", "select all"));
    table.push(("COPY", "copy"));
    table.push(("PASTE", "paste"));
    table.push(("CUT", "cut"));
    table.push(("CANCEL", "cancel"));
    assert(pairs_view(table@) =~= default_phrases());
    table
}

/// One phrase of the user's for one command.
#[derive(Debug)]
pub struct VoiceCommandMapping {
    /// The spoken phrase.
    pub phrase: String,
    /// The code of the command that the phrase stands for.
    pub command: String,
    /// When the mapping was made, in milliseconds since the Unix epoch.
    pub created_at: i64,
}

impl VoiceCommandMapping {
    /// A mapping made at the given time.
    pub fn at(phrase: String, command: String, created_at: i64) -> (mapping: VoiceCommandMapping)
        ensures
            mapping.phrase == phrase,
            mapping.command == command,
            mapping.created_at == created_at,
    {
        VoiceCommandMapping { phrase, command, created_at }
    }

    /// A mapping made now, by the system clock.
    pub fn new(phrase: String, command: String) -> (mapping: VoiceCommandMapping)
        ensures
            mapping.phrase == phrase,
            mapping.command == command,
    {
        VoiceCommandMapping::at(phrase, command, creation_time_of(read_clock()))
    }

    /// A mapping with the same contents.
    pub fn duplicate(&self) -> (copy: VoiceCommandMapping)
        ensures
            copy == *self,
    {
        VoiceCommandMapping {
            phrase: self.phrase.clone(),
            command: self.command.clone(),
            created_at: self.created_at,
        }
    }
}

/// What the phrase file holds.
#[derive(Debug)]
pub struct VoiceCommandsFile {
    /// Version of the file format.
    pub version: u32,
    /// The user's mappings; defaults are not stored.
    pub mappings: Vec<VoiceCommandMapping>,
}

impl Default for VoiceCommandsFile {
    fn default() -> (file: VoiceCommandsFile)
        ensures
            file.version == 1,
            file.mappings@.len() == 0,
    {
        VoiceCommandsFile { version: 1, mappings: Vec::new() }
    }
}

/// A command with the phrase that is in force for it.
#[derive(Debug)]
pub struct CommandInfo {
    /// The code of the command.
    pub command: String,
    /// The phrase in force: the user's, or else the default.
    pub phrase: String,
    /// Whether the phrase in force is the user's.
    pub is_custom: bool,
    /// The default phrase of the command.
    pub default_phrase: String,
}

/// Why a phrase was not stored.
#[derive(Debug, Clone, Copy, PartialEq, Eq, Structural)]
pub enum PhraseError {
    /// The phrase holds no word.
    EmptyPhrase,
}

/// One stored phrase: the command's code in capitals, under which it is
/// found, and the phrase.
pub struct PhraseEntry {
    /// The code of the command, in capitals.
    pub key: Seq<char>,
    /// The phrase stored for it.
    pub phrase: Seq<char>,
}

/// The place of the entry for a code among the entries from `from` on.
pub open spec fn position_from(entries: Seq<PhraseEntry>, key: Seq<char>, from: int) -> Option<int>
    decreases entries.len() - from,
{
    if from < 0 || from >= entries.len() {
        None
    } else if entries[from].key == key {
        Some(from)
    } else {
        position_from(entries, key, from + 1)
    }
}

/// The place of the entry for a code, if there is one.
pub open spec fn position(entries: Seq<PhraseEntry>, key: Seq<char>) -> Option<int> {
    position_from(entries, key, 0)
}

/// No two entries are for the same code.
pub open spec fn distinct_keys(entries: Seq<PhraseEntry>) -> bool {
    forall|i: int, j: int|
        0 <= i < j < entries.len() ==> (#[trigger] entries[i]).key != (#[trigger] entries[j]).key
}

/// Whether a text is a phrase as it is stored: some phrase reduced to its
/// last two words at most, in lower case.
pub open spec fn is_normalized(phrase: Seq<char>) -> bool {
    exists|raw: Seq<char>| phrase == #[trigger] normalized_phrase(raw)
}

/// Whether a text is a code as phrases are stored under: the upper-case
/// form of some text.
pub open spec fn is_code_key(key: Seq<char>) -> bool {
    exists|code: Seq<char>| key == #[trigger] uppercase(code)
}

/// Whether an entry is as entries are stored.
pub open spec fn entry_wf(entry: PhraseEntry) -> bool {
    is_normalized(entry.phrase) && is_code_key(entry.key)
}

/// What holds of the entries of every store: no two are for the same code,
/// every code is in capitals, and every phrase is reduced to two words at
/// most, in lower case.
pub open spec fn store_wf(entries: Seq<PhraseEntry>) -> bool {
    distinct_keys(entries) && forall|i: int|
        0 <= i < entries.len() ==> entry_wf(#[trigger] entries[i])
}

/// The default phrase of a code among the defaults from `from` on.
pub open spec fn default_from(defaults: Seq<(Seq<char>, Seq<char>)>, key: Seq<char>, from: int)
    -> Option<Seq<char>>
    decreases defaults.len() - from,
{
    if from < 0 || from >= defaults.len() {
        None
    } else if defaults[from].0 == key {
        Some(defaults[from].1)
    } else {
        default_from(defaults, key, from + 1)
    }
}

/// The phrase in force for a command: the user's, else the default, else
/// the command's own name in lower case.
pub open spec fn phrase_in_force(entries: Seq<PhraseEntry>, command: Seq<char>) -> Seq<char> {
    match position(entries, uppercase(command)) {
        Some(i) => entries[i].phrase,
        None => match default_from(default_phrases(), uppercase(command), 0) {
            Some(phrase) => phrase,
            None => lowercase(command),
        },
    }
}

/// The entries after a phrase was stored for a code: the entry for the code
/// is replaced where there is one; else a new entry is added at the end.
pub open spec fn with_entry(entries: Seq<PhraseEntry>, key: Seq<char>, phrase: Seq<char>) -> Seq<
    PhraseEntry,
> {
    match position(entries, key) {
        Some(i) => entries.update(i, PhraseEntry { key, phrase }),
        None => entries.push(PhraseEntry { key, phrase }),
    }
}

/// The entries without the one for a code.
pub open spec fn without_entry(entries: Seq<PhraseEntry>, key: Seq<char>) -> Seq<PhraseEntry> {
    match position(entries, key) {
        Some(i) => entries.remove(i),
        None => entries,
    }
}

/// The code of the first of the user's phrases from `from` on that, trimmed
/// and in lower case, is the spoken text.
pub open spec fn custom_match_from(entries: Seq<PhraseEntry>, spoken: Seq<char>, from: int)
    -> Option<Seq<char>>
    decreases entries.len() - from,
{
    if from < 0 || from >= entries.len() {
        None
    } else if lowercase(trimmed(entries[from].phrase)) == spoken {
        Some(entries[from].key)
    } else {
        custom_match_from(entries, spoken, from + 1)
    }
}

/// The code of the first default from `from` on whose phrase is the spoken
/// text and whose command has no phrase of the user's.
pub open spec fn default_match_from(
    entries: Seq<PhraseEntry>,
    defaults: Seq<(Seq<char>, Seq<char>)>,
    spoken: Seq<char>,
    from: int,
) -> Option<Seq<char>>
    decreases defaults.len() - from,
{
    if from < 0 || from >= defaults.len() {
        None
    } else if position(entries, defaults[from].0) is None && defaults[from].1 == spoken {
        Some(defaults[from].0)
    } else {
        default_match_from(entries, defaults, spoken, from + 1)
    }
}

/// The code of the command that a spoken text stands for: the user's
/// phrases come first, in the order in which they are stored; then the
/// defaults of the commands that have no phrase of the user's. White space
/// around the text and the case of its letters do not count.
pub open spec fn matched_code(entries: Seq<PhraseEntry>, spoken: Seq<char>) -> Option<Seq<char>> {
    let wanted = lowercase(trimmed(spoken));
    match custom_match_from(entries, wanted, 0) {
        Some(code) => Some(code),
        None => default_match_from(entries, default_phrases(), wanted, 0),
    }
}

/// The first word of a text, or the empty text.
pub open spec fn first_word(text: Seq<char>) -> Seq<char> {
    if words(text).len() == 0 {
        Seq::empty()
    } else {
        words(text)[0]
    }
}

/// Whether a phrase, trimmed and in lower case, holds a space and starts
/// with the given word.
pub open spec fn phrase_starts_with(phrase: Seq<char>, word: Seq<char>) -> bool {
    let clean = lowercase(trimmed(phrase));
    clean.contains(' ') && first_word(clean) == word
}

/// Whether one of the user's phrases from `from` on has two words and
/// starts with the given word.
pub open spec fn starts_custom_pair_from(entries: Seq<PhraseEntry>, word: Seq<char>, from: int)
    -> bool
    decreases entries.len() - from,
{
    if from < 0 || from >= entries.len() {
        false
    } else if phrase_starts_with(entries[from].phrase, word) {
        true
    } else {
        starts_custom_pair_from(entries, word, from + 1)
    }
}

/// Whether a word, in lower case, is the first word of one of the user's
/// phrases of two words.
pub open spec fn starts_custom_pair(entries: Seq<PhraseEntry>, word: Seq<char>) -> bool {
    starts_custom_pair_from(entries, lowercase(word), 0)
}

/// The entries after the mappings of a file, from `from` on, were taken in
/// one by one: a mapping whose phrase holds no word is passed over; of the
/// others the phrase is reduced to two words at most.
pub open spec fn loaded_from(
    entries: Seq<PhraseEntry>,
    mappings: Seq<VoiceCommandMapping>,
    from: int,
) -> Seq<PhraseEntry>
    decreases mappings.len() - from,
{
    if from < 0 || from >= mappings.len() {
        entries
    } else if trimmed(mappings[from].phrase@).len() == 0 {
        loaded_from(entries, mappings, from + 1)
    } else {
        loaded_from(
            with_entry(
                entries,
                uppercase(mappings[from].command@),
                normalized_phrase(trimmed(mappings[from].phrase@)),
            ),
            mappings,
            from + 1,
        )
    }
}

/// What is kept with a stored phrase beside its code and the phrase: the
/// command as it was given, and when the mapping was made.
pub struct Record {
    /// The command as it was given when the phrase was stored.
    pub command: Seq<char>,
    /// When the mapping was made, in milliseconds since the Unix epoch.
    pub created_at: i64,
}

/// The records after one was stored for a code: it takes the place of the
/// one for the code where there is one; else it is added at the end.
pub open spec fn with_record(
    entries: Seq<PhraseEntry>,
    records: Seq<Record>,
    key: Seq<char>,
    record: Record,
) -> Seq<Record> {
    match position(entries, key) {
        Some(i) => records.update(i, record),
        None => records.push(record),
    }
}

/// The records without the one for a code.
pub open spec fn without_record(entries: Seq<PhraseEntry>, records: Seq<Record>, key: Seq<char>)
    -> Seq<Record> {
    match position(entries, key) {
        Some(i) => records.remove(i),
        None => records,
    }
}

/// The records after the mappings of a file, from `from` on, were taken in
/// one by one: each mapping that is taken in keeps its command and its
/// creation time.
pub open spec fn loaded_records_from(
    entries: Seq<PhraseEntry>,
    records: Seq<Record>,
    mappings: Seq<VoiceCommandMapping>,
    from: int,
) -> Seq<Record>
    decreases mappings.len() - from,
{
    if from < 0 || from >= mappings.len() {
        records
    } else if trimmed(mappings[from].phrase@).len() == 0 {
        loaded_records_from(entries, records, mappings, from + 1)
    } else {
        loaded_records_from(
            with_entry(
                entries,
                uppercase(mappings[from].command@),
                normalized_phrase(trimmed(mappings[from].phrase@)),
            ),
            with_record(
                entries,
                records,
                uppercase(mappings[from].command@),
                Record {
                    command: mappings[from].command@,
                    created_at: mappings[from].created_at,
                },
            ),
            mappings,
            from + 1,
        )
    }
}

/// Whether each record belongs to the entry in its place: the command
/// kept with a phrase is the code it is stored under, or becomes that code
/// in capitals.
pub open spec fn records_keyed(entries: Seq<PhraseEntry>, records: Seq<Record>) -> bool {
    &&& records.len() == entries.len()
    &&& forall|i: int|
        0 <= i < records.len() ==> (#[trigger] records[i]).command == entries[i].key || uppercase(
            records[i].command,
        ) == entries[i].key
}

/// What is stored with one code.
struct StoredPhrase {
    key: String,
    mapping: VoiceCommandMapping,
}

/// The user's phrases, each found under the code of its command.
pub struct VoiceCommandStore {
    stored: Vec<StoredPhrase>,
}

impl View for VoiceCommandStore {
    type V = Seq<PhraseEntry>;

    closed spec fn view(&self) -> Seq<PhraseEntry> {
        Seq::new(
            self.stored@.len(),
            |i: int| PhraseEntry { key: self.stored@[i].key@, phrase: self.stored@[i].mapping.phrase@ },
        )
    }
}

/// Storing a reduced phrase under a code in capitals keeps a store in
/// order: the codes stay apart, and the phrase in force for the code is
/// the new one.
pub proof fn lemma_with_entry_wf(entries: Seq<PhraseEntry>, key: Seq<char>, phrase: Seq<char>)
    requires
        store_wf(entries),
        is_normalized(phrase),
        is_code_key(key),
    ensures
        store_wf(with_entry(entries, key, phrase)),
        position(with_entry(entries, key, phrase), key) matches Some(at) && with_entry(
            entries,
            key,
            phrase,
        )[at].phrase == phrase,
{
    lemma_position(entries, key, 0);
    let after = with_entry(entries, key, phrase);
    lemma_position(after, key, 0);
    assert(entry_wf(PhraseEntry { key, phrase }));
    match position(entries, key) {
        Some(i) => {
            assert(after[i].key == key);
        },
        None => {
            assert(after[entries.len() as int].key == key);
        },
    }
}

/// Removing the entry of a code keeps a store in order and leaves no
/// entry for the code.
pub proof fn lemma_without_entry_wf(entries: Seq<PhraseEntry>, key: Seq<char>)
    requires
        store_wf(entries),
    ensures
        store_wf(without_entry(entries, key)),
        position(without_entry(entries, key), key) is None,
{
    lemma_position(entries, key, 0);
    let after = without_entry(entries, key);
    lemma_position(after, key, 0);
    match position(entries, key) {
        Some(i) => {
            assert forall|j: int| 0 <= j < after.len() implies (#[trigger] after[j]).key != key
                && entry_wf(after[j]) by {
                if j < i {
                    assert(after[j] == entries[j]);
                } else {
                    assert(after[j] == entries[j + 1]);
                }
            }
        },
        None => {},
    }
}

/// Overridden, never merged: while the user has a phrase for a command,
/// no spoken text is matched to that command by its default phrase.
pub proof fn lemma_custom_overrides_default(
    entries: Seq<PhraseEntry>,
    defaults: Seq<(Seq<char>, Seq<char>)>,
    spoken: Seq<char>,
    from: int,
    key: Seq<char>,
)
    requires
        position(entries, key) is Some,
        0 <= from <= defaults.len(),
    ensures
        default_match_from(entries, defaults, spoken, from) != Some(key),
    decreases defaults.len() - from,
{
    if from < defaults.len() {
        lemma_custom_overrides_default(entries, defaults, spoken, from + 1, key);
    }
}

/// Setting and reverting: the phrase in force for a command is the one
/// that was set for it last, and the default again once it was reverted.
pub proof fn lemma_phrase_in_force(
    entries: Seq<PhraseEntry>,
    command: Seq<char>,
    phrase: Seq<char>,
)
    requires
        store_wf(entries),
        is_normalized(phrase),
    ensures
        phrase_in_force(with_entry(entries, uppercase(command), phrase), command) == phrase,
        phrase_in_force(without_entry(entries, uppercase(command)), command) == phrase_in_force(
            Seq::empty(),
            command,
        ),
{
    lemma_with_entry_wf(entries, uppercase(command), phrase);
    lemma_without_entry_wf(entries, uppercase(command));
}

/// Where a code is found: at the first entry for it from `from` on, and
/// nowhere if no entry from `from` on is for it.
pub proof fn lemma_position(entries: Seq<PhraseEntry>, key: Seq<char>, from: int)
    requires
        0 <= from <= entries.len(),
    ensures
        match position_from(entries, key, from) {
            Some(i) => from <= i < entries.len() && entries[i].key == key && forall|j: int|
                from <= j < i ==> (#[trigger] entries[j]).key != key,
            None => forall|j: int| from <= j < entries.len() ==> (#[trigger] entries[j]).key != key,
        },
    decreases entries.len() - from,
{
    if from < entries.len() && entries[from].key != key {
        lemma_position(entries, key, from + 1);
    }
}

impl VoiceCommandStore {
    /// Whether no two stored phrases are for the same code.
    pub open spec fn wf(&self) -> bool {
        store_wf(self@)
    }

    /// What is kept with each stored phrase, in the order of the entries.
    pub closed spec fn records(&self) -> Seq<Record> {
        Seq::new(
            self.stored@.len(),
            |i: int|
                Record {
                    command: self.stored@[i].mapping.command@,
                    created_at: self.stored@[i].mapping.created_at,
                },
        )
    }

    /// Whether each stored command belongs to the code it is stored under.
    pub open spec fn keyed(&self) -> bool {
        records_keyed(self@, self.records())
    }

    /// A store without phrases of the user's.
    pub fn new() -> (store: VoiceCommandStore)
        ensures
            store@.len() == 0,
            store.records().len() == 0,
            store.wf(),
            store.keyed(),
    {
        VoiceCommandStore { stored: Vec::new() }
    }

    /// Where the phrase for a code is stored.
    fn find(&self, key: &str) -> (place: Option<usize>)
        ensures
            match place {
                Some(i) => position(self@, key@) == Some(i as int) && i < self.stored@.len(),
                None => position(self@, key@) is None,
            },
    {
        let mut i: usize = 0;
        while i < self.stored.len()
            invariant
                i <= self.stored@.len(),
                self@.len() == self.stored@.len(),
                position(self@, key@) == position_from(self@, key@, i as int),
            decreases self.stored@.len() - i,
        {
            if same_text(self.stored[i].key.as_str(), key) {
                return Some(i);
            }
            i += 1;
        }
        None
    }

    /// Puts a phrase in the place of the one stored for the code, or adds it.
    fn put(&mut self, key: String, mapping: VoiceCommandMapping)
        requires
            old(self).wf(),
            is_normalized(mapping.phrase@),
            is_code_key(key@),
        ensures
            final(self)@ == with_entry(old(self)@, key@, mapping.phrase@),
            final(self).records() == with_record(
                old(self)@,
                old(self).records(),
                key@,
                Record { command: mapping.command@, created_at: mapping.created_at },
            ),
            final(self).wf(),
            old(self).keyed() && (mapping.command@ == key@ || uppercase(mapping.command@) == key@)
                ==> final(self).keyed(),
    {
        proof {
            lemma_with_entry_wf(self@, key@, mapping.phrase@);
        }
        let place = self.find(key.as_str());
        let ghost before = self@;
        let ghost kept = self.records();
        let ghost record = Record { command: mapping.command@, created_at: mapping.created_at };
        match place {
            Some(i) => {
                self.stored.set(i, StoredPhrase { key, mapping });
                assert(self@ =~= before.update(
                    i as int,
                    PhraseEntry { key: key@, phrase: mapping.phrase@ },
                ));
                assert(self.records() =~= kept.update(i as int, record));
            },
            None => {
                self.stored.push(StoredPhrase { key, mapping });
                assert(self@ =~= before.push(PhraseEntry { key: key@, phrase: mapping.phrase@ }));
                assert(self.records() =~= kept.push(record));
            },
        }
    }

    /// Replaces what is stored by the mappings of a file. A mapping whose
    /// phrase holds no word is passed over; where several are for one
    /// command, the last one counts.
    pub fn load(&mut self, mappings: Vec<VoiceCommandMapping>)
        ensures
            final(self)@ == loaded_from(Seq::empty(), mappings@, 0),
            final(self).records() == loaded_records_from(
                Seq::empty(),
                Seq::empty(),
                mappings@,
                0,
            ),
            final(self).wf(),
            final(self).keyed(),
    {
        self.stored = Vec::new();
        assert(self@ =~= Seq::<PhraseEntry>::empty());
        assert(self.records() =~= Seq::<Record>::empty());
        let mut i: usize = 0;
        while i < mappings.len()
            invariant
                i <= mappings@.len(),
                self.wf(),
                self.keyed(),
                loaded_from(self@, mappings@, i as int) == loaded_from(
                    Seq::empty(),
                    mappings@,
                    0,
                ),
                loaded_records_from(self@, self.records(), mappings@, i as int)
                    == loaded_records_from(Seq::empty(), Seq::empty(), mappings@, 0),
            decreases mappings@.len() - i,
        {
            let phrase = trim(mappings[i].phrase.as_str());
            if phrase.as_str().unicode_len() > 0 {
                let key = mappings[i].command.as_str().to_uppercase();
                let mapping = VoiceCommandMapping {
                    phrase: normalize_phrase(phrase.as_str()),
                    command: mappings[i].command.clone(),
                    created_at: mappings[i].created_at,
                };
                self.put(key, mapping);
            }
            i += 1;
        }
    }

    /// The stored mappings, in the order in which they are stored: each
    /// with its phrase as it is in force, and with the command and the
    /// creation time that are kept with it.
    pub fn mappings(&self) -> (out: Vec<VoiceCommandMapping>)
        ensures
            out@.len() == self@.len(),
            out@.len() == self.records().len(),
            forall|i: int|
                0 <= i < out@.len() ==> {
                    &&& (#[trigger] out@[i]).phrase@ == self@[i].phrase
                    &&& out@[i].command@ == self.records()[i].command
                    &&& out@[i].created_at == self.records()[i].created_at
                },
            self.keyed() ==> forall|i: int|
                0 <= i < out@.len() ==> (#[trigger] out@[i]).command@ == self@[i].key || uppercase(
                    out@[i].command@,
                ) == self@[i].key,
    {
        let mut out: Vec<VoiceCommandMapping> = Vec::new();
        let mut i: usize = 0;
        while i < self.stored.len()
            invariant
                i <= self.stored@.len(),
                self@.len() == self.stored@.len(),
                self.records().len() == self.stored@.len(),
                out@.len() == i,
                forall|j: int|
                    0 <= j < i ==> {
                        &&& (#[trigger] out@[j]).phrase@ == self@[j].phrase
                        &&& out@[j].command@ == self.records()[j].command
                        &&& out@[j].created_at == self.records()[j].created_at
                    },
            decreases self.stored@.len() - i,
        {
            out.push(self.stored[i].mapping.duplicate());
            i += 1;
        }
        out
    }

    /// The phrase in force for a command: the user's, else the default,
    /// else the command's name in lower case.
    pub fn get_phrase(&self, command: &str) -> (phrase: String)
        ensures
            phrase@ == phrase_in_force(self@, command@),
    {
        let key = command.to_uppercase();
        match self.find(key.as_str()) {
            Some(i) => self.stored[i].mapping.phrase.clone(),
            None => {
                let defaults = default_phrase_table();
                let mut i: usize = 0;
                while i < defaults.len()
                    invariant
                        i <= defaults@.len(),
                        pairs_view(defaults@) == default_phrases(),
                        key@ == uppercase(command@),
                        position(self@, key@) is None,
                        default_from(default_phrases(), key@, 0) == default_from(
                            default_phrases(),
                            key@,
                            i as int,
                        ),
                    decreases defaults@.len() - i,
                {
                    assert(pairs_view(defaults@)[i as int] == (defaults@[i as int].0@, defaults@[i as int].1@));
                    if same_text(defaults[i].0, key.as_str()) {
                        return String::from_str(defaults[i].1);
                    }
                    i += 1;
                }
                command.to_lowercase()
            },
        }
    }

    /// Whether the user has a phrase of their own for the command.
    pub fn has_custom_phrase(&self, command: &str) -> (custom: bool)
        ensures
            custom == position(self@, uppercase(command@)) is Some,
    {
        let key = command.to_uppercase();
        self.find(key.as_str()).is_some()
    }

    /// Stores a phrase of the user's for a command, as made at the given
    /// time: the phrase is reduced to its last two words at most, and the
    /// command is kept in capitals. A phrase without a word is refused and
    /// nothing changes.
    pub fn set_phrase_at(&mut self, command: &str, phrase: &str, created_at: i64) -> (done: Result<
        (),
        PhraseError,
    >)
        requires
            old(self).wf(),
        ensures
            final(self).wf(),
            old(self).keyed() ==> final(self).keyed(),
            normalized_phrase(phrase@).len() == 0 ==> done == Err::<(), PhraseError>(
                PhraseError::EmptyPhrase,
            ) && final(self)@ == old(self)@ && final(self).records() == old(self).records(),
            normalized_phrase(phrase@).len() != 0 ==> done is Ok && final(self)@ == with_entry(
                old(self)@,
                uppercase(command@),
                normalized_phrase(phrase@),
            ) && final(self).records() == with_record(
                old(self)@,
                old(self).records(),
                uppercase(command@),
                Record { command: uppercase(command@), created_at },
            ),
    {
        let key = command.to_uppercase();
        let reduced = normalize_phrase(phrase);
        if reduced.as_str().unicode_len() == 0 {
            return Err(PhraseError::EmptyPhrase);
        }
        let mapping = VoiceCommandMapping::at(reduced, key.clone(), created_at);
        self.put(key, mapping);
        Ok(())
    }

    /// Stores a phrase of the user's for a command, made now by the
    /// system clock: see `set_phrase_at`.
    pub fn set_phrase(&mut self, command: &str, phrase: &str) -> (done: Result<(), PhraseError>)
        requires
            old(self).wf(),
        ensures
            final(self).wf(),
            old(self).keyed() ==> final(self).keyed(),
            normalized_phrase(phrase@).len() == 0 ==> done == Err::<(), PhraseError>(
                PhraseError::EmptyPhrase,
            ) && final(self)@ == old(self)@ && final(self).records() == old(self).records(),
            normalized_phrase(phrase@).len() != 0 ==> done is Ok && final(self)@ == with_entry(
                old(self)@,
                uppercase(command@),
                normalized_phrase(phrase@),
            ) && exists|created_at: i64|
                final(self).records() == #[trigger] with_record(
                    old(self)@,
                    old(self).records(),
                    uppercase(command@),
                    (Record { command: uppercase(command@), created_at }),
                ),
    {
        self.set_phrase_at(command, phrase, creation_time_of(read_clock()))
    }

    /// Forgets the user's phrase for a command, so that the default is in
    /// force again.
    pub fn revert_to_default(&mut self, command: &str)
        requires
            old(self).wf(),
        ensures
            final(self).wf(),
            final(self)@ == without_entry(old(self)@, uppercase(command@)),
            final(self).records() == without_record(
                old(self)@,
                old(self).records(),
                uppercase(command@),
            ),
            old(self).keyed() ==> final(self).keyed(),
    {
        let key = command.to_uppercase();
        proof {
            lemma_without_entry_wf(self@, key@);
        }
        let ghost before = self@;
        let ghost kept = self.records();
        match self.find(key.as_str()) {
            Some(i) => {
                let _ = self.stored.remove(i);
                assert(self@ =~= before.remove(i as int));
                assert(self.records() =~= kept.remove(i as int));
            },
            None => {},
        }
    }

    /// Every built-in command with the phrase in force for it, in the
    /// order of the defaults.
    pub fn get_all_commands(&self) -> (all: Vec<CommandInfo>)
        ensures
            all@.len() == default_phrases().len(),
            forall|i: int|
                0 <= i < all@.len() ==> {
                    &&& (#[trigger] all@[i]).command@ == default_phrases()[i].0
                    &&& all@[i].default_phrase@ == default_phrases()[i].1
                    &&& all@[i].is_custom == position(self@, default_phrases()[i].0) is Some
                    &&& all@[i].phrase@ == match position(self@, default_phrases()[i].0) {
                        Some(at) => self@[at].phrase,
                        None => default_phrases()[i].1,
                    }
                },
    {
        let defaults = default_phrase_table();
        let mut all: Vec<CommandInfo> = Vec::new();
        let mut i: usize = 0;
        while i < defaults.len()
            invariant
                i <= defaults@.len(),
                pairs_view(defaults@) == default_phrases(),
                all@.len() == i,
                forall|j: int|
                    0 <= j < i ==> {
                        &&& (#[trigger] all@[j]).command@ == default_phrases()[j].0
                        &&& all@[j].default_phrase@ == default_phrases()[j].1
                        &&& all@[j].is_custom == position(self@, default_phrases()[j].0) is Some
                        &&& all@[j].phrase@ == match position(self@, default_phrases()[j].0) {
                            Some(at) => self@[at].phrase,
                            None => default_phrases()[j].1,
                        }
                    },
            decreases defaults@.len() - i,
        {
            assert(pairs_view(defaults@)[i as int] == (defaults@[i as int].0@, defaults@[i as int].1@));
            let place = self.find(defaults[i].0);
            let info = match place {
                Some(at) => CommandInfo {
                    command: String::from_str(defaults[i].0),
                    phrase: self.stored[at].mapping.phrase.clone(),
                    is_custom: true,
                    default_phrase: String::from_str(defaults[i].1),
                },
                None => CommandInfo {
                    command: String::from_str(defaults[i].0),
                    phrase: String::from_str(defaults[i].1),
                    is_custom: false,
                    default_phrase: String::from_str(defaults[i].1),
                },
            };
            all.push(info);
            i += 1;
        }
        all
    }

    /// The code of the command that a spoken text stands for, if any.
    pub fn match_phrase(&self, spoken: &str) -> (code: Option<String>)
        ensures
            match code {
                Some(found) => matched_code(self@, spoken@) == Some(found@),
                None => matched_code(self@, spoken@) is None,
            },
    {
        let inner = trim(spoken);
        let wanted = inner.as_str().to_lowercase();
        let mut i: usize = 0;
        while i < self.stored.len()
            invariant
                i <= self.stored@.len(),
                self@.len() == self.stored@.len(),
                wanted@ == lowercase(trimmed(spoken@)),
                custom_match_from(self@, wanted@, 0) == custom_match_from(self@, wanted@, i as int),
            decreases self.stored@.len() - i,
        {
            let clean = trim(self.stored[i].mapping.phrase.as_str());
            let lower = clean.as_str().to_lowercase();
            if same_text(lower.as_str(), wanted.as_str()) {
                return Some(self.stored[i].key.clone());
            }
            i += 1;
        }
        let defaults = default_phrase_table();
        let mut k: usize = 0;
        while k < defaults.len()
            invariant
                k <= defaults@.len(),
                pairs_view(defaults@) == default_phrases(),
                wanted@ == lowercase(trimmed(spoken@)),
                custom_match_from(self@, wanted@, 0) is None,
                default_match_from(self@, default_phrases(), wanted@, 0) == default_match_from(
                    self@,
                    default_phrases(),
                    wanted@,
                    k as int,
                ),
            decreases defaults@.len() - k,
        {
            assert(pairs_view(defaults@)[k as int] == (defaults@[k as int].0@, defaults@[k as int].1@));
            if self.find(defaults[k].0).is_none() && same_text(defaults[k].1, wanted.as_str()) {
                return Some(String::from_str(defaults[k].0));
            }
            k += 1;
        }
        None
    }

    /// Whether a word is the first word of one of the user's phrases of two
    /// words.
    pub fn could_start_two_word_command(&self, word: &str) -> (could: bool)
        ensures
            could == starts_custom_pair(self@, word@),
    {
        let wanted = word.to_lowercase();
        let mut i: usize = 0;
        while i < self.stored.len()
            invariant
                i <= self.stored@.len(),
                self@.len() == self.stored@.len(),
                wanted@ == lowercase(word@),
                starts_custom_pair_from(self@, wanted@, 0) == starts_custom_pair_from(
                    self@,
                    wanted@,
                    i as int,
                ),
            decreases self.stored@.len() - i,
        {
            let clean = trim(self.stored[i].mapping.phrase.as_str());
            let lower = clean.as_str().to_lowercase();
            if has_char(lower.as_str(), ' ') {
                let parts = split_words(lower.as_str());
                assert(strings_view(parts@).len() == parts@.len());
                if parts.len() > 0 {
                    assert(strings_view(parts@)[0] == parts@[0]@);
                    if same_text(parts[0].as_str(), wanted.as_str()) {
                        return true;
                    }
                } else if wanted.as_str().unicode_len() == 0 {
                    assert(wanted@ =~= Seq::<char>::empty());
                    return true;
                }
            }
            i += 1;
        }
        false
    }
}

} // verus!
