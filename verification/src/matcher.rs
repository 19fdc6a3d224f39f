//! Finding commands in dictated text: a whole text that is a command, a
//! command word inside a sentence, and commands of two words.

use vstd::prelude::*;
use crate::commands::{parsed_command, VoiceCommand};
use crate::text::{
    chars_of, has_char, lemma_run_end_bounds, lowercase, run_end, same_text, scan_run,
    split_words, string_of, strings_view, strip_closing_marks, trim, trimmed,
    without_closing_marks,
};
use crate::voice_commands::{
    default_from, first_word, matched_code, pairs_view, starts_custom_pair, PhraseEntry,
    VoiceCommandStore,
};

verus! {

/// The built-in phrases of two words with the codes they stand for, in the
/// order in which they are tried.
pub open spec fn default_two_word_phrases() -> Seq<(Seq<char>, Seq<char>)> {
    seq![("select all"@, "SELECT_ALL"@), ("new line"@, "ENTER"@), ("go back"@, "BACKSPACE"@)]
}

/// The built-in phrases of two words with the codes they stand for.
pub fn default_two_word_table() -> (table: Vec<(&'static str, &'static str)>)
    ensures
        pairs_view(table@) == default_two_word_phrases(),
{
    let mut table: Vec<(&'static str, &'static str)> = Vec::new();
    table.push(("select all", "SELECT_ALL"));
    table.push(("new line", "ENTER"));
    table.push(("go back", "BACKSPACE"));
    assert(pairs_view(table@) =~= default_two_word_phrases());
    table
}

/// A piece of dictated text: text to type, or a command to carry out.
pub enum Segment {
    /// Text to type as it stands.
    Text(Seq<char>),
    /// A command to carry out.
    Command(VoiceCommand),
}

/// A piece of dictated text: text to type, or a command to carry out.
#[derive(Debug)]
pub enum TextSegment {
    /// Text to type as it stands.
    Text(String),
    /// A command to carry out.
    Command(VoiceCommand),
}

impl View for TextSegment {
    type V = Segment;

    open spec fn view(&self) -> Segment {
        match self {
            TextSegment::Text(text) => Segment::Text(text@),
            TextSegment::Command(command) => Segment::Command(*command),
        }
    }
}

/// The pieces that a run of segments stands for.
pub open spec fn segments_view(segments: Seq<TextSegment>) -> Seq<Segment> {
    Seq::new(segments.len(), |i: int| segments[i]@)
}

/// How a dictated text is to be handled.
pub enum Match {
    /// The whole text is one command.
    ExactCommand(VoiceCommand),
    /// The text holds no command: all of it is typed.
    NoMatch,
    /// The text holds a command: its pieces, in order.
    MidTextCommand(Seq<Segment>),
}

/// How a dictated text is to be handled.
#[derive(Debug)]
pub enum MatchResult {
    /// The whole text is one command.
    ExactCommand(VoiceCommand),
    /// The text holds no command: all of it is typed.
    NoMatch,
    /// The text holds a command: its pieces, in order.
    MidTextCommand(Vec<TextSegment>),
}

impl View for MatchResult {
    type V = Match;

    open spec fn view(&self) -> Match {
        match self {
            MatchResult::ExactCommand(command) => Match::ExactCommand(*command),
            MatchResult::NoMatch => Match::NoMatch,
            MatchResult::MidTextCommand(segments) => Match::MidTextCommand(segments_view(segments@)),
        }
    }
}

/// A word as it is compared with phrases: trimmed, without the closing
/// marks at its end, in lower case.
pub open spec fn normalized_word(word: Seq<char>) -> Seq<char> {
    lowercase(without_closing_marks(trimmed(word)))
}

/// The command that a whole text stands for: by the phrases first; a text
/// that is no phrase may still be the code of a command.
pub open spec fn exact_command(entries: Seq<PhraseEntry>, text: Seq<char>) -> Option<VoiceCommand> {
    match matched_code(entries, text) {
        Some(code) => parsed_command(code),
        None => parsed_command(text),
    }
}

/// The command that one word of a sentence stands for, by the phrases.
pub open spec fn word_command(entries: Seq<PhraseEntry>, word: Seq<char>) -> Option<VoiceCommand> {
    match matched_code(entries, word) {
        Some(code) => parsed_command(code),
        None => None,
    }
}

/// The text gathered so far as a piece, unless it is empty.
pub open spec fn flushed(pending: Seq<char>) -> Seq<Segment> {
    if pending.len() == 0 {
        Seq::empty()
    } else {
        seq![Segment::Text(pending)]
    }
}

/// The pieces of the text from `from` on, where `pending` is text gathered
/// before and not yet given out. Each word that stands for a command
/// becomes a command piece; everything else, white space included, stays
/// text in its place.
pub open spec fn segments_from(
    entries: Seq<PhraseEntry>,
    text: Seq<char>,
    from: int,
    pending: Seq<char>,
) -> Seq<Segment>
    decreases text.len() - from,
{
    let start = run_end(text, from, true);
    if from < 0 || from > text.len() {
        flushed(pending)
    } else if start >= text.len() {
        flushed(pending + text.subrange(from, text.len() as int))
    } else {
        let end = run_end(text, start, false);
        proof {
            lemma_run_end_bounds(text, from, true);
            lemma_run_end_bounds(text, start, false);
        }
        match word_command(entries, text.subrange(start, end)) {
            Some(command) => flushed(pending + text.subrange(from, start)) + seq![
                Segment::Command(command),
            ] + segments_from(entries, text, end, Seq::empty()),
            None => segments_from(entries, text, end, pending + text.subrange(from, end)),
        }
    }
}

/// Whether one of the pieces is a command.
pub open spec fn holds_command(segments: Seq<Segment>) -> bool {
    exists|i: int| 0 <= i < segments.len() && #[trigger] segments[i] is Command
}

/// How a dictated text is to be handled: as one command where the whole
/// of it, trimmed, stands for one; else piece by piece where one of its
/// words stands for a command; else as plain text.
pub open spec fn match_of(entries: Seq<PhraseEntry>, input: Seq<char>) -> Match {
    match exact_command(entries, trimmed(input)) {
        Some(command) => Match::ExactCommand(command),
        None => {
            let pieces = segments_from(entries, input, 0, Seq::empty());
            if holds_command(pieces) {
                Match::MidTextCommand(pieces)
            } else {
                Match::NoMatch
            }
        },
    }
}

/// The code that two words, one after the other, stand for: by the phrases
/// first, then by the built-in phrases of two words.
pub open spec fn two_word_code(entries: Seq<PhraseEntry>, first: Seq<char>, second: Seq<char>)
    -> Option<Seq<char>> {
    let phrase = normalized_word(first) + seq![' '] + normalized_word(second);
    match matched_code(entries, phrase) {
        Some(code) => Some(code),
        None => default_from(default_two_word_phrases(), phrase, 0),
    }
}

/// Whether one of the built-in phrases of two words from `from` on starts
/// with the given word.
pub open spec fn starts_default_pair_from(
    defaults: Seq<(Seq<char>, Seq<char>)>,
    word: Seq<char>,
    from: int,
) -> bool
    decreases defaults.len() - from,
{
    if from < 0 || from >= defaults.len() {
        false
    } else if word.is_prefix_of(defaults[from].0) && defaults[from].0.contains(' ') && first_word(
        defaults[from].0,
    ) == word {
        true
    } else {
        starts_default_pair_from(defaults, word, from + 1)
    }
}

/// Whether a word may be the first of a command of two words, built-in or
/// the user's.
pub open spec fn starts_pair(entries: Seq<PhraseEntry>, word: Seq<char>) -> bool {
    starts_default_pair_from(default_two_word_phrases(), normalized_word(word), 0)
        || starts_custom_pair(entries, normalized_word(word))
}

/// No piece of the first run and none of the second is a command exactly
/// when none of the two runs joined is.
pub proof fn lemma_holds_command_concat(left: Seq<Segment>, right: Seq<Segment>)
    ensures
        holds_command(left + right) == (holds_command(left) || holds_command(right)),
{
    let both = left + right;
    if holds_command(left) {
        let i = choose|i: int| 0 <= i < left.len() && #[trigger] left[i] is Command;
        assert(both[i] is Command);
    }
    if holds_command(right) {
        let i = choose|i: int| 0 <= i < right.len() && #[trigger] right[i] is Command;
        assert(both[left.len() + i] is Command);
    }
    if holds_command(both) {
        let i = choose|i: int| 0 <= i < both.len() && #[trigger] both[i] is Command;
        if i < left.len() {
            assert(left[i] is Command);
        } else {
            assert(right[i - left.len()] is Command);
        }
    }
}

/// Looks for commands in dictated text by the phrases of a store.
pub struct CombinedMatcher<'a> {
    store: &'a VoiceCommandStore,
}

impl<'a> View for CombinedMatcher<'a> {
    type V = Seq<PhraseEntry>;

    closed spec fn view(&self) -> Seq<PhraseEntry> {
        self.store@
    }
}

/// Adds the characters from `from` up to `to` to the gathered text.
fn gather(pending: &mut Vec<char>, chars: &Vec<char>, from: usize, to: usize)
    requires
        from <= to <= chars.len(),
    ensures
        final(pending)@ == old(pending)@ + chars@.subrange(from as int, to as int),
{
    let mut i: usize = from;
    assert(pending@ =~= old(pending)@ + chars@.subrange(from as int, from as int));
    while i < to
        invariant
            from <= i <= to <= chars.len(),
            pending@ == old(pending)@ + chars@.subrange(from as int, i as int),
        decreases to - i,
    {
        pending.push(chars[i]);
        assert(pending@ =~= old(pending)@ + chars@.subrange(from as int, i + 1));
        i += 1;
    }
}

/// Gives the gathered text out as a piece, unless it is empty.
fn flush(segments: &mut Vec<TextSegment>, pending: &Vec<char>)
    ensures
        segments_view(final(segments)@) == segments_view(old(segments)@) + flushed(pending@),
{
    if pending.len() > 0 {
        let text = string_of(pending, 0, pending.len());
        assert(text@ =~= pending@);
        segments.push(TextSegment::Text(text));
        assert(segments_view(segments@) =~= segments_view(old(segments)@) + flushed(pending@));
    } else {
        assert(segments_view(segments@) =~= segments_view(old(segments)@) + flushed(pending@));
    }
}

/// Whether the characters of `prefix` are the first characters of `text`.
fn starts_with(text: &str, prefix: &str) -> (starts: bool)
    ensures
        starts == prefix@.is_prefix_of(text@),
{
    let whole = chars_of(text);
    let head = chars_of(prefix);
    if head.len() > whole.len() {
        return false;
    }
    let mut i: usize = 0;
    while i < head.len()
        invariant
            i <= head.len() <= whole.len(),
            whole@ == text@,
            head@ == prefix@,
            forall|j: int| 0 <= j < i ==> head@[j] == whole@[j],
        decreases head.len() - i,
    {
        if head[i] != whole[i] {
            assert(head@[i as int] != whole@.subrange(0, head@.len() as int)[i as int]);
            return false;
        }
        i += 1;
    }
    assert(head@ =~= whole@.subrange(0, head@.len() as int));
    true
}

impl<'a> CombinedMatcher<'a> {
    /// A matcher that goes by the phrases of the given store.
    pub fn new(store: &'a VoiceCommandStore) -> (matcher: CombinedMatcher<'a>)
        ensures
            matcher@ == store@,
    {
        CombinedMatcher { store }
    }

    /// A word as it is compared with phrases.
    pub fn normalize_for_matching(word: &str) -> (out: String)
        ensures
            out@ == normalized_word(word@),
    {
        let inner = trim(word);
        let bare = strip_closing_marks(inner.as_str());
        bare.as_str().to_lowercase()
    }

    /// The command that a whole text stands for, as a phrase or as a code.
    pub fn match_input(&self, input: &str) -> (command: Option<VoiceCommand>)
        ensures
            command == exact_command(self@, input@),
    {
        match self.store.match_phrase(input) {
            Some(code) => VoiceCommand::parse(code.as_str()),
            None => VoiceCommand::parse(input),
        }
    }

    /// The command that one word of a sentence stands for.
    fn match_word(&self, word: &str) -> (command: Option<VoiceCommand>)
        ensures
            command == word_command(self@, word@),
    {
        match self.store.match_phrase(word) {
            Some(code) => VoiceCommand::parse(code.as_str()),
            None => None,
        }
    }

    /// Decides how a dictated text is to be handled. A word that stands for
    /// a command is never typed; all other text keeps its place and its
    /// spacing.
    pub fn match_with_context(&self, input: &str) -> (result: MatchResult)
        ensures
            result@ == match_of(self@, input@),
    {
        let inner = trim(input);
        if let Some(command) = self.match_input(inner.as_str()) {
            return MatchResult::ExactCommand(command);
        }
        let chars = chars_of(input);
        let mut segments: Vec<TextSegment> = Vec::new();
        let mut pending: Vec<char> = Vec::new();
        let mut found: bool = false;
        let mut pos: usize = 0;
        let ghost all = segments_from(self@, chars@, 0, Seq::empty());
        assert(segments_view(segments@) + all =~= all);
        assert(!holds_command(segments_view(segments@)));
        loop
            invariant_except_break
                segments_view(segments@) + segments_from(self@, chars@, pos as int, pending@)
                    == all,
            invariant
                pos <= chars.len(),
                chars@ == input@,
                all == segments_from(self@, chars@, 0, Seq::empty()),
                found == holds_command(segments_view(segments@)),
            ensures
                segments_view(segments@) == all,
                found == holds_command(all),
            decreases chars.len() - pos,
        {
            let start = scan_run(&chars, pos, true);
            let ghost before = segments_view(segments@);
            let ghost gathered = pending@;
            if start >= chars.len() {
                gather(&mut pending, &chars, pos, chars.len());
                flush(&mut segments, &pending);
                proof {
                    lemma_holds_command_concat(before, flushed(pending@));
                }
                break;
            }
            proof {
                lemma_run_end_bounds(chars@, pos as int, true);
                lemma_run_end_bounds(chars@, start as int, false);
            }
            let end = scan_run(&chars, start, false);
            let word = string_of(&chars, start, end);
            match self.match_word(word.as_str()) {
                Some(command) => {
                    gather(&mut pending, &chars, pos, start);
                    flush(&mut segments, &pending);
                    let ghost middle = segments_view(segments@);
                    let ghost piece = seq![Segment::Command(command)];
                    segments.push(TextSegment::Command(command));
                    assert(segments_view(segments@) =~= middle + piece);
                    proof {
                        lemma_holds_command_concat(middle, piece);
                        assert(piece[0] is Command);
                        let rest = segments_from(self@, chars@, end as int, Seq::empty());
                        assert(segments_from(self@, chars@, pos as int, gathered) == flushed(
                            pending@,
                        ) + piece + rest);
                        assert(before + (flushed(pending@) + piece + rest) =~= (middle + piece)
                            + rest);
                    }
                    pending = Vec::new();
                    found = true;
                },
                None => {
                    gather(&mut pending, &chars, pos, end);
                },
            }
            pos = end;
        }
        if found {
            MatchResult::MidTextCommand(segments)
        } else {
            MatchResult::NoMatch
        }
    }

    /// The code of the command that one word stands for, closing marks at
    /// its end set aside.
    pub fn match_single_word(&self, word: &str) -> (code: Option<String>)
        ensures
            match code {
                Some(found) => matched_code(self@, normalized_word(word@)) == Some(found@),
                None => matched_code(self@, normalized_word(word@)) is None,
            },
    {
        let clean = CombinedMatcher::normalize_for_matching(word);
        self.store.match_phrase(clean.as_str())
    }

    /// The code of the command that two words, one after the other, stand
    /// for.
    pub fn match_two_words(&self, word1: &str, word2: &str) -> (code: Option<String>)
        ensures
            match code {
                Some(found) => two_word_code(self@, word1@, word2@) == Some(found@),
                None => two_word_code(self@, word1@, word2@) is None,
            },
    {
        let mut phrase = CombinedMatcher::normalize_for_matching(word1);
        phrase.push(' ');
        let second = CombinedMatcher::normalize_for_matching(word2);
        phrase.append(second.as_str());
        assert(phrase@ =~= normalized_word(word1@) + seq![' '] + normalized_word(word2@));
        if let Some(code) = self.store.match_phrase(phrase.as_str()) {
            return Some(code);
        }
        let defaults = default_two_word_table();
        let mut i: usize = 0;
        while i < defaults.len()
            invariant
                i <= defaults@.len(),
                pairs_view(defaults@) == default_two_word_phrases(),
                phrase@ == normalized_word(word1@) + seq![' '] + normalized_word(word2@),
                matched_code(self@, phrase@) is None,
                default_from(default_two_word_phrases(), phrase@, 0) == default_from(
                    default_two_word_phrases(),
                    phrase@,
                    i as int,
                ),
            decreases defaults@.len() - i,
        {
            assert(pairs_view(defaults@)[i as int] == (
                defaults@[i as int].0@,
                defaults@[i as int].1@,
            ));
            if same_text(defaults[i].0, phrase.as_str()) {
                return Some(String::from_str(defaults[i].1));
            }
            i += 1;
        }
        None
    }

    /// Whether a word may be the first of a command of two words, so that
    /// the next word has to be awaited.
    pub fn could_start_two_word_command(&self, word: &str) -> (could: bool)
        ensures
            could == starts_pair(self@, word@),
    {
        let clean = CombinedMatcher::normalize_for_matching(word);
        let defaults = default_two_word_table();
        let mut i: usize = 0;
        while i < defaults.len()
            invariant
                i <= defaults@.len(),
                pairs_view(defaults@) == default_two_word_phrases(),
                clean@ == normalized_word(word@),
                starts_default_pair_from(default_two_word_phrases(), clean@, 0)
                    == starts_default_pair_from(default_two_word_phrases(), clean@, i as int),
            decreases defaults@.len() - i,
        {
            assert(pairs_view(defaults@)[i as int] == (
                defaults@[i as int].0@,
                defaults@[i as int].1@,
            ));
            if starts_with(defaults[i].0, clean.as_str()) && has_char(defaults[i].0, ' ') {
                let parts = split_words(defaults[i].0);
                assert(strings_view(parts@).len() == parts@.len());
                if parts.len() > 0 {
                    assert(strings_view(parts@)[0] == parts@[0]@);
                    if same_text(parts[0].as_str(), clean.as_str()) {
                        return true;
                    }
                } else if clean.as_str().unicode_len() == 0 {
                    assert(clean@ =~= Seq::<char>::empty());
                    return true;
                }
            }
            i += 1;
        }
        self.store.could_start_two_word_command(clean.as_str())
    }
}

} // verus!
