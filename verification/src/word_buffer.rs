//! Words that arrive one by one: a word that may start a command of two
//! words is held back until the next word arrives or a short time has
//! passed.

use vstd::prelude::*;
use std::time::{Duration, Instant};

verus! {

/// How long a word is held back for a second word, in milliseconds.
pub const LOOK_AHEAD_TIMEOUT_MS: u128 = 100u128;

/// A point in time of the monotonic clock. Nothing is known of its value.
#[verifier::external_type_specification]
#[verifier::external_body]
pub struct ExInstant(Instant);

/// `Instant::now` of std: the present moment. Nothing is claimed of it.
pub assume_specification[ Instant::now ]() -> Instant;

/// `Instant::elapsed` of std: the time since that moment. Nothing is
/// claimed of it.
pub assume_specification[ Instant::elapsed ](since: &Instant) -> Duration;

/// `Duration::as_millis` of std: the whole milliseconds in the duration.
/// Nothing is claimed of the number.
pub assume_specification[ Duration::as_millis ](length: &Duration) -> u128;

/// What comes out of the buffer: text to type, or the code of a command.
pub enum Item {
    /// Text to type, with the space that follows the word.
    Text(Seq<char>),
    /// The code of a command to carry out.
    Command(Seq<char>),
}

/// What comes out of the buffer: text to type, or the code of a command.
#[derive(Debug, Clone, PartialEq, Eq)]
pub enum ProcessedItem {
    /// Text to type, with the space that follows the word.
    Text(String),
    /// The code of a command to carry out.
    Command(String),
}

impl View for ProcessedItem {
    type V = Item;

    open spec fn view(&self) -> Item {
        match self {
            ProcessedItem::Text(text) => Item::Text(text@),
            ProcessedItem::Command(code) => Item::Command(code@),
        }
    }
}

/// What a run of items stands for.
pub open spec fn items_view(items: Seq<ProcessedItem>) -> Seq<Item> {
    Seq::new(items.len(), |i: int| items[i]@)
}

/// What an optional text holds.
pub open spec fn text_view(text: Option<String>) -> Option<Seq<char>> {
    match text {
        Some(inner) => Some(inner@),
        None => None,
    }
}

/// What the buffer remembers: the session it works for and the word it
/// holds back, if any. It never holds more than one word.
pub struct Buffered {
    /// The session of the last word.
    pub session: Option<Seq<char>>,
    /// The word held back.
    pub pending: Option<Seq<char>>,
}

/// The buffer without session and without word.
pub open spec fn cleared() -> Buffered {
    Buffered { session: None, pending: None }
}

/// A word as it is typed: the word and one space.
pub open spec fn spaced(word: Seq<char>) -> Seq<char> {
    word + seq![' ']
}

/// The word that is still held back when a word of the given session
/// arrives: a word of another session is dropped.
pub open spec fn pending_for(before: Buffered, session: Seq<char>) -> Option<Seq<char>> {
    if before.session == Some(session) {
        before.pending
    } else {
        None
    }
}

/// What a word does to the buffer and what comes out, given what the three
/// lookups answer: `pair` for the word held back followed by the new word
/// as a command of two words, `starts` for whether the new word may start
/// such a command, `single` for the new word alone as a command.
pub open spec fn word_outcome(
    before: Buffered,
    word: Seq<char>,
    session: Seq<char>,
    pair: Option<Seq<char>>,
    starts: bool,
    single: Option<Seq<char>>,
) -> (Buffered, Seq<Item>) {
    let held = pending_for(before, session);
    let empty = Buffered { session: Some(session), pending: None };
    if held is Some && pair is Some {
        (empty, seq![Item::Command(pair->0)])
    } else {
        let head = match held {
            Some(old_word) => seq![Item::Text(spaced(old_word))],
            None => Seq::empty(),
        };
        if starts {
            (Buffered { session: Some(session), pending: Some(word) }, head)
        } else {
            match single {
                Some(code) => (empty, head + seq![Item::Command(code)]),
                None => (empty, head + seq![Item::Text(spaced(word))]),
            }
        }
    }
}

/// What a flush does to the buffer and what comes out, given how long the
/// word has been held back and what the lookup answers for it alone.
pub open spec fn flush_outcome(before: Buffered, waited_ms: u128, single: Option<Seq<char>>) -> (
    Buffered,
    Seq<Item>,
) {
    match before.pending {
        Some(word) => if waited_ms >= LOOK_AHEAD_TIMEOUT_MS {
            (
                Buffered { session: before.session, pending: None },
                match single {
                    Some(code) => seq![Item::Command(code)],
                    None => seq![Item::Text(spaced(word))],
                },
            )
        } else {
            (before, Seq::empty())
        },
        None => (before, Seq::empty()),
    }
}

/// A word held back, with the moment it arrived.
#[derive(Debug)]
struct PendingWord {
    word: String,
    received_at: Instant,
}

/// Holds back a word that may start a command of two words.
#[derive(Debug)]
pub struct WordBuffer {
    current_session: Option<String>,
    pending: Option<PendingWord>,
}

impl View for WordBuffer {
    type V = Buffered;

    closed spec fn view(&self) -> Buffered {
        Buffered {
            session: match self.current_session {
                Some(session) => Some(session@),
                None => None,
            },
            pending: match self.pending {
                Some(held) => Some(held.word@),
                None => None,
            },
        }
    }
}

impl Default for WordBuffer {
    fn default() -> (buffer: WordBuffer)
        ensures
            buffer@ == cleared(),
    {
        WordBuffer::new()
    }
}

/// The word followed by one space.
fn with_space(word: &str) -> (text: String)
    ensures
        text@ == spaced(word@),
{
    let mut text = String::from_str(word);
    text.push(' ');
    text
}

impl WordBuffer {
    /// A buffer without session and without word.
    pub fn new() -> (buffer: WordBuffer)
        ensures
            buffer@ == cleared(),
    {
        WordBuffer { current_session: None, pending: None }
    }

    /// Forgets the session and the word held back. For a new connection.
    pub fn reset(&mut self)
        ensures
            final(self)@ == cleared(),
    {
        self.current_session = None;
        self.pending = None;
    }

    /// Whether what the three lookups can answer for this word admits the
    /// answers `pair`, `starts` and `single`. A lookup that is not made
    /// admits any answer.
    pub open spec fn answers_admitted<C, P, S>(
        before: Buffered,
        word: Seq<char>,
        session: Seq<char>,
        command_matcher: C,
        two_word_matcher: P,
        could_start_two_word: S,
        pair: Option<String>,
        starts: bool,
        single: Option<String>,
    ) -> bool where
        C: Fn(&str) -> Option<String>,
        P: Fn(&str, &str) -> Option<String>,
        S: Fn(&str) -> bool,
     {
        let held = pending_for(before, session);
        &&& held is Some ==> exists|first: &str, second: &str|
            first@ == held->0 && second@ == word && #[trigger] call_ensures(
                two_word_matcher,
                (first, second),
                pair,
            )
        &&& !(held is Some && pair is Some) ==> exists|given: &str|
            given@ == word && #[trigger] call_ensures(could_start_two_word, (given,), starts)
        &&& !(held is Some && pair is Some) && !starts ==> exists|given: &str|
            given@ == word && #[trigger] call_ensures(command_matcher, (given,), single)
    }

    /// Takes a word in and returns what is ready to be typed or carried
    /// out; nothing, if the word is held back. A word of another session
    /// than the last drops the word held back.
    pub fn process_word<C, P, S>(
        &mut self,
        word: String,
        session: &str,
        command_matcher: C,
        two_word_matcher: P,
        could_start_two_word: S,
    ) -> (items: Vec<ProcessedItem>) where
        C: Fn(&str) -> Option<String>,
        P: Fn(&str, &str) -> Option<String>,
        S: Fn(&str) -> bool,

        requires
            forall|given: &str| call_requires(command_matcher, (given,)),
            forall|first: &str, second: &str| call_requires(two_word_matcher, (first, second)),
            forall|given: &str| call_requires(could_start_two_word, (given,)),
        ensures
            exists|pair: Option<String>, starts: bool, single: Option<String>|
                {
                    &&& #[trigger] WordBuffer::answers_admitted(
                        old(self)@,
                        word@,
                        session@,
                        command_matcher,
                        two_word_matcher,
                        could_start_two_word,
                        pair,
                        starts,
                        single,
                    )
                    &&& (final(self)@, items_view(items@)) == word_outcome(
                        old(self)@,
                        word@,
                        session@,
                        text_view(pair),
                        starts,
                        text_view(single),
                    )
                },
    {
        let same = match &self.current_session {
            Some(current) => crate::text::same_text(current.as_str(), session),
            None => false,
        };
        if !same {
            self.reset_for_session(session);
        }
        let mut items: Vec<ProcessedItem> = Vec::new();
        assert(items_view(items@) =~= Seq::<Item>::empty());
        self.process_single_word(
            word,
            Ghost(session@),
            Ghost(old(self)@),
            command_matcher,
            two_word_matcher,
            could_start_two_word,
            &mut items,
        );
        items
    }

    /// Takes a word in for the session that the buffer works for, and adds
    /// what is ready to `results`.
    fn process_single_word<C, P, S>(
        &mut self,
        word: String,
        Ghost(session): Ghost<Seq<char>>,
        Ghost(before): Ghost<Buffered>,
        command_matcher: C,
        two_word_matcher: P,
        could_start_two_word: S,
        results: &mut Vec<ProcessedItem>,
    ) where
        C: Fn(&str) -> Option<String>,
        P: Fn(&str, &str) -> Option<String>,
        S: Fn(&str) -> bool,

        requires
            forall|given: &str| call_requires(command_matcher, (given,)),
            forall|first: &str, second: &str| call_requires(two_word_matcher, (first, second)),
            forall|given: &str| call_requires(could_start_two_word, (given,)),
            old(self)@.session == Some(session),
            old(self)@.pending == pending_for(before, session),
            items_view(old(results)@).len() == 0,
        ensures
            exists|pair: Option<String>, starts: bool, single: Option<String>|
                {
                    &&& #[trigger] WordBuffer::answers_admitted(
                        before,
                        word@,
                        session,
                        command_matcher,
                        two_word_matcher,
                        could_start_two_word,
                        pair,
                        starts,
                        single,
                    )
                    &&& (final(self)@, items_view(final(results)@)) == word_outcome(
                        before,
                        word@,
                        session,
                        text_view(pair),
                        starts,
                        text_view(single),
                    )
                },
    {
        let ghost held = pending_for(before, session);
        let mut pair: Option<String> = None;
        if let Some(waiting) = self.pending.take() {
            let answer = two_word_matcher(waiting.word.as_str(), word.as_str());
            if let Some(code) = answer {
                results.push(ProcessedItem::Command(code));
                assert(items_view(results@) =~= seq![Item::Command(code@)]);
                assert(WordBuffer::answers_admitted(
                    before,
                    word@,
                    session,
                    command_matcher,
                    two_word_matcher,
                    could_start_two_word,
                    Some(code),
                    false,
                    None,
                ));
                return ;
            }
            pair = answer;
            results.push(ProcessedItem::Text(with_space(waiting.word.as_str())));
            assert(items_view(results@) =~= seq![Item::Text(spaced(waiting.word@))]);
        }
        let ghost head = items_view(results@);
        assert(pair is None);
        assert(held is Some ==> exists|first: &str, second: &str|
            first@ == held->0 && second@ == word@ && #[trigger] call_ensures(
                two_word_matcher,
                (first, second),
                pair,
            ));

        let starts = could_start_two_word(word.as_str());
        if starts {
            self.pending = Some(PendingWord { word, received_at: Instant::now() });
            assert(WordBuffer::answers_admitted(
                before,
                word@,
                session,
                command_matcher,
                two_word_matcher,
                could_start_two_word,
                pair,
                true,
                None,
            ));
            return ;
        }
        let single = command_matcher(word.as_str());
        assert(WordBuffer::answers_admitted(
            before,
            word@,
            session,
            command_matcher,
            two_word_matcher,
            could_start_two_word,
            pair,
            false,
            single,
        ));
        match single {
            Some(code) => {
                results.push(ProcessedItem::Command(code));
                assert(items_view(results@) =~= head + seq![Item::Command(code@)]);
            },
            None => {
                results.push(ProcessedItem::Text(with_space(word.as_str())));
                assert(items_view(results@) =~= head + seq![Item::Text(spaced(word@))]);
            },
        }
    }

    /// Gives out the word held back if it has waited for the look-ahead
    /// time: as a command if it is one alone, else as text. To be called
    /// every few dozen milliseconds.
    pub fn flush_pending<C>(&mut self, command_matcher: C) -> (items: Vec<ProcessedItem>) where
        C: Fn(&str) -> Option<String>,

        requires
            forall|given: &str| call_requires(command_matcher, (given,)),
        ensures
            exists|waited_ms: u128, single: Option<String>|
                {
                    &&& #[trigger] WordBuffer::flush_admitted(
                        old(self)@,
                        command_matcher,
                        waited_ms,
                        single,
                    )
                    &&& (final(self)@, items_view(items@)) == flush_outcome(
                        old(self)@,
                        waited_ms,
                        text_view(single),
                    )
                },
    {
        let waited_ms = self.waited_ms();
        self.flush_pending_after(waited_ms, command_matcher)
    }

    /// How long the word held back has waited, in milliseconds by the
    /// clock; 0 where no word is held back.
    pub fn waited_ms(&self) -> (waited: u128)
        ensures
            self@.pending is None ==> waited == 0,
    {
        match &self.pending {
            Some(held) => {
                let waited = held.received_at.elapsed();
                waited.as_millis()
            },
            None => 0u128,
        }
    }

    /// Whether the lookup, if it is made, admits the answer `single` for
    /// the word held back.
    pub open spec fn flush_admitted<C>(
        before: Buffered,
        command_matcher: C,
        waited_ms: u128,
        single: Option<String>,
    ) -> bool where C: Fn(&str) -> Option<String> {
        before.pending is Some && waited_ms >= LOOK_AHEAD_TIMEOUT_MS ==> exists|given: &str|
            given@ == before.pending->0 && #[trigger] call_ensures(
                command_matcher,
                (given,),
                single,
            )
    }

    /// Gives out the word held back if it has waited `waited_ms`
    /// milliseconds and that is the look-ahead time or more.
    pub fn flush_pending_after<C>(&mut self, waited_ms: u128, command_matcher: C) -> (items: Vec<
        ProcessedItem,
    >) where C: Fn(&str) -> Option<String>
        requires
            forall|given: &str| call_requires(command_matcher, (given,)),
        ensures
            exists|single: Option<String>|
                {
                    &&& #[trigger] WordBuffer::flush_admitted(
                        old(self)@,
                        command_matcher,
                        waited_ms,
                        single,
                    )
                    &&& (final(self)@, items_view(items@)) == flush_outcome(
                        old(self)@,
                        waited_ms,
                        text_view(single),
                    )
                },
    {
        let mut items: Vec<ProcessedItem> = Vec::new();
        assert(items_view(items@) =~= Seq::<Item>::empty());
        if waited_ms < LOOK_AHEAD_TIMEOUT_MS {
            assert(WordBuffer::flush_admitted(old(self)@, command_matcher, waited_ms, None));
            return items;
        }
        match self.pending.take() {
            Some(held) => {
                let single = command_matcher(held.word.as_str());
                assert(WordBuffer::flush_admitted(old(self)@, command_matcher, waited_ms, single));
                match single {
                    Some(code) => {
                        items.push(ProcessedItem::Command(code));
                        assert(items_view(items@) =~= seq![Item::Command(code@)]);
                    },
                    None => {
                        items.push(ProcessedItem::Text(with_space(held.word.as_str())));
                        assert(items_view(items@) =~= seq![Item::Text(spaced(held.word@))]);
                    },
                }
            },
            None => {
                assert(WordBuffer::flush_admitted(old(self)@, command_matcher, waited_ms, None));
            },
        }
        items
    }

    /// Gives out nothing: the buffer holds no words out of order.
    pub fn flush_stale(&mut self, _max_age: Duration) -> (items: Vec<ProcessedItem>)
        ensures
            items@.len() == 0,
            final(self)@ == old(self)@,
    {
        Vec::new()
    }

    /// Takes over a new session and drops the word held back.
    fn reset_for_session(&mut self, session: &str)
        ensures
            final(self)@ == (Buffered { session: Some(session@), pending: None }),
    {
        self.current_session = Some(String::from_str(session));
        self.pending = None;
    }

    /// Whether a word is held back.
    pub fn has_pending(&self) -> (held: bool)
        ensures
            held == self@.pending is Some,
    {
        self.pending.is_some()
    }

    /// The word held back, if any.
    pub fn pending_word(&self) -> (held: Option<&str>)
        ensures
            match held {
                Some(word) => self@.pending == Some(word@),
                None => self@.pending is None,
            },
    {
        match &self.pending {
            Some(held) => Some(held.word.as_str()),
            None => None,
        }
    }
}

/// Look-ahead: a word that may start a command of two words is held back
/// and nothing comes out. If the next word of the session completes the
/// command, the command comes out alone; if it does not, the word held back
/// comes out first, as text, and the next word is handled as if nothing had
/// been held back.
pub proof fn lemma_look_ahead(
    before: Buffered,
    first: Seq<char>,
    second: Seq<char>,
    session: Seq<char>,
    first_pair: Option<Seq<char>>,
    first_single: Option<Seq<char>>,
    pair: Option<Seq<char>>,
    starts: bool,
    single: Option<Seq<char>>,
)
    requires
        pending_for(before, session) is None,
    ensures
        word_outcome(before, first, session, first_pair, true, first_single) == (
            Buffered { session: Some(session), pending: Some(first) },
            Seq::<Item>::empty(),
        ),
        pair is Some ==> word_outcome(
            word_outcome(before, first, session, first_pair, true, first_single).0,
            second,
            session,
            pair,
            starts,
            single,
        ) == (Buffered { session: Some(session), pending: None }, seq![Item::Command(pair->0)]),
        pair is None ==> word_outcome(
            word_outcome(before, first, session, first_pair, true, first_single).0,
            second,
            session,
            pair,
            starts,
            single,
        ) == (
            word_outcome(before, second, session, pair, starts, single).0,
            seq![Item::Text(spaced(first))] + word_outcome(
                before,
                second,
                session,
                pair,
                starts,
                single,
            ).1,
        ),
{
    let mid = word_outcome(before, first, session, first_pair, true, first_single).0;
    assert(pending_for(mid, session) == Some(first));
    if pair is None {
        let direct = word_outcome(before, second, session, pair, starts, single);
        let after = word_outcome(mid, second, session, pair, starts, single);
        assert(after.1 =~= seq![Item::Text(spaced(first))] + direct.1);
    }
}

/// A change of session drops the word held back: what a word of another
/// session does and yields is what it does to a buffer that holds nothing,
/// whatever word was held back and whatever that word and the new one would
/// have made together. The word held back afterwards, if any, is the new one.
pub proof fn lemma_session_change_drops_pending(
    before: Buffered,
    word: Seq<char>,
    session: Seq<char>,
    pair: Option<Seq<char>>,
    other_pair: Option<Seq<char>>,
    starts: bool,
    single: Option<Seq<char>>,
)
    requires
        before.session != Some(session),
    ensures
        word_outcome(before, word, session, pair, starts, single) == word_outcome(
            cleared(),
            word,
            session,
            other_pair,
            starts,
            single,
        ),
        word_outcome(before, word, session, pair, starts, single).0.session == Some(session),
        word_outcome(before, word, session, pair, starts, single).0.pending is Some
            ==> word_outcome(before, word, session, pair, starts, single).0.pending == Some(word),
{
}

/// Flush after the look-ahead time: the word held back leaves the buffer
/// and exactly one item comes out, the command if the word alone is one,
/// else the word as text. Before that time the word stays and nothing comes
/// out.
pub proof fn lemma_timeout_flush_emits(before: Buffered, waited_ms: u128, single: Option<Seq<char>>)
    requires
        before.pending is Some,
    ensures
        waited_ms >= LOOK_AHEAD_TIMEOUT_MS ==> {
            &&& flush_outcome(before, waited_ms, single).0.pending is None
            &&& flush_outcome(before, waited_ms, single).0.session == before.session
            &&& flush_outcome(before, waited_ms, single).1.len() == 1
            &&& flush_outcome(before, waited_ms, single).1[0] == match single {
                Some(code) => Item::Command(code),
                None => Item::Text(spaced(before.pending->0)),
            }
        },
        waited_ms < LOOK_AHEAD_TIMEOUT_MS ==> flush_outcome(before, waited_ms, single) == (
            before,
            Seq::<Item>::empty(),
        ),
{
}

/// A word is never lost: every word taken in is either held back or comes
/// out, as text or as part of a command, and what was held back before
/// comes out or is dropped with its session.
pub proof fn lemma_word_accounted_for(
    before: Buffered,
    word: Seq<char>,
    session: Seq<char>,
    pair: Option<Seq<char>>,
    starts: bool,
    single: Option<Seq<char>>,
)
    ensures
        ({
            let after = word_outcome(before, word, session, pair, starts, single);
            let held = pending_for(before, session);
            &&& after.1.len() <= 2
            &&& after.0.pending is Some ==> after.0.pending == Some(word)
            &&& (held is Some && pair is None) ==> after.1.len() >= 1 && after.1[0] == Item::Text(
                spaced(held->0),
            )
            &&& (after.0.pending is None && !(held is Some && pair is Some)) ==> after.1.len() >= 1
                && after.1.last() == match single {
                Some(code) => Item::Command(code),
                None => Item::Text(spaced(word)),
            }
        }),
{
}

} // verus!
