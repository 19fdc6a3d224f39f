//! From what a connection reports to what is typed and pressed.

use vstd::prelude::*;
use crate::commands::{execute, parsed_command, planned_call, VoiceCommand};
use crate::connection::{ConnectionEvent, Report};
use crate::state::{AppState, ConnectionStatus, Status};
use crate::text::trim;
use crate::voice_commands::{
    loaded_from, loaded_records_from, normalized_phrase, records_keyed, store_wf, with_entry,
    with_record, without_entry, without_record, Record, VoiceCommandMapping, VoiceCommandStore,
};
use crate::word_buffer::cleared;
use crate::injector::{InjectError, InputCall, InputInjector};
use crate::matcher::{
    match_of, normalized_word, starts_pair, two_word_code, CombinedMatcher, Match, MatchResult,
    Segment, TextSegment,
};
use crate::protocol::{code_of_name, CommandCode};
use crate::text::{trimmed, uppercase};
use crate::voice_commands::{matched_code, PhraseEntry};
use crate::word_buffer::{
    flush_outcome, items_view, pending_for, text_view, word_outcome, Buffered, Item,
    ProcessedItem, WordBuffer,
};

verus! {

/// What the lookups answer for a word that arrives, by the phrases of a
/// store, and what the word does then.
pub open spec fn matched_word_outcome(
    before: Buffered,
    entries: Seq<PhraseEntry>,
    word: Seq<char>,
    session: Seq<char>,
) -> (Buffered, Seq<Item>) {
    word_outcome(
        before,
        word,
        session,
        match pending_for(before, session) {
            Some(held) => two_word_code(entries, held, word),
            None => None,
        },
        starts_pair(entries, word),
        matched_code(entries, normalized_word(word)),
    )
}

/// What the lookup answers for the word held back, by the phrases of a
/// store, and what a flush does then.
pub open spec fn matched_flush_outcome(before: Buffered, entries: Seq<PhraseEntry>, waited_ms: u128)
    -> (Buffered, Seq<Item>) {
    flush_outcome(
        before,
        waited_ms,
        match before.pending {
            Some(held) => matched_code(entries, normalized_word(held)),
            None => None,
        },
    )
}

/// Takes a word into the buffer, with the phrases of a store deciding what
/// is a command.
pub fn process_word_with(
    buffer: &mut WordBuffer,
    word: String,
    session: &str,
    matcher: &CombinedMatcher,
) -> (items: Vec<ProcessedItem>)
    ensures
        (final(buffer)@, items_view(items@)) == matched_word_outcome(
            old(buffer)@,
            matcher@,
            word@,
            session@,
        ),
{
    let single = |given: &str| -> (code: Option<String>)
        ensures
            text_view(code) == matched_code(matcher@, normalized_word(given@)),
        { matcher.match_single_word(given) };
    let pair = |first: &str, second: &str| -> (code: Option<String>)
        ensures
            text_view(code) == two_word_code(matcher@, first@, second@),
        { matcher.match_two_words(first, second) };
    let starts = |given: &str| -> (could: bool)
        ensures
            could == starts_pair(matcher@, given@),
        { matcher.could_start_two_word_command(given) };
    buffer.process_word(word, session, single, pair, starts)
}

/// Gives out the word held back if it has waited `waited_ms` milliseconds
/// and that is the look-ahead time or more, with the phrases of a store
/// deciding whether it is a command.
pub fn flush_pending_with(buffer: &mut WordBuffer, waited_ms: u128, matcher: &CombinedMatcher) -> (items:
    Vec<ProcessedItem>)
    ensures
        (final(buffer)@, items_view(items@)) == matched_flush_outcome(
            old(buffer)@,
            matcher@,
            waited_ms,
        ),
{
    let single = |given: &str| -> (code: Option<String>)
        ensures
            text_view(code) == matched_code(matcher@, normalized_word(given@)),
        { matcher.match_single_word(given) };
    buffer.flush_pending_after(waited_ms, single)
}

/// Something to do at the keyboard.
pub enum Act {
    /// Type a text.
    Type(Seq<char>),
    /// Carry a command out.
    Run(VoiceCommand),
}

/// Something to do at the keyboard.
#[derive(Debug)]
pub enum InputAction {
    /// Type a text.
    Type(String),
    /// Carry a command out.
    Run(VoiceCommand),
}

impl View for InputAction {
    type V = Act;

    open spec fn view(&self) -> Act {
        match self {
            InputAction::Type(text) => Act::Type(text@),
            InputAction::Run(command) => Act::Run(*command),
        }
    }
}

/// What a run of actions stands for.
pub open spec fn actions_view(actions: Seq<InputAction>) -> Seq<Act> {
    Seq::new(actions.len(), |i: int| actions[i]@)
}

/// The command that a command code stands for.
pub open spec fn voice_command_for(code: CommandCode) -> VoiceCommand {
    match code {
        CommandCode::Enter => VoiceCommand::Enter,
        CommandCode::SelectAll => VoiceCommand::SelectAll,
        CommandCode::Copy => VoiceCommand::Copy,
        CommandCode::Paste => VoiceCommand::Paste,
        CommandCode::Cut => VoiceCommand::Cut,
        CommandCode::Cancel => VoiceCommand::Cancel,
    }
}

/// The command that a command code stands for.
pub fn voice_command(code: CommandCode) -> (command: VoiceCommand)
    ensures
        command == voice_command_for(code),
{
    match code {
        CommandCode::Enter => VoiceCommand::Enter,
        CommandCode::SelectAll => VoiceCommand::SelectAll,
        CommandCode::Copy => VoiceCommand::Copy,
        CommandCode::Paste => VoiceCommand::Paste,
        CommandCode::Cut => VoiceCommand::Cut,
        CommandCode::Cancel => VoiceCommand::Cancel,
    }
}

/// The pieces of a text as actions, in order.
pub open spec fn segment_acts(segments: Seq<Segment>) -> Seq<Act> {
    Seq::new(
        segments.len(),
        |i: int|
            match segments[i] {
                Segment::Text(text) => Act::Type(text),
                Segment::Command(command) => Act::Run(command),
            },
    )
}

/// What is done for a dictated text: nothing while input is disabled; the
/// command if the whole text is one; its pieces in order if it holds one;
/// else the text is typed as it stands. Without phrases every text is
/// typed.
pub open spec fn planned_text(entries: Option<Seq<PhraseEntry>>, text: Seq<char>, enabled: bool)
    -> Seq<Act> {
    if !enabled {
        Seq::empty()
    } else {
        match entries {
            None => seq![Act::Type(text)],
            Some(phrases) => match match_of(phrases, text) {
                Match::ExactCommand(command) => seq![Act::Run(command)],
                Match::MidTextCommand(segments) => segment_acts(segments),
                Match::NoMatch => seq![Act::Type(text)],
            },
        }
    }
}

/// What is done for a command message: the command is carried out if
/// input is enabled and the code is known.
pub open spec fn planned_command(code: Seq<char>, enabled: bool) -> Seq<Act> {
    match code_of_name(uppercase(trimmed(code))) {
        Some(known) => if enabled {
            seq![Act::Run(voice_command_for(known))]
        } else {
            Seq::empty()
        },
        None => Seq::empty(),
    }
}

/// What is done for an item from the word buffer while nothing is being
/// recorded.
pub open spec fn planned_item(item: Item, enabled: bool) -> Seq<Act> {
    if !enabled {
        Seq::empty()
    } else {
        match item {
            Item::Text(text) => seq![Act::Type(text)],
            Item::Command(code) => match parsed_command(code) {
                Some(command) => seq![Act::Run(command)],
                None => Seq::empty(),
            },
        }
    }
}

/// Plans what is done for a dictated text.
pub fn plan_text(matcher: Option<&CombinedMatcher>, text: &str, enabled: bool) -> (actions: Vec<
    InputAction,
>)
    ensures
        actions_view(actions@) == planned_text(
            match matcher {
                Some(inner) => Some(inner@),
                None => None,
            },
            text@,
            enabled,
        ),
{
    let mut actions: Vec<InputAction> = Vec::new();
    if !enabled {
        assert(actions_view(actions@) =~= Seq::<Act>::empty());
        return actions;
    }
    let result = match matcher {
        Some(inner) => inner.match_with_context(text),
        None => MatchResult::NoMatch,
    };
    match result {
        MatchResult::ExactCommand(command) => {
            actions.push(InputAction::Run(command));
            assert(actions_view(actions@) =~= seq![Act::Run(command)]);
        },
        MatchResult::MidTextCommand(segments) => {
            let ghost pieces = crate::matcher::segments_view(segments@);
            let mut i: usize = 0;
            assert(actions_view(actions@) =~= segment_acts(pieces).take(0));
            let mut rest = segments;
            let ghost all = rest@;
            let n = rest.len();
            while i < n
                invariant
                    i <= n,
                    n == all.len(),
                    rest@.len() == n - i,
                    forall|j: int| 0 <= j < rest@.len() ==> rest@[j] == all[i + j],
                    pieces == crate::matcher::segments_view(all),
                    actions_view(actions@) == segment_acts(pieces).take(i as int),
                decreases n - i,
            {
                let segment = rest.remove(0);
                assert(segment == all[i as int]);
                let ghost before = actions_view(actions@);
                match segment {
                    TextSegment::Text(part) => {
                        actions.push(InputAction::Type(part));
                    },
                    TextSegment::Command(command) => {
                        actions.push(InputAction::Run(command));
                    },
                }
                assert(actions_view(actions@) =~= before.push(segment_acts(pieces)[i as int]));
                assert(segment_acts(pieces).take(i + 1) =~= segment_acts(pieces).take(i as int).push(
                    segment_acts(pieces)[i as int],
                ));
                i += 1;
            }
            assert(segment_acts(pieces).take(n as int) =~= segment_acts(pieces));
        },
        MatchResult::NoMatch => {
            actions.push(InputAction::Type(String::from_str(text)));
            assert(actions_view(actions@) =~= seq![Act::Type(text@)]);
        },
    }
    actions
}

/// Plans what is done for a command message.
pub fn plan_command(code: &str, enabled: bool) -> (actions: Vec<InputAction>)
    ensures
        actions_view(actions@) == planned_command(code@, enabled),
{
    let mut actions: Vec<InputAction> = Vec::new();
    assert(actions_view(actions@) =~= Seq::<Act>::empty());
    match CommandCode::parse(code) {
        Some(known) => {
            if enabled {
                actions.push(InputAction::Run(voice_command(known)));
                assert(actions_view(actions@) =~= seq![Act::Run(voice_command_for(known))]);
            }
        },
        None => {},
    }
    actions
}

/// Plans what is done for an item from the word buffer.
pub fn plan_item(item: ProcessedItem, enabled: bool) -> (actions: Vec<InputAction>)
    ensures
        actions_view(actions@) == planned_item(item@, enabled),
{
    let mut actions: Vec<InputAction> = Vec::new();
    assert(actions_view(actions@) =~= Seq::<Act>::empty());
    if !enabled {
        return actions;
    }
    match item {
        ProcessedItem::Text(text) => {
            actions.push(InputAction::Type(text));
            assert(actions_view(actions@) =~= seq![Act::Type(text@)]);
        },
        ProcessedItem::Command(code) => {
            match VoiceCommand::parse(code.as_str()) {
                Some(command) => {
                    actions.push(InputAction::Run(command));
                    assert(actions_view(actions@) =~= seq![Act::Run(command)]);
                },
                None => {},
            }
        },
    }
    actions
}

/// What is asked of the backend for an action: to type the text, or the
/// call that the command calls for.
pub open spec fn call_for(action: Act) -> Option<InputCall> {
    match action {
        Act::Type(text) => Some(InputCall::TypeText(text)),
        Act::Run(command) => planned_call(command),
    }
}

/// Whether a backend may give this answer for an action; an action that
/// asks nothing of the backend succeeds.
pub open spec fn admitted<I: InputInjector>(
    injector: &I,
    action: Act,
    answer: Result<(), InjectError>,
) -> bool {
    match call_for(action) {
        Some(call) => injector.may_answer(call, answer),
        None => answer is Ok,
    }
}

/// How many of the answers are failures.
pub open spec fn failed_among(answers: Seq<Result<(), InjectError>>) -> nat
    decreases answers.len(),
{
    if answers.len() == 0 {
        0
    } else {
        failed_among(answers.drop_last()) + if answers.last() is Err {
            1nat
        } else {
            0nat
        }
    }
}

/// There are no more failures than answers.
pub proof fn lemma_failed_among_bound(answers: Seq<Result<(), InjectError>>)
    ensures
        failed_among(answers) <= answers.len(),
    decreases answers.len(),
{
    if answers.len() > 0 {
        lemma_failed_among_bound(answers.drop_last());
    }
}

/// Whether the answers are such as the backend may give for the actions,
/// one for each.
pub open spec fn answered<I: InputInjector>(
    injector: &I,
    actions: Seq<Act>,
    answers: Seq<Result<(), InjectError>>,
) -> bool {
    &&& answers.len() == actions.len()
    &&& forall|i: int|
        0 <= i < answers.len() ==> admitted(injector, actions[i], #[trigger] answers[i])
}

/// Whether the actions were put to the backend: for each there is an
/// answer that the backend may give for it.
pub open spec fn carried_out<I: InputInjector>(injector: &I, actions: Seq<Act>) -> bool {
    exists|answers: Seq<Result<(), InjectError>>| answered(injector, actions, answers)
}

/// Where nothing is to be done, nothing is asked of the backend.
pub proof fn lemma_nothing_carried_out<I: InputInjector>(injector: &I)
    ensures
        carried_out(injector, Seq::<Act>::empty()),
{
    assert(answered(injector, Seq::<Act>::empty(), Seq::<Result<(), InjectError>>::empty()));
}

/// Actions that were put to the backend in two runs were all put to it.
pub proof fn lemma_carried_out_concat<I: InputInjector>(
    injector: &I,
    first: Seq<Act>,
    second: Seq<Act>,
)
    requires
        carried_out(injector, first),
        carried_out(injector, second),
    ensures
        carried_out(injector, first + second),
{
    let left = choose|answers: Seq<Result<(), InjectError>>| answered(injector, first, answers);
    let right = choose|answers: Seq<Result<(), InjectError>>| answered(injector, second, answers);
    let both = left + right;
    assert forall|i: int| 0 <= i < both.len() implies admitted(
        injector,
        (first + second)[i],
        #[trigger] both[i],
    ) by {
        if i < left.len() {
            assert(both[i] == left[i]);
        } else {
            assert(both[i] == right[i - left.len()]);
        }
    }
    assert(answered(injector, first + second, both));
}

/// Does the actions through a backend, one after the other, each by the
/// one call of `call_for`, and goes on after a failure. Returns how many
/// of the backend's answers were failures.
pub fn perform<I: InputInjector>(actions: &Vec<InputAction>, injector: &I) -> (failures: usize)
    ensures
        failures <= actions@.len(),
        carried_out(injector, actions_view(actions@)),
        exists|answers: Seq<Result<(), InjectError>>|
            {
                &&& answers.len() == actions@.len()
                &&& forall|i: int|
                    0 <= i < answers.len() ==> admitted(injector, actions@[i]@, #[trigger] answers[i])
                &&& failures == #[trigger] failed_among(answers)
            },
{
    let mut failures: usize = 0;
    let mut i: usize = 0;
    let ghost mut answers: Seq<Result<(), InjectError>> = Seq::empty();
    while i < actions.len()
        invariant
            i <= actions@.len(),
            answers.len() == i,
            forall|j: int| 0 <= j < i ==> admitted(injector, actions@[j]@, #[trigger] answers[j]),
            failures == failed_among(answers),
            failures <= i,
        decreases actions@.len() - i,
    {
        let done = match &actions[i] {
            InputAction::Type(text) => injector.type_text(text.as_str()),
            InputAction::Run(command) => execute(command, injector),
        };
        proof {
            let before = answers;
            answers = answers.push(done);
            assert(answers.drop_last() =~= before);
            assert(answers.last() == done);
            assert(admitted(injector, actions@[i as int]@, done));
            assert forall|j: int| 0 <= j < i + 1 implies admitted(
                injector,
                actions@[j]@,
                #[trigger] answers[j],
            ) by {
                if j < i {
                    assert(answers[j] == before[j]);
                }
            }
        }
        if done.is_err() {
            failures += 1;
        }
        i += 1;
    }
    assert(answered(injector, actions_view(actions@), answers));
    failures
}

/// What an event processor remembers, in plain values.
pub struct Processing {
    /// Whether input is injected.
    pub input_enabled: bool,
    /// The user's phrases, where voice commands are in use.
    pub phrases: Option<Seq<PhraseEntry>>,
    /// The state of the application, where voice commands are in use.
    pub status: Option<Status>,
    /// The word buffer.
    pub buffer: Buffered,
}

/// What a text does while a phrase is being recorded: it becomes the
/// phrase of the command, unless it holds no word, and recording stops.
/// Nothing where nothing is being recorded.
pub open spec fn recorded(before: Processing, phrase: Seq<char>) -> Option<Processing> {
    if before.phrases is Some && before.status is Some && before.status->0.recording_command
        is Some {
        let command = before.status->0.recording_command->0;
        Some(
            Processing {
                phrases: Some(
                    if normalized_phrase(phrase).len() == 0 {
                        before.phrases->0
                    } else {
                        with_entry(before.phrases->0, uppercase(command), normalized_phrase(phrase))
                    },
                ),
                status: Some(Status { recording_command: None, ..before.status->0 }),
                ..before
            },
        )
    } else {
        None
    }
}

/// What a text does to what is kept with the phrases: while a phrase is
/// being recorded and the text holds a word, the command in capitals and
/// the time of recording are kept with the new phrase.
pub open spec fn records_after(
    before: Processing,
    records: Option<Seq<Record>>,
    phrase: Seq<char>,
    created_at: i64,
) -> Option<Seq<Record>> {
    if before.phrases is Some && records is Some && before.status is Some
        && before.status->0.recording_command is Some && normalized_phrase(phrase).len() != 0 {
        let command = before.status->0.recording_command->0;
        Some(
            with_record(
                before.phrases->0,
                records->0,
                uppercase(command),
                Record { command: uppercase(command), created_at },
            ),
        )
    } else {
        records
    }
}

/// What an item from the word buffer does to what is kept with the
/// phrases.
pub open spec fn records_after_item(
    before: Processing,
    records: Option<Seq<Record>>,
    item: Item,
    created_at: i64,
) -> Option<Seq<Record>> {
    match item {
        Item::Text(text) => records_after(before, records, trimmed(text), created_at),
        Item::Command(_) => records,
    }
}

/// What a dictated text does and what is done for it.
pub open spec fn text_outcome(before: Processing, text: Seq<char>) -> (Processing, Seq<Act>) {
    match recorded(before, text) {
        Some(after) => (after, Seq::empty()),
        None => (before, planned_text(before.phrases, text, before.input_enabled)),
    }
}

/// What an item from the word buffer does and what is done for it. While a
/// phrase is being recorded, a text item becomes the phrase.
pub open spec fn item_outcome(before: Processing, item: Item) -> (Processing, Seq<Act>) {
    match item {
        Item::Text(text) => match recorded(before, trimmed(text)) {
            Some(after) => (after, Seq::empty()),
            None => (before, planned_item(item, before.input_enabled)),
        },
        Item::Command(_) => (before, planned_item(item, before.input_enabled)),
    }
}

/// What a run of items does, one after the other, and what is done for
/// them.
pub open spec fn items_outcome(before: Processing, items: Seq<Item>) -> (Processing, Seq<Act>)
    decreases items.len(),
{
    if items.len() == 0 {
        (before, Seq::empty())
    } else {
        let (mid, first) = item_outcome(before, items[0]);
        let (end, rest) = items_outcome(mid, items.drop_first());
        (end, first + rest)
    }
}

/// What a word does to the buffer and what comes out of it.
pub open spec fn buffered_word(before: Processing, word: Seq<char>, session: Seq<char>) -> (
    Buffered,
    Seq<Item>,
) {
    match before.phrases {
        Some(phrases) => matched_word_outcome(before.buffer, phrases, word, session),
        None => word_outcome(before.buffer, word, session, None, false, None),
    }
}

/// What a flush does to the buffer and what comes out of it.
pub open spec fn buffered_flush(before: Processing, waited_ms: u128) -> (Buffered, Seq<Item>) {
    match before.phrases {
        Some(phrases) => matched_flush_outcome(before.buffer, phrases, waited_ms),
        None => flush_outcome(before.buffer, waited_ms, None),
    }
}

/// What an event does and what is done for it.
pub open spec fn event_outcome(before: Processing, event: Report) -> (Processing, Seq<Act>) {
    match event {
        Report::Text(text) => text_outcome(before, text),
        Report::Word(word, _, session) => items_outcome(
            Processing { buffer: buffered_word(before, word, session).0, ..before },
            buffered_word(before, word, session).1,
        ),
        Report::Command(code) => (before, planned_command(code, before.input_enabled)),
        Report::Connected(_) => (Processing { buffer: cleared(), ..before }, Seq::empty()),
        _ => (before, Seq::empty()),
    }
}

/// What an event does to the state that the application shows: a
/// connection sets the phone's name, its end clears it, an error is shown
/// as such, and a text is remembered as the last one.
pub open spec fn status_after(before: Status, event: Report) -> Status {
    match event {
        Report::Connected(name) => Status {
            connection_status: ConnectionStatus::Connected,
            connected_device: Some(name),
            ..before
        },
        Report::Disconnected => Status {
            connection_status: ConnectionStatus::Disconnected,
            connected_device: None,
            ..before
        },
        Report::Error(_) => Status { connection_status: ConnectionStatus::Error, ..before },
        Report::Text(text) => Status { last_text: Some(text), ..before },
        _ => before,
    }
}

/// The store of phrases and the state of the application.
struct VoiceSupport {
    store: VoiceCommandStore,
    state: AppState,
}

/// Turns the events of a connection into input.
pub struct EventProcessor<I: InputInjector> {
    injector: I,
    input_enabled: bool,
    voice: Option<VoiceSupport>,
    word_buffer: WordBuffer,
}

impl<I: InputInjector> View for EventProcessor<I> {
    type V = Processing;

    closed spec fn view(&self) -> Processing {
        Processing {
            input_enabled: self.input_enabled,
            phrases: match self.voice {
                Some(voice) => Some(voice.store@),
                None => None,
            },
            status: match self.voice {
                Some(voice) => Some(voice.state@),
                None => None,
            },
            buffer: self.word_buffer@,
        }
    }
}

/// Whether the user's phrases are in order.
pub open spec fn processing_wf(view: Processing) -> bool {
    view.phrases matches Some(phrases) ==> store_wf(phrases)
}

impl<I: InputInjector> EventProcessor<I> {
    /// Whether the processor is in order.
    pub open spec fn wf(&self) -> bool {
        processing_wf(self@)
    }

    /// The backend through which input is injected.
    pub closed spec fn backend(&self) -> I {
        self.injector
    }

    /// What is kept with each of the user's phrases, where voice commands
    /// are in use.
    pub closed spec fn phrase_records(&self) -> Option<Seq<Record>> {
        match self.voice {
            Some(voice) => Some(voice.store.records()),
            None => None,
        }
    }

    /// Whether each command kept with a phrase belongs to the code that
    /// the phrase is stored under.
    pub open spec fn phrases_keyed(&self) -> bool {
        match self@.phrases {
            Some(phrases) => self.phrase_records() matches Some(records) && records_keyed(
                phrases,
                records,
            ),
            None => self.phrase_records() is None,
        }
    }

    /// A processor without voice commands: every text and word is typed.
    pub fn new(injector: I) -> (processor: EventProcessor<I>)
        ensures
            processor@ == (Processing {
                input_enabled: true,
                phrases: None,
                status: None,
                buffer: cleared(),
            }),
            processor.wf(),
            processor.backend() == injector,
            processor.phrase_records() is None,
    {
        EventProcessor { injector, input_enabled: true, voice: None, word_buffer: WordBuffer::new() }
    }

    /// A processor that looks for commands by the phrases of a store.
    pub fn with_voice_commands(injector: I, voice_command_store: VoiceCommandStore, state: AppState)
        -> (processor: EventProcessor<I>)
        requires
            voice_command_store.wf(),
        ensures
            processor@ == (Processing {
                input_enabled: true,
                phrases: Some(voice_command_store@),
                status: Some(state@),
                buffer: cleared(),
            }),
            processor.wf(),
            processor.backend() == injector,
            processor.phrase_records() == Some(voice_command_store.records()),
    {
        EventProcessor {
            injector,
            input_enabled: true,
            voice: Some(VoiceSupport { store: voice_command_store, state }),
            word_buffer: WordBuffer::new(),
        }
    }

    /// Switches the injection of input on or off.
    pub fn set_input_enabled(&mut self, enabled: bool)
        ensures
            final(self)@ == (Processing { input_enabled: enabled, ..old(self)@ }),
            final(self).backend() == old(self).backend(),
            final(self).phrase_records() == old(self).phrase_records(),
    {
        self.input_enabled = enabled;
    }

    /// Starts recording a phrase for a command: the next text becomes its
    /// phrase. Without voice commands nothing happens.
    pub fn start_recording(&mut self, command: String)
        ensures
            final(self)@ == (Processing {
                status: match old(self)@.status {
                    Some(status) => Some(Status { recording_command: Some(command@), ..status }),
                    None => None,
                },
                ..old(self)@
            }),
            final(self).backend() == old(self).backend(),
            final(self).phrase_records() == old(self).phrase_records(),
    {
        match &mut self.voice {
            Some(voice) => {
                voice.state.start_recording(command);
            },
            None => {},
        }
    }

    /// Stops recording without storing a phrase.
    pub fn cancel_recording(&mut self)
        ensures
            final(self)@ == (Processing {
                status: match old(self)@.status {
                    Some(status) => Some(Status { recording_command: None, ..status }),
                    None => None,
                },
                ..old(self)@
            }),
            final(self).backend() == old(self).backend(),
            final(self).phrase_records() == old(self).phrase_records(),
    {
        match &mut self.voice {
            Some(voice) => {
                let _ = voice.state.stop_recording();
            },
            None => {},
        }
    }

    /// Notes an event in the state that the application shows.
    pub fn track(&mut self, event: &ConnectionEvent)
        ensures
            final(self)@ == (Processing {
                status: match old(self)@.status {
                    Some(status) => Some(status_after(status, event@)),
                    None => None,
                },
                ..old(self)@
            }),
            final(self).backend() == old(self).backend(),
            final(self).phrase_records() == old(self).phrase_records(),
    {
        match &mut self.voice {
            Some(voice) => {
                match event {
                    ConnectionEvent::Connected { device_name } => {
                        voice.state.set_connected(device_name.clone());
                    },
                    ConnectionEvent::Disconnected => {
                        voice.state.set_disconnected();
                    },
                    ConnectionEvent::Error(_) => {
                        voice.state.set_error();
                    },
                    ConnectionEvent::TextReceived(text) => {
                        voice.state.set_last_text(text.clone());
                    },
                    _ => {},
                }
            },
            None => {},
        }
    }

    /// The connection status that the application shows, where it keeps
    /// one.
    pub fn connection_status(&self) -> (status: Option<ConnectionStatus>)
        ensures
            status == match self@.status {
                Some(inner) => Some(inner.connection_status),
                None => None,
            },
    {
        match &self.voice {
            Some(voice) => Some(voice.state.get_status()),
            None => None,
        }
    }

    /// Whether a phrase is being recorded.
    pub fn is_recording(&self) -> (recording: bool)
        ensures
            recording == (self@.status matches Some(status) && status.recording_command is Some),
    {
        match &self.voice {
            Some(voice) => voice.state.is_recording(),
            None => false,
        }
    }

    /// Whether input is injected.
    pub fn is_input_enabled(&self) -> (enabled: bool)
        ensures
            enabled == self@.input_enabled,
    {
        self.input_enabled
    }

    /// Replaces the user's phrases by the mappings of a file. Without voice
    /// commands nothing happens.
    pub fn load_phrases(&mut self, mappings: Vec<VoiceCommandMapping>)
        ensures
            final(self).wf(),
            final(self)@ == (Processing {
                phrases: match old(self)@.phrases {
                    Some(_) => Some(loaded_from(Seq::empty(), mappings@, 0)),
                    None => None,
                },
                ..old(self)@
            }),
            final(self).backend() == old(self).backend(),
            final(self).phrase_records() == match old(self)@.phrases {
                Some(_) => Some(
                    loaded_records_from(Seq::empty(), Seq::empty(), mappings@, 0),
                ),
                None => None,
            },
            final(self).phrases_keyed(),
    {
        match &mut self.voice {
            Some(voice) => {
                voice.store.load(mappings);
            },
            None => {},
        }
    }

    /// The user's phrases as they are to be written to the file; none
    /// without voice commands.
    pub fn stored_phrases(&self) -> (mappings: Vec<VoiceCommandMapping>)
        ensures
            match self@.phrases {
                Some(phrases) => self.phrase_records() matches Some(records) && mappings@.len()
                    == phrases.len() && mappings@.len() == records.len() && forall|i: int|
                    0 <= i < mappings@.len() ==> {
                        &&& (#[trigger] mappings@[i]).phrase@ == phrases[i].phrase
                        &&& mappings@[i].command@ == records[i].command
                        &&& mappings@[i].created_at == records[i].created_at
                    },
                None => mappings@.len() == 0,
            },
            self.phrases_keyed() ==> forall|i: int|
                0 <= i < mappings@.len() ==> (#[trigger] mappings@[i]).command@
                    == self@.phrases->0[i].key || uppercase(mappings@[i].command@)
                    == self@.phrases->0[i].key,
    {
        match &self.voice {
            Some(voice) => voice.store.mappings(),
            None => Vec::new(),
        }
    }

    /// Forgets the user's phrase for a command.
    pub fn revert_to_default(&mut self, command: &str)
        requires
            old(self).wf(),
        ensures
            final(self).wf(),
            final(self)@ == (Processing {
                phrases: match old(self)@.phrases {
                    Some(phrases) => Some(without_entry(phrases, uppercase(command@))),
                    None => None,
                },
                ..old(self)@
            }),
            final(self).backend() == old(self).backend(),
            final(self).phrase_records() == match (old(self)@.phrases, old(self).phrase_records()) {
                (Some(phrases), Some(records)) => Some(
                    without_record(phrases, records, uppercase(command@)),
                ),
                _ => old(self).phrase_records(),
            },
            old(self).phrases_keyed() ==> final(self).phrases_keyed(),
    {
        match &mut self.voice {
            Some(voice) => {
                voice.store.revert_to_default(command);
            },
            None => {},
        }
    }

    /// Stores the text as the phrase of the command that is being
    /// recorded, if one is, and stops recording.
    fn record(&mut self, phrase: &str) -> (was_recording: bool)
        requires
            old(self).wf(),
        ensures
            final(self).wf(),
            match recorded(old(self)@, phrase@) {
                Some(after) => was_recording && final(self)@ == after,
                None => !was_recording && final(self)@ == old(self)@,
            },
            final(self).backend() == old(self).backend(),
            old(self).phrases_keyed() ==> final(self).phrases_keyed(),
            exists|created_at: i64|
                final(self).phrase_records() == #[trigger] records_after(
                    old(self)@,
                    old(self).phrase_records(),
                    phrase@,
                    created_at,
                ),
    {
        let was_recording = match &mut self.voice {
            Some(voice) => {
                match voice.state.stop_recording() {
                    Some(command) => {
                        let _ = voice.store.set_phrase(command.as_str(), phrase);
                        true
                    },
                    None => false,
                }
            },
            None => false,
        };
        proof {
            let kept = old(self).phrase_records();
            if was_recording && normalized_phrase(phrase@).len() != 0 {
                let command = old(self)@.status->0.recording_command->0;
                let created_at = choose|created_at: i64|
                    self.phrase_records()->0 == #[trigger] with_record(
                        old(self)@.phrases->0,
                        kept->0,
                        uppercase(command),
                        (Record { command: uppercase(command), created_at }),
                    );
                assert(self.phrase_records() == records_after(
                    old(self)@,
                    kept,
                    phrase@,
                    created_at,
                ));
            } else {
                assert(self.phrase_records() == records_after(old(self)@, kept, phrase@, 0));
            }
        }
        was_recording
    }

    /// Handles a dictated text.
    pub fn handle_text(&mut self, text: &str) -> (actions: Vec<InputAction>)
        requires
            old(self).wf(),
        ensures
            final(self).wf(),
            (final(self)@, actions_view(actions@)) == text_outcome(old(self)@, text@),
            carried_out(&old(self).backend(), actions_view(actions@)),
            final(self).backend() == old(self).backend(),
            old(self).phrases_keyed() ==> final(self).phrases_keyed(),
            exists|created_at: i64|
                final(self).phrase_records() == #[trigger] records_after(
                    old(self)@,
                    old(self).phrase_records(),
                    text@,
                    created_at,
                ),
    {
        if self.record(text) {
            let actions: Vec<InputAction> = Vec::new();
            assert(actions_view(actions@) =~= Seq::<Act>::empty());
            proof {
                lemma_nothing_carried_out(&self.backend());
            }
            return actions;
        }
        let actions = match &self.voice {
            Some(voice) => {
                let matcher = CombinedMatcher::new(&voice.store);
                plan_text(Some(&matcher), text, self.input_enabled)
            },
            None => plan_text(None, text, self.input_enabled),
        };
        let _ = perform(&actions, &self.injector);
        actions
    }

    /// Handles a command message.
    pub fn handle_command(&mut self, cmd: &str) -> (actions: Vec<InputAction>)
        ensures
            final(self)@ == old(self)@,
            actions_view(actions@) == planned_command(cmd@, old(self)@.input_enabled),
            carried_out(&old(self).backend(), actions_view(actions@)),
            final(self).backend() == old(self).backend(),
            final(self).phrase_records() == old(self).phrase_records(),
    {
        let actions = plan_command(cmd, self.input_enabled);
        let _ = perform(&actions, &self.injector);
        actions
    }

    /// Handles one item from the word buffer.
    pub fn process_item(&mut self, item: ProcessedItem) -> (actions: Vec<InputAction>)
        requires
            old(self).wf(),
        ensures
            final(self).wf(),
            (final(self)@, actions_view(actions@)) == item_outcome(old(self)@, item@),
            carried_out(&old(self).backend(), actions_view(actions@)),
            final(self).backend() == old(self).backend(),
            old(self).phrases_keyed() ==> final(self).phrases_keyed(),
            exists|created_at: i64|
                final(self).phrase_records() == #[trigger] records_after_item(
                    old(self)@,
                    old(self).phrase_records(),
                    item@,
                    created_at,
                ),
    {
        let ghost kept = self.phrase_records();
        match &item {
            ProcessedItem::Text(text) => {
                let phrase = trim(text.as_str());
                let was_recording = self.record(phrase.as_str());
                proof {
                    let created_at = choose|created_at: i64|
                        self.phrase_records() == #[trigger] records_after(
                            old(self)@,
                            kept,
                            phrase@,
                            created_at,
                        );
                    assert(self.phrase_records() == records_after_item(
                        old(self)@,
                        kept,
                        item@,
                        created_at,
                    ));
                }
                if was_recording {
                    let actions: Vec<InputAction> = Vec::new();
                    assert(actions_view(actions@) =~= Seq::<Act>::empty());
                    proof {
                        lemma_nothing_carried_out(&self.backend());
                    }
                    return actions;
                }
            },
            ProcessedItem::Command(_) => {
                assert(self.phrase_records() == records_after_item(old(self)@, kept, item@, 0));
            },
        }
        let actions = plan_item(item, self.input_enabled);
        let _ = perform(&actions, &self.injector);
        actions
    }

    /// Handles the items from the word buffer, one after the other.
    fn process_items(&mut self, items: Vec<ProcessedItem>) -> (actions: Vec<InputAction>)
        requires
            old(self).wf(),
        ensures
            final(self).wf(),
            (final(self)@, actions_view(actions@)) == items_outcome(old(self)@, items_view(items@)),
            carried_out(&old(self).backend(), actions_view(actions@)),
            final(self).backend() == old(self).backend(),
            old(self).phrases_keyed() ==> final(self).phrases_keyed(),
    {
        let mut actions: Vec<InputAction> = Vec::new();
        let mut rest = items;
        let ghost all = items_view(items@);
        assert(actions_view(actions@) + items_outcome(self@, items_view(rest@)).1
            =~= items_outcome(old(self)@, all).1);
        proof {
            lemma_nothing_carried_out(&self.backend());
            assert(actions_view(actions@) =~= Seq::<Act>::empty());
        }
        while rest.len() > 0
            invariant
                self.wf(),
                self.backend() == old(self).backend(),
                old(self).phrases_keyed() ==> self.phrases_keyed(),
                carried_out(&old(self).backend(), actions_view(actions@)),
                items_outcome(self@, items_view(rest@)).0 == items_outcome(old(self)@, all).0,
                actions_view(actions@) + items_outcome(self@, items_view(rest@)).1
                    == items_outcome(old(self)@, all).1,
            decreases rest@.len(),
        {
            let ghost before = self@;
            let ghost queue = items_view(rest@);
            let ghost done = actions_view(actions@);
            let item = rest.remove(0);
            assert(item@ == queue[0]);
            assert(items_view(rest@) =~= queue.drop_first());
            let mut more = self.process_item(item);
            let ghost step = actions_view(more@);
            actions.append(&mut more);
            assert(actions_view(actions@) =~= done + step);
            proof {
                lemma_carried_out_concat(&old(self).backend(), done, step);
            }
            assert((done + step) + items_outcome(self@, items_view(rest@)).1 =~= done + (step
                + items_outcome(self@, items_view(rest@)).1));
        }
        assert(items_view(rest@) =~= Seq::<Item>::empty());
        assert(actions_view(actions@) + Seq::<Act>::empty() =~= actions_view(actions@));
        actions
    }

    /// Handles one dictated word.
    pub fn handle_word(&mut self, word: &str, seq: Option<u64>, session: &str) -> (actions: Vec<
        InputAction,
    >)
        requires
            old(self).wf(),
        ensures
            final(self).wf(),
            (final(self)@, actions_view(actions@)) == event_outcome(
                old(self)@,
                Report::Word(word@, seq, session@),
            ),
            carried_out(&old(self).backend(), actions_view(actions@)),
            final(self).backend() == old(self).backend(),
            old(self).phrases_keyed() ==> final(self).phrases_keyed(),
    {
        let items = match &self.voice {
            Some(voice) => {
                let matcher = CombinedMatcher::new(&voice.store);
                process_word_with(&mut self.word_buffer, String::from_str(word), session, &matcher)
            },
            None => {
                let single = |given: &str| -> (code: Option<String>)
                    ensures
                        code is None,
                    { None };
                let pair = |first: &str, second: &str| -> (code: Option<String>)
                    ensures
                        code is None,
                    { None };
                let starts = |given: &str| -> (could: bool)
                    ensures
                        !could,
                    { false };
                self.word_buffer.process_word(String::from_str(word), session, single, pair, starts)
            },
        };
        self.process_items(items)
    }

    /// Handles one event of a connection and returns what was done at the
    /// keyboard for it.
    pub fn process_event(&mut self, event: ConnectionEvent) -> (actions: Vec<InputAction>)
        requires
            old(self).wf(),
        ensures
            final(self).wf(),
            (final(self)@, actions_view(actions@)) == event_outcome(old(self)@, event@),
            carried_out(&old(self).backend(), actions_view(actions@)),
            final(self).backend() == old(self).backend(),
            old(self).phrases_keyed() ==> final(self).phrases_keyed(),
    {
        match event {
            ConnectionEvent::TextReceived(text) => self.handle_text(text.as_str()),
            ConnectionEvent::WordReceived { word, seq, session } => self.handle_word(
                word.as_str(),
                seq,
                session.as_str(),
            ),
            ConnectionEvent::CommandReceived(code) => self.handle_command(code.as_str()),
            ConnectionEvent::Connected { device_name } => {
                self.word_buffer.reset();
                let actions: Vec<InputAction> = Vec::new();
                assert(actions_view(actions@) =~= Seq::<Act>::empty());
                proof {
                    lemma_nothing_carried_out(&self.backend());
                }
                actions
            },
            _ => {
                let actions: Vec<InputAction> = Vec::new();
                assert(actions_view(actions@) =~= Seq::<Act>::empty());
                proof {
                    lemma_nothing_carried_out(&self.backend());
                }
                actions
            },
        }
    }

    /// Takes the word held back out of the buffer if it has waited
    /// `waited_ms` milliseconds and that is the look-ahead time or more.
    pub fn flush_pending_words_after(&mut self, waited_ms: u128) -> (items: Vec<ProcessedItem>)
        ensures
            (final(self)@.buffer, items_view(items@)) == buffered_flush(old(self)@, waited_ms),
            final(self)@ == (Processing { buffer: final(self)@.buffer, ..old(self)@ }),
            final(self).backend() == old(self).backend(),
            final(self).phrase_records() == old(self).phrase_records(),
    {
        match &self.voice {
            Some(voice) => {
                let matcher = CombinedMatcher::new(&voice.store);
                flush_pending_with(&mut self.word_buffer, waited_ms, &matcher)
            },
            None => {
                let single = |given: &str| -> (code: Option<String>)
                    ensures
                        code is None,
                    { None };
                self.word_buffer.flush_pending_after(waited_ms, single)
            },
        }
    }

    /// Takes the word held back out of the buffer if it has waited for the
    /// look-ahead time, by the clock.
    pub fn flush_pending_words(&mut self) -> (items: Vec<ProcessedItem>)
        ensures
            exists|waited_ms: u128|
                (final(self)@.buffer, items_view(items@)) == #[trigger] buffered_flush(
                    old(self)@,
                    waited_ms,
                ),
            final(self)@ == (Processing { buffer: final(self)@.buffer, ..old(self)@ }),
            final(self).backend() == old(self).backend(),
            final(self).phrase_records() == old(self).phrase_records(),
    {
        let waited_ms = self.word_buffer.waited_ms();
        self.flush_pending_words_after(waited_ms)
    }

    /// Gives out nothing: the word buffer holds no words out of order.
    pub fn flush_stale_words(&mut self, max_age: std::time::Duration) -> (items: Vec<ProcessedItem>)
        ensures
            items@.len() == 0,
            final(self)@ == old(self)@,
            final(self).backend() == old(self).backend(),
            final(self).phrase_records() == old(self).phrase_records(),
    {
        self.word_buffer.flush_stale(max_age)
    }

    /// The periodic flush: takes a word that has waited long enough out of
    /// the buffer and handles it. Returns what was done at the keyboard.
    pub fn process_periodic_flush(&mut self) -> (actions: Vec<InputAction>)
        requires
            old(self).wf(),
        ensures
            final(self).wf(),
            exists|waited_ms: u128|
                (final(self)@, actions_view(actions@)) == items_outcome(
                    Processing {
                        buffer: (#[trigger] buffered_flush(old(self)@, waited_ms)).0,
                        ..old(self)@
                    },
                    buffered_flush(old(self)@, waited_ms).1,
                ),
            carried_out(&old(self).backend(), actions_view(actions@)),
            final(self).backend() == old(self).backend(),
            old(self).phrases_keyed() ==> final(self).phrases_keyed(),
    {
        let items = self.flush_pending_words();
        self.process_items(items)
    }
}

} // verus!
