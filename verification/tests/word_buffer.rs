use speech2prompt_desktop::word_buffer::{ProcessedItem, WordBuffer, LOOK_AHEAD_TIMEOUT_MS};
use std::time::Duration;

fn no_command(_word: &str) -> Option<String> {
    None
}

fn no_two_word(_w1: &str, _w2: &str) -> Option<String> {
    None
}

fn never_starts_two_word(_word: &str) -> bool {
    false
}

fn simple_command_matcher(word: &str) -> Option<String> {
    match word.to_lowercase().as_str() {
        "enter" => Some("ENTER".to_string()),
        "copy" => Some("COPY".to_string()),
        "paste" => Some("PASTE".to_string()),
        _ => None,
    }
}

fn select_all_matcher(w1: &str, w2: &str) -> Option<String> {
    if w1.to_lowercase() == "select" && w2.to_lowercase() == "all" {
        Some("SELECT_ALL".to_string())
    } else {
        None
    }
}

fn could_be_select(word: &str) -> bool {
    word.to_lowercase() == "select"
}

#[test]
fn test_words_processed_immediately() {
    let mut buffer = WordBuffer::new();

    let items = buffer.process_word(
        "hello".to_string(),
        "session1",
        &no_command,
        &no_two_word,
        &never_starts_two_word,
    );
    assert_eq!(items, vec![ProcessedItem::Text("hello ".to_string())]);

    let items = buffer.process_word(
        "world".to_string(),
        "session1",
        &no_command,
        &no_two_word,
        &never_starts_two_word,
    );
    assert_eq!(items, vec![ProcessedItem::Text("world ".to_string())]);
}

#[test]
fn test_session_change_resets_state() {
    let mut buffer = WordBuffer::new();

    buffer.process_word(
        "hello".to_string(),
        "session1",
        &no_command,
        &no_two_word,
        &never_starts_two_word,
    );

    let items = buffer.process_word(
        "new".to_string(),
        "session2",
        &no_command,
        &no_two_word,
        &never_starts_two_word,
    );
    assert_eq!(
        items,
        vec![ProcessedItem::Text("new ".to_string())],
        "new session should process words"
    );
}

#[test]
fn test_session_change_clears_pending() {
    let mut buffer = WordBuffer::new();

    let items = buffer.process_word(
        "select".to_string(),
        "session1",
        &simple_command_matcher,
        &select_all_matcher,
        &could_be_select,
    );
    assert!(items.is_empty(), "select should be buffered as pending");
    assert!(buffer.has_pending());

    let items = buffer.process_word(
        "hello".to_string(),
        "session2",
        &simple_command_matcher,
        &select_all_matcher,
        &could_be_select,
    );
    assert_eq!(items, vec![ProcessedItem::Text("hello ".to_string())]);
    assert!(!buffer.has_pending());
}

#[test]
fn test_single_word_command_matching() {
    let mut buffer = WordBuffer::new();

    let items = buffer.process_word(
        "enter".to_string(),
        "session1",
        &simple_command_matcher,
        &no_two_word,
        &never_starts_two_word,
    );
    assert_eq!(items, vec![ProcessedItem::Command("ENTER".to_string())]);

    let items = buffer.process_word(
        "copy".to_string(),
        "session1",
        &simple_command_matcher,
        &no_two_word,
        &never_starts_two_word,
    );
    assert_eq!(items, vec![ProcessedItem::Command("COPY".to_string())]);
}

#[test]
fn test_two_word_command_matching() {
    let mut buffer = WordBuffer::new();

    let items = buffer.process_word(
        "select".to_string(),
        "session1",
        &simple_command_matcher,
        &select_all_matcher,
        &could_be_select,
    );
    assert!(items.is_empty(), "select should be buffered");
    assert_eq!(buffer.pending_word(), Some("select"));

    let items = buffer.process_word(
        "all".to_string(),
        "session1",
        &simple_command_matcher,
        &select_all_matcher,
        &could_be_select,
    );
    assert_eq!(
        items,
        vec![ProcessedItem::Command("SELECT_ALL".to_string())]
    );
    assert!(!buffer.has_pending());
}

#[test]
fn test_look_ahead_no_match_emits_pending() {
    let mut buffer = WordBuffer::new();

    let items = buffer.process_word(
        "select".to_string(),
        "session1",
        &simple_command_matcher,
        &select_all_matcher,
        &could_be_select,
    );
    assert!(items.is_empty());

    let items = buffer.process_word(
        "something".to_string(),
        "session1",
        &simple_command_matcher,
        &select_all_matcher,
        &could_be_select,
    );
    assert_eq!(
        items,
        vec![
            ProcessedItem::Text("select ".to_string()),
            ProcessedItem::Text("something ".to_string()),
        ]
    );
}

#[test]
fn test_flush_pending_after_timeout() {
    let mut buffer = WordBuffer::new();

    buffer.process_word(
        "select".to_string(),
        "session1",
        &simple_command_matcher,
        &select_all_matcher,
        &could_be_select,
    );
    assert!(buffer.has_pending());

    // Immediately flush - should return empty (not timed out yet)
    let items = buffer.flush_pending(&simple_command_matcher);
    assert!(items.is_empty(), "should not flush before timeout");

    // The word has waited 200 ms: flush should emit it as text
    let items = buffer.flush_pending_after(200, &simple_command_matcher);
    assert_eq!(items, vec![ProcessedItem::Text("select ".to_string())]);
    assert!(!buffer.has_pending());
}

#[test]
fn test_flush_pending_single_word_command() {
    let mut buffer = WordBuffer::new();

    let select_is_command = |word: &str| -> Option<String> {
        if word.to_lowercase() == "select" {
            Some("SELECT".to_string())
        } else {
            None
        }
    };

    buffer.process_word(
        "select".to_string(),
        "session1",
        &select_is_command,
        &select_all_matcher,
        &could_be_select,
    );

    // The word has waited 200 ms
    let items = buffer.flush_pending_after(200, &select_is_command);
    assert_eq!(items, vec![ProcessedItem::Command("SELECT".to_string())]);
}

#[test]
fn test_mixed_text_and_commands() {
    let mut buffer = WordBuffer::new();

    let mut all_items = Vec::new();

    all_items.extend(buffer.process_word(
        "hello".to_string(),
        "session1",
        &simple_command_matcher,
        &no_two_word,
        &never_starts_two_word,
    ));
    all_items.extend(buffer.process_word(
        "enter".to_string(),
        "session1",
        &simple_command_matcher,
        &no_two_word,
        &never_starts_two_word,
    ));
    all_items.extend(buffer.process_word(
        "world".to_string(),
        "session1",
        &simple_command_matcher,
        &no_two_word,
        &never_starts_two_word,
    ));

    assert_eq!(
        all_items,
        vec![
            ProcessedItem::Text("hello ".to_string()),
            ProcessedItem::Command("ENTER".to_string()),
            ProcessedItem::Text("world ".to_string()),
        ]
    );
}

#[test]
fn test_reset_clears_all_state() {
    let mut buffer = WordBuffer::new();

    buffer.process_word(
        "hello".to_string(),
        "session1",
        &no_command,
        &no_two_word,
        &never_starts_two_word,
    );
    buffer.process_word(
        "world".to_string(),
        "session1",
        &no_command,
        &no_two_word,
        &never_starts_two_word,
    );

    buffer.reset();

    let items = buffer.process_word(
        "reconnected".to_string(),
        "session1",
        &no_command,
        &no_two_word,
        &never_starts_two_word,
    );

    assert_eq!(
        items,
        vec![ProcessedItem::Text("reconnected ".to_string())],
        "after reset, words should be processed"
    );
}

#[test]
fn test_flush_stale_is_noop() {
    let mut buffer = WordBuffer::new();

    let items = buffer.flush_stale(Duration::from_millis(100));
    assert!(items.is_empty());
}

#[test]
fn test_flush_at_exactly_the_timeout() {
    assert_eq!(LOOK_AHEAD_TIMEOUT_MS, 100);
    let mut buffer = WordBuffer::default();
    buffer.process_word(
        "select".to_string(),
        "s",
        &simple_command_matcher,
        &select_all_matcher,
        &could_be_select,
    );
    assert!(buffer.flush_pending_after(99, &simple_command_matcher).is_empty());
    assert_eq!(buffer.pending_word(), Some("select"));
    assert_eq!(
        buffer.flush_pending_after(100, &simple_command_matcher),
        vec![ProcessedItem::Text("select ".to_string())]
    );
    assert_eq!(buffer.pending_word(), None);
    assert!(buffer.flush_pending_after(1000, &simple_command_matcher).is_empty());
}

#[test]
fn test_flush_without_pending_gives_nothing() {
    let mut buffer = WordBuffer::new();
    assert!(buffer.flush_pending(&simple_command_matcher).is_empty());
    assert!(buffer.flush_pending_after(500, &simple_command_matcher).is_empty());
    assert_eq!(buffer.waited_ms(), 0);
}

#[test]
fn test_flush_stale_keeps_pending_word() {
    let mut buffer = WordBuffer::new();
    buffer.process_word(
        "select".to_string(),
        "s",
        &simple_command_matcher,
        &select_all_matcher,
        &could_be_select,
    );
    assert!(buffer.flush_stale(Duration::from_millis(0)).is_empty());
    assert_eq!(buffer.pending_word(), Some("select"));
}

#[test]
fn test_old_session_word_cannot_complete_command() {
    let mut buffer = WordBuffer::new();
    assert!(buffer
        .process_word(
            "select".to_string(),
            "s1",
            &simple_command_matcher,
            &select_all_matcher,
            &could_be_select,
        )
        .is_empty());
    let items = buffer.process_word(
        "all".to_string(),
        "s2",
        &simple_command_matcher,
        &select_all_matcher,
        &could_be_select,
    );
    assert_eq!(items, vec![ProcessedItem::Text("all ".to_string())]);
    assert!(!buffer.has_pending());
    let items = buffer.process_word(
        "all".to_string(),
        "s2",
        &simple_command_matcher,
        &select_all_matcher,
        &could_be_select,
    );
    assert_eq!(items, vec![ProcessedItem::Text("all ".to_string())]);
}

#[test]
fn test_pending_replaced_by_next_starter() {
    let mut buffer = WordBuffer::new();
    assert!(buffer
        .process_word(
            "select".to_string(),
            "s",
            &simple_command_matcher,
            &select_all_matcher,
            &could_be_select,
        )
        .is_empty());
    let items = buffer.process_word(
        "Select".to_string(),
        "s",
        &simple_command_matcher,
        &select_all_matcher,
        &could_be_select,
    );
    assert_eq!(items, vec![ProcessedItem::Text("select ".to_string())]);
    assert_eq!(buffer.pending_word(), Some("Select"));
    let items = buffer.process_word(
        "enter".to_string(),
        "s",
        &simple_command_matcher,
        &select_all_matcher,
        &could_be_select,
    );
    assert_eq!(
        items,
        vec![
            ProcessedItem::Text("Select ".to_string()),
            ProcessedItem::Command("ENTER".to_string()),
        ]
    );
}

#[test]
fn test_reset_drops_pending_word() {
    let mut buffer = WordBuffer::new();
    buffer.process_word(
        "select".to_string(),
        "s",
        &simple_command_matcher,
        &select_all_matcher,
        &could_be_select,
    );
    buffer.reset();
    assert!(!buffer.has_pending());
    let items = buffer.process_word(
        "all".to_string(),
        "s",
        &simple_command_matcher,
        &select_all_matcher,
        &could_be_select,
    );
    assert_eq!(items, vec![ProcessedItem::Text("all ".to_string())]);
}

#[test]
fn test_waited_ms_counts_from_arrival() {
    let mut buffer = WordBuffer::new();
    assert_eq!(buffer.waited_ms(), 0);
    buffer.process_word(
        "select".to_string(),
        "s",
        &simple_command_matcher,
        &select_all_matcher,
        &could_be_select,
    );
    assert!(buffer.waited_ms() < 100);
    buffer.reset();
    assert_eq!(buffer.waited_ms(), 0);
}
