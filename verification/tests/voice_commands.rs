use speech2prompt_desktop::voice_commands::{
    default_phrase_table, normalize_phrase, PhraseError, VoiceCommandMapping, VoiceCommandStore,
    VoiceCommandsFile,
};

#[test]
fn test_normalize_phrase_empty() {
    assert_eq!(normalize_phrase(""), "");
    assert_eq!(normalize_phrase("   "), "");
}

#[test]
fn test_normalize_phrase_single_word() {
    assert_eq!(normalize_phrase("hello"), "hello");
    assert_eq!(normalize_phrase("HELLO"), "hello");
    assert_eq!(normalize_phrase("  hello  "), "hello");
}

#[test]
fn test_normalize_phrase_two_words() {
    assert_eq!(normalize_phrase("hello world"), "hello world");
    assert_eq!(normalize_phrase("HELLO WORLD"), "hello world");
    assert_eq!(normalize_phrase("  hello   world  "), "hello world");
}

#[test]
fn test_normalize_phrase_more_than_two_words() {
    assert_eq!(normalize_phrase("one two three"), "two three");
    assert_eq!(normalize_phrase("a b c d"), "c d");
    assert_eq!(normalize_phrase("please do enter"), "do enter");
}

#[test]
fn test_set_phrase_single_word() {
    let mut store = VoiceCommandStore::new();

    store.set_phrase("ENTER", "submit").unwrap();
    assert_eq!(store.get_phrase("ENTER"), "submit");
}

#[test]
fn test_set_phrase_two_words() {
    let mut store = VoiceCommandStore::new();

    store.set_phrase("ENTER", "do enter").unwrap();
    assert_eq!(store.get_phrase("ENTER"), "do enter");
}

#[test]
fn test_set_phrase_more_than_two_words_takes_last_two() {
    let mut store = VoiceCommandStore::new();

    store.set_phrase("ENTER", "please do enter").unwrap();
    assert_eq!(store.get_phrase("ENTER"), "do enter");
}

#[test]
fn test_could_start_two_word_command_no_matches() {
    let store = VoiceCommandStore::new();

    assert!(!store.could_start_two_word_command("do"));
    assert!(!store.could_start_two_word_command("hello"));
}

#[test]
fn test_could_start_two_word_command_single_word_phrase() {
    let mut store = VoiceCommandStore::new();

    store.set_phrase("ENTER", "submit").unwrap();
    assert!(!store.could_start_two_word_command("submit"));
}

#[test]
fn test_could_start_two_word_command_two_word_phrase() {
    let mut store = VoiceCommandStore::new();

    store.set_phrase("ENTER", "do enter").unwrap();
    assert!(store.could_start_two_word_command("do"));
    assert!(store.could_start_two_word_command("DO"));
    assert!(!store.could_start_two_word_command("enter"));
    assert!(!store.could_start_two_word_command("other"));
}

#[test]
fn test_could_start_two_word_command_multiple_phrases() {
    let mut store = VoiceCommandStore::new();

    store.set_phrase("ENTER", "do enter").unwrap();
    store.set_phrase("COPY", "grab it").unwrap();
    store.set_phrase("PASTE", "put").unwrap();

    assert!(store.could_start_two_word_command("do"));
    assert!(store.could_start_two_word_command("grab"));
    assert!(!store.could_start_two_word_command("put"));
    assert!(!store.could_start_two_word_command("other"));
}

#[test]
fn test_match_phrase_two_words() {
    let mut store = VoiceCommandStore::new();

    store.set_phrase("ENTER", "do enter").unwrap();

    assert_eq!(store.match_phrase("do enter"), Some("ENTER".to_string()));
    assert_eq!(store.match_phrase("DO ENTER"), Some("ENTER".to_string()));
    assert_eq!(store.match_phrase("do"), None);
    assert_eq!(store.match_phrase("enter"), None);
}

#[test]
fn test_normalize_phrase_other_white_space_and_case() {
    assert_eq!(normalize_phrase("\tDo\n\nEnter\r\n"), "do enter");
    assert_eq!(normalize_phrase("ŠMACH"), "šmach");
    assert_eq!(normalize_phrase("a\u{00A0}b c"), "b c");
}

#[test]
fn test_default_phrases_table() {
    assert_eq!(
        default_phrase_table(),
        vec![
            ("ENTER", "enter"),
            ("SELECT_ALL", "select all"),
            ("COPY", "copy"),
            ("PASTE", "paste"),
            ("CUT", "cut"),
            ("CANCEL", "cancel"),
        ]
    );
}

#[test]
fn test_defaults_match_until_overridden() {
    let mut store = VoiceCommandStore::new();
    assert_eq!(store.match_phrase("enter"), Some("ENTER".to_string()));
    assert_eq!(store.match_phrase("  Select All "), Some("SELECT_ALL".to_string()));
    assert_eq!(store.match_phrase("cancel"), Some("CANCEL".to_string()));
    assert_eq!(store.match_phrase("select"), None);
    assert_eq!(store.get_phrase("enter"), "enter");
    assert_eq!(store.get_phrase("SELECT_ALL"), "select all");
    assert_eq!(store.get_phrase("Backspace"), "backspace");
    assert!(!store.has_custom_phrase("ENTER"));

    store.set_phrase("enter", "Submit").unwrap();
    assert!(store.has_custom_phrase("ENTER"));
    assert!(store.has_custom_phrase("Enter"));
    assert_eq!(store.get_phrase("ENTER"), "submit");
    assert_eq!(store.match_phrase("submit"), Some("ENTER".to_string()));
    assert_eq!(store.match_phrase("enter"), None);
    assert_eq!(store.match_phrase("copy"), Some("COPY".to_string()));

    store.revert_to_default("Enter");
    assert!(!store.has_custom_phrase("ENTER"));
    assert_eq!(store.match_phrase("enter"), Some("ENTER".to_string()));
    assert_eq!(store.match_phrase("submit"), None);
    store.revert_to_default("ENTER");
    assert_eq!(store.get_phrase("ENTER"), "enter");
}

#[test]
fn test_set_phrase_replaces_and_refuses_empty() {
    let mut store = VoiceCommandStore::new();
    store.set_phrase("ENTER", "one").unwrap();
    store.set_phrase("COPY", "two").unwrap();
    store.set_phrase("ENTER", "three").unwrap();
    assert_eq!(store.get_phrase("ENTER"), "three");
    assert_eq!(store.match_phrase("one"), None);
    assert_eq!(store.mappings().len(), 2);
    assert_eq!(store.set_phrase("ENTER", "   "), Err(PhraseError::EmptyPhrase));
    assert_eq!(store.set_phrase("PASTE", ""), Err(PhraseError::EmptyPhrase));
    assert_eq!(store.get_phrase("ENTER"), "three");
    assert!(!store.has_custom_phrase("PASTE"));
    let stored = store.mappings();
    assert_eq!(stored[0].phrase, "three");
    assert_eq!(stored[0].command, "ENTER");
    assert_eq!(stored[1].phrase, "two");
    assert!(stored[0].created_at > 1_600_000_000_000);
}

#[test]
fn test_first_stored_phrase_wins() {
    let mut store = VoiceCommandStore::new();
    store.set_phrase("COPY", "go").unwrap();
    store.set_phrase("PASTE", "go").unwrap();
    assert_eq!(store.match_phrase("go"), Some("COPY".to_string()));
    store.revert_to_default("COPY");
    assert_eq!(store.match_phrase("go"), Some("PASTE".to_string()));
}

#[test]
fn test_custom_command_outside_defaults() {
    let mut store = VoiceCommandStore::new();
    store.set_phrase("backspace", "oops").unwrap();
    assert_eq!(store.match_phrase("Oops"), Some("BACKSPACE".to_string()));
    assert_eq!(store.get_phrase("BACKSPACE"), "oops");
    assert_eq!(store.get_all_commands().len(), 6);
}

#[test]
fn test_get_all_commands() {
    let mut store = VoiceCommandStore::new();
    store.set_phrase("COPY", "grab it").unwrap();
    let all = store.get_all_commands();
    assert_eq!(all.len(), 6);
    assert_eq!(all[0].command, "ENTER");
    assert_eq!(all[0].phrase, "enter");
    assert_eq!(all[0].default_phrase, "enter");
    assert!(!all[0].is_custom);
    assert_eq!(all[1].command, "SELECT_ALL");
    assert_eq!(all[1].phrase, "select all");
    assert_eq!(all[2].command, "COPY");
    assert_eq!(all[2].phrase, "grab it");
    assert_eq!(all[2].default_phrase, "copy");
    assert!(all[2].is_custom);
    assert_eq!(all[5].command, "CANCEL");
}

#[test]
fn test_load_normalizes_and_skips_empty() {
    let mut store = VoiceCommandStore::new();
    store.set_phrase("CUT", "snip").unwrap();
    let mappings = vec![
        VoiceCommandMapping { phrase: "  Please Do Enter ".to_string(), command: "enter".to_string(), created_at: 5 },
        VoiceCommandMapping { phrase: "   ".to_string(), command: "COPY".to_string(), created_at: 6 },
        VoiceCommandMapping { phrase: "Put".to_string(), command: "PASTE".to_string(), created_at: 7 },
        VoiceCommandMapping { phrase: "again".to_string(), command: "Enter".to_string(), created_at: 8 },
    ];
    store.load(mappings);
    assert!(!store.has_custom_phrase("CUT"));
    assert!(!store.has_custom_phrase("COPY"));
    assert_eq!(store.get_phrase("ENTER"), "again");
    assert_eq!(store.get_phrase("PASTE"), "put");
    let stored = store.mappings();
    assert_eq!(stored.len(), 2);
    assert_eq!(stored[0].command, "Enter");
    assert_eq!(stored[0].created_at, 8);
    assert_eq!(stored[1].command, "PASTE");
    assert_eq!(stored[1].created_at, 7);
    store.load(Vec::new());
    assert_eq!(store.mappings().len(), 0);
}

#[test]
fn test_mapping_and_file_defaults() {
    let mapping = VoiceCommandMapping::new("go".to_string(), "ENTER".to_string());
    assert_eq!(mapping.phrase, "go");
    assert_eq!(mapping.command, "ENTER");
    let copy = mapping.duplicate();
    assert_eq!(copy.phrase, "go");
    assert_eq!(copy.created_at, mapping.created_at);
    let file = VoiceCommandsFile::default();
    assert_eq!(file.version, 1);
    assert!(file.mappings.is_empty());
}

#[test]
fn test_mapping_at_keeps_time() {
    let mapping = VoiceCommandMapping::at("go".to_string(), "ENTER".to_string(), -42);
    assert_eq!(mapping.phrase, "go");
    assert_eq!(mapping.command, "ENTER");
    assert_eq!(mapping.created_at, -42);
}

#[test]
fn test_set_phrase_at_keeps_command_in_capitals_and_time() {
    let mut store = VoiceCommandStore::new();
    store.set_phrase_at("enter", "Please Go Now", 1234).unwrap();
    store.set_phrase_at("copy", "take", 99).unwrap();
    let stored = store.mappings();
    assert_eq!(stored.len(), 2);
    assert_eq!(stored[0].phrase, "go now");
    assert_eq!(stored[0].command, "ENTER");
    assert_eq!(stored[0].created_at, 1234);
    assert_eq!(stored[1].phrase, "take");
    assert_eq!(stored[1].command, "COPY");
    assert_eq!(stored[1].created_at, 99);
    store.set_phrase_at("Enter", "again", 5000).unwrap();
    let stored = store.mappings();
    assert_eq!(stored.len(), 2);
    assert_eq!(stored[0].phrase, "again");
    assert_eq!(stored[0].command, "ENTER");
    assert_eq!(stored[0].created_at, 5000);
    assert_eq!(store.set_phrase_at("copy", "  ", 1), Err(PhraseError::EmptyPhrase));
    assert_eq!(store.mappings()[1].created_at, 99);
    store.revert_to_default("ENTER");
    let stored = store.mappings();
    assert_eq!(stored.len(), 1);
    assert_eq!(stored[0].command, "COPY");
}

#[test]
fn test_set_phrase_stamps_the_present() {
    let mut store = VoiceCommandStore::new();
    store.set_phrase("enter", "go").unwrap();
    let stored = store.mappings();
    assert_eq!(stored[0].command, "ENTER");
    // After 2020 and before 2200, in milliseconds.
    assert!(stored[0].created_at > 1_577_836_800_000);
    assert!(stored[0].created_at < 7_258_118_400_000);
}
