//! Tests for command detection and the voice-driven text editor.

use bestme::commands::{CommandDetector, VoiceCommandType, word_similarity};
use bestme::editor::{DeleteScope, FormatOperation, TextStyle, VoiceTextEditor};
use bestme::interpreter::VoiceCommandConfig;
use bestme::editor::delete_scope_from_name;

#[test]
fn test_voice_command_detection() {
    // Test basic command detection functionality
    let detector = CommandDetector::new("delete", VoiceCommandType::Delete);

    // Should match exactly "delete" (sensitivity 800 per-mille)
    assert!(detector.detect("delete", 800).is_some());

    // Should match with some fuzziness: "deleet" agrees with "delete" in
    // four of six positions, 666 per-mille
    assert!(detector.detect("deleet", 650).is_some());

    // Shouldn't match unrelated words
    assert!(detector.detect("hello", 800).is_none());
}

#[test]
fn test_text_editor_delete_word() {
    let mut editor = VoiceTextEditor::new();

    // Test deleting the last word
    let text = "This is a test sentence";
    let result = editor.apply_delete(text, DeleteScope::LastWord);
    assert!(result.is_ok());
    assert_eq!(result.unwrap(), "This is a test");

    // Test with trailing whitespace
    let text = "This is a test   ";
    let result = editor.apply_delete(text, DeleteScope::LastWord);
    assert!(result.is_ok());
    assert_eq!(result.unwrap(), "This is a");

    // Test with empty text
    let text = "";
    let result = editor.apply_delete(text, DeleteScope::LastWord);
    assert!(result.is_ok());
    assert_eq!(result.unwrap(), "");
}

#[test]
fn test_text_editor_delete_sentence() {
    let mut editor = VoiceTextEditor::new();

    // Test deleting the last sentence
    let text = "This is the first sentence. This is the second sentence.";
    let result = editor.apply_delete(text, DeleteScope::LastSentence);
    assert!(result.is_ok());
    assert_eq!(result.unwrap(), "This is the first sentence.");

    // Test with multiple sentence endings
    let text = "Hello! This is a test. And another one!";
    let result = editor.apply_delete(text, DeleteScope::LastSentence);
    assert!(result.is_ok());
    assert_eq!(result.unwrap(), "Hello! This is a test.");

    // Test with no sentence ending
    let text = "This has no sentence ending";
    let result = editor.apply_delete(text, DeleteScope::LastSentence);
    assert!(result.is_ok());
    assert_eq!(result.unwrap(), "");
}

#[test]
fn test_text_editor_delete_paragraph() {
    let mut editor = VoiceTextEditor::new();

    // Test deleting the last paragraph with double newlines
    let text = "First paragraph.\n\nSecond paragraph.";
    let result = editor.apply_delete(text, DeleteScope::LastParagraph);
    assert!(result.is_ok());
    assert_eq!(result.unwrap(), "First paragraph.");

    // Test with single newlines
    let text = "First line.\nSecond line.";
    let result = editor.apply_delete(text, DeleteScope::LastParagraph);
    assert!(result.is_ok());
    assert_eq!(result.unwrap(), "First line.");

    // Test with no paragraph breaks
    let text = "Single paragraph.";
    let result = editor.apply_delete(text, DeleteScope::LastParagraph);
    assert!(result.is_ok());
    assert_eq!(result.unwrap(), "");
}

#[test]
fn test_text_editor_undo_redo() {
    let mut editor = VoiceTextEditor::new();

    // Initial state
    assert_eq!(editor.get_history().len(), 0);

    // Apply a delete operation
    let text = "This is a test sentence";
    let result = editor.apply_delete(text, DeleteScope::LastWord);
    assert!(result.is_ok());
    let new_text = result.unwrap();
    assert_eq!(new_text, "This is a test");
    assert_eq!(editor.get_history().len(), 1);

    // Apply another operation
    let result = editor.apply_delete(&new_text, DeleteScope::LastWord);
    assert!(result.is_ok());
    let new_text = result.unwrap();
    assert_eq!(new_text, "This is a");
    assert_eq!(editor.get_history().len(), 2);

    // Undo the last operation
    let undo_result = editor.undo();
    assert!(undo_result.is_some());
    assert_eq!(undo_result.unwrap(), "This is a test");
    assert_eq!(editor.get_history_position(), 1);

    // Undo again to get back to the original text
    let undo_result = editor.undo();
    assert!(undo_result.is_some());
    assert_eq!(undo_result.unwrap(), "This is a test sentence");
    assert_eq!(editor.get_history_position(), 0);

    // Should not be able to undo more
    let undo_result = editor.undo();
    assert!(undo_result.is_none());

    // Redo to get back to "This is a test"
    let redo_result = editor.redo();
    assert!(redo_result.is_some());
    assert_eq!(redo_result.unwrap(), "This is a test");
    assert_eq!(editor.get_history_position(), 1);

    // Redo again to get to "This is a"
    let redo_result = editor.redo();
    assert!(redo_result.is_some());
    assert_eq!(redo_result.unwrap(), "This is a");
    assert_eq!(editor.get_history_position(), 2);

    // Should not be able to redo more
    let redo_result = editor.redo();
    assert!(redo_result.is_none());
}

#[test]
fn test_history_truncation() {
    let mut editor = VoiceTextEditor::new();

    // Set a small history size for testing
    editor.set_max_history(3);

    // Add more operations than the history size
    let texts = [
        "First operation",
        "Second operation",
        "Third operation",
        "Fourth operation",
        "Fifth operation",
    ];

    for text in texts.iter() {
        let _ = editor.apply_delete(text, DeleteScope::LastWord);
    }

    // History should be truncated to max_history
    assert_eq!(editor.get_history().len(), 3);

    // The oldest operations should be removed; the three newest remain,
    // oldest first
    assert!(editor.get_history()[0].previous_text.contains("Third"));
    assert!(editor.get_history()[1].previous_text.contains("Fourth"));
    assert!(editor.get_history()[2].previous_text.contains("Fifth"));
}

#[test]
fn test_command_with_tauri_2_syntax() {
    // The default configuration has commands enabled
    let config = VoiceCommandConfig::default();
    assert!(config.enabled);
}

#[test]
fn test_text_editor_capitalize() {
    let mut editor = VoiceTextEditor::new();

    // Test capitalizing the last word
    let text = "this is a test sentence";
    let result = editor.apply_format(text, FormatOperation::Capitalize);
    assert!(result.is_ok());
    assert_eq!(result.unwrap(), "this is a test Sentence");

    // Test with single word
    let text = "test";
    let result = editor.apply_format(text, FormatOperation::Capitalize);
    assert!(result.is_ok());
    assert_eq!(result.unwrap(), "Test");

    // Test with empty text
    let text = "";
    let result = editor.apply_format(text, FormatOperation::Capitalize);
    assert!(result.is_ok());
    assert_eq!(result.unwrap(), "");
}

#[test]
fn test_text_editor_lowercase() {
    let mut editor = VoiceTextEditor::new();

    // Test lowercasing the last word
    let text = "this is a TEST";
    let result = editor.apply_format(text, FormatOperation::Lowercase);
    assert!(result.is_ok());
    assert_eq!(result.unwrap(), "this is a test");

    // Test with mixed case
    let text = "this is a TeSt";
    let result = editor.apply_format(text, FormatOperation::Lowercase);
    assert!(result.is_ok());
    assert_eq!(result.unwrap(), "this is a test");

    // Test with single word
    let text = "TEST";
    let result = editor.apply_format(text, FormatOperation::Lowercase);
    assert!(result.is_ok());
    assert_eq!(result.unwrap(), "test");
}

#[test]
fn test_text_editor_uppercase() {
    let mut editor = VoiceTextEditor::new();

    // Test uppercasing the last word
    let text = "this is a test sentence";
    let result = editor.apply_format(text, FormatOperation::Uppercase);
    assert!(result.is_ok());
    assert_eq!(result.unwrap(), "this is a test SENTENCE");

    // Test with mixed case
    let text = "this is a TeSt";
    let result = editor.apply_format(text, FormatOperation::Uppercase);
    assert!(result.is_ok());
    assert_eq!(result.unwrap(), "this is a TEST");

    // Test with single word
    let text = "test";
    let result = editor.apply_format(text, FormatOperation::Uppercase);
    assert!(result.is_ok());
    assert_eq!(result.unwrap(), "TEST");
}

#[test]
fn test_text_editor_styling() {
    let mut editor = VoiceTextEditor::new();

    // Test bold styling
    let text = "this is a test sentence";
    let result = editor.apply_format(text, FormatOperation::Style(TextStyle::Bold));
    assert!(result.is_ok());
    assert_eq!(result.unwrap(), "this is a test **sentence**");

    // Test italic styling
    let text = "this is a test sentence";
    let result = editor.apply_format(text, FormatOperation::Style(TextStyle::Italic));
    assert!(result.is_ok());
    assert_eq!(result.unwrap(), "this is a test *sentence*");

    // Test underline styling
    let text = "this is a test sentence";
    let result = editor.apply_format(text, FormatOperation::Style(TextStyle::Underline));
    assert!(result.is_ok());
    assert_eq!(result.unwrap(), "this is a test _sentence_");
}

#[test]
fn test_tauri_2_compatible_formats() {
    // The default configuration has commands enabled
    let config = VoiceCommandConfig::default();
    assert!(config.enabled);

    // Test creating the format operations
    let capitalize = FormatOperation::Capitalize;
    let lowercase = FormatOperation::Lowercase;
    let uppercase = FormatOperation::Uppercase;

    assert!(matches!(capitalize, FormatOperation::Capitalize));
    assert!(matches!(lowercase, FormatOperation::Lowercase));
    assert!(matches!(uppercase, FormatOperation::Uppercase));
}

#[test]
fn word_similarity_is_total_for_equal_words() {
    // similarity of a word with itself is 1000 per-mille, for any word
    assert_eq!(word_similarity("a", "a"), 1000);
    assert_eq!(word_similarity("delete", "delete"), 1000);
    assert_eq!(word_similarity("", ""), 1000);
}

#[test]
fn word_similarity_is_zero_for_very_different_lengths() {
    // lengths 1 and 6: the difference is more than half the longer length
    assert_eq!(word_similarity("a", "abcdef"), 0);
    assert_eq!(word_similarity("abcdef", "a"), 0);
}

#[test]
fn word_similarity_counts_matching_positions() {
    // "deleet" and "delete" agree in four of six positions
    assert_eq!(word_similarity("deleet", "delete"), 666);
    // same length, nothing in common
    assert_eq!(word_similarity("abc", "xyz"), 0);
}

#[test]
fn undo_and_redo_restore_exact_text_for_every_operation() {
    // For every delete scope and format operation: undo restores the prior
    // text exactly, redo restores the post-operation text exactly.
    let text = "One two. Three four!\n\nFive six seven";
    let deletes = [
        DeleteScope::LastWord,
        DeleteScope::LastSentence,
        DeleteScope::LastParagraph,
        DeleteScope::Words(2),
        DeleteScope::FromPosition(7),
        DeleteScope::Range(2, 5),
    ];
    for scope in deletes.iter() {
        let mut editor = VoiceTextEditor::new();
        let after = editor.apply_delete(text, scope.clone()).unwrap();
        assert_eq!(editor.undo().unwrap(), text);
        assert_eq!(editor.redo().unwrap(), after);
    }
    let formats = [
        FormatOperation::Capitalize,
        FormatOperation::Lowercase,
        FormatOperation::Uppercase,
        FormatOperation::Style(TextStyle::Bold),
        FormatOperation::Style(TextStyle::Italic),
        FormatOperation::Style(TextStyle::Underline),
    ];
    for op in formats.iter() {
        let mut editor = VoiceTextEditor::new();
        let after = editor.apply_format(text, op.clone()).unwrap();
        assert_eq!(editor.undo().unwrap(), text);
        assert_eq!(editor.redo().unwrap(), after);
    }
}

#[test]
fn undo_redo_on_empty_editor_return_none() {
    let mut editor = VoiceTextEditor::new();
    assert!(editor.undo().is_none());
    assert!(editor.redo().is_none());
}

#[test]
fn new_edit_after_undo_discards_redo_branch() {
    let mut editor = VoiceTextEditor::new();
    let _ = editor.apply_delete("alpha beta gamma", DeleteScope::LastWord);
    let _ = editor.apply_delete("alpha beta", DeleteScope::LastWord);
    assert!(editor.undo().is_some());
    // a new edit after undo discards the redo branch
    let _ = editor.apply_format("alpha beta", FormatOperation::Uppercase);
    assert_eq!(editor.get_history().len(), 2);
    assert_eq!(editor.redo(), None);
}

#[test]
fn delete_words_and_positions() {
    let mut editor = VoiceTextEditor::new();
    assert_eq!(
        editor.apply_delete("one two three four", DeleteScope::Words(2)).unwrap(),
        "one two"
    );
    assert_eq!(
        editor.apply_delete("one two three", DeleteScope::Words(5)).unwrap(),
        ""
    );
    assert_eq!(
        editor.apply_delete("abcdef", DeleteScope::FromPosition(3)).unwrap(),
        "abc"
    );
    assert_eq!(
        editor.apply_delete("abcdef", DeleteScope::FromPosition(10)).unwrap(),
        "abcdef"
    );
    assert_eq!(
        editor.apply_delete("abcdef", DeleteScope::Range(1, 3)).unwrap(),
        "adef"
    );
    assert_eq!(
        editor.apply_delete("abcdef", DeleteScope::Range(4, 100)).unwrap(),
        "abcd"
    );
    assert_eq!(
        editor.apply_delete("abcdef", DeleteScope::Range(3, 3)).unwrap(),
        "abcdef"
    );
}

#[test]
fn delete_scope_names_map_to_scopes() {
    assert_eq!(delete_scope_from_name("word").unwrap(), DeleteScope::LastWord);
    assert_eq!(
        delete_scope_from_name("sentence").unwrap(),
        DeleteScope::LastSentence
    );
    assert_eq!(
        delete_scope_from_name("paragraph").unwrap(),
        DeleteScope::LastParagraph
    );
    assert!(delete_scope_from_name("everything").is_err());
}
