use tally::tui::key::{KeyCode, KeyEvent, KeyModifiers};
use tally::tui::tag_editor::{TagEditor, TagEditorAction};

fn known() -> Vec<String> {
    vec![
        "coffee-shop".to_string(),
        "coffee".to_string(),
        "work".to_string(),
        "work/travel".to_string(),
    ]
}

fn editor(tags: &[&str]) -> TagEditor {
    let tags: Vec<String> = tags.iter().map(|t| t.to_string()).collect();
    TagEditor::new(1, &tags, known())
}

fn key(code: KeyCode) -> KeyEvent {
    KeyEvent::plain(code)
}

fn ctrl(c: char) -> KeyEvent {
    KeyEvent::ctrl(c)
}

fn ctrl_left() -> KeyEvent {
    let modifiers = KeyModifiers { control: true, alt: false, shift: false };
    KeyEvent::new(KeyCode::Left, modifiers)
}

fn typed(editor: &mut TagEditor, text: &str) {
    for c in text.chars() {
        editor.handle_key(&key(KeyCode::Char(c)));
    }
}

#[test]
fn existing_tags_load_with_a_trailing_space() {
    let editor = editor(&["work", "coffee"]);
    assert_eq!(editor.input(), "work coffee ");
    assert_eq!(editor.cursor(), 12);
    assert_eq!(editor.tags(), vec!["work", "coffee"]);
}

#[test]
fn space_commits_the_literal_token_not_the_highlighted_suggestion() {
    let mut editor = editor(&[]);
    typed(&mut editor, "coffee");
    // `coffee-shop` may well outrank `coffee` in the list; Space must not
    // care.
    assert!(!editor.suggestions().is_empty());
    typed(&mut editor, " ");
    assert_eq!(editor.tags(), vec!["coffee"]);
    assert_eq!(editor.input(), "coffee ");
}

#[test]
fn tab_accepts_the_highlighted_suggestion_and_leaves_a_trailing_space() {
    let mut editor = editor(&[]);
    typed(&mut editor, "cof");
    editor.handle_key(&key(KeyCode::Tab));
    assert_eq!(editor.input(), "coffee ");
    assert_eq!(editor.cursor(), 7);
    assert_eq!(editor.tags(), vec!["coffee"]);
}

#[test]
fn arrow_keys_choose_a_different_suggestion_for_tab() {
    let mut editor = editor(&[]);
    typed(&mut editor, "cof");
    let first = editor.suggestions()[0].name.clone();
    editor.handle_key(&key(KeyCode::Down));
    let second = editor.suggestions()[1].name.clone();
    assert_ne!(first, second);
    editor.handle_key(&key(KeyCode::Tab));
    assert_eq!(editor.tags(), vec![second]);
}

#[test]
fn enter_and_ctrl_s_save_esc_cancels() {
    let mut editor = editor(&[]);
    typed(&mut editor, "cof");
    // Enter saves even mid-token, keeping what was typed.
    assert_eq!(
        editor.handle_key(&key(KeyCode::Enter)),
        TagEditorAction::Save
    );
    assert_eq!(editor.tags(), vec!["cof"]);
    assert_eq!(editor.handle_key(&ctrl('s')), TagEditorAction::Save);
    assert_eq!(
        editor.handle_key(&key(KeyCode::Esc)),
        TagEditorAction::Cancel
    );
}

#[test]
fn a_leading_hash_is_optional() {
    let mut editor = editor(&[]);
    typed(&mut editor, "#work #coffee");
    assert_eq!(editor.tags(), vec!["work", "coffee"]);
}

#[test]
fn tags_are_canonicalised_and_deduplicated() {
    let mut editor = editor(&[]);
    typed(&mut editor, "Work work WORK");
    assert_eq!(editor.tags(), vec!["work"]);
}

#[test]
fn invalid_tokens_are_reported_and_excluded() {
    let mut editor = editor(&[]);
    typed(&mut editor, "ok b@d");
    assert_eq!(editor.tags(), vec!["ok"]);
    assert_eq!(editor.invalid_tokens(), vec!["b@d"]);
}

#[test]
fn suggestions_exclude_tags_used_in_other_tokens() {
    let mut editor = editor(&["work"]);
    typed(&mut editor, "wor");
    let names: Vec<String> = editor.suggestions().into_iter().map(|s| s.name).collect();
    assert!(!names.contains(&"work".to_string()));
    assert!(names.contains(&"work/travel".to_string()));
}

#[test]
fn an_empty_token_offers_every_tag_flagged_with_what_is_applied() {
    let editor = editor(&["work"]);
    let suggestions = editor.suggestions();
    // "work" is used by another token, so it is filtered out; the rest are
    // all offered and none of them is applied.
    let names: Vec<String> = suggestions.iter().map(|s| s.name.clone()).collect();
    assert_eq!(names, vec!["coffee-shop", "coffee", "work/travel"]);
    assert!(suggestions.iter().all(|s| !s.applied));
}

#[test]
fn backspace_edits_mid_tag_without_a_special_mode() {
    let mut editor = editor(&["work", "coffe"]);
    editor.handle_key(&key(KeyCode::Left)); // off the trailing space
    editor.handle_key(&key(KeyCode::Backspace));
    typed(&mut editor, "ee");
    assert_eq!(editor.tags(), vec!["work", "coffee"]);
}

#[test]
fn ctrl_w_deletes_a_whole_tag() {
    let mut editor = editor(&["work", "coffee"]);
    editor.handle_key(&ctrl('w'));
    assert_eq!(editor.tags(), vec!["work"]);
    editor.handle_key(&ctrl('w'));
    assert!(editor.tags().is_empty());
}

#[test]
fn repeated_spaces_do_not_create_empty_tokens() {
    let mut editor = editor(&[]);
    typed(&mut editor, "work   ");
    assert_eq!(editor.input(), "work ");
}

#[test]
fn ctrl_arrows_move_tag_by_tag() {
    let mut editor = editor(&["alpha", "beta"]);
    editor.handle_key(&ctrl_left());
    assert_eq!(editor.cursor(), 6); // start of "beta"
    editor.handle_key(&ctrl_left());
    assert_eq!(editor.cursor(), 0);
}

#[test]
fn accepting_a_suggestion_mid_line_does_not_swallow_the_next_tag() {
    let mut editor = editor(&[]);
    typed(&mut editor, "cof work");
    // Move back into the first token.
    for _ in 0.."work".len() + 1 {
        editor.handle_key(&key(KeyCode::Left));
    }
    editor.handle_key(&key(KeyCode::Tab));
    assert_eq!(editor.input(), "coffee work");
    assert_eq!(editor.tags(), vec!["coffee", "work"]);
}

#[test]
fn ctrl_arrows_offer_for_the_tag_they_land_in() {
    let mut editor = editor(&["coffee", "work"]);
    editor.handle_key(&ctrl_left());
    assert_eq!(editor.cursor(), 7);
    let names: Vec<String> = editor.suggestions().into_iter().map(|s| s.name).collect();
    assert!(names.contains(&"work".to_string()));
    assert!(names.contains(&"work/travel".to_string()));
    assert!(!names.contains(&"coffee".to_string()));
    assert!(!names.contains(&"coffee-shop".to_string()));

    editor.handle_key(&ctrl_left());
    assert_eq!(editor.cursor(), 0);
    let names: Vec<String> = editor.suggestions().into_iter().map(|s| s.name).collect();
    assert!(names.contains(&"coffee".to_string()));
    assert!(!names.contains(&"work".to_string()));
}
