use rustpad::document::{Document, DocumentUpdate};
use rustpad::editor::snippets::{
    add_snippet, delete_snippet, get_snippet, initialize_snippets, list_snippets, update_snippet, Snippet, SnippetStore,
};
use rustpad::editor::theme::{add_custom_theme, get_theme, initialize_themes, list_themes, set_theme, Theme};
use rustpad::storage::checkpoint::CheckpointManager;
use rustpad::storage::history::HistoryManager;
use rustpad::storage::theme as stored;
use rustpad::ui::cursors::CursorManager;

#[test]
fn snippets_are_managed_by_name() {
    let mut store = SnippetStore::new();
    initialize_snippets(&mut store);
    assert_eq!(list_snippets(&store).len(), 3);
    assert!(get_snippet(&store, "for-loop").unwrap().content.starts_with("for i in 0..10"));
    assert_eq!(get_snippet(&store, "if-else").unwrap().description, "An if-else conditional in Rust");
    let s = Snippet::new("hello", "greets", "println!(\"hi\");");
    assert!(add_snippet(&mut store, s.clone()).is_ok());
    assert_eq!(add_snippet(&mut store, s), Err("A snippet with this name already exists.".to_string()));
    assert!(update_snippet(&mut store, "hello", "println!(\"hey\");").is_ok());
    let got = get_snippet(&store, "hello").unwrap();
    assert_eq!(got.content, "println!(\"hey\");");
    assert_eq!(got.description, "greets");
    assert_eq!(update_snippet(&mut store, "nope", "x"), Err("Snippet not found.".to_string()));
    assert!(delete_snippet(&mut store, "hello").is_ok());
    assert_eq!(delete_snippet(&mut store, "hello"), Err("Snippet not found.".to_string()));
    assert!(get_snippet(&store, "hello").is_none());
}

#[test]
fn editor_themes() {
    let mut store = initialize_themes();
    assert_eq!(list_themes(&store), vec!["light".to_string(), "dark".to_string()]);
    assert_eq!(get_theme(&store, "dark").unwrap().background, "#1e1e1e");
    assert!(set_theme(&store, "light").is_ok());
    assert_eq!(set_theme(&store, "solar"), Err("Theme 'solar' not found.".to_string()));
    let solar = Theme::new("solar", "#002b36", "#839496", "#859900", "#2aa198", "#586e75");
    assert!(add_custom_theme(&mut store, solar.clone()).is_ok());
    assert_eq!(
        add_custom_theme(&mut store, solar),
        Err("A theme with the name 'solar' already exists.".to_string())
    );
    assert_eq!(list_themes(&store).len(), 3);
}

#[test]
fn stored_themes() {
    let mut themes = stored::initialize_themes();
    assert_eq!(stored::get_theme(&themes, "Dark").unwrap().background_color, "#282a36");
    let t = stored::Theme { name: "Dark".to_string(), background_color: "#000".to_string(), text_color: "#fff".to_string() };
    assert!(stored::set_theme(&mut themes, t).is_ok());
    assert_eq!(stored::get_theme(&themes, "Dark").unwrap().background_color, "#000");
    assert!(stored::get_theme(&themes, "Solar").is_none());
}

#[test]
fn checkpoints() {
    let mut m = CheckpointManager::new();
    let mut doc = Document::new();
    doc.apply_update(DocumentUpdate::new("draft", "alice"));
    assert!(m.save_checkpoint("v1", doc).is_ok());
    assert_eq!(m.load_checkpoint("v1").unwrap().content, "draft");
    assert!(m.load_checkpoint("never").is_none());
    assert_eq!(m.list_checkpoints(), vec!["v1".to_string()]);
    assert!(m.delete_checkpoint("v1").is_ok());
    assert!(m.delete_checkpoint("v1").is_ok());
    assert!(m.load_checkpoint("v1").is_none());
    m.save_checkpoint("a", Document::new()).unwrap();
    m.clear_checkpoints();
    assert!(m.list_checkpoints().is_empty());
}

#[test]
fn cursors() {
    let mut m = CursorManager::new();
    m.register_cursor("alice".to_string(), 3, "#f00".to_string());
    m.register_cursor("bob".to_string(), 0, "#0f0".to_string());
    m.update_cursor("alice".to_string(), 7);
    m.update_cursor("nobody".to_string(), 9);
    let all = m.get_cursors();
    assert_eq!(all.len(), 2);
    assert_eq!(all[0].position, 7);
    assert_eq!(all[0].color, "#f00");
    m.remove_cursor("alice");
    assert_eq!(m.get_cursors().len(), 1);
}

#[test]
fn history_keeps_latest_versions() {
    let mut h = HistoryManager::new("test_history", 5);
    assert_eq!(h.add_version("Version 1 content", "Initial version", 0), 1);
    assert_eq!(h.add_version("Version 2 content", "Second version", 1), 2);
    assert_eq!(h.get_version(1).unwrap().content, "Version 1 content");
    assert_eq!(h.get_version(2).unwrap().content, "Version 2 content");
    h.add_version("Version 3 content", "Third version", 2);
    h.add_version("Version 4 content", "Fourth version", 3);
    h.add_version("Version 5 content", "Fifth version", 4);
    h.add_version("Version 6 content", "Sixth version", 5);
    assert_eq!(h.list_versions().len(), 5);
    assert!(h.get_version(1).is_none());
    assert_eq!(h.base_dir(), "test_history");
}

#[test]
fn annotations_by_line() {
    let mut m = rustpad::editor::annotations::AnnotationManager::new();
    let note = |user: &str, line: usize| rustpad::editor::annotations::Annotation {
        user: user.to_string(),
        content: format!("note by {}", user),
        line_number: line,
        timestamp: "0".to_string(),
    };
    m.add_annotation(note("a", 3));
    m.add_annotation(note("b", 1));
    m.add_annotation(note("c", 3));
    let on3 = m.get_annotations_for_line(3);
    assert_eq!(on3.len(), 2);
    assert_eq!(on3[0].user, "a");
    assert_eq!(on3[1].user, "c");
    assert!(m.get_annotations_for_line(7).is_empty());
}
