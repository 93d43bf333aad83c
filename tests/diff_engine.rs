use rustpad::editor::diff_engine::{DiffEngine, DiffOperation};

#[test]
fn diff_insert_at_end() {
    let ops = DiffEngine::diff("hello", "hello world");
    assert_eq!(ops, vec![DiffOperation::Insert(5, " world".to_string())]);
}

#[test]
fn diff_delete_suffix() {
    let ops = DiffEngine::diff("hello world", "hello");
    assert_eq!(ops, vec![DiffOperation::Delete(5, 11)]);
}

#[test]
fn diff_replace_whole() {
    let ops = DiffEngine::diff("cat", "dog");
    assert_eq!(ops, vec![DiffOperation::Replace(0, 3, "dog".to_string())]);
}

#[test]
fn diff_of_identical_texts_is_empty() {
    assert!(DiffEngine::diff("", "").is_empty());
    assert!(DiffEngine::diff("same text", "same text").is_empty());
}

#[test]
fn diff_does_not_overlap_prefix_and_suffix() {
    let ops = DiffEngine::diff("aaa", "aaaa");
    assert_eq!(ops, vec![DiffOperation::Insert(3, "a".to_string())]);
}

#[test]
fn diff_middle_replacement() {
    let ops = DiffEngine::diff("the cat sat", "the dog sat");
    assert_eq!(ops, vec![DiffOperation::Replace(4, 7, "dog".to_string())]);
}

#[test]
fn diff_keeps_multibyte_characters_whole() {
    let ops = DiffEngine::diff("é", "è");
    assert_eq!(ops, vec![DiffOperation::Replace(0, 2, "è".to_string())]);
    assert_eq!(DiffEngine::apply("é", &ops), Some("è".to_string()));
}

#[test]
fn apply_inverts_diff() {
    let pairs = [
        ("", "abc"),
        ("abc", ""),
        ("hello", "hello world"),
        ("hello world", "hello"),
        ("cat", "dog"),
        ("aaa", "aaaa"),
        ("naïve café", "naive cafe"),
        ("line one\nline two", "line one\nline 2\nline three"),
    ];
    for (old, new) in pairs.iter() {
        let ops = DiffEngine::diff(old, new);
        assert_eq!(DiffEngine::apply(old, &ops), Some(new.to_string()));
    }
}

#[test]
fn apply_refuses_out_of_range_operation() {
    let ops = vec![DiffOperation::Delete(2, 10)];
    assert_eq!(DiffEngine::apply("abc", &ops), None);
    let ops = vec![DiffOperation::Insert(1, "x".to_string())];
    assert_eq!(DiffEngine::apply("é", &ops), None);
}

#[test]
fn apply_runs_operations_in_order() {
    let ops = vec![
        DiffOperation::Insert(0, "ab".to_string()),
        DiffOperation::Replace(1, 2, "X".to_string()),
    ];
    assert_eq!(DiffEngine::apply("c", &ops), Some("aXc".to_string()));
}
