use rustpad::auth::session::UserSession;
use rustpad::ui::user_profile::UserProfile;
use rustpad::utils::diff_util::{apply_diff, compute_diff, revert_diff, DiffOperation};
use rustpad::utils::helpers::{bytes_to_hex, hash_sha256};
use rustpad::utils::types::OperationResponse;

#[test]
fn hex_encoding() {
    assert_eq!(bytes_to_hex(&[]), "");
    assert_eq!(bytes_to_hex(&[0x00, 0x0f, 0xa5, 0xff]), "000fa5ff");
}

#[test]
fn sha256_of_known_inputs() {
    assert_eq!(hash_sha256("abc"), "ba7816bf8f01cfea414140de5dae2223b00361a396177a9cb410ff61f20015ad");
    assert_eq!(hash_sha256(""), "e3b0c44298fc1c149afbf4c8996fb92427ae41e4649b934ca495991b7852b855");
}

#[test]
fn line_diff_sides() {
    let ops = vec![
        DiffOperation::Equal("a\n".to_string()),
        DiffOperation::Delete("b\n".to_string()),
        DiffOperation::Insert("c\n".to_string()),
    ];
    assert_eq!(apply_diff("a\nb\n", &ops), "a\nc\n");
    assert_eq!(revert_diff("a\nc\n", &ops), "a\nb\n");
}

#[test]
fn compute_diff_marks_changed_lines() {
    let ops = compute_diff("one\ntwo", "one\nthree");
    assert!(ops.iter().any(|op| matches!(op, DiffOperation::Equal(s) if s == "one")));
    assert!(ops.iter().any(|op| matches!(op, DiffOperation::Delete(s) if s == "two")));
    assert!(ops.iter().any(|op| matches!(op, DiffOperation::Insert(s) if s == "three")));
}

#[test]
fn responses_and_profiles() {
    let ok = OperationResponse::success("saved");
    assert!(ok.success);
    assert_eq!(ok.message, "saved");
    assert!(!OperationResponse::failure("no").success);
    let session = UserSession::new("u1".to_string());
    assert!(session.is_authenticated);
    let mut p = UserProfile::new("ann".to_string(), None, "dark".to_string());
    p.update(None, Some("ann@example.org".to_string()), Some("light".to_string()));
    assert_eq!(p.username, "ann");
    assert_eq!(p.email, Some("ann@example.org".to_string()));
    assert_eq!(p.theme, "light");
}
