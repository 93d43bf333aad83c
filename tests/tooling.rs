use rustpad::editor::formatter::{formatter_outcome, formatter_program, initialize_formatters, Language};
use rustpad::editor::linter::{initialize_linters, lint_code, parse_js_error, parse_python_error, parse_rust_error};

#[test]
fn formatters_by_language() {
    let store = initialize_formatters();
    assert_eq!(formatter_program(Language::Rust, &store).unwrap(), "rustfmt");
    assert_eq!(formatter_program(Language::Python, &store).unwrap(), "black");
    let empty = rustpad::editor::formatter::FormatterStore { programs: vec![] };
    assert_eq!(
        formatter_program(Language::JavaScript, &empty).unwrap_err().message,
        "Formatter for language JavaScript not found"
    );
    assert_eq!(formatter_outcome(true, "ok".to_string(), String::new()).unwrap(), "ok");
    assert_eq!(formatter_outcome(false, String::new(), "bad".to_string()).unwrap_err().message, "bad");
}

#[test]
fn lint_lines() {
    assert!(parse_rust_error("warning: unused").is_none());
    let e = parse_rust_error("error[E0308]: mismatched types").unwrap();
    assert_eq!(e.severity, "error");
    assert_eq!(e.line, 1);
    assert_eq!(parse_js_error("1:1 warning no-unused-vars").unwrap().severity, "warning");
    assert_eq!(parse_python_error("E0602 error undefined").unwrap().severity, "error");
    assert!(parse_python_error("all good").is_none());
    let store = initialize_linters();
    let out = vec!["x error y".to_string(), "fine".to_string(), "a warning".to_string()];
    let errors = lint_code("javascript", &out, &store);
    assert_eq!(errors.len(), 2);
    assert_eq!(errors[0].message, "x error y");
    assert_eq!(errors[1].severity, "warning");
    assert_eq!(lint_code("rust", &out, &store).len(), 1);
    assert!(lint_code("cobol", &out, &store).is_empty());
}
