//! Problems reported by the external linters, read from their output.

use vstd::prelude::*;
use crate::editor::formatter::Language;
use crate::store::{NamedStore, has_key, lookup, key_seq, lemma_put_lookup};
use crate::text::{contains_text, text_contains};

verus! {

/// One problem a linter reported.
#[derive(Debug, Clone)]
pub struct LintError {
    pub line: usize,
    pub column: usize,
    pub message: String,
    /// `error` or `warning`.
    pub severity: String,
}

/// A problem as line, column, message and severity.
pub open spec fn lint_view(e: LintError) -> (int, int, Seq<char>, Seq<char>) {
    (e.line as int, e.column as int, e.message@, e.severity@)
}

/// What a line of a linter's output reports for `language`: for Rust, any
/// line that mentions `error`; for JavaScript and Python, any line that
/// mentions `error` (an error) or else `warning` (a warning). The position is
/// not read from the line and stays at line 1, column 1.
pub open spec fn lint_of(language: Language, line: Seq<char>) -> Option<(int, int, Seq<char>, Seq<char>)> {
    let e = contains_text(line, "error"@);
    let w = contains_text(line, "warning"@);
    match language {
        Language::Rust => if e { Some((1, 1, line, "error"@)) } else { None },
        _ => if e { Some((1, 1, line, "error"@)) } else if w { Some((1, 1, line, "warning"@)) } else { None },
    }
}

/// The problems the output lines report, in order.
pub open spec fn lints(language: Language, lines: Seq<Seq<char>>) -> Seq<(int, int, Seq<char>, Seq<char>)>
    decreases lines.len(),
{
    if lines.len() == 0 {
        Seq::empty()
    } else {
        let rest = lints(language, lines.drop_last());
        match lint_of(language, lines.last()) {
            Some(x) => rest.push(x),
            None => rest,
        }
    }
}

fn problem(line: &str, severity: &str) -> (r: LintError)
    ensures
        lint_view(r) == (1int, 1int, line@, severity@),
{
    LintError { line: 1, column: 1, message: line.to_owned(), severity: severity.to_owned() }
}

/// A problem reported by `cargo check` on this line, if any.
pub fn parse_rust_error(line: &str) -> (r: Option<LintError>)
    ensures
        r matches Some(e) ==> lint_of(Language::Rust, line@) == Some(lint_view(e)),
        r is None ==> lint_of(Language::Rust, line@) is None,
{
    if text_contains(line, "error") {
        Some(problem(line, "error"))
    } else {
        None
    }
}

/// A problem reported by ESLint on this line, if any.
pub fn parse_js_error(line: &str) -> (r: Option<LintError>)
    ensures
        r matches Some(e) ==> lint_of(Language::JavaScript, line@) == Some(lint_view(e)),
        r is None ==> lint_of(Language::JavaScript, line@) is None,
{
    if text_contains(line, "error") {
        Some(problem(line, "error"))
    } else if text_contains(line, "warning") {
        Some(problem(line, "warning"))
    } else {
        None
    }
}

/// A problem reported by Pylint on this line, if any.
pub fn parse_python_error(line: &str) -> (r: Option<LintError>)
    ensures
        r matches Some(e) ==> lint_of(Language::Python, line@) == Some(lint_view(e)),
        r is None ==> lint_of(Language::Python, line@) is None,
{
    if text_contains(line, "error") {
        Some(problem(line, "error"))
    } else if text_contains(line, "warning") {
        Some(problem(line, "warning"))
    } else {
        None
    }
}

/// A linter: the program it runs and how it reads one line of its output.
pub trait Linter {
    fn program(&self) -> &'static str;

    fn parse_line(&self, line: &str) -> Option<LintError>;
}

/// Lints Rust with `cargo check`.
pub struct RustLinter;

impl Linter for RustLinter {
    fn program(&self) -> &'static str {
        "cargo"
    }

    fn parse_line(&self, line: &str) -> Option<LintError> {
        parse_rust_error(line)
    }
}

/// Lints JavaScript with ESLint.
pub struct JavaScriptLinter;

impl Linter for JavaScriptLinter {
    fn program(&self) -> &'static str {
        "eslint"
    }

    fn parse_line(&self, line: &str) -> Option<LintError> {
        parse_js_error(line)
    }
}

/// Lints Python with Pylint.
pub struct PythonLinter;

impl Linter for PythonLinter {
    fn program(&self) -> &'static str {
        "pylint"
    }

    fn parse_line(&self, line: &str) -> Option<LintError> {
        parse_python_error(line)
    }
}

/// The language each linter name stands for.
pub type LinterStore = NamedStore<Language>;

/// Linters for `rust`, `javascript` and `python`.
pub fn initialize_linters() -> (r: LinterStore)
    ensures
        r.wf(),
        key_seq(r@) == seq!["rust"@, "javascript"@, "python"@],
        lookup(r@, "rust"@) == Some(Language::Rust),
        lookup(r@, "javascript"@) == Some(Language::JavaScript),
        lookup(r@, "python"@) == Some(Language::Python),
{
    let mut linters: LinterStore = NamedStore::new();
    let ghost s0 = linters@;
    linters.insert("rust".to_owned(), Language::Rust);
    let ghost s1 = linters@;
    linters.insert("javascript".to_owned(), Language::JavaScript);
    let ghost s2 = linters@;
    linters.insert("python".to_owned(), Language::Python);
    proof {
        lemma_put_lookup(s0, "rust"@, Language::Rust);
        lemma_put_lookup(s1, "javascript"@, Language::JavaScript);
        lemma_put_lookup(s2, "python"@, Language::Python);
        reveal_strlit("rust");
        reveal_strlit("javascript");
        reveal_strlit("python");
        assert("rust"@.len() != "javascript"@.len());
        assert("rust"@.len() != "python"@.len());
        assert("python"@.len() != "javascript"@.len());
        assert(!has_key(s1, "javascript"@));
        assert(!has_key(s2, "python"@));
        assert(key_seq(linters@) =~= seq!["rust"@, "javascript"@, "python"@]);
    }
    linters
}

/// The problems that the output lines of the linter for `language` report;
/// none for a language without a linter.
pub fn lint_code(language: &str, output: &Vec<String>, linter_store: &LinterStore) -> (r: Vec<LintError>)
    requires
        linter_store.wf(),
    ensures
        lookup(linter_store@, language@) is None ==> r@.len() == 0,
        lookup(linter_store@, language@) matches Some(l) ==>
            r@.map_values(|e: LintError| lint_view(e)) == lints(l, output@.map_values(|s: String| s@)),
{
    let l = match linter_store.get(language) {
        Some(l) => *l,
        None => {
            return Vec::new();
        },
    };
    let mut errors: Vec<LintError> = Vec::new();
    let mut i: usize = 0;
    let ghost lines = output@.map_values(|s: String| s@);
    while i < output.len()
        invariant
            0 <= i <= output@.len(),
            lines == output@.map_values(|s: String| s@),
            errors@.map_values(|e: LintError| lint_view(e)) == lints(l, lines.subrange(0, i as int)),
        decreases output@.len() - i,
    {
        let ghost prev = errors@;
        let found = match l {
            Language::Rust => parse_rust_error(output[i].as_str()),
            Language::JavaScript => parse_js_error(output[i].as_str()),
            Language::Python => parse_python_error(output[i].as_str()),
        };
        proof {
            let sub = lines.subrange(0, i + 1);
            assert(sub.drop_last() =~= lines.subrange(0, i as int));
            assert(sub.last() == output@[i as int]@);
        }
        match found {
            Some(e) => {
                errors.push(e);
                proof {
                    assert(errors@.map_values(|e: LintError| lint_view(e))
                        =~= prev.map_values(|e: LintError| lint_view(e)).push(lint_view(e)));
                }
            },
            None => {},
        }
        i += 1;
    }
    proof {
        assert(lines.subrange(0, lines.len() as int) =~= lines);
    }
    errors
}

} // verus!
