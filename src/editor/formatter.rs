//! Which external tool formats each language, and what its run means.

use vstd::prelude::*;
use crate::text::concat3;

verus! {

/// Languages the editor formats and lints.
#[derive(Debug, Clone, Copy, PartialEq, Eq, Structural)]
pub enum Language {
    Rust,
    JavaScript,
    Python,
}

impl Language {
    /// The language's name.
    pub open spec fn spec_name(self) -> Seq<char> {
        match self {
            Language::Rust => "Rust"@,
            Language::JavaScript => "JavaScript"@,
            Language::Python => "Python"@,
        }
    }
}

fn language_name(language: Language) -> (r: &'static str)
    ensures
        r@ == language.spec_name(),
{
    match language {
        Language::Rust => "Rust",
        Language::JavaScript => "JavaScript",
        Language::Python => "Python",
    }
}

/// Why formatting failed.
#[derive(Debug, Clone)]
pub struct FormatterError {
    pub message: String,
}

/// A formatter: the program that formats code read from standard input.
pub trait Formatter {
    fn program(&self) -> &'static str;
}

/// Formats Rust with `rustfmt`.
pub struct RustFormatter;

impl Formatter for RustFormatter {
    fn program(&self) -> &'static str {
        "rustfmt"
    }
}

/// Formats JavaScript with Prettier.
pub struct JavaScriptFormatter;

impl Formatter for JavaScriptFormatter {
    fn program(&self) -> &'static str {
        "prettier"
    }
}

/// Formats Python with Black.
pub struct PythonFormatter;

impl Formatter for PythonFormatter {
    fn program(&self) -> &'static str {
        "black"
    }
}

/// The formatting program of each language that has one.
pub struct FormatterStore {
    pub programs: Vec<(Language, &'static str)>,
}

/// The program registered for `l`.
pub open spec fn program_of(s: Seq<(Language, &'static str)>, l: Language) -> Option<Seq<char>>
    decreases s.len(),
{
    if s.len() == 0 {
        None
    } else if s.last().0 == l {
        Some(s.last().1@)
    } else {
        program_of(s.drop_last(), l)
    }
}

/// `rustfmt` for Rust, Prettier for JavaScript, Black for Python.
pub fn initialize_formatters() -> (r: FormatterStore)
    ensures
        program_of(r.programs@, Language::Rust) == Some("rustfmt"@),
        program_of(r.programs@, Language::JavaScript) == Some("prettier"@),
        program_of(r.programs@, Language::Python) == Some("black"@),
{
    let programs = vec![
        (Language::Rust, "rustfmt"),
        (Language::JavaScript, "prettier"),
        (Language::Python, "black"),
    ];
    proof {
        let s = programs@;
        assert(s.drop_last().drop_last().drop_last().len() == 0);
        assert(s.drop_last().drop_last().last() == s[0]);
        assert(s.drop_last().last() == s[1]);
        assert(program_of(s.drop_last().drop_last(), Language::Rust) == Some("rustfmt"@));
        assert(program_of(s.drop_last(), Language::Rust) == Some("rustfmt"@));
        assert(program_of(s.drop_last(), Language::JavaScript) == Some("prettier"@));
    }
    FormatterStore { programs }
}

/// The program that formats `language`; an error when none is registered.
pub fn formatter_program(language: Language, formatter_store: &FormatterStore) -> (r: Result<&'static str, FormatterError>)
    ensures
        program_of(formatter_store.programs@, language) matches Some(p) ==> (r matches Ok(q) && q@ == p),
        program_of(formatter_store.programs@, language) is None ==> (r matches Err(e)
            && e.message@ == "Formatter for language "@ + language.spec_name() + " not found"@),
{
    let mut i = formatter_store.programs.len();
    proof {
        assert(formatter_store.programs@.subrange(0, i as int) =~= formatter_store.programs@);
    }
    while i > 0
        invariant
            i <= formatter_store.programs@.len(),
            program_of(formatter_store.programs@, language)
                == program_of(formatter_store.programs@.subrange(0, i as int), language),
        decreases i,
    {
        let ghost sub = formatter_store.programs@.subrange(0, i as int);
        proof {
            assert(sub.drop_last() =~= formatter_store.programs@.subrange(0, i - 1));
        }
        let (l, p) = formatter_store.programs[i - 1];
        if l == language {
            return Ok(p);
        }
        i -= 1;
    }
    Err(FormatterError { message: concat3("Formatter for language ", language_name(language), " not found") })
}

/// What a formatter's run yields: its output when it succeeded, else an
/// error carrying what it reported.
pub fn formatter_outcome(success: bool, stdout: String, stderr: String) -> (r: Result<String, FormatterError>)
    ensures
        success ==> r == Ok::<String, FormatterError>(stdout),
        !success ==> (r matches Err(e) && e.message == stderr),
{
    if success {
        Ok(stdout)
    } else {
        Err(FormatterError { message: stderr })
    }
}

} // verus!
