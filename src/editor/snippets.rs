//! Named code snippets.

use vstd::prelude::*;
use crate::store::{lemma_put_lookup, fails_with, NamedStore, has_key, lookup, put, without};

verus! {

/// A reusable piece of code under a unique name.
#[derive(Debug, Clone)]
pub struct Snippet {
    pub name: String,
    pub description: String,
    pub content: String,
}

impl Snippet {
    pub fn new(name: &str, description: &str, content: &str) -> (r: Self)
        ensures
            r.name@ == name@,
            r.description@ == description@,
            r.content@ == content@,
    {
        Snippet { name: name.to_owned(), description: description.to_owned(), content: content.to_owned() }
    }
}

/// Snippets by name.
pub type SnippetStore = NamedStore<Snippet>;

/// Adds `snippet` under its name; refused when the name is taken.
pub fn add_snippet(store: &mut SnippetStore, snippet: Snippet) -> (r: Result<(), String>)
    requires
        old(store).wf(),
    ensures
        final(store).wf(),
        has_key(old(store)@, snippet.name@) ==> final(store)@ == old(store)@
            && fails_with(r, "A snippet with this name already exists."@),
        !has_key(old(store)@, snippet.name@) ==> final(store)@ == put(old(store)@, snippet.name@, snippet)
            && r is Ok,
{
    if store.contains_key(snippet.name.as_str()) {
        return Err("A snippet with this name already exists.".to_owned());
    }
    let name = snippet.name.clone();
    store.insert(name, snippet);
    Ok(())
}

/// Replaces the code of the snippet `name`, keeping its description.
pub fn update_snippet(store: &mut SnippetStore, name: &str, new_content: &str) -> (r: Result<(), String>)
    requires
        old(store).wf(),
    ensures
        final(store).wf(),
        !has_key(old(store)@, name@) ==> final(store)@ == old(store)@
            && fails_with(r, "Snippet not found."@),
        lookup(old(store)@, name@) matches Some(s) ==> r is Ok && exists|t: Snippet|
            final(store)@ == put(old(store)@, name@, t) && t.name == s.name
            && t.description == s.description && t.content@ == new_content@,
{
    let updated = match store.get(name) {
        Some(s) => Snippet { name: s.name.clone(), description: s.description.clone(), content: new_content.to_owned() },
        None => {
            return Err("Snippet not found.".to_owned());
        },
    };
    store.insert(name.to_owned(), updated);
    Ok(())
}

/// Deletes the snippet `name`.
pub fn delete_snippet(store: &mut SnippetStore, name: &str) -> (r: Result<(), String>)
    requires
        old(store).wf(),
    ensures
        final(store).wf(),
        final(store)@ == without(old(store)@, name@),
        has_key(old(store)@, name@) ==> r is Ok,
        !has_key(old(store)@, name@) ==> fails_with(r, "Snippet not found."@),
{
    if store.remove(name) {
        Ok(())
    } else {
        Err("Snippet not found.".to_owned())
    }
}

/// The snippet `name`.
pub fn get_snippet<'a>(store: &'a SnippetStore, name: &str) -> (r: Option<&'a Snippet>)
    requires
        store.wf(),
    ensures
        r matches Some(s) ==> lookup(store@, name@) == Some(*s),
        r is None ==> lookup(store@, name@) is None,
{
    store.get(name)
}

/// Every snippet, oldest first.
pub fn list_snippets(store: &SnippetStore) -> (r: Vec<&Snippet>)
    ensures
        r@.len() == store@.len(),
        forall|i: int| 0 <= i < r@.len() ==> *r@[i] == (#[trigger] store@[i]).1,
{
    store.values()
}

/// Adds the built-in snippets `for-loop`, `if-else` and `function`,
/// replacing snippets of the same names.
pub fn initialize_snippets(store: &mut SnippetStore)
    requires
        old(store).wf(),
    ensures
        final(store).wf(),
        lookup(final(store)@, "for-loop"@) matches Some(s) && s.name@ == "for-loop"@
            && s.description@ == "A basic for-loop in Rust"@
            && s.content@ == "for i in 0..10 {\n    println!(\"{}\", i);\n}"@,
        lookup(final(store)@, "if-else"@) matches Some(s) && s.name@ == "if-else"@
            && s.description@ == "An if-else conditional in Rust"@
            && s.content@ == "if condition {\n    // do something\n} else {\n    // do something else\n}"@,
        lookup(final(store)@, "function"@) matches Some(s) && s.name@ == "function"@
            && s.description@ == "A basic function in Rust"@
            && s.content@ == "fn my_function() -> i32 {\n    // function body\n    return 42;\n}"@,
        forall|k: Seq<char>| k != "for-loop"@ && k != "if-else"@ && k != "function"@
            ==> #[trigger] lookup(final(store)@, k) == lookup(old(store)@, k),
{
    let ghost s0 = store@;
    let a = Snippet::new("for-loop", "A basic for-loop in Rust", "for i in 0..10 {\n    println!(\"{}\", i);\n}");
    store.insert(a.name.clone(), a);
    let ghost s1 = store@;
    let b = Snippet::new("if-else", "An if-else conditional in Rust", "if condition {\n    // do something\n} else {\n    // do something else\n}");
    store.insert(b.name.clone(), b);
    let ghost s2 = store@;
    let c = Snippet::new("function", "A basic function in Rust", "fn my_function() -> i32 {\n    // function body\n    return 42;\n}");
    store.insert(c.name.clone(), c);
    proof {
        lemma_put_lookup(s0, a.name@, a);
        lemma_put_lookup(s1, b.name@, b);
        lemma_put_lookup(s2, c.name@, c);
        reveal_strlit("for-loop");
        reveal_strlit("if-else");
        reveal_strlit("function");
        assert("for-loop"@[1] != "function"@[1]);
        assert("if-else"@.len() != "function"@.len());
        assert("if-else"@.len() != "for-loop"@.len());
    }
}

} // verus!
