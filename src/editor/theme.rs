//! Colour themes of the code view.

use vstd::prelude::*;
use crate::store::{NamedStore, has_key, lookup, put, key_seq, fails_with, lemma_put_lookup};
use crate::text::concat3;

verus! {

/// Colours of the parts of the code view.
#[derive(Debug, Clone)]
pub struct Theme {
    pub name: String,
    pub background: String,
    pub foreground: String,
    pub keyword_color: String,
    pub string_color: String,
    pub comment_color: String,
}

/// The theme's fields are these texts.
pub open spec fn theme_is(t: Theme, name: Seq<char>, background: Seq<char>, foreground: Seq<char>, keyword_color: Seq<char>, string_color: Seq<char>, comment_color: Seq<char>) -> bool {
    &&& t.name@ == name
    &&& t.background@ == background
    &&& t.foreground@ == foreground
    &&& t.keyword_color@ == keyword_color
    &&& t.string_color@ == string_color
    &&& t.comment_color@ == comment_color
}

impl Theme {
    pub fn new(name: &str, background: &str, foreground: &str, keyword_color: &str, string_color: &str, comment_color: &str) -> (r: Self)
        ensures
            theme_is(r, name@, background@, foreground@, keyword_color@, string_color@, comment_color@),
    {
        Theme {
            name: name.to_owned(),
            background: background.to_owned(),
            foreground: foreground.to_owned(),
            keyword_color: keyword_color.to_owned(),
            string_color: string_color.to_owned(),
            comment_color: comment_color.to_owned(),
        }
    }
}

/// Themes by key.
pub type ThemeStore = NamedStore<Theme>;

/// The built-in themes: `light` and `dark`.
pub fn initialize_themes() -> (r: ThemeStore)
    ensures
        r.wf(),
        key_seq(r@) == seq!["light"@, "dark"@],
        lookup(r@, "light"@) matches Some(t) && theme_is(t, "Light"@, "#ffffff"@, "#000000"@, "#0000ff"@, "#008000"@, "#808080"@),
        lookup(r@, "dark"@) matches Some(t) && theme_is(t, "Dark"@, "#1e1e1e"@, "#d4d4d4"@, "#569cd6"@, "#ce9178"@, "#6a9955"@),
{
    let mut themes = NamedStore::new();
    let ghost s0 = themes@;
    let light = Theme::new("Light", "#ffffff", "#000000", "#0000ff", "#008000", "#808080");
    themes.insert("light".to_owned(), light);
    let ghost s1 = themes@;
    let dark = Theme::new("Dark", "#1e1e1e", "#d4d4d4", "#569cd6", "#ce9178", "#6a9955");
    themes.insert("dark".to_owned(), dark);
    proof {
        lemma_put_lookup(s0, "light"@, light);
        lemma_put_lookup(s1, "dark"@, dark);
        reveal_strlit("light");
        reveal_strlit("dark");
        assert("light"@.len() != "dark"@.len());
        assert(!has_key(s1, "dark"@));
        assert(key_seq(themes@) =~= seq!["light"@, "dark"@]);
    }
    themes
}

/// Checks that the theme `theme_name` exists, so that it can be selected.
pub fn set_theme(theme_store: &ThemeStore, theme_name: &str) -> (r: Result<(), String>)
    ensures
        has_key(theme_store@, theme_name@) ==> r is Ok,
        !has_key(theme_store@, theme_name@) ==> fails_with(r, "Theme '"@ + theme_name@ + "' not found."@),
{
    if theme_store.contains_key(theme_name) {
        Ok(())
    } else {
        Err(concat3("Theme '", theme_name, "' not found."))
    }
}

/// The theme `theme_name`.
pub fn get_theme<'a>(theme_store: &'a ThemeStore, theme_name: &str) -> (r: Option<&'a Theme>)
    requires
        theme_store.wf(),
    ensures
        r matches Some(t) ==> lookup(theme_store@, theme_name@) == Some(*t),
        r is None ==> lookup(theme_store@, theme_name@) is None,
{
    theme_store.get(theme_name)
}

/// Adds `theme` under its name; refused when the name is taken.
pub fn add_custom_theme(theme_store: &mut ThemeStore, theme: Theme) -> (r: Result<(), String>)
    requires
        old(theme_store).wf(),
    ensures
        final(theme_store).wf(),
        has_key(old(theme_store)@, theme.name@) ==> final(theme_store)@ == old(theme_store)@
            && fails_with(r, "A theme with the name '"@ + theme.name@ + "' already exists."@),
        !has_key(old(theme_store)@, theme.name@) ==> final(theme_store)@ == put(old(theme_store)@, theme.name@, theme)
            && r is Ok,
{
    if theme_store.contains_key(theme.name.as_str()) {
        Err(concat3("A theme with the name '", theme.name.as_str(), "' already exists."))
    } else {
        let name = theme.name.clone();
        theme_store.insert(name, theme);
        Ok(())
    }
}

/// The keys of all themes, oldest first.
pub fn list_themes(theme_store: &ThemeStore) -> (r: Vec<String>)
    ensures
        r@.map_values(|s: String| s@) == key_seq(theme_store@),
{
    theme_store.keys()
}

} // verus!
