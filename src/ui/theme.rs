//! Themes of the user interface: a name and named colours.

use vstd::prelude::*;
use crate::store::{NamedStore, has_key, lookup, put, key_seq, lemma_put_lookup};

verus! {

/// A theme: colours (hex codes) by the name of what they paint.
pub struct Theme {
    pub name: String,
    pub colors: NamedStore<String>,
}

/// Themes by name.
pub type Themes = NamedStore<Theme>;

/// The default theme store: `dark`, black background and white text.
pub fn initialize_themes() -> (r: Themes)
    ensures
        r.wf(),
        key_seq(r@) == seq!["dark"@],
        lookup(r@, "dark"@) matches Some(t) && t.name@ == "dark"@ && t.colors.wf()
            && key_seq(t.colors@) == seq!["background"@, "text"@]
            && (lookup(t.colors@, "background"@) matches Some(c) && c@ == "#000000"@)
            && (lookup(t.colors@, "text"@) matches Some(c) && c@ == "#FFFFFF"@),
{
    let mut colors: NamedStore<String> = NamedStore::new();
    let ghost c0 = colors@;
    let bg = "#000000".to_owned();
    colors.insert("background".to_owned(), bg);
    let ghost c1 = colors@;
    let fg = "#FFFFFF".to_owned();
    colors.insert("text".to_owned(), fg);
    proof {
        lemma_put_lookup(c0, "background"@, bg);
        lemma_put_lookup(c1, "text"@, fg);
        reveal_strlit("background");
        reveal_strlit("text");
        assert("background"@.len() != "text"@.len());
        assert(!has_key(c1, "text"@));
        assert(key_seq(colors@) =~= seq!["background"@, "text"@]);
    }
    let dark = Theme { name: "dark".to_owned(), colors };
    let mut themes: Themes = NamedStore::new();
    let ghost t0 = themes@;
    themes.insert("dark".to_owned(), dark);
    proof {
        lemma_put_lookup(t0, "dark"@, dark);
        assert(key_seq(themes@) =~= seq!["dark"@]);
    }
    themes
}

/// The theme `theme_name`.
pub fn get_theme<'a>(themes: &'a Themes, theme_name: &str) -> (r: Option<&'a Theme>)
    requires
        themes.wf(),
    ensures
        r matches Some(t) ==> lookup(themes@, theme_name@) == Some(*t),
        r is None ==> lookup(themes@, theme_name@) is None,
{
    themes.get(theme_name)
}

/// Stores `new_theme` under its name, replacing a theme of that name.
pub fn set_theme(themes: &mut Themes, new_theme: Theme) -> (r: Result<(), &'static str>)
    requires
        old(themes).wf(),
    ensures
        final(themes).wf(),
        final(themes)@ == put(old(themes)@, new_theme.name@, new_theme),
        r is Ok,
{
    let name = new_theme.name.clone();
    themes.insert(name, new_theme);
    Ok(())
}

} // verus!
