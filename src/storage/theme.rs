//! Stored colour themes.

use vstd::prelude::*;
use crate::store::{NamedStore, has_key, lookup, put, key_seq, lemma_put_lookup};

verus! {

/// A stored theme.
#[derive(Debug, Clone)]
pub struct Theme {
    pub name: String,
    pub background_color: String,
    pub text_color: String,
}

/// Themes by name.
pub type Themes = NamedStore<Theme>;

/// The default themes, `Light` and `Dark`.
pub fn initialize_themes() -> (r: Themes)
    ensures
        r.wf(),
        key_seq(r@) == seq!["Light"@, "Dark"@],
        lookup(r@, "Light"@) matches Some(t) && t.name@ == "Light"@
            && t.background_color@ == "#FFFFFF"@ && t.text_color@ == "#000000"@,
        lookup(r@, "Dark"@) matches Some(t) && t.name@ == "Dark"@
            && t.background_color@ == "#282a36"@ && t.text_color@ == "#f8f8f2"@,
{
    let mut themes = NamedStore::new();
    let ghost s0 = themes@;
    let light = Theme { name: "Light".to_owned(), background_color: "#FFFFFF".to_owned(), text_color: "#000000".to_owned() };
    themes.insert("Light".to_owned(), light);
    let ghost s1 = themes@;
    let dark = Theme { name: "Dark".to_owned(), background_color: "#282a36".to_owned(), text_color: "#f8f8f2".to_owned() };
    themes.insert("Dark".to_owned(), dark);
    proof {
        lemma_put_lookup(s0, "Light"@, light);
        lemma_put_lookup(s1, "Dark"@, dark);
        reveal_strlit("Light");
        reveal_strlit("Dark");
        assert("Light"@.len() != "Dark"@.len());
        assert(!has_key(s1, "Dark"@));
        assert(key_seq(themes@) =~= seq!["Light"@, "Dark"@]);
    }
    themes
}

/// The theme `theme_name`.
pub fn get_theme<'a>(themes: &'a Themes, theme_name: &str) -> (r: Option<&'a Theme>)
    requires
        themes.wf(),
    ensures
        r matches Some(t) ==> lookup(themes@, theme_name@) == Some(*t),
        r is None ==> lookup(themes@, theme_name@) is None,
{
    themes.get(theme_name)
}

/// Stores `new_theme` under its name, replacing a theme of that name.
pub fn set_theme(themes: &mut Themes, new_theme: Theme) -> (r: Result<(), &'static str>)
    requires
        old(themes).wf(),
    ensures
        final(themes).wf(),
        final(themes)@ == put(old(themes)@, new_theme.name@, new_theme),
        r is Ok,
{
    let name = new_theme.name.clone();
    themes.insert(name, new_theme);
    Ok(())
}

} // verus!
