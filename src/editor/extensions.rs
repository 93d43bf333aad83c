//! Installed editor extensions.

use vstd::prelude::*;
use crate::store::{NamedStore, has_key, lookup, put, without, key_seq, fails_with, lemma_put_lookup};
use crate::text::concat3;

verus! {

/// What every extension offers.
pub trait Extension {
    /// Its unique identifier.
    fn id(&self) -> String;

    /// A short description.
    fn description(&self) -> String;
}

/// An extension added by the user.
#[derive(Debug, Clone)]
pub struct CustomExtension {
    pub id: String,
    pub description: String,
}

impl Extension for CustomExtension {
    fn id(&self) -> String {
        self.id.clone()
    }

    fn description(&self) -> String {
        self.description.clone()
    }
}

/// Installed extensions by id.
pub type ExtensionStore = NamedStore<CustomExtension>;

/// The built-in extensions: `autocomplete`.
pub fn initialize_extensions() -> (r: ExtensionStore)
    ensures
        r.wf(),
        key_seq(r@) == seq!["autocomplete"@],
        lookup(r@, "autocomplete"@) matches Some(e) && e.id@ == "autocomplete"@
            && e.description@ == "Provides autocompletion for common programming languages."@,
{
    let mut extensions = NamedStore::new();
    let ghost s0 = extensions@;
    let autocomplete = CustomExtension {
        id: "autocomplete".to_owned(),
        description: "Provides autocompletion for common programming languages.".to_owned(),
    };
    extensions.insert(autocomplete.id.clone(), autocomplete);
    proof {
        lemma_put_lookup(s0, "autocomplete"@, autocomplete);
        assert(key_seq(extensions@) =~= seq!["autocomplete"@]);
    }
    extensions
}

/// Installs `extension`; refused when its id is taken.
pub fn add_extension(extension_store: &mut ExtensionStore, extension: CustomExtension) -> (r: Result<(), String>)
    requires
        old(extension_store).wf(),
    ensures
        final(extension_store).wf(),
        has_key(old(extension_store)@, extension.id@) ==> final(extension_store)@ == old(extension_store)@
            && fails_with(r, "Extension with ID '"@ + extension.id@ + "' already exists."@),
        !has_key(old(extension_store)@, extension.id@) ==> final(extension_store)@
            == put(old(extension_store)@, extension.id@, extension) && r is Ok,
{
    if extension_store.contains_key(extension.id.as_str()) {
        Err(concat3("Extension with ID '", extension.id.as_str(), "' already exists."))
    } else {
        let id = extension.id.clone();
        extension_store.insert(id, extension);
        Ok(())
    }
}

/// Uninstalls the extension `extension_id`.
pub fn remove_extension(extension_store: &mut ExtensionStore, extension_id: &str) -> (r: Result<(), String>)
    requires
        old(extension_store).wf(),
    ensures
        final(extension_store).wf(),
        final(extension_store)@ == without(old(extension_store)@, extension_id@),
        has_key(old(extension_store)@, extension_id@) ==> r is Ok,
        !has_key(old(extension_store)@, extension_id@) ==> fails_with(r, "Extension with ID '"@ + extension_id@ + "' not found."@),
{
    if extension_store.remove(extension_id) {
        Ok(())
    } else {
        Err(concat3("Extension with ID '", extension_id, "' not found."))
    }
}

/// The ids of all installed extensions, oldest first.
pub fn list_extensions(extension_store: &ExtensionStore) -> (r: Vec<String>)
    ensures
        r@.map_values(|s: String| s@) == key_seq(extension_store@),
{
    extension_store.keys()
}

/// The extension `extension_id`.
pub fn get_extension<'a>(extension_store: &'a ExtensionStore, extension_id: &str) -> (r: Option<&'a CustomExtension>)
    requires
        extension_store.wf(),
    ensures
        r matches Some(e) ==> lookup(extension_store@, extension_id@) == Some(*e),
        r is None ==> lookup(extension_store@, extension_id@) is None,
{
    extension_store.get(extension_id)
}

/// Initialises every installed extension, oldest first: the announcement
/// each one makes.
pub fn initialize_all_extensions(extension_store: &ExtensionStore) -> (r: Vec<String>)
    ensures
        r@.len() == extension_store@.len(),
        forall|i: int| 0 <= i < r@.len() ==> r@[i]@ == "Initializing extension: "@
            + (#[trigger] extension_store@[i]).1.description@,
{
    let all = extension_store.values();
    let mut out: Vec<String> = Vec::new();
    let mut i: usize = 0;
    while i < all.len()
        invariant
            0 <= i <= all@.len(),
            all@.len() == extension_store@.len(),
            forall|j: int| 0 <= j < all@.len() ==> *all@[j] == (#[trigger] extension_store@[j]).1,
            out@.len() == i,
            forall|j: int| 0 <= j < i ==> out@[j]@ == "Initializing extension: "@
                + (#[trigger] extension_store@[j]).1.description@,
        decreases all@.len() - i,
    {
        let e = all[i];
        out.push(concat3("Initializing extension: ", e.description.as_str(), ""));
        proof {
            reveal_strlit("");
            assert(out@[i as int]@ =~= "Initializing extension: "@ + extension_store@[i as int].1.description@);
        }
        i += 1;
    }
    out
}

} // verus!
