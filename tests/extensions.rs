use rustpad::editor::extensions::{
    add_extension, get_extension, initialize_all_extensions, initialize_extensions, list_extensions,
    remove_extension, CustomExtension, Extension,
};

#[test]
fn test_extension_management() {
    let mut extension_store = initialize_extensions();

    // Test listing built-in extensions
    let extensions = list_extensions(&extension_store);
    assert!(extensions.contains(&"autocomplete".to_string()));

    // Add a new extension
    let custom_ext = CustomExtension {
        id: "syntax_highlight".to_string(),
        description: "Syntax highlighting for various languages.".to_string(),
    };
    assert!(add_extension(&mut extension_store, custom_ext.clone()).is_ok());

    // Ensure the new extension was added
    let extensions = list_extensions(&extension_store);
    assert!(extensions.contains(&"syntax_highlight".to_string()));

    // Initialize all extensions
    initialize_all_extensions(&extension_store);

    // Remove the extension
    assert!(remove_extension(&mut extension_store, "syntax_highlight").is_ok());

    // Ensure the extension was removed
    let extensions = list_extensions(&extension_store);
    assert!(!extensions.contains(&"syntax_highlight".to_string()));
}

#[test]
fn extension_errors_name_the_id() {
    let mut store = initialize_extensions();
    let dup = CustomExtension { id: "autocomplete".to_string(), description: "again".to_string() };
    assert_eq!(
        add_extension(&mut store, dup),
        Err("Extension with ID 'autocomplete' already exists.".to_string())
    );
    assert_eq!(
        remove_extension(&mut store, "nope"),
        Err("Extension with ID 'nope' not found.".to_string())
    );
    let e = get_extension(&store, "autocomplete").unwrap();
    assert_eq!(e.id(), "autocomplete");
    assert_eq!(
        initialize_all_extensions(&store),
        vec!["Initializing extension: Provides autocompletion for common programming languages.".to_string()]
    );
}
