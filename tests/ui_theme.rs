use rustpad::store::NamedStore;
use rustpad::ui::theme::{get_theme, initialize_themes, set_theme, Theme};

#[test]
fn test_theme_management() {
    let mut themes = initialize_themes();

    // Test retrieving a theme
    let theme = get_theme(&themes, "dark");
    assert!(theme.is_some());
    assert_eq!(theme.unwrap().name, "dark");

    // Test setting a new theme
    let mut new_colors = NamedStore::new();
    new_colors.insert("background".to_string(), "#FFFFFF".to_string());
    new_colors.insert("text".to_string(), "#000000".to_string());

    let new_theme = Theme {
        name: "light".to_string(),
        colors: new_colors,
    };

    assert!(set_theme(&mut themes, new_theme).is_ok());

    // Ensure the new theme was added
    let theme = get_theme(&themes, "light");
    assert!(theme.is_some());
    assert_eq!(theme.unwrap().name, "light");
}
