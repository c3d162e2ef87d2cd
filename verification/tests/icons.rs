use minhypr::icons::{choose_icon, get_app_icon, icon_table};

#[test]
fn firefox_class_gets_the_firefox_glyph() {
    let table = icon_table();
    let firefox = table.iter().find(|row| row.0 == "firefox").unwrap().1;
    assert_eq!(get_app_icon("org.mozilla.firefox"), firefox);
}

#[test]
fn unknown_class_gets_the_default_glyph() {
    assert_eq!(get_app_icon("xyz123"), "\u{f05b2}");
    assert_eq!(get_app_icon(""), "\u{f05b2}");
}

#[test]
fn default_is_the_last_row_of_the_table() {
    let table = icon_table();
    assert_eq!(table.len(), 10);
    assert_eq!(table[9], ("default", "\u{f05b2}"));
}

#[test]
fn class_is_compared_without_regard_to_case() {
    assert_eq!(get_app_icon("DISCORD"), "\u{f066f}");
    assert_eq!(get_app_icon("com.Discord.App"), "\u{f066f}");
    assert_eq!(get_app_icon("Code"), "\u{f0a1e}");
}

#[test]
fn names_of_the_table_are_compared_without_regard_to_case() {
    assert_eq!(get_app_icon("steam"), "");
    assert_eq!(get_app_icon("alacritty"), "");
    assert_ne!(get_app_icon("steam"), get_app_icon("xyz123"));
}

#[test]
fn the_first_row_that_matches_decides() {
    assert_eq!(get_app_icon("discord-vscode"), "\u{f066f}");
    assert_eq!(get_app_icon("vscode"), "\u{f0a1e}");
    assert_eq!(get_app_icon("firefox-code"), "");
}

#[test]
fn choose_icon_takes_the_first_name_that_is_part_of_the_class() {
    let rows = vec![("One", "1"), ("Two", "2"), ("Any", "*")];
    let names = vec!["one".to_string(), "two".to_string(), "any".to_string()];
    assert_eq!(choose_icon(&rows, &names, "number two and one"), "1");
    assert_eq!(choose_icon(&rows, &names, "number two"), "2");
    assert_eq!(choose_icon(&rows, &names, "three"), "*");
    assert_eq!(choose_icon(&rows, &names, "Two"), "*");
    assert_eq!(choose_icon(&rows, &names, "many"), "*");
}

#[test]
fn get_app_icon_is_a_function_of_the_class() {
    assert_eq!(get_app_icon("kitty"), get_app_icon("kitty"));
}
