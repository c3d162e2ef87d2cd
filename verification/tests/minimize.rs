use minhypr::command::{dispatch_args, WmCommand};
use minhypr::fields::FieldMap;
use minhypr::icons::get_app_icon;
use minhypr::minimize::{
    active_window_from, build_record, complete_minimize, current_workspace, hide_command,
    minimize_window, record_for, workspace_from, ActiveWindow, MinimizeDecision, Refusal,
};
use minhypr::record::MinimizedWindow;
use minhypr::restore::restore_specific_window;

fn fields(pairs: &[(&str, &str)]) -> FieldMap {
    let mut map = FieldMap::new();
    for (name, value) in pairs {
        map.insert(name.to_string(), value.to_string());
    }
    map
}

fn active(address: &str, class: &str, title: &str) -> ActiveWindow {
    ActiveWindow {
        address: address.to_string(),
        class: class.to_string(),
        title: title.to_string(),
        geometry: None,
    }
}

fn window(address: &str, workspace: i32) -> MinimizedWindow {
    MinimizedWindow {
        address: address.to_string(),
        display_title: format!("label of {}", address),
        class: "kitty".to_string(),
        original_title: "shell".to_string(),
        preview_path: None,
        icon: String::new(),
        workspace,
    }
}

fn refused(decision: &MinimizeDecision) -> Option<Refusal> {
    match decision {
        MinimizeDecision::Refused(why) => Some(*why),
        MinimizeDecision::Accepted(_) => None,
    }
}

fn accepted(decision: MinimizeDecision) -> ActiveWindow {
    match decision {
        MinimizeDecision::Accepted(window) => window,
        MinimizeDecision::Refused(why) => panic!("refused: {:?}", why),
    }
}

#[test]
fn a_window_of_the_menu_launcher_is_not_minimized() {
    let text = "{\"address\":\"0x1\",\"class\":\"wofi\",\"title\":\"menu\"}";
    assert_eq!(refused(&minimize_window(Some(text))), Some(Refusal::Denylisted));
    assert_eq!(
        refused(&minimize_window(Some("class:wofi,address:0x1,title:menu"))),
        Some(Refusal::Denylisted)
    );
    assert_eq!(refused(&minimize_window(Some("class:wofi"))), Some(Refusal::Denylisted));
}

#[test]
fn the_denylist_names_the_class_exactly() {
    let near = ["Wofi", "wofi2", "xwofi", " wofi.", "rofi"];
    for class in near {
        let map = fields(&[("address", "0x1"), ("class", class), ("title", "t")]);
        assert_eq!(refused(&active_window_from(&map)), None, "{}", class);
    }
}

#[test]
fn a_refused_window_leaves_the_store_alone() {
    let decision = minimize_window(Some("class:wofi,address:0x1,title:menu"));
    assert!(matches!(decision, MinimizeDecision::Refused(_)));
    let store = vec![window("0x7", 1)];
    let out = complete_minimize(vec![window("0x7", 1)], window("0x1", 1), false);
    assert_eq!(out.windows, store);
    assert!(!out.changed);
}

#[test]
fn without_an_active_window_nothing_is_minimized() {
    assert_eq!(refused(&minimize_window(None)), Some(Refusal::NoActiveWindow));
}

#[test]
fn a_description_without_address_class_or_title_is_refused() {
    let cases = [
        "class:kitty,title:shell",
        "address:0x1,title:shell",
        "address:0x1,class:kitty",
        "",
        "{}",
    ];
    for text in cases {
        assert_eq!(refused(&minimize_window(Some(text))), Some(Refusal::Incomplete), "{}", text);
    }
}

#[test]
fn a_complete_description_is_accepted() {
    let text = "{\"address\":\"0x55d0\",\"class\":\"kitty\",\"title\":\"shell\"}";
    assert_eq!(accepted(minimize_window(Some(text))), active("0x55d0", "kitty", "shell"));
}

#[test]
fn the_geometry_is_made_of_place_and_size() {
    let map = fields(&[
        ("address", "0x1"),
        ("class", "kitty"),
        ("title", "shell"),
        ("at", " 10 20 "),
        ("size", "\t300x200\n"),
    ]);
    let window = accepted(active_window_from(&map));
    assert_eq!(window.geometry, Some("10 20,300x200".to_string()));
}

#[test]
fn without_place_or_size_there_is_no_geometry() {
    let only_at = fields(&[("address", "0x1"), ("class", "k"), ("title", "t"), ("at", "1 2")]);
    assert_eq!(accepted(active_window_from(&only_at)).geometry, None);
    let only_size = fields(&[("address", "0x1"), ("class", "k"), ("title", "t"), ("size", "3x4")]);
    assert_eq!(accepted(active_window_from(&only_size)).geometry, None);
}

#[test]
fn the_workspace_is_read_from_the_field_id() {
    assert_eq!(current_workspace(Some("{\"id\":\"4\",\"name\":\"web\"}")), 4);
    assert_eq!(current_workspace(Some("{\"id\": 7, \"name\": \"web\"}")), 7);
    assert_eq!(current_workspace(Some("id:-98")), -98);
    assert_eq!(workspace_from(&fields(&[("id", "12")])), 12);
}

#[test]
fn the_workspace_is_1_where_none_is_told() {
    assert_eq!(current_workspace(None), 1);
    assert_eq!(current_workspace(Some("")), 1);
    assert_eq!(current_workspace(Some("name:web")), 1);
    assert_eq!(current_workspace(Some("id:web")), 1);
    assert_eq!(current_workspace(Some("id:")), 1);
    assert_eq!(current_workspace(Some("id:99999999999")), 1);
    assert_eq!(workspace_from(&FieldMap::new()), 1);
}

#[test]
fn the_hide_command_moves_the_window_to_the_hidden_workspace() {
    let command = hide_command(&active("0x55d0", "kitty", "shell"));
    assert_eq!(command, WmCommand::MoveToHidden { address: "0x55d0".to_string() });
    assert_eq!(
        dispatch_args(&command),
        vec!["dispatch", "movetoworkspacesilent", "special:minimized,address:0x55d0"]
    );
}

#[test]
fn the_record_holds_what_is_known_of_the_window() {
    let window = active("0x55d0c8a1f2b0", "kitty", "shell");
    let record = build_record(&window, "K".to_string(), 3, Some("/tmp/p.png".to_string()));
    assert_eq!(
        record,
        MinimizedWindow {
            address: "0x55d0c8a1f2b0".to_string(),
            display_title: "K kitty - shell [f2b0]".to_string(),
            class: "kitty".to_string(),
            original_title: "shell".to_string(),
            preview_path: Some("/tmp/p.png".to_string()),
            icon: "K".to_string(),
            workspace: 3,
        }
    );
}

#[test]
fn the_label_of_a_short_address_holds_all_of_it() {
    let record = build_record(&active("0x1", "a", "b"), String::new(), 1, None);
    assert_eq!(record.display_title, " a - b [0x1]");
    assert_eq!(record.preview_path, None);
}

#[test]
fn record_for_takes_the_glyph_of_the_class() {
    let record = record_for(&active("0x55d0", "Discord", "chat"), 2, None);
    assert_eq!(record.icon, get_app_icon("Discord"));
    assert_eq!(record.icon, "\u{f066f}");
    assert_eq!(record.display_title, "\u{f066f} Discord - chat [55d0]");
    assert_eq!(record.workspace, 2);
}

#[test]
fn a_window_that_was_moved_is_entered_last() {
    let out = complete_minimize(vec![window("0x1", 1), window("0x2", 2)], window("0x3", 3), true);
    assert_eq!(out.windows, vec![window("0x1", 1), window("0x2", 2), window("0x3", 3)]);
    assert!(out.changed);
}

#[test]
fn a_window_that_was_not_moved_is_not_entered() {
    let out = complete_minimize(vec![window("0x1", 1)], window("0x3", 3), false);
    assert_eq!(out.windows, vec![window("0x1", 1)]);
    assert!(!out.changed);
}

#[test]
fn minimizing_an_address_twice_leaves_one_record() {
    let first = complete_minimize(vec![window("0x1", 1)], window("0x2", 2), true);
    let second = complete_minimize(first.windows, window("0x2", 5), true);
    assert_eq!(second.windows, vec![window("0x1", 1), window("0x2", 5)]);
    let count = second.windows.iter().filter(|w| w.address == "0x2").count();
    assert_eq!(count, 1);
}

#[test]
fn minimizing_an_address_again_makes_its_record_the_newest() {
    let out = complete_minimize(vec![window("0x1", 1), window("0x2", 2)], window("0x1", 9), true);
    assert_eq!(out.windows, vec![window("0x2", 2), window("0x1", 9)]);
}

#[test]
fn minimize_then_restore_returns_the_window_to_its_workspace() {
    let before = vec![window("0x1", 1), window("0x2", 2)];
    let record = build_record(&active("0x3", "kitty", "shell"), String::new(), 7, None);
    let stored = complete_minimize(vec![window("0x1", 1), window("0x2", 2)], record, true);
    assert_eq!(stored.windows.len(), 3);
    assert_eq!(stored.windows[2].workspace, 7);
    let out = restore_specific_window(&stored.windows, "0x3");
    assert!(out.found);
    assert_eq!(
        out.commands,
        vec![
            WmCommand::MoveToWorkspace { workspace: 7, address: "0x3".to_string() },
            WmCommand::FocusWindow { address: "0x3".to_string() },
        ]
    );
    assert_eq!(out.remaining.len(), stored.windows.len() - 1);
    assert_eq!(out.remaining, before);
}
