use minhypr::command::{dispatch_args, WmCommand};
use minhypr::menu::MenuEntry;
use minhypr::record::MinimizedWindow;
use minhypr::restore::{
    restore_all_windows, restore_oldest, restore_specific_window, restore_window, RestoreRequest,
};

fn window(address: &str, workspace: i32) -> MinimizedWindow {
    MinimizedWindow {
        address: address.to_string(),
        display_title: format!("label of {}", address),
        class: "Kitty".to_string(),
        original_title: "shell".to_string(),
        preview_path: None,
        icon: String::new(),
        workspace,
    }
}

fn back(address: &str, workspace: i32) -> Vec<WmCommand> {
    vec![
        WmCommand::MoveToWorkspace { workspace, address: address.to_string() },
        WmCommand::FocusWindow { address: address.to_string() },
    ]
}

#[test]
fn restoring_moves_the_window_to_its_workspace_and_focuses_it() {
    let store = vec![window("0x1", 2), window("0x2", 5), window("0x3", -98)];
    let out = restore_specific_window(&store, "0x2");
    assert!(out.found);
    assert_eq!(out.commands, back("0x2", 5));
    assert_eq!(out.remaining, vec![window("0x1", 2), window("0x3", -98)]);
    assert_eq!(out.remaining.len(), store.len() - 1);
}

#[test]
fn restoring_an_unknown_address_does_nothing() {
    let store = vec![window("0x1", 2), window("0x2", 5)];
    let out = restore_specific_window(&store, "0x9");
    assert!(!out.found);
    assert!(out.commands.is_empty());
    assert_eq!(out.remaining, store);
    let empty = restore_specific_window(&Vec::new(), "0x1");
    assert!(!empty.found);
    assert!(empty.commands.is_empty());
    assert!(empty.remaining.is_empty());
}

#[test]
fn restoring_compares_whole_addresses() {
    let store = vec![window("0x12", 2)];
    assert!(!restore_specific_window(&store, "0x1").found);
    assert!(!restore_specific_window(&store, "0x123").found);
    assert!(!restore_specific_window(&store, "").found);
    assert!(restore_specific_window(&store, "0x12").found);
}

#[test]
fn restoring_takes_out_every_record_of_the_address() {
    let store = vec![window("0x1", 2), window("0x2", 5), window("0x1", 7)];
    let out = restore_specific_window(&store, "0x1");
    assert!(out.found);
    let mut commands = back("0x1", 2);
    commands.extend(back("0x1", 7));
    assert_eq!(out.commands, commands);
    assert_eq!(out.remaining, vec![window("0x2", 5)]);
}

#[test]
fn restore_all_restores_each_window_once_oldest_first() {
    let store = vec![window("0x1", 2), window("0x2", 5), window("0x3", 1)];
    let steps = restore_all_windows(&store);
    assert_eq!(steps.len(), 3);
    assert!(steps.iter().all(|step| step.found));
    assert_eq!(steps[0].commands, back("0x1", 2));
    assert_eq!(steps[1].commands, back("0x2", 5));
    assert_eq!(steps[2].commands, back("0x3", 1));
    assert_eq!(steps[0].remaining, vec![window("0x2", 5), window("0x3", 1)]);
    assert_eq!(steps[1].remaining, vec![window("0x3", 1)]);
    assert!(steps[2].remaining.is_empty());
    let moves: Vec<&WmCommand> = steps
        .iter()
        .flat_map(|step| step.commands.iter())
        .filter(|command| matches!(command, WmCommand::MoveToWorkspace { .. }))
        .collect();
    assert_eq!(moves.len(), 3);
}

#[test]
fn restore_all_on_an_empty_store_has_no_step() {
    assert!(restore_all_windows(&Vec::new()).is_empty());
}

#[test]
fn restore_all_restores_a_doubled_address_at_its_first_record() {
    let store = vec![window("0x1", 2), window("0x2", 5), window("0x1", 7)];
    let steps = restore_all_windows(&store);
    assert_eq!(steps.len(), 3);
    assert!(steps[0].found);
    assert_eq!(steps[0].commands.len(), 4);
    assert_eq!(steps[0].remaining, vec![window("0x2", 5)]);
    assert!(steps[1].found);
    assert!(steps[1].remaining.is_empty());
    assert!(!steps[2].found);
    assert!(steps[2].commands.is_empty());
    assert!(steps[2].remaining.is_empty());
}

#[test]
fn restore_window_with_an_address_restores_it() {
    let store = vec![window("0x1", 2), window("0x2", 5)];
    match restore_window(&store, Some("0x1")) {
        RestoreRequest::Restore(out) => {
            assert!(out.found);
            assert_eq!(out.commands, back("0x1", 2));
            assert_eq!(out.remaining, vec![window("0x2", 5)]);
        },
        RestoreRequest::Choose(_) => panic!("an address was given"),
    }
}

#[test]
fn restore_window_without_an_address_asks_the_menu() {
    let mut with_preview = window("0x2", 5);
    with_preview.preview_path = Some("/tmp/p.png".to_string());
    let store = vec![window("0x1", 2), with_preview];
    match restore_window(&store, None) {
        RestoreRequest::Choose(entries) => {
            assert_eq!(
                entries,
                vec![
                    MenuEntry {
                        label: "label of 0x1".to_string(),
                        icon: "kitty".to_string(),
                        info: "0x1".to_string(),
                    },
                    MenuEntry {
                        label: "label of 0x2".to_string(),
                        icon: "/tmp/p.png".to_string(),
                        info: "0x2".to_string(),
                    },
                ]
            );
        },
        RestoreRequest::Restore(_) => panic!("no address was given"),
    }
}

#[test]
fn restore_oldest_restores_the_head_of_the_store() {
    let store = vec![window("0x1", 2), window("0x2", 5)];
    let out = restore_oldest(&store).unwrap();
    assert!(out.found);
    assert_eq!(out.commands, back("0x1", 2));
    assert_eq!(out.remaining, vec![window("0x2", 5)]);
    assert!(restore_oldest(&Vec::new()).is_none());
}

#[test]
fn the_commands_of_a_restoration_are_written_out_for_the_control_program() {
    let out = restore_specific_window(&vec![window("0x55d0", -98)], "0x55d0");
    let args: Vec<Vec<String>> = out.commands.iter().map(dispatch_args).collect();
    assert_eq!(
        args,
        vec![
            vec!["dispatch", "movetoworkspace", "-98,address:0x55d0"],
            vec!["dispatch", "focuswindow", "address:0x55d0"],
        ]
    );
}
