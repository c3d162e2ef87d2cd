//! The commands that are sent to the window manager, and the arguments with
//! which its control program is run for each.

use vstd::prelude::*;
use vstd::string::StringExecFns;
use crate::number::{decimal, format_i32};
use crate::reconcile::{hidden_workspace, hidden_workspace_name};

verus! {

/// A command for the window manager.
#[derive(Debug)]
pub enum WmCommand {
    /// Move the window to a workspace and show it there.
    MoveToWorkspace { workspace: i32, address: String },
    /// Give the keyboard focus to the window.
    FocusWindow { address: String },
    /// Move the window to the hidden workspace without showing that workspace.
    MoveToHidden { address: String },
}

/// The mathematical content of a `WmCommand`.
pub enum CommandModel {
    MoveToWorkspace { workspace: i32, address: Seq<char> },
    FocusWindow { address: Seq<char> },
    MoveToHidden { address: Seq<char> },
}

impl View for WmCommand {
    type V = CommandModel;

    open spec fn view(&self) -> CommandModel {
        match self {
            WmCommand::MoveToWorkspace { workspace, address } => CommandModel::MoveToWorkspace {
                workspace: *workspace,
                address: address@,
            },
            WmCommand::FocusWindow { address } => CommandModel::FocusWindow { address: address@ },
            WmCommand::MoveToHidden { address } => CommandModel::MoveToHidden { address: address@ },
        }
    }
}

impl DeepView for WmCommand {
    type V = CommandModel;

    open spec fn deep_view(&self) -> CommandModel {
        self@
    }
}

impl PartialEq for WmCommand {
    fn eq(&self, other: &Self) -> (same: bool) {
        match (self, other) {
            (
                WmCommand::MoveToWorkspace { workspace: w1, address: a1 },
                WmCommand::MoveToWorkspace { workspace: w2, address: a2 },
            ) => *w1 == *w2 && *a1 == *a2,
            (WmCommand::FocusWindow { address: a1 }, WmCommand::FocusWindow { address: a2 }) => *a1
                == *a2,
            (WmCommand::MoveToHidden { address: a1 }, WmCommand::MoveToHidden { address: a2 }) => *a1
                == *a2,
            _ => false,
        }
    }
}

impl vstd::std_specs::cmp::PartialEqSpecImpl for WmCommand {
    open spec fn obeys_eq_spec() -> bool {
        true
    }

    open spec fn eq_spec(&self, other: &Self) -> bool {
        self@ == other@
    }
}

/// The arguments of the control program for a command: the word `dispatch`,
/// the name of the dispatcher, and the dispatcher's own argument.
pub open spec fn dispatch_words(command: CommandModel) -> Seq<Seq<char>> {
    match command {
        CommandModel::MoveToWorkspace { workspace, address } => seq![
            "dispatch"@,
            "movetoworkspace"@,
            decimal(workspace as int) + ",address:"@ + address,
        ],
        CommandModel::FocusWindow { address } => seq![
            "dispatch"@,
            "focuswindow"@,
            "address:"@ + address,
        ],
        CommandModel::MoveToHidden { address } => seq![
            "dispatch"@,
            "movetoworkspacesilent"@,
            hidden_workspace_name() + ",address:"@ + address,
        ],
    }
}

/// Writes out the arguments with which the control program is run for
/// `command`.
pub fn dispatch_args(command: &WmCommand) -> (args: Vec<String>)
    ensures
        args.deep_view() == dispatch_words(command@),
{
    let mut args: Vec<String> = Vec::new();
    args.push(String::from_str("dispatch"));
    match command {
        WmCommand::MoveToWorkspace { workspace, address } => {
            args.push(String::from_str("movetoworkspace"));
            let mut target = format_i32(*workspace);
            target.append(",address:");
            target.append(address.as_str());
            args.push(target);
        },
        WmCommand::FocusWindow { address } => {
            args.push(String::from_str("focuswindow"));
            let mut target = String::from_str("address:");
            target.append(address.as_str());
            args.push(target);
        },
        WmCommand::MoveToHidden { address } => {
            args.push(String::from_str("movetoworkspacesilent"));
            let mut target = String::from_str(hidden_workspace());
            target.append(",address:");
            target.append(address.as_str());
            args.push(target);
        },
    }
    assert(args.deep_view() =~= dispatch_words(command@));
    args
}

} // verus!
