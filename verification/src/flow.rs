//! Minimizing the active window, step by step. Each step waits for something
//! from outside: an answer of the window manager, a preview, the store. This
//! module decides what is asked for next; the caller does the asking and
//! hands back what came of it.

use vstd::prelude::*;
use crate::command::{CommandModel, WmCommand};
use crate::icons::app_icon;
use crate::minimize::{
    appended, complete_minimize, current_workspace, decision, default_workspace, denylisted_class,
    hide_command, lemma_append_keeps_unique, minimize_window, new_record, record_for, workspace_id,
    ActiveWindow, ActiveWindowModel, DecisionModel, MinimizeDecision, Refusal,
};
use crate::parser::parsed_fields;
use crate::record::{unique_addresses, MinimizedWindow, WindowModel};

verus! {

/// How far the minimizing of a window has come.
#[derive(Debug)]
pub enum Stage {
    /// The window manager has been asked for the active window.
    Window,
    /// The window is accepted; the window manager has been asked for the
    /// active workspace.
    Workspace { window: ActiveWindow },
    /// The preview of the window is being taken.
    Preview { window: ActiveWindow, workspace: i32 },
    /// The window manager has been told to hide the window.
    Hiding { record: MinimizedWindow },
    /// The window is hidden; the store is being loaded.
    Storing { record: MinimizedWindow },
    /// Nothing is left to do.
    Done,
}

/// What came back from outside.
#[derive(Debug)]
pub enum Event {
    /// The answer of the window manager to a question, `None` if it gave none.
    Reply(Option<String>),
    /// The path of the preview, `None` if none could be taken.
    Preview(Option<String>),
    /// Whether the window manager carried out the command.
    Moved(bool),
    /// The records of the store.
    Store(Vec<MinimizedWindow>),
}

/// What is to be done outside next.
#[derive(Debug)]
pub enum Action {
    /// Ask the window manager for the active window.
    AskActiveWindow,
    /// Ask the window manager for the active workspace.
    AskActiveWorkspace,
    /// Take the preview of a window.
    Capture { window_id: String, geometry: String },
    /// Send a command to the window manager.
    Send(WmCommand),
    /// Load the store.
    Load,
    /// Save these records as the store, tell observers, and stop.
    Save(Vec<MinimizedWindow>),
    /// Stop: nothing is sent and nothing is saved.
    Stop,
}

/// The mathematical content of a `Stage`.
pub enum StageModel {
    Window,
    Workspace { window: ActiveWindowModel },
    Preview { window: ActiveWindowModel, workspace: i32 },
    Hiding { record: WindowModel },
    Storing { record: WindowModel },
    Done,
}

/// The mathematical content of an `Event`.
pub enum EventModel {
    Reply(Option<Seq<char>>),
    Preview(Option<Seq<char>>),
    Moved(bool),
    Store(Seq<WindowModel>),
}

/// The mathematical content of an `Action`.
pub enum ActionModel {
    AskActiveWindow,
    AskActiveWorkspace,
    Capture { window_id: Seq<char>, geometry: Seq<char> },
    Send(CommandModel),
    Load,
    Save(Seq<WindowModel>),
    Stop,
}

impl View for Stage {
    type V = StageModel;

    open spec fn view(&self) -> StageModel {
        match self {
            Stage::Window => StageModel::Window,
            Stage::Workspace { window } => StageModel::Workspace { window: window@ },
            Stage::Preview { window, workspace } => StageModel::Preview {
                window: window@,
                workspace: *workspace,
            },
            Stage::Hiding { record } => StageModel::Hiding { record: record@ },
            Stage::Storing { record } => StageModel::Storing { record: record@ },
            Stage::Done => StageModel::Done,
        }
    }
}

impl View for Event {
    type V = EventModel;

    open spec fn view(&self) -> EventModel {
        match self {
            Event::Reply(reply) => EventModel::Reply(reply.deep_view()),
            Event::Preview(path) => EventModel::Preview(path.deep_view()),
            Event::Moved(moved) => EventModel::Moved(*moved),
            Event::Store(windows) => EventModel::Store(windows.deep_view()),
        }
    }
}

impl View for Action {
    type V = ActionModel;

    open spec fn view(&self) -> ActionModel {
        match self {
            Action::AskActiveWindow => ActionModel::AskActiveWindow,
            Action::AskActiveWorkspace => ActionModel::AskActiveWorkspace,
            Action::Capture { window_id, geometry } => ActionModel::Capture {
                window_id: window_id@,
                geometry: geometry@,
            },
            Action::Send(command) => ActionModel::Send(command@),
            Action::Load => ActionModel::Load,
            Action::Save(windows) => ActionModel::Save(windows.deep_view()),
            Action::Stop => ActionModel::Stop,
        }
    }
}

/// The decision on the active window, from the window manager's answer.
pub open spec fn window_decision(reply: Option<Seq<char>>) -> DecisionModel {
    match reply {
        Some(text) => decision(parsed_fields(text)),
        None => DecisionModel::Refused(Refusal::NoActiveWindow),
    }
}

/// The workspace a window is minimized from, from the window manager's
/// answer.
pub open spec fn origin_workspace(reply: Option<Seq<char>>) -> i32 {
    match reply {
        Some(text) => workspace_id(parsed_fields(text)),
        None => default_workspace(),
    }
}

/// The step that hides a window: its record is made, and the window manager
/// is told to move it to the hidden workspace.
pub open spec fn hiding(window: ActiveWindowModel, workspace: i32, preview: Option<Seq<char>>) -> (
    StageModel,
    ActionModel,
) {
    (
        StageModel::Hiding {
            record: new_record(window, app_icon(window.class), workspace, preview),
        },
        ActionModel::Send(CommandModel::MoveToHidden { address: window.address }),
    )
}

/// The next stage and the next action, given what came back.
///
/// - A refused window ends the matter at once.
/// - An accepted window has its workspace asked for, then its preview taken
///   if its geometry is known, then is hidden.
/// - Only when the window manager has hidden it is the store loaded, and the
///   record entered and saved.
/// - Whatever comes back out of turn ends the matter without a command and
///   without a change to the store.
pub open spec fn advanced(stage: StageModel, event: EventModel) -> (StageModel, ActionModel) {
    match (stage, event) {
        (StageModel::Window, EventModel::Reply(reply)) => match window_decision(reply) {
            DecisionModel::Accepted(window) => (
                StageModel::Workspace { window },
                ActionModel::AskActiveWorkspace,
            ),
            DecisionModel::Refused(_) => (StageModel::Done, ActionModel::Stop),
        },
        (StageModel::Workspace { window }, EventModel::Reply(reply)) => match window.geometry {
            Some(geometry) => (
                StageModel::Preview { window, workspace: origin_workspace(reply) },
                ActionModel::Capture { window_id: window.address, geometry },
            ),
            None => hiding(window, origin_workspace(reply), None),
        },
        (StageModel::Preview { window, workspace }, EventModel::Preview(preview)) => hiding(
            window,
            workspace,
            preview,
        ),
        (StageModel::Hiding { record }, EventModel::Moved(moved)) => if moved {
            (StageModel::Storing { record }, ActionModel::Load)
        } else {
            (StageModel::Done, ActionModel::Stop)
        },
        (StageModel::Storing { record }, EventModel::Store(store)) => (
            StageModel::Done,
            ActionModel::Save(appended(store, record)),
        ),
        _ => (StageModel::Done, ActionModel::Stop),
    }
}

/// Where minimizing starts: the window manager is asked for the active
/// window.
pub fn begin() -> (first: (Stage, Action))
    ensures
        first.0@ == StageModel::Window,
        first.1@ == ActionModel::AskActiveWindow,
{
    (Stage::Window, Action::AskActiveWindow)
}

fn start_hiding(window: ActiveWindow, workspace: i32, preview: Option<String>) -> (next: (Stage, Action))
    ensures
        (next.0@, next.1@) == hiding(window@, workspace, preview.deep_view()),
{
    let command = hide_command(&window);
    let record = record_for(&window, workspace, preview);
    (Stage::Hiding { record }, Action::Send(command))
}

/// Takes the next step of minimizing.
pub fn advance(stage: Stage, event: Event) -> (next: (Stage, Action))
    ensures
        (next.0@, next.1@) == advanced(stage@, event@),
{
    match (stage, event) {
        (Stage::Window, Event::Reply(reply)) => {
            let out = match &reply {
                Some(text) => minimize_window(Some(text.as_str())),
                None => minimize_window(None),
            };
            match out {
                MinimizeDecision::Accepted(window) => (
                    Stage::Workspace { window },
                    Action::AskActiveWorkspace,
                ),
                MinimizeDecision::Refused(_) => (Stage::Done, Action::Stop),
            }
        },
        (Stage::Workspace { window }, Event::Reply(reply)) => {
            let workspace = match &reply {
                Some(text) => current_workspace(Some(text.as_str())),
                None => current_workspace(None),
            };
            match &window.geometry {
                Some(geometry) => {
                    let action = Action::Capture {
                        window_id: window.address.clone(),
                        geometry: geometry.clone(),
                    };
                    (Stage::Preview { window, workspace }, action)
                },
                None => start_hiding(window, workspace, None),
            }
        },
        (Stage::Preview { window, workspace }, Event::Preview(preview)) => start_hiding(
            window,
            workspace,
            preview,
        ),
        (Stage::Hiding { record }, Event::Moved(moved)) => {
            if moved {
                (Stage::Storing { record }, Action::Load)
            } else {
                (Stage::Done, Action::Stop)
            }
        },
        (Stage::Storing { record }, Event::Store(windows)) => {
            let out = complete_minimize(windows, record, true);
            (Stage::Done, Action::Save(out.windows))
        },
        _ => (Stage::Done, Action::Stop),
    }
}

/// A window of the denylisted class is never minimized: when the window
/// manager names such a window as the active one, the matter ends there, with
/// no command sent and nothing saved.
pub proof fn lemma_denylisted_window_stops(text: Seq<char>)
    ensures
        parsed_fields(text).contains_key("class"@) && parsed_fields(text)["class"@]
            == denylisted_class() ==> advanced(StageModel::Window, EventModel::Reply(Some(text))) == (
            StageModel::Done,
            ActionModel::Stop,
        ),
{
}

/// A command is sent to the window manager only for a window that was
/// accepted, and it is the command that hides that window.
pub proof fn lemma_only_hide_is_sent(stage: StageModel, event: EventModel)
    ensures
        advanced(stage, event).1 is Send ==> {
            &&& stage is Workspace || stage is Preview
            &&& advanced(stage, event).0 is Hiding
            &&& advanced(stage, event).1 == ActionModel::Send(
                CommandModel::MoveToHidden {
                    address: advanced(stage, event).0->Hiding_record.address,
                },
            )
        },
{
}

/// The store is loaded only when the window manager has carried out the
/// command that hides the window.
pub proof fn lemma_load_follows_move(stage: StageModel, event: EventModel)
    ensures
        advanced(stage, event).1 is Load ==> {
            &&& stage is Hiding
            &&& event == EventModel::Moved(true)
            &&& advanced(stage, event).0 == (StageModel::Storing { record: stage->Hiding_record })
        },
{
}

/// The store is saved only after the window manager has hidden the window,
/// and what is saved is the loaded store with the record of the window as
/// its newest entry. Were the addresses of the loaded store distinct, so are
/// those of the saved one.
pub proof fn lemma_save_follows_hiding(stage: StageModel, event: EventModel)
    ensures
        advanced(stage, event).1 is Save ==> {
            &&& stage is Storing
            &&& event is Store
            &&& advanced(stage, event).1 == ActionModel::Save(
                appended(event->Store_0, stage->Storing_record),
            )
            &&& unique_addresses(event->Store_0) ==> unique_addresses(
                advanced(stage, event).1->Save_0,
            )
        },
{
    if advanced(stage, event).1 is Save && unique_addresses(event->Store_0) {
        lemma_append_keeps_unique(event->Store_0, stage->Storing_record);
    }
}

} // verus!
