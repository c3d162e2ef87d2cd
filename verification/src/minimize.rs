//! Minimizing the active window: whether it may be minimized, what is
//! recorded of it, and how the store changes once the window manager has
//! moved it away.

use vstd::prelude::*;
use vstd::string::StringExecFns;
use crate::command::{CommandModel, WmCommand};
use crate::fields::FieldMap;
use crate::icons::{app_icon, get_app_icon};
use crate::number::{parse_i32, parsed_i32};
use crate::parser::{parse_window_info, parsed_fields};
use crate::filter::{lemma_filter_drops_all, lemma_filter_keeps_all, lemma_filter_push};
use crate::record::{
    holds, lemma_filter_keeps_unique, unique_addresses, without, MinimizedWindow, StoreUpdate,
    WindowModel,
};
use crate::restore::{bring_back, lemma_holds_push, lemma_restore_absent, restoration, restore_commands};
use crate::text::{tail, tail_of, trim, trimmed, Strip};

verus! {

/// The class of the menu launcher, whose windows are never minimized.
pub open spec fn denylisted_class() -> Seq<char> {
    "wofi"@
}

/// The workspace that a window is taken to come from when the window manager
/// does not tell.
pub open spec fn default_workspace() -> i32 {
    1
}

/// What is known of the active window when it is about to be minimized.
#[derive(Debug)]
pub struct ActiveWindow {
    /// The window manager's identifier of the window.
    pub address: String,
    /// The application class of the window.
    pub class: String,
    /// The title of the window.
    pub title: String,
    /// The place and size of the window on the screen, in the form that the
    /// screenshot tool takes, where the window manager told both.
    pub geometry: Option<String>,
}

/// The mathematical content of an `ActiveWindow`.
pub struct ActiveWindowModel {
    pub address: Seq<char>,
    pub class: Seq<char>,
    pub title: Seq<char>,
    pub geometry: Option<Seq<char>>,
}

impl View for ActiveWindow {
    type V = ActiveWindowModel;

    open spec fn view(&self) -> ActiveWindowModel {
        ActiveWindowModel {
            address: self.address@,
            class: self.class@,
            title: self.title@,
            geometry: self.geometry.deep_view(),
        }
    }
}

impl PartialEq for ActiveWindow {
    fn eq(&self, other: &Self) -> (same: bool) {
        let geometries = match (&self.geometry, &other.geometry) {
            (Some(left), Some(right)) => *left == *right,
            (None, None) => true,
            _ => false,
        };
        self.address == other.address && self.class == other.class && self.title == other.title
            && geometries
    }
}

impl vstd::std_specs::cmp::PartialEqSpecImpl for ActiveWindow {
    open spec fn obeys_eq_spec() -> bool {
        true
    }

    open spec fn eq_spec(&self, other: &Self) -> bool {
        self@ == other@
    }
}

/// Why a window is not minimized.
#[derive(Clone, Copy, Debug, PartialEq, Eq, Structural)]
pub enum Refusal {
    /// The window manager did not name an active window.
    NoActiveWindow,
    /// The active window belongs to the menu launcher.
    Denylisted,
    /// The description of the window lacks its address, class or title.
    Incomplete,
}

/// Whether the active window is minimized.
#[derive(Debug)]
pub enum MinimizeDecision {
    /// Nothing is done: no command is sent and the store stays as it is.
    Refused(Refusal),
    /// The window is to be moved to the hidden workspace.
    Accepted(ActiveWindow),
}

/// The mathematical content of a `MinimizeDecision`.
pub enum DecisionModel {
    Refused(Refusal),
    Accepted(ActiveWindowModel),
}

impl View for MinimizeDecision {
    type V = DecisionModel;

    open spec fn view(&self) -> DecisionModel {
        match self {
            MinimizeDecision::Refused(why) => DecisionModel::Refused(*why),
            MinimizeDecision::Accepted(window) => DecisionModel::Accepted(window@),
        }
    }
}

/// The geometry of a window whose description has the fields `at` and
/// `size`: the two values without the white space around them, with a comma
/// in between.
pub open spec fn geometry_of(fields: Map<Seq<char>, Seq<char>>) -> Option<Seq<char>> {
    if fields.contains_key("at"@) && fields.contains_key("size"@) {
        Some(trim(fields["at"@], Strip::WhiteSpace) + ","@ + trim(fields["size"@], Strip::WhiteSpace))
    } else {
        None
    }
}

/// The decision on a window with the given description. A window of the
/// denylisted class is refused whatever else its description holds. Any other
/// window is accepted if its description has an address, a class and a title.
pub open spec fn decision(fields: Map<Seq<char>, Seq<char>>) -> DecisionModel {
    if fields.contains_key("class"@) && fields["class"@] == denylisted_class() {
        DecisionModel::Refused(Refusal::Denylisted)
    } else if fields.contains_key("address"@) && fields.contains_key("class"@) && fields.contains_key(
        "title"@,
    ) {
        DecisionModel::Accepted(
            ActiveWindowModel {
                address: fields["address"@],
                class: fields["class"@],
                title: fields["title"@],
                geometry: geometry_of(fields),
            },
        )
    } else {
        DecisionModel::Refused(Refusal::Incomplete)
    }
}

/// Decides on the window that `fields` describes.
pub fn active_window_from(fields: &FieldMap) -> (out: MinimizeDecision)
    ensures
        out@ == decision(fields@),
        fields@.contains_key("class"@) && fields@["class"@] == denylisted_class() ==> out@
            == DecisionModel::Refused(Refusal::Denylisted),
{
    let class = fields.get("class");
    if let Some(name) = class {
        let denied = String::from_str("wofi");
        if *name == denied {
            return MinimizeDecision::Refused(Refusal::Denylisted);
        }
    }
    let address = fields.get("address");
    let title = fields.get("title");
    match (address, class, title) {
        (Some(address), Some(class), Some(title)) => {
            let geometry = match (fields.get("at"), fields.get("size")) {
                (Some(at), Some(size)) => {
                    let mut text = trimmed(at.as_str());
                    text.append(",");
                    text.append(trimmed(size.as_str()).as_str());
                    Some(text)
                },
                _ => None,
            };
            MinimizeDecision::Accepted(
                ActiveWindow {
                    address: address.clone(),
                    class: class.clone(),
                    title: title.clone(),
                    geometry,
                },
            )
        },
        _ => MinimizeDecision::Refused(Refusal::Incomplete),
    }
}

/// Decides whether the active window is minimized. `active` is what the
/// window manager answered when asked for the active window, `None` if it
/// gave no answer.
pub fn minimize_window(active: Option<&str>) -> (out: MinimizeDecision)
    ensures
        out@ == match active {
            Some(text) => decision(parsed_fields(text@)),
            None => DecisionModel::Refused(Refusal::NoActiveWindow),
        },
{
    match active {
        Some(text) => {
            let fields = parse_window_info(text);
            active_window_from(&fields)
        },
        None => MinimizeDecision::Refused(Refusal::NoActiveWindow),
    }
}

/// The workspace that a description names in its field `id`: the number
/// written there, or the default where there is no such field or no number
/// of 32 bits in it.
pub open spec fn workspace_id(fields: Map<Seq<char>, Seq<char>>) -> i32 {
    if fields.contains_key("id"@) {
        match parsed_i32(fields["id"@]) {
            Some(id) => id,
            None => default_workspace(),
        }
    } else {
        default_workspace()
    }
}

/// Reads the workspace from the description of a workspace.
pub fn workspace_from(fields: &FieldMap) -> (id: i32)
    ensures
        id == workspace_id(fields@),
{
    match fields.get("id") {
        Some(text) => match parse_i32(text.as_str()) {
            Some(id) => id,
            None => 1,
        },
        None => 1,
    }
}

/// The workspace that a window is minimized from. `reply` is what the window
/// manager answered when asked for the active workspace, `None` if it gave no
/// answer.
pub fn current_workspace(reply: Option<&str>) -> (id: i32)
    ensures
        id == match reply {
            Some(text) => workspace_id(parsed_fields(text@)),
            None => default_workspace(),
        },
{
    match reply {
        Some(text) => {
            let fields = parse_window_info(text);
            workspace_from(&fields)
        },
        None => 1,
    }
}

/// The command that minimizes a window.
pub fn hide_command(window: &ActiveWindow) -> (command: WmCommand)
    ensures
        command@ == (CommandModel::MoveToHidden { address: window.address@ }),
{
    WmCommand::MoveToHidden { address: window.address.clone() }
}

/// The last four characters of an address, or all of it if it is shorter.
pub open spec fn address_suffix(address: Seq<char>) -> Seq<char> {
    tail(address, 4)
}

/// The label of a minimized window in menus: glyph, class, title and the end
/// of the address.
pub open spec fn display_label(
    icon: Seq<char>,
    class: Seq<char>,
    title: Seq<char>,
    address: Seq<char>,
) -> Seq<char> {
    icon + " "@ + class + " - "@ + title + " ["@ + address_suffix(address) + "]"@
}

/// The record of a window that is minimized from `workspace`.
pub open spec fn new_record(
    window: ActiveWindowModel,
    icon: Seq<char>,
    workspace: i32,
    preview: Option<Seq<char>>,
) -> WindowModel {
    WindowModel {
        address: window.address,
        display_title: display_label(icon, window.class, window.title, window.address),
        class: window.class,
        original_title: window.title,
        preview_path: preview,
        icon,
        workspace,
    }
}

/// Makes the record of a window with the glyph `icon`.
pub fn build_record(
    window: &ActiveWindow,
    icon: String,
    workspace: i32,
    preview: Option<String>,
) -> (record: MinimizedWindow)
    ensures
        record@ == new_record(
            window@,
            icon@,
            workspace,
            preview.deep_view(),
        ),
{
    let suffix = tail_of(window.address.as_str(), 4);
    let mut label = icon.clone();
    label.append(" ");
    label.append(window.class.as_str());
    label.append(" - ");
    label.append(window.title.as_str());
    label.append(" [");
    label.append(suffix.as_str());
    label.append("]");
    MinimizedWindow {
        address: window.address.clone(),
        display_title: label,
        class: window.class.clone(),
        original_title: window.title.clone(),
        preview_path: preview,
        icon,
        workspace,
    }
}

/// Makes the record of a window, with the glyph of its class.
pub fn record_for(window: &ActiveWindow, workspace: i32, preview: Option<String>) -> (record:
    MinimizedWindow)
    ensures
        record@ == new_record(
            window@,
            app_icon(window@.class),
            workspace,
            preview.deep_view(),
        ),
{
    let icon = get_app_icon(window.class.as_str());
    build_record(window, icon, workspace, preview)
}

/// The store with `record` as its newest entry. An older record of the same
/// address gives way to it.
pub open spec fn appended(store: Seq<WindowModel>, record: WindowModel) -> Seq<WindowModel> {
    without(store, record.address).push(record)
}

/// Enters the record of a window into the store once the window manager has
/// answered the command that hides it. The record is entered only if the
/// window was moved (`moved`); the store is then to be saved and observers
/// told. Otherwise the store stays as it is.
pub fn complete_minimize(windows: Vec<MinimizedWindow>, record: MinimizedWindow, moved: bool) -> (out:
    StoreUpdate)
    ensures
        out.windows.deep_view() == if moved {
            appended(windows.deep_view(), record@)
        } else {
            windows.deep_view()
        },
        out.changed == moved,
        unique_addresses(windows.deep_view()) ==> unique_addresses(out.windows.deep_view()),
{
    if !moved {
        return StoreUpdate { windows, changed: false };
    }
    let ghost store = windows.deep_view();
    let ghost keep = |w: WindowModel| w.address != record@.address;
    let mut kept: Vec<MinimizedWindow> = Vec::new();
    let mut i: usize = 0;
    proof {
        reveal(Seq::filter);
        assert(store.take(0) =~= Seq::empty());
        assert(kept.deep_view() =~= Seq::<WindowModel>::empty());
    }
    while i < windows.len()
        invariant
            i <= windows.len(),
            store == windows.deep_view(),
            keep == |w: WindowModel| w.address != record@.address,
            kept.deep_view() == store.take(i as int).filter(keep),
        decreases windows.len() - i,
    {
        let ghost before = kept.deep_view();
        proof {
            assert(store.take(i + 1) =~= store.take(i as int).push(windows[i as int]@));
            lemma_filter_push(store.take(i as int), windows[i as int]@, keep);
        }
        if windows[i].address != record.address {
            kept.push(windows[i].clone());
            proof {
                assert(kept.deep_view() =~= before.push(windows[i as int]@));
            }
        }
        i += 1;
    }
    let ghost left = kept.deep_view();
    kept.push(record);
    proof {
        assert(store.take(windows.len() as int) =~= store);
        assert(kept.deep_view() =~= left.push(record@));
        if unique_addresses(store) {
            lemma_append_keeps_unique(store, record@);
        }
    }
    StoreUpdate { windows: kept, changed: true }
}

/// A window of the denylisted class is refused, whatever else is known of it.
pub proof fn lemma_denylisted_is_refused(fields: Map<Seq<char>, Seq<char>>)
    requires
        fields.contains_key("class"@),
        fields["class"@] == denylisted_class(),
    ensures
        decision(fields) == DecisionModel::Refused(Refusal::Denylisted),
{
}

/// No record that is left when an address is taken out has that address.
pub proof fn lemma_without_drops(store: Seq<WindowModel>, address: Seq<char>)
    ensures
        !holds(without(store, address), address),
{
    let keep = |w: WindowModel| w.address != address;
    let left = store.filter(keep);
    if holds(left, address) {
        let i = choose|i: int| 0 <= i < left.len() && (#[trigger] left[i]).address == address;
        store.lemma_filter_pred(keep, i);
    }
}

/// Minimizing never makes two records of one address: a store of distinct
/// addresses still has distinct addresses when a record has been entered,
/// also when it held a record of that address before.
pub proof fn lemma_append_keeps_unique(store: Seq<WindowModel>, record: WindowModel)
    requires
        unique_addresses(store),
    ensures
        unique_addresses(appended(store, record)),
        holds(appended(store, record), record.address),
{
    let keep = |w: WindowModel| w.address != record.address;
    let left = without(store, record.address);
    let full = appended(store, record);
    lemma_filter_keeps_unique(store, keep);
    lemma_without_drops(store, record.address);
    assert(full[left.len() as int].address == record.address);
    assert forall|i: int, j: int| 0 <= i < j < full.len() implies (#[trigger] full[i]).address != (
    #[trigger] full[j]).address by {
        if j < left.len() {
            assert(full[i] == left[i] && full[j] == left[j]);
        } else {
            assert(full[i] == left[i]);
            assert(left[i].address != record.address);
        }
    }
}

/// Minimizing leaves exactly one record of the window's address in the
/// store, the new one, whatever the store held before.
pub proof fn lemma_one_record_per_address(store: Seq<WindowModel>, record: WindowModel)
    ensures
        appended(store, record).filter(|w: WindowModel| w.address == record.address) == seq![record],
{
    let same = |w: WindowModel| w.address == record.address;
    let left = without(store, record.address);
    lemma_without_drops(store, record.address);
    lemma_filter_drops_all(left, same);
    lemma_filter_push(left, record, same);
    assert(Seq::<WindowModel>::empty().push(record) =~= seq![record]);
}

/// Minimizing the same address twice comes to the same as minimizing it once
/// with the later record: the earlier record is gone.
pub proof fn lemma_minimize_twice(store: Seq<WindowModel>, first: WindowModel, second: WindowModel)
    requires
        first.address == second.address,
    ensures
        appended(appended(store, first), second) == appended(store, second),
{
    let address = second.address;
    let keep = |w: WindowModel| w.address != address;
    let left = without(store, address);
    lemma_filter_push(left, first, keep);
    assert forall|i: int| 0 <= i < left.len() implies keep(#[trigger] left[i]) by {
        store.lemma_filter_pred(keep, i);
    }
    lemma_filter_keeps_all(left, keep);
}

/// Minimizing a window and then restoring its address sends the two commands
/// that bring the window back to the workspace that was recorded for it, and
/// takes its record out again: the store is one record shorter, and it is the
/// store from before without any older record of that address.
pub proof fn lemma_minimize_then_restore(store: Seq<WindowModel>, record: WindowModel)
    ensures
        restoration(appended(store, record), record.address).found,
        restoration(appended(store, record), record.address).commands == bring_back(record),
        restoration(appended(store, record), record.address).remaining == without(
            store,
            record.address,
        ),
        restoration(appended(store, record), record.address).remaining.len() == appended(
            store,
            record,
        ).len() - 1,
        !holds(store, record.address) ==> restoration(
            appended(store, record),
            record.address,
        ).remaining == store,
{
    let address = record.address;
    let keep = |w: WindowModel| w.address != address;
    let left = without(store, address);
    let full = appended(store, record);
    lemma_without_drops(store, address);
    lemma_restore_absent(left, address);
    lemma_holds_push(left, record, address);
    lemma_filter_push(left, record, keep);
    assert(full.drop_last() =~= left);
    assert(restore_commands(full, address) =~= bring_back(record));
    if !holds(store, address) {
        lemma_restore_absent(store, address);
    }
}

} // verus!
