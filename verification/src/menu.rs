//! What the menu launcher is given to show, and how its answer is read.

use vstd::prelude::*;
use vstd::string::StringExecFns;
use crate::number::{decimal, format_i32};
use crate::reconcile::{is_listed, listed};
use crate::filter::{lemma_filter_keeps_all, lemma_filter_push};
use crate::record::{lemma_filter_keeps_unique, unique_addresses, MinimizedWindow, WindowModel};
use crate::text::{
    lowercase, replace_char, replaced, tail, tail_of, to_lowercase, trim, trimmed, Strip,
};

verus! {

/// One row of the menu.
#[derive(Debug)]
pub struct MenuEntry {
    /// The text of the row.
    pub label: String,
    /// The picture of the row: the path of a preview, or the name of an icon.
    pub icon: String,
    /// What the launcher hands back when the row is chosen: the address.
    pub info: String,
}

/// The mathematical content of a `MenuEntry`.
pub struct EntryModel {
    pub label: Seq<char>,
    pub icon: Seq<char>,
    pub info: Seq<char>,
}

impl View for MenuEntry {
    type V = EntryModel;

    open spec fn view(&self) -> EntryModel {
        EntryModel { label: self.label@, icon: self.icon@, info: self.info@ }
    }
}

impl DeepView for MenuEntry {
    type V = EntryModel;

    open spec fn deep_view(&self) -> EntryModel {
        self@
    }
}

impl PartialEq for MenuEntry {
    fn eq(&self, other: &Self) -> (same: bool) {
        self.label == other.label && self.icon == other.icon && self.info == other.info
    }
}

impl vstd::std_specs::cmp::PartialEqSpecImpl for MenuEntry {
    open spec fn obeys_eq_spec() -> bool {
        true
    }

    open spec fn eq_spec(&self, other: &Self) -> bool {
        self@ == other@
    }
}

/// The row for a window: its label, its preview where it has one and the
/// icon named `icon_name` where it has none, and its address.
pub open spec fn entry_of(window: WindowModel, icon_name: Seq<char>) -> EntryModel {
    EntryModel {
        label: window.display_title,
        icon: match window.preview_path {
            Some(path) => path,
            None => icon_name,
        },
        info: window.address,
    }
}

/// The rows for a store, one for each record, oldest first. A window without
/// a preview is shown with the icon named like its class in lower case.
pub open spec fn menu_of(store: Seq<WindowModel>) -> Seq<EntryModel> {
    Seq::new(store.len(), |i: int| entry_of(store[i], lowercase(store[i].class)))
}

/// Makes the row for a window, with `icon_name` for a window without a
/// preview.
pub fn menu_entry(window: &MinimizedWindow, icon_name: String) -> (entry: MenuEntry)
    ensures
        entry@ == entry_of(window@, icon_name@),
{
    MenuEntry {
        label: window.display_title.clone(),
        icon: match &window.preview_path {
            Some(path) => path.clone(),
            None => icon_name,
        },
        info: window.address.clone(),
    }
}

/// Makes the rows of the menu for a store.
pub fn menu_entries(windows: &Vec<MinimizedWindow>) -> (entries: Vec<MenuEntry>)
    ensures
        entries.deep_view() == menu_of(windows.deep_view()),
{
    let mut entries: Vec<MenuEntry> = Vec::new();
    let mut i: usize = 0;
    while i < windows.len()
        invariant
            i <= windows.len(),
            entries.len() == i,
            forall|j: int|
                0 <= j < i ==> (#[trigger] entries@[j])@ == entry_of(
                    windows[j]@,
                    lowercase(windows[j]@.class),
                ),
        decreases windows.len() - i,
    {
        let icon_name = to_lowercase(windows[i].class.as_str());
        entries.push(menu_entry(&windows[i], icon_name));
        i += 1;
    }
    assert(entries.deep_view() =~= menu_of(windows.deep_view()));
    entries
}

/// The line that writes a row in the script which feeds the launcher: an
/// `echo` of the label, the icon and the address, with the marks that the
/// launcher reads between them. A double quote in the label or the address
/// is written with a backslash before it, since the line puts them in double
/// quotes.
pub open spec fn script_line(entry: EntryModel) -> Seq<char> {
    "    echo -en \""@ + replaced(entry.label, '"', "\\\""@) + "\\0icon\\x1f"@ + entry.icon
        + "\\x1finfo\\x1f"@ + replaced(entry.info, '"', "\\\""@) + "\\n\"\n"@
}

/// Writes the line of the script for a row.
pub fn script_line_for(entry: &MenuEntry) -> (line: String)
    ensures
        line@ == script_line(entry@),
{
    let mut line = String::from_str("    echo -en \"");
    line.append(replace_char(entry.label.as_str(), '"', "\\\"").as_str());
    line.append("\\0icon\\x1f");
    line.append(entry.icon.as_str());
    line.append("\\x1finfo\\x1f");
    line.append(replace_char(entry.info.as_str(), '"', "\\\"").as_str());
    line.append("\\n\"\n");
    line
}

/// The address of the first record with the label `label`, if there is one.
pub open spec fn first_labelled(store: Seq<WindowModel>, label: Seq<char>) -> Option<Seq<char>>
    decreases store.len(),
{
    if store.len() == 0 {
        None
    } else if store[0].display_title == label {
        Some(store[0].address)
    } else {
        first_labelled(store.drop_first(), label)
    }
}

/// The address that an answer of the launcher stands for: the answer is read
/// without the white space around it; an empty answer chooses nothing, any
/// other the first window with that label.
pub open spec fn selected(store: Seq<WindowModel>, answer: Seq<char>) -> Option<Seq<char>> {
    let label = trim(answer, Strip::WhiteSpace);
    if label.len() == 0 {
        None
    } else {
        first_labelled(store, label)
    }
}

/// Reads the answer of the launcher, given as the label of a row.
pub fn select_by_label(windows: &Vec<MinimizedWindow>, answer: &str) -> (address: Option<String>)
    ensures
        match address {
            Some(text) => selected(windows.deep_view(), answer@) == Some(text@),
            None => selected(windows.deep_view(), answer@) is None,
        },
{
    let label = trimmed(answer);
    if label.as_str().is_empty() {
        return None;
    }
    let ghost store = windows.deep_view();
    let mut i: usize = 0;
    proof {
        assert(store.skip(0) =~= store);
    }
    while i < windows.len()
        invariant
            i <= windows.len(),
            store == windows.deep_view(),
            label@ == trim(answer@, Strip::WhiteSpace),
            label@.len() > 0,
            first_labelled(store, label@) == first_labelled(store.skip(i as int), label@),
        decreases windows.len() - i,
    {
        proof {
            assert(store.skip(i as int)[0] == windows[i as int]@);
            assert(store.skip(i as int).drop_first() =~= store.skip(i + 1));
        }
        if windows[i].display_title == label {
            return Some(windows[i].address.clone());
        }
        i += 1;
    }
    None
}

/// The line of the feed for a window: its workspace, class and title, the
/// last eight characters of its address, and after the word `info` the
/// address itself, by which the launcher names the window when it is chosen.
pub open spec fn feed_line(window: WindowModel) -> Seq<char> {
    "[WS:"@ + decimal(window.workspace as int) + "] "@ + window.class + " - "@ + window.original_title
        + " ["@ + tail(window.address, 8) + "] info"@ + window.address
}

/// Writes the line of the feed for a window.
pub fn feed_line_for(window: &MinimizedWindow) -> (line: String)
    ensures
        line@ == feed_line(window@),
{
    let mut line = String::from_str("[WS:");
    line.append(format_i32(window.workspace).as_str());
    line.append("] ");
    line.append(window.class.as_str());
    line.append(" - ");
    line.append(window.original_title.as_str());
    line.append(" [");
    line.append(tail_of(window.address.as_str(), 8).as_str());
    line.append("] info");
    line.append(window.address.as_str());
    line
}

/// The feed for the launcher, and the store it was made from.
#[derive(Debug)]
pub struct MenuFeed {
    /// One line for each window that is shown.
    pub lines: Vec<String>,
    /// The records of the windows that are shown.
    pub windows: Vec<MinimizedWindow>,
    /// Whether a record was dropped, so that the store is to be saved and
    /// observers told.
    pub changed: bool,
}

/// Whether the feed shows the window at `address`: it does if the window is
/// open, and also if the list of open windows is not at hand.
pub open spec fn is_shown(clients: Option<Seq<Seq<char>>>, address: Seq<char>) -> bool {
    match clients {
        Some(open) => listed(open, address),
        None => true,
    }
}

/// The records that the feed shows, in the order of the store.
pub open spec fn shown(store: Seq<WindowModel>, clients: Option<Seq<Seq<char>>>) -> Seq<WindowModel> {
    store.filter(|w: WindowModel| is_shown(clients, w.address))
}

/// The lines of the feed for the records `store`.
pub open spec fn feed_lines(store: Seq<WindowModel>) -> Seq<Seq<char>> {
    Seq::new(store.len(), |i: int| feed_line(store[i]))
}

/// Makes the feed for the launcher. `clients` holds the addresses of the open
/// windows, or is `None` if the window manager did not tell them. The record
/// of a window that is no longer open is dropped from the feed and from the
/// store.
pub fn show_rofi_menu(windows: &Vec<MinimizedWindow>, clients: Option<&Vec<String>>) -> (feed:
    MenuFeed)
    ensures
        feed.windows.deep_view() == shown(windows.deep_view(), clients.deep_view()),
        feed.lines.deep_view() == feed_lines(feed.windows.deep_view()),
        feed.changed == (feed.windows.len() != windows.len()),
        clients is None ==> feed.windows.deep_view() == windows.deep_view() && !feed.changed,
        unique_addresses(windows.deep_view()) ==> unique_addresses(feed.windows.deep_view()),
{
    let ghost store = windows.deep_view();
    let ghost keep = |w: WindowModel| is_shown(clients.deep_view(), w.address);
    let mut lines: Vec<String> = Vec::new();
    let mut kept: Vec<MinimizedWindow> = Vec::new();
    let mut i: usize = 0;
    proof {
        reveal(Seq::filter);
        assert(store.take(0) =~= Seq::empty());
        assert(kept.deep_view() =~= Seq::<WindowModel>::empty());
    }
    while i < windows.len()
        invariant
            i <= windows.len(),
            store == windows.deep_view(),
            keep == |w: WindowModel| is_shown(clients.deep_view(), w.address),
            kept.deep_view() == store.take(i as int).filter(keep),
            kept.len() <= i,
            lines.len() == kept.len(),
            forall|j: int| 0 <= j < lines.len() ==> (#[trigger] lines@[j])@ == feed_line(kept@[j]@),
        decreases windows.len() - i,
    {
        let ghost before = kept.deep_view();
        proof {
            assert(store.take(i + 1) =~= store.take(i as int).push(windows[i as int]@));
            lemma_filter_push(store.take(i as int), windows[i as int]@, keep);
        }
        let open = match clients {
            Some(open) => is_listed(open, &windows[i].address),
            None => true,
        };
        if open {
            lines.push(feed_line_for(&windows[i]));
            kept.push(windows[i].clone());
            proof {
                assert(kept.deep_view() =~= before.push(windows[i as int]@));
            }
        }
        i += 1;
    }
    proof {
        assert(store.take(windows.len() as int) =~= store);
        assert(lines.deep_view() =~= feed_lines(kept.deep_view()));
        if unique_addresses(store) {
            lemma_filter_keeps_unique(store, keep);
        }
        if clients is None {
            lemma_filter_keeps_all(store, keep);
        }
    }
    let changed = kept.len() != windows.len();
    MenuFeed { lines, windows: kept, changed }
}

} // verus!
