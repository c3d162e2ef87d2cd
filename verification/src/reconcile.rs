//! Reconciliation: holding the store against what the window manager
//! reports, and dropping the records of windows that are gone.

use vstd::prelude::*;
use vstd::string::StringExecFns;
use crate::filter::{lemma_filter_keeps_all, lemma_filter_push};
use crate::record::{
    lemma_filter_keeps_unique, unique_addresses, MinimizedWindow, StoreUpdate, WindowModel,
};

verus! {

/// The name of the workspace on which minimized windows are parked.
pub open spec fn hidden_workspace_name() -> Seq<char> {
    "special:minimized"@
}

/// The name of the workspace on which minimized windows are parked.
pub fn hidden_workspace() -> (name: &'static str)
    ensures
        name@ == hidden_workspace_name(),
{
    "special:minimized"
}

/// One line of the window manager's report of which window is on which
/// workspace.
#[derive(Debug)]
pub struct Assignment {
    /// The name of the workspace.
    pub workspace: String,
    /// The address of the window.
    pub address: String,
}

/// The mathematical content of an `Assignment`.
pub struct AssignmentModel {
    pub workspace: Seq<char>,
    pub address: Seq<char>,
}

impl View for Assignment {
    type V = AssignmentModel;

    open spec fn view(&self) -> AssignmentModel {
        AssignmentModel { workspace: self.workspace@, address: self.address@ }
    }
}

impl DeepView for Assignment {
    type V = AssignmentModel;

    open spec fn deep_view(&self) -> AssignmentModel {
        self@
    }
}

/// Two snapshots of the window manager's state, taken one after the other.
#[derive(Debug)]
pub struct LiveState {
    /// The addresses of all open windows.
    pub clients: Vec<String>,
    /// The workspace of each window.
    pub assignments: Vec<Assignment>,
}

/// What the two snapshots say: the set of open windows and the set of windows
/// on the hidden workspace, both by address.
pub struct LiveModel {
    pub open: Set<Seq<char>>,
    pub hidden: Set<Seq<char>>,
}

/// Whether `address` is one of `clients`.
pub open spec fn listed(clients: Seq<Seq<char>>, address: Seq<char>) -> bool {
    exists|i: int| 0 <= i < clients.len() && #[trigger] clients[i] == address
}

/// Whether some assignment puts `address` on the hidden workspace.
pub open spec fn parked(assignments: Seq<AssignmentModel>, address: Seq<char>) -> bool {
    exists|i: int|
        0 <= i < assignments.len() && (#[trigger] assignments[i]).workspace
            == hidden_workspace_name() && assignments[i].address == address
}

impl View for LiveState {
    type V = LiveModel;

    open spec fn view(&self) -> LiveModel {
        LiveModel {
            open: Set::new(|a: Seq<char>| listed(self.clients.deep_view(), a)),
            hidden: Set::new(|a: Seq<char>| parked(self.assignments.deep_view(), a)),
        }
    }
}

impl LiveModel {
    /// Whether both snapshots know the window: it is open, and it is on the
    /// hidden workspace.
    pub open spec fn confirms(self, address: Seq<char>) -> bool {
        self.open.contains(address) && self.hidden.contains(address)
    }
}

/// The records that a reconciliation keeps: those whose window both snapshots
/// know, in the order of the store.
pub open spec fn surviving(store: Seq<WindowModel>, live: LiveModel) -> Seq<WindowModel> {
    store.filter(|w: WindowModel| live.confirms(w.address))
}

/// Tests whether `address` is one of `clients`.
pub fn is_listed(clients: &Vec<String>, address: &String) -> (found: bool)
    ensures
        found == listed(clients.deep_view(), address@),
{
    let ghost all = clients.deep_view();
    let mut i: usize = 0;
    while i < clients.len()
        invariant
            i <= clients.len(),
            all == clients.deep_view(),
            forall|j: int| 0 <= j < i ==> #[trigger] all[j] != address@,
        decreases clients.len() - i,
    {
        assert(all[i as int] == clients[i as int]@);
        if clients[i] == *address {
            return true;
        }
        i += 1;
    }
    false
}

impl LiveState {
    /// Tests whether the client list holds `address`.
    pub fn is_open(&self, address: &String) -> (open: bool)
        ensures
            open == self@.open.contains(address@),
    {
        is_listed(&self.clients, address)
    }

    /// Tests whether the assignments put `address` on the hidden workspace.
    pub fn is_hidden(&self, address: &String) -> (hidden: bool)
        ensures
            hidden == self@.hidden.contains(address@),
    {
        let name = String::from_str(hidden_workspace());
        let ghost all = self.assignments.deep_view();
        let mut i: usize = 0;
        while i < self.assignments.len()
            invariant
                i <= self.assignments.len(),
                name@ == hidden_workspace_name(),
                all == self.assignments.deep_view(),
                forall|j: int|
                    0 <= j < i ==> !((#[trigger] all[j]).workspace == hidden_workspace_name()
                        && all[j].address == address@),
            decreases self.assignments.len() - i,
        {
            assert(all[i as int] == self.assignments[i as int]@);
            if self.assignments[i].workspace == name && self.assignments[i].address == *address {
                return true;
            }
            i += 1;
        }
        false
    }

    /// Tests whether both snapshots know the window at `address`.
    pub fn confirms(&self, address: &String) -> (known: bool)
        ensures
            known == self@.confirms(address@),
    {
        self.is_open(address) && self.is_hidden(address)
    }
}

/// Whether the window manager has to be asked before the store can be
/// reconciled: an empty store has nothing to lose.
pub fn needs_live_state(windows: &Vec<MinimizedWindow>) -> (needed: bool)
    ensures
        needed == (windows.len() > 0),
{
    windows.len() > 0
}

/// Reconciles the store with the window manager's state. With both snapshots
/// at hand, a record stays exactly if its window is open and on the hidden
/// workspace. Without them (`live` is `None`) every record stays.
pub fn validate_cached_windows(windows: Vec<MinimizedWindow>, live: Option<&LiveState>) -> (out:
    StoreUpdate)
    ensures
        out.windows.deep_view() == match live {
            Some(state) => surviving(windows.deep_view(), state@),
            None => windows.deep_view(),
        },
        out.changed == (out.windows.len() != windows.len()),
        live is None ==> !out.changed,
        live matches Some(state) && (forall|i: int|
            0 <= i < windows.len() ==> state@.confirms((#[trigger] windows[i]).address@))
            ==> out.windows.deep_view() == windows.deep_view() && !out.changed,
        unique_addresses(windows.deep_view()) ==> unique_addresses(out.windows.deep_view()),
{
    match live {
        None => StoreUpdate { windows, changed: false },
        Some(state) => {
            let ghost keep = |w: WindowModel| state@.confirms(w.address);
            let mut kept: Vec<MinimizedWindow> = Vec::new();
            let mut i: usize = 0;
            proof {
                reveal(Seq::filter);
                assert(windows.deep_view().take(0) =~= Seq::empty());
                assert(kept.deep_view() =~= Seq::<WindowModel>::empty());
            }
            while i < windows.len()
                invariant
                    i <= windows.len(),
                    keep == |w: WindowModel| state@.confirms(w.address),
                    kept.deep_view() == windows.deep_view().take(i as int).filter(keep),
                    kept.len() <= i,
                decreases windows.len() - i,
            {
                let ghost before = kept.deep_view();
                let ghost seen = windows.deep_view().take(i as int);
                proof {
                    assert(windows.deep_view().take(i + 1) =~= seen.push(windows[i as int]@));
                    lemma_filter_push(seen, windows[i as int]@, keep);
                }
                if state.confirms(&windows[i].address) {
                    kept.push(windows[i].clone());
                    proof {
                        assert(kept.deep_view() =~= before.push(windows[i as int]@));
                    }
                }
                i += 1;
            }
            proof {
                assert(windows.deep_view().take(windows.len() as int) =~= windows.deep_view());
                if forall|i: int|
                    0 <= i < windows.len() ==> state@.confirms((#[trigger] windows[i]).address@) {
                    assert forall|i: int| 0 <= i < windows.deep_view().len() implies state@.confirms(
                        (#[trigger] windows.deep_view()[i]).address,
                    ) by {
                        assert(windows.deep_view()[i] == windows[i]@);
                    }
                    lemma_consistent_store_survives(windows.deep_view(), state@);
                }
                if unique_addresses(windows.deep_view()) {
                    lemma_filter_keeps_unique(windows.deep_view(), keep);
                }
            }
            let changed = kept.len() != windows.len();
            StoreUpdate { windows: kept, changed }
        },
    }
}

/// Reads the store from what was found at its place. `stored` is `None` where
/// nothing was found or what was found could not be read: the store is then
/// empty. Records that were read are reconciled with `live`.
pub fn read_windows_from_cache(stored: Option<Vec<MinimizedWindow>>, live: Option<&LiveState>) -> (out:
    StoreUpdate)
    ensures
        out.windows.deep_view() == match (stored, live) {
            (Some(windows), Some(state)) => surviving(windows.deep_view(), state@),
            (Some(windows), None) => windows.deep_view(),
            (None, _) => Seq::empty(),
        },
        out.changed == match stored {
            Some(windows) => out.windows.len() != windows.len(),
            None => false,
        },
        stored matches Some(windows) && unique_addresses(windows.deep_view()) ==> unique_addresses(
            out.windows.deep_view(),
        ),
{
    match stored {
        Some(windows) => validate_cached_windows(windows, live),
        None => {
            let windows: Vec<MinimizedWindow> = Vec::new();
            assert(windows.deep_view() =~= Seq::<WindowModel>::empty());
            StoreUpdate { windows, changed: false }
        },
    }
}

/// Reconciling a store that both snapshots confirm record by record changes
/// nothing.
pub proof fn lemma_consistent_store_survives(store: Seq<WindowModel>, live: LiveModel)
    requires
        forall|i: int| 0 <= i < store.len() ==> live.confirms((#[trigger] store[i]).address),
    ensures
        surviving(store, live) == store,
{
    lemma_filter_keeps_all(store, |w: WindowModel| live.confirms(w.address));
}

/// Every record that survives a reconciliation is confirmed by both
/// snapshots, so that a second pass against the same snapshots keeps all of
/// them.
pub proof fn lemma_reconcile_twice(store: Seq<WindowModel>, live: LiveModel)
    ensures
        surviving(surviving(store, live), live) == surviving(store, live),
{
    let keep = |w: WindowModel| live.confirms(w.address);
    let once = store.filter(keep);
    assert forall|i: int| 0 <= i < once.len() implies live.confirms((#[trigger] once[i]).address) by {
        store.lemma_filter_pred(keep, i);
    }
    lemma_consistent_store_survives(once, live);
}

} // verus!
