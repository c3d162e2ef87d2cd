//! Restoring minimized windows: which commands bring a window back, and what
//! is left of the store afterwards.

use vstd::prelude::*;
use vstd::string::StringExecFns;
use crate::command::{CommandModel, WmCommand};
use crate::menu::{menu_entries, menu_of, EntryModel, MenuEntry};
use crate::filter::lemma_filter_push;
use crate::record::{
    holds, lemma_filter_keeps_unique, unique_addresses, without, MinimizedWindow, WindowModel,
};

verus! {

/// What restoring one address comes to.
#[derive(Debug)]
pub struct Restoration {
    /// Whether the store held a record for the address. If not, nothing is
    /// sent and nothing is saved.
    pub found: bool,
    /// The commands to send to the window manager, in order.
    pub commands: Vec<WmCommand>,
    /// The store without the records of the address. It is saved whatever
    /// becomes of the commands.
    pub remaining: Vec<MinimizedWindow>,
}

/// The mathematical content of a `Restoration`.
pub struct RestorationModel {
    pub found: bool,
    pub commands: Seq<CommandModel>,
    pub remaining: Seq<WindowModel>,
}

impl View for Restoration {
    type V = RestorationModel;

    open spec fn view(&self) -> RestorationModel {
        RestorationModel {
            found: self.found,
            commands: self.commands.deep_view(),
            remaining: self.remaining.deep_view(),
        }
    }
}

impl DeepView for Restoration {
    type V = RestorationModel;

    open spec fn deep_view(&self) -> RestorationModel {
        self@
    }
}

/// The two commands that bring one window back: to its workspace, then into
/// focus.
pub open spec fn bring_back(window: WindowModel) -> Seq<CommandModel> {
    seq![
        CommandModel::MoveToWorkspace { workspace: window.workspace, address: window.address },
        CommandModel::FocusWindow { address: window.address },
    ]
}

/// The commands that restore `address`: the two of `bring_back` for each
/// record of that address, in the order of the store.
pub open spec fn restore_commands(store: Seq<WindowModel>, address: Seq<char>) -> Seq<CommandModel>
    decreases store.len(),
{
    if store.len() == 0 {
        Seq::empty()
    } else if store.last().address == address {
        restore_commands(store.drop_last(), address) + bring_back(store.last())
    } else {
        restore_commands(store.drop_last(), address)
    }
}

/// What restoring `address` from `store` comes to.
pub open spec fn restoration(store: Seq<WindowModel>, address: Seq<char>) -> RestorationModel {
    RestorationModel {
        found: holds(store, address),
        commands: restore_commands(store, address),
        remaining: without(store, address),
    }
}

/// Restores the window at `window_id`: the commands that move it back to the
/// workspace it came from and focus it, and the store without its record.
/// An address that the store does not hold gives no command and leaves the
/// store as it is.
pub fn restore_specific_window(windows: &Vec<MinimizedWindow>, window_id: &str) -> (out: Restoration)
    ensures
        out@ == restoration(windows.deep_view(), window_id@),
        unique_addresses(windows.deep_view()) ==> unique_addresses(out.remaining.deep_view()),
{
    let wanted = String::from_str(window_id);
    let ghost store = windows.deep_view();
    let ghost keep = |w: WindowModel| w.address != window_id@;
    let mut found = false;
    let mut commands: Vec<WmCommand> = Vec::new();
    let mut remaining: Vec<MinimizedWindow> = Vec::new();
    let mut i: usize = 0;
    proof {
        reveal(Seq::filter);
        assert(store.take(0) =~= Seq::empty());
        assert(commands.deep_view() =~= Seq::<CommandModel>::empty());
        assert(remaining.deep_view() =~= Seq::<WindowModel>::empty());
    }
    while i < windows.len()
        invariant
            i <= windows.len(),
            wanted@ == window_id@,
            store == windows.deep_view(),
            keep == |w: WindowModel| w.address != window_id@,
            found == holds(store.take(i as int), window_id@),
            commands.deep_view() == restore_commands(store.take(i as int), window_id@),
            remaining.deep_view() == store.take(i as int).filter(keep),
        decreases windows.len() - i,
    {
        let ghost seen = store.take(i as int);
        let ghost next = store.take(i + 1);
        let ghost sent = commands.deep_view();
        let ghost left = remaining.deep_view();
        let window = &windows[i];
        proof {
            assert(next =~= seen.push(window@));
            assert(next.drop_last() =~= seen);
            lemma_filter_push(seen, window@, keep);
            lemma_holds_push(seen, window@, window_id@);
        }
        if window.address == wanted {
            commands.push(
                WmCommand::MoveToWorkspace {
                    workspace: window.workspace,
                    address: wanted.clone(),
                },
            );
            commands.push(WmCommand::FocusWindow { address: wanted.clone() });
            found = true;
            proof {
                assert(commands.deep_view() =~= sent + bring_back(window@));
            }
        } else {
            remaining.push(window.clone());
            proof {
                assert(remaining.deep_view() =~= left.push(window@));
            }
        }
        i += 1;
    }
    proof {
        assert(store.take(windows.len() as int) =~= store);
        if unique_addresses(store) {
            lemma_filter_keeps_unique(store, keep);
        }
    }
    Restoration { found, commands, remaining }
}

/// What is to be done on a request to restore.
#[derive(Debug)]
pub enum RestoreRequest {
    /// The window was named: this is its restoration.
    Restore(Restoration),
    /// No window was named: these rows go to the menu launcher, which asks
    /// the user to choose one.
    Choose(Vec<MenuEntry>),
}

/// The mathematical content of a `RestoreRequest`.
pub enum RequestModel {
    Restore(RestorationModel),
    Choose(Seq<EntryModel>),
}

impl View for RestoreRequest {
    type V = RequestModel;

    open spec fn view(&self) -> RequestModel {
        match self {
            RestoreRequest::Restore(restoration) => RequestModel::Restore(restoration@),
            RestoreRequest::Choose(entries) => RequestModel::Choose(entries.deep_view()),
        }
    }
}

/// Answers a request to restore. With an address the window at that address
/// is restored. Without one the user is asked to choose from the menu, whose
/// rows are made here; the choice comes back as a request with an address.
pub fn restore_window(windows: &Vec<MinimizedWindow>, window_id: Option<&str>) -> (out:
    RestoreRequest)
    ensures
        out@ == match window_id {
            Some(id) => RequestModel::Restore(restoration(windows.deep_view(), id@)),
            None => RequestModel::Choose(menu_of(windows.deep_view())),
        },
{
    match window_id {
        Some(id) => RestoreRequest::Restore(restore_specific_window(windows, id)),
        None => RestoreRequest::Choose(menu_entries(windows)),
    }
}

/// Restores the window that has been minimized longest, the one at the head
/// of the store, if the store has any.
pub fn restore_oldest(windows: &Vec<MinimizedWindow>) -> (out: Option<Restoration>)
    ensures
        match out {
            Some(step) => windows.len() > 0 && step@ == restoration(
                windows.deep_view(),
                windows[0].address@,
            ),
            None => windows.len() == 0,
        },
{
    if windows.len() > 0 {
        Some(restore_specific_window(windows, windows[0].address.as_str()))
    } else {
        None
    }
}

/// A store that ends in `last` holds an address exactly if what comes before
/// holds it or `last` has it.
pub proof fn lemma_holds_push(store: Seq<WindowModel>, last: WindowModel, address: Seq<char>)
    ensures
        holds(store.push(last), address) == (holds(store, address) || last.address == address),
{
    let full = store.push(last);
    if holds(store, address) {
        let i = choose|i: int| 0 <= i < store.len() && (#[trigger] store[i]).address == address;
        assert(full[i].address == address);
    }
    if last.address == address {
        assert(full[store.len() as int].address == address);
    }
    if holds(full, address) {
        let i = choose|i: int| 0 <= i < full.len() && (#[trigger] full[i]).address == address;
        if i < store.len() {
            assert(store[i].address == address);
        }
    }
}

/// What is left of `store` when the addresses of its first `done` records
/// have been restored one after the other.
pub open spec fn left_after(store: Seq<WindowModel>, done: nat) -> Seq<WindowModel>
    decreases done,
{
    if done == 0 {
        store
    } else {
        without(left_after(store, (done - 1) as nat), store[done - 1].address)
    }
}

/// What restoring every window of `store` comes to: one restoration for each
/// record, oldest first, each made on what the one before has left.
pub open spec fn restorations(store: Seq<WindowModel>) -> Seq<RestorationModel> {
    Seq::new(store.len(), |k: int| restoration(left_after(store, k as nat), store[k].address))
}

/// Restores every window of the store, oldest first. Each step works on the
/// store as the step before has left it, so that an address is restored once.
pub fn restore_all_windows(windows: &Vec<MinimizedWindow>) -> (steps: Vec<Restoration>)
    ensures
        steps.deep_view() == restorations(windows.deep_view()),
        steps.len() == windows.len(),
        steps.len() > 0 ==> steps[steps.len() - 1].remaining.len() == 0,
{
    let ghost store = windows.deep_view();
    let mut steps: Vec<Restoration> = Vec::new();
    let mut k: usize = 0;
    while k < windows.len()
        invariant
            k <= windows.len(),
            store == windows.deep_view(),
            steps.len() == k,
            forall|j: int|
                0 <= j < k ==> (#[trigger] steps@[j])@ == restoration(
                    left_after(store, j as nat),
                    store[j].address,
                ),
        decreases windows.len() - k,
    {
        let step = if k == 0 {
            restore_specific_window(windows, windows[k].address.as_str())
        } else {
            restore_specific_window(&steps[k - 1].remaining, windows[k].address.as_str())
        };
        proof {
            if k > 0 {
                assert(steps@[k - 1]@.remaining == left_after(store, k as nat));
            }
        }
        steps.push(step);
        k += 1;
    }
    proof {
        assert(steps.deep_view() =~= restorations(store));
        if steps.len() > 0 {
            lemma_restore_all_empties(store);
            let last = steps@[steps.len() - 1];
            assert(last@.remaining == left_after(store, store.len()));
            assert(last.remaining.deep_view().len() == last.remaining.len());
        }
    }
    steps
}

/// In a store of distinct addresses, restoring the address of one record
/// sends exactly the two commands that bring that window back to the
/// workspace recorded for it, and takes exactly that record out.
pub proof fn lemma_restore_one(store: Seq<WindowModel>, at: int)
    requires
        unique_addresses(store),
        0 <= at < store.len(),
    ensures
        restoration(store, store[at].address).found,
        restoration(store, store[at].address).commands == bring_back(store[at]),
        restoration(store, store[at].address).remaining == store.remove(at),
        restoration(store, store[at].address).remaining.len() == store.len() - 1,
    decreases store.len(),
{
    let address = store[at].address;
    let keep = |w: WindowModel| w.address != address;
    let front = store.drop_last();
    let last = store.last();
    reveal(Seq::filter);
    assert(holds(store, address));
    assert(unique_addresses(front)) by {
        assert forall|i: int, j: int| 0 <= i < j < front.len() implies (#[trigger] front[i]).address
            != (#[trigger] front[j]).address by {
            assert(front[i] == store[i] && front[j] == store[j]);
        }
    }
    if at == store.len() - 1 {
        lemma_restore_absent(front, address);
        assert(restore_commands(store, address) =~= bring_back(last));
        assert(store.remove(at) =~= front);
    } else {
        assert(front[at] == store[at]);
        lemma_restore_one(front, at);
        assert(store[at].address != store[store.len() - 1].address);
        assert(store.remove(at) =~= front.remove(at).push(last));
    }
}

/// Restoring an address that the store does not hold sends nothing and takes
/// nothing out.
pub proof fn lemma_restore_absent(store: Seq<WindowModel>, address: Seq<char>)
    requires
        !holds(store, address),
    ensures
        !restoration(store, address).found,
        restoration(store, address).commands == Seq::<CommandModel>::empty(),
        restoration(store, address).remaining == store,
    decreases store.len(),
{
    reveal(Seq::filter);
    if store.len() > 0 {
        let front = store.drop_last();
        assert(store[store.len() - 1].address != address);
        assert(!holds(front, address)) by {
            if holds(front, address) {
                let i = choose|i: int| 0 <= i < front.len() && (#[trigger] front[i]).address == address;
                assert(store[i].address == address);
            }
        }
        lemma_restore_absent(front, address);
        assert(front.push(store.last()) =~= store);
    }
}

/// In a store of distinct addresses, restoring all windows takes them out one
/// by one from the front: step `k` finds its record, sends the two commands
/// that bring that window back, and leaves the records after it.
pub proof fn lemma_restore_all_in_order(store: Seq<WindowModel>, k: int)
    requires
        unique_addresses(store),
        0 <= k < store.len(),
    ensures
        left_after(store, k as nat) == store.skip(k),
        restorations(store)[k].found,
        restorations(store)[k].commands == bring_back(store[k]),
        restorations(store)[k].remaining == store.skip(k + 1),
    decreases k,
{
    if k > 0 {
        lemma_restore_all_in_order(store, k - 1);
        assert(left_after(store, k as nat) == restoration(
            left_after(store, (k - 1) as nat),
            store[k - 1].address,
        ).remaining);
    } else {
        assert(store.skip(0) =~= store);
    }
    let rest = store.skip(k);
    assert(unique_addresses(rest)) by {
        assert forall|i: int, j: int| 0 <= i < j < rest.len() implies (#[trigger] rest[i]).address != (
        #[trigger] rest[j]).address by {
            assert(rest[i] == store[k + i] && rest[j] == store[k + j]);
        }
    }
    assert(rest[0] == store[k]);
    lemma_restore_one(rest, 0);
    assert(rest.remove(0) =~= store.skip(k + 1));
}

/// Restoring all windows leaves an empty store, whatever the store held.
pub proof fn lemma_restore_all_empties(store: Seq<WindowModel>)
    ensures
        left_after(store, store.len()) == Seq::<WindowModel>::empty(),
{
    let left = left_after(store, store.len());
    if left.len() > 0 {
        lemma_left_after_members(store, store.len(), 0);
        let at = choose|at: int| 0 <= at < store.len() && store[at] == left[0];
        assert(store[at].address != left[0].address);
    }
    assert(left_after(store, store.len()) =~= Seq::<WindowModel>::empty());
}

/// A record that is left after `done` steps was in the store, and its address
/// is none of the first `done` addresses.
pub proof fn lemma_left_after_members(store: Seq<WindowModel>, done: nat, i: int)
    requires
        done <= store.len(),
        0 <= i < left_after(store, done).len(),
    ensures
        store.contains(left_after(store, done)[i]),
        forall|j: int| 0 <= j < done ==> (#[trigger] store[j]).address != left_after(store, done)[i].address,
    decreases done,
{
    let w = left_after(store, done)[i];
    if done == 0 {
        assert(store[i] == w);
    } else {
        let before = left_after(store, (done - 1) as nat);
        let keep = |x: WindowModel| x.address != store[done - 1].address;
        assert(left_after(store, done) == before.filter(keep));
        before.lemma_filter_pred(keep, i);
        assert(before.filter(keep).contains(w));
        before.lemma_filter_contains_rev(keep, w);
        let at = choose|at: int| 0 <= at < before.len() && before[at] == w;
        lemma_left_after_members(store, (done - 1) as nat, at);
    }
}

} // verus!
