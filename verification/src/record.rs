//! The record of one minimized window, and the store: the list of these
//! records, oldest first.

use vstd::prelude::*;

verus! {

/// What is remembered of a window while it is minimized.
#[derive(Debug)]
pub struct MinimizedWindow {
    /// The window manager's identifier of the window; the key of the record.
    pub address: String,
    /// The label shown in menus, made once when the window is minimized.
    pub display_title: String,
    /// The application class of the window.
    pub class: String,
    /// The title the window had when it was minimized.
    pub original_title: String,
    /// Where the thumbnail lies, if one could be taken.
    pub preview_path: Option<String>,
    /// The glyph chosen for the application class.
    pub icon: String,
    /// The workspace the window returns to when it is restored.
    pub workspace: i32,
}

/// The mathematical content of a `MinimizedWindow`.
pub struct WindowModel {
    pub address: Seq<char>,
    pub display_title: Seq<char>,
    pub class: Seq<char>,
    pub original_title: Seq<char>,
    pub preview_path: Option<Seq<char>>,
    pub icon: Seq<char>,
    pub workspace: i32,
}

impl View for MinimizedWindow {
    type V = WindowModel;

    open spec fn view(&self) -> WindowModel {
        WindowModel {
            address: self.address@,
            display_title: self.display_title@,
            class: self.class@,
            original_title: self.original_title@,
            preview_path: self.preview_path.deep_view(),
            icon: self.icon@,
            workspace: self.workspace,
        }
    }
}

impl DeepView for MinimizedWindow {
    type V = WindowModel;

    open spec fn deep_view(&self) -> WindowModel {
        self@
    }
}

impl Clone for MinimizedWindow {
    fn clone(&self) -> (copy: Self)
        ensures
            copy == *self,
    {
        MinimizedWindow {
            address: self.address.clone(),
            display_title: self.display_title.clone(),
            class: self.class.clone(),
            original_title: self.original_title.clone(),
            preview_path: match &self.preview_path {
                Some(path) => Some(path.clone()),
                None => None,
            },
            icon: self.icon.clone(),
            workspace: self.workspace,
        }
    }
}

impl PartialEq for MinimizedWindow {
    fn eq(&self, other: &Self) -> (same: bool) {
        let previews = match (&self.preview_path, &other.preview_path) {
            (Some(left), Some(right)) => *left == *right,
            (None, None) => true,
            _ => false,
        };
        self.address == other.address && self.display_title == other.display_title && self.class
            == other.class && self.original_title == other.original_title && previews && self.icon
            == other.icon && self.workspace == other.workspace
    }
}

impl vstd::std_specs::cmp::PartialEqSpecImpl for MinimizedWindow {
    open spec fn obeys_eq_spec() -> bool {
        true
    }

    open spec fn eq_spec(&self, other: &Self) -> bool {
        self@ == other@
    }
}

/// The store as an operation leaves it.
#[derive(Debug)]
pub struct StoreUpdate {
    /// The records of the store after the operation.
    pub windows: Vec<MinimizedWindow>,
    /// Whether the operation changed the store, so that it is to be saved and
    /// observers told.
    pub changed: bool,
}

/// Whether a store holds a record for `address`.
pub open spec fn holds(store: Seq<WindowModel>, address: Seq<char>) -> bool {
    exists|i: int| 0 <= i < store.len() && (#[trigger] store[i]).address == address
}

/// The invariant that callers of the store keep: no two records of a store
/// share an address.
pub open spec fn unique_addresses(store: Seq<WindowModel>) -> bool {
    forall|i: int, j: int|
        0 <= i < j < store.len() ==> (#[trigger] store[i]).address != (#[trigger] store[j]).address
}

/// The records of `store` whose address is not `address`, in their order.
pub open spec fn without(store: Seq<WindowModel>, address: Seq<char>) -> Seq<WindowModel> {
    store.filter(|w: WindowModel| w.address != address)
}

/// A filter keeps the addresses of a store distinct, and lets no address
/// through that the store did not hold.
pub proof fn lemma_filter_keeps_unique(store: Seq<WindowModel>, keep: spec_fn(WindowModel) -> bool)
    requires
        unique_addresses(store),
    ensures
        unique_addresses(store.filter(keep)),
        forall|a: Seq<char>| holds(store.filter(keep), a) ==> holds(store, a),
    decreases store.len(),
{
    reveal(Seq::filter);
    if store.len() > 0 {
        let front = store.drop_last();
        let last = store.last();
        assert(unique_addresses(front)) by {
            assert forall|i: int, j: int| 0 <= i < j < front.len() implies (#[trigger] front[i]).address
                != (#[trigger] front[j]).address by {
                assert(front[i] == store[i] && front[j] == store[j]);
            }
        }
        lemma_filter_keeps_unique(front, keep);
        let out = store.filter(keep);
        let kept = front.filter(keep);
        assert forall|a: Seq<char>| holds(out, a) implies holds(store, a) by {
            let i = choose|i: int| 0 <= i < out.len() && (#[trigger] out[i]).address == a;
            if i < kept.len() {
                assert(out[i] == kept[i]);
                assert(kept[i].address == a);
                assert(holds(kept, a));
                assert(holds(front, a));
                let j = choose|j: int| 0 <= j < front.len() && (#[trigger] front[j]).address == a;
                assert(store[j].address == a);
            } else {
                assert(store[store.len() - 1].address == a);
            }
        }
        assert forall|i: int, j: int| 0 <= i < j < out.len() implies (#[trigger] out[i]).address
            != (#[trigger] out[j]).address by {
            if j < kept.len() {
                assert(kept[i] == out[i] && kept[j] == out[j]);
            } else {
                assert(out[i] == kept[i]);
                assert(holds(kept, kept[i].address));
                assert(holds(front, kept[i].address));
                let k = choose|k: int|
                    0 <= k < front.len() && (#[trigger] front[k]).address == kept[i].address;
                assert(store[k] == front[k]);
                assert(store[k].address != store[store.len() - 1].address);
            }
        }
    }
}

} // verus!
