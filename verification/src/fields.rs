//! A mapping from field names to text values, as it is read from the window
//! manager's description of a window or a workspace.

use vstd::prelude::*;
use vstd::string::StringExecFns;

verus! {

/// The mapping that a list of name/value pairs describes: each pair is
/// entered in turn, so that of two pairs with one name the later one counts.
pub open spec fn pairs_map(pairs: Seq<(Seq<char>, Seq<char>)>) -> Map<Seq<char>, Seq<char>>
    decreases pairs.len(),
{
    if pairs.len() == 0 {
        Map::empty()
    } else {
        pairs_map(pairs.drop_last()).insert(pairs.last().0, pairs.last().1)
    }
}

/// A name is in the mapping exactly if some pair has it, and it is mapped to
/// the value of the last such pair.
pub proof fn lemma_pairs_map(pairs: Seq<(Seq<char>, Seq<char>)>, name: Seq<char>)
    ensures
        pairs_map(pairs).contains_key(name) <==> exists|i: int|
            0 <= i < pairs.len() && (#[trigger] pairs[i]).0 == name,
        forall|i: int|
            0 <= i < pairs.len() && (#[trigger] pairs[i]).0 == name && (forall|j: int|
                i < j < pairs.len() ==> (#[trigger] pairs[j]).0 != name) ==> pairs_map(pairs)[name]
                == pairs[i].1,
    decreases pairs.len(),
{
    if pairs.len() > 0 {
        let front = pairs.drop_last();
        let last = pairs.last();
        lemma_pairs_map(front, name);
        if pairs_map(pairs).contains_key(name) {
            if last.0 == name {
                assert(pairs[pairs.len() - 1].0 == name);
            } else {
                let i = choose|i: int| 0 <= i < front.len() && (#[trigger] front[i]).0 == name;
                assert(pairs[i].0 == name);
            }
        }
        if exists|i: int| 0 <= i < pairs.len() && (#[trigger] pairs[i]).0 == name {
            let i = choose|i: int| 0 <= i < pairs.len() && (#[trigger] pairs[i]).0 == name;
            if i < front.len() {
                assert(front[i].0 == name);
            }
        }
        assert forall|i: int|
            0 <= i < pairs.len() && (#[trigger] pairs[i]).0 == name && (forall|j: int|
                i < j < pairs.len() ==> (#[trigger] pairs[j]).0 != name) implies pairs_map(pairs)[name]
            == pairs[i].1 by {
            if i < front.len() {
                assert(pairs[pairs.len() - 1].0 != name);
                assert(front[i] == pairs[i]);
                assert forall|j: int| i < j < front.len() implies (#[trigger] front[j]).0 != name by {
                    assert(front[j] == pairs[j]);
                }
            }
        }
    }
}

/// A mapping from field names to values. Entering a name a second time
/// replaces its value.
#[derive(Debug)]
pub struct FieldMap {
    entries: Vec<(String, String)>,
}

impl View for FieldMap {
    type V = Map<Seq<char>, Seq<char>>;

    closed spec fn view(&self) -> Map<Seq<char>, Seq<char>> {
        pairs_map(self.entries.deep_view())
    }
}

impl FieldMap {
    /// The empty mapping.
    pub fn new() -> (fields: FieldMap)
        ensures
            fields@ == Map::<Seq<char>, Seq<char>>::empty(),
    {
        let fields = FieldMap { entries: Vec::new() };
        assert(fields.entries.deep_view() =~= Seq::empty());
        fields
    }

    /// Maps `name` to `value`, in place of any value it had.
    pub fn insert(&mut self, name: String, value: String)
        ensures
            final(self)@ == old(self)@.insert(name@, value@),
    {
        let ghost before = self.entries.deep_view();
        self.entries.push((name, value));
        proof {
            assert(self.entries.deep_view() =~= before.push((name@, value@)));
            assert(self.entries.deep_view().drop_last() =~= before);
        }
    }

    /// The value of `name`, if the mapping has one.
    pub fn get(&self, name: &str) -> (value: Option<&String>)
        ensures
            match value {
                Some(text) => self@.contains_key(name@) && self@[name@] == text@,
                None => !self@.contains_key(name@),
            },
    {
        let wanted = String::from_str(name);
        let ghost pairs = self.entries.deep_view();
        let mut i: usize = self.entries.len();
        while i > 0
            invariant
                i <= self.entries.len(),
                wanted@ == name@,
                pairs == self.entries.deep_view(),
                forall|j: int| i <= j < pairs.len() ==> (#[trigger] pairs[j]).0 != name@,
            decreases i,
        {
            i -= 1;
            if self.entries[i].0 == wanted {
                proof {
                    assert(pairs[i as int] == (self.entries[i as int].0@, self.entries[i as int].1@));
                    lemma_pairs_map(pairs, name@);
                }
                return Some(&self.entries[i].1);
            }
            proof {
                assert(pairs[i as int].0 == self.entries[i as int].0@);
            }
        }
        proof {
            lemma_pairs_map(pairs, name@);
        }
        None
    }

    /// Whether the mapping has a value for `name`.
    pub fn contains_key(&self, name: &str) -> (present: bool)
        ensures
            present == self@.contains_key(name@),
    {
        self.get(name).is_some()
    }
}

} // verus!
