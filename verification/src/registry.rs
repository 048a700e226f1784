//! A protocol-handler store kept in memory, on which the registrar's writes
//! can be carried out and read back.

use vstd::prelude::*;
use vstd::string::*;
use crate::dispatch::HANDLED_PROTOCOL;
use crate::registrar::{
    actions_view, applicable, applied_all, dispositions, found_key, key_created,
    lemma_registration_runs_through, lemma_runs_through_prefix, registered, registration_actions,
    registration_plan, runs_through, value_set, KeyDisposition, RegistryAction, StoreView,
};
use crate::text::str_equal;
use crate::text_map::TextMap;

verus! {

#[derive(Debug, PartialEq, Eq)]
struct KeyRecord {
    path: String,
    values: TextMap,
}

/// A store kept in memory: the keys that exist, each with its values.
///
/// Its view is the store it stands for.
#[derive(Debug, PartialEq, Eq)]
pub struct Registry {
    keys: Vec<KeyRecord>,
}

/// Whether some record of `keys` is for the key at `path`.
spec fn has_path(keys: Seq<KeyRecord>, path: Seq<char>) -> bool {
    exists|i: int| 0 <= i < keys.len() && (#[trigger] keys[i]).path@ == path
}

/// The place of a record for the key at `path`, where there is one.
spec fn place_of_path(keys: Seq<KeyRecord>, path: Seq<char>) -> int {
    choose|i: int| 0 <= i < keys.len() && (#[trigger] keys[i]).path@ == path
}

/// The store that a list of records stands for.
spec fn records_view(keys: Seq<KeyRecord>) -> StoreView {
    Map::new(
        |path: Seq<char>| has_path(keys, path),
        |path: Seq<char>| keys[place_of_path(keys, path)].values@,
    )
}

/// No path occurs in two records.
spec fn paths_are_distinct(keys: Seq<KeyRecord>) -> bool {
    forall|i: int, j: int|
        0 <= i < j < keys.len() ==> (#[trigger] keys[i]).path@ != (#[trigger] keys[j]).path@
}

impl View for Registry {
    type V = StoreView;

    closed spec fn view(&self) -> StoreView {
        records_view(self.keys@)
    }
}

impl Registry {
    #[verifier::type_invariant]
    spec fn well_formed(self) -> bool {
        paths_are_distinct(self.keys@)
    }

    /// A store without keys.
    pub fn new() -> (registry: Registry)
        ensures
            registry@ == StoreView::empty(),
    {
        Registry { keys: Vec::new() }
    }

    /// The index of the record for the key at `path`, if the key exists.
    fn find(&self, path: &str) -> (found: Option<usize>)
        ensures
            match found {
                Some(i) => i < self.keys@.len() && self.keys@[i as int].path@ == path@,
                None => !has_path(self.keys@, path@),
            },
    {
        let mut i: usize = 0;
        while i < self.keys.len()
            invariant
                i <= self.keys@.len(),
                forall|j: int| 0 <= j < i ==> (#[trigger] self.keys@[j]).path@ != path@,
            decreases self.keys@.len() - i,
        {
            if str_equal(self.keys[i].path.as_str(), path) {
                return Some(i);
            }
            i += 1;
        }
        None
    }

    /// Whether the key at `path` exists.
    pub fn has_key(&self, path: &str) -> (present: bool)
        ensures
            present == self@.dom().contains(path@),
    {
        self.find(path).is_some()
    }

    /// The value `name` of the key at `path`, if the key exists and has it.
    pub fn get_value(&self, path: &str, name: &str) -> (data: Option<&String>)
        ensures
            match data {
                Some(text) => self@.dom().contains(path@) && self@[path@].dom().contains(name@)
                    && text@ == self@[path@][name@],
                None => !(self@.dom().contains(path@) && self@[path@].dom().contains(name@)),
            },
    {
        proof {
            use_type_invariant(self);
        }
        match self.find(path) {
            Some(i) => self.keys[i].values.get(name),
            None => None,
        }
    }

    /// Creates the key at `path`, without values, unless it exists; tells
    /// which of the two was the case.
    pub fn create_or_open_key(&mut self, path: &str) -> (disposition: KeyDisposition)
        ensures
            final(self)@ == key_created(old(self)@, path@),
            disposition == found_key(old(self)@, path@),
    {
        proof {
            use_type_invariant(&*self);
        }
        let ghost before = self.keys@;
        match self.find(path) {
            Some(_) => KeyDisposition::OpenedExistingKey,
            None => {
                let mut keys = Vec::new();
                std::mem::swap(&mut keys, &mut self.keys);
                keys.push(KeyRecord { path: String::from_str(path), values: TextMap::new() });
                proof {
                    // Every record is where it was, and the new one is last.
                    let after = keys@;
                    assert(after[before.len() as int].path@ == path@);
                    assert forall|p: Seq<char>| has_path(before, p) implies has_path(after, p)
                        && place_of_path(after, p) == place_of_path(before, p) by {
                        assert(after[place_of_path(before, p)].path@ == p);
                        assert(before[place_of_path(after, p)].path@ == p);
                    }
                }
                self.keys = keys;
                KeyDisposition::CreatedNewKey
            },
        }
    }

    /// Sets the value `name` of the key at `path` to `data`, in place of what
    /// it was. A key that does not exist takes no value: the store is left
    /// as it is and the result is `false`.
    pub fn set_value(&mut self, path: &str, name: &str, data: &str) -> (stored: bool)
        ensures
            stored == old(self)@.dom().contains(path@),
            final(self)@ == value_set(old(self)@, path@, name@, data@),
    {
        proof {
            use_type_invariant(&*self);
        }
        let ghost before = self.keys@;
        match self.find(path) {
            Some(i) => {
                let mut keys = Vec::new();
                std::mem::swap(&mut keys, &mut self.keys);
                keys[i].values.insert(String::from_str(name), String::from_str(data));
                proof {
                    // Every record is for the key it was for.
                    let after = keys@;
                    assert forall|p: Seq<char>| has_path(before, p) implies has_path(after, p)
                        && place_of_path(after, p) == place_of_path(before, p) by {
                        assert(after[place_of_path(before, p)].path@ == p);
                        assert(before[place_of_path(after, p)].path@ == p);
                    }
                    assert forall|p: Seq<char>| has_path(after, p) implies has_path(before, p) by {
                        assert(before[place_of_path(after, p)].path@ == p);
                    }
                }
                self.keys = keys;
                true
            },
            None => false,
        }
    }

    /// Carries out the actions of `plan` in order, up to the first that
    /// cannot be carried out.
    ///
    /// When all were carried out, the result lists for each key that was
    /// asked for whether it was created or opened. Otherwise it is the index
    /// of the action that set a value on a key that did not exist; the
    /// actions before it have been carried out.
    pub fn run(&mut self, plan: &Vec<RegistryAction>) -> (result: Result<
        Vec<KeyDisposition>,
        usize,
    >)
        ensures
            result is Ok <==> runs_through(old(self)@, actions_view(plan@)),
            match result {
                Ok(found) => {
                    &&& final(self)@ == applied_all(old(self)@, actions_view(plan@))
                    &&& found@ == dispositions(old(self)@, actions_view(plan@))
                },
                Err(at) => {
                    &&& at < plan@.len()
                    &&& runs_through(old(self)@, actions_view(plan@).take(at as int))
                    &&& !applicable(
                        applied_all(old(self)@, actions_view(plan@).take(at as int)),
                        actions_view(plan@)[at as int],
                    )
                    &&& final(self)@ == applied_all(
                        old(self)@,
                        actions_view(plan@).take(at as int),
                    )
                },
            },
    {
        let ghost initial = self@;
        let ghost actions = actions_view(plan@);
        let mut found: Vec<KeyDisposition> = Vec::new();
        let mut i: usize = 0;
        assert(actions.take(0) =~= Seq::empty());
        while i < plan.len()
            invariant
                i <= plan@.len(),
                initial == old(self)@,
                actions == actions_view(plan@),
                runs_through(initial, actions.take(i as int)),
                self@ == applied_all(initial, actions.take(i as int)),
                found@ == dispositions(initial, actions.take(i as int)),
            decreases plan@.len() - i,
        {
            proof {
                assert(actions.take(i as int + 1).drop_last() =~= actions.take(i as int));
                assert(actions.take(i as int + 1).last() == actions[i as int]);
                assert(actions[i as int] == plan@[i as int]@);
            }
            match &plan[i] {
                RegistryAction::CreateKey { path } => {
                    let disposition = self.create_or_open_key(path.as_str());
                    found.push(disposition);
                },
                RegistryAction::SetValue { path, name, data } => {
                    if !self.set_value(path.as_str(), name.as_str(), data.as_str()) {
                        proof {
                            if runs_through(initial, actions) {
                                lemma_runs_through_prefix(initial, actions, i as int);
                            }
                        }
                        return Err(i);
                    }
                },
            }
            i += 1;
        }
        assert(actions.take(i as int) =~= actions);
        Ok(found)
    }

    /// Registers the executable at `exe_path` as the handler of the handled
    /// scheme, and lists for the four keys, from the scheme's key down to the
    /// command key, whether each was created or opened.
    pub fn register(&mut self, exe_path: &str) -> (found: Vec<KeyDisposition>)
        ensures
            final(self)@ == registered(old(self)@, exe_path@),
            found@ == dispositions(
                old(self)@,
                registration_actions(HANDLED_PROTOCOL@, exe_path@),
            ),
    {
        let plan = registration_plan(exe_path);
        proof {
            lemma_registration_runs_through(self@, exe_path@);
        }
        match self.run(&plan) {
            Ok(found) => found,
            Err(_) => unreached(),
        }
    }
}

} // verus!
