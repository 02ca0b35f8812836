//! The arena that owns every agent store and every shared list of one world.
//! An `Object` value is an index into `envs`; a `List` value is an index into
//! `lists`. Indices out of range denote torn-down or foreign references and
//! read as absent.

use vstd::prelude::*;

use crate::value::{entry_views, store_get, store_set, Environment, StoreModel, ValModel, Value};

verus! {

/// Mathematical model of a heap: the stores and the lists, by index.
#[verifier::ext_equal]
pub ghost struct HeapModel {
    pub envs: Seq<StoreModel>,
    pub lists: Seq<Seq<ValModel>>,
}

impl HeapModel {
    /// The store at `id`, or an empty store for an index out of range.
    pub open spec fn env_at(self, id: int) -> StoreModel {
        if 0 <= id < self.envs.len() {
            self.envs[id]
        } else {
            Seq::empty()
        }
    }

    /// The list at `id`, or an empty list for an index out of range.
    pub open spec fn list_at(self, id: int) -> Seq<ValModel> {
        if 0 <= id < self.lists.len() {
            self.lists[id]
        } else {
            Seq::empty()
        }
    }

    /// The heap with the store at `id` replaced; unchanged out of range.
    pub open spec fn with_env(self, id: int, s: StoreModel) -> HeapModel {
        if 0 <= id < self.envs.len() {
            HeapModel { envs: self.envs.update(id, s), lists: self.lists }
        } else {
            self
        }
    }

    /// The heap with the list at `id` replaced; unchanged out of range.
    pub open spec fn with_list(self, id: int, l: Seq<ValModel>) -> HeapModel {
        if 0 <= id < self.lists.len() {
            HeapModel { envs: self.envs, lists: self.lists.update(id, l) }
        } else {
            self
        }
    }

    /// The heap with a fresh empty store appended.
    pub open spec fn push_env(self) -> HeapModel {
        HeapModel { envs: self.envs.push(Seq::empty()), lists: self.lists }
    }

    /// The heap with a fresh list appended.
    pub open spec fn push_list(self, l: Seq<ValModel>) -> HeapModel {
        HeapModel { envs: self.envs, lists: self.lists.push(l) }
    }
}

/// The arena owning the stores and lists of one world (or one snapshot).
pub struct Heap {
    pub envs: Vec<Environment>,
    pub lists: Vec<Vec<Value>>,
}

impl View for Heap {
    type V = HeapModel;

    open spec fn view(&self) -> HeapModel {
        HeapModel {
            envs: self.envs@.map_values(|e: Environment| e@),
            lists: self.lists@.map_values(|l: Vec<Value>| l@.map_values(|v: Value| v@)),
        }
    }
}

impl Heap {
    /// A heap with no stores and no lists.
    pub fn empty() -> (r: Heap)
        ensures
            r@.envs.len() == 0,
            r@.lists.len() == 0,
    {
        let r = Heap { envs: Vec::new(), lists: Vec::new() };
        proof {
            assert(r@.envs =~= Seq::<StoreModel>::empty());
            assert(r@.lists =~= Seq::<Seq<ValModel>>::empty());
        }
        r
    }

    /// Allocates a fresh empty store and returns its index.
    pub fn alloc_env(&mut self) -> (id: usize)
        ensures
            id == old(self)@.envs.len(),
            final(self)@ == old(self)@.push_env(),
    {
        let id = self.envs.len();
        self.envs.push(Environment::new());
        proof {
            assert(self@.envs =~~= old(self)@.envs.push(Seq::empty()));
            assert(self@.lists =~= old(self)@.lists);
        }
        id
    }

    /// Allocates a fresh list holding `items` and returns its index.
    pub fn alloc_list(&mut self, items: Vec<Value>) -> (id: usize)
        ensures
            id == old(self)@.lists.len(),
            final(self)@ == old(self)@.push_list(items@.map_values(|v: Value| v@)),
    {
        let ghost itemsv = items@.map_values(|v: Value| v@);
        let id = self.lists.len();
        self.lists.push(items);
        proof {
            assert(self@.envs =~= old(self)@.envs);
            assert(self@.lists =~= old(self)@.lists.push(itemsv));
        }
        id
    }

    /// Reads the binding of `k` in the store at `id`.
    pub fn env_get(&self, id: usize, k: &String) -> (r: Option<&Value>)
        ensures
            match r {
                Some(v) => store_get(self@.env_at(id as int), k@) == Some(v@),
                None => store_get(self@.env_at(id as int), k@) is None,
            },
    {
        if id < self.envs.len() {
            self.envs[id].get(k)
        } else {
            None
        }
    }

    /// Binds `k` to `v` in the store at `id`; no effect out of range.
    pub fn env_set(&mut self, id: usize, k: String, v: Value)
        ensures
            final(self)@ == old(self)@.with_env(
                id as int,
                store_set(old(self)@.env_at(id as int), k@, v@),
            ),
    {
        if id < self.envs.len() {
            self.envs[id].insert(k, v);
            proof {
                assert(self@.envs =~~= old(self)@.envs.update(
                    id as int,
                    store_set(old(self)@.env_at(id as int), k@, v@),
                ));
                assert(self@.lists =~= old(self)@.lists);
            }
        }
    }

    /// Empties the store at `id`; no effect out of range.
    pub fn env_clear(&mut self, id: usize)
        ensures
            final(self)@ == old(self)@.with_env(id as int, Seq::empty()),
    {
        if id < self.envs.len() {
            self.envs[id].clear();
            proof {
                assert(self@.envs
                    =~~= old(self)@.envs.update(id as int, Seq::<(Seq<char>, ValModel)>::empty()));
                assert(self@.lists =~= old(self)@.lists);
            }
        }
    }

    /// The number of elements of the list at `id`; 0 out of range.
    pub fn list_len(&self, id: usize) -> (n: usize)
        ensures
            n == self@.list_at(id as int).len(),
    {
        if id < self.lists.len() {
            self.lists[id].len()
        } else {
            0
        }
    }

    /// Reads element `i` of the list at `id`.
    pub fn list_get(&self, id: usize, i: usize) -> (r: Option<&Value>)
        ensures
            match r {
                Some(v) => i < self@.list_at(id as int).len()
                    && v@ == self@.list_at(id as int)[i as int],
                None => i >= self@.list_at(id as int).len(),
            },
    {
        if id < self.lists.len() && i < self.lists[id].len() {
            Some(&self.lists[id][i])
        } else {
            None
        }
    }

    /// Appends `v` to the list at `id`; no effect out of range.
    pub fn list_push(&mut self, id: usize, v: Value)
        ensures
            final(self)@ == old(self)@.with_list(
                id as int,
                old(self)@.list_at(id as int).push(v@),
            ),
    {
        if id < self.lists.len() {
            let ghost oldl = self@.list_at(id as int);
            self.lists[id].push(v);
            proof {
                assert(self@.lists =~~= old(self)@.lists.update(id as int, oldl.push(v@)));
                assert(self@.envs =~= old(self)@.envs);
            }
        }
    }

    /// Removes and returns the last element of the list at `id`;
    /// `Int(0)` if the list is empty or the index out of range.
    pub fn list_pop(&mut self, id: usize) -> (r: Value)
        ensures
            ({
                let l = old(self)@.list_at(id as int);
                if l.len() > 0 {
                    r@ == l.last() && final(self)@ == old(self)@.with_list(
                        id as int,
                        l.drop_last(),
                    )
                } else {
                    r@ == ValModel::Int(0) && final(self)@ == old(self)@
                }
            }),
    {
        if id < self.lists.len() && self.lists[id].len() > 0 {
            let ghost oldl = self@.list_at(id as int);
            let r = match self.lists[id].pop() {
                Some(v) => v,
                None => Value::Int(0),
            };
            proof {
                assert(self@.lists
                    =~~= old(self)@.lists.update(id as int, oldl.drop_last()));
                assert(self@.envs =~= old(self)@.envs);
            }
            r
        } else {
            Value::Int(0)
        }
    }

    /// Overwrites element `i` of the list at `id`; no effect out of bounds.
    pub fn list_set(&mut self, id: usize, i: usize, v: Value)
        ensures
            final(self)@ == (if i < old(self)@.list_at(id as int).len() {
                old(self)@.with_list(
                    id as int,
                    old(self)@.list_at(id as int).update(i as int, v@),
                )
            } else {
                old(self)@
            }),
    {
        if id < self.lists.len() && i < self.lists[id].len() {
            let ghost oldl = self@.list_at(id as int);
            self.lists[id][i] = v;
            proof {
                assert(self@.lists
                    =~~= old(self)@.lists.update(id as int, oldl.update(i as int, v@)));
                assert(self@.envs =~= old(self)@.envs);
            }
        }
    }

    /// Duplicates the elements of the list at `id`, in order.
    pub fn list_dup(&self, id: usize) -> (r: Vec<Value>)
        ensures
            r@.map_values(|v: Value| v@) == self@.list_at(id as int),
    {
        let ghost items = self@.list_at(id as int);
        let n = self.list_len(id);
        let mut out: Vec<Value> = Vec::new();
        let mut i: usize = 0;
        while i < n
            invariant
                n == items.len(),
                items == self@.list_at(id as int),
                i <= n,
                out@.map_values(|v: Value| v@) =~= items.take(i as int),
            decreases n - i,
        {
            let v = match self.list_get(id, i) {
                Some(v) => v.dup(),
                None => Value::Int(0),
            };
            out.push(v);
            proof {
                assert(out@.map_values(|v: Value| v@) =~= out@.drop_last().map_values(
                    |v: Value| v@,
                ).push(out@.last()@));
                assert(items.take(i as int + 1) =~= items.take(i as int).push(items[i as int]));
            }
            i += 1;
        }
        proof {
            assert(items.take(n as int) =~= items);
        }
        out
    }

    /// Duplicates the entries of the store at `id`, in order.
    pub fn env_entries_dup(&self, id: usize) -> (r: Vec<(String, Value)>)
        ensures
            entry_views(r@) == self@.env_at(id as int),
    {
        if id < self.envs.len() {
            self.envs[id].dup_entries().entries
        } else {
            let r: Vec<(String, Value)> = Vec::new();
            proof {
                assert(entry_views(r@) =~= Seq::<(Seq<char>, ValModel)>::empty());
            }
            r
        }
    }

    /// Replaces the whole store at `id`; no effect out of range.
    pub fn env_replace(&mut self, id: usize, e: Environment)
        ensures
            final(self)@ == old(self)@.with_env(id as int, e@),
    {
        let ghost ev = e@;
        if id < self.envs.len() {
            self.envs[id] = e;
            proof {
                assert(self@.envs =~~= old(self)@.envs.update(id as int, ev));
                assert(self@.lists =~= old(self)@.lists);
            }
        }
    }
}

} // verus!
