//! Deep copying of values, stores and agents. Lists are copied recursively
//! into fresh arena slots; an `Object` reference equal to a designated source
//! store is rewritten to the copy's store, every other reference is kept.
//!
//! Copying is budgeted by the number of lists in the heap: an acyclic
//! structure never nests deeper than that, so it is copied in full, while a
//! reference cycle bottoms out as `Int(0)` instead of diverging.

use vstd::prelude::*;

use crate::heap::{Heap, HeapModel};
use crate::value::{
    entry_views, Environment, IndModel, Individual, StoreModel, ValModel, Value,
};

verus! {

/// The copy of one value: the heap after the copy and the copied value.
pub open spec fn copy_val_spec(
    h: HeapModel,
    v: ValModel,
    from: nat,
    to: nat,
    fuel: nat,
) -> (HeapModel, ValModel)
    decreases fuel, 1nat,
{
    match v {
        ValModel::Object(id) => (
            h,
            ValModel::Object(
                if id == from {
                    to
                } else {
                    id
                },
            ),
        ),
        ValModel::List(id) => if fuel == 0 {
            (h, ValModel::Int(0))
        } else {
            let r = copy_items_spec(h, h.list_at(id as int), from, to, (fuel - 1) as nat);
            (r.0.push_list(r.1), ValModel::List(r.0.lists.len()))
        },
        _ => (h, v),
    }
}

/// The copies of a row of values, left to right.
pub open spec fn copy_items_spec(
    h: HeapModel,
    items: Seq<ValModel>,
    from: nat,
    to: nat,
    fuel: nat,
) -> (HeapModel, Seq<ValModel>)
    decreases fuel, items.len() + 2nat,
{
    if items.len() == 0 {
        (h, Seq::empty())
    } else {
        let a = copy_items_spec(h, items.drop_last(), from, to, fuel);
        let b = copy_val_spec(a.0, items.last(), from, to, fuel);
        (b.0, a.1.push(b.1))
    }
}

/// The copies of a row of store entries, left to right.
pub open spec fn copy_entries_spec(
    h: HeapModel,
    entries: StoreModel,
    from: nat,
    to: nat,
    fuel: nat,
) -> (HeapModel, StoreModel)
    decreases entries.len(),
{
    if entries.len() == 0 {
        (h, Seq::empty())
    } else {
        let a = copy_entries_spec(h, entries.drop_last(), from, to, fuel);
        let b = copy_val_spec(a.0, entries.last().1, from, to, fuel);
        (b.0, a.1.push((entries.last().0, b.1)))
    }
}

/// The deep clone of one agent: a fresh store whose entries are deep copies,
/// with references to the source store redirected to the fresh one.
pub open spec fn deep_clone_spec(h: HeapModel, ind: IndModel) -> (HeapModel, IndModel) {
    let to = h.envs.len();
    let r = copy_entries_spec(h.push_env(), h.env_at(ind.env as int), ind.env, to, h.lists.len());
    (r.0.with_env(to as int, r.1), IndModel { species: ind.species, env: to })
}

/// Copies one value within `heap`, rewriting references to store `from` into
/// references to store `to`, with the given nesting budget.
pub fn copy_value(heap: &mut Heap, v: &Value, from: usize, to: usize, fuel: u64) -> (r: Value)
    ensures
        (final(heap)@, r@) == copy_val_spec(old(heap)@, v@, from as nat, to as nat, fuel as nat),
    decreases fuel, 1nat,
{
    match v {
        Value::Object(id) => if *id == from {
            Value::Object(to)
        } else {
            Value::Object(*id)
        },
        Value::List(id) => {
            if fuel == 0 {
                Value::Int(0)
            } else {
                let items = heap.list_dup(*id);
                let ghost itemsv = heap@.list_at(*id as int);
                let n = items.len();
                let mut out: Vec<Value> = Vec::new();
                let mut i: usize = 0;
                while i < n
                    invariant
                        n == items.len(),
                        itemsv == items@.map_values(|x: Value| x@),
                        fuel >= 1,
                        i <= n,
                        (heap@, out@.map_values(|x: Value| x@)) == copy_items_spec(
                            old(heap)@,
                            itemsv.take(i as int),
                            from as nat,
                            to as nat,
                            (fuel - 1) as nat,
                        ),
                    decreases n - i,
                {
                    let c = copy_value(heap, &items[i], from, to, fuel - 1);
                    out.push(c);
                    proof {
                        assert(itemsv.take(i as int + 1).drop_last() =~= itemsv.take(i as int));
                        assert(itemsv.take(i as int + 1).last() == itemsv[i as int]);
                        assert(out@.map_values(|x: Value| x@) =~= out@.drop_last().map_values(
                            |x: Value| x@,
                        ).push(out@.last()@));
                    }
                    i += 1;
                }
                proof {
                    assert(itemsv.take(n as int) =~= itemsv);
                }
                let nid = heap.alloc_list(out);
                Value::List(nid)
            }
        },
        _ => v.dup(),
    }
}

/// Copies a row of store entries within `heap`, left to right.
fn copy_entries(
    heap: &mut Heap,
    entries: &Vec<(String, Value)>,
    from: usize,
    to: usize,
    fuel: u64,
) -> (r: Vec<(String, Value)>)
    ensures
        (final(heap)@, entry_views(r@)) == copy_entries_spec(
            old(heap)@,
            entry_views(entries@),
            from as nat,
            to as nat,
            fuel as nat,
        ),
{
    let ghost ev = entry_views(entries@);
    let n = entries.len();
    let mut out: Vec<(String, Value)> = Vec::new();
    let mut i: usize = 0;
    while i < n
        invariant
            n == entries.len(),
            ev == entry_views(entries@),
            i <= n,
            (heap@, entry_views(out@)) == copy_entries_spec(
                old(heap)@,
                ev.take(i as int),
                from as nat,
                to as nat,
                fuel as nat,
            ),
        decreases n - i,
    {
        let k = entries[i].0.clone();
        let c = copy_value(heap, &entries[i].1, from, to, fuel);
        out.push((k, c));
        proof {
            assert(ev.take(i as int + 1).drop_last() =~= ev.take(i as int));
            assert(ev.take(i as int + 1).last() == ev[i as int]);
            assert(entry_views(out@) =~= entry_views(out@.drop_last()).push(
                (out@.last().0@, out@.last().1@),
            ));
        }
        i += 1;
    }
    proof {
        assert(ev.take(n as int) =~= ev);
    }
    out
}

impl crate::value::Environment {
    /// Deep-copies a whole store within `heap`: keys are kept, every value
    /// is deep-copied, so list values become fresh allocations and
    /// mutating the copy never reaches the original's lists; object values
    /// keep their store indices (redirecting `self` is
    /// `Individual::deep_clone`'s job).
    pub fn deep_copy_store(&self, heap: &mut Heap) -> (r: crate::value::Environment)
        ensures
            (final(heap)@, r@) == copy_entries_spec(
                old(heap)@,
                self@,
                0,
                0,
                old(heap)@.lists.len(),
            ),
    {
        let fuel = heap.lists.len() as u64;
        let dup = self.dup_entries();
        let copied = copy_entries(heap, &dup.entries, 0, 0, fuel);
        crate::value::Environment { entries: copied }
    }
}

impl Value {
    /// A deep copy of one value within `heap`: lists are duplicated
    /// recursively into fresh slots, references to stores are kept.
    pub fn deep_copy(&self, heap: &mut Heap) -> (r: Value)
        ensures
            (final(heap)@, r@) == copy_val_spec(
                old(heap)@,
                self@,
                0,
                0,
                old(heap)@.lists.len(),
            ),
    {
        let fuel = heap.lists.len() as u64;
        copy_value(heap, self, 0, 0, fuel)
    }
}

impl Individual {
    /// Clones an agent deeply: a fresh store, every entry copied, lists
    /// recursively duplicated, and references to the source store redirected
    /// to the clone.
    pub fn deep_clone(&self, heap: &mut Heap) -> (r: Individual)
        ensures
            (final(heap)@, r@) == deep_clone_spec(old(heap)@, self@),
    {
        let fuel = heap.lists.len() as u64;
        let to = heap.alloc_env();
        let entries = heap.env_entries_dup(self.env);
        proof {
            assert(heap@.env_at(self.env as int) == old(heap)@.env_at(self.env as int));
        }
        let copied = copy_entries(heap, &entries, self.env, to, fuel);
        let new_env = Environment { entries: copied };
        heap.env_replace(to, new_env);
        Individual { species: self.species.clone(), env: to }
    }
}


/// The copy of one value out of `src` into `dst`: lists are copied
/// recursively into fresh slots of `dst`; object references keep their
/// numeric index, which in the destination arena reads as a torn-down
/// foreign reference unless the caller binds it anew.
pub open spec fn copy_into_spec(
    src: HeapModel,
    dst: HeapModel,
    v: ValModel,
    fuel: nat,
) -> (HeapModel, ValModel)
    decreases fuel, 1nat,
{
    match v {
        ValModel::List(id) => if fuel == 0 {
            (dst, ValModel::Int(0))
        } else {
            let r = copy_into_items_spec(src, dst, src.list_at(id as int), (fuel - 1) as nat);
            (r.0.push_list(r.1), ValModel::List(r.0.lists.len()))
        },
        _ => (dst, v),
    }
}

/// The copies of a row of values out of `src` into `dst`, left to right.
pub open spec fn copy_into_items_spec(
    src: HeapModel,
    dst: HeapModel,
    items: Seq<ValModel>,
    fuel: nat,
) -> (HeapModel, Seq<ValModel>)
    decreases fuel, items.len() + 2nat,
{
    if items.len() == 0 {
        (dst, Seq::empty())
    } else {
        let a = copy_into_items_spec(src, dst, items.drop_last(), fuel);
        let b = copy_into_spec(src, a.0, items.last(), fuel);
        (b.0, a.1.push(b.1))
    }
}

/// Copies one value out of `src` into `dst`, with the given nesting
/// budget.
pub fn copy_value_into(src: &Heap, dst: &mut Heap, v: &Value, fuel: u64) -> (r: Value)
    ensures
        (final(dst)@, r@) == copy_into_spec(src@, old(dst)@, v@, fuel as nat),
    decreases fuel, 1nat,
{
    match v {
        Value::List(id) => {
            if fuel == 0 {
                Value::Int(0)
            } else {
                let items = src.list_dup(*id);
                let ghost itemsv = src@.list_at(*id as int);
                let n = items.len();
                let mut out: Vec<Value> = Vec::new();
                let mut i: usize = 0;
                while i < n
                    invariant
                        n == items.len(),
                        itemsv == items@.map_values(|x: Value| x@),
                        fuel >= 1,
                        i <= n,
                        (dst@, out@.map_values(|x: Value| x@)) == copy_into_items_spec(
                            src@,
                            old(dst)@,
                            itemsv.take(i as int),
                            (fuel - 1) as nat,
                        ),
                    decreases n - i,
                {
                    let c = copy_value_into(src, dst, &items[i], fuel - 1);
                    out.push(c);
                    proof {
                        assert(itemsv.take(i as int + 1).drop_last() =~= itemsv.take(i as int));
                        assert(itemsv.take(i as int + 1).last() == itemsv[i as int]);
                        assert(out@.map_values(|x: Value| x@) =~= out@.drop_last().map_values(
                            |x: Value| x@,
                        ).push(out@.last()@));
                    }
                    i += 1;
                }
                proof {
                    assert(itemsv.take(n as int) =~= itemsv);
                }
                let nid = dst.alloc_list(out);
                Value::List(nid)
            }
        },
        _ => v.dup(),
    }
}

} // verus!
