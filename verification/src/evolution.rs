//! The evolution engine: schema-restricted snapshots for the history log,
//! teardown of reference graphs between generations, stable ranking of
//! worlds by fitness, offspring creation with elitism, crossover and
//! mutation, and the generation driver.

use rayon::iter::{IntoParallelRefMutIterator, ParallelIterator};

use vstd::prelude::*;

use crate::ast::{spec_lookup_rule, spec_lookup_species, Program};
use crate::deepcopy::copy_into_spec;
use crate::heap::{Heap, HeapModel};
use crate::value::{
    dup_individuals, inds_view, store_get, store_set, IndModel, Individual, ValModel, Value,
};
use crate::world::{spec_world_pass, World, WorldModel};

verus! {

/// Mathematical model of a generation snapshot.
#[verifier::ext_equal]
pub ghost struct GenSnapModel {
    pub avg_fitness: int,
    pub best_fitness: int,
    pub heap: HeapModel,
    pub individuals: Seq<IndModel>,
    pub step_history: Seq<Seq<IndModel>>,
    pub output: Seq<Seq<char>>,
    pub draws: Seq<crate::eval::DrawModel>,
}

/// The record retained for retrospective visualization of one generation:
/// the average and best fitness, the winning world's final agents, and its
/// per-tick history, all copied into an arena of the snapshot's own so that
/// later mutation of any live world cannot touch it.
pub struct GenerationSnapshot {
    pub avg_fitness: i32,
    pub best_fitness: i32,
    pub heap: Heap,
    pub individuals: Vec<Individual>,
    pub step_history: Vec<Vec<Individual>>,
    pub output: Vec<String>,
    pub draws: Vec<crate::eval::DrawCmd>,
}

impl View for GenerationSnapshot {
    type V = GenSnapModel;

    open spec fn view(&self) -> GenSnapModel {
        GenSnapModel {
            avg_fitness: self.avg_fitness as int,
            best_fitness: self.best_fitness as int,
            heap: self.heap@,
            individuals: inds_view(self.individuals@),
            step_history: self.step_history@.map_values(|f: Vec<Individual>| inds_view(f@)),
            output: self.output@.map_values(|s: String| s@),
            draws: self.draws@.map_values(|d: crate::eval::DrawCmd| d@),
        }
    }
}

/// The destination heap after copying the binding of `key` (if any) out of
/// source store `senv` into destination store `nid`, lists deep-copied.
#[verifier::opaque]
pub open spec fn spec_copy_field(
    src: HeapModel,
    dst: HeapModel,
    senv: nat,
    nid: nat,
    key: Seq<char>,
) -> HeapModel {
    match store_get(src.env_at(senv as int), key) {
        Some(v) => {
            let c = copy_into_spec(src, dst, v, src.lists.len());
            c.0.with_env(nid as int, store_set(c.0.env_at(nid as int), key, c.1))
        },
        None => dst,
    }
}

/// The destination heap after copying the first `k` declared properties
/// that the source store carries.
#[verifier::opaque]
pub open spec fn spec_copy_props(
    src: HeapModel,
    dst: HeapModel,
    props: Seq<(Seq<char>, crate::ast::Exp)>,
    k: int,
    senv: nat,
    nid: nat,
) -> HeapModel
    decreases k,
{
    if k <= 0 || props.len() < k {
        dst
    } else {
        let a = spec_copy_props(src, dst, props, k - 1, senv, nid);
        spec_copy_field(src, a, senv, nid, props[k - 1].0)
    }
}

/// The declared property keys of a species, in order, with their default
/// expressions.
pub open spec fn prop_views(props: Seq<(String, crate::ast::Exp)>) -> Seq<(Seq<char>, crate::ast::Exp)> {
    props.map_values(|p: (String, crate::ast::Exp)| (p.0@, p.1))
}

/// The destination heap after copying the first `k` entries of a whole
/// store (the fall-back for an agent of an unknown species).
#[verifier::opaque]
pub open spec fn spec_copy_all(
    src: HeapModel,
    dst: HeapModel,
    entries: Seq<(Seq<char>, ValModel)>,
    k: int,
    nid: nat,
) -> HeapModel
    decreases k,
{
    if k <= 0 || entries.len() < k {
        dst
    } else {
        let a = spec_copy_all(src, dst, entries, k - 1, nid);
        let c = copy_into_spec(src, a, entries[k - 1].1, src.lists.len());
        c.0.with_env(nid as int, store_set(c.0.env_at(nid as int), entries[k - 1].0, c.1))
    }
}

/// The schema-restricted copy of one agent out of `src` into `dst`: a
/// fresh store carrying the position, the species tag, the properties the
/// species declares (or, for an unknown species, the whole store), and a
/// `self` reference to the fresh store itself. Transient working variables
/// are deliberately dropped.
#[verifier::opaque]
pub open spec fn spec_snapshot_one(
    src: HeapModel,
    dst: HeapModel,
    ind: IndModel,
    program: Program,
) -> (HeapModel, IndModel) {
    let nid = dst.envs.len();
    let d1 = dst.push_env();
    let d2 = spec_copy_field(src, d1, ind.env, nid, "x"@);
    let d3 = spec_copy_field(src, d2, ind.env, nid, "y"@);
    let d4 = d3.with_env(
        nid as int,
        store_set(d3.env_at(nid as int), "species"@, ValModel::Str(ind.species)),
    );
    let d5 = match spec_lookup_species(program.species_block@, ind.species) {
        Some(def) => spec_copy_props(
            src,
            d4,
            prop_views(def.properties@),
            def.properties@.len() as int,
            ind.env,
            nid,
        ),
        None => spec_copy_all(
            src,
            d4,
            src.env_at(ind.env as int),
            src.env_at(ind.env as int).len() as int,
            nid,
        ),
    };
    let d6 = d5.with_env(
        nid as int,
        store_set(d5.env_at(nid as int), "self"@, ValModel::Object(nid)),
    );
    (d6, IndModel { species: ind.species, env: nid })
}

/// The schema-restricted copies of the first `k` agents.
#[verifier::opaque]
pub open spec fn spec_snapshot_inds(
    src: HeapModel,
    dst: HeapModel,
    inds: Seq<IndModel>,
    k: int,
    program: Program,
) -> (HeapModel, Seq<IndModel>)
    decreases k,
{
    if k <= 0 || inds.len() < k {
        (dst, Seq::empty())
    } else {
        let a = spec_snapshot_inds(src, dst, inds, k - 1, program);
        let b = spec_snapshot_one(src, a.0, inds[k - 1], program);
        (b.0, a.1.push(b.1))
    }
}

/// Copies the binding of `key` out of store `senv` of `src` into store
/// `nid` of `dst`, if the source store has one.
fn copy_field(src: &Heap, dst: &mut Heap, senv: usize, nid: usize, key: &String)
    ensures
        final(dst)@ == spec_copy_field(src@, old(dst)@, senv as nat, nid as nat, key@),
{
    proof {
        reveal(spec_copy_field);
    }
    let fuel = src.lists.len() as u64;
    let found = match src.env_get(senv, key) {
        Some(v) => Some(v.dup()),
        None => None,
    };
    match found {
        Some(v) => {
            let c = crate::deepcopy::copy_value_into(src, dst, &v, fuel);
            dst.env_set(nid, key.clone(), c);
        },
        None => {},
    }
}

/// The schema-restricted copy of one agent into a destination arena.
fn snapshot_one(src: &Heap, ind: &Individual, program: &Program, dst: &mut Heap) -> (r: Individual)
    ensures
        (final(dst)@, r@) == spec_snapshot_one(src@, old(dst)@, ind@, *program),
{
    proof {
        reveal(spec_snapshot_one);
        reveal(spec_copy_props);
        reveal(spec_copy_all);
    }
    let nid = dst.alloc_env();
    let xk = String::from_str("x");
    let yk = String::from_str("y");
    copy_field(src, dst, ind.env, nid, &xk);
    copy_field(src, dst, ind.env, nid, &yk);
    dst.env_set(nid, String::from_str("species"), Value::Str(ind.species.clone()));
    let ghost d4 = dst@;
    let def_opt = program.lookup_species(&ind.species);
    match def_opt {
        Some(def) => {
            let ghost pv = prop_views(def.properties@);
            let n = def.properties.len();
            let mut i: usize = 0;
            while i < n
                invariant
                    n == def.properties@.len(),
                    i <= n,
                    pv == prop_views(def.properties@),
                    dst@ == spec_copy_props(src@, d4, pv, i as int, ind.env as nat, nid as nat),
                decreases n - i,
            {
                proof {
                    reveal(spec_copy_props);
                }
                let key = def.properties[i].0.clone();
                copy_field(src, dst, ind.env, nid, &key);
                i += 1;
            }
        },
        None => {
            let entries = src.env_entries_dup(ind.env);
            let ghost ev = src@.env_at(ind.env as int);
            let fuel = src.lists.len() as u64;
            let n = entries.len();
            let mut i: usize = 0;
            while i < n
                invariant
                    n == entries.len(),
                    i <= n,
                    ev == crate::value::entry_views(entries@),
                    ev == src@.env_at(ind.env as int),
                    fuel == src@.lists.len(),
                    dst@ == spec_copy_all(src@, d4, ev, i as int, nid as nat),
                decreases n - i,
            {
                proof {
                    reveal(spec_copy_all);
                }
                let k = entries[i].0.clone();
                let c = crate::deepcopy::copy_value_into(src, dst, &entries[i].1, fuel);
                dst.env_set(nid, k, c);
                i += 1;
            }
        },
    }
    dst.env_set(nid, String::from_str("self"), Value::Object(nid));
    Individual { species: ind.species.clone(), env: nid }
}

/// Builds the schema-restricted snapshot of an agent list into `dst`.
pub fn snapshot_individuals(
    src: &Heap,
    individuals: &Vec<Individual>,
    program: &Program,
    dst: &mut Heap,
) -> (r: Vec<Individual>)
    ensures
        (final(dst)@, inds_view(r@)) == spec_snapshot_inds(
            src@,
            old(dst)@,
            inds_view(individuals@),
            individuals@.len() as int,
            *program,
        ),
{
    let ghost av = inds_view(individuals@);
    let n = individuals.len();
    let mut out: Vec<Individual> = Vec::new();
    proof {
        reveal(spec_snapshot_inds);
    }
    let mut i: usize = 0;
    while i < n
        invariant
            n == individuals@.len(),
            i <= n,
            av == inds_view(individuals@),
            (dst@, inds_view(out@)) == spec_snapshot_inds(src@, old(dst)@, av, i as int, *program),
        decreases n - i,
    {
        let c = snapshot_one(src, &individuals[i], program, dst);
        out.push(c);
        proof {
            reveal(spec_snapshot_inds);
            assert(inds_view(out@) =~= inds_view(out@.drop_last()).push(out@.last()@));
            assert(av[i as int] == individuals@[i as int]@);
        }
        i += 1;
    }
    out
}


/// The heap with the stores of the first `k` agents emptied.
pub open spec fn spec_clear_inds(h: HeapModel, inds: Seq<IndModel>, k: int) -> HeapModel
    decreases k,
{
    if k <= 0 || inds.len() < k {
        h
    } else {
        spec_clear_inds(h, inds, k - 1).with_env(inds[k - 1].env as int, Seq::empty())
    }
}

/// The heap with every store of the first `k` history frames emptied.
pub open spec fn spec_clear_frames(h: HeapModel, frames: Seq<Seq<IndModel>>, k: int) -> HeapModel
    decreases k,
{
    if k <= 0 || frames.len() < k {
        h
    } else {
        let a = spec_clear_frames(h, frames, k - 1);
        spec_clear_inds(a, frames[k - 1], frames[k - 1].len() as int)
    }
}

/// The world with the stores of all its agents emptied.
pub open spec fn spec_clear_world(w: WorldModel) -> WorldModel {
    WorldModel {
        m: crate::eval::MachineModel {
            heap: spec_clear_inds(w.m.heap, w.individuals, w.individuals.len() as int),
            ..w.m
        },
        ..w
    }
}

/// The world with its history frames torn down and the recording flag
/// dropped.
pub open spec fn spec_clear_world_history(w: WorldModel) -> WorldModel {
    WorldModel {
        m: crate::eval::MachineModel {
            heap: spec_clear_frames(w.m.heap, w.history, w.history.len() as int),
            ..w.m
        },
        history: Seq::empty(),
        record_history: false,
        ..w
    }
}

impl World {
    /// Empties the store of every agent, breaking any reference cycles the
    /// old generation left behind.
    pub fn clear_agent_stores(&mut self)
        ensures
            final(self)@ == spec_clear_world(old(self)@),
    {
        let n = self.individuals.len();
        let mut i: usize = 0;
        while i < n
            invariant
                n == self.individuals@.len(),
                self.individuals == old(self).individuals,
                i <= n,
                self@ == (WorldModel {
                    m: crate::eval::MachineModel {
                        heap: spec_clear_inds(old(self)@.m.heap, old(self)@.individuals, i as int),
                        ..old(self)@.m
                    },
                    ..old(self)@
                }),
            decreases n - i,
        {
            let env = self.individuals[i].env;
            let ghost before = self@;
            self.m.heap.env_clear(env);
            proof {
                assert(self@ =~= (WorldModel {
                    m: crate::eval::MachineModel { heap: self@.m.heap, ..before.m },
                    ..before
                }));
            }
            i += 1;
        }
    }

    /// Tears the per-tick history down: every frame's stores are emptied,
    /// the frame list is dropped, and recording is switched off.
    pub fn clear_history(&mut self)
        ensures
            final(self)@ == spec_clear_world_history(old(self)@),
    {
        let n = self.history.len();
        let mut i: usize = 0;
        while i < n
            invariant
                n == self.history@.len(),
                self.history == old(self).history,
                self.individuals == old(self).individuals,
                i <= n,
                self@ == (WorldModel {
                    m: crate::eval::MachineModel {
                        heap: spec_clear_frames(old(self)@.m.heap, old(self)@.history, i as int),
                        ..old(self)@.m
                    },
                    ..old(self)@
                }),
            decreases n - i,
        {
            let k = self.history[i].len();
            let ghost frame = self@.history[i as int];
            let mut j: usize = 0;
            while j < k
                invariant
                    i < self.history@.len(),
                    k == self.history@[i as int]@.len(),
                    self.history == old(self).history,
                    self.individuals == old(self).individuals,
                    frame == self@.history[i as int],
                    j <= k,
                    self@ == (WorldModel {
                        m: crate::eval::MachineModel {
                            heap: spec_clear_inds(
                                spec_clear_frames(old(self)@.m.heap, old(self)@.history, i as int),
                                frame,
                                j as int,
                            ),
                            ..old(self)@.m
                        },
                        ..old(self)@
                    }),
                decreases k - j,
            {
                let env = self.history[i][j].env;
                let ghost before = self@;
                self.m.heap.env_clear(env);
                proof {
                    assert(frame[j as int].env == self.history@[i as int]@[j as int]@.env);
                    assert(self@ =~= (WorldModel {
                        m: crate::eval::MachineModel { heap: self@.m.heap, ..before.m },
                        ..before
                    }));
                }
                j += 1;
            }
            i += 1;
        }
        self.history = Vec::new();
        self.record_history = false;
        proof {
            assert(self@.history =~= Seq::<Seq<IndModel>>::empty());
            assert(self@ =~= spec_clear_world_history(old(self)@));
        }
    }
}

/// The world sequence with every agent store emptied, world by world.
pub open spec fn spec_clear_generation(ws: Seq<WorldModel>) -> Seq<WorldModel> {
    ws.map_values(|w: WorldModel| spec_clear_world(w))
}

/// The world models of a world list.
pub open spec fn worlds_view(s: Seq<World>) -> Seq<WorldModel> {
    s.map_values(|w: World| w@)
}

/// Empties every agent store of every world of the old generation, so that
/// no reference cycle can keep its graph alive.
pub fn clear_generation_memory(instances: &mut Vec<World>)
    ensures
        worlds_view(final(instances)@) == spec_clear_generation(worlds_view(old(instances)@)),
{
    let n = instances.len();
    let mut i: usize = 0;
    while i < n
        invariant
            n == instances@.len(),
            i <= n,
            forall|j: int|
                0 <= j < i ==> (#[trigger] instances@[j])@ == spec_clear_world(
                    old(instances)@[j]@,
                ),
            forall|j: int| i <= j < n ==> (#[trigger] instances@[j]) == old(instances)@[j],
        decreases n - i,
    {
        instances[i].clear_agent_stores();
        i += 1;
    }
    proof {
        assert(worlds_view(instances@) =~= spec_clear_generation(worlds_view(old(instances)@)));
    }
}

/// The snapshot with every store of its arena's agents and frames emptied.
pub open spec fn spec_clear_snapshot(s: GenSnapModel) -> GenSnapModel {
    let h1 = spec_clear_inds(s.heap, s.individuals, s.individuals.len() as int);
    GenSnapModel {
        heap: spec_clear_frames(h1, s.step_history, s.step_history.len() as int),
        ..s
    }
}

/// Empties the stores held by a snapshot before it is dropped.
pub fn clear_snapshot_memory(snapshot: &mut GenerationSnapshot)
    ensures
        final(snapshot)@ == spec_clear_snapshot(old(snapshot)@),
{
    let n = snapshot.individuals.len();
    let mut i: usize = 0;
    while i < n
        invariant
            n == snapshot.individuals@.len(),
            snapshot.individuals == old(snapshot).individuals,
            snapshot.step_history == old(snapshot).step_history,
            snapshot.avg_fitness == old(snapshot).avg_fitness,
            snapshot.best_fitness == old(snapshot).best_fitness,
            snapshot.output == old(snapshot).output,
            snapshot.draws == old(snapshot).draws,
            i <= n,
            snapshot@.heap == spec_clear_inds(old(snapshot)@.heap, old(snapshot)@.individuals, i as int),
        decreases n - i,
    {
        let env = snapshot.individuals[i].env;
        snapshot.heap.env_clear(env);
        i += 1;
    }
    let ghost h1 = snapshot@.heap;
    let fn_count = snapshot.step_history.len();
    let mut i2: usize = 0;
    while i2 < fn_count
        invariant
            fn_count == snapshot.step_history@.len(),
            snapshot.individuals == old(snapshot).individuals,
            snapshot.step_history == old(snapshot).step_history,
            snapshot.avg_fitness == old(snapshot).avg_fitness,
            snapshot.best_fitness == old(snapshot).best_fitness,
            snapshot.output == old(snapshot).output,
            snapshot.draws == old(snapshot).draws,
            i2 <= fn_count,
            snapshot@.heap == spec_clear_frames(h1, old(snapshot)@.step_history, i2 as int),
        decreases fn_count - i2,
    {
        let k = snapshot.step_history[i2].len();
        let ghost frame = snapshot@.step_history[i2 as int];
        let mut j: usize = 0;
        while j < k
            invariant
                i2 < snapshot.step_history@.len(),
                k == snapshot.step_history@[i2 as int]@.len(),
                snapshot.individuals == old(snapshot).individuals,
                snapshot.step_history == old(snapshot).step_history,
                snapshot.avg_fitness == old(snapshot).avg_fitness,
                snapshot.best_fitness == old(snapshot).best_fitness,
                snapshot.output == old(snapshot).output,
                snapshot.draws == old(snapshot).draws,
                frame == snapshot@.step_history[i2 as int],
                j <= k,
                snapshot@.heap == spec_clear_inds(
                    spec_clear_frames(h1, old(snapshot)@.step_history, i2 as int),
                    frame,
                    j as int,
                ),
            decreases k - j,
        {
            let env = snapshot.step_history[i2][j].env;
            snapshot.heap.env_clear(env);
            proof {
                assert(frame[j as int].env == snapshot.step_history@[i2 as int]@[j as int]@.env);
            }
            j += 1;
        }
        i2 += 1;
    }
    proof {
        assert(snapshot@ =~= spec_clear_snapshot(old(snapshot)@));
    }
}

/// Tears the per-tick history of every world down.
pub fn clear_world_history(instances: &mut Vec<World>)
    ensures
        worlds_view(final(instances)@) == worlds_view(old(instances)@).map_values(
            |w: WorldModel| spec_clear_world_history(w),
        ),
{
    let n = instances.len();
    let mut i: usize = 0;
    while i < n
        invariant
            n == instances@.len(),
            i <= n,
            forall|j: int|
                0 <= j < i ==> (#[trigger] instances@[j])@ == spec_clear_world_history(
                    old(instances)@[j]@,
                ),
            forall|j: int| i <= j < n ==> (#[trigger] instances@[j]) == old(instances)@[j],
        decreases n - i,
    {
        instances[i].clear_history();
        i += 1;
    }
    proof {
        assert(worlds_view(instances@) =~= worlds_view(old(instances)@).map_values(
            |w: WorldModel| spec_clear_world_history(w),
        ));
    }
}


/// The smallest index of a world with the greatest fitness.
pub open spec fn spec_argmax(ws: Seq<WorldModel>) -> int
    decreases ws.len(),
{
    if ws.len() <= 1 {
        0
    } else {
        let r = spec_argmax(ws.drop_first()) + 1;
        if ws[0].fitness >= ws[r].fitness {
            0
        } else {
            r
        }
    }
}

pub proof fn lemma_argmax_bounds(ws: Seq<WorldModel>)
    requires
        ws.len() >= 1,
    ensures
        0 <= spec_argmax(ws) < ws.len(),
        forall|j: int| 0 <= j < ws.len() ==> (#[trigger] ws[j]).fitness <= ws[spec_argmax(ws)].fitness,
        forall|j: int| 0 <= j < spec_argmax(ws) ==> (#[trigger] ws[j]).fitness < ws[spec_argmax(ws)].fitness,
    decreases ws.len(),
{
    if ws.len() > 1 {
        let d = ws.drop_first();
        lemma_argmax_bounds(d);
        let rd = spec_argmax(d);
        let a = spec_argmax(ws);
        assert forall|j: int| 0 <= j < ws.len() implies (#[trigger] ws[j]).fitness
            <= ws[a].fitness by {
            if j >= 1 {
                assert(ws[j] == d[j - 1]);
                assert(d[j - 1].fitness <= d[rd].fitness);
                assert(ws[rd + 1] == d[rd]);
            }
        }
        assert forall|j: int| 0 <= j < a implies (#[trigger] ws[j]).fitness < ws[a].fitness by {
            if j >= 1 {
                assert(ws[j] == d[j - 1]);
                assert(d[j - 1].fitness < d[rd].fitness);
                assert(ws[rd + 1] == d[rd]);
            }
        }
    }
}

pub proof fn lemma_argmax_unique(ws: Seq<WorldModel>, r: int)
    requires
        ws.len() >= 1,
        0 <= r < ws.len(),
        forall|j: int| 0 <= j < ws.len() ==> (#[trigger] ws[j]).fitness <= ws[r].fitness,
        forall|j: int| 0 <= j < r ==> (#[trigger] ws[j]).fitness < ws[r].fitness,
    ensures
        r == spec_argmax(ws),
{
    lemma_argmax_bounds(ws);
    let a = spec_argmax(ws);
    if a < r {
        assert(ws[a].fitness < ws[r].fitness);
        assert(ws[r].fitness <= ws[a].fitness);
    } else if r < a {
        assert(ws[r].fitness < ws[a].fitness);
        assert(ws[a].fitness <= ws[r].fitness);
    }
}

/// The worlds in descending fitness order, worlds of equal fitness keeping
/// their relative order: the world with the greatest fitness (earliest on a
/// tie) comes first, then the rest, ranked the same way.
pub open spec fn spec_rank_worlds(ws: Seq<WorldModel>) -> Seq<WorldModel>
    decreases ws.len() via spec_rank_worlds_decreases
{
    if ws.len() == 0 {
        Seq::empty()
    } else {
        let i = spec_argmax(ws);
        seq![ws[i]] + spec_rank_worlds(ws.remove(i))
    }
}

#[via_fn]
proof fn spec_rank_worlds_decreases(ws: Seq<WorldModel>) {
    if ws.len() > 0 {
        lemma_argmax_bounds(ws);
    }
}

pub proof fn lemma_rank_len(ws: Seq<WorldModel>)
    ensures
        spec_rank_worlds(ws).len() == ws.len(),
    decreases ws.len(),
{
    if ws.len() > 0 {
        lemma_argmax_bounds(ws);
        lemma_rank_len(ws.remove(spec_argmax(ws)));
    }
}

/// Reorders the worlds by descending fitness, stably.
pub fn rank_worlds(worlds: Vec<World>) -> (r: Vec<World>)
    ensures
        worlds_view(r@) == spec_rank_worlds(worlds_view(worlds@)),
{
    let ghost orig = worlds_view(worlds@);
    let mut work = worlds;
    let mut out: Vec<World> = Vec::new();
    proof {
        assert(worlds_view(out@) =~= Seq::<WorldModel>::empty());
    }
    while work.len() > 0
        invariant
            spec_rank_worlds(orig) =~= worlds_view(out@) + spec_rank_worlds(worlds_view(work@)),
        decreases work.len(),
    {
        let n = work.len();
        let mut best: usize = 0;
        let mut j: usize = 1;
        while j < n
            invariant
                n == work@.len(),
                best < j <= n,
                n >= 1,
                forall|t: int|
                    0 <= t < j ==> (#[trigger] work@[t])@.fitness <= work@[best as int]@.fitness,
                forall|t: int|
                    0 <= t < best ==> (#[trigger] work@[t])@.fitness < work@[best as int]@.fitness,
            decreases n - j,
        {
            if work[j].fitness > work[best].fitness {
                best = j;
            }
            j += 1;
        }
        proof {
            assert(forall|t: int|
                0 <= t < n ==> (#[trigger] worlds_view(work@)[t]).fitness <= worlds_view(
                    work@,
                )[best as int].fitness);
            assert(forall|t: int|
                0 <= t < best ==> (#[trigger] worlds_view(work@)[t]).fitness < worlds_view(
                    work@,
                )[best as int].fitness);
            lemma_argmax_unique(worlds_view(work@), best as int);
        }
        let ghost wv = worlds_view(work@);
        let w = work.remove(best);
        out.push(w);
        proof {
            assert(worlds_view(out@) =~= worlds_view(out@.drop_last()).push(out@.last()@));
            assert(worlds_view(work@) =~= wv.remove(best as int));
            assert(spec_rank_worlds(wv) == seq![wv[best as int]] + spec_rank_worlds(
                wv.remove(best as int),
            ));
            assert(worlds_view(out@) + spec_rank_worlds(worlds_view(work@)) =~= (worlds_view(
                out@.drop_last(),
            ) + spec_rank_worlds(wv)));
        }
    }
    proof {
        assert(spec_rank_worlds(worlds_view(work@)) =~= Seq::<WorldModel>::empty());
        assert(worlds_view(out@) =~= spec_rank_worlds(orig));
    }
    out
}


/// The crossover pass of one child agent `j`: a scratch store binds
/// `parent1` and `child` to the child's agent and `parent2` to a copy of
/// the second parent's agent imported into the child's arena; the rule body
/// runs against the scratch store with an empty agent list; then the
/// scratch store and the imported copy are emptied to sever back-references.
/// Reads of `parent2` see the ranked parent's agent faithfully; writes to
/// `parent2` land in the imported copy and are discarded with it, never in
/// the ranked parent, whose arena stays disjoint throughout the parallel
/// passes. A child agent with no counterpart in the second parent is
/// skipped.
#[verifier::opaque]
pub open spec fn spec_crossover_one(
    child: WorldModel,
    p2: WorldModel,
    j: int,
    body: Vec<crate::ast::Command>,
    program: Program,
) -> WorldModel {
    if !(0 <= j < child.individuals.len() && 0 <= j < p2.individuals.len()) {
        child
    } else {
        let sc = child.m.heap.envs.len();
        let h1 = child.m.heap.push_env();
        let tmp = h1.envs.len();
        let h2 = h1.push_env();
        let p2store = p2.m.heap.env_at(p2.individuals[j].env as int);
        let h3 = spec_copy_all(p2.m.heap, h2, p2store, p2store.len() as int, tmp);
        let cenv = child.individuals[j].env;
        let h4 = h3.with_env(
            sc as int,
            store_set(h3.env_at(sc as int), "parent1"@, ValModel::Object(cenv)),
        );
        let h5 = h4.with_env(
            sc as int,
            store_set(h4.env_at(sc as int), "parent2"@, ValModel::Object(tmp)),
        );
        let h6 = h5.with_env(
            sc as int,
            store_set(h5.env_at(sc as int), "child"@, ValModel::Object(cenv)),
        );
        let m1 = crate::eval::MachineModel { heap: h6, ..child.m };
        let m2 = crate::eval::spec_run_cmds(
            m1,
            body,
            body.len() as int,
            sc,
            Seq::empty(),
            program,
            child.step_budget,
        );
        let h7 = m2.heap.with_env(sc as int, Seq::empty());
        let h8 = h7.with_env(tmp as int, Seq::empty());
        WorldModel { m: crate::eval::MachineModel { heap: h8, ..m2 }, ..child }
    }
}

/// The crossover pass over the first `k` child agents.
#[verifier::opaque]
pub open spec fn spec_crossover(
    child: WorldModel,
    p2: WorldModel,
    k: int,
    body: Vec<crate::ast::Command>,
    program: Program,
) -> WorldModel
    decreases k,
{
    if k <= 0 {
        child
    } else {
        spec_crossover_one(spec_crossover(child, p2, k - 1, body, program), p2, k - 1, body, program)
    }
}

/// The parents with the rank-`pidx` parent's random source advanced, and
/// the word mixed out as the child's seed.
#[verifier::opaque]
pub open spec fn spec_draw_seed(parents: Seq<WorldModel>, pidx: int) -> (Seq<WorldModel>, u64) {
    let parent = parents[pidx];
    let s2 = crate::rng::rng_advance(parent.m.rng);
    (
        parents.update(
            pidx,
            WorldModel { m: crate::eval::MachineModel { rng: s2, ..parent.m }, ..parent },
        ),
        crate::rng::rng_output(s2),
    )
}

/// A fresh child world carrying schema-restricted copies of the parent's
/// agents.
#[verifier::opaque]
pub open spec fn spec_child_copy(
    parent: WorldModel,
    program: Program,
    i: int,
    gen: int,
    seed: u64,
) -> WorldModel {
    let c0 = WorldModel { generation: gen, ..crate::world::spec_new_world(program, i, seed) };
    let copied = spec_snapshot_inds(
        parent.m.heap,
        c0.m.heap,
        parent.individuals,
        parent.individuals.len() as int,
        program,
    );
    WorldModel {
        individuals: copied.1,
        m: crate::eval::MachineModel { heap: copied.0, ..c0.m },
        ..c0
    }
}

/// The crossover stage of a child: only children past the elite range are
/// crossed, against the parent at rank `(i + 1) % keep`.
#[verifier::opaque]
pub open spec fn spec_child_cross(
    c1: WorldModel,
    parents1: Seq<WorldModel>,
    program: Program,
    keep: int,
    i: int,
) -> WorldModel {
    if i >= keep {
        match spec_lookup_rule(program.mutations_block@, "crossover"@) {
            Some(rule) => match rule.body {
                Some(b) => spec_crossover(
                    c1,
                    parents1[(i + 1) % keep],
                    c1.individuals.len() as int,
                    b,
                    program,
                ),
                None => c1,
            },
            None => c1,
        }
    } else {
        c1
    }
}

/// One child world: the parent at rank `i % keep` seeds the child's random
/// source and donates schema-restricted copies of its agents; a child past
/// the elite range gets the crossover rule against the parent at rank
/// `(i + 1) % keep`; finally the mutation rule runs.
pub open spec fn spec_make_child(
    parents: Seq<WorldModel>,
    program: Program,
    keep: int,
    i: int,
    gen: int,
) -> (Seq<WorldModel>, WorldModel) {
    let d = spec_draw_seed(parents, i % keep);
    let c1 = spec_child_copy(d.0[i % keep], program, i, gen, d.1);
    let c2 = spec_child_cross(c1, d.0, program, keep, i);
    (d.0, crate::world::spec_world_mutate(c2, program))
}

/// The parents after seeding, and the first `k` children.
#[verifier::opaque]
pub open spec fn spec_next_gen(
    parents: Seq<WorldModel>,
    program: Program,
    keep: int,
    k: int,
    gen: int,
) -> (Seq<WorldModel>, Seq<WorldModel>)
    decreases k,
{
    if k <= 0 {
        (parents, Seq::empty())
    } else {
        let a = spec_next_gen(parents, program, keep, k - 1, gen);
        let b = spec_make_child(a.0, program, keep, k - 1, gen);
        (b.0, a.1.push(b.1))
    }
}

pub proof fn lemma_crossover_individuals(
    child: WorldModel,
    p2: WorldModel,
    k: int,
    body: Vec<crate::ast::Command>,
    program: Program,
)
    ensures
        spec_crossover(child, p2, k, body, program).individuals == child.individuals,
        spec_crossover(child, p2, k, body, program).step_budget == child.step_budget,
        spec_crossover(child, p2, k, body, program).generation == child.generation,
        spec_crossover(child, p2, k, body, program).id == child.id,
        spec_crossover(child, p2, k, body, program).fitness == child.fitness,
        spec_crossover(child, p2, k, body, program).record_history == child.record_history,
        spec_crossover(child, p2, k, body, program).history == child.history,
    decreases k,
{
    reveal(spec_crossover);
    reveal(spec_crossover_one);
    if k > 0 {
        lemma_crossover_individuals(child, p2, k - 1, body, program);
    }
}

/// Copies the whole store `senv` of `src` into store `nid` of `dst`,
/// values deep-copied in entry order.
fn copy_whole_store(src: &Heap, dst: &mut Heap, senv: usize, nid: usize)
    ensures
        final(dst)@ == spec_copy_all(
            src@,
            old(dst)@,
            src@.env_at(senv as int),
            src@.env_at(senv as int).len() as int,
            nid as nat,
        ),
{
    proof {
        reveal(spec_copy_all);
    }
    let entries = src.env_entries_dup(senv);
    let ghost ev = src@.env_at(senv as int);
    let fuel = src.lists.len() as u64;
    let n = entries.len();
    let mut i: usize = 0;
    while i < n
        invariant
            n == entries.len(),
            i <= n,
            ev == crate::value::entry_views(entries@),
            ev == src@.env_at(senv as int),
            fuel == src@.lists.len(),
            dst@ == spec_copy_all(src@, old(dst)@, ev, i as int, nid as nat),
        decreases n - i,
    {
        proof {
            reveal(spec_copy_all);
        }
        let k = entries[i].0.clone();
        let c = crate::deepcopy::copy_value_into(src, dst, &entries[i].1, fuel);
        dst.env_set(nid, k, c);
        i += 1;
    }
}

/// Applies the crossover rule body to every agent of `child`, with
/// `parent2` drawn agent by agent from `p2`.
fn apply_crossover(
    child: &mut World,
    p2: &World,
    body: &Vec<crate::ast::Command>,
    program: &Program,
)
    ensures
        final(child)@ == spec_crossover(
            old(child)@,
            p2@,
            old(child)@.individuals.len() as int,
            *body,
            *program,
        ),
{
    proof {
        reveal(spec_crossover);
    }
    let ghost c1 = old(child)@;
    let ghost p2v = p2@;
    let cn = child.individuals.len();
    let mut j: usize = 0;
    while j < cn
        invariant
            cn == child.individuals@.len(),
            j <= cn,
            p2v == p2@,
            cn == c1.individuals.len(),
            child@ == spec_crossover(c1, p2v, j as int, *body, *program),
        decreases cn - j,
    {
        proof {
            reveal(spec_crossover);
            reveal(spec_crossover_one);
            lemma_crossover_individuals(c1, p2v, j as int, *body, *program);
        }
        if j < p2.individuals.len() {
            crossover_agent(child, p2, j, body, program);
        }
        j += 1;
    }
}

/// One crossover pass: scratch bindings, the rule body, then teardown of
/// the scratch store and the imported parent copy.
fn crossover_agent(
    child: &mut World,
    p2: &World,
    j: usize,
    body: &Vec<crate::ast::Command>,
    program: &Program,
)
    requires
        j < old(child)@.individuals.len(),
        j < p2@.individuals.len(),
    ensures
        final(child)@ == spec_crossover_one(old(child)@, p2@, j as int, *body, *program),
{
    proof {
        reveal(spec_crossover_one);
        reveal(spec_copy_all);
    }
    let sc = child.m.heap.alloc_env();
    let tmp = child.m.heap.alloc_env();
    copy_whole_store(&p2.m.heap, &mut child.m.heap, p2.individuals[j].env, tmp);
    let cenv = child.individuals[j].env;
    child.m.heap.env_set(sc, String::from_str("parent1"), Value::Object(cenv));
    child.m.heap.env_set(sc, String::from_str("parent2"), Value::Object(tmp));
    child.m.heap.env_set(sc, String::from_str("child"), Value::Object(cenv));
    let empty_agents: Vec<Individual> = Vec::new();
    proof {
        assert(inds_view(empty_agents@) =~= Seq::<IndModel>::empty());
    }
    crate::eval::run_commands(body, &mut child.m, sc, &empty_agents, program, child.step_budget);
    child.m.heap.env_clear(sc);
    child.m.heap.env_clear(tmp);
    proof {
        assert(child@ =~= spec_crossover_one(old(child)@, p2@, j as int, *body, *program));
    }
}

/// Builds one child world from the elite parents, advancing the chosen
/// parent's random source to seed the child.
#[verifier::rlimit(100)]
#[verifier::spinoff_prover]
fn make_child(
    instances: &mut Vec<World>,
    program: &Program,
    keep: usize,
    i: usize,
    gen: i32,
) -> (r: World)
    requires
        keep >= 1,
        keep <= old(instances)@.len(),
        i <= i32::MAX,
    ensures
        final(instances)@.len() == old(instances)@.len(),
        ({
            let b = spec_make_child(
                worlds_view(old(instances)@),
                *program,
                keep as int,
                i as int,
                gen as int,
            );
            worlds_view(final(instances)@) == b.0 && r@ == b.1
        }),
{
    let pidx = i % keep;
    let ghost parents = worlds_view(instances@);
    let ghost d = spec_draw_seed(parents, pidx as int);
    let seed = instances[pidx].m.rng.next_word();
    proof {
        reveal(spec_draw_seed);
        assert(instances@[pidx as int]@ =~= d.0[pidx as int]);
        assert(worlds_view(instances@) =~= d.0);
        assert(seed == d.1);
    }
    let mut child = World::new(program, i as i32, seed);
    child.generation = gen;
    let ghost c0 = child@;
    proof {
        assert(c0 =~= (WorldModel {
            generation: gen as int,
            ..crate::world::spec_new_world(*program, i as int, seed)
        }));
    }
    let copied = snapshot_individuals(
        &instances[pidx].m.heap,
        &instances[pidx].individuals,
        program,
        &mut child.m.heap,
    );
    child.individuals = copied;
    proof {
        reveal(spec_child_copy);
        assert(child@ =~= spec_child_copy(d.0[pidx as int], *program, i as int, gen as int, seed));
    }
    let ghost c1 = child@;
    if i >= keep {
        let p2idx = (i + 1) % keep;
        let crossk = String::from_str("crossover");
        let rule_opt = program.lookup_rule(&crossk);
        match rule_opt {
            Some(rule) => match &rule.body {
                Some(b) => {
                    proof {
                        assert(worlds_view(instances@)[p2idx as int] == instances@[p2idx as int]@);
                        assert(instances@[p2idx as int]@ == d.0[p2idx as int]);
                    }
                    let p2 = &instances[p2idx];
                    apply_crossover(&mut child, p2, b, program);
                },
                None => {},
            },
            None => {},
        }
    }
    proof {
        reveal(spec_child_cross);
        assert(child@ == spec_child_cross(c1, d.0, *program, keep as int, i as int));
    }
    child.mutate(program);
    child
}

/// Builds the next generation: `keep = max(1, instances / 2)` elite worlds
/// act as parents; child `i` copies the agents of parent `i % keep`
/// (schema-restricted, transients dropped, `self` repaired); children past
/// the elite range get the crossover rule; every child is then mutated; and
/// the old generation's stores are emptied before it is dropped.
/// Breeds the children of one generation, child by child.
#[verifier::rlimit(100)]
#[verifier::spinoff_prover]
fn breed_children(
    instances: &mut Vec<World>,
    program: &Program,
    keep: usize,
    n: usize,
    current_gen: i32,
) -> (r: Vec<World>)
    requires
        keep >= 1,
        n > 0 ==> keep <= old(instances)@.len(),
        n <= i32::MAX,
    ensures
        ({
            let g = spec_next_gen(
                worlds_view(old(instances)@),
                *program,
                keep as int,
                n as int,
                current_gen as int,
            );
            worlds_view(final(instances)@) == g.0 && worlds_view(r@) == g.1
        }),
{
    let ghost orig = worlds_view(instances@);
    let mut next: Vec<World> = Vec::new();
    proof {
        reveal(spec_next_gen);
        assert(worlds_view(next@) =~= Seq::<WorldModel>::empty());
    }
    let mut i: usize = 0;
    while i < n
        invariant
            keep >= 1,
            n > 0 ==> keep <= instances@.len(),
            n <= i32::MAX,
            i <= n,
            instances@.len() == old(instances)@.len(),
            worlds_view(instances@) == spec_next_gen(
                orig,
                *program,
                keep as int,
                i as int,
                current_gen as int,
            ).0,
            worlds_view(next@) == spec_next_gen(
                orig,
                *program,
                keep as int,
                i as int,
                current_gen as int,
            ).1,
        decreases n - i,
    {
        let child = make_child(instances, program, keep, i, current_gen);
        next.push(child);
        proof {
            reveal(spec_next_gen);
            assert(worlds_view(next@) =~= worlds_view(next@.drop_last()).push(next@.last()@));
        }
        i += 1;
    }
    next
}

/// Builds the next generation: `keep = max(1, instances / 2)` elite worlds
/// act as parents; child `i` copies the agents of parent `i % keep`
/// (schema-restricted, transients dropped, `self` repaired); children past
/// the elite range get the crossover rule; every child is then mutated; and
/// the old generation's stores are emptied before it is dropped.
pub fn create_next_generation(
    instances: &mut Vec<World>,
    program: &Program,
    num_instances: i32,
    current_gen: i32,
) -> (r: Vec<World>)
    requires
        num_instances >= 0,
        num_instances > 0 ==> ({
            let keep = if num_instances / 2 < 1 {
                1int
            } else {
                num_instances as int / 2
            };
            keep <= old(instances)@.len()
        }),
    ensures
        ({
            let keep = if num_instances / 2 < 1 {
                1int
            } else {
                num_instances as int / 2
            };
            let g = spec_next_gen(
                worlds_view(old(instances)@),
                *program,
                keep,
                num_instances as int,
                current_gen as int,
            );
            worlds_view(final(instances)@) == spec_clear_generation(g.0) && worlds_view(r@) == g.1
        }),
{
    let half = (num_instances as u64) / 2;
    let keep: usize = if half < 1 {
        1
    } else {
        half as usize
    };
    let n = num_instances as usize;
    let next = breed_children(instances, program, keep, n, current_gen);
    clear_generation_memory(instances);
    next
}


/// Relies on rayon's `par_iter_mut().for_each(..)`: the closure runs
/// exactly once on each world of the list; worlds own disjoint arenas, so
/// the parallel passes cannot observe one another and the outcome equals
/// the sequential one.
#[verifier::external_body]
fn step_worlds_in_parallel(worlds: &mut Vec<World>, program: &Program, gen: i32, steps: i32)
    ensures
        final(worlds)@.len() == old(worlds)@.len(),
        forall|i: int|
            0 <= i < old(worlds)@.len() ==> (#[trigger] final(worlds)@[i])@ == spec_world_pass(
                old(worlds)@[i]@,
                *program,
                gen as int,
                steps as int,
            ),
{
    worlds.par_iter_mut().for_each(|w| w.run_pass(program, gen, steps));
}

/// Intermediate model of history extraction: the winner's arena after the
/// originals were torn down, the snapshot arena, and the copied frames.
#[verifier::ext_equal]
pub ghost struct ExtractModel {
    pub world_heap: HeapModel,
    pub snap_heap: HeapModel,
    pub frames: Seq<Seq<IndModel>>,
}

/// Extracts the first `k` history frames: each frame is copied
/// schema-restricted into the snapshot arena, and the original frame's
/// stores are emptied to break their reference cycles.
#[verifier::opaque]
pub open spec fn spec_extract_frames(
    wh: HeapModel,
    sh: HeapModel,
    frames: Seq<Seq<IndModel>>,
    k: int,
    program: Program,
) -> ExtractModel
    decreases k,
{
    if k <= 0 || frames.len() < k {
        ExtractModel { world_heap: wh, snap_heap: sh, frames: Seq::empty() }
    } else {
        let a = spec_extract_frames(wh, sh, frames, k - 1, program);
        let b = spec_snapshot_inds(
            a.world_heap,
            a.snap_heap,
            frames[k - 1],
            frames[k - 1].len() as int,
            program,
        );
        ExtractModel {
            world_heap: spec_clear_inds(a.world_heap, frames[k - 1], frames[k - 1].len() as int),
            snap_heap: b.0,
            frames: a.frames.push(b.1),
        }
    }
}

impl World {
    /// Moves the per-tick history out: each frame is copied
    /// schema-restricted into the snapshot arena and the original frame's
    /// stores are emptied; the world keeps no history afterwards.
    pub fn extract_history(&mut self, program: &Program, snap_heap: &mut Heap) -> (r: Vec<
        Vec<Individual>,
    >)
        ensures
            ({
                let ex = spec_extract_frames(
                    old(self)@.m.heap,
                    old(snap_heap)@,
                    old(self)@.history,
                    old(self)@.history.len() as int,
                    *program,
                );
                final(self)@ == (WorldModel {
                    m: crate::eval::MachineModel { heap: ex.world_heap, ..old(self)@.m },
                    history: Seq::empty(),
                    ..old(self)@
                }) && final(snap_heap)@ == ex.snap_heap && r@.map_values(
                    |f: Vec<Individual>| inds_view(f@),
                ) == ex.frames
            }),
    {
        proof {
            reveal(spec_extract_frames);
        }
        let mut raw: Vec<Vec<Individual>> = Vec::new();
        core::mem::swap(&mut self.history, &mut raw);
        proof {
            assert(self@.history =~= Seq::<Seq<IndModel>>::empty());
        }
        let ghost w0 = old(self)@;
        let ghost sh0 = old(snap_heap)@;
        let mut out: Vec<Vec<Individual>> = Vec::new();
        let fcount = raw.len();
        let mut k: usize = 0;
        while k < fcount
            invariant
                fcount == raw@.len(),
                k <= fcount,
                raw@.map_values(|f: Vec<Individual>| inds_view(f@)) == w0.history,
                ({
                    let ex = spec_extract_frames(w0.m.heap, sh0, w0.history, k as int, *program);
                    self@ == (WorldModel {
                        m: crate::eval::MachineModel { heap: ex.world_heap, ..w0.m },
                        history: Seq::empty(),
                        ..w0
                    }) && snap_heap@ == ex.snap_heap && out@.map_values(
                        |f: Vec<Individual>| inds_view(f@),
                    ) == ex.frames
                }),
            decreases fcount - k,
        {
            proof {
                reveal(spec_extract_frames);
            }
            let ghost framev = inds_view(raw@[k as int]@);
            let snap = snapshot_individuals(&self.m.heap, &raw[k], program, snap_heap);
            out.push(snap);
            proof {
                assert(out@.map_values(|f: Vec<Individual>| inds_view(f@)) =~= out@.drop_last(
                ).map_values(|f: Vec<Individual>| inds_view(f@)).push(inds_view(out@.last()@)));
                assert(w0.history[k as int] == framev);
            }
            let fl = raw[k].len();
            let ghost hw = self@.m.heap;
            let mut t: usize = 0;
            while t < fl
                invariant
                    k < raw@.len(),
                    fl == raw@[k as int]@.len(),
                    t <= fl,
                    framev == inds_view(raw@[k as int]@),
                    self@ == (WorldModel {
                        m: crate::eval::MachineModel {
                            heap: spec_clear_inds(hw, framev, t as int),
                            ..w0.m
                        },
                        history: Seq::empty(),
                        ..w0
                    }),
                decreases fl - t,
            {
                let env = raw[k][t].env;
                let ghost before = self@;
                self.m.heap.env_clear(env);
                proof {
                    assert(framev[t as int].env == raw@[k as int]@[t as int]@.env);
                    assert(self@ =~= (WorldModel {
                        m: crate::eval::MachineModel { heap: self@.m.heap, ..before.m },
                        ..before
                    }));
                }
                t += 1;
            }
            k += 1;
        }
        out
    }
}


/// The sum of the first `k` worlds' fitness scores.
pub open spec fn spec_sum_fitness(ws: Seq<WorldModel>, k: int) -> int
    decreases k,
{
    if k <= 0 || ws.len() < k {
        0
    } else {
        spec_sum_fitness(ws, k - 1) + ws[k - 1].fitness
    }
}

/// Truncating division of a fitness sum by a positive count, saturated
/// into 32 bits.
pub open spec fn spec_avg(total: int, n: int) -> int {
    let q = if total < 0 {
        -((-total) / n)
    } else {
        total / n
    };
    if q > i32::MAX {
        i32::MAX as int
    } else if q < i32::MIN {
        i32::MIN as int
    } else {
        q
    }
}

/// Sums the worlds' fitness scores without overflow.
fn sum_fitness(worlds: &Vec<World>) -> (r: i64)
    requires
        worlds@.len() < 0x1_0000_0000,
    ensures
        r as int == spec_sum_fitness(worlds_view(worlds@), worlds@.len() as int),
        r > i64::MIN,
{
    let n = worlds.len();
    let mut total: i64 = 0;
    let mut i: usize = 0;
    while i < n
        invariant
            n == worlds@.len(),
            n < 0x1_0000_0000,
            i <= n,
            total as int == spec_sum_fitness(worlds_view(worlds@), i as int),
            -0x8000_0000i64 * (i as i64) <= total <= 0x8000_0000i64 * (i as i64),
        decreases n - i,
    {
        proof {
            assert(worlds_view(worlds@)[i as int] == worlds@[i as int]@);
        }
        total = total + (worlds[i].fitness as i64);
        i += 1;
    }
    proof {
        let ghost nn = n as int;
        assert((-0x8000_0000int) * nn > i64::MIN as int) by (nonlinear_arith)
            requires
                0 <= nn < 0x1_0000_0000int,
        ;
    }
    total
}

/// The truncating average fitness.
fn avg_fitness(total: i64, n: i32) -> (r: i32)
    requires
        n >= 1,
        total > i64::MIN,
    ensures
        r as int == spec_avg(total as int, n as int),
{
    let q: i64 = if total < 0 {
        -(((-total) as u64 / (n as u64)) as i64)
    } else {
        ((total as u64) / (n as u64)) as i64
    };
    if q > (i32::MAX as i64) {
        i32::MAX
    } else if q < (i32::MIN as i64) {
        i32::MIN
    } else {
        q as i32
    }
}


/// Mathematical model of a running simulation.
#[verifier::ext_equal]
pub ghost struct SimModel {
    pub program: Program,
    pub instances: Seq<WorldModel>,
    pub history: Seq<GenSnapModel>,
    pub num_generations: int,
    pub num_instances: int,
    pub current_gen: int,
    pub global_best_fitness: int,
}

/// A running simulation: the program, the current generation's worlds, the
/// snapshot log (capped at 100 entries), and the counters.
pub struct Simulation {
    pub program: Program,
    pub instances: Vec<World>,
    pub history: Vec<GenerationSnapshot>,
    pub num_generations: i32,
    pub num_instances: i32,
    pub current_gen: i32,
    pub global_best_fitness: i32,
}

impl View for Simulation {
    type V = SimModel;

    open spec fn view(&self) -> SimModel {
        SimModel {
            program: self.program,
            instances: worlds_view(self.instances@),
            history: self.history@.map_values(|g: GenerationSnapshot| g@),
            num_generations: self.num_generations as int,
            num_instances: self.num_instances as int,
            current_gen: self.current_gen as int,
            global_best_fitness: self.global_best_fitness as int,
        }
    }
}

/// One generation of the simulation; a simulation whose generation budget
/// is spent is unchanged.
#[verifier::opaque]
pub open spec fn spec_run_generation(s: SimModel) -> SimModel {
    if s.current_gen >= s.num_generations {
        s
    } else {
        let g = s.current_gen + 1;
        let ws1 = s.instances.map_values(
            |w: WorldModel| WorldModel { record_history: true, history: Seq::empty(), ..w },
        );
        let ws2 = ws1.map_values(
            |w: WorldModel| spec_world_pass(w, s.program, g, s.program.env_steps as int),
        );
        let ws3 = spec_rank_worlds(ws2);
        let winner = ws3[0];
        let ex = spec_extract_frames(
            winner.m.heap,
            HeapModel { envs: Seq::empty(), lists: Seq::empty() },
            winner.history,
            winner.history.len() as int,
            s.program,
        );
        let ws4 = ws3.update(
            0,
            WorldModel {
                m: crate::eval::MachineModel { heap: ex.world_heap, ..winner.m },
                history: Seq::empty(),
                ..winner
            },
        );
        let ws5 = ws4.map_values(|w: WorldModel| spec_clear_world_history(w));
        let denom = if s.num_instances < 1 {
            1int
        } else {
            s.num_instances
        };
        let avg = spec_avg(spec_sum_fitness(ws5, ws5.len() as int), denom);
        let best = ws5[0].fitness;
        let gb = if best > s.global_best_fitness {
            best
        } else {
            s.global_best_fitness
        };
        let final_inds = spec_snapshot_inds(
            ws5[0].m.heap,
            ex.snap_heap,
            ws5[0].individuals,
            ws5[0].individuals.len() as int,
            s.program,
        );
        let snap = GenSnapModel {
            avg_fitness: avg,
            best_fitness: best,
            heap: final_inds.0,
            individuals: final_inds.1,
            step_history: ex.frames,
            output: ws5[0].m.output,
            draws: ws5[0].m.draws,
        };
        let ws6 = ws5.update(
            0,
            WorldModel {
                m: crate::eval::MachineModel {
                    output: Seq::empty(),
                    draws: Seq::empty(),
                    ..ws5[0].m
                },
                ..ws5[0]
            },
        );
        let log1 = s.history.push(snap);
        let log2 = if log1.len() > 100 {
            log1.drop_first()
        } else {
            log1
        };
        let keep = if s.num_instances / 2 < 1 {
            1int
        } else {
            s.num_instances / 2
        };
        let ng = spec_next_gen(ws6, s.program, keep, s.num_instances, g);
        SimModel {
            instances: ng.1,
            history: log2,
            current_gen: g,
            global_best_fitness: gb,
            ..s
        }
    }
}

impl Simulation {
    /// Runs one full generation: every world steps and is scored in
    /// parallel, the worlds are ranked stably by descending fitness, the
    /// winner's history becomes a snapshot in the log (capped at its 100
    /// most recent entries), the old generation's reference graphs are torn
    /// down, and the next generation replaces the worlds.
    #[verifier::rlimit(100)]
    #[verifier::spinoff_prover]
    pub fn run_generation(&mut self)
        requires
            old(self)@.instances.len() == old(self)@.num_instances,
            old(self)@.num_instances >= 1,
        ensures
            final(self)@ == spec_run_generation(old(self)@),
    {
        proof {
            reveal(spec_run_generation);
        }
        if self.current_gen >= self.num_generations {
            return ;
        }
        self.current_gen = self.current_gen + 1;
        let g = self.current_gen;
        let ghost s0 = old(self)@;
        let n = self.instances.len();
        let mut i: usize = 0;
        while i < n
            invariant
                n == self.instances@.len(),
                i <= n,
                forall|j: int|
                    0 <= j < i ==> (#[trigger] self.instances@[j])@ == (WorldModel {
                        record_history: true,
                        history: Seq::empty(),
                        ..s0.instances[j]
                    }),
                forall|j: int|
                    i <= j < n ==> (#[trigger] self.instances@[j])@ == s0.instances[j],
                self.program == old(self).program,
                self.history == old(self).history,
                self.num_generations == old(self).num_generations,
                self.num_instances == old(self).num_instances,
                self.current_gen == g,
                self.global_best_fitness == old(self).global_best_fitness,
                s0.instances == worlds_view(old(self).instances@),
            decreases n - i,
        {
            self.instances[i].record_history = true;
            self.instances[i].history = Vec::new();
            proof {
                assert(self.instances@[i as int]@.history =~= Seq::<Seq<IndModel>>::empty());
                assert(self.instances@[i as int]@ =~= (WorldModel {
                    record_history: true,
                    history: Seq::empty(),
                    ..s0.instances[i as int]
                }));
            }
            i += 1;
        }
        let ghost ws1 = s0.instances.map_values(
            |w: WorldModel| WorldModel { record_history: true, history: Seq::empty(), ..w },
        );
        proof {
            assert(worlds_view(self.instances@) =~= ws1);
        }
        step_worlds_in_parallel(&mut self.instances, &self.program, g, self.program.env_steps);
        let ghost ws2 = ws1.map_values(
            |w: WorldModel| spec_world_pass(w, s0.program, g as int, s0.program.env_steps as int),
        );
        proof {
            assert(worlds_view(self.instances@) =~= ws2);
        }
        let mut taken: Vec<World> = Vec::new();
        core::mem::swap(&mut self.instances, &mut taken);
        let ranked = rank_worlds(taken);
        self.instances = ranked;
        let ghost ws3 = spec_rank_worlds(ws2);
        proof {
            reveal(spec_rank_worlds);
            lemma_argmax_bounds(ws2);
            lemma_rank_len(ws2);
            assert(ws3.len() == ws2.len());
            assert(worlds_view(self.instances@)[0] == ws3[0]);
        }
        let mut snap_heap = Heap::empty();
        proof {
            assert(snap_heap@ =~= (HeapModel { envs: Seq::empty(), lists: Seq::empty() }));
        }
        let step_history = self.instances[0].extract_history(&self.program, &mut snap_heap);
        clear_world_history(&mut self.instances);
        let ghost ex = spec_extract_frames(
            ws3[0].m.heap,
            HeapModel { envs: Seq::empty(), lists: Seq::empty() },
            ws3[0].history,
            ws3[0].history.len() as int,
            s0.program,
        );
        let ghost ws5 = ws3.update(
            0,
            WorldModel {
                m: crate::eval::MachineModel { heap: ex.world_heap, ..ws3[0].m },
                history: Seq::empty(),
                ..ws3[0]
            },
        ).map_values(|w: WorldModel| spec_clear_world_history(w));
        proof {
            assert(worlds_view(self.instances@) =~= ws5);
        }
        let denom: i32 = if self.num_instances < 1 {
            1
        } else {
            self.num_instances
        };
        proof {
            assert(self.instances@.len() < 0x1_0000_0000);
        }
        let total = sum_fitness(&self.instances);
        let avg = avg_fitness(total, denom);
        let best = self.instances[0].fitness;
        if best > self.global_best_fitness {
            self.global_best_fitness = best;
        }
        let individuals = snapshot_individuals(
            &self.instances[0].m.heap,
            &self.instances[0].individuals,
            &self.program,
            &mut snap_heap,
        );
        let mut out_buf: Vec<String> = Vec::new();
        core::mem::swap(&mut self.instances[0].m.output, &mut out_buf);
        let mut draw_buf: Vec<crate::eval::DrawCmd> = Vec::new();
        core::mem::swap(&mut self.instances[0].m.draws, &mut draw_buf);
        proof {
            assert(self.instances@[0]@.m.output =~= Seq::<Seq<char>>::empty());
            assert(self.instances@[0]@.m.draws =~= Seq::<crate::eval::DrawModel>::empty());
            assert(worlds_view(self.instances@) =~= ws5.update(
                0,
                WorldModel {
                    m: crate::eval::MachineModel {
                        output: Seq::empty(),
                        draws: Seq::empty(),
                        ..ws5[0].m
                    },
                    ..ws5[0]
                },
            ));
        }
        let snapshot = GenerationSnapshot {
            avg_fitness: avg,
            best_fitness: best,
            heap: snap_heap,
            individuals,
            step_history,
            output: out_buf,
            draws: draw_buf,
        };
        self.history.push(snapshot);
        if self.history.len() > 100 {
            let mut removed = self.history.remove(0);
            clear_snapshot_memory(&mut removed);
        }
        let taken_worlds = create_next_generation(
            &mut self.instances,
            &self.program,
            self.num_instances,
            self.current_gen,
        );
        self.instances = taken_worlds;
        proof {
            assert(self@ =~= spec_run_generation(s0));
        }
    }
}

/// The worlds of a fresh run: world `i` is seeded from the `i`-th draw of a
/// generator seeded with `seed`, and populated by the spawn block.
pub open spec fn spec_seed_worlds(program: Program, n: int, seed: u64) -> Seq<WorldModel>
    decreases n,
{
    if n <= 0 {
        Seq::empty()
    } else {
        let prior = spec_seed_worlds(program, n - 1, seed);
        let state = crate::rng::rng_state_after(seed, n - 1);
        let w0 = crate::world::spec_new_world(
            program,
            n - 1,
            crate::rng::rng_output(crate::rng::rng_advance(state)),
        );
        prior.push(crate::world::spec_world_spawn(w0, program))
    }
}

/// Seeds `n` worlds deterministically from one seed and runs the spawn
/// block in each.
pub fn seed_worlds(program: &Program, instances: i32, seed: u64) -> (r: Vec<World>)
    requires
        0 <= instances,
    ensures
        worlds_view(r@) == spec_seed_worlds(*program, instances as int, seed),
{
    let mut rng = crate::rng::Rng::new(seed);
    let n = instances as usize;
    let mut out: Vec<World> = Vec::new();
    proof {
        assert(worlds_view(out@) =~= Seq::<WorldModel>::empty());
    }
    let mut i: usize = 0;
    while i < n
        invariant
            n == instances as int,
            n <= i32::MAX,
            i <= n,
            rng.state == crate::rng::rng_state_after(seed, i as int),
            worlds_view(out@) == spec_seed_worlds(*program, i as int, seed),
        decreases n - i,
    {
        let ws = rng.next_word();
        let mut w = World::new(program, i as i32, ws);
        w.spawn(program);
        out.push(w);
        proof {
            assert(worlds_view(out@) =~= worlds_view(out@.drop_last()).push(out@.last()@));
        }
        i += 1;
    }
    out
}

/// Seeds `n` worlds from entropy; the layout of the result is that of
/// `seed_worlds` for the drawn seed.
pub fn seed_worlds_random(program: &Program, instances: i32) -> (r: Vec<World>)
    requires
        0 <= instances,
    ensures
        exists|seed: u64|
            worlds_view(r@) == spec_seed_worlds(*program, instances as int, seed),
{
    let seed = crate::rng::entropy_seed();
    seed_worlds(program, instances, seed)
}


/// The visualization pass over a snapshot: a scratch store binds `width`
/// and `height`, the grid cache is built from the chosen history frame
/// (or, with no frames, the final agents), and the VISUALIZE block runs
/// against the snapshot's arena, emitting draw commands and printed lines.
#[verifier::opaque]
pub open spec fn spec_visualize(
    s: GenSnapModel,
    program: Program,
    step_idx: int,
    seed: u64,
) -> (GenSnapModel, Seq<crate::eval::DrawModel>, Seq<Seq<char>>) {
    let frame = if s.step_history.len() > 0 {
        s.step_history[if step_idx < s.step_history.len() {
            step_idx
        } else {
            s.step_history.len() - 1
        }]
    } else {
        s.individuals
    };
    let cache = crate::world::spec_build_cache(s.heap, frame, frame.len() as int);
    let nid = s.heap.envs.len();
    let m1 = crate::eval::MachineModel {
        heap: s.heap.push_env(),
        rng: seed,
        width: program.env_width as int,
        height: program.env_height as int,
        cache: Some(cache),
        draws: Seq::empty(),
        output: Seq::empty(),
        spawner: Seq::empty(),
    };
    let m2 = crate::eval::MachineModel {
        heap: m1.heap.with_env(
            nid as int,
            store_set(m1.heap.env_at(nid as int), "width"@, ValModel::Int(program.env_width as int)),
        ),
        ..m1
    };
    let m3 = crate::eval::MachineModel {
        heap: m2.heap.with_env(
            nid as int,
            store_set(
                m2.heap.env_at(nid as int),
                "height"@,
                ValModel::Int(program.env_height as int),
            ),
        ),
        ..m2
    };
    let m4 = crate::eval::spec_run_cmds(
        m3,
        program.visualize_block,
        program.visualize_block.len() as int,
        nid,
        frame,
        program,
        crate::world::STEP_BUDGET as nat,
    );
    (GenSnapModel { heap: m4.heap, ..s }, m4.draws, m4.output)
}

impl GenerationSnapshot {
    /// Runs the program's VISUALIZE block against this snapshot, at the
    /// given history step (clamped to the last frame), and yields the draw
    /// commands and printed lines it emitted. The block's assignments land
    /// in the snapshot's arena, as they did against the live originals.
    #[verifier::rlimit(100)]
    #[verifier::spinoff_prover]
    pub fn execute_visualize_block(
        &mut self,
        program: &Program,
        step_idx: usize,
        seed: u64,
    ) -> (r: (Vec<crate::eval::DrawCmd>, Vec<String>))
        ensures
            ({
                let v = spec_visualize(old(self)@, *program, step_idx as int, seed);
                final(self)@ == v.0 && r.0@.map_values(|d: crate::eval::DrawCmd| d@) == v.1
                    && r.1@.map_values(|s: String| s@) == v.2
            }),
    {
        proof {
            reveal(spec_visualize);
            reveal(crate::world::spec_build_cache);
        }
        let mut heap = Heap::empty();
        core::mem::swap(&mut self.heap, &mut heap);
        let frame: &Vec<Individual> = if self.step_history.len() > 0 {
            let idx = if step_idx < self.step_history.len() {
                step_idx
            } else {
                self.step_history.len() - 1
            };
            &self.step_history[idx]
        } else {
            &self.individuals
        };
        let xk = String::from_str("x");
        let yk = String::from_str("y");
        let mut cache = crate::eval::GridCache::new();
        let n = frame.len();
        let mut i: usize = 0;
        while i < n
            invariant
                n == frame@.len(),
                i <= n,
                xk@ == "x"@,
                yk@ == "y"@,
                cache@ == crate::world::spec_build_cache(heap@, inds_view(frame@), i as int),
            decreases n - i,
        {
            proof {
                reveal(crate::world::spec_build_cache);
            }
            let env = frame[i].env;
            let xv = match heap.env_get(env, &xk) {
                Some(Value::Int(x)) => Some(*x),
                _ => None,
            };
            let yv = match heap.env_get(env, &yk) {
                Some(Value::Int(y)) => Some(*y),
                _ => None,
            };
            match (xv, yv) {
                (Some(x), Some(y)) => {
                    cache.insert(x, y, env);
                },
                _ => {},
            }
            i += 1;
        }
        let mut m = crate::eval::Machine {
            heap,
            rng: crate::rng::Rng::new(seed),
            width: program.env_width,
            height: program.env_height,
            cache: Some(cache),
            draws: Vec::new(),
            output: Vec::new(),
            spawner: Vec::new(),
        };
        proof {
            assert(m@.draws =~= Seq::<crate::eval::DrawModel>::empty());
            assert(m@.output =~= Seq::<Seq<char>>::empty());
            assert(m@.spawner =~= Seq::<IndModel>::empty());
        }
        let nid = m.heap.alloc_env();
        m.heap.env_set(nid, String::from_str("width"), Value::Int(program.env_width));
        m.heap.env_set(nid, String::from_str("height"), Value::Int(program.env_height));
        crate::eval::run_commands(
            &program.visualize_block,
            &mut m,
            nid,
            frame,
            program,
            crate::world::STEP_BUDGET,
        );
        core::mem::swap(&mut self.heap, &mut m.heap);
        (m.draws, m.output)
    }
}

} // verus!
