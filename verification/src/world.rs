//! One simulation instance: its agents, its arena, its random source, and
//! the per-tick operations — spawning, stepping every agent's routine,
//! scoring fitness, and applying the mutation rule.

use vstd::prelude::*;

use crate::ast::{spec_lookup_routine, spec_lookup_rule, spec_lookup_species, Program};
use crate::deepcopy::deep_clone_spec;
use crate::eval::{
    cache_store, execute_block, run_commands, spec_cmds, spec_run_cmds, CacheModel, GridCache,
    Machine, MachineModel,
};
use crate::heap::{Heap, HeapModel};
use crate::rng::Rng;
use crate::strings::spec_to_int;
use crate::value::{
    dup_individuals, inds_view, store_get, IndModel, Individual, ValModel, Value,
};

verus! {

/// The step budget of one command-block run: each `while` pass costs one
/// unit, so even a program that never ends leaves the interpreter.
pub const STEP_BUDGET: u64 = 0x1_0000_0000;

/// Mathematical model of a world.
#[verifier::ext_equal]
pub ghost struct WorldModel {
    pub individuals: Seq<IndModel>,
    pub m: MachineModel,
    pub generation: int,
    pub id: int,
    pub fitness: int,
    pub record_history: bool,
    pub history: Seq<Seq<IndModel>>,
    pub step_budget: nat,
}

/// One simulation instance: a population of agents over its own arena,
/// a seeded random source, an id, the best fitness last computed, and the
/// per-tick history used for retrospective visualization.
pub struct World {
    pub individuals: Vec<Individual>,
    pub m: Machine,
    pub generation: i32,
    pub id: i32,
    pub fitness: i32,
    pub record_history: bool,
    pub history: Vec<Vec<Individual>>,
    pub step_budget: u64,
}

impl View for World {
    type V = WorldModel;

    open spec fn view(&self) -> WorldModel {
        WorldModel {
            individuals: inds_view(self.individuals@),
            m: self.m@,
            generation: self.generation as int,
            id: self.id as int,
            fitness: self.fitness as int,
            record_history: self.record_history,
            history: self.history@.map_values(|f: Vec<Individual>| inds_view(f@)),
            step_budget: self.step_budget as nat,
        }
    }
}

/// The model of a fresh, empty world over the program's dimensions.
pub open spec fn spec_new_world(program: Program, id: int, seed: u64) -> WorldModel {
    WorldModel {
        individuals: Seq::empty(),
        m: MachineModel {
            heap: HeapModel { envs: Seq::empty(), lists: Seq::empty() },
            rng: seed,
            width: program.env_width as int,
            height: program.env_height as int,
            cache: None,
            draws: Seq::empty(),
            output: Seq::empty(),
            spawner: Seq::empty(),
        },
        generation: 0,
        id: id,
        fitness: 0,
        record_history: false,
        history: Seq::empty(),
        step_budget: STEP_BUDGET as nat,
    }
}

impl World {
    /// A fresh, empty world over the program's dimensions, with a seeded
    /// random source.
    pub fn new(program: &Program, id: i32, seed: u64) -> (r: World)
        ensures
            r@ == spec_new_world(*program, id as int, seed),
            r@.individuals == Seq::<IndModel>::empty(),
            r@.m.heap.envs.len() == 0,
            r@.m.heap.lists.len() == 0,
            r@.m.rng == seed,
            r@.m.width == program.env_width as int,
            r@.m.height == program.env_height as int,
            r@.m.cache is None,
            r@.m.draws == Seq::<crate::eval::DrawModel>::empty(),
            r@.m.output == Seq::<Seq<char>>::empty(),
            r@.m.spawner == Seq::<IndModel>::empty(),
            r@.generation == 0,
            r@.id == id as int,
            r@.fitness == 0,
            r@.record_history == false,
            r@.history == Seq::<Seq<IndModel>>::empty(),
            r@.step_budget == STEP_BUDGET as nat,
    {
        let r = World {
            individuals: Vec::new(),
            m: Machine::new(Heap::empty(), Rng::new(seed), program.env_width, program.env_height),
            generation: 0,
            id,
            fitness: 0,
            record_history: false,
            history: Vec::new(),
            step_budget: STEP_BUDGET,
        };
        proof {
            assert(r@ =~~= spec_new_world(*program, id as int, seed));
        }
        r
    }
}

/// Appends the agents of `src` to `dst`, in order.
pub fn append_inds(dst: &mut Vec<Individual>, src: Vec<Individual>)
    ensures
        inds_view(final(dst)@) == inds_view(old(dst)@) + inds_view(src@),
{
    let n = src.len();
    let mut i: usize = 0;
    let mut rest = src;
    while i < n
        invariant
            n == src@.len(),
            n == i + rest@.len(),
            rest@ =~= src@.skip(i as int),
            inds_view(dst@) =~= inds_view(old(dst)@) + inds_view(src@).take(i as int),
        decreases n - i,
    {
        proof {
            assert(rest@[0] == src@[i as int]);
        }
        let ind = rest.remove(0);
        dst.push(ind);
        proof {
            assert(rest@ =~= src@.skip(i as int + 1));
            assert(inds_view(dst@) =~= inds_view(dst@.drop_last()).push(dst@.last()@));
            assert(inds_view(src@).take(i as int + 1) =~= inds_view(src@).take(i as int).push(
                src@[i as int]@,
            ));
            assert(dst@.last()@ == src@[i as int]@);
            assert(inds_view(dst@.drop_last()) =~= inds_view(old(dst)@) + inds_view(src@).take(
                i as int,
            ));
            assert((inds_view(old(dst)@) + inds_view(src@).take(i as int)).push(src@[i as int]@)
                =~= inds_view(old(dst)@) + inds_view(src@).take(i as int).push(src@[i as int]@));
            assert(inds_view(dst@) =~= inds_view(old(dst)@) + inds_view(src@).take(i as int + 1));
        }
        i += 1;
    }
    proof {
        assert(inds_view(src@).take(n as int) =~= inds_view(src@));
        assert(inds_view(dst@) =~= inds_view(old(dst)@) + inds_view(src@));
    }
}

/// The world after its spawn block: the block runs against a fresh
/// anonymous store, and the spawned agents join the population.
#[verifier::opaque]
pub open spec fn spec_world_spawn(w: WorldModel, program: Program) -> WorldModel {
    let nid = w.m.heap.envs.len();
    let m1 = MachineModel { heap: w.m.heap.push_env(), ..w.m };
    let m2 = spec_run_cmds(
        m1,
        program.spawns_block,
        program.spawns_block.len() as int,
        nid,
        w.individuals,
        program,
        w.step_budget,
    );
    WorldModel {
        individuals: w.individuals + m2.spawner,
        m: MachineModel { spawner: Seq::empty(), ..m2 },
        ..w
    }
}

/// The grid cache built over the first `k` agents: an agent whose `x` and
/// `y` are both plain numbers is cached at its raw cell, a later agent
/// overwriting an earlier one on the same cell.
#[verifier::opaque]
pub open spec fn spec_build_cache(h: HeapModel, inds: Seq<IndModel>, k: int) -> CacheModel
    decreases k,
{
    if k <= 0 || inds.len() < k {
        Seq::empty()
    } else {
        let c = spec_build_cache(h, inds, k - 1);
        let st = h.env_at(inds[k - 1].env as int);
        match (store_get(st, "x"@), store_get(st, "y"@)) {
            (Some(ValModel::Int(x)), Some(ValModel::Int(y))) => cache_store(
                c,
                x,
                y,
                inds[k - 1].env,
            ),
            _ => c,
        }
    }
}

/// The machine after the routines of the first `k` agents have run, each
/// against its own store with `self` pointing at it. An agent whose
/// species or routine is unknown is skipped for the tick.
#[verifier::opaque]
pub open spec fn spec_step_agents(
    m: MachineModel,
    inds: Seq<IndModel>,
    k: int,
    program: Program,
    fuel: nat,
) -> MachineModel
    decreases k,
{
    if k <= 0 || inds.len() < k {
        m
    } else {
        let a = spec_step_agents(m, inds, k - 1, program, fuel);
        let ind = inds[k - 1];
        match spec_lookup_species(program.species_block@, ind.species) {
            Some(def) => match spec_lookup_routine(program.routines_block@, def.routine_call@) {
                Some(rt) => {
                    let m1 = MachineModel {
                        heap: a.heap.with_env(
                            ind.env as int,
                            crate::value::store_set(
                                a.heap.env_at(ind.env as int),
                                "self"@,
                                ValModel::Object(ind.env),
                            ),
                        ),
                        ..a
                    };
                    spec_run_cmds(m1, rt.body, rt.body.len() as int, ind.env, inds, program, fuel)
                },
                None => a,
            },
            None => a,
        }
    }
}

/// The heap and frame after deep-cloning the first `k` agents for the
/// per-tick history.
#[verifier::opaque]
pub open spec fn spec_clone_frame(
    h: HeapModel,
    inds: Seq<IndModel>,
    k: int,
) -> (HeapModel, Seq<IndModel>)
    decreases k,
{
    if k <= 0 || inds.len() < k {
        (h, Seq::empty())
    } else {
        let a = spec_clone_frame(h, inds, k - 1);
        let b = deep_clone_spec(a.0, inds[k - 1]);
        (b.0, a.1.push(b.1))
    }
}

/// The world after one tick: a history frame if recording, the grid cache
/// built when more than one agent lives, every agent's routine run in
/// order, the spawn buffer drained into the population, the cache cleared.
#[verifier::opaque]
pub open spec fn spec_world_step(w: WorldModel, program: Program) -> WorldModel {
    let (h1, hist) = if w.record_history {
        let f = spec_clone_frame(w.m.heap, w.individuals, w.individuals.len() as int);
        (f.0, w.history.push(f.1))
    } else {
        (w.m.heap, w.history)
    };
    let cache = if w.individuals.len() > 1 {
        Some(spec_build_cache(h1, w.individuals, w.individuals.len() as int))
    } else {
        w.m.cache
    };
    let m1 = MachineModel { heap: h1, cache, ..w.m };
    let m2 = spec_step_agents(m1, w.individuals, w.individuals.len() as int, program, w.step_budget);
    WorldModel {
        individuals: w.individuals + m2.spawner,
        m: MachineModel { spawner: Seq::empty(), cache: None, ..m2 },
        history: hist,
        ..w
    }
}

impl World {
    /// Builds the advisory grid cache; left unbuilt for a lone agent.
    fn build_grid_cache(&mut self)
        ensures
            final(self)@ == (if old(self)@.individuals.len() > 1 {
                WorldModel {
                    m: MachineModel {
                        cache: Some(
                            spec_build_cache(
                                old(self)@.m.heap,
                                old(self)@.individuals,
                                old(self)@.individuals.len() as int,
                            ),
                        ),
                        ..old(self)@.m
                    },
                    ..old(self)@
                }
            } else {
                old(self)@
            }),
    {
        proof {
            reveal(spec_build_cache);
        }
        if self.individuals.len() <= 1 {
            return ;
        }
        let xk = String::from_str("x");
        let yk = String::from_str("y");
        let mut cache = GridCache::new();
        let n = self.individuals.len();
        let mut i: usize = 0;
        while i < n
            invariant
                n == self.individuals@.len(),
                i <= n,
                self == old(self),
                xk@ == "x"@,
                yk@ == "y"@,
                cache@ == spec_build_cache(self@.m.heap, self@.individuals, i as int),
            decreases n - i,
        {
            proof {
                reveal(spec_build_cache);
            }
            let env = self.individuals[i].env;
            let xv = match self.m.heap.env_get(env, &xk) {
                Some(Value::Int(x)) => Some(*x),
                _ => None,
            };
            let yv = match self.m.heap.env_get(env, &yk) {
                Some(Value::Int(y)) => Some(*y),
                _ => None,
            };
            match (xv, yv) {
                (Some(x), Some(y)) => {
                    cache.insert(x, y, env);
                },
                _ => {},
            }
            i += 1;
        }
        let ghost before = self@;
        self.m.cache = Some(cache);
        proof {
            assert(self@ =~= WorldModel {
                m: MachineModel {
                    cache: Some(spec_build_cache(before.m.heap, before.individuals, n as int)),
                    ..before.m
                },
                ..before
            });
        }
    }

    /// Drops the advisory grid cache.
    fn clear_grid_cache(&mut self)
        ensures
            final(self)@ == (WorldModel {
                m: MachineModel { cache: None, ..old(self)@.m },
                ..old(self)@
            }),
    {
        let ghost before = self@;
        self.m.cache = None;
        proof {
            assert(self@ =~= WorldModel {
                m: MachineModel { cache: None, ..before.m },
                ..before
            });
        }
    }

    /// Runs the spawn block against a fresh anonymous store and extends
    /// the population with the spawned agents.
    pub fn spawn(&mut self, program: &Program)
        ensures
            final(self)@ == spec_world_spawn(old(self)@, *program),
    {
        proof {
            reveal(spec_world_spawn);
        }
        let nid = self.m.heap.alloc_env();
        proof {
            assert(self.m@ =~= MachineModel { heap: old(self)@.m.heap.push_env(), ..old(self)@.m });
        }
        run_commands(
            &program.spawns_block,
            &mut self.m,
            nid,
            &self.individuals,
            program,
            self.step_budget,
        );
        let mut spawned: Vec<Individual> = Vec::new();
        core::mem::swap(&mut self.m.spawner, &mut spawned);
        proof {
            assert(inds_view(self.m.spawner@) =~= Seq::<IndModel>::empty());
        }
        append_inds(&mut self.individuals, spawned);
        proof {
            assert(self@ =~= spec_world_spawn(old(self)@, *program));
        }
    }

    /// Runs one tick: the history frame, the grid cache, every routine in
    /// agent order, then the spawned agents join and the cache is dropped.
    pub fn step(&mut self, program: &Program)
        ensures
            final(self)@ == spec_world_step(old(self)@, *program),
    {
        proof {
            reveal(spec_world_step);
            reveal(spec_clone_frame);
            reveal(spec_step_agents);
        }
        if self.record_history {
            let n = self.individuals.len();
            let mut frame: Vec<Individual> = Vec::new();
            let mut i: usize = 0;
            while i < n
                invariant
                    n == self.individuals@.len(),
                    i <= n,
                    self.individuals == old(self).individuals,
                    self.m.rng == old(self).m.rng,
                    self.m.width == old(self).m.width,
                    self.m.height == old(self).m.height,
                    self.m.cache == old(self).m.cache,
                    self.m.draws == old(self).m.draws,
                    self.m.output == old(self).m.output,
                    self.m.spawner == old(self).m.spawner,
                    self.generation == old(self).generation,
                    self.id == old(self).id,
                    self.fitness == old(self).fitness,
                    self.record_history == old(self).record_history,
                    self.history == old(self).history,
                    self.step_budget == old(self).step_budget,
                    (self.m.heap@, inds_view(frame@)) == spec_clone_frame(
                        old(self)@.m.heap,
                        old(self)@.individuals,
                        i as int,
                    ),
                decreases n - i,
            {
                let ind = self.individuals[i].dup();
                let c = ind.deep_clone(&mut self.m.heap);
                frame.push(c);
                proof {
                    reveal(spec_clone_frame);
                    assert(inds_view(frame@) =~= inds_view(frame@.drop_last()).push(
                        frame@.last()@,
                    ));
                    assert(old(self)@.individuals[i as int] == self.individuals@[i as int]@);
                }
                i += 1;
            }
            self.history.push(frame);
            proof {
                assert(self@.history =~= old(self)@.history.push(
                    spec_clone_frame(
                        old(self)@.m.heap,
                        old(self)@.individuals,
                        old(self)@.individuals.len() as int,
                    ).1,
                ));
            }
        }
        self.build_grid_cache();
        let selfk = String::from_str("self");
        let ghost w1 = self@;
        let n = self.individuals.len();
        let mut i: usize = 0;
        while i < n
            invariant
                n == self.individuals@.len(),
                i <= n,
                selfk@ == "self"@,
                self@ == (WorldModel {
                    m: spec_step_agents(w1.m, w1.individuals, i as int, *program, w1.step_budget),
                    ..w1
                }),
            decreases n - i,
        {
            proof {
                reveal(spec_step_agents);
            }
            let species = self.individuals[i].species.clone();
            let env = self.individuals[i].env;
            let def_opt = program.lookup_species(&species);
            match def_opt {
                Some(def) => {
                    let rt_opt = program.lookup_routine(&def.routine_call);
                    match rt_opt {
                        Some(rt) => {
                            let ghost before = self.m@;
                            self.m.heap.env_set(env, selfk.clone(), Value::Object(env));
                            proof {
                                assert(self.m@ =~= MachineModel { heap: self.m@.heap, ..before });
                            }
                            run_commands(
                                &rt.body,
                                &mut self.m,
                                env,
                                &self.individuals,
                                program,
                                self.step_budget,
                            );
                        },
                        None => {},
                    }
                },
                None => {},
            }
            i += 1;
        }
        let mut spawned: Vec<Individual> = Vec::new();
        core::mem::swap(&mut self.m.spawner, &mut spawned);
        proof {
            assert(inds_view(self.m.spawner@) =~= Seq::<IndModel>::empty());
        }
        append_inds(&mut self.individuals, spawned);
        self.clear_grid_cache();
        proof {
            assert(self@ =~= spec_world_step(old(self)@, *program));
        }
    }
}


/// The score of one agent: the fitness block runs against the agent's own
/// store with `self` set; an early `return` is the score, otherwise a
/// nonzero `score` variable, otherwise 0. Agents spawned by the block are
/// discarded. An empty fitness block scores 0 without touching the agent.
#[verifier::opaque]
pub open spec fn spec_calc_fitness(
    m: MachineModel,
    inds: Seq<IndModel>,
    i: int,
    program: Program,
    fuel: nat,
) -> (MachineModel, int) {
    if program.fitness_block.commands.len() == 0 || !(0 <= i < inds.len()) {
        (m, 0)
    } else {
        let env = inds[i].env;
        let m1 = MachineModel {
            heap: m.heap.with_env(
                env as int,
                crate::value::store_set(
                    m.heap.env_at(env as int),
                    "self"@,
                    ValModel::Object(env),
                ),
            ),
            spawner: Seq::empty(),
            ..m
        };
        let s = spec_cmds(
            m1,
            program.fitness_block.commands,
            program.fitness_block.commands.len() as int,
            env,
            inds,
            program,
            fuel,
        );
        let m2 = MachineModel { spawner: m.spawner, ..s.0 };
        match s.1 {
            Some(v) => (m2, spec_to_int(v)),
            None => {
                let score = match store_get(s.0.heap.env_at(env as int), "score"@) {
                    Some(v) => spec_to_int(v),
                    None => 0,
                };
                (m2, score)
            },
        }
    }
}

/// The machine and best score after scoring the first `k` agents: each
/// agent's `fitness` field is set to its score, and the best is the
/// greatest positive score seen, or 0.
#[verifier::opaque]
pub open spec fn spec_score_agents(
    m: MachineModel,
    inds: Seq<IndModel>,
    k: int,
    program: Program,
    fuel: nat,
) -> (MachineModel, int)
    decreases k,
{
    if k <= 0 || inds.len() < k {
        (m, 0)
    } else {
        let a = spec_score_agents(m, inds, k - 1, program, fuel);
        let b = spec_calc_fitness(a.0, inds, k - 1, program, fuel);
        let env = inds[k - 1].env;
        let m1 = MachineModel {
            heap: b.0.heap.with_env(
                env as int,
                crate::value::store_set(
                    b.0.heap.env_at(env as int),
                    "fitness"@,
                    ValModel::Int(b.1),
                ),
            ),
            ..b.0
        };
        (
            m1,
            if b.1 > a.1 {
                b.1
            } else {
                a.1
            },
        )
    }
}

/// The world after fitness computation: the grid cache is built for the
/// pass, every agent is scored in order, the best score becomes the
/// world's fitness, and the cache is dropped.
#[verifier::opaque]
pub open spec fn spec_world_fitness(w: WorldModel, program: Program) -> (WorldModel, int) {
    let cache = if w.individuals.len() > 1 {
        Some(spec_build_cache(w.m.heap, w.individuals, w.individuals.len() as int))
    } else {
        w.m.cache
    };
    let m1 = MachineModel { cache, ..w.m };
    let s = spec_score_agents(m1, w.individuals, w.individuals.len() as int, program, w.step_budget);
    (
        WorldModel {
            m: MachineModel { cache: None, ..s.0 },
            fitness: s.1,
            ..w
        },
        s.1,
    )
}

/// The world after the mutation rule: the rule whose action is exactly
/// `mutation`, if it has a body, runs once against every agent with
/// `self` set, over a stable snapshot of the agent list.
#[verifier::opaque]
pub open spec fn spec_world_mutate(w: WorldModel, program: Program) -> WorldModel {
    if w.individuals.len() == 0 {
        w
    } else {
        match spec_lookup_rule(program.mutations_block@, "mutation"@) {
            Some(rule) => match rule.body {
                Some(b) => WorldModel {
                    m: spec_mutate_agents(
                        w.m,
                        w.individuals,
                        w.individuals.len() as int,
                        b,
                        program,
                        w.step_budget,
                    ),
                    ..w
                },
                None => w,
            },
            None => w,
        }
    }
}

/// The machine after the mutation body has run over the first `k` agents.
#[verifier::opaque]
pub open spec fn spec_mutate_agents(
    m: MachineModel,
    inds: Seq<IndModel>,
    k: int,
    body: Vec<crate::ast::Command>,
    program: Program,
    fuel: nat,
) -> MachineModel
    decreases k,
{
    if k <= 0 || inds.len() < k {
        m
    } else {
        let a = spec_mutate_agents(m, inds, k - 1, body, program, fuel);
        let env = inds[k - 1].env;
        let m1 = MachineModel {
            heap: a.heap.with_env(
                env as int,
                crate::value::store_set(
                    a.heap.env_at(env as int),
                    "self"@,
                    ValModel::Object(env),
                ),
            ),
            ..a
        };
        spec_run_cmds(m1, body, body.len() as int, env, inds, program, fuel)
    }
}

impl World {
    /// Scores one agent against the fitness block.
    pub fn calculate_fitness(&mut self, i: usize, program: &Program) -> (r: i32)
        requires
            i < old(self)@.individuals.len(),
        ensures
            ({
                let s = spec_calc_fitness(
                    old(self)@.m,
                    old(self)@.individuals,
                    i as int,
                    *program,
                    old(self)@.step_budget,
                );
                final(self)@ == (WorldModel { m: s.0, ..old(self)@ }) && r as int == s.1
            }),
    {
        proof {
            reveal(spec_calc_fitness);
        }
        if program.fitness_block.commands.len() == 0 {
            return 0;
        }
        let env = self.individuals[i].env;
        let selfk = String::from_str("self");
        let ghost before = self.m@;
        self.m.heap.env_set(env, selfk, Value::Object(env));
        proof {
            assert(self.m@ =~= MachineModel { heap: self.m@.heap, ..before });
        }
        let mut saved: Vec<Individual> = Vec::new();
        core::mem::swap(&mut self.m.spawner, &mut saved);
        proof {
            assert(inds_view(self.m.spawner@) =~= Seq::<IndModel>::empty());
        }
        let ghost m1 = self.m@;
        let r = execute_block(
            &program.fitness_block.commands,
            &mut self.m,
            env,
            &self.individuals,
            program,
            self.step_budget,
        );
        let score = match r {
            Some(v) => v.to_int(),
            None => {
                let scorek = String::from_str("score");
                match self.m.heap.env_get(env, &scorek) {
                    Some(v) => v.to_int(),
                    None => 0,
                }
            },
        };
        let ghost m2 = self.m@;
        core::mem::swap(&mut self.m.spawner, &mut saved);
        proof {
            assert(self.m@ =~= MachineModel { spawner: old(self)@.m.spawner, ..m2 });
            assert(self@ =~= WorldModel {
                m: spec_calc_fitness(
                    old(self)@.m,
                    old(self)@.individuals,
                    i as int,
                    *program,
                    old(self)@.step_budget,
                ).0,
                ..old(self)@
            });
        }
        score
    }
}


impl World {
    /// Scores every agent, stores each score in the agent's `fitness`
    /// field, and keeps the best score as the world's fitness.
    pub fn calculate_total_fitness(&mut self, program: &Program) -> (r: i32)
        ensures
            (final(self)@, r as int) == spec_world_fitness(old(self)@, *program),
            r == final(self).fitness,
    {
        proof {
            reveal(spec_world_fitness);
            reveal(spec_score_agents);
        }
        self.build_grid_cache();
        let ghost w1 = self@;
        let fitk = String::from_str("fitness");
        let mut best: i32 = 0;
        let n = self.individuals.len();
        let mut i: usize = 0;
        while i < n
            invariant
                n == self.individuals@.len(),
                i <= n,
                fitk@ == "fitness"@,
                (self@.m, best as int) == spec_score_agents(
                    w1.m,
                    w1.individuals,
                    i as int,
                    *program,
                    w1.step_budget,
                ),
                self@ == (WorldModel { m: self@.m, ..w1 }),
            decreases n - i,
        {
            proof {
                reveal(spec_score_agents);
            }
            let score = self.calculate_fitness(i, program);
            let env = self.individuals[i].env;
            let ghost before = self.m@;
            self.m.heap.env_set(env, fitk.clone(), Value::Int(score));
            proof {
                assert(self.m@ =~= MachineModel { heap: self.m@.heap, ..before });
            }
            if score > best {
                best = score;
            }
            i += 1;
        }
        self.fitness = best;
        self.clear_grid_cache();
        proof {
            assert(self@ =~= spec_world_fitness(old(self)@, *program).0);
        }
        best
    }

    /// Applies the `mutation` rule once to every agent, over a stable
    /// snapshot of the agent list.
    pub fn mutate(&mut self, program: &Program)
        ensures
            final(self)@ == spec_world_mutate(old(self)@, *program),
    {
        proof {
            reveal(spec_world_mutate);
            reveal(spec_mutate_agents);
        }
        if self.individuals.len() == 0 {
            return ;
        }
        let mutk = String::from_str("mutation");
        let rule_opt = program.lookup_rule(&mutk);
        match rule_opt {
            Some(rule) => match &rule.body {
                Some(b) => {
                    let snapshot = dup_individuals(&self.individuals);
                    let selfk = String::from_str("self");
                    let ghost w1 = self@;
                    let n = self.individuals.len();
                    let mut i: usize = 0;
                    while i < n
                        invariant
                            n == self.individuals@.len(),
                            i <= n,
                            selfk@ == "self"@,
                            inds_view(snapshot@) == w1.individuals,
                            self@ == (WorldModel {
                                m: spec_mutate_agents(
                                    w1.m,
                                    w1.individuals,
                                    i as int,
                                    *b,
                                    *program,
                                    w1.step_budget,
                                ),
                                ..w1
                            }),
                        decreases n - i,
                    {
                        proof {
                            reveal(spec_mutate_agents);
                        }
                        let env = self.individuals[i].env;
                        let ghost before = self.m@;
                        self.m.heap.env_set(env, selfk.clone(), Value::Object(env));
                        proof {
                            assert(self.m@ =~= MachineModel { heap: self.m@.heap, ..before });
                        }
                        run_commands(b, &mut self.m, env, &snapshot, program, self.step_budget);
                        i += 1;
                    }
                },
                None => {},
            },
            None => {},
        }
    }
}


/// The world after `k` ticks.
#[verifier::opaque]
pub open spec fn spec_steps(w: WorldModel, program: Program, k: int) -> WorldModel
    decreases k,
{
    if k <= 0 {
        w
    } else {
        spec_world_step(spec_steps(w, program, k - 1), program)
    }
}

/// The world with one more history frame holding deep clones of all its
/// agents.
#[verifier::opaque]
pub open spec fn spec_push_frame(w: WorldModel) -> WorldModel {
    let f = spec_clone_frame(w.m.heap, w.individuals, w.individuals.len() as int);
    WorldModel {
        m: MachineModel { heap: f.0, ..w.m },
        history: w.history.push(f.1),
        ..w
    }
}

/// One world's pass of a generation: the generation index is set, the
/// world ticks `steps` times, the final state joins the history when
/// recording, and fitness is computed.
#[verifier::opaque]
pub open spec fn spec_world_pass(w: WorldModel, program: Program, gen: int, steps: int) -> WorldModel {
    let w1 = WorldModel { generation: gen, ..w };
    let w2 = spec_steps(w1, program, steps);
    let w3 = if w2.record_history {
        spec_push_frame(w2)
    } else {
        w2
    };
    spec_world_fitness(w3, program).0
}

impl World {
    /// Appends a history frame of deep clones of every agent.
    pub fn push_history_frame(&mut self)
        ensures
            final(self)@ == spec_push_frame(old(self)@),
    {
        proof {
            reveal(spec_push_frame);
            reveal(spec_clone_frame);
        }
        let n = self.individuals.len();
        let mut frame: Vec<Individual> = Vec::new();
        let mut i: usize = 0;
        while i < n
            invariant
                n == self.individuals@.len(),
                i <= n,
                self.individuals == old(self).individuals,
                self.m.rng == old(self).m.rng,
                self.m.width == old(self).m.width,
                self.m.height == old(self).m.height,
                self.m.cache == old(self).m.cache,
                self.m.draws == old(self).m.draws,
                self.m.output == old(self).m.output,
                self.m.spawner == old(self).m.spawner,
                self.generation == old(self).generation,
                self.id == old(self).id,
                self.fitness == old(self).fitness,
                self.record_history == old(self).record_history,
                self.history == old(self).history,
                self.step_budget == old(self).step_budget,
                (self.m.heap@, inds_view(frame@)) == spec_clone_frame(
                    old(self)@.m.heap,
                    old(self)@.individuals,
                    i as int,
                ),
            decreases n - i,
        {
            proof {
                reveal(spec_clone_frame);
            }
            let ind = self.individuals[i].dup();
            let c = ind.deep_clone(&mut self.m.heap);
            frame.push(c);
            proof {
                assert(inds_view(frame@) =~= inds_view(frame@.drop_last()).push(frame@.last()@));
                assert(old(self)@.individuals[i as int] == self.individuals@[i as int]@);
            }
            i += 1;
        }
        self.history.push(frame);
        proof {
            assert(self@.history =~= old(self)@.history.push(
                spec_clone_frame(
                    old(self)@.m.heap,
                    old(self)@.individuals,
                    old(self)@.individuals.len() as int,
                ).1,
            ));
            assert(self@ =~= spec_push_frame(old(self)@));
        }
    }

    /// Runs one world's whole pass of a generation.
    pub fn run_pass(&mut self, program: &Program, gen: i32, steps: i32)
        ensures
            final(self)@ == spec_world_pass(old(self)@, *program, gen as int, steps as int),
    {
        proof {
            reveal(spec_world_pass);
            reveal(spec_steps);
        }
        self.generation = gen;
        let ghost w1 = self@;
        let mut t: i32 = 0;
        while t < steps
            invariant
                0 <= t,
                steps > 0 ==> t <= steps,
                steps <= 0 ==> t == 0,
                self@ == spec_steps(w1, *program, t as int),
            decreases steps - t,
        {
            proof {
                reveal(spec_steps);
            }
            self.step(program);
            t += 1;
        }
        proof {
            reveal(spec_steps);
            assert(self@ == spec_steps(w1, *program, steps as int));
        }
        if self.record_history {
            self.push_history_frame();
        }
        let _ = self.calculate_total_fitness(program);
    }
}

} // verus!
