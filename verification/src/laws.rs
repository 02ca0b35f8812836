//! The library's laws, stated and proved against the specification
//! functions that the executable functions are verified to implement.

use vstd::prelude::*;

use crate::ast::Exp;
use crate::eval::{spec_builtin, spec_eval_int, spec_eval_val, MachineModel};
use crate::evolution::{
    spec_make_child, spec_run_generation, spec_snapshot_inds, spec_snapshot_one, SimModel,
};
use crate::heap::HeapModel;
use crate::math::spec_wrap;
use crate::semantic::{
    scope_get, spec_check_cmds, spec_check_exp, spec_check_routines, spec_globals, spec_props,
    spec_validate, ScopeModel, Ty,
};
use crate::value::IndModel;
use crate::world::WorldModel;

verus! {

/// An expression is pure when it calls none of `push`, `pop`, the draw
/// primitives or `random`, and allocates no list literal.
pub open spec fn pure_exp(e: Exp) -> bool
    decreases e, 1nat, 0nat,
{
    match e {
        Exp::Int(_, _) => true,
        Exp::Bool(_, _) => true,
        Exp::StringLiteral(_, _) => true,
        Exp::Var(_, _) => true,
        Exp::Dot(obj, _, _) => pure_exp(*obj),
        Exp::BinaryOp(l, _, r, _) => pure_exp(*l) && pure_exp(*r),
        Exp::Index(lst, idx, _) => pure_exp(*lst) && pure_exp(*idx),
        Exp::List(_, _) => false,
        Exp::Call(name, args, _) => !(name@ == "push"@) && !(name@ == "pop"@) && !(name@
            == "random"@) && !(name@ == "draw_rect"@) && !(name@ == "draw_line"@) && !(name@
            == "draw_circle"@) && pure_args(args, args.len() as int),
    }
}

/// Whether the first `k` arguments are pure.
pub open spec fn pure_args(args: Vec<Exp>, k: int) -> bool
    decreases args, 2nat, k,
{
    if k <= 0 || args.len() < k {
        true
    } else {
        pure_args(args, k - 1) && pure_exp(args[k - 1])
    }
}

/// Expression purity: evaluating a pure expression leaves the machine
/// untouched, on the integer path.
pub proof fn lemma_pure_eval_int(m: MachineModel, e: Exp, env: nat, agents: Seq<IndModel>)
    requires
        pure_exp(e),
    ensures
        spec_eval_int(m, e, env, agents).0 == m,
    decreases e, 0nat, 0nat,
{
    match e {
        Exp::Dot(obj, _, _) => {
            lemma_pure_eval_val(m, *obj, env, agents);
        },
        Exp::BinaryOp(l, _, r, _) => {
            lemma_pure_eval_int(m, *l, env, agents);
            lemma_pure_eval_int(m, *r, env, agents);
        },
        Exp::Index(lst, idx, _) => {
            lemma_pure_eval_val(m, *lst, env, agents);
            lemma_pure_eval_int(m, *idx, env, agents);
        },
        Exp::Call(name, args, _) => {
            lemma_pure_builtin(m, name@, args, env, agents);
        },
        _ => {},
    }
}

/// Expression purity: evaluating a pure expression leaves the machine
/// untouched, on the value path.
pub proof fn lemma_pure_eval_val(m: MachineModel, e: Exp, env: nat, agents: Seq<IndModel>)
    requires
        pure_exp(e),
    ensures
        spec_eval_val(m, e, env, agents).0 == m,
    decreases e, 1nat, 0nat,
{
    match e {
        Exp::Dot(obj, _, _) => {
            lemma_pure_eval_val(m, *obj, env, agents);
        },
        Exp::BinaryOp(_, _, _, _) => {
            lemma_pure_eval_int(m, e, env, agents);
        },
        Exp::Index(lst, idx, _) => {
            lemma_pure_eval_val(m, *lst, env, agents);
            let a = spec_eval_val(m, *lst, env, agents);
            lemma_pure_eval_int(a.0, *idx, env, agents);
        },
        Exp::Call(name, args, _) => {
            lemma_pure_builtin(m, name@, args, env, agents);
        },
        _ => {},
    }
}

/// Expression purity for the built-ins that only read: `len`, `get_at`
/// and `dist` evaluate their pure arguments and change nothing.
pub proof fn lemma_pure_builtin(
    m: MachineModel,
    name: Seq<char>,
    args: Vec<Exp>,
    env: nat,
    agents: Seq<IndModel>,
)
    requires
        !(name == "push"@),
        !(name == "pop"@),
        !(name == "random"@),
        !(name == "draw_rect"@),
        !(name == "draw_line"@),
        !(name == "draw_circle"@),
        pure_args(args, args.len() as int),
    ensures
        spec_builtin(m, name, args, env, agents).0 == m,
    decreases args, 2nat, 0nat,
{
    if name == "len"@ {
        if args.len() >= 1 {
            assert(pure_exp(args[0])) by {
                lemma_pure_args_index(args, args.len() as int, 0);
            }
            lemma_pure_eval_val(m, args[0], env, agents);
        }
    } else if name == "get_at"@ || name == "dist"@ {
        if args.len() >= 2 {
            assert(pure_exp(args[0]) && pure_exp(args[1])) by {
                lemma_pure_args_index(args, args.len() as int, 0);
                lemma_pure_args_index(args, args.len() as int, 1);
            }
            lemma_pure_eval_val(m, args[0], env, agents);
            let a = spec_eval_val(m, args[0], env, agents);
            lemma_pure_eval_val(a.0, args[1], env, agents);
            lemma_pure_eval_int(m, args[0], env, agents);
            let ai = spec_eval_int(m, args[0], env, agents);
            lemma_pure_eval_int(ai.0, args[1], env, agents);
        }
    }
}

/// A pure-argument row is pointwise pure.
pub proof fn lemma_pure_args_index(args: Vec<Exp>, k: int, j: int)
    requires
        pure_args(args, k),
        0 <= j < k,
        k <= args.len(),
    ensures
        pure_exp(args[j]),
    decreases k,
{
    if j < k - 1 {
        lemma_pure_args_index(args, k - 1, j);
    }
}

/// Expression purity, as the language user sees it: a pure expression
/// evaluated twice in a row against the same store yields the same value
/// both times, and the machine after the two runs is the machine before.
pub proof fn lemma_expression_purity(m: MachineModel, e: Exp, env: nat, agents: Seq<IndModel>)
    requires
        pure_exp(e),
    ensures
        spec_eval_val(m, e, env, agents).0 == m,
        spec_eval_val(spec_eval_val(m, e, env, agents).0, e, env, agents).1 == spec_eval_val(
            m,
            e,
            env,
            agents,
        ).1,
{
    lemma_pure_eval_val(m, e, env, agents);
}

/// Modular toroidal indexing: a coordinate shifted by any whole number of
/// world widths wraps to the same cell, so `environment[x][y]` and
/// `environment[x + k*W][y + m*H]` resolve to the same agent.
pub proof fn lemma_toroidal_wrap(x: int, k: int, w: int)
    requires
        w > 0,
    ensures
        spec_wrap(x + k * w, w) == spec_wrap(x, w),
{
    vstd::arithmetic::div_mod::lemma_mod_multiples_vanish(k, x, w);
    assert(w * k + x == x + k * w) by (nonlinear_arith);
}

/// Modular toroidal indexing at the resolution level: the grid lookup of
/// `environment[x][y]` consults the cache and scans the agent list only
/// through the wrapped cell, so shifting the coordinates by whole numbers
/// of world widths and heights resolves to the same agent (or the same
/// miss), through either path.
pub proof fn lemma_toroidal_lookup(
    h: crate::heap::HeapModel,
    agents: Seq<IndModel>,
    cache: Option<crate::eval::CacheModel>,
    x: int,
    y: int,
    k: int,
    mm: int,
    w: int,
    ht: int,
)
    requires
        w > 0,
        ht > 0,
    ensures
        ({
            let wx = spec_wrap(x, w);
            let wy = spec_wrap(y, ht);
            let wx2 = spec_wrap(x + k * w, w);
            let wy2 = spec_wrap(y + mm * ht, ht);
            wx == wx2 && wy == wy2 && (match cache {
                Some(c) => crate::eval::cache_lookup(c, wx, wy) == crate::eval::cache_lookup(
                    c,
                    wx2,
                    wy2,
                ),
                None => true,
            }) && crate::eval::spec_find_wrapped(h, agents, wx, wy, w, ht, "x"@, "y"@)
                == crate::eval::spec_find_wrapped(h, agents, wx2, wy2, w, ht, "x"@, "y"@)
        }),
{
    lemma_toroidal_wrap(x, k, w);
    lemma_toroidal_wrap(y, mm, ht);
}

/// Validator soundness on undefined names: an identifier that is neither
/// a routine local nor a global nor a known property raises exactly one
/// diagnostic, and the diagnostic names the variable and its line.
pub proof fn lemma_undefined_var_diagnosed(
    name: String,
    line: usize,
    env: ScopeModel,
    props: ScopeModel,
    ctx: Seq<char>,
)
    requires
        scope_get(env, name@) is None,
        scope_get(props, name@) is None,
    ensures
        spec_check_exp(Exp::Var(name, line), env, props, ctx).1 == seq![
            crate::semantic::spec_message(ctx, "Undefined variable: "@, name@, line as int)
        ],
{
}

/// The routine diagnostics are a concatenation: any single routine's
/// diagnostics bound the total from below.
proof fn lemma_routines_sum_ge(
    routines: Vec<crate::ast::RoutineDef>,
    k: int,
    i: int,
    globals: ScopeModel,
    props: ScopeModel,
)
    requires
        0 <= i < k <= routines.len(),
    ensures
        spec_check_routines(routines, k, globals, props).len() >= spec_check_cmds(
            routines[i].body,
            routines[i].body.len() as int,
            crate::semantic::scope_set(globals, "self"@, Ty::Object),
            props,
            routines[i].name@,
        ).1.len(),
    decreases k,
{
    if i < k - 1 {
        lemma_routines_sum_ge(routines, k - 1, i, globals, props);
    }
}

/// Validator soundness: a program with a routine whose body raises any
/// diagnostic — an undefined name among them — is rejected as a whole.
pub proof fn lemma_validator_rejects_routine(program: crate::ast::Program, i: int)
    requires
        0 <= i < program.routines_block.len(),
        spec_check_cmds(
            program.routines_block[i].body,
            program.routines_block[i].body.len() as int,
            crate::semantic::scope_set(spec_globals(), "self"@, Ty::Object),
            spec_props(program),
            program.routines_block[i].name@,
        ).1.len() > 0,
    ensures
        spec_validate(program).len() > 0,
{
    lemma_routines_sum_ge(
        program.routines_block,
        program.routines_block.len() as int,
        i,
        spec_globals(),
        spec_props(program),
    );
}

/// Determinism under a fixed random source: a whole generation is a
/// function of the simulation state alone, so two runs from equal states
/// — same program, same worlds, same seeds — end in equal states. The
/// executable `run_generation` is verified to land on exactly this
/// function of its starting state.
pub proof fn lemma_generation_deterministic(a: SimModel, b: SimModel)
    requires
        a == b,
    ensures
        spec_run_generation(a) == spec_run_generation(b),
{
}

/// The snapshot cap: the log after a generation holds the most recent
/// snapshots and never more than 100.
pub proof fn lemma_snapshot_cap(s: SimModel)
    requires
        s.current_gen < s.num_generations,
        s.history.len() <= 100,
    ensures
        spec_run_generation(s).history.len() == if s.history.len() < 100 {
            s.history.len() + 1
        } else {
            100nat
        },
        forall|j: int|
            0 <= j < s.history.len() && s.history.len() < 100 ==> spec_run_generation(
                s,
            ).history[j] == s.history[j],
        s.history.len() > 0 && s.history.len() == 100 ==> spec_run_generation(s).history[0]
            == s.history[1],
{
    reveal(crate::evolution::spec_run_generation);
}

/// Selection correctness: every child's agents are schema-restricted
/// copies of the agents of the parent at rank `i % keep` — the same
/// number of agents, with the same species tags — before mutation and
/// crossover touch their stores.
pub proof fn lemma_selection_sources(
    parents: Seq<WorldModel>,
    program: crate::ast::Program,
    keep: int,
    i: int,
    gen: int,
)
    requires
        keep >= 1,
        0 <= i % keep < parents.len(),
    ensures
        ({
            let child = spec_make_child(parents, program, keep, i, gen).1;
            let parent = parents[i % keep];
            child.individuals.len() == parent.individuals.len() && forall|j: int|
                0 <= j < parent.individuals.len() ==> (#[trigger] child.individuals[j]).species
                    == parent.individuals[j].species
        }),
{
    reveal(crate::evolution::spec_draw_seed);
    reveal(crate::evolution::spec_child_copy);
    reveal(crate::evolution::spec_child_cross);
    let d = crate::evolution::spec_draw_seed(parents, i % keep);
    let p = d.0[i % keep];
    let c0 = WorldModel {
        generation: gen,
        ..crate::world::spec_new_world(program, i, d.1)
    };
    lemma_snapshot_inds_species(
        p.m.heap,
        c0.m.heap,
        p.individuals,
        p.individuals.len() as int,
        program,
    );
    let c1 = crate::evolution::spec_child_copy(p, program, i, gen, d.1);
    if i >= keep {
        match crate::ast::spec_lookup_rule(program.mutations_block@, "crossover"@) {
            Some(rule) => match rule.body {
                Some(b) => {
                    crate::evolution::lemma_crossover_individuals(
                        c1,
                        d.0[(i + 1) % keep],
                        c1.individuals.len() as int,
                        b,
                        program,
                    );
                },
                None => {},
            },
            None => {},
        }
    }
    let c2 = crate::evolution::spec_child_cross(c1, d.0, program, keep, i);
    lemma_mutate_individuals(c2, program);
}

/// Mutation leaves the agent list itself unchanged; only stores change.
proof fn lemma_mutate_individuals(w: WorldModel, program: crate::ast::Program)
    ensures
        crate::world::spec_world_mutate(w, program).individuals == w.individuals,
{
    reveal(crate::world::spec_world_mutate);
}

/// A schema-restricted snapshot copies exactly the agents it is given:
/// one fresh store per agent, species tags preserved.
pub proof fn lemma_snapshot_inds_species(
    src: HeapModel,
    dst: HeapModel,
    inds: Seq<IndModel>,
    k: int,
    program: crate::ast::Program,
)
    requires
        0 <= k <= inds.len(),
    ensures
        spec_snapshot_inds(src, dst, inds, k, program).1.len() == k,
        forall|j: int|
            0 <= j < k ==> (#[trigger] spec_snapshot_inds(src, dst, inds, k, program).1[j]).species
                == inds[j].species,
    decreases k,
{
    reveal(crate::evolution::spec_snapshot_inds);
    reveal(crate::evolution::spec_snapshot_one);
    if k > 0 {
        lemma_snapshot_inds_species(src, dst, inds, k - 1, program);
    }
}

/// Deep copies into a destination arena touch no store slots: only lists
/// are appended.
proof fn lemma_copy_into_envs(src: HeapModel, dst: HeapModel, v: crate::value::ValModel, fuel: nat)
    ensures
        crate::deepcopy::copy_into_spec(src, dst, v, fuel).0.envs == dst.envs,
    decreases fuel, 1nat,
{
    match v {
        crate::value::ValModel::List(id) => {
            if fuel > 0 {
                lemma_copy_into_items_envs(src, dst, src.list_at(id as int), (fuel - 1) as nat);
            }
        },
        _ => {},
    }
}

proof fn lemma_copy_into_items_envs(
    src: HeapModel,
    dst: HeapModel,
    items: Seq<crate::value::ValModel>,
    fuel: nat,
)
    ensures
        crate::deepcopy::copy_into_items_spec(src, dst, items, fuel).0.envs == dst.envs,
    decreases fuel, items.len() + 2nat,
{
    if items.len() > 0 {
        lemma_copy_into_items_envs(src, dst, items.drop_last(), fuel);
        let a = crate::deepcopy::copy_into_items_spec(src, dst, items.drop_last(), fuel);
        lemma_copy_into_envs(src, a.0, items.last(), fuel);
    }
}

proof fn lemma_copy_field_envs(src: HeapModel, dst: HeapModel, senv: nat, nid: nat, key: Seq<char>)
    ensures
        crate::evolution::spec_copy_field(src, dst, senv, nid, key).envs.len() == dst.envs.len(),
{
    reveal(crate::evolution::spec_copy_field);
    match crate::value::store_get(src.env_at(senv as int), key) {
        Some(v) => {
            lemma_copy_into_envs(src, dst, v, src.lists.len());
        },
        None => {},
    }
}

proof fn lemma_copy_props_envs(
    src: HeapModel,
    dst: HeapModel,
    props: Seq<(Seq<char>, Exp)>,
    k: int,
    senv: nat,
    nid: nat,
)
    ensures
        crate::evolution::spec_copy_props(src, dst, props, k, senv, nid).envs.len()
            == dst.envs.len(),
    decreases k,
{
    reveal(crate::evolution::spec_copy_props);
    if 0 < k <= props.len() {
        lemma_copy_props_envs(src, dst, props, k - 1, senv, nid);
        let a = crate::evolution::spec_copy_props(src, dst, props, k - 1, senv, nid);
        lemma_copy_field_envs(src, a, senv, nid, props[k - 1].0);
    }
}

proof fn lemma_copy_all_envs(
    src: HeapModel,
    dst: HeapModel,
    entries: Seq<(Seq<char>, crate::value::ValModel)>,
    k: int,
    nid: nat,
)
    ensures
        crate::evolution::spec_copy_all(src, dst, entries, k, nid).envs.len() == dst.envs.len(),
    decreases k,
{
    reveal(crate::evolution::spec_copy_all);
    if 0 < k <= entries.len() {
        lemma_copy_all_envs(src, dst, entries, k - 1, nid);
        let a = crate::evolution::spec_copy_all(src, dst, entries, k - 1, nid);
        lemma_copy_into_envs(src, a, entries[k - 1].1, src.lists.len());
    }
}

/// One schema-restricted copy allocates exactly one fresh store, and the
/// copied agent points at it.
proof fn lemma_snapshot_one_fresh(
    src: HeapModel,
    dst: HeapModel,
    ind: IndModel,
    program: crate::ast::Program,
)
    ensures
        spec_snapshot_one(src, dst, ind, program).0.envs.len() == dst.envs.len() + 1,
        spec_snapshot_one(src, dst, ind, program).1.env == dst.envs.len(),
{
    reveal(crate::evolution::spec_snapshot_one);
    let nid = dst.envs.len();
    let d1 = dst.push_env();
    lemma_copy_field_envs(src, d1, ind.env, nid, "x"@);
    let d2 = crate::evolution::spec_copy_field(src, d1, ind.env, nid, "x"@);
    lemma_copy_field_envs(src, d2, ind.env, nid, "y"@);
    let d3 = crate::evolution::spec_copy_field(src, d2, ind.env, nid, "y"@);
    let d4 = d3.with_env(
        nid as int,
        crate::value::store_set(
            d3.env_at(nid as int),
            "species"@,
            crate::value::ValModel::Str(ind.species),
        ),
    );
    match crate::ast::spec_lookup_species(program.species_block@, ind.species) {
        Some(def) => {
            lemma_copy_props_envs(
                src,
                d4,
                crate::evolution::prop_views(def.properties@),
                def.properties@.len() as int,
                ind.env,
                nid,
            );
        },
        None => {
            lemma_copy_all_envs(
                src,
                d4,
                src.env_at(ind.env as int),
                src.env_at(ind.env as int).len() as int,
                nid,
            );
        },
    }
}

/// History isolation: a snapshot's agents live in the snapshot's own
/// arena — every copied agent's store index is freshly allocated there,
/// at or past the arena's former end. Snapshots own their arenas, so no
/// write to any world's arena can reach a snapshot's stores.
pub proof fn lemma_snapshot_isolated(
    src: HeapModel,
    dst: HeapModel,
    inds: Seq<IndModel>,
    k: int,
    program: crate::ast::Program,
)
    requires
        0 <= k <= inds.len(),
    ensures
        spec_snapshot_inds(src, dst, inds, k, program).0.envs.len() == dst.envs.len() + k,
        forall|j: int|
            0 <= j < k ==> dst.envs.len() <= (#[trigger] spec_snapshot_inds(
                src,
                dst,
                inds,
                k,
                program,
            ).1[j]).env < spec_snapshot_inds(src, dst, inds, k, program).0.envs.len(),
    decreases k,
{
    reveal(crate::evolution::spec_snapshot_inds);
    if k > 0 {
        lemma_snapshot_isolated(src, dst, inds, k - 1, program);
        let a = spec_snapshot_inds(src, dst, inds, k - 1, program);
        lemma_snapshot_one_fresh(src, a.0, inds[k - 1], program);
        lemma_snapshot_inds_species(src, dst, inds, k - 1, program);
        lemma_snapshot_inds_species(src, dst, inds, k, program);
    }
}

} // verus!
