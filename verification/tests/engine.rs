//! End-to-end scenarios: programs are lexed, parsed, validated and run
//! through whole generations, and the engine's records are inspected.

use simulanka::ast::Program;
use simulanka::evolution::{create_next_generation, seed_worlds, Simulation};
use simulanka::heap::Heap;
use simulanka::lexer::lexer;
use simulanka::parser::Parser;
use simulanka::semantic::validate_program;
use simulanka::value::Value;

fn parse_ok(src: &str) -> Program {
    let tokens = lexer(src);
    let mut p = Parser::new(tokens);
    match p.parse_program() {
        Ok(prog) => prog,
        Err(e) => panic!("parse failed: {}", e),
    }
}

fn int_field(heap: &Heap, env: usize, key: &str) -> i32 {
    match heap.env_get(env, &String::from(key)) {
        Some(Value::Int(v)) => *v,
        Some(_) => panic!("field {} is not a number", key),
        None => panic!("field {} missing", key),
    }
}

const SMOKE: &str = "ENVIRONMENT {width:5,height:5,steps:1} \
    SPECIES {Ant {x:0, y:0, routine: walk}, ROUTINE walk { self.x = self.x + 1 }} \
    EVOLVE {generations:1, instances:1} FITNESS { return self.x } MUTATE {} \
    SPAWN { spawn Ant at (0,0) }";

fn run_one_generation(src: &str, seed: u64) -> Simulation {
    let program = parse_ok(src);
    if let Err(e) = validate_program(&program) {
        panic!("validation failed: {:?}", e);
    }
    let instances = seed_worlds(&program, program.evolve_block.instances, seed);
    let num_instances = program.evolve_block.instances;
    let num_generations = program.evolve_block.generations;
    let mut sim = Simulation {
        program,
        instances,
        history: Vec::new(),
        num_generations,
        num_instances,
        current_gen: 0,
        global_best_fitness: 0,
    };
    sim.run_generation();
    sim
}

#[test]
fn smoke_single_agent_walks_once() {
    let sim = run_one_generation(SMOKE, 7);
    assert_eq!(sim.history.len(), 1);
    let snap = &sim.history[0];
    assert_eq!(snap.best_fitness, 1);
    assert_eq!(snap.avg_fitness, 1);
    assert_eq!(snap.individuals.len(), 1);
    let env = snap.individuals[0].env;
    assert_eq!(int_field(&snap.heap, env, "x"), 1);
    assert_eq!(int_field(&snap.heap, env, "y"), 0);
}

#[test]
fn toroidal_position_is_stored_unwrapped() {
    let src = "ENVIRONMENT {width:5,height:5,steps:1} \
        SPECIES {Ant {x:0, y:0, routine: walk}, ROUTINE walk { self.x = self.x + 7 }} \
        EVOLVE {generations:1, instances:1} FITNESS { return self.x } MUTATE {} \
        SPAWN { spawn Ant at (0,0) }";
    let sim = run_one_generation(src, 3);
    let snap = &sim.history[0];
    let env = snap.individuals[0].env;
    assert_eq!(int_field(&snap.heap, env, "x"), 7);
}

#[test]
fn grid_lookup_wraps_to_agent() {
    // An agent walks to x = 7 in a world 5 wide; a later routine pass finds
    // itself through the wrapped index environment[7][0].
    let src = "ENVIRONMENT {width:5,height:5,steps:2} \
        SPECIES {Ant {x:0, y:0, seen:0, routine: walk}, \
        ROUTINE walk { \
            if (self == environment[7][0]) { self.seen = self.seen + 1 } \
            self.x = self.x + 7 \
        }} \
        EVOLVE {generations:1, instances:1} FITNESS { return self.seen } MUTATE {} \
        SPAWN { spawn Ant at (0,0) }";
    // After tick one the agent sits at x = 7; during tick two the lookup
    // environment[7][0] wraps to cell (2, 0) and the scan wraps the agent's
    // 7 to 2 as well, so the agent sees itself exactly once.
    let sim = run_one_generation(src, 3);
    let snap = &sim.history[0];
    assert_eq!(snap.best_fitness, 1);
}

#[test]
fn list_semantics_push_then_len() {
    let src = "ENVIRONMENT {width:5,height:5,steps:1} \
        SPECIES {Ant {x:0, y:0, n:0, routine: walk}, \
        ROUTINE walk { l = [] push(l, 1) push(l, 2) self.n = len(l) self.last = pop(l) }} \
        EVOLVE {generations:1, instances:1} FITNESS { return self.n * 10 + self.last } MUTATE {} \
        SPAWN { spawn Ant at (0,0) }";
    let sim = run_one_generation(src, 3);
    let snap = &sim.history[0];
    // len(l) is 2 and pop(l) returns 2.
    assert_eq!(snap.best_fitness, 22);
}

#[test]
fn equality_holds_for_exactly_one_of_two_stacked_agents() {
    let src = "ENVIRONMENT {width:5,height:5,steps:1} \
        SPECIES {Ant {x:1, y:1, win:0, routine: walk}, \
        ROUTINE walk { if (self == environment[self.x][self.y]) { self.win = 1 } }} \
        EVOLVE {generations:1, instances:1} FITNESS { return self.win } MUTATE {} \
        SPAWN { spawn Ant at (1,1) spawn Ant at (1,1) }";
    let sim = run_one_generation(src, 3);
    // The per-tick history holds the frame before the tick; the final
    // snapshot holds both agents after it. Exactly one saw itself.
    let snap = &sim.history[0];
    let mut winners = 0;
    for ind in &snap.individuals {
        if int_field(&snap.heap, ind.env, "win") == 1 {
            winners += 1;
        }
    }
    assert_eq!(winners, 1);
}

#[test]
fn determinism_under_fixed_seed() {
    let a = run_one_generation(SMOKE, 42);
    let b = run_one_generation(SMOKE, 42);
    assert_eq!(a.history[0].best_fitness, b.history[0].best_fitness);
    assert_eq!(a.history[0].avg_fitness, b.history[0].avg_fitness);
    assert_eq!(a.instances.len(), b.instances.len());
    for (wa, wb) in a.instances.iter().zip(b.instances.iter()) {
        assert_eq!(wa.fitness, wb.fitness);
        assert_eq!(wa.individuals.len(), wb.individuals.len());
        for (ia, ib) in wa.individuals.iter().zip(wb.individuals.iter()) {
            assert_eq!(
                int_field(&wa.m.heap, ia.env, "x"),
                int_field(&wb.m.heap, ib.env, "x")
            );
        }
    }
}

#[test]
fn selection_ranks_worlds_and_crosses_late_children() {
    // Four worlds are ranked by fitness 3, 1, 4, 2 into 4, 3, 2, 1; the two
    // elite children copy parents verbatim and the two others get the
    // crossover rule, which brands the child store.
    let src = "ENVIRONMENT {width:9,height:9,steps:1} \
        SPECIES {Ant {x:0, y:0, routine: walk}, ROUTINE walk { self.x = self.x }} \
        EVOLVE {generations:1, instances:4} FITNESS { return self.x } \
        MUTATE { crossover: { child.crossed = 1 } } \
        SPAWN { spawn Ant at (0,0) }";
    let program = parse_ok(src);
    let mut worlds = seed_worlds(&program, 4, 5);
    let scores = [3, 1, 4, 2];
    for (i, w) in worlds.iter_mut().enumerate() {
        w.fitness = scores[i];
    }
    let ranked = simulanka::evolution::rank_worlds(worlds);
    let fits: Vec<i32> = ranked.iter().map(|w| w.fitness).collect();
    assert_eq!(fits, vec![4, 3, 2, 1]);
    let mut ranked = ranked;
    let children = create_next_generation(&mut ranked, &program, 4, 1);
    assert_eq!(children.len(), 4);
    for (i, child) in children.iter().enumerate() {
        let branded = child
            .m
            .heap
            .env_get(child.individuals[0].env, &String::from("crossed"))
            .is_some();
        assert_eq!(branded, i >= 2, "child {} crossover branding", i);
    }
}

#[test]
fn generation_teardown_empties_old_stores() {
    let program = parse_ok(SMOKE);
    let mut worlds = seed_worlds(&program, 2, 11);
    let old_envs: Vec<usize> = worlds
        .iter()
        .flat_map(|w| w.individuals.iter().map(|i| i.env))
        .collect();
    assert!(worlds[0]
        .m
        .heap
        .env_get(worlds[0].individuals[0].env, &String::from("x"))
        .is_some());
    let _children = create_next_generation(&mut worlds, &program, 2, 1);
    for (w, env) in worlds.iter().zip(old_envs.iter()) {
        assert!(w.m.heap.env_get(*env, &String::from("x")).is_none());
        assert!(w.m.heap.env_get(*env, &String::from("species")).is_none());
    }
}

#[test]
fn snapshot_log_is_capped_at_one_hundred() {
    let src = "ENVIRONMENT {width:3,height:3,steps:1} \
        SPECIES {Ant {x:0, y:0, routine: walk}, ROUTINE walk { self.x = self.x + 1 }} \
        EVOLVE {generations:105, instances:1} FITNESS { return self.x } MUTATE {} \
        SPAWN { spawn Ant at (0,0) }";
    let program = parse_ok(src);
    let instances = seed_worlds(&program, 1, 1);
    let mut sim = Simulation {
        program,
        instances,
        history: Vec::new(),
        num_generations: 105,
        num_instances: 1,
        current_gen: 0,
        global_best_fitness: 0,
    };
    for _ in 0..105 {
        sim.run_generation();
    }
    assert_eq!(sim.history.len(), 100);
    assert_eq!(sim.current_gen, 105);
    // The retained snapshots are the most recent: each generation's winner
    // walked one more step than the one before, so the last reads 105.
    assert_eq!(sim.history[99].best_fitness, 105);
    assert_eq!(sim.history[0].best_fitness, 6);
}

#[test]
fn history_isolation_from_live_worlds() {
    let mut sim = run_one_generation(SMOKE, 9);
    let before = sim.history[0].individuals[0].env;
    let x_before = int_field(&sim.history[0].heap, before, "x");
    // Mutate every live store of the new generation.
    for w in sim.instances.iter_mut() {
        for idx in 0..w.individuals.len() {
            let env = w.individuals[idx].env;
            w.m.heap.env_set(env, String::from("x"), Value::Int(999));
        }
    }
    assert_eq!(int_field(&sim.history[0].heap, before, "x"), x_before);
}

#[test]
fn mutation_rule_applies_to_every_agent() {
    let src = "ENVIRONMENT {width:5,height:5,steps:1} \
        SPECIES {Ant {x:0, y:0, routine: walk}, ROUTINE walk { self.x = self.x }} \
        EVOLVE {generations:1, instances:2} FITNESS { return self.x } \
        MUTATE { mutation: { self.x = self.x + 5 } } \
        SPAWN { spawn Ant at (0,0) }";
    let sim = run_one_generation(src, 13);
    // Children of the next generation carry the mutated position.
    for w in &sim.instances {
        for ind in &w.individuals {
            assert_eq!(int_field(&w.m.heap, ind.env, "x"), 5);
        }
    }
}

#[test]
fn print_output_is_buffered_per_world() {
    let src = "ENVIRONMENT {width:5,height:5,steps:1} \
        SPECIES {Ant {x:0, y:0, routine: walk}, \
        ROUTINE walk { print(\"x is\", self.x + 1, [1, 2], true) }} \
        EVOLVE {generations:1, instances:1} FITNESS { return self.x } MUTATE {} \
        SPAWN { spawn Ant at (0,0) }";

    let program = parse_ok(src);
    let mut worlds = seed_worlds(&program, 1, 13);
    worlds[0].step(&program);
    assert_eq!(worlds[0].m.output.len(), 1);
    assert_eq!(worlds[0].m.output[0], "x is 1 [1, 2] true");
}

#[test]
fn snapshot_carries_winner_output() {
    let src = "ENVIRONMENT {width:5,height:5,steps:1} \
        SPECIES {Ant {x:0, y:0, routine: walk}, ROUTINE walk { print(\"tick\", self.x) }} \
        EVOLVE {generations:1, instances:1} FITNESS { return self.x } MUTATE {} \
        SPAWN { spawn Ant at (0,0) }";
    let sim = run_one_generation(src, 21);
    let snap = &sim.history[0];
    assert_eq!(snap.output, vec![String::from("tick 0")]);
}

#[test]
fn visualize_block_emits_draw_commands() {
    let src = "ENVIRONMENT {width:5,height:5,steps:1} \
        SPECIES {Ant {x:0, y:0, routine: walk}, ROUTINE walk { self.x = self.x + 1 }} \
        EVOLVE {generations:1, instances:1} FITNESS { return self.x } MUTATE {} \
        SPAWN { spawn Ant at (0,0) } \
        VISUALIZE { for a in environment { draw_rect(a.x * 10, a.y * 10, 10, 10, 200, 100, 50) } print(width, height) }";
    let mut sim = run_one_generation(src, 21);
    let program = &sim.program;
    let last = sim.history.last_mut().unwrap();
    let idx = last.step_history.len().saturating_sub(1);
    let (draws, lines) = last.execute_visualize_block(program, idx, 0);
    assert_eq!(lines, vec![String::from("5 5")]);
    assert_eq!(draws.len(), 1);
    match &draws[0] {
        simulanka::eval::DrawCmd::Rect { x, y, w, h, r, g, b } => {
            // The final history frame holds the walked agent at x = 1.
            assert_eq!((*x, *y, *w, *h), (10, 0, 10, 10));
            assert_eq!((*r, *g, *b), (200, 100, 50));
        }
        _ => panic!("expected a rectangle"),
    }
}
