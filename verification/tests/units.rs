//! Unit tests for the arithmetic, text and random-source building blocks.

use simulanka::ast::Exp;
use simulanka::eval::Machine;
use simulanka::heap::Heap;
use simulanka::math::{div32, isqrt_u128, mod32, wrap_coord};
use simulanka::rng::Rng;
use simulanka::value::{Individual, Value};

#[test]
fn wrapping_is_euclidean() {
    assert_eq!(wrap_coord(-3, 5), 2);
    assert_eq!(wrap_coord(7, 5), 2);
    assert_eq!(wrap_coord(-10, 5), 0);
    assert_eq!(wrap_coord(4, 5), 4);
    assert_eq!(wrap_coord(3, 0), 0);
}

#[test]
fn division_truncates_and_absorbs_zero() {
    assert_eq!(div32(7, 2), 3);
    assert_eq!(div32(-7, 2), -3);
    assert_eq!(div32(7, -2), -3);
    assert_eq!(div32(5, 0), 0);
    assert_eq!(div32(i32::MIN, -1), i32::MIN);
    assert_eq!(mod32(-7, 2), -1);
    assert_eq!(mod32(7, -2), 1);
    assert_eq!(mod32(5, 0), 0);
}

#[test]
fn integer_square_root_is_exact() {
    assert_eq!(isqrt_u128(0), 0);
    assert_eq!(isqrt_u128(1), 1);
    assert_eq!(isqrt_u128(2), 1);
    assert_eq!(isqrt_u128(25), 5);
    assert_eq!(isqrt_u128(26), 5);
    assert_eq!(isqrt_u128(35), 5);
    assert_eq!(isqrt_u128(36), 6);
}

#[test]
fn decimal_rendering_and_parsing() {
    let heap = Heap::empty();
    assert_eq!(Value::Int(0).to_string(&heap), "0");
    assert_eq!(Value::Int(-42).to_string(&heap), "-42");
    assert_eq!(Value::Int(2147483647).to_string(&heap), "2147483647");
    assert_eq!(Value::Int(i32::MIN).to_string(&heap), "-2147483648");
    assert_eq!(Value::Str(String::from("123")).to_int(), 123);
    assert_eq!(Value::Str(String::from("-45")).to_int(), -45);
    assert_eq!(Value::Str(String::from("+7")).to_int(), 7);
    assert_eq!(Value::Str(String::from("")).to_int(), 0);
    assert_eq!(Value::Str(String::from("12x")).to_int(), 0);
    assert_eq!(Value::Str(String::from("99999999999")).to_int(), 0);
}

#[test]
fn seeded_draws_stay_in_range_and_repeat() {
    let mut a = Rng::new(99);
    let mut b = Rng::new(99);
    for _ in 0..100 {
        let x = a.gen_range(-5, 7);
        let y = b.gen_range(-5, 7);
        assert_eq!(x, y);
        assert!(-5 <= x && x < 7);
    }
    assert_eq!(a.gen_range(3, 3), 3);
    assert_eq!(a.gen_range(9, 2), 9);
}

fn machine() -> Machine {
    Machine {
        heap: Heap::empty(),
        rng: Rng::new(1),
        width: 10,
        height: 10,
        cache: None,
        draws: Vec::new(),
        output: Vec::new(),
        spawner: Vec::new(),
    }
}

#[test]
fn string_values_coerce_by_parsing() {
    let mut m = machine();
    let agents: Vec<Individual> = Vec::new();
    // "12" + 1 coerces the text through decimal parsing on the fast path.
    let e = Exp::BinaryOp(
        Box::new(Exp::StringLiteral(String::from("12"), 1)),
        String::from("+"),
        Box::new(Exp::Int(1, 1)),
        1,
    );
    assert_eq!(e.eval(&mut m, 0, &agents), 13);
}

#[test]
fn division_by_zero_evaluates_to_zero() {
    let mut m = machine();
    let agents: Vec<Individual> = Vec::new();
    let e = Exp::BinaryOp(
        Box::new(Exp::Int(9, 1)),
        String::from("/"),
        Box::new(Exp::Int(0, 1)),
        1,
    );
    assert_eq!(e.eval(&mut m, 0, &agents), 0);
}

#[test]
fn unknown_builtin_evaluates_to_zero() {
    let mut m = machine();
    let agents: Vec<Individual> = Vec::new();
    let e = Exp::Call(String::from("telepathy"), Vec::new(), 1);
    match e.eval_to_val(&mut m, 0, &agents) {
        Value::Int(v) => assert_eq!(v, 0),
        _ => panic!("expected a number"),
    }
}

#[test]
fn draw_calls_append_to_buffer_with_defaults() {
    let mut m = machine();
    let agents: Vec<Individual> = Vec::new();
    let e = Exp::Call(
        String::from("draw_rect"),
        vec![Exp::Int(1, 1), Exp::Int(2, 1), Exp::Int(3, 1), Exp::Int(4, 1)],
        1,
    );
    let _ = e.eval_to_val(&mut m, 0, &agents);
    assert_eq!(m.draws.len(), 1);
    match &m.draws[0] {
        simulanka::eval::DrawCmd::Rect { x, y, w, h, r, g, b } => {
            assert_eq!((*x, *y, *w, *h), (1, 2, 3, 4));
            assert_eq!((*r, *g, *b), (255, 255, 255));
        }
        _ => panic!("expected a rectangle"),
    }
}

#[test]
fn rendering_values_for_print() {
    let mut heap = Heap::empty();
    let items = vec![Value::Int(1), Value::Bool(true), Value::Str(String::from("s"))];
    let id = heap.alloc_list(items);
    assert_eq!(Value::List(id).to_string(&heap), "[1, true, s]");
    assert_eq!(Value::Int(-3).to_string(&heap), "-3");
    assert_eq!(Value::Environment.to_string(&heap), "[Environment]");
    assert_eq!(Value::GridRow(4).to_string(&heap), "[GridRow 4]");
    assert_eq!(Value::Object(0).to_string(&heap), "[Object]");
}

#[test]
fn deep_clone_rewrites_self_and_copies_lists() {
    let mut heap = Heap::empty();
    let env = heap.alloc_env();
    let lst = heap.alloc_list(vec![Value::Int(1), Value::Int(2)]);
    heap.env_set(env, String::from("genes"), Value::List(lst));
    heap.env_set(env, String::from("self"), Value::Object(env));
    heap.env_set(env, String::from("x"), Value::Int(4));
    let ind = Individual { species: String::from("Ant"), env };
    let clone = ind.deep_clone(&mut heap);
    assert_ne!(clone.env, env);
    match heap.env_get(clone.env, &String::from("self")) {
        Some(Value::Object(o)) => assert_eq!(*o, clone.env),
        _ => panic!("self not rewritten"),
    }
    let cloned_list = match heap.env_get(clone.env, &String::from("genes")) {
        Some(Value::List(l)) => *l,
        _ => panic!("list missing"),
    };
    assert_ne!(cloned_list, lst);
    heap.list_push(lst, Value::Int(3));
    assert_eq!(heap.list_len(cloned_list), 2);
    match heap.env_get(clone.env, &String::from("x")) {
        Some(Value::Int(4)) => {}
        _ => panic!("scalar not copied"),
    }
}

#[test]
fn deep_copy_store_duplicates_lists() {
    let mut heap = Heap::empty();
    let lst = heap.alloc_list(vec![Value::Int(1), Value::Int(2)]);
    let mut store = simulanka::value::Environment::new();
    store.insert(String::from("genes"), Value::List(lst));
    store.insert(String::from("x"), Value::Int(7));
    let copy = store.deep_copy_store(&mut heap);
    let copied_list = match copy.get(&String::from("genes")) {
        Some(Value::List(l)) => *l,
        _ => panic!("list missing in copy"),
    };
    assert_ne!(copied_list, lst);
    heap.list_push(lst, Value::Int(3));
    assert_eq!(heap.list_len(copied_list), 2);
    match copy.get(&String::from("x")) {
        Some(Value::Int(7)) => {}
        _ => panic!("scalar not copied"),
    }
}
