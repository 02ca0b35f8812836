//! The evaluator: expressions, boolean expressions and commands are run
//! against a `Machine` — the heap, the random source, the world dimensions,
//! the advisory grid cache, the draw-command buffer, the print output and
//! the spawn buffer — together with the current agent list.
//!
//! Every executable function here mirrors a total specification function;
//! commands are budgeted by a step count so that even a program whose
//! `while` loop never ends leaves the interpreter in finitely many steps.

use vstd::prelude::*;

use crate::ast::{BExp, Command, Exp, Program, SpeciesDef};
use crate::heap::{Heap, HeapModel};
use crate::math::{
    div32, isqrt_u128, lemma_isqrt_bounds, mod32, spec_div32, spec_isqrt, spec_mod32, spec_wrap,
    wrap_coord,
};
use crate::rng::{rng_draw, Rng};
use crate::strings::{spec_render, spec_to_int, render_value};
use crate::value::{
    inds_view, store_get, store_set, IndModel, Individual, ValModel, Value,
};

verus! {

broadcast use vstd::std_specs::vec::axiom_vec_index_decreases;

/// Mathematical model of a draw command.
#[verifier::ext_equal]
pub ghost enum DrawModel {
    Rect { x: int, y: int, w: int, h: int, r: int, g: int, b: int },
    Line { x1: int, y1: int, x2: int, y2: int, r: int, g: int, b: int, thickness: int },
    Circle { x: int, y: int, radius: int, r: int, g: int, b: int },
}

/// A primitive draw operation appended by the visualization built-ins.
/// Coordinates are in world units; the shell maps them to pixels.
pub enum DrawCmd {
    Rect { x: i32, y: i32, w: i32, h: i32, r: u8, g: u8, b: u8 },
    Line { x1: i32, y1: i32, x2: i32, y2: i32, r: u8, g: u8, b: u8, thickness: i32 },
    Circle { x: i32, y: i32, radius: i32, r: u8, g: u8, b: u8 },
}

impl View for DrawCmd {
    type V = DrawModel;

    open spec fn view(&self) -> DrawModel {
        match self {
            DrawCmd::Rect { x, y, w, h, r, g, b } => DrawModel::Rect {
                x: *x as int,
                y: *y as int,
                w: *w as int,
                h: *h as int,
                r: *r as int,
                g: *g as int,
                b: *b as int,
            },
            DrawCmd::Line { x1, y1, x2, y2, r, g, b, thickness } => DrawModel::Line {
                x1: *x1 as int,
                y1: *y1 as int,
                x2: *x2 as int,
                y2: *y2 as int,
                r: *r as int,
                g: *g as int,
                b: *b as int,
                thickness: *thickness as int,
            },
            DrawCmd::Circle { x, y, radius, r, g, b } => DrawModel::Circle {
                x: *x as int,
                y: *y as int,
                radius: *radius as int,
                r: *r as int,
                g: *g as int,
                b: *b as int,
            },
        }
    }
}

/// The model of the grid cache: cell/store-index triples, first match
/// winning on lookup.
pub type CacheModel = Seq<(int, int, nat)>;

/// The first store index cached for cell `(x, y)`, if any.
pub open spec fn cache_lookup(c: CacheModel, x: int, y: int) -> Option<nat>
    decreases c.len(),
{
    if c.len() == 0 {
        None
    } else if c[0].0 == x && c[0].1 == y {
        Some(c[0].2)
    } else {
        cache_lookup(c.drop_first(), x, y)
    }
}

/// The cache with cell `(x, y)` mapped to `id`: the first entry for the
/// cell is replaced in place, or a new entry is appended.
pub open spec fn cache_store(c: CacheModel, x: int, y: int, id: nat) -> CacheModel
    decreases c.len(),
{
    if c.len() == 0 {
        seq![(x, y, id)]
    } else if c[0].0 == x && c[0].1 == y {
        seq![(x, y, id)] + c.drop_first()
    } else {
        seq![c[0]] + cache_store(c.drop_first(), x, y, id)
    }
}

/// The advisory cell-to-agent cache built once per pass. It speeds
/// position lookups up; the linear scan over the agent list stays
/// authoritative on a miss.
pub struct GridCache {
    pub entries: Vec<(i32, i32, usize)>,
}

impl View for GridCache {
    type V = CacheModel;

    open spec fn view(&self) -> CacheModel {
        self.entries@.map_values(|e: (i32, i32, usize)| (e.0 as int, e.1 as int, e.2 as nat))
    }
}

proof fn lemma_cache_lookup_skip(c: CacheModel, x: int, y: int, i: int)
    requires
        0 <= i <= c.len(),
        forall|j: int| 0 <= j < i ==> !((#[trigger] c[j]).0 == x && c[j].1 == y),
    ensures
        cache_lookup(c, x, y) == cache_lookup(c.skip(i), x, y),
    decreases i,
{
    if i > 0 {
        assert(c.drop_first().skip(i - 1) =~= c.skip(i));
        lemma_cache_lookup_skip(c.drop_first(), x, y, i - 1);
    } else {
        assert(c.skip(0) =~= c);
    }
}

proof fn lemma_cache_store_update(c: CacheModel, x: int, y: int, id: nat, i: int)
    requires
        0 <= i < c.len(),
        c[i].0 == x && c[i].1 == y,
        forall|j: int| 0 <= j < i ==> !((#[trigger] c[j]).0 == x && c[j].1 == y),
    ensures
        cache_store(c, x, y, id) =~= c.update(i, (x, y, id)),
    decreases i,
{
    if i == 0 {
        assert(cache_store(c, x, y, id) =~= c.update(0, (x, y, id)));
    } else {
        lemma_cache_store_update(c.drop_first(), x, y, id, i - 1);
        assert(seq![c[0]] + c.drop_first().update(i - 1, (x, y, id)) =~= c.update(i, (x, y, id)));
    }
}

proof fn lemma_cache_store_push(c: CacheModel, x: int, y: int, id: nat)
    requires
        forall|j: int| 0 <= j < c.len() ==> !((#[trigger] c[j]).0 == x && c[j].1 == y),
    ensures
        cache_store(c, x, y, id) =~= c.push((x, y, id)),
    decreases c.len(),
{
    if c.len() > 0 {
        lemma_cache_store_push(c.drop_first(), x, y, id);
        assert(seq![c[0]] + c.drop_first().push((x, y, id)) =~= c.push((x, y, id)));
    }
}

impl GridCache {
    /// An empty cache.
    pub fn new() -> (r: GridCache)
        ensures
            r@ == Seq::<(int, int, nat)>::empty(),
    {
        let r = GridCache { entries: Vec::new() };
        proof {
            assert(r@ =~= Seq::<(int, int, nat)>::empty());
        }
        r
    }

    /// The cached store index for cell `(x, y)`, if any.
    pub fn get(&self, x: i32, y: i32) -> (r: Option<usize>)
        ensures
            match r {
                Some(id) => cache_lookup(self@, x as int, y as int) == Some(id as nat),
                None => cache_lookup(self@, x as int, y as int) is None,
            },
    {
        let n = self.entries.len();
        let mut i: usize = 0;
        while i < n
            invariant
                n == self.entries.len(),
                i <= n,
                forall|j: int|
                    0 <= j < i ==> !((#[trigger] self@[j]).0 == x as int && self@[j].1 == y as int),
            decreases n - i,
        {
            if self.entries[i].0 == x && self.entries[i].1 == y {
                proof {
                    lemma_cache_lookup_skip(self@, x as int, y as int, i as int);
                    assert(self@.skip(i as int)[0] == self@[i as int]);
                }
                return Some(self.entries[i].2);
            }
            i += 1;
        }
        proof {
            lemma_cache_lookup_skip(self@, x as int, y as int, n as int);
            assert(self@.skip(n as int).len() == 0);
        }
        None
    }

    /// Maps cell `(x, y)` to `id`; a later insert for the same cell wins.
    pub fn insert(&mut self, x: i32, y: i32, id: usize)
        ensures
            final(self)@ == cache_store(old(self)@, x as int, y as int, id as nat),
    {
        let n = self.entries.len();
        let mut i: usize = 0;
        while i < n
            invariant
                n == self.entries.len(),
                self.entries == old(self).entries,
                i <= n,
                forall|j: int|
                    0 <= j < i ==> !((#[trigger] self@[j]).0 == x as int && self@[j].1 == y as int),
            decreases n - i,
        {
            if self.entries[i].0 == x && self.entries[i].1 == y {
                proof {
                    lemma_cache_store_update(self@, x as int, y as int, id as nat, i as int);
                }
                let ghost before = self@;
                self.entries[i] = (x, y, id);
                assert(self@ =~= before.update(i as int, (x as int, y as int, id as nat)));
                return;
            }
            i += 1;
        }
        proof {
            lemma_cache_store_push(self@, x as int, y as int, id as nat);
        }
        let ghost before = self@;
        self.entries.push((x, y, id));
        assert(self@ =~= before.push((x as int, y as int, id as nat)));
    }
}

/// Mathematical model of the machine an evaluation runs against.
#[verifier::ext_equal]
pub ghost struct MachineModel {
    pub heap: HeapModel,
    pub rng: u64,
    pub width: int,
    pub height: int,
    pub cache: Option<CacheModel>,
    pub draws: Seq<DrawModel>,
    pub output: Seq<Seq<char>>,
    pub spawner: Seq<IndModel>,
}

/// Everything an evaluation reads and writes besides the agent list: the
/// heap, the random source, the world dimensions, the grid cache, the draw
/// buffer, the printed lines, and the buffer of agents spawned this tick.
pub struct Machine {
    pub heap: Heap,
    pub rng: Rng,
    pub width: i32,
    pub height: i32,
    pub cache: Option<GridCache>,
    pub draws: Vec<DrawCmd>,
    pub output: Vec<String>,
    pub spawner: Vec<Individual>,
}

impl View for Machine {
    type V = MachineModel;

    open spec fn view(&self) -> MachineModel {
        MachineModel {
            heap: self.heap@,
            rng: self.rng.state,
            width: self.width as int,
            height: self.height as int,
            cache: match self.cache {
                Some(c) => Some(c@),
                None => None,
            },
            draws: self.draws@.map_values(|d: DrawCmd| d@),
            output: self.output@.map_values(|s: String| s@),
            spawner: inds_view(self.spawner@),
        }
    }
}

impl Machine {
    /// A machine over the given heap and random source, with the given
    /// world dimensions and no transient state.
    pub fn new(heap: Heap, rng: Rng, width: i32, height: i32) -> (r: Machine)
        ensures
            r@.heap == heap@,
            r@.rng == rng.state,
            r@.width == width as int,
            r@.height == height as int,
            r@.cache is None,
            r@.draws == Seq::<DrawModel>::empty(),
            r@.output == Seq::<Seq<char>>::empty(),
            r@.spawner == Seq::<IndModel>::empty(),
    {
        let r = Machine {
            heap,
            rng,
            width,
            height,
            cache: None,
            draws: Vec::new(),
            output: Vec::new(),
            spawner: Vec::new(),
        };
        proof {
            assert(r@.draws =~= Seq::<DrawModel>::empty());
            assert(r@.output =~= Seq::<Seq<char>>::empty());
            assert(r@.spawner =~= Seq::<IndModel>::empty());
        }
        r
    }
}

/// The integer bound to `key` in store `env`, with a missing key read as 0.
pub open spec fn spec_agent_coord(h: HeapModel, env: nat, key: Seq<char>) -> int {
    match store_get(h.env_at(env as int), key) {
        Some(v) => spec_to_int(v),
        None => 0,
    }
}

/// Reads the integer bound to `key` in store `env`; 0 when absent.
pub fn agent_coord(heap: &Heap, env: usize, key: &String) -> (r: i32)
    ensures
        r as int == spec_agent_coord(heap@, env as nat, key@),
{
    match heap.env_get(env, key) {
        Some(v) => v.to_int(),
        None => 0,
    }
}

/// The store index of the first agent whose wrapped position is
/// `(wx, wy)`, if any.
pub open spec fn spec_find_wrapped(
    h: HeapModel,
    agents: Seq<IndModel>,
    wx: int,
    wy: int,
    w: int,
    ht: int,
    xk: Seq<char>,
    yk: Seq<char>,
) -> Option<nat>
    decreases agents.len(),
{
    if agents.len() == 0 {
        None
    } else if spec_wrap(spec_agent_coord(h, agents[0].env, xk), w) == wx && spec_wrap(
        spec_agent_coord(h, agents[0].env, yk),
        ht,
    ) == wy {
        Some(agents[0].env)
    } else {
        spec_find_wrapped(h, agents.drop_first(), wx, wy, w, ht, xk, yk)
    }
}

/// The store index of the first agent at exactly `(x, y)`, if any.
pub open spec fn spec_find_exact(
    h: HeapModel,
    agents: Seq<IndModel>,
    x: int,
    y: int,
    xk: Seq<char>,
    yk: Seq<char>,
) -> Option<nat>
    decreases agents.len(),
{
    if agents.len() == 0 {
        None
    } else if spec_agent_coord(h, agents[0].env, xk) == x && spec_agent_coord(
        h,
        agents[0].env,
        yk,
    ) == y {
        Some(agents[0].env)
    } else {
        spec_find_exact(h, agents.drop_first(), x, y, xk, yk)
    }
}

proof fn lemma_find_wrapped_skip(
    h: HeapModel,
    agents: Seq<IndModel>,
    wx: int,
    wy: int,
    w: int,
    ht: int,
    xk: Seq<char>,
    yk: Seq<char>,
    i: int,
)
    requires
        0 <= i <= agents.len(),
        forall|j: int|
            0 <= j < i ==> !(spec_wrap(
                spec_agent_coord(h, (#[trigger] agents[j]).env, xk),
                w,
            ) == wx && spec_wrap(spec_agent_coord(h, agents[j].env, yk), ht) == wy),
    ensures
        spec_find_wrapped(h, agents, wx, wy, w, ht, xk, yk) == spec_find_wrapped(
            h,
            agents.skip(i),
            wx,
            wy,
            w,
            ht,
            xk,
            yk,
        ),
    decreases i,
{
    if i > 0 {
        assert(agents.drop_first().skip(i - 1) =~= agents.skip(i));
        lemma_find_wrapped_skip(h, agents.drop_first(), wx, wy, w, ht, xk, yk, i - 1);
    } else {
        assert(agents.skip(0) =~= agents);
    }
}

proof fn lemma_find_exact_skip(
    h: HeapModel,
    agents: Seq<IndModel>,
    x: int,
    y: int,
    xk: Seq<char>,
    yk: Seq<char>,
    i: int,
)
    requires
        0 <= i <= agents.len(),
        forall|j: int|
            0 <= j < i ==> !(spec_agent_coord(h, (#[trigger] agents[j]).env, xk) == x
                && spec_agent_coord(h, agents[j].env, yk) == y),
    ensures
        spec_find_exact(h, agents, x, y, xk, yk) == spec_find_exact(
            h,
            agents.skip(i),
            x,
            y,
            xk,
            yk,
        ),
    decreases i,
{
    if i > 0 {
        assert(agents.drop_first().skip(i - 1) =~= agents.skip(i));
        lemma_find_exact_skip(h, agents.drop_first(), x, y, xk, yk, i - 1);
    } else {
        assert(agents.skip(0) =~= agents);
    }
}

/// Scans the agent list for the first agent whose wrapped position matches.
fn find_wrapped(
    heap: &Heap,
    agents: &Vec<Individual>,
    wx: i32,
    wy: i32,
    w: i32,
    ht: i32,
) -> (r: Option<usize>)
    ensures
        match r {
            Some(id) => spec_find_wrapped(
                heap@,
                inds_view(agents@),
                wx as int,
                wy as int,
                w as int,
                ht as int,
                "x"@,
                "y"@,
            ) == Some(id as nat),
            None => spec_find_wrapped(
                heap@,
                inds_view(agents@),
                wx as int,
                wy as int,
                w as int,
                ht as int,
                "x"@,
                "y"@,
            ) is None,
        },
{
    let xk = String::from_str("x");
    let yk = String::from_str("y");
    let ghost av = inds_view(agents@);
    let n = agents.len();
    let mut i: usize = 0;
    while i < n
        invariant
            n == agents.len(),
            av == inds_view(agents@),
            xk@ == "x"@,
            yk@ == "y"@,
            i <= n,
            forall|j: int|
                0 <= j < i ==> !(spec_wrap(
                    spec_agent_coord(heap@, (#[trigger] av[j]).env, "x"@),
                    w as int,
                ) == wx as int && spec_wrap(
                    spec_agent_coord(heap@, av[j].env, "y"@),
                    ht as int,
                ) == wy as int),
        decreases n - i,
    {
        let ax = agent_coord(heap, agents[i].env, &xk);
        let ay = agent_coord(heap, agents[i].env, &yk);
        if wrap_coord(ax, w) == wx && wrap_coord(ay, ht) == wy {
            proof {
                lemma_find_wrapped_skip(
                    heap@,
                    av,
                    wx as int,
                    wy as int,
                    w as int,
                    ht as int,
                    "x"@,
                    "y"@,
                    i as int,
                );
                assert(av.skip(i as int)[0] == av[i as int]);
            }
            return Some(agents[i].env);
        }
        i += 1;
    }
    proof {
        lemma_find_wrapped_skip(
            heap@,
            av,
            wx as int,
            wy as int,
            w as int,
            ht as int,
            "x"@,
            "y"@,
            n as int,
        );
        assert(av.skip(n as int).len() == 0);
    }
    None
}

/// Scans the agent list for the first agent at exactly `(x, y)`.
fn find_exact(heap: &Heap, agents: &Vec<Individual>, x: i32, y: i32) -> (r: Option<usize>)
    ensures
        match r {
            Some(id) => spec_find_exact(
                heap@,
                inds_view(agents@),
                x as int,
                y as int,
                "x"@,
                "y"@,
            ) == Some(id as nat),
            None => spec_find_exact(
                heap@,
                inds_view(agents@),
                x as int,
                y as int,
                "x"@,
                "y"@,
            ) is None,
        },
{
    let xk = String::from_str("x");
    let yk = String::from_str("y");
    let ghost av = inds_view(agents@);
    let n = agents.len();
    let mut i: usize = 0;
    while i < n
        invariant
            n == agents.len(),
            av == inds_view(agents@),
            xk@ == "x"@,
            yk@ == "y"@,
            i <= n,
            forall|j: int|
                0 <= j < i ==> !(spec_agent_coord(heap@, (#[trigger] av[j]).env, "x"@) == x as int
                    && spec_agent_coord(heap@, av[j].env, "y"@) == y as int),
        decreases n - i,
    {
        let ax = agent_coord(heap, agents[i].env, &xk);
        let ay = agent_coord(heap, agents[i].env, &yk);
        if ax == x && ay == y {
            proof {
                lemma_find_exact_skip(heap@, av, x as int, y as int, "x"@, "y"@, i as int);
                assert(av.skip(i as int)[0] == av[i as int]);
            }
            return Some(agents[i].env);
        }
        i += 1;
    }
    proof {
        lemma_find_exact_skip(heap@, av, x as int, y as int, "x"@, "y"@, n as int);
        assert(av.skip(n as int).len() == 0);
    }
    None
}


/// The saturation of a length into a 32-bit count.
pub open spec fn len_to_i32(n: nat) -> int {
    if n > i32::MAX {
        i32::MAX as int
    } else {
        n as int
    }
}

/// A byte colour component: the argument reduced modulo 256.
pub open spec fn to_u8(x: int) -> int {
    spec_wrap(x, 256)
}

/// The result of a binary arithmetic operator: 32-bit wrapping `+`, `-`,
/// `*`, truncating `/` and `%` with a zero divisor yielding 0, and 0 for an
/// unknown operator.
pub open spec fn spec_binop(op: Seq<char>, l: int, r: int) -> int {
    if op.len() != 1 {
        0
    } else if op[0] == '+' {
        vstd::wrapping::i32_specs::wrapping_add(l as i32, r as i32) as int
    } else if op[0] == '-' {
        vstd::wrapping::i32_specs::wrapping_sub(l as i32, r as i32) as int
    } else if op[0] == '*' {
        vstd::wrapping::i32_specs::wrapping_mul(l as i32, r as i32) as int
    } else if op[0] == '/' {
        spec_div32(l, r)
    } else if op[0] == '%' {
        spec_mod32(l, r)
    } else {
        0
    }
}

/// Variable lookup on the integer path: the current store first, then the
/// store `self` points at, then 0.
pub open spec fn spec_var_int(h: HeapModel, env: nat, name: Seq<char>) -> int {
    match store_get(h.env_at(env as int), name) {
        Some(v) => spec_to_int(v),
        None => match store_get(h.env_at(env as int), "self"@) {
            Some(ValModel::Object(se)) => match store_get(h.env_at(se as int), name) {
                Some(v) => spec_to_int(v),
                None => 0,
            },
            _ => 0,
        },
    }
}

/// Variable lookup on the value path: the current store, then the
/// `environment` sentinel for that name, then `Int(0)`. Unlike the integer
/// path there is no fall-back to `self`.
pub open spec fn spec_var_val(h: HeapModel, env: nat, name: Seq<char>) -> ValModel {
    match store_get(h.env_at(env as int), name) {
        Some(v) => v,
        None => if name == "environment"@ {
            ValModel::Environment
        } else {
            ValModel::Int(0)
        },
    }
}

/// Equality of two values: numbers, texts and truth values by content,
/// objects by store identity, every mixed pair unequal.
pub open spec fn val_eq(a: ValModel, b: ValModel) -> bool {
    match (a, b) {
        (ValModel::Int(x), ValModel::Int(y)) => x == y,
        (ValModel::Str(x), ValModel::Str(y)) => x == y,
        (ValModel::Bool(x), ValModel::Bool(y)) => x == y,
        (ValModel::Object(x), ValModel::Object(y)) => x == y,
        _ => false,
    }
}

/// Compares two values as `==` of the language does.
pub fn values_are_equal(a: &Value, b: &Value) -> (r: bool)
    ensures
        r == val_eq(a@, b@),
{
    match (a, b) {
        (Value::Int(x), Value::Int(y)) => x == y,
        (Value::Str(x), Value::Str(y)) => x.eq(y),
        (Value::Bool(x), Value::Bool(y)) => x == y,
        (Value::Object(x), Value::Object(y)) => x == y,
        _ => false,
    }
}

/// The integer evaluation of an expression: the machine after the side
/// effects, and the value coerced to a 32-bit integer.
pub open spec fn spec_eval_int(
    m: MachineModel,
    e: Exp,
    env: nat,
    agents: Seq<IndModel>,
) -> (MachineModel, int)
    decreases e, 0nat, 0nat,
{
    match e {
        Exp::Int(v, _) => (m, v as int),
        Exp::Bool(b, _) => (
            m,
            if b {
                1int
            } else {
                0int
            },
        ),
        Exp::StringLiteral(s, _) => (m, crate::strings::spec_parse_i32(s@)),
        Exp::Var(name, _) => (m, spec_var_int(m.heap, env, name@)),
        Exp::Dot(obj, field, _) => {
            let a = spec_eval_val(m, *obj, env, agents);
            match a.1 {
                ValModel::Object(id) => (
                    a.0,
                    match store_get(a.0.heap.env_at(id as int), field@) {
                        Some(v) => spec_to_int(v),
                        None => 0,
                    },
                ),
                _ => (a.0, 0),
            }
        },
        Exp::BinaryOp(l, op, r, _) => {
            let a = spec_eval_int(m, *l, env, agents);
            let b = spec_eval_int(a.0, *r, env, agents);
            (b.0, spec_binop(op@, a.1, b.1))
        },
        Exp::Call(name, args, _) => if name@ == "random"@ && args.len() == 2 {
            let a = spec_eval_int(m, args[0], env, agents);
            let b = spec_eval_int(a.0, args[1], env, agents);
            let d = rng_draw(b.0.rng, a.1, b.1);
            (MachineModel { rng: d.0, ..b.0 }, d.1)
        } else {
            let r = spec_builtin(m, name@, args, env, agents);
            (r.0, spec_to_int(r.1))
        },
        Exp::Index(lst, idx, _) => {
            let a = spec_eval_val(m, *lst, env, agents);
            let b = spec_eval_int(a.0, *idx, env, agents);
            match a.1 {
                ValModel::List(id) => if 0 <= b.1 < b.0.heap.list_at(id as int).len() {
                    (b.0, spec_to_int(b.0.heap.list_at(id as int)[b.1]))
                } else {
                    (b.0, 0)
                },
                _ => (b.0, 0),
            }
        },
        Exp::List(_, _) => (m, 0),
    }
}

/// The value evaluation of an expression: the machine after the side
/// effects, and the resulting value.
pub open spec fn spec_eval_val(
    m: MachineModel,
    e: Exp,
    env: nat,
    agents: Seq<IndModel>,
) -> (MachineModel, ValModel)
    decreases e, 1nat, 0nat,
{
    match e {
        Exp::Int(v, _) => (m, ValModel::Int(v as int)),
        Exp::Bool(b, _) => (m, ValModel::Bool(b)),
        Exp::StringLiteral(s, _) => (m, ValModel::Str(s@)),
        Exp::Var(name, _) => (m, spec_var_val(m.heap, env, name@)),
        Exp::Dot(obj, field, _) => {
            let a = spec_eval_val(m, *obj, env, agents);
            match a.1 {
                ValModel::Object(id) => (
                    a.0,
                    match store_get(a.0.heap.env_at(id as int), field@) {
                        Some(v) => v,
                        None => ValModel::Int(0),
                    },
                ),
                _ => (a.0, ValModel::Int(0)),
            }
        },
        Exp::List(items, _) => {
            let a = spec_eval_items(m, items, items.len() as int, env, agents);
            (
                MachineModel { heap: a.0.heap.push_list(a.1), ..a.0 },
                ValModel::List(a.0.heap.lists.len()),
            )
        },
        Exp::Index(lst, idx, _) => {
            let a = spec_eval_val(m, *lst, env, agents);
            let b = spec_eval_int(a.0, *idx, env, agents);
            match a.1 {
                ValModel::List(id) => if 0 <= b.1 < b.0.heap.list_at(id as int).len() {
                    (b.0, b.0.heap.list_at(id as int)[b.1])
                } else {
                    (b.0, ValModel::Int(0))
                },
                ValModel::Environment => (b.0, ValModel::GridRow(b.1)),
                ValModel::GridRow(x) => {
                    let wx = spec_wrap(x, b.0.width);
                    let wy = spec_wrap(b.1, b.0.height);
                    let cached = match b.0.cache {
                        Some(c) => cache_lookup(c, wx, wy),
                        None => None,
                    };
                    match cached {
                        Some(id) => (b.0, ValModel::Object(id)),
                        None => match spec_find_wrapped(
                            b.0.heap,
                            agents,
                            wx,
                            wy,
                            b.0.width,
                            b.0.height,
                            "x"@,
                            "y"@,
                        ) {
                            Some(id) => (b.0, ValModel::Object(id)),
                            None => (b.0, ValModel::Int(0)),
                        },
                    }
                },
                _ => (b.0, ValModel::Int(0)),
            }
        },
        Exp::Call(name, args, _) => spec_builtin(m, name@, args, env, agents),
        Exp::BinaryOp(_, _, _, _) => {
            let a = spec_eval_int(m, e, env, agents);
            (a.0, ValModel::Int(a.1))
        },
    }
}

/// The values of the first `k` elements of a list literal, left to right.
pub open spec fn spec_eval_items(
    m: MachineModel,
    items: Vec<Exp>,
    k: int,
    env: nat,
    agents: Seq<IndModel>,
) -> (MachineModel, Seq<ValModel>)
    decreases items, 2nat, k,
{
    if k <= 0 || items.len() < k {
        (m, Seq::empty())
    } else {
        let a = spec_eval_items(m, items, k - 1, env, agents);
        let b = spec_eval_val(a.0, items[k - 1], env, agents);
        (b.0, a.1.push(b.1))
    }
}

/// One built-in call: `len`, `push`, `pop`, `get_at`, `dist`, the three
/// draw primitives, and `random`; any other name evaluates to `Int(0)`.
pub open spec fn spec_builtin(
    m: MachineModel,
    name: Seq<char>,
    args: Vec<Exp>,
    env: nat,
    agents: Seq<IndModel>,
) -> (MachineModel, ValModel)
    decreases args, 2nat, 0nat,
{
    if name == "len"@ {
        if args.len() >= 1 {
            let a = spec_eval_val(m, args[0], env, agents);
            match a.1 {
                ValModel::List(id) => (a.0, ValModel::Int(len_to_i32(a.0.heap.list_at(id as int).len()))),
                _ => (a.0, ValModel::Int(0)),
            }
        } else {
            (m, ValModel::Int(0))
        }
    } else if name == "push"@ {
        if args.len() >= 2 {
            let a = spec_eval_val(m, args[0], env, agents);
            match a.1 {
                ValModel::List(id) => {
                    let b = spec_eval_val(a.0, args[1], env, agents);
                    (
                        MachineModel {
                            heap: b.0.heap.with_list(
                                id as int,
                                b.0.heap.list_at(id as int).push(b.1),
                            ),
                            ..b.0
                        },
                        ValModel::Int(0),
                    )
                },
                _ => (a.0, ValModel::Int(0)),
            }
        } else {
            (m, ValModel::Int(0))
        }
    } else if name == "pop"@ {
        if args.len() >= 1 {
            let a = spec_eval_val(m, args[0], env, agents);
            match a.1 {
                ValModel::List(id) => {
                    let l = a.0.heap.list_at(id as int);
                    if l.len() > 0 {
                        (
                            MachineModel {
                                heap: a.0.heap.with_list(id as int, l.drop_last()),
                                ..a.0
                            },
                            l.last(),
                        )
                    } else {
                        (a.0, ValModel::Int(0))
                    }
                },
                _ => (a.0, ValModel::Int(0)),
            }
        } else {
            (m, ValModel::Int(0))
        }
    } else if name == "get_at"@ {
        if args.len() >= 2 {
            let a = spec_eval_int(m, args[0], env, agents);
            let b = spec_eval_int(a.0, args[1], env, agents);
            let cached = match b.0.cache {
                Some(c) => cache_lookup(c, a.1, b.1),
                None => None,
            };
            match cached {
                Some(id) => (b.0, ValModel::Object(id)),
                None => match spec_find_exact(b.0.heap, agents, a.1, b.1, "x"@, "y"@) {
                    Some(id) => (b.0, ValModel::Object(id)),
                    None => (b.0, ValModel::Int(0)),
                },
            }
        } else {
            (m, ValModel::Int(0))
        }
    } else if name == "dist"@ {
        if args.len() >= 2 {
            let a = spec_eval_val(m, args[0], env, agents);
            let b = spec_eval_val(a.0, args[1], env, agents);
            match (a.1, b.1) {
                (ValModel::Object(o1), ValModel::Object(o2)) => {
                    let x1 = spec_agent_coord(b.0.heap, o1, "x"@);
                    let y1 = spec_agent_coord(b.0.heap, o1, "y"@);
                    let x2 = spec_agent_coord(b.0.heap, o2, "x"@);
                    let y2 = spec_agent_coord(b.0.heap, o2, "y"@);
                    let dx = x1 - x2;
                    let dy = y1 - y2;
                    let d = spec_isqrt(dx * dx + dy * dy);
                    (
                        b.0,
                        ValModel::Int(
                            if d > i32::MAX {
                                i32::MAX as int
                            } else {
                                d
                            },
                        ),
                    )
                },
                _ => (b.0, ValModel::Int(0)),
            }
        } else {
            (m, ValModel::Int(0))
        }
    } else if name == "draw_rect"@ {
        if args.len() >= 4 {
            let a0 = spec_eval_int(m, args[0], env, agents);
            let a1 = spec_eval_int(a0.0, args[1], env, agents);
            let a2 = spec_eval_int(a1.0, args[2], env, agents);
            let a3 = spec_eval_int(a2.0, args[3], env, agents);
            let cr = if args.len() > 4 {
                let t = spec_eval_int(a3.0, args[4], env, agents);
                (t.0, to_u8(t.1))
            } else {
                (a3.0, 255int)
            };
            let cg = if args.len() > 5 {
                let t = spec_eval_int(cr.0, args[5], env, agents);
                (t.0, to_u8(t.1))
            } else {
                (cr.0, 255int)
            };
            let cb = if args.len() > 6 {
                let t = spec_eval_int(cg.0, args[6], env, agents);
                (t.0, to_u8(t.1))
            } else {
                (cg.0, 255int)
            };
            let d = DrawModel::Rect {
                x: a0.1,
                y: a1.1,
                w: a2.1,
                h: a3.1,
                r: cr.1,
                g: cg.1,
                b: cb.1,
            };
            (MachineModel { draws: cb.0.draws.push(d), ..cb.0 }, ValModel::Int(0))
        } else {
            (m, ValModel::Int(0))
        }
    } else if name == "draw_line"@ {
        if args.len() >= 4 {
            let a0 = spec_eval_int(m, args[0], env, agents);
            let a1 = spec_eval_int(a0.0, args[1], env, agents);
            let a2 = spec_eval_int(a1.0, args[2], env, agents);
            let a3 = spec_eval_int(a2.0, args[3], env, agents);
            let cr = if args.len() > 4 {
                let t = spec_eval_int(a3.0, args[4], env, agents);
                (t.0, to_u8(t.1))
            } else {
                (a3.0, 255int)
            };
            let cg = if args.len() > 5 {
                let t = spec_eval_int(cr.0, args[5], env, agents);
                (t.0, to_u8(t.1))
            } else {
                (cr.0, 255int)
            };
            let cb = if args.len() > 6 {
                let t = spec_eval_int(cg.0, args[6], env, agents);
                (t.0, to_u8(t.1))
            } else {
                (cg.0, 255int)
            };
            let th = if args.len() > 7 {
                spec_eval_int(cb.0, args[7], env, agents)
            } else {
                (cb.0, 1int)
            };
            let d = DrawModel::Line {
                x1: a0.1,
                y1: a1.1,
                x2: a2.1,
                y2: a3.1,
                r: cr.1,
                g: cg.1,
                b: cb.1,
                thickness: th.1,
            };
            (MachineModel { draws: th.0.draws.push(d), ..th.0 }, ValModel::Int(0))
        } else {
            (m, ValModel::Int(0))
        }
    } else if name == "draw_circle"@ {
        if args.len() >= 3 {
            let a0 = spec_eval_int(m, args[0], env, agents);
            let a1 = spec_eval_int(a0.0, args[1], env, agents);
            let a2 = spec_eval_int(a1.0, args[2], env, agents);
            let cr = if args.len() > 3 {
                let t = spec_eval_int(a2.0, args[3], env, agents);
                (t.0, to_u8(t.1))
            } else {
                (a2.0, 255int)
            };
            let cg = if args.len() > 4 {
                let t = spec_eval_int(cr.0, args[4], env, agents);
                (t.0, to_u8(t.1))
            } else {
                (cr.0, 255int)
            };
            let cb = if args.len() > 5 {
                let t = spec_eval_int(cg.0, args[5], env, agents);
                (t.0, to_u8(t.1))
            } else {
                (cg.0, 255int)
            };
            let d = DrawModel::Circle {
                x: a0.1,
                y: a1.1,
                radius: a2.1,
                r: cr.1,
                g: cg.1,
                b: cb.1,
            };
            (MachineModel { draws: cb.0.draws.push(d), ..cb.0 }, ValModel::Int(0))
        } else {
            (m, ValModel::Int(0))
        }
    } else if name == "random"@ && args.len() == 2 {
        let a = spec_eval_int(m, args[0], env, agents);
        let b = spec_eval_int(a.0, args[1], env, agents);
        let d = rng_draw(b.0.rng, a.1, b.1);
        (MachineModel { rng: d.0, ..b.0 }, ValModel::Int(d.1))
    } else {
        (m, ValModel::Int(0))
    }
}

/// The evaluation of a boolean expression, with `&&` and `||`
/// short-circuiting.
pub open spec fn spec_eval_bexp(
    m: MachineModel,
    be: BExp,
    env: nat,
    agents: Seq<IndModel>,
) -> (MachineModel, bool)
    decreases be, 0nat, 0nat,
{
    match be {
        BExp::And(l, r) => {
            let a = spec_eval_bexp(m, *l, env, agents);
            if !a.1 {
                (a.0, false)
            } else {
                spec_eval_bexp(a.0, *r, env, agents)
            }
        },
        BExp::Or(l, r) => {
            let a = spec_eval_bexp(m, *l, env, agents);
            if a.1 {
                (a.0, true)
            } else {
                spec_eval_bexp(a.0, *r, env, agents)
            }
        },
        BExp::Equal(l, r) => {
            let a = spec_eval_val(m, l, env, agents);
            let b = spec_eval_val(a.0, r, env, agents);
            (b.0, val_eq(a.1, b.1))
        },
        BExp::NotEqual(l, r) => {
            let a = spec_eval_val(m, l, env, agents);
            let b = spec_eval_val(a.0, r, env, agents);
            (b.0, !val_eq(a.1, b.1))
        },
        BExp::Greater(l, r) => {
            let a = spec_eval_int(m, l, env, agents);
            let b = spec_eval_int(a.0, r, env, agents);
            (b.0, a.1 > b.1)
        },
        BExp::Less(l, r) => {
            let a = spec_eval_int(m, l, env, agents);
            let b = spec_eval_int(a.0, r, env, agents);
            (b.0, a.1 < b.1)
        },
        BExp::GreaterEqual(l, r) => {
            let a = spec_eval_int(m, l, env, agents);
            let b = spec_eval_int(a.0, r, env, agents);
            (b.0, a.1 >= b.1)
        },
        BExp::LessEqual(l, r) => {
            let a = spec_eval_int(m, l, env, agents);
            let b = spec_eval_int(a.0, r, env, agents);
            (b.0, a.1 <= b.1)
        },
    }
}


impl Exp {
    /// Evaluates an expression to an integer: the fast path for arithmetic
    /// and comparisons. A missing variable falls back to the store `self`
    /// points at before coercing to 0.
    pub fn eval(&self, m: &mut Machine, env: usize, agents: &Vec<Individual>) -> (r: i32)
        ensures
            (final(m)@, r as int) == spec_eval_int(old(m)@, *self, env as nat, inds_view(agents@)),
        decreases self, 0nat, 0nat,
    {
        match self {
            Exp::Int(v, _) => *v,
            Exp::Bool(b, _) => if *b {
                1
            } else {
                0
            },
            Exp::StringLiteral(s, _) => crate::strings::parse_int(s),
            Exp::Var(name, _) => {
                let direct = match m.heap.env_get(env, name) {
                    Some(v) => Some(v.to_int()),
                    None => None,
                };
                match direct {
                    Some(r) => r,
                    None => {
                        let selfk = String::from_str("self");
                        let se = match m.heap.env_get(env, &selfk) {
                            Some(Value::Object(id)) => Some(*id),
                            _ => None,
                        };
                        match se {
                            Some(id) => match m.heap.env_get(id, name) {
                                Some(v) => v.to_int(),
                                None => 0,
                            },
                            None => 0,
                        }
                    },
                }
            },
            Exp::Dot(obj, field, _) => {
                let ov = obj.eval_to_val(m, env, agents);
                match ov {
                    Value::Object(id) => match m.heap.env_get(id, field) {
                        Some(v) => v.to_int(),
                        None => 0,
                    },
                    _ => 0,
                }
            },
            Exp::BinaryOp(l, op, r, _) => {
                let lv = l.eval(m, env, agents);
                let rv = r.eval(m, env, agents);
                binop(op, lv, rv)
            },
            Exp::Call(name, args, _) => {
                if name.eq(&String::from_str("random")) && args.len() == 2 {
                    let a = args[0].eval(m, env, agents);
                    let b = args[1].eval(m, env, agents);
                    let ghost before = m@;
                    let r = m.rng.gen_range(a, b);
                    proof {
                        assert(m@ =~= MachineModel {
                            rng: rng_draw(before.rng, a as int, b as int).0,
                            ..before
                        });
                    }
                    r
                } else {
                    let v = run_builtin(name, args, m, env, agents);
                    v.to_int()
                }
            },
            Exp::Index(lst, idx, _) => {
                let lv = lst.eval_to_val(m, env, agents);
                let iv = idx.eval(m, env, agents);
                match lv {
                    Value::List(id) => {
                        let n = m.heap.list_len(id);
                        if iv >= 0 && (iv as usize) < n {
                            match m.heap.list_get(id, iv as usize) {
                                Some(v) => v.to_int(),
                                None => 0,
                            }
                        } else {
                            0
                        }
                    },
                    _ => 0,
                }
            },
            Exp::List(_, _) => 0,
        }
    }

    /// Evaluates an expression to its full value.
    pub fn eval_to_val(&self, m: &mut Machine, env: usize, agents: &Vec<Individual>) -> (r: Value)
        ensures
            (final(m)@, r@) == spec_eval_val(old(m)@, *self, env as nat, inds_view(agents@)),
        decreases self, 1nat, 0nat,
    {
        match self {
            Exp::Int(v, _) => Value::Int(*v),
            Exp::Bool(b, _) => Value::Bool(*b),
            Exp::StringLiteral(s, _) => Value::Str(s.clone()),
            Exp::Var(name, _) => {
                let direct = match m.heap.env_get(env, name) {
                    Some(v) => Some(v.dup()),
                    None => None,
                };
                match direct {
                    Some(v) => v,
                    None => if name.eq(&String::from_str("environment")) {
                        Value::Environment
                    } else {
                        Value::Int(0)
                    },
                }
            },
            Exp::Dot(obj, field, _) => {
                let ov = obj.eval_to_val(m, env, agents);
                match ov {
                    Value::Object(id) => match m.heap.env_get(id, field) {
                        Some(v) => v.dup(),
                        None => Value::Int(0),
                    },
                    _ => Value::Int(0),
                }
            },
            Exp::List(items, _) => {
                let vals = eval_items(items, m, env, agents);
                let ghost before = m@;
                let ghost n = items@.len() as int;
                let id = m.heap.alloc_list(vals);
                proof {
                    assert(m@ =~= MachineModel { heap: before.heap.push_list(
                        spec_eval_items(old(m)@, *items, n, env as nat, inds_view(agents@)).1,
                    ), ..before });
                }
                Value::List(id)
            },
            Exp::Index(lst, idx, _) => {
                let lv = lst.eval_to_val(m, env, agents);
                let iv = idx.eval(m, env, agents);
                match lv {
                    Value::List(id) => {
                        let n = m.heap.list_len(id);
                        if iv >= 0 && (iv as usize) < n {
                            match m.heap.list_get(id, iv as usize) {
                                Some(v) => v.dup(),
                                None => Value::Int(0),
                            }
                        } else {
                            Value::Int(0)
                        }
                    },
                    Value::Environment => Value::GridRow(iv),
                    Value::GridRow(x) => {
                        let wx = wrap_coord(x, m.width);
                        let wy = wrap_coord(iv, m.height);
                        let cached = match &m.cache {
                            Some(c) => c.get(wx, wy),
                            None => None,
                        };
                        match cached {
                            Some(id) => Value::Object(id),
                            None => {
                                let found = find_wrapped(
                                    &m.heap,
                                    agents,
                                    wx,
                                    wy,
                                    m.width,
                                    m.height,
                                );
                                match found {
                                    Some(id) => Value::Object(id),
                                    None => Value::Int(0),
                                }
                            },
                        }
                    },
                    _ => Value::Int(0),
                }
            },
            Exp::Call(name, args, _) => run_builtin(name, args, m, env, agents),
            Exp::BinaryOp(_, _, _, _) => {
                let r = self.eval(m, env, agents);
                Value::Int(r)
            },
        }
    }
}

/// Evaluates the elements of a list literal, left to right.
fn eval_items(items: &Vec<Exp>, m: &mut Machine, env: usize, agents: &Vec<Individual>) -> (r:
    Vec<Value>)
    ensures
        (final(m)@, r@.map_values(|v: Value| v@)) == spec_eval_items(
            old(m)@,
            *items,
            items@.len() as int,
            env as nat,
            inds_view(agents@),
        ),
    decreases items, 0nat, 0nat,
{
    let n = items.len();
    let mut vals: Vec<Value> = Vec::new();
    let mut i: usize = 0;
    while i < n
        invariant
            n == items@.len(),
            i <= n,
            (m@, vals@.map_values(|v: Value| v@)) == spec_eval_items(
                old(m)@,
                *items,
                i as int,
                env as nat,
                inds_view(agents@),
            ),
        decreases n - i,
    {
        let v = items[i].eval_to_val(m, env, agents);
        vals.push(v);
        proof {
            assert(vals@.map_values(|v: Value| v@) =~= vals@.drop_last().map_values(
                |v: Value| v@,
            ).push(vals@.last()@));
        }
        i += 1;
    }
    vals
}

/// Applies a binary arithmetic operator with 32-bit wrapping semantics.
fn binop(op: &String, l: i32, r: i32) -> (q: i32)
    ensures
        q as int == spec_binop(op@, l as int, r as int),
{
    if op.as_str().unicode_len() == 1 {
        let c = op.as_str().get_char(0);
        proof {
            assert(op@ =~= seq![op@[0]]);
        }
        if c == '+' {
            l.wrapping_add(r)
        } else if c == '-' {
            l.wrapping_sub(r)
        } else if c == '*' {
            l.wrapping_mul(r)
        } else if c == '/' {
            div32(l, r)
        } else if c == '%' {
            mod32(l, r)
        } else {
            0
        }
    } else {
        0
    }
}

/// Runs one built-in call against the machine and the agent list.
fn run_builtin(
    name: &String,
    args: &Vec<Exp>,
    m: &mut Machine,
    env: usize,
    agents: &Vec<Individual>,
) -> (r: Value)
    ensures
        (final(m)@, r@) == spec_builtin(old(m)@, name@, *args, env as nat, inds_view(agents@)),
    decreases args, 2nat, 0nat,
{
    if name.eq(&String::from_str("len")) {
        if args.len() >= 1 {
            let v = args[0].eval_to_val(m, env, agents);
            match v {
                Value::List(id) => {
                    let n = m.heap.list_len(id);
                    if n > i32::MAX as usize {
                        Value::Int(i32::MAX)
                    } else {
                        Value::Int(n as i32)
                    }
                },
                _ => Value::Int(0),
            }
        } else {
            Value::Int(0)
        }
    } else if name.eq(&String::from_str("push")) {
        if args.len() >= 2 {
            let v = args[0].eval_to_val(m, env, agents);
            match v {
                Value::List(id) => {
                    let x = args[1].eval_to_val(m, env, agents);
                    let ghost before = m@;
                    m.heap.list_push(id, x);
                    proof {
                        assert(m@ =~= MachineModel {
                            heap: m@.heap,
                            ..before
                        });
                    }
                    Value::Int(0)
                },
                _ => Value::Int(0),
            }
        } else {
            Value::Int(0)
        }
    } else if name.eq(&String::from_str("pop")) {
        if args.len() >= 1 {
            let v = args[0].eval_to_val(m, env, agents);
            match v {
                Value::List(id) => {
                    let ghost before = m@;
                    let r = m.heap.list_pop(id);
                    proof {
                        assert(m@ =~= MachineModel {
                            heap: m@.heap,
                            ..before
                        });
                    }
                    r
                },
                _ => Value::Int(0),
            }
        } else {
            Value::Int(0)
        }
    } else if name.eq(&String::from_str("get_at")) {
        if args.len() >= 2 {
            let x = args[0].eval(m, env, agents);
            let y = args[1].eval(m, env, agents);
            let cached = match &m.cache {
                Some(c) => c.get(x, y),
                None => None,
            };
            match cached {
                Some(id) => Value::Object(id),
                None => {
                    let found = find_exact(&m.heap, agents, x, y);
                    match found {
                        Some(id) => Value::Object(id),
                        None => Value::Int(0),
                    }
                },
            }
        } else {
            Value::Int(0)
        }
    } else if name.eq(&String::from_str("dist")) {
        if args.len() >= 2 {
            let v1 = args[0].eval_to_val(m, env, agents);
            let v2 = args[1].eval_to_val(m, env, agents);
            match (v1, v2) {
                (Value::Object(o1), Value::Object(o2)) => {
                    let xk = String::from_str("x");
                    let yk = String::from_str("y");
                    let x1 = agent_coord(&m.heap, o1, &xk);
                    let y1 = agent_coord(&m.heap, o1, &yk);
                    let x2 = agent_coord(&m.heap, o2, &xk);
                    let y2 = agent_coord(&m.heap, o2, &yk);
                    Value::Int(euclid_dist(x1, y1, x2, y2))
                },
                _ => Value::Int(0),
            }
        } else {
            Value::Int(0)
        }
    } else if name.eq(&String::from_str("draw_rect")) {
        if args.len() >= 4 {
            let x = args[0].eval(m, env, agents);
            let y = args[1].eval(m, env, agents);
            let w = args[2].eval(m, env, agents);
            let h = args[3].eval(m, env, agents);
            let r = if args.len() > 4 {
                colour(args[4].eval(m, env, agents))
            } else {
                255u8
            };
            let g = if args.len() > 5 {
                colour(args[5].eval(m, env, agents))
            } else {
                255u8
            };
            let b = if args.len() > 6 {
                colour(args[6].eval(m, env, agents))
            } else {
                255u8
            };
            let ghost before = m@;
            m.draws.push(DrawCmd::Rect { x, y, w, h, r, g, b });
            proof {
                assert(m@ =~= MachineModel { draws: m@.draws, ..before });
                assert(m@.draws =~= before.draws.push(
                    DrawModel::Rect {
                        x: x as int,
                        y: y as int,
                        w: w as int,
                        h: h as int,
                        r: r as int,
                        g: g as int,
                        b: b as int,
                    },
                ));
            }
            Value::Int(0)
        } else {
            Value::Int(0)
        }
    } else if name.eq(&String::from_str("draw_line")) {
        if args.len() >= 4 {
            let x1 = args[0].eval(m, env, agents);
            let y1 = args[1].eval(m, env, agents);
            let x2 = args[2].eval(m, env, agents);
            let y2 = args[3].eval(m, env, agents);
            let r = if args.len() > 4 {
                colour(args[4].eval(m, env, agents))
            } else {
                255u8
            };
            let g = if args.len() > 5 {
                colour(args[5].eval(m, env, agents))
            } else {
                255u8
            };
            let b = if args.len() > 6 {
                colour(args[6].eval(m, env, agents))
            } else {
                255u8
            };
            let thickness = if args.len() > 7 {
                args[7].eval(m, env, agents)
            } else {
                1
            };
            let ghost before = m@;
            m.draws.push(DrawCmd::Line { x1, y1, x2, y2, r, g, b, thickness });
            proof {
                assert(m@ =~= MachineModel { draws: m@.draws, ..before });
                assert(m@.draws =~= before.draws.push(
                    DrawModel::Line {
                        x1: x1 as int,
                        y1: y1 as int,
                        x2: x2 as int,
                        y2: y2 as int,
                        r: r as int,
                        g: g as int,
                        b: b as int,
                        thickness: thickness as int,
                    },
                ));
            }
            Value::Int(0)
        } else {
            Value::Int(0)
        }
    } else if name.eq(&String::from_str("draw_circle")) {
        if args.len() >= 3 {
            let x = args[0].eval(m, env, agents);
            let y = args[1].eval(m, env, agents);
            let radius = args[2].eval(m, env, agents);
            let r = if args.len() > 3 {
                colour(args[3].eval(m, env, agents))
            } else {
                255u8
            };
            let g = if args.len() > 4 {
                colour(args[4].eval(m, env, agents))
            } else {
                255u8
            };
            let b = if args.len() > 5 {
                colour(args[5].eval(m, env, agents))
            } else {
                255u8
            };
            let ghost before = m@;
            m.draws.push(DrawCmd::Circle { x, y, radius, r, g, b });
            proof {
                assert(m@ =~= MachineModel { draws: m@.draws, ..before });
                assert(m@.draws =~= before.draws.push(
                    DrawModel::Circle {
                        x: x as int,
                        y: y as int,
                        radius: radius as int,
                        r: r as int,
                        g: g as int,
                        b: b as int,
                    },
                ));
            }
            Value::Int(0)
        } else {
            Value::Int(0)
        }
    } else if name.eq(&String::from_str("random")) && args.len() == 2 {
        let a = args[0].eval(m, env, agents);
        let b = args[1].eval(m, env, agents);
        let ghost before = m@;
        let r = m.rng.gen_range(a, b);
        proof {
            assert(m@ =~= MachineModel {
                rng: rng_draw(before.rng, a as int, b as int).0,
                ..before
            });
        }
        Value::Int(r)
    } else {
        Value::Int(0)
    }
}

/// Reduces a colour argument modulo 256, as the byte cast of the original
/// arguments does.
fn colour(v: i32) -> (r: u8)
    ensures
        r as int == to_u8(v as int),
{
    wrap_coord(v, 256) as u8
}

/// The truncated Euclidean distance between two positions, saturated into
/// a 32-bit integer.
fn euclid_dist(x1: i32, y1: i32, x2: i32, y2: i32) -> (r: i32)
    ensures
        ({
            let dx = x1 as int - x2 as int;
            let dy = y1 as int - y2 as int;
            let d = spec_isqrt(dx * dx + dy * dy);
            r as int == if d > i32::MAX {
                i32::MAX as int
            } else {
                d
            }
        }),
{
    let dx = x1 as i64 - x2 as i64;
    let dy = y1 as i64 - y2 as i64;
    let dxa: u64 = if dx < 0 {
        (-dx) as u64
    } else {
        dx as u64
    };
    let dya: u64 = if dy < 0 {
        (-dy) as u64
    } else {
        dy as u64
    };
    proof {
        assert((dxa as u128) * (dxa as u128) + (dya as u128) * (dya as u128)
            < 0x4_0000_0000_0000_0000u128) by (nonlinear_arith)
            requires
                dxa <= 0x1_0000_0000u64,
                dya <= 0x1_0000_0000u64,
        ;
        assert((dxa as int) * (dxa as int) == (x1 as int - x2 as int) * (x1 as int - x2 as int))
            by (nonlinear_arith)
            requires
                dxa as int == crate::math::abs_int(x1 as int - x2 as int),
        ;
        assert((dya as int) * (dya as int) == (y1 as int - y2 as int) * (y1 as int - y2 as int))
            by (nonlinear_arith)
            requires
                dya as int == crate::math::abs_int(y1 as int - y2 as int),
        ;
    }
    let n: u128 = (dxa as u128) * (dxa as u128) + (dya as u128) * (dya as u128);
    let q = isqrt_u128(n);
    if q > i32::MAX as u64 {
        i32::MAX
    } else {
        q as i32
    }
}

impl BExp {
    /// Evaluates a boolean expression; `&&` and `||` short-circuit.
    pub fn eval(&self, m: &mut Machine, env: usize, agents: &Vec<Individual>) -> (r: bool)
        ensures
            (final(m)@, r) == spec_eval_bexp(old(m)@, *self, env as nat, inds_view(agents@)),
        decreases self, 0nat, 0nat,
    {
        match self {
            BExp::And(l, r) => {
                let a = l.eval(m, env, agents);
                if !a {
                    false
                } else {
                    r.eval(m, env, agents)
                }
            },
            BExp::Or(l, r) => {
                let a = l.eval(m, env, agents);
                if a {
                    true
                } else {
                    r.eval(m, env, agents)
                }
            },
            BExp::Equal(l, r) => {
                let a = l.eval_to_val(m, env, agents);
                let b = r.eval_to_val(m, env, agents);
                values_are_equal(&a, &b)
            },
            BExp::NotEqual(l, r) => {
                let a = l.eval_to_val(m, env, agents);
                let b = r.eval_to_val(m, env, agents);
                !values_are_equal(&a, &b)
            },
            BExp::Greater(l, r) => {
                let a = l.eval(m, env, agents);
                let b = r.eval(m, env, agents);
                a > b
            },
            BExp::Less(l, r) => {
                let a = l.eval(m, env, agents);
                let b = r.eval(m, env, agents);
                a < b
            },
            BExp::GreaterEqual(l, r) => {
                let a = l.eval(m, env, agents);
                let b = r.eval(m, env, agents);
                a >= b
            },
            BExp::LessEqual(l, r) => {
                let a = l.eval(m, env, agents);
                let b = r.eval(m, env, agents);
                a <= b
            },
        }
    }
}


/// The space-joined concatenation of the first `k` parts.
pub open spec fn join_parts(parts: Seq<Seq<char>>, k: int) -> Seq<char>
    decreases k,
{
    if k <= 0 {
        Seq::empty()
    } else if k == 1 {
        parts[0]
    } else {
        join_parts(parts, k - 1) + " "@ + parts[k - 1]
    }
}

proof fn lemma_join_push(parts: Seq<Seq<char>>, p: Seq<char>, k: int)
    requires
        0 <= k <= parts.len(),
    ensures
        join_parts(parts.push(p), k) == join_parts(parts, k),
    decreases k,
{
    if k > 0 {
        lemma_join_push(parts, p, k - 1);
    }
}

/// The prints of the first `k` expressions: each is evaluated, then
/// rendered against the heap of that moment.
pub open spec fn spec_print_parts(
    m: MachineModel,
    exps: Vec<Exp>,
    k: int,
    env: nat,
    agents: Seq<IndModel>,
) -> (MachineModel, Seq<Seq<char>>)
    decreases k,
{
    if k <= 0 || exps.len() < k {
        (m, Seq::empty())
    } else {
        let a = spec_print_parts(m, exps, k - 1, env, agents);
        let b = spec_eval_val(a.0, exps[k - 1], env, agents);
        (b.0, a.1.push(spec_render(b.0.heap, b.1, b.0.heap.lists.len())))
    }
}

/// The machine after evaluating and binding the first `k` default
/// properties of a spawned agent, in declared order, against its own fresh
/// store.
pub open spec fn spec_spawn_props(
    m: MachineModel,
    props: Vec<(String, Exp)>,
    k: int,
    nid: nat,
    agents: Seq<IndModel>,
) -> MachineModel
    decreases k,
{
    if k <= 0 || props.len() < k {
        m
    } else {
        let a = spec_spawn_props(m, props, k - 1, nid, agents);
        let b = spec_eval_val(a, props[k - 1].1, nid, agents);
        MachineModel {
            heap: b.0.heap.with_env(
                nid as int,
                store_set(b.0.heap.env_at(nid as int), props[k - 1].0@, b.1),
            ),
            ..b.0
        }
    }
}

/// The machine after a `spawn` command: for a known species, a fresh store
/// is allocated and given the species tag, the default properties in
/// declared order, and the spawn position; the new agent goes to the spawn
/// buffer. An unknown species spawns nothing.
pub open spec fn spec_spawn(
    m: MachineModel,
    species: String,
    x: Exp,
    y: Exp,
    env: nat,
    agents: Seq<IndModel>,
    program: Program,
) -> MachineModel {
    match crate::ast::spec_lookup_species(program.species_block@, species@) {
        None => m,
        Some(def) => {
            let a = spec_eval_int(m, x, env, agents);
            let b = spec_eval_int(a.0, y, env, agents);
            let nid = b.0.heap.envs.len();
            let m1 = MachineModel { heap: b.0.heap.push_env(), ..b.0 };
            let m2 = MachineModel {
                heap: m1.heap.with_env(
                    nid as int,
                    store_set(m1.heap.env_at(nid as int), "species"@, ValModel::Str(species@)),
                ),
                ..m1
            };
            let m3 = spec_spawn_props(m2, def.properties, def.properties.len() as int, nid, agents);
            let m4 = MachineModel {
                heap: m3.heap.with_env(
                    nid as int,
                    store_set(m3.heap.env_at(nid as int), "x"@, ValModel::Int(a.1)),
                ),
                ..m3
            };
            let m5 = MachineModel {
                heap: m4.heap.with_env(
                    nid as int,
                    store_set(m4.heap.env_at(nid as int), "y"@, ValModel::Int(b.1)),
                ),
                ..m4
            };
            MachineModel {
                spawner: m5.spawner.push(IndModel { species: species@, env: nid }),
                ..m5
            }
        },
    }
}

/// The machine after an assignment: the value is evaluated first, then
/// bound to a variable, an object field, or an in-bounds list element;
/// any other target discards it.
pub open spec fn spec_assign(
    m: MachineModel,
    target: Exp,
    value: Exp,
    env: nat,
    agents: Seq<IndModel>,
) -> MachineModel {
    let a = spec_eval_val(m, value, env, agents);
    match target {
        Exp::Var(name, _) => MachineModel {
            heap: a.0.heap.with_env(
                env as int,
                store_set(a.0.heap.env_at(env as int), name@, a.1),
            ),
            ..a.0
        },
        Exp::Dot(obj, field, _) => {
            let b = spec_eval_val(a.0, *obj, env, agents);
            match b.1 {
                ValModel::Object(id) => MachineModel {
                    heap: b.0.heap.with_env(
                        id as int,
                        store_set(b.0.heap.env_at(id as int), field@, a.1),
                    ),
                    ..b.0
                },
                _ => b.0,
            }
        },
        Exp::Index(lst, idx, _) => {
            let b = spec_eval_val(a.0, *lst, env, agents);
            match b.1 {
                ValModel::List(id) => {
                    let c = spec_eval_int(b.0, *idx, env, agents);
                    if 0 <= c.1 < c.0.heap.list_at(id as int).len() {
                        MachineModel {
                            heap: c.0.heap.with_list(
                                id as int,
                                c.0.heap.list_at(id as int).update(c.1, a.1),
                            ),
                            ..c.0
                        }
                    } else {
                        c.0
                    }
                },
                _ => b.0,
            }
        },
        _ => a.0,
    }
}

/// One command: the machine after it, and an early-return value if a
/// `return` was reached.
pub open spec fn spec_cmd(
    m: MachineModel,
    c: Command,
    env: nat,
    agents: Seq<IndModel>,
    program: Program,
    fuel: nat,
) -> (MachineModel, Option<ValModel>)
    decreases fuel, c, 1nat, 0nat,
{
    match c {
        Command::Exp(e, _) => {
            let a = spec_eval_val(m, e, env, agents);
            (a.0, None)
        },
        Command::Return(e, _) => {
            let a = spec_eval_val(m, e, env, agents);
            (a.0, Some(a.1))
        },
        Command::Assign { target, value, line: _ } => (
            spec_assign(m, target, value, env, agents),
            None,
        ),
        Command::Spawn { species, x, y, line: _ } => (
            spec_spawn(m, species, x, y, env, agents, program),
            None,
        ),
        Command::Print(exps, _) => {
            let p = spec_print_parts(m, exps, exps.len() as int, env, agents);
            (
                MachineModel { output: p.0.output.push(join_parts(p.1, p.1.len() as int)), ..p.0 },
                None,
            )
        },
        Command::If { condition, then_block, else_block, line: _ } => {
            let a = spec_eval_bexp(m, condition, env, agents);
            if a.1 {
                spec_cmds(a.0, then_block, then_block.len() as int, env, agents, program, fuel)
            } else {
                match else_block {
                    Some(eb) => spec_cmds(a.0, eb, eb.len() as int, env, agents, program, fuel),
                    None => (a.0, None),
                }
            }
        },
        Command::While { condition, body, line: _ } => spec_while(
            m,
            condition,
            body,
            env,
            agents,
            program,
            fuel,
        ),
        Command::For { var, collection, body, line: _ } => {
            if collection@ == "environment"@ {
                spec_for(m, var@, body, agents.len() as int, env, agents, program, fuel)
            } else {
                (m, None)
            }
        },
    }
}

/// The first `k` commands of a block, stopping at an early return.
pub open spec fn spec_cmds(
    m: MachineModel,
    cmds: Vec<Command>,
    k: int,
    env: nat,
    agents: Seq<IndModel>,
    program: Program,
    fuel: nat,
) -> (MachineModel, Option<ValModel>)
    decreases fuel, cmds, 2nat, k,
{
    if k <= 0 || cmds.len() < k {
        (m, None)
    } else {
        let a = spec_cmds(m, cmds, k - 1, env, agents, program, fuel);
        if a.1 is Some {
            a
        } else {
            spec_cmd(a.0, cmds[k - 1], env, agents, program, fuel)
        }
    }
}

/// A `while` loop: the condition is evaluated before each pass; each pass
/// of the body consumes one unit of the step budget, and an exhausted
/// budget stops the loop as a false condition would.
pub open spec fn spec_while(
    m: MachineModel,
    condition: BExp,
    body: Vec<Command>,
    env: nat,
    agents: Seq<IndModel>,
    program: Program,
    fuel: nat,
) -> (MachineModel, Option<ValModel>)
    decreases fuel, body, 3nat, 0nat,
{
    let a = spec_eval_bexp(m, condition, env, agents);
    if !a.1 {
        (a.0, None)
    } else if fuel == 0 {
        (a.0, None)
    } else {
        let b = spec_cmds(a.0, body, body.len() as int, env, agents, program, fuel);
        if b.1 is Some {
            b
        } else {
            spec_while(b.0, condition, body, env, agents, program, (fuel - 1) as nat)
        }
    }
}

/// A `for` pass over the first `k` agents: each pass binds the loop
/// variable to the agent and runs the body, stopping at an early return.
pub open spec fn spec_for(
    m: MachineModel,
    var: Seq<char>,
    body: Vec<Command>,
    k: int,
    env: nat,
    agents: Seq<IndModel>,
    program: Program,
    fuel: nat,
) -> (MachineModel, Option<ValModel>)
    decreases fuel, body, 4nat, k,
{
    if k <= 0 || agents.len() < k {
        (m, None)
    } else {
        let a = spec_for(m, var, body, k - 1, env, agents, program, fuel);
        if a.1 is Some {
            a
        } else {
            let m1 = MachineModel {
                heap: a.0.heap.with_env(
                    env as int,
                    store_set(
                        a.0.heap.env_at(env as int),
                        var,
                        ValModel::Object(agents[k - 1].env),
                    ),
                ),
                ..a.0
            };
            spec_cmds(m1, body, body.len() as int, env, agents, program, fuel)
        }
    }
}

proof fn lemma_cmds_propagates(
    m: MachineModel,
    cmds: Vec<Command>,
    k1: int,
    k2: int,
    env: nat,
    agents: Seq<IndModel>,
    program: Program,
    fuel: nat,
)
    requires
        0 <= k1 <= k2 <= cmds.len(),
        spec_cmds(m, cmds, k1, env, agents, program, fuel).1 is Some,
    ensures
        spec_cmds(m, cmds, k2, env, agents, program, fuel) == spec_cmds(
            m,
            cmds,
            k1,
            env,
            agents,
            program,
            fuel,
        ),
    decreases k2 - k1,
{
    if k2 > k1 {
        lemma_cmds_propagates(m, cmds, k1, k2 - 1, env, agents, program, fuel);
    }
}

proof fn lemma_for_propagates(
    m: MachineModel,
    var: Seq<char>,
    body: Vec<Command>,
    k1: int,
    k2: int,
    env: nat,
    agents: Seq<IndModel>,
    program: Program,
    fuel: nat,
)
    requires
        0 <= k1 <= k2 <= agents.len(),
        spec_for(m, var, body, k1, env, agents, program, fuel).1 is Some,
    ensures
        spec_for(m, var, body, k2, env, agents, program, fuel) == spec_for(
            m,
            var,
            body,
            k1,
            env,
            agents,
            program,
            fuel,
        ),
    decreases k2 - k1,
{
    if k2 > k1 {
        lemma_for_propagates(m, var, body, k1, k2 - 1, env, agents, program, fuel);
    }
}


/// Evaluates and binds the default properties of a freshly spawned agent,
/// in declared order, against its own store.
fn spawn_props(
    props: &Vec<(String, Exp)>,
    m: &mut Machine,
    nid: usize,
    agents: &Vec<Individual>,
)
    ensures
        final(m)@ == spec_spawn_props(
            old(m)@,
            *props,
            props@.len() as int,
            nid as nat,
            inds_view(agents@),
        ),
{
    let n = props.len();
    let mut i: usize = 0;
    while i < n
        invariant
            n == props@.len(),
            i <= n,
            m@ == spec_spawn_props(old(m)@, *props, i as int, nid as nat, inds_view(agents@)),
        decreases n - i,
    {
        let k = props[i].0.clone();
        let v = props[i].1.eval_to_val(m, nid, agents);
        let ghost before = m@;
        m.heap.env_set(nid, k, v);
        proof {
            assert(m@ =~= MachineModel { heap: m@.heap, ..before });
        }
        i += 1;
    }
}

impl Command {
    /// Runs one command against the machine and the agent list, with the
    /// given step budget, and yields an early-return value if a `return`
    /// was reached. A `while` pass costs one unit of budget; the loop
    /// stops when the budget runs out.
    pub fn execute(
        &self,
        m: &mut Machine,
        env: usize,
        agents: &Vec<Individual>,
        program: &Program,
        fuel: u64,
    ) -> (r: Option<Value>)
        ensures
            ({
                let s = spec_cmd(
                    old(m)@,
                    *self,
                    env as nat,
                    inds_view(agents@),
                    *program,
                    fuel as nat,
                );
                final(m)@ == s.0 && match r {
                    Some(v) => s.1 == Some(v@),
                    None => s.1 is None,
                }
            }),
        decreases fuel, self, 1nat, 0nat,
    {
        match self {
            Command::Exp(e, _) => {
                let _ = e.eval_to_val(m, env, agents);
                None
            },
            Command::Return(e, _) => {
                let v = e.eval_to_val(m, env, agents);
                Some(v)
            },
            Command::Assign { target, value, line: _ } => {
                exec_assign(target, value, m, env, agents);
                None
            },
            Command::Spawn { species, x, y, line: _ } => {
                exec_spawn(species, x, y, m, env, agents, program);
                None
            },
            Command::Print(exps, _) => {
                exec_print(exps, m, env, agents);
                None
            },
            Command::If { condition, then_block, else_block, line: _ } => {
                let cv = condition.eval(m, env, agents);
                if cv {
                    execute_block(then_block, m, env, agents, program, fuel)
                } else {
                    match else_block {
                        Some(eb) => execute_block(eb, m, env, agents, program, fuel),
                        None => None,
                    }
                }
            },
            Command::While { condition, body, line: _ } => exec_while(
                condition,
                body,
                m,
                env,
                agents,
                program,
                fuel,
            ),
            Command::For { var, collection, body, line: _ } => {
                if collection.eq(&String::from_str("environment")) {
                    exec_for(var, body, m, env, agents, program, fuel)
                } else {
                    None
                }
            },
        }
    }
}

/// Performs an assignment: the value first, then the target.
fn exec_assign(
    target: &Exp,
    value: &Exp,
    m: &mut Machine,
    env: usize,
    agents: &Vec<Individual>,
)
    ensures
        final(m)@ == spec_assign(old(m)@, *target, *value, env as nat, inds_view(agents@)),
{
    let v = value.eval_to_val(m, env, agents);
    match target {
        Exp::Var(name, _) => {
            let ghost before = m@;
            m.heap.env_set(env, name.clone(), v);
            proof {
                assert(m@ =~= MachineModel { heap: m@.heap, ..before });
            }
        },
        Exp::Dot(obj, field, _) => {
            let ov = obj.eval_to_val(m, env, agents);
            match ov {
                Value::Object(id) => {
                    let ghost before = m@;
                    m.heap.env_set(id, field.clone(), v);
                    proof {
                        assert(m@ =~= MachineModel { heap: m@.heap, ..before });
                    }
                },
                _ => {},
            }
        },
        Exp::Index(lst, idx, _) => {
            let lv = lst.eval_to_val(m, env, agents);
            match lv {
                Value::List(id) => {
                    let iv = idx.eval(m, env, agents);
                    let n = m.heap.list_len(id);
                    if iv >= 0 && (iv as usize) < n {
                        let ghost before = m@;
                        m.heap.list_set(id, iv as usize, v);
                        proof {
                            assert(m@ =~= MachineModel { heap: m@.heap, ..before });
                        }
                    }
                },
                _ => {},
            }
        },
        _ => {},
    }
}

/// Spawns one agent of a known species into the spawn buffer.
fn exec_spawn(
    species: &String,
    x: &Exp,
    y: &Exp,
    m: &mut Machine,
    env: usize,
    agents: &Vec<Individual>,
    program: &Program,
)
    ensures
        final(m)@ == spec_spawn(
            old(m)@,
            *species,
            *x,
            *y,
            env as nat,
            inds_view(agents@),
            *program,
        ),
{
    let def_opt = program.lookup_species(species);
    match def_opt {
        Some(def) => {
            let xv = x.eval(m, env, agents);
            let yv = y.eval(m, env, agents);
            let ghost b0 = m@;
            let nid = m.heap.alloc_env();
            proof {
                assert(m@ =~= MachineModel { heap: b0.heap.push_env(), ..b0 });
            }
            let ghost b1 = m@;
            m.heap.env_set(nid, String::from_str("species"), Value::Str(species.clone()));
            proof {
                assert(m@ =~= MachineModel { heap: m@.heap, ..b1 });
            }
            spawn_props(&def.properties, m, nid, agents);
            let ghost b2 = m@;
            m.heap.env_set(nid, String::from_str("x"), Value::Int(xv));
            proof {
                assert(m@ =~= MachineModel { heap: m@.heap, ..b2 });
            }
            let ghost b3 = m@;
            m.heap.env_set(nid, String::from_str("y"), Value::Int(yv));
            proof {
                assert(m@ =~= MachineModel { heap: m@.heap, ..b3 });
            }
            let ghost b4 = m@;
            m.spawner.push(Individual { species: species.clone(), env: nid });
            proof {
                assert(inds_view(m.spawner@) =~= inds_view(m.spawner@.drop_last()).push(
                    m.spawner@.last()@,
                ));
                assert(m@ =~= MachineModel { spawner: m@.spawner, ..b4 });
            }
        },
        None => {},
    }
}

/// Prints the expressions: each value is rendered against the heap of its
/// moment, the parts are joined with single spaces, and the line goes to
/// the output buffer.
fn exec_print(exps: &Vec<Exp>, m: &mut Machine, env: usize, agents: &Vec<Individual>)
    ensures
        final(m)@ == ({
            let p = spec_print_parts(
                old(m)@,
                *exps,
                exps@.len() as int,
                env as nat,
                inds_view(agents@),
            );
            MachineModel { output: p.0.output.push(join_parts(p.1, p.1.len() as int)), ..p.0 }
        }),
{
    let n = exps.len();
    let mut line = String::new();
    let ghost mut parts: Seq<Seq<char>> = Seq::empty();
    let mut i: usize = 0;
    while i < n
        invariant
            n == exps@.len(),
            i <= n,
            parts.len() == i as int,
            (m@, parts) == spec_print_parts(
                old(m)@,
                *exps,
                i as int,
                env as nat,
                inds_view(agents@),
            ),
            line@ == join_parts(parts, i as int),
        decreases n - i,
    {
        if i > 0 {
            line.append(" ");
        }
        let v = exps[i].eval_to_val(m, env, agents);
        let fuel_r = m.heap.lists.len() as u64;
        let piece = render_value(&m.heap, &v, fuel_r);
        line.append(piece.as_str());
        proof {
            lemma_join_push(parts, spec_render(m@.heap, v@, m@.heap.lists.len()), i as int);
            parts = parts.push(spec_render(m@.heap, v@, m@.heap.lists.len()));
        }
        i += 1;
    }
    let ghost before = m@;
    m.output.push(line);
    proof {
        assert(m@.output =~= before.output.push(join_parts(parts, parts.len() as int)));
        assert(m@ =~= MachineModel { output: m@.output, ..before });
    }
}

/// Runs a `while` loop, spending one unit of budget per pass.
fn exec_while(
    condition: &BExp,
    body: &Vec<Command>,
    m: &mut Machine,
    env: usize,
    agents: &Vec<Individual>,
    program: &Program,
    fuel: u64,
) -> (r: Option<Value>)
    ensures
        ({
            let s = spec_while(
                old(m)@,
                *condition,
                *body,
                env as nat,
                inds_view(agents@),
                *program,
                fuel as nat,
            );
            final(m)@ == s.0 && match r {
                Some(v) => s.1 == Some(v@),
                None => s.1 is None,
            }
        }),
    decreases fuel, body, 3nat, 0nat,
{
    let ghost av = inds_view(agents@);
    let mut fl: u64 = fuel;
    loop
        invariant
            fl <= fuel,
            av == inds_view(agents@),
            spec_while(old(m)@, *condition, *body, env as nat, av, *program, fuel as nat)
                == spec_while(m@, *condition, *body, env as nat, av, *program, fl as nat),
        decreases fl,
    {
        let cv = condition.eval(m, env, agents);
        if !cv {
            return None;
        }
        if fl == 0 {
            return None;
        }
        let r = execute_block(body, m, env, agents, program, fl);
        match r {
            Some(v) => {
                return Some(v);
            },
            None => {
                fl = fl - 1;
            },
        }
    }
}

/// Runs a `for` pass over the agent list, binding the loop variable to
/// each agent in order.
fn exec_for(
    var: &String,
    body: &Vec<Command>,
    m: &mut Machine,
    env: usize,
    agents: &Vec<Individual>,
    program: &Program,
    fuel: u64,
) -> (r: Option<Value>)
    ensures
        ({
            let s = spec_for(
                old(m)@,
                var@,
                *body,
                agents@.len() as int,
                env as nat,
                inds_view(agents@),
                *program,
                fuel as nat,
            );
            final(m)@ == s.0 && match r {
                Some(v) => s.1 == Some(v@),
                None => s.1 is None,
            }
        }),
    decreases fuel, body, 4nat, 0nat,
{
    let ghost av = inds_view(agents@);
    let n = agents.len();
    let mut i: usize = 0;
    while i < n
        invariant
            n == agents@.len(),
            i <= n,
            av == inds_view(agents@),
            (m@, None::<ValModel>) == spec_for(
                old(m)@,
                var@,
                *body,
                i as int,
                env as nat,
                av,
                *program,
                fuel as nat,
            ),
        decreases n - i,
    {
        let ghost before = m@;
        m.heap.env_set(env, var.clone(), Value::Object(agents[i].env));
        proof {
            assert(m@ =~= MachineModel { heap: m@.heap, ..before });
            assert(av[i as int].env == agents@[i as int]@.env);
        }
        let r = execute_block(body, m, env, agents, program, fuel);
        match r {
            Some(v) => {
                proof {
                    lemma_for_propagates(
                        old(m)@,
                        var@,
                        *body,
                        i as int + 1,
                        n as int,
                        env as nat,
                        av,
                        *program,
                        fuel as nat,
                    );
                }
                return Some(v);
            },
            None => {},
        }
        i += 1;
    }
    None
}

/// Runs the commands of a block in order, stopping at an early return.
pub fn execute_block(
    cmds: &Vec<Command>,
    m: &mut Machine,
    env: usize,
    agents: &Vec<Individual>,
    program: &Program,
    fuel: u64,
) -> (r: Option<Value>)
    ensures
        ({
            let s = spec_cmds(
                old(m)@,
                *cmds,
                cmds@.len() as int,
                env as nat,
                inds_view(agents@),
                *program,
                fuel as nat,
            );
            final(m)@ == s.0 && match r {
                Some(v) => s.1 == Some(v@),
                None => s.1 is None,
            }
        }),
    decreases fuel, cmds, 2nat, 0nat,
{
    let ghost av = inds_view(agents@);
    let n = cmds.len();
    let mut i: usize = 0;
    while i < n
        invariant
            n == cmds@.len(),
            i <= n,
            av == inds_view(agents@),
            (m@, None::<ValModel>) == spec_cmds(
                old(m)@,
                *cmds,
                i as int,
                env as nat,
                av,
                *program,
                fuel as nat,
            ),
        decreases n - i,
    {
        let r = cmds[i].execute(m, env, agents, program, fuel);
        match r {
            Some(v) => {
                proof {
                    lemma_cmds_propagates(
                        old(m)@,
                        *cmds,
                        i as int + 1,
                        n as int,
                        env as nat,
                        av,
                        *program,
                        fuel as nat,
                    );
                }
                return Some(v);
            },
            None => {},
        }
        i += 1;
    }
    None
}


/// The machine after running the first `k` commands each to completion,
/// with any early-return value of a command discarded: the way routine
/// bodies, the spawn block and mutation bodies are driven.
pub open spec fn spec_run_cmds(
    m: MachineModel,
    cmds: Vec<Command>,
    k: int,
    env: nat,
    agents: Seq<IndModel>,
    program: Program,
    fuel: nat,
) -> MachineModel
    decreases k,
{
    if k <= 0 || cmds.len() < k {
        m
    } else {
        let a = spec_run_cmds(m, cmds, k - 1, env, agents, program, fuel);
        spec_cmd(a, cmds[k - 1], env, agents, program, fuel).0
    }
}

/// Runs every command of a block, discarding early-return values.
pub fn run_commands(
    cmds: &Vec<Command>,
    m: &mut Machine,
    env: usize,
    agents: &Vec<Individual>,
    program: &Program,
    fuel: u64,
)
    ensures
        final(m)@ == spec_run_cmds(
            old(m)@,
            *cmds,
            cmds@.len() as int,
            env as nat,
            inds_view(agents@),
            *program,
            fuel as nat,
        ),
{
    let ghost av = inds_view(agents@);
    let n = cmds.len();
    let mut i: usize = 0;
    while i < n
        invariant
            n == cmds@.len(),
            i <= n,
            av == inds_view(agents@),
            m@ == spec_run_cmds(old(m)@, *cmds, i as int, env as nat, av, *program, fuel as nat),
        decreases n - i,
    {
        let _ = cmds[i].execute(m, env, agents, program, fuel);
        i += 1;
    }
}

} // verus!
