//! The static validator: one walk over the program with a scope of coarse
//! types, reporting undefined variables and string-operand misuse as
//! errors, and dynamic property creation as an informational note.

use vstd::prelude::*;

use crate::ast::{BExp, Command, Exp, Program};
use crate::strings::{dec_int, int_to_string};

verus! {

/// A coarse type of the validator's scope.
#[derive(Clone, Copy, PartialEq, Eq, Structural)]
pub enum Ty {
    Int,
    Text,
    Bool,
    List,
    Object,
    Environment,
    Unknown,
}

/// The model of a scope: name/type pairs, the first match winning.
pub type ScopeModel = Seq<(Seq<char>, Ty)>;

/// The first type bound to `k`, if any.
pub open spec fn scope_get(s: ScopeModel, k: Seq<char>) -> Option<Ty>
    decreases s.len(),
{
    if s.len() == 0 {
        None
    } else if s[0].0 == k {
        Some(s[0].1)
    } else {
        scope_get(s.drop_first(), k)
    }
}

/// The scope with `k` bound to `t`.
pub open spec fn scope_set(s: ScopeModel, k: Seq<char>, t: Ty) -> ScopeModel
    decreases s.len(),
{
    if s.len() == 0 {
        seq![(k, t)]
    } else if s[0].0 == k {
        seq![(k, t)] + s.drop_first()
    } else {
        seq![s[0]] + scope_set(s.drop_first(), k, t)
    }
}

/// A scope: names mapped to coarse types.
pub struct Scope {
    pub entries: Vec<(String, Ty)>,
}

impl View for Scope {
    type V = ScopeModel;

    open spec fn view(&self) -> ScopeModel {
        self.entries@.map_values(|p: (String, Ty)| (p.0@, p.1))
    }
}

proof fn lemma_scope_get_skip(s: ScopeModel, k: Seq<char>, i: int)
    requires
        0 <= i <= s.len(),
        forall|j: int| 0 <= j < i ==> (#[trigger] s[j]).0 != k,
    ensures
        scope_get(s, k) == scope_get(s.skip(i), k),
    decreases i,
{
    if i > 0 {
        assert(s.drop_first().skip(i - 1) =~= s.skip(i));
        lemma_scope_get_skip(s.drop_first(), k, i - 1);
    } else {
        assert(s.skip(0) =~= s);
    }
}

proof fn lemma_scope_set_update(s: ScopeModel, k: Seq<char>, t: Ty, i: int)
    requires
        0 <= i < s.len(),
        s[i].0 == k,
        forall|j: int| 0 <= j < i ==> (#[trigger] s[j]).0 != k,
    ensures
        scope_set(s, k, t) =~= s.update(i, (k, t)),
    decreases i,
{
    if i == 0 {
        assert(scope_set(s, k, t) =~= s.update(0, (k, t)));
    } else {
        lemma_scope_set_update(s.drop_first(), k, t, i - 1);
        assert(seq![s[0]] + s.drop_first().update(i - 1, (k, t)) =~= s.update(i, (k, t)));
    }
}

proof fn lemma_scope_set_push(s: ScopeModel, k: Seq<char>, t: Ty)
    requires
        forall|j: int| 0 <= j < s.len() ==> (#[trigger] s[j]).0 != k,
    ensures
        scope_set(s, k, t) =~= s.push((k, t)),
    decreases s.len(),
{
    if s.len() > 0 {
        lemma_scope_set_push(s.drop_first(), k, t);
        assert(seq![s[0]] + s.drop_first().push((k, t)) =~= s.push((k, t)));
    }
}

impl Scope {
    /// An empty scope.
    pub fn new() -> (r: Scope)
        ensures
            r@ == Seq::<(Seq<char>, Ty)>::empty(),
    {
        let r = Scope { entries: Vec::new() };
        proof {
            assert(r@ =~= Seq::<(Seq<char>, Ty)>::empty());
        }
        r
    }

    /// Looks a name up.
    pub fn get(&self, k: &String) -> (r: Option<Ty>)
        ensures
            r == scope_get(self@, k@),
    {
        let n = self.entries.len();
        let mut i: usize = 0;
        while i < n
            invariant
                n == self.entries.len(),
                i <= n,
                forall|j: int| 0 <= j < i ==> (#[trigger] self@[j]).0 != k@,
            decreases n - i,
        {
            if self.entries[i].0.eq(k) {
                proof {
                    lemma_scope_get_skip(self@, k@, i as int);
                    assert(self@.skip(i as int)[0] == self@[i as int]);
                }
                return Some(self.entries[i].1);
            }
            i += 1;
        }
        proof {
            lemma_scope_get_skip(self@, k@, n as int);
            assert(self@.skip(n as int).len() == 0);
        }
        None
    }

    /// Binds a name to a type.
    pub fn set(&mut self, k: String, t: Ty)
        ensures
            final(self)@ == scope_set(old(self)@, k@, t),
    {
        let n = self.entries.len();
        let mut i: usize = 0;
        while i < n
            invariant
                n == self.entries.len(),
                self.entries == old(self).entries,
                i <= n,
                forall|j: int| 0 <= j < i ==> (#[trigger] self@[j]).0 != k@,
            decreases n - i,
        {
            if self.entries[i].0.eq(&k) {
                proof {
                    lemma_scope_set_update(self@, k@, t, i as int);
                }
                let ghost before = self@;
                self.entries[i] = (k, t);
                assert(self@ =~= before.update(i as int, (k@, t)));
                return;
            }
            i += 1;
        }
        proof {
            lemma_scope_set_push(self@, k@, t);
        }
        let ghost before = self@;
        self.entries.push((k, t));
        assert(self@ =~= before.push((k@, t)));
    }

    /// A copy of this scope.
    pub fn duplicate(&self) -> (r: Scope)
        ensures
            r@ == self@,
    {
        let n = self.entries.len();
        let mut out: Vec<(String, Ty)> = Vec::new();
        let mut i: usize = 0;
        while i < n
            invariant
                n == self.entries.len(),
                i <= n,
                out@.map_values(|p: (String, Ty)| (p.0@, p.1)) =~= self@.take(i as int),
            decreases n - i,
        {
            let k = self.entries[i].0.clone();
            let t = self.entries[i].1;
            out.push((k, t));
            proof {
                assert(out@.map_values(|p: (String, Ty)| (p.0@, p.1)) =~= out@.drop_last(
                ).map_values(|p: (String, Ty)| (p.0@, p.1)).push((out@.last().0@, out@.last().1)));
                assert(self@.take(i as int + 1) =~= self@.take(i as int).push(self@[i as int]));
            }
            i += 1;
        }
        let r = Scope { entries: out };
        proof {
            assert(self@.take(n as int) =~= self@);
            assert(r@ =~= self@);
        }
        r
    }
}

/// The model of one diagnostic: its context, its text, the offending
/// name and the source line (saturated into 32 bits).
pub open spec fn spec_message(ctx: Seq<char>, what: Seq<char>, name: Seq<char>, line: int) -> Seq<
    char,
> {
    "["@ + ctx + "] "@ + what + name + " at line "@ + dec_int(
        if line > i32::MAX {
            i32::MAX as int
        } else {
            line
        },
    )
}

/// The models of a diagnostic list.
pub open spec fn msgs_view(s: Seq<String>) -> Seq<Seq<char>> {
    s.map_values(|m: String| m@)
}

/// The coarse type a default-property expression declares.
pub open spec fn spec_infer_type(e: Exp) -> Ty {
    match e {
        Exp::Int(_, _) => Ty::Int,
        Exp::StringLiteral(_, _) => Ty::Text,
        Exp::Bool(_, _) => Ty::Bool,
        Exp::List(_, _) => Ty::List,
        Exp::Call(name, _, _) => if name@ == "get_at"@ {
            Ty::Object
        } else {
            Ty::Unknown
        },
        _ => Ty::Unknown,
    }
}

/// Infers the coarse type of a default-property expression.
pub fn infer_type(e: &Exp) -> (r: Ty)
    ensures
        r == spec_infer_type(*e),
{
    match e {
        Exp::Int(_, _) => Ty::Int,
        Exp::StringLiteral(_, _) => Ty::Text,
        Exp::Bool(_, _) => Ty::Bool,
        Exp::List(_, _) => Ty::List,
        Exp::Call(name, _, _) => if name.eq(&String::from_str("get_at")) {
            Ty::Object
        } else {
            Ty::Unknown
        },
        _ => Ty::Unknown,
    }
}

/// The type of an expression and the diagnostics it raises, in order and
/// with their exact messages: an undefined variable is one error naming
/// the variable and its line, a non-`+` operator over a text operand is
/// one error naming the operator. The context name is threaded in.
pub open spec fn spec_check_exp(e: Exp, env: ScopeModel, props: ScopeModel, ctx: Seq<char>) -> (
    Ty,
    Seq<Seq<char>>,
)
    decreases e, 0nat, 0nat,
{
    match e {
        Exp::Int(_, _) => (Ty::Int, Seq::empty()),
        Exp::StringLiteral(_, _) => (Ty::Text, Seq::empty()),
        Exp::Bool(_, _) => (Ty::Bool, Seq::empty()),
        Exp::Var(name, line) => match scope_get(env, name@) {
            Some(t) => (t, Seq::empty()),
            None => match scope_get(props, name@) {
                Some(t) => (t, Seq::empty()),
                None => (
                    Ty::Unknown,
                    seq![
                        spec_message(ctx, "Undefined variable: "@, name@, line as int)
                    ],
                ),
            },
        },
        Exp::BinaryOp(l, op, r, _) => {
            let a = spec_check_exp(*l, env, props, ctx);
            let b = spec_check_exp(*r, env, props, ctx);
            if op@ == "+"@ && (a.0 is Text || b.0 is Text) {
                (Ty::Text, a.1 + b.1)
            } else if op@ != "+"@ && (a.0 is Text || b.0 is Text) {
                (
                    Ty::Unknown,
                    a.1 + b.1 + seq![
                        spec_message(ctx, "Cannot use this operator on a String"@, op@, 0)
                    ],
                )
            } else {
                (Ty::Int, a.1 + b.1)
            }
        },
        Exp::Dot(obj, field, _) => {
            let a = spec_check_exp(*obj, env, props, ctx);
            (
                match scope_get(props, field@) {
                    Some(t) => t,
                    None => Ty::Unknown,
                },
                a.1,
            )
        },
        Exp::Index(lst, idx, _) => {
            let a = spec_check_exp(*lst, env, props, ctx);
            let b = spec_check_exp(*idx, env, props, ctx);
            (Ty::Unknown, a.1 + b.1)
        },
        Exp::List(items, _) => (
            Ty::List,
            spec_check_items(items, items.len() as int, env, props, ctx),
        ),
        Exp::Call(name, args, _) => {
            let c = spec_check_items(args, args.len() as int, env, props, ctx);
            if name@ == "random"@ || name@ == "len"@ || name@ == "dist"@ {
                (Ty::Int, c)
            } else if name@ == "get_at"@ {
                (Ty::Object, c)
            } else {
                (Ty::Unknown, c)
            }
        },
    }
}

/// The diagnostics of the first `k` expressions of a list.
pub open spec fn spec_check_items(
    items: Vec<Exp>,
    k: int,
    env: ScopeModel,
    props: ScopeModel,
    ctx: Seq<char>,
) -> Seq<Seq<char>>
    decreases items, 1nat, k,
{
    if k <= 0 || items.len() < k {
        Seq::empty()
    } else {
        spec_check_items(items, k - 1, env, props, ctx) + spec_check_exp(
            items[k - 1],
            env,
            props,
            ctx,
        ).1
    }
}

/// The diagnostics of a boolean expression.
pub open spec fn spec_check_bexp(be: BExp, env: ScopeModel, props: ScopeModel, ctx: Seq<char>) -> Seq<
    Seq<char>,
>
    decreases be,
{
    match be {
        BExp::Equal(l, r) => spec_check_exp(l, env, props, ctx).1 + spec_check_exp(
            r,
            env,
            props,
            ctx,
        ).1,
        BExp::NotEqual(l, r) => spec_check_exp(l, env, props, ctx).1 + spec_check_exp(
            r,
            env,
            props,
            ctx,
        ).1,
        BExp::Greater(l, r) => spec_check_exp(l, env, props, ctx).1 + spec_check_exp(
            r,
            env,
            props,
            ctx,
        ).1,
        BExp::Less(l, r) => spec_check_exp(l, env, props, ctx).1 + spec_check_exp(
            r,
            env,
            props,
            ctx,
        ).1,
        BExp::GreaterEqual(l, r) => spec_check_exp(l, env, props, ctx).1 + spec_check_exp(
            r,
            env,
            props,
            ctx,
        ).1,
        BExp::LessEqual(l, r) => spec_check_exp(l, env, props, ctx).1 + spec_check_exp(
            r,
            env,
            props,
            ctx,
        ).1,
        BExp::And(l, r) => spec_check_bexp(*l, env, props, ctx) + spec_check_bexp(
            *r,
            env,
            props,
            ctx,
        ),
        BExp::Or(l, r) => spec_check_bexp(*l, env, props, ctx) + spec_check_bexp(
            *r,
            env,
            props,
            ctx,
        ),
    }
}


/// Builds a positioned diagnostic.
fn message(context: &String, what: &str, name: &String, line: usize) -> (r: String)
    ensures
        r@ == spec_message(context@, what@, name@, line as int),
{
    let mut out = String::from_str("[");
    out.append(context.as_str());
    out.append("] ");
    out.append(what);
    out.append(name.as_str());
    out.append(" at line ");
    let l: i32 = if line > (i32::MAX as usize) {
        i32::MAX
    } else {
        line as i32
    };
    out.append(int_to_string(l).as_str());
    out
}

/// Checks one expression, appending one diagnostic per undefined variable
/// and per misuse of a non-`+` operator on a text operand.
pub fn check_exp(
    e: &Exp,
    env: &Scope,
    props: &Scope,
    errors: &mut Vec<String>,
    context: &String,
) -> (r: Ty)
    ensures
        r == spec_check_exp(*e, env@, props@, context@).0,
        msgs_view(final(errors)@) == msgs_view(old(errors)@) + spec_check_exp(
            *e,
            env@,
            props@,
            context@,
        ).1,
    decreases e, 0nat, 0nat,
{
    proof {
        assert(msgs_view(errors@) + Seq::<Seq<char>>::empty() =~= msgs_view(errors@));
    }
    match e {
        Exp::Int(_, _) => Ty::Int,
        Exp::StringLiteral(_, _) => Ty::Text,
        Exp::Bool(_, _) => Ty::Bool,
        Exp::Var(name, line) => {
            match env.get(name) {
                Some(t) => t,
                None => match props.get(name) {
                    Some(t) => t,
                    None => {
                        let m = message(context, "Undefined variable: ", name, *line);
                        let ghost before = msgs_view(errors@);
                        errors.push(m);
                        proof {
                            assert(msgs_view(errors@) =~= before.push(m@));
                            assert(msgs_view(old(errors)@) + seq![m@] =~= msgs_view(errors@));
                        }
                        Ty::Unknown
                    },
                },
            }
        },
        Exp::BinaryOp(l, op, r, _) => {
            let lt = check_exp(l, env, props, errors, context);
            let rt = check_exp(r, env, props, errors, context);
            let plus = op.eq(&String::from_str("+"));
            if plus && (matches!(lt, Ty::Text) || matches!(rt, Ty::Text)) {
                Ty::Text
            } else if !plus && (matches!(lt, Ty::Text) || matches!(rt, Ty::Text)) {
                let m = message(context, "Cannot use this operator on a String", op, 0);
                let ghost before = msgs_view(errors@);
                errors.push(m);
                proof {
                    assert(msgs_view(errors@) =~= before.push(m@));
                    assert(msgs_view(old(errors)@) + (spec_check_exp(
                        *e,
                        env@,
                        props@,
                        context@,
                    ).1) =~= msgs_view(errors@));
                }
                Ty::Unknown
            } else {
                Ty::Int
            }
        },
        Exp::Dot(obj, field, _) => {
            let _ = check_exp(obj, env, props, errors, context);
            match props.get(field) {
                Some(t) => t,
                None => Ty::Unknown,
            }
        },
        Exp::Index(lst, idx, _) => {
            let _ = check_exp(lst, env, props, errors, context);
            let _ = check_exp(idx, env, props, errors, context);
            Ty::Unknown
        },
        Exp::List(items, _) => {
            check_items(items, env, props, errors, context);
            Ty::List
        },
        Exp::Call(name, args, _) => {
            check_items(args, env, props, errors, context);
            if name.eq(&String::from_str("random")) || name.eq(&String::from_str("len"))
                || name.eq(&String::from_str("dist")) {
                Ty::Int
            } else if name.eq(&String::from_str("get_at")) {
                Ty::Object
            } else {
                Ty::Unknown
            }
        },
    }
}

/// Checks each expression of a list.
fn check_items(
    items: &Vec<Exp>,
    env: &Scope,
    props: &Scope,
    errors: &mut Vec<String>,
    context: &String,
)
    ensures
        msgs_view(final(errors)@) == msgs_view(old(errors)@) + spec_check_items(
            *items,
            items@.len() as int,
            env@,
            props@,
            context@,
        ),
    decreases items, 1nat, 0nat,
{
    proof {
        assert(msgs_view(errors@) + Seq::<Seq<char>>::empty() =~= msgs_view(errors@));
    }
    let n = items.len();
    let mut i: usize = 0;
    while i < n
        invariant
            n == items@.len(),
            i <= n,
            msgs_view(errors@) == msgs_view(old(errors)@) + spec_check_items(
                *items,
                i as int,
                env@,
                props@,
                context@,
            ),
        decreases n - i,
    {
        let _ = check_exp(&items[i], env, props, errors, context);
        i += 1;
    }
}

/// Checks a boolean expression.
pub fn check_bexp(
    be: &BExp,
    env: &Scope,
    props: &Scope,
    errors: &mut Vec<String>,
    context: &String,
)
    ensures
        msgs_view(final(errors)@) == msgs_view(old(errors)@) + spec_check_bexp(
            *be,
            env@,
            props@,
            context@,
        ),
    decreases be,
{
    proof {
        assert(msgs_view(errors@) + Seq::<Seq<char>>::empty() =~= msgs_view(errors@));
    }
    match be {
        BExp::Equal(l, r) => {
            let _ = check_exp(l, env, props, errors, context);
            let _ = check_exp(r, env, props, errors, context);
        },
        BExp::NotEqual(l, r) => {
            let _ = check_exp(l, env, props, errors, context);
            let _ = check_exp(r, env, props, errors, context);
        },
        BExp::Greater(l, r) => {
            let _ = check_exp(l, env, props, errors, context);
            let _ = check_exp(r, env, props, errors, context);
        },
        BExp::Less(l, r) => {
            let _ = check_exp(l, env, props, errors, context);
            let _ = check_exp(r, env, props, errors, context);
        },
        BExp::GreaterEqual(l, r) => {
            let _ = check_exp(l, env, props, errors, context);
            let _ = check_exp(r, env, props, errors, context);
        },
        BExp::LessEqual(l, r) => {
            let _ = check_exp(l, env, props, errors, context);
            let _ = check_exp(r, env, props, errors, context);
        },
        BExp::And(l, r) => {
            check_bexp(l, env, props, errors, context);
            check_bexp(r, env, props, errors, context);
        },
        BExp::Or(l, r) => {
            check_bexp(l, env, props, errors, context);
            check_bexp(r, env, props, errors, context);
        },
    }
}

/// The scope and diagnostic count after checking the first `k` commands:
/// a plain assignment binds its target's inferred type; `for` over the
/// agent grid binds the loop variable as an object for the body.
pub open spec fn spec_check_cmds(
    cmds: Vec<Command>,
    k: int,
    env: ScopeModel,
    props: ScopeModel,
    ctx: Seq<char>,
) -> (ScopeModel, Seq<Seq<char>>)
    decreases cmds, 2nat, k,
{
    if k <= 0 || cmds.len() < k {
        (env, Seq::empty())
    } else {
        let a = spec_check_cmds(cmds, k - 1, env, props, ctx);
        let b = spec_check_cmd(cmds[k - 1], a.0, props, ctx);
        (b.0, a.1 + b.1)
    }
}

/// One command's scope effect and diagnostic count.
pub open spec fn spec_check_cmd(c: Command, env: ScopeModel, props: ScopeModel, ctx: Seq<char>) -> (
    ScopeModel,
    Seq<Seq<char>>,
)
    decreases c, 3nat, 0nat,
{
    match c {
        Command::Assign { target, value, line: _ } => {
            let v = spec_check_exp(value, env, props, ctx);
            match target {
                Exp::Var(name, _) => (scope_set(env, name@, v.0), v.1),
                Exp::Dot(obj, _, _) => (env, v.1 + spec_check_exp(*obj, env, props, ctx).1),
                _ => (env, v.1),
            }
        },
        Command::If { condition, then_block, else_block, line: _ } => {
            let cb = spec_check_bexp(condition, env, props, ctx);
            let tb = spec_check_cmds(then_block, then_block.len() as int, env, props, ctx);
            let eb = match else_block {
                Some(b) => spec_check_cmds(b, b.len() as int, env, props, ctx).1,
                None => Seq::empty(),
            };
            (env, cb + tb.1 + eb)
        },
        Command::While { condition, body, line: _ } => {
            let cb = spec_check_bexp(condition, env, props, ctx);
            let bb = spec_check_cmds(body, body.len() as int, env, props, ctx);
            (env, cb + bb.1)
        },
        Command::Spawn { species: _, x, y, line: _ } => (
            env,
            spec_check_exp(x, env, props, ctx).1 + spec_check_exp(y, env, props, ctx).1,
        ),
        Command::Print(exps, _) => (
            env,
            spec_check_items(exps, exps.len() as int, env, props, ctx),
        ),
        Command::Return(e, _) => (env, spec_check_exp(e, env, props, ctx).1),
        Command::Exp(e, _) => (env, spec_check_exp(e, env, props, ctx).1),
        Command::For { var, collection, body, line: _ } => {
            let inner = if collection@ == "environment"@ {
                scope_set(env, var@, Ty::Object)
            } else {
                env
            };
            (env, spec_check_cmds(body, body.len() as int, inner, props, ctx).1)
        },
    }
}

/// Checks a command block, threading the scope and appending diagnostics;
/// a dynamic property created through an object field adds a note, never
/// an error.
pub fn check_commands(
    cmds: &Vec<Command>,
    env: &Scope,
    props: &Scope,
    errors: &mut Vec<String>,
    notes: &mut Vec<String>,
    context: &String,
)
    ensures
        msgs_view(final(errors)@) == msgs_view(old(errors)@) + spec_check_cmds(
            *cmds,
            cmds@.len() as int,
            env@,
            props@,
            context@,
        ).1,
    decreases cmds, 4nat, 0nat,
{
    proof {
        assert(msgs_view(errors@) + Seq::<Seq<char>>::empty() =~= msgs_view(errors@));
    }
    let mut current = env.duplicate();
    let n = cmds.len();
    let mut i: usize = 0;
    while i < n
        invariant
            n == cmds@.len(),
            i <= n,
            current@ == spec_check_cmds(*cmds, i as int, env@, props@, context@).0,
            msgs_view(errors@) == msgs_view(old(errors)@) + spec_check_cmds(
                *cmds,
                i as int,
                env@,
                props@,
                context@,
            ).1,
        decreases n - i,
    {
        check_command(&cmds[i], &mut current, props, errors, notes, context);
        i += 1;
    }
}

/// Checks one command against the current scope.
fn check_command(
    c: &Command,
    current: &mut Scope,
    props: &Scope,
    errors: &mut Vec<String>,
    notes: &mut Vec<String>,
    context: &String,
)
    ensures
        ({
            let s = spec_check_cmd(*c, old(current)@, props@, context@);
            final(current)@ == s.0 && msgs_view(final(errors)@) == msgs_view(old(errors)@) + s.1
        }),
    decreases c, 3nat, 0nat,
{
    proof {
        assert(msgs_view(errors@) + Seq::<Seq<char>>::empty() =~= msgs_view(errors@));
    }
    match c {
        Command::Assign { target, value, line } => {
            let vt = check_exp(value, current, props, errors, context);
            match target {
                Exp::Var(name, _) => {
                    current.set(name.clone(), vt);
                },
                Exp::Dot(obj, field, _) => {
                    let _ = check_exp(obj, current, props, errors, context);
                    let known = match props.get(field) {
                        Some(_) => true,
                        None => field.eq(&String::from_str("x")) || field.eq(
                            &String::from_str("y"),
                        ),
                    };
                    if !known {
                        let m = message(context, "Note: dynamic property ", field, *line);
                        notes.push(m);
                    }
                },
                _ => {},
            }
        },
        Command::If { condition, then_block, else_block, line: _ } => {
            check_bexp(condition, current, props, errors, context);
            check_commands(then_block, current, props, errors, notes, context);
            match else_block {
                Some(b) => {
                    check_commands(b, current, props, errors, notes, context);
                },
                None => {},
            }
        },
        Command::While { condition, body, line: _ } => {
            check_bexp(condition, current, props, errors, context);
            check_commands(body, current, props, errors, notes, context);
        },
        Command::Spawn { species: _, x, y, line: _ } => {
            let _ = check_exp(x, current, props, errors, context);
            let _ = check_exp(y, current, props, errors, context);
        },
        Command::Print(exps, _) => {
            check_items(exps, current, props, errors, context);
        },
        Command::Return(e, _) => {
            let _ = check_exp(e, current, props, errors, context);
        },
        Command::Exp(e, _) => {
            let _ = check_exp(e, current, props, errors, context);
        },
        Command::For { var, collection, body, line: _ } => {
            let mut inner = current.duplicate();
            if collection.eq(&String::from_str("environment")) {
                inner.set(var.clone(), Ty::Object);
            }
            check_commands(body, &inner, props, errors, notes, context);
        },
    }
}


/// The initial global scope: the world constants and the agent grid.
pub open spec fn spec_globals() -> ScopeModel {
    scope_set(
        scope_set(
            scope_set(scope_set(Seq::empty(), "width"@, Ty::Int), "height"@, Ty::Int),
            "steps"@,
            Ty::Int,
        ),
        "environment"@,
        Ty::Environment,
    )
}

/// The known property scope: the reserved agent fields, then every
/// declared species property with its inferred type.
pub open spec fn spec_props(program: Program) -> ScopeModel {
    spec_props_species(
        program.species_block,
        program.species_block.len() as int,
        scope_set(
            scope_set(
                scope_set(scope_set(Seq::empty(), "x"@, Ty::Int), "y"@, Ty::Int),
                "species"@,
                Ty::Text,
            ),
            "fitness"@,
            Ty::Int,
        ),
    )
}

/// The property scope extended by the first `k` species' declarations.
pub open spec fn spec_props_species(
    species: Vec<(String, crate::ast::SpeciesDef)>,
    k: int,
    acc: ScopeModel,
) -> ScopeModel
    decreases k,
{
    if k <= 0 || species.len() < k {
        acc
    } else {
        let a = spec_props_species(species, k - 1, acc);
        spec_props_of(species[k - 1].1.properties, species[k - 1].1.properties.len() as int, a)
    }
}

/// The property scope extended by the first `k` declarations of one
/// species.
pub open spec fn spec_props_of(props: Vec<(String, Exp)>, k: int, acc: ScopeModel) -> ScopeModel
    decreases k,
{
    if k <= 0 || props.len() < k {
        acc
    } else {
        let a = spec_props_of(props, k - 1, acc);
        scope_set(a, props[k - 1].0@, spec_infer_type(props[k - 1].1))
    }
}

/// The diagnostics of the first `k` routines, each checked with `self`
/// in scope.
pub open spec fn spec_check_routines(
    routines: Vec<crate::ast::RoutineDef>,
    k: int,
    globals: ScopeModel,
    props: ScopeModel,
) -> Seq<Seq<char>>
    decreases k,
{
    if k <= 0 || routines.len() < k {
        Seq::empty()
    } else {
        spec_check_routines(routines, k - 1, globals, props) + spec_check_cmds(
            routines[k - 1].body,
            routines[k - 1].body.len() as int,
            scope_set(globals, "self"@, Ty::Object),
            props,
            routines[k - 1].name@,
        ).1
    }
}

/// The diagnostics of the first `k` mutation rules: the crossover rule
/// sees the parents and the child, every other rule sees `self`.
pub open spec fn spec_check_rules(
    rules: Vec<crate::ast::MutationRule>,
    k: int,
    globals: ScopeModel,
    props: ScopeModel,
) -> Seq<Seq<char>>
    decreases k,
{
    if k <= 0 || rules.len() < k {
        Seq::empty()
    } else {
        let prior = spec_check_rules(rules, k - 1, globals, props);
        match rules[k - 1].body {
            Some(b) => {
                let locals = if rules[k - 1].action@ == "crossover"@ {
                    scope_set(
                        scope_set(
                            scope_set(globals, "parent1"@, Ty::Object),
                            "parent2"@,
                            Ty::Object,
                        ),
                        "child"@,
                        Ty::Object,
                    )
                } else {
                    scope_set(globals, "self"@, Ty::Object)
                };
                prior + spec_check_cmds(b, b.len() as int, locals, props, rules[k - 1].action@).1
            },
            None => prior,
        }
    }
}

/// The diagnostics of a whole program, in order and with their exact
/// messages: its routines, its spawn block, its fitness block, and its
/// mutation rules.
pub open spec fn spec_validate(program: Program) -> Seq<Seq<char>> {
    let globals = spec_globals();
    let props = spec_props(program);
    spec_check_routines(program.routines_block, program.routines_block.len() as int, globals, props)
        + spec_check_cmds(
        program.spawns_block,
        program.spawns_block.len() as int,
        globals,
        props,
        "SPAWN"@,
    ).1 + spec_check_cmds(
        program.fitness_block.commands,
        program.fitness_block.commands.len() as int,
        scope_set(globals, "self"@, Ty::Object),
        props,
        "FITNESS"@,
    ).1 + spec_check_rules(program.mutations_block, program.mutations_block.len() as int, globals, props)
}

/// Validates a program: `Ok` carries the informational notes; a non-empty
/// error list aborts the run and is returned as `Err`, one entry per
/// diagnosed undefined variable or operator misuse.
pub fn validate_program(prog: &Program) -> (r: Result<Vec<String>, Vec<String>>)
    ensures
        (r is Err) <==> spec_validate(*prog).len() > 0,
        r matches Err(e) ==> msgs_view(e@) == spec_validate(*prog),
{
    proof {
        assert(msgs_view(Seq::<String>::empty()) =~= Seq::<Seq<char>>::empty());
    }
    let mut globals = Scope::new();
    globals.set(String::from_str("width"), Ty::Int);
    globals.set(String::from_str("height"), Ty::Int);
    globals.set(String::from_str("steps"), Ty::Int);
    globals.set(String::from_str("environment"), Ty::Environment);
    let mut props = Scope::new();
    props.set(String::from_str("x"), Ty::Int);
    props.set(String::from_str("y"), Ty::Int);
    props.set(String::from_str("species"), Ty::Text);
    props.set(String::from_str("fitness"), Ty::Int);
    let ns = prog.species_block.len();
    let mut si: usize = 0;
    while si < ns
        invariant
            ns == prog.species_block@.len(),
            si <= ns,
            props@ == spec_props_species(
                prog.species_block,
                si as int,
                scope_set(
                    scope_set(
                        scope_set(scope_set(Seq::empty(), "x"@, Ty::Int), "y"@, Ty::Int),
                        "species"@,
                        Ty::Text,
                    ),
                    "fitness"@,
                    Ty::Int,
                ),
            ),
        decreases ns - si,
    {
        let np = prog.species_block[si].1.properties.len();
        let ghost accs = props@;
        let mut pi: usize = 0;
        while pi < np
            invariant
                si < prog.species_block@.len(),
                np == prog.species_block@[si as int].1.properties@.len(),
                pi <= np,
                props@ == spec_props_of(
                    prog.species_block@[si as int].1.properties,
                    pi as int,
                    accs,
                ),
            decreases np - pi,
        {
            let key = prog.species_block[si].1.properties[pi].0.clone();
            let t = infer_type(&prog.species_block[si].1.properties[pi].1);
            props.set(key, t);
            pi += 1;
        }
        si += 1;
    }
    let mut errors: Vec<String> = Vec::new();
    let mut notes: Vec<String> = Vec::new();
    let selfk = String::from_str("self");
    let mut self_scope = globals.duplicate();
    self_scope.set(selfk.clone(), Ty::Object);
    let nr = prog.routines_block.len();
    let mut ri: usize = 0;
    while ri < nr
        invariant
            nr == prog.routines_block@.len(),
            ri <= nr,
            self_scope@ == scope_set(spec_globals(), "self"@, Ty::Object),
            props@ == spec_props(*prog),
            msgs_view(errors@) == spec_check_routines(
                prog.routines_block,
                ri as int,
                spec_globals(),
                props@,
            ),
        decreases nr - ri,
    {
        let name = prog.routines_block[ri].name.clone();
        check_commands(&prog.routines_block[ri].body, &self_scope, &props, &mut errors, &mut notes, &name);
        ri += 1;
    }
    let ghost errs_routines = msgs_view(errors@);
    let spawn_ctx = String::from_str("SPAWN");
    check_commands(&prog.spawns_block, &globals, &props, &mut errors, &mut notes, &spawn_ctx);
    let fit_ctx = String::from_str("FITNESS");
    check_commands(
        &prog.fitness_block.commands,
        &self_scope,
        &props,
        &mut errors,
        &mut notes,
        &fit_ctx,
    );
    let ghost errs_mid = msgs_view(errors@);
    let crossk = String::from_str("crossover");
    let nm = prog.mutations_block.len();
    let mut mi: usize = 0;
    while mi < nm
        invariant
            nm == prog.mutations_block@.len(),
            mi <= nm,
            self_scope@ == scope_set(spec_globals(), "self"@, Ty::Object),
            globals@ == spec_globals(),
            props@ == spec_props(*prog),
            crossk@ == "crossover"@,
            msgs_view(errors@) == errs_mid + spec_check_rules(
                prog.mutations_block,
                mi as int,
                spec_globals(),
                props@,
            ),
        decreases nm - mi,
    {
        match &prog.mutations_block[mi].body {
            Some(b) => {
                let action = prog.mutations_block[mi].action.clone();
                if prog.mutations_block[mi].action.eq(&crossk) {
                    let mut locals = globals.duplicate();
                    locals.set(String::from_str("parent1"), Ty::Object);
                    locals.set(String::from_str("parent2"), Ty::Object);
                    locals.set(String::from_str("child"), Ty::Object);
                    check_commands(b, &locals, &props, &mut errors, &mut notes, &action);
                } else {
                    check_commands(b, &self_scope, &props, &mut errors, &mut notes, &action);
                }
            },
            None => {},
        }
        mi += 1;
    }
    if errors.len() == 0 {
        Ok(notes)
    } else {
        Err(errors)
    }
}

} // verus!
