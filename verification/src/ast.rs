//! The abstract syntax: expressions, boolean expressions, commands, and the
//! top-level program record produced by the parser. Each node carries the
//! source line it came from.

use vstd::prelude::*;

verus! {

broadcast use vstd::std_specs::vec::axiom_vec_index_decreases, vstd::seq::axiom_seq_index_decreases;

/// An expression of the language.
pub enum Exp {
    /// A literal number: `42`.
    Int(i32, usize),
    /// A literal truth value: `true`.
    Bool(bool, usize),
    /// A literal text: `"hello"`.
    StringLiteral(String, usize),
    /// A variable name: `x`.
    Var(String, usize),
    /// A field access: `self.energy`.
    Dot(Box<Exp>, String, usize),
    /// An arithmetic operation: `a + b`.
    BinaryOp(Box<Exp>, String, Box<Exp>, usize),
    /// A call: `random(1, 10)`.
    Call(String, Vec<Exp>, usize),
    /// An index access: `list[i]`.
    Index(Box<Exp>, Box<Exp>, usize),
    /// A list literal: `[1, 2, 3]`.
    List(Vec<Exp>, usize),
}

/// A boolean expression: a comparison, or a short-circuit combination.
pub enum BExp {
    Equal(Exp, Exp),
    NotEqual(Exp, Exp),
    Greater(Exp, Exp),
    Less(Exp, Exp),
    GreaterEqual(Exp, Exp),
    LessEqual(Exp, Exp),
    And(Box<BExp>, Box<BExp>),
    Or(Box<BExp>, Box<BExp>),
}

/// A command of the language.
pub enum Command {
    /// `target = value`, where the target is a variable, a field, or a list
    /// element.
    Assign { target: Exp, value: Exp, line: usize },
    /// `if (condition) { ... } else { ... }`.
    If { condition: BExp, then_block: Vec<Command>, else_block: Option<Vec<Command>>, line: usize },
    /// `while (condition) { ... }`.
    While { condition: BExp, body: Vec<Command>, line: usize },
    /// `for var in collection { ... }`; only the collection `environment`
    /// iterates, over the live agent list.
    For { var: String, collection: String, body: Vec<Command>, line: usize },
    /// `return exp`.
    Return(Exp, usize),
    /// `print(e, ...)`.
    Print(Vec<Exp>, usize),
    /// `spawn Species at (x, y)`.
    Spawn { species: String, x: Exp, y: Exp, line: usize },
    /// A bare expression statement.
    Exp(Exp, usize),
}

/// The definition of one species: its default properties, in declared
/// order, and the name of the routine it runs each tick.
pub struct SpeciesDef {
    /// Default property values, evaluated in declared order at spawn time.
    pub properties: Vec<(String, Exp)>,
    /// The routine invoked once per tick for each agent of the species.
    pub routine_call: String,
}

/// A named routine: a command body a species invokes once per tick.
pub struct RoutineDef {
    pub name: String,
    pub body: Vec<Command>,
}

/// A mutation or crossover rule. The grammar offers no syntax for a
/// probability, so every rule whose action name is recognized is applied
/// unconditionally.
pub struct MutationRule {
    /// The action name; `mutation` and `crossover` are the ones invoked.
    pub action: String,
    /// The rule body.
    pub body: Option<Vec<Command>>,
}

/// Settings of the evolutionary process.
pub struct EvolveBlock {
    pub generations: i32,
    pub instances: i32,
}

impl EvolveBlock {
    /// The defaults: one generation, one instance.
    pub fn new_default() -> (r: EvolveBlock)
        ensures
            r.generations == 1,
            r.instances == 1,
    {
        EvolveBlock { generations: 1, instances: 1 }
    }
}

/// The fitness block: a command body run against each agent.
pub struct FitnessBlock {
    pub commands: Vec<Command>,
}

/// The parsed, immutable program.
pub struct Program {
    /// World width, in cells.
    pub env_width: i32,
    /// World height, in cells.
    pub env_height: i32,
    /// Ticks simulated per generation.
    pub env_steps: i32,
    /// Routine definitions, looked up by name.
    pub routines_block: Vec<RoutineDef>,
    /// Species definitions, looked up by name.
    pub species_block: Vec<(String, SpeciesDef)>,
    /// The spawn block: commands run once to populate a world.
    pub spawns_block: Vec<Command>,
    /// The mutation rules.
    pub mutations_block: Vec<MutationRule>,
    /// The fitness block.
    pub fitness_block: FitnessBlock,
    /// Generation and instance counts.
    pub evolve_block: EvolveBlock,
    /// The visualization block.
    pub visualize_block: Vec<Command>,
    /// Whether a visualization block was given.
    pub visualize: bool,
}

/// The first routine named `name`, if any.
pub open spec fn spec_lookup_routine(rs: Seq<RoutineDef>, name: Seq<char>) -> Option<RoutineDef>
    decreases rs.len(),
{
    if rs.len() == 0 {
        None
    } else if rs[0].name@ == name {
        Some(rs[0])
    } else {
        spec_lookup_routine(rs.drop_first(), name)
    }
}

/// The first species entry named `name`, if any.
pub open spec fn spec_lookup_species(
    ss: Seq<(String, SpeciesDef)>,
    name: Seq<char>,
) -> Option<SpeciesDef>
    decreases ss.len(),
{
    if ss.len() == 0 {
        None
    } else if ss[0].0@ == name {
        Some(ss[0].1)
    } else {
        spec_lookup_species(ss.drop_first(), name)
    }
}

/// The first mutation rule whose action is `action`, if any.
pub open spec fn spec_lookup_rule(
    rules: Seq<MutationRule>,
    action: Seq<char>,
) -> Option<MutationRule>
    decreases rules.len(),
{
    if rules.len() == 0 {
        None
    } else if rules[0].action@ == action {
        Some(rules[0])
    } else {
        spec_lookup_rule(rules.drop_first(), action)
    }
}

impl Program {
    /// Finds the routine definition named `name`.
    pub fn lookup_routine(&self, name: &String) -> (r: Option<&RoutineDef>)
        ensures
            match r {
                Some(d) => spec_lookup_routine(self.routines_block@, name@) == Some(*d),
                None => spec_lookup_routine(self.routines_block@, name@) is None,
            },
    {
        let n = self.routines_block.len();
        proof {
            assert(self.routines_block@.skip(0) =~= self.routines_block@);
        }
        let mut i: usize = 0;
        while i < n
            invariant
                n == self.routines_block.len(),
                i <= n,
                spec_lookup_routine(self.routines_block@, name@)
                    == spec_lookup_routine(self.routines_block@.skip(i as int), name@),
            decreases n - i,
        {
            proof {
                assert(self.routines_block@.skip(i as int).drop_first()
                    =~= self.routines_block@.skip(i as int + 1));
            }
            if self.routines_block[i].name.eq(name) {
                return Some(&self.routines_block[i]);
            }
            i += 1;
        }
        None
    }

    /// Finds the species definition named `name`.
    pub fn lookup_species(&self, name: &String) -> (r: Option<&SpeciesDef>)
        ensures
            match r {
                Some(d) => spec_lookup_species(self.species_block@, name@) == Some(*d),
                None => spec_lookup_species(self.species_block@, name@) is None,
            },
    {
        let n = self.species_block.len();
        proof {
            assert(self.species_block@.skip(0) =~= self.species_block@);
        }
        let mut i: usize = 0;
        while i < n
            invariant
                n == self.species_block.len(),
                i <= n,
                spec_lookup_species(self.species_block@, name@)
                    == spec_lookup_species(self.species_block@.skip(i as int), name@),
            decreases n - i,
        {
            proof {
                assert(self.species_block@.skip(i as int).drop_first()
                    =~= self.species_block@.skip(i as int + 1));
            }
            if self.species_block[i].0.eq(name) {
                return Some(&self.species_block[i].1);
            }
            i += 1;
        }
        None
    }

    /// Finds the first mutation rule whose action name is `action`.
    pub fn lookup_rule(&self, action: &String) -> (r: Option<&MutationRule>)
        ensures
            match r {
                Some(d) => spec_lookup_rule(self.mutations_block@, action@) == Some(*d),
                None => spec_lookup_rule(self.mutations_block@, action@) is None,
            },
    {
        let n = self.mutations_block.len();
        proof {
            assert(self.mutations_block@.skip(0) =~= self.mutations_block@);
        }
        let mut i: usize = 0;
        while i < n
            invariant
                n == self.mutations_block.len(),
                i <= n,
                spec_lookup_rule(self.mutations_block@, action@)
                    == spec_lookup_rule(self.mutations_block@.skip(i as int), action@),
            decreases n - i,
        {
            proof {
                assert(self.mutations_block@.skip(i as int).drop_first()
                    =~= self.mutations_block@.skip(i as int + 1));
            }
            if self.mutations_block[i].action.eq(action) {
                return Some(&self.mutations_block[i]);
            }
            i += 1;
        }
        None
    }
}


/// Mathematical model of an expression; texts are character sequences.
#[verifier::ext_equal]
pub ghost enum ExpModel {
    Int(int, int),
    Bool(bool, int),
    StringLiteral(Seq<char>, int),
    Var(Seq<char>, int),
    Dot(Box<ExpModel>, Seq<char>, int),
    BinaryOp(Box<ExpModel>, Seq<char>, Box<ExpModel>, int),
    Call(Seq<char>, Seq<ExpModel>, int),
    Index(Box<ExpModel>, Box<ExpModel>, int),
    List(Seq<ExpModel>, int),
}

/// Mathematical model of a boolean expression.
#[verifier::ext_equal]
pub ghost enum BExpModel {
    Equal(ExpModel, ExpModel),
    NotEqual(ExpModel, ExpModel),
    Greater(ExpModel, ExpModel),
    Less(ExpModel, ExpModel),
    GreaterEqual(ExpModel, ExpModel),
    LessEqual(ExpModel, ExpModel),
    And(Box<BExpModel>, Box<BExpModel>),
    Or(Box<BExpModel>, Box<BExpModel>),
}

/// Mathematical model of a command.
#[verifier::ext_equal]
pub ghost enum CmdModel {
    Assign { target: ExpModel, value: ExpModel, line: int },
    If { condition: BExpModel, then_block: Seq<CmdModel>, else_block: Option<Seq<CmdModel>>, line: int },
    While { condition: BExpModel, body: Seq<CmdModel>, line: int },
    For { var: Seq<char>, collection: Seq<char>, body: Seq<CmdModel>, line: int },
    Return(ExpModel, int),
    Print(Seq<ExpModel>, int),
    Spawn { species: Seq<char>, x: ExpModel, y: ExpModel, line: int },
    Exp(ExpModel, int),
}

/// The model of an expression.
pub open spec fn exp_view(e: Exp) -> ExpModel
    decreases e, 0nat, 0nat,
{
    match e {
        Exp::Int(v, l) => ExpModel::Int(v as int, l as int),
        Exp::Bool(b, l) => ExpModel::Bool(b, l as int),
        Exp::StringLiteral(s, l) => ExpModel::StringLiteral(s@, l as int),
        Exp::Var(n, l) => ExpModel::Var(n@, l as int),
        Exp::Dot(o, f, l) => ExpModel::Dot(Box::new(exp_view(*o)), f@, l as int),
        Exp::BinaryOp(a, op, b, l) => ExpModel::BinaryOp(
            Box::new(exp_view(*a)),
            op@,
            Box::new(exp_view(*b)),
            l as int,
        ),
        Exp::Call(n, args, l) => ExpModel::Call(n@, exps_view(args@, args@.len() as int), l as int),
        Exp::Index(a, b, l) => ExpModel::Index(
            Box::new(exp_view(*a)),
            Box::new(exp_view(*b)),
            l as int,
        ),
        Exp::List(items, l) => ExpModel::List(exps_view(items@, items@.len() as int), l as int),
    }
}

/// The models of the first `k` expressions of a row.
pub open spec fn exps_view(s: Seq<Exp>, k: int) -> Seq<ExpModel>
    decreases s, 1nat, k,
{
    if k <= 0 || s.len() < k {
        Seq::empty()
    } else {
        exps_view(s, k - 1).push(exp_view(s[k - 1]))
    }
}

/// The model of a boolean expression.
pub open spec fn bexp_view(b: BExp) -> BExpModel
    decreases b,
{
    match b {
        BExp::Equal(l, r) => BExpModel::Equal(exp_view(l), exp_view(r)),
        BExp::NotEqual(l, r) => BExpModel::NotEqual(exp_view(l), exp_view(r)),
        BExp::Greater(l, r) => BExpModel::Greater(exp_view(l), exp_view(r)),
        BExp::Less(l, r) => BExpModel::Less(exp_view(l), exp_view(r)),
        BExp::GreaterEqual(l, r) => BExpModel::GreaterEqual(exp_view(l), exp_view(r)),
        BExp::LessEqual(l, r) => BExpModel::LessEqual(exp_view(l), exp_view(r)),
        BExp::And(l, r) => BExpModel::And(Box::new(bexp_view(*l)), Box::new(bexp_view(*r))),
        BExp::Or(l, r) => BExpModel::Or(Box::new(bexp_view(*l)), Box::new(bexp_view(*r))),
    }
}

/// The model of a command.
pub open spec fn cmd_view(c: Command) -> CmdModel
    decreases c, 0nat, 0nat,
{
    match c {
        Command::Assign { target, value, line } => CmdModel::Assign {
            target: exp_view(target),
            value: exp_view(value),
            line: line as int,
        },
        Command::If { condition, then_block, else_block, line } => CmdModel::If {
            condition: bexp_view(condition),
            then_block: cmds_view(then_block@, then_block@.len() as int),
            else_block: match else_block {
                Some(b) => Some(cmds_view(b@, b@.len() as int)),
                None => None,
            },
            line: line as int,
        },
        Command::While { condition, body, line } => CmdModel::While {
            condition: bexp_view(condition),
            body: cmds_view(body@, body@.len() as int),
            line: line as int,
        },
        Command::For { var, collection, body, line } => CmdModel::For {
            var: var@,
            collection: collection@,
            body: cmds_view(body@, body@.len() as int),
            line: line as int,
        },
        Command::Return(e, l) => CmdModel::Return(exp_view(e), l as int),
        Command::Print(exps, l) => CmdModel::Print(exps_view(exps@, exps@.len() as int), l as int),
        Command::Spawn { species, x, y, line } => CmdModel::Spawn {
            species: species@,
            x: exp_view(x),
            y: exp_view(y),
            line: line as int,
        },
        Command::Exp(e, l) => CmdModel::Exp(exp_view(e), l as int),
    }
}

/// The models of the first `k` commands of a block.
pub open spec fn cmds_view(s: Seq<Command>, k: int) -> Seq<CmdModel>
    decreases s, 1nat, k,
{
    if k <= 0 || s.len() < k {
        Seq::empty()
    } else {
        cmds_view(s, k - 1).push(cmd_view(s[k - 1]))
    }
}

/// Mathematical model of a species definition.
#[verifier::ext_equal]
pub ghost struct SpeciesDefModel {
    pub properties: Seq<(Seq<char>, ExpModel)>,
    pub routine_call: Seq<char>,
}

/// Mathematical model of a routine definition.
#[verifier::ext_equal]
pub ghost struct RoutineDefModel {
    pub name: Seq<char>,
    pub body: Seq<CmdModel>,
}

/// Mathematical model of a mutation rule.
#[verifier::ext_equal]
pub ghost struct MutationRuleModel {
    pub action: Seq<char>,
    pub body: Option<Seq<CmdModel>>,
}

/// Mathematical model of the evolution settings.
#[verifier::ext_equal]
pub ghost struct EvolveModel {
    pub generations: int,
    pub instances: int,
}

/// Mathematical model of a whole program.
#[verifier::ext_equal]
pub ghost struct ProgramModel {
    pub env_width: int,
    pub env_height: int,
    pub env_steps: int,
    pub routines_block: Seq<RoutineDefModel>,
    pub species_block: Seq<(Seq<char>, SpeciesDefModel)>,
    pub spawns_block: Seq<CmdModel>,
    pub mutations_block: Seq<MutationRuleModel>,
    pub fitness_block: Seq<CmdModel>,
    pub evolve_generations: int,
    pub evolve_instances: int,
    pub visualize_block: Seq<CmdModel>,
    pub visualize: bool,
}

/// The model of one declared property.
pub open spec fn prop_entry_view(p: (String, Exp)) -> (Seq<char>, ExpModel) {
    (p.0@, exp_view(p.1))
}

/// The models of a declared-property row.
pub open spec fn props_view(s: Seq<(String, Exp)>) -> Seq<(Seq<char>, ExpModel)> {
    s.map_values(|p: (String, Exp)| prop_entry_view(p))
}

/// The model of a species definition.
pub open spec fn species_def_view(d: SpeciesDef) -> SpeciesDefModel {
    SpeciesDefModel { properties: props_view(d.properties@), routine_call: d.routine_call@ }
}

/// The model of a routine definition.
pub open spec fn routine_def_view(r: RoutineDef) -> RoutineDefModel {
    RoutineDefModel { name: r.name@, body: cmds_view(r.body@, r.body@.len() as int) }
}

/// The models of a routine-definition row.
pub open spec fn routines_view(s: Seq<RoutineDef>) -> Seq<RoutineDefModel> {
    s.map_values(|r: RoutineDef| routine_def_view(r))
}

/// The model of one species entry.
pub open spec fn species_entry_view(e: (String, SpeciesDef)) -> (Seq<char>, SpeciesDefModel) {
    (e.0@, species_def_view(e.1))
}

/// The models of a species-entry row.
pub open spec fn species_list_view(s: Seq<(String, SpeciesDef)>) -> Seq<
    (Seq<char>, SpeciesDefModel),
> {
    s.map_values(|e: (String, SpeciesDef)| species_entry_view(e))
}

/// The model of one mutation rule.
pub open spec fn rule_view(r: MutationRule) -> MutationRuleModel {
    MutationRuleModel {
        action: r.action@,
        body: match r.body {
            Some(b) => Some(cmds_view(b@, b@.len() as int)),
            None => None,
        },
    }
}

/// The models of a mutation-rule row.
pub open spec fn rules_view(s: Seq<MutationRule>) -> Seq<MutationRuleModel> {
    s.map_values(|r: MutationRule| rule_view(r))
}

/// The model of a whole program.
pub open spec fn program_view(p: Program) -> ProgramModel {
    ProgramModel {
        env_width: p.env_width as int,
        env_height: p.env_height as int,
        env_steps: p.env_steps as int,
        routines_block: routines_view(p.routines_block@),
        species_block: species_list_view(p.species_block@),
        spawns_block: cmds_view(p.spawns_block@, p.spawns_block@.len() as int),
        mutations_block: rules_view(p.mutations_block@),
        fitness_block: cmds_view(p.fitness_block.commands@, p.fitness_block.commands@.len() as int),
        evolve_generations: p.evolve_block.generations as int,
        evolve_instances: p.evolve_block.instances as int,
        visualize_block: cmds_view(p.visualize_block@, p.visualize_block@.len() as int),
        visualize: p.visualize,
    }
}

} // verus!
