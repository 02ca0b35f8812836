//! The recursive-descent parser with one-token lookahead. The six blocks
//! ENVIRONMENT, SPECIES, EVOLVE, FITNESS, MUTATE and SPAWN are mandatory; a
//! program whose token stream lacks one of them never parses.

use vstd::prelude::*;

use crate::ast::{
    BExp, BExpModel, Command, CmdModel, EvolveBlock, Exp, ExpModel, FitnessBlock, MutationRule,
    MutationRuleModel, Program, ProgramModel, RoutineDef, RoutineDefModel, SpeciesDef,
    SpeciesDefModel,
};
use crate::lexer::{KindModel, TokModel, Token, TokenKind};
use crate::strings::int_to_string;

verus! {

broadcast use vstd::string::group_string_axioms;

/// The option keys of the ENVIRONMENT and EVOLVE blocks are distinct
/// words.
proof fn distinct_option_keys()
    ensures
        "width"@ != "height"@,
        "width"@ != "steps"@,
        "height"@ != "steps"@,
        "generations"@ != "instances"@,
{
    reveal_strlit("width");
    reveal_strlit("height");
    reveal_strlit("steps");
    reveal_strlit("generations");
    reveal_strlit("instances");
    assert("width"@.len() == 5);
    assert("height"@.len() == 6);
    assert("steps"@.len() == 5);
    assert("generations"@.len() == 11);
    assert("instances"@.len() == 9);
    assert("width"@[0] == 'w');
    assert("steps"@[0] == 's');
}

/// World settings read from the ENVIRONMENT block.
pub struct EnvDef {
    pub width: i32,
    pub height: i32,
    pub steps: i32,
}

/// Whether the token stream holds a token of the ENVIRONMENT keyword.
pub open spec fn has_environment(toks: Seq<TokModel>) -> bool {
    exists|j: int| 0 <= j < toks.len() && (#[trigger] toks[j]).kind is Environment
}

/// Whether the token stream holds a token of the SPECIES keyword.
pub open spec fn has_species(toks: Seq<TokModel>) -> bool {
    exists|j: int| 0 <= j < toks.len() && (#[trigger] toks[j]).kind is Species
}

/// Whether the token stream holds a token of the EVOLVE keyword.
pub open spec fn has_evolve(toks: Seq<TokModel>) -> bool {
    exists|j: int| 0 <= j < toks.len() && (#[trigger] toks[j]).kind is Evolve
}

/// Whether the token stream holds a token of the FITNESS keyword.
pub open spec fn has_fitness(toks: Seq<TokModel>) -> bool {
    exists|j: int| 0 <= j < toks.len() && (#[trigger] toks[j]).kind is Fitness
}

/// Whether the token stream holds a token of the MUTATE keyword.
pub open spec fn has_mutate(toks: Seq<TokModel>) -> bool {
    exists|j: int| 0 <= j < toks.len() && (#[trigger] toks[j]).kind is Mutate
}

/// Whether the token stream holds a token of the SPAWN keyword.
pub open spec fn has_spawn(toks: Seq<TokModel>) -> bool {
    exists|j: int| 0 <= j < toks.len() && (#[trigger] toks[j]).kind is Spawn
}

/// The parser: the token list and the cursor.
pub struct Parser {
    pub tokens: Vec<Token>,
    pub pos: usize,
}

impl Parser {
    /// A well-formed parser: at least the `EOF` sentinel remains ahead of
    /// the cursor, and the stream ends with it.
    pub open spec fn wf(&self) -> bool {
        &&& self.tokens@.len() >= 1
        &&& self.tokens@.last()@.kind is Eof
        &&& self.pos < self.tokens@.len()
    }

    /// The tokens of this parser, as models.
    pub open spec fn toks(&self) -> Seq<TokModel> {
        crate::lexer::toks_view(self.tokens@)
    }

    /// A parser over a lexed stream, which always ends with `EOF`.
    pub fn new(tokens: Vec<Token>) -> (r: Parser)
        requires
            tokens@.len() >= 1,
            tokens@.last()@.kind is Eof,
        ensures
            r.wf(),
            r.tokens == tokens,
            r.pos == 0,
    {
        Parser { tokens, pos: 0 }
    }

    /// The token under the cursor.
    fn peek(&self) -> (t: &Token)
        requires
            self.wf(),
        ensures
            *t == self.tokens@[self.pos as int],
    {
        &self.tokens[self.pos]
    }

    /// Moves past the current token; the `EOF` sentinel is never passed.
    fn bump(&mut self)
        requires
            old(self).wf(),
        ensures
            final(self).wf(),
            final(self).tokens == old(self).tokens,
            final(self).pos == if old(self).tokens@[old(self).pos as int]@.kind is Eof {
                old(self).pos as int
            } else {
                old(self).pos + 1
            },
    {
        let n = self.tokens.len();
        let is_eof = matches!(self.tokens[self.pos].kind, TokenKind::Eof);
        if !is_eof {
            proof {
                assert(self.pos < n);
            }
            proof {
                if self.pos as int + 1 == self.tokens@.len() {
                    assert(self.tokens@[self.pos as int] == self.tokens@.last());
                    assert(false);
                }
            }
            self.pos = self.pos + 1;
        }
    }

    /// A diagnostic naming the current source position.
    fn error(&self, msg: &str) -> (r: String)
        requires
            self.wf(),
    {
        let t = &self.tokens[self.pos];
        let mut out = String::from_str("Error at line ");
        out.append(int_to_string(t.line as i32).as_str());
        out.append(":");
        out.append(int_to_string(t.col as i32).as_str());
        out.append(": ");
        out.append(msg);
        out
    }

    /// Consumes the current token if its kind matches, and fails
    /// otherwise.
    fn expect(&mut self, expected: &TokenKind) -> (r: Result<(), String>)
        requires
            old(self).wf(),
        ensures
            final(self).wf(),
            final(self).tokens == old(self).tokens,
            old(self).pos <= final(self).pos,
            r is Ok <==> old(self).tokens@[old(self).pos as int]@.kind == expected@,
            r is Ok && !(expected@ is Eof) ==> final(self).pos == old(self).pos + 1,
            r is Err ==> final(self).pos == old(self).pos,
    {
        if kind_eq(&self.tokens[self.pos].kind, expected) {
            self.bump();
            Ok(())
        } else {
            Err(self.error("unexpected token"))
        }
    }
}

/// Compares two token kinds, payloads included.
fn kind_eq(a: &TokenKind, b: &TokenKind) -> (r: bool)
    ensures
        r == (a@ == b@),
{
    match (a, b) {
        (TokenKind::Environment, TokenKind::Environment) => true,
        (TokenKind::Species, TokenKind::Species) => true,
        (TokenKind::Evolve, TokenKind::Evolve) => true,
        (TokenKind::Mutate, TokenKind::Mutate) => true,
        (TokenKind::Fitness, TokenKind::Fitness) => true,
        (TokenKind::Visualize, TokenKind::Visualize) => true,
        (TokenKind::Routine, TokenKind::Routine) => true,
        (TokenKind::Spawn, TokenKind::Spawn) => true,
        (TokenKind::At, TokenKind::At) => true,
        (TokenKind::Random, TokenKind::Random) => true,
        (TokenKind::If, TokenKind::If) => true,
        (TokenKind::Else, TokenKind::Else) => true,
        (TokenKind::While, TokenKind::While) => true,
        (TokenKind::For, TokenKind::For) => true,
        (TokenKind::In, TokenKind::In) => true,
        (TokenKind::Return, TokenKind::Return) => true,
        (TokenKind::Print, TokenKind::Print) => true,
        (TokenKind::True, TokenKind::True) => true,
        (TokenKind::False, TokenKind::False) => true,
        (TokenKind::Identifier(x), TokenKind::Identifier(y)) => x.eq(y),
        (TokenKind::Number(x), TokenKind::Number(y)) => x == y,
        (TokenKind::StringLiteral(x), TokenKind::StringLiteral(y)) => x.eq(y),
        (TokenKind::LBrace, TokenKind::LBrace) => true,
        (TokenKind::RBrace, TokenKind::RBrace) => true,
        (TokenKind::LParen, TokenKind::LParen) => true,
        (TokenKind::RParen, TokenKind::RParen) => true,
        (TokenKind::LBracket, TokenKind::LBracket) => true,
        (TokenKind::RBracket, TokenKind::RBracket) => true,
        (TokenKind::Colon, TokenKind::Colon) => true,
        (TokenKind::SemiColon, TokenKind::SemiColon) => true,
        (TokenKind::Comma, TokenKind::Comma) => true,
        (TokenKind::Equal, TokenKind::Equal) => true,
        (TokenKind::Plus, TokenKind::Plus) => true,
        (TokenKind::Minus, TokenKind::Minus) => true,
        (TokenKind::Star, TokenKind::Star) => true,
        (TokenKind::Slash, TokenKind::Slash) => true,
        (TokenKind::Greater, TokenKind::Greater) => true,
        (TokenKind::Less, TokenKind::Less) => true,
        (TokenKind::GreaterEqual, TokenKind::GreaterEqual) => true,
        (TokenKind::LessEqual, TokenKind::LessEqual) => true,
        (TokenKind::DoubleEqual, TokenKind::DoubleEqual) => true,
        (TokenKind::NotEqual, TokenKind::NotEqual) => true,
        (TokenKind::Percent, TokenKind::Percent) => true,
        (TokenKind::Dot, TokenKind::Dot) => true,
        (TokenKind::And, TokenKind::And) => true,
        (TokenKind::Or, TokenKind::Or) => true,
        (TokenKind::Eof, TokenKind::Eof) => true,
        _ => false,
    }
}


impl Parser {
    /// Parses a whole source file into a program; the outcome is fixed by
    /// `spec_parse_program`: the parsed program with the documented
    /// defaults, or the first missing mandatory block named in the error,
    /// or a failure inside some block.
    #[verifier::rlimit(100)]
    #[verifier::spinoff_prover]
    pub fn parse_program(&mut self) -> (r: Result<Program, String>)
        requires
            old(self).wf(),
        ensures
            final(self).wf(),
            final(self).tokens == old(self).tokens,
            (match spec_parse_program(old(self).toks(), old(self).pos as int) {
                ParseOutcome::Parsed(pm) => r matches Ok(p) && crate::ast::program_view(p) == pm,
                ParseOutcome::MissingEnvironment => r matches Err(e) && e@
                    == "Syntax Error: Missing obligatory ENVIRONMENT block"@,
                ParseOutcome::MissingSpecies => r matches Err(e) && e@
                    == "Syntax Error: Missing obligatory SPECIES block"@,
                ParseOutcome::MissingEvolve => r matches Err(e) && e@
                    == "Syntax Error: Missing obligatory EVOLVE block"@,
                ParseOutcome::MissingFitness => r matches Err(e) && e@
                    == "Syntax Error: Missing obligatory FITNESS block"@,
                ParseOutcome::MissingMutate => r matches Err(e) && e@
                    == "Syntax Error: Missing obligatory MUTATE block"@,
                ParseOutcome::MissingSpawn => r matches Err(e) && e@
                    == "Syntax Error: Missing obligatory SPAWN block"@,
                ParseOutcome::Failed => r is Err,
            }),
            r is Ok ==> has_environment(final(self).toks()) && has_species(final(self).toks())
                && has_evolve(final(self).toks()) && has_fitness(final(self).toks()) && has_mutate(
                final(self).toks(),
            ) && has_spawn(final(self).toks()),
    {
        let mut env = EnvDef { width: 50, height: 50, steps: 10 };
        let mut routines: Vec<RoutineDef> = Vec::new();
        let mut species: Vec<(String, SpeciesDef)> = Vec::new();
        let mut spawns: Vec<Command> = Vec::new();
        let mut mutations: Vec<MutationRule> = Vec::new();
        let mut fitness = FitnessBlock { commands: Vec::new() };
        let mut evolve = EvolveBlock::new_default();
        let mut visualize_block: Vec<Command> = Vec::new();
        let mut found_environment = false;
        let mut found_species = false;
        let mut found_evolve = false;
        let mut found_fitness = false;
        let mut found_mutate = false;
        let mut found_spawn = false;
        let mut found_visualize = false;
        proof {
            assert(crate::ast::routines_view(routines@) =~= Seq::<RoutineDefModel>::empty());
            assert(crate::ast::species_list_view(species@) =~= Seq::<
                (Seq<char>, SpeciesDefModel),
            >::empty());
            assert(crate::ast::cmds_view(spawns@, 0) =~= Seq::<CmdModel>::empty());
            assert(crate::ast::rules_view(mutations@) =~= Seq::<MutationRuleModel>::empty());
            assert(crate::ast::cmds_view(fitness.commands@, 0) =~= Seq::<CmdModel>::empty());
            assert(crate::ast::cmds_view(visualize_block@, 0) =~= Seq::<CmdModel>::empty());
        }
        while !matches!(self.tokens[self.pos].kind, TokenKind::Eof)
            invariant
                self.wf(),
                self.tokens == old(self).tokens,
                old(self).pos <= self.pos,
                found_environment ==> has_environment(self.toks()),
                found_species ==> has_species(self.toks()),
                found_evolve ==> has_evolve(self.toks()),
                found_fitness ==> has_fitness(self.toks()),
                found_mutate ==> has_mutate(self.toks()),
                found_spawn ==> has_spawn(self.toks()),
                spec_parse_toplevel(old(self).toks(), old(self).pos as int, spec_parts_init())
                    == spec_parse_toplevel(
                    self.toks(),
                    self.pos as int,
                    PartsModel {
                        env_width: env.width as int,
                        env_height: env.height as int,
                        env_steps: env.steps as int,
                        routines: crate::ast::routines_view(routines@),
                        species: crate::ast::species_list_view(species@),
                        spawns: crate::ast::cmds_view(spawns@, spawns@.len() as int),
                        mutations: crate::ast::rules_view(mutations@),
                        fitness: crate::ast::cmds_view(
                            fitness.commands@,
                            fitness.commands@.len() as int,
                        ),
                        evolve_generations: evolve.generations as int,
                        evolve_instances: evolve.instances as int,
                        visualize_block: crate::ast::cmds_view(
                            visualize_block@,
                            visualize_block@.len() as int,
                        ),
                        found_environment,
                        found_species,
                        found_evolve,
                        found_fitness,
                        found_mutate,
                        found_spawn,
                        found_visualize,
                    },
                ),
            decreases self.tokens@.len() - self.pos,
        {
            proof {
                toks_pointwise(self.tokens@);
            }
            if matches!(self.tokens[self.pos].kind, TokenKind::Environment) {
                proof {
                    assert(self.toks()[self.pos as int].kind is Environment);
                }
                match self.parse_env_block() {
                    Ok(e) => {
                        env = e;
                    },
                    Err(e) => {
                        return Err(e);
                    },
                }
                found_environment = true;
            } else if matches!(self.tokens[self.pos].kind, TokenKind::Species) {
                proof {
                    assert(self.toks()[self.pos as int].kind is Species);
                }
                match self.parse_species_block() {
                    Ok(rs) => {
                        routines = rs.0;
                        species = rs.1;
                    },
                    Err(e) => {
                        return Err(e);
                    },
                }
                found_species = true;
            } else if matches!(self.tokens[self.pos].kind, TokenKind::Evolve) {
                proof {
                    assert(self.toks()[self.pos as int].kind is Evolve);
                }
                match self.parse_evolve_block() {
                    Ok(e) => {
                        evolve = e;
                    },
                    Err(e) => {
                        return Err(e);
                    },
                }
                found_evolve = true;
            } else if matches!(self.tokens[self.pos].kind, TokenKind::Fitness) {
                proof {
                    assert(self.toks()[self.pos as int].kind is Fitness);
                }
                self.bump();
                match self.parse_block() {
                    Ok(b) => {
                        fitness = FitnessBlock { commands: b };
                    },
                    Err(e) => {
                        return Err(e);
                    },
                }
                found_fitness = true;
            } else if matches!(self.tokens[self.pos].kind, TokenKind::Mutate) {
                proof {
                    assert(self.toks()[self.pos as int].kind is Mutate);
                }
                match self.parse_mutate_block() {
                    Ok(m) => {
                        mutations = m;
                    },
                    Err(e) => {
                        return Err(e);
                    },
                }
                found_mutate = true;
            } else if matches!(self.tokens[self.pos].kind, TokenKind::Visualize) {
                self.bump();
                match self.parse_block() {
                    Ok(b) => {
                        visualize_block = b;
                    },
                    Err(e) => {
                        return Err(e);
                    },
                }
                found_visualize = true;
            } else if matches!(self.tokens[self.pos].kind, TokenKind::Spawn) {
                proof {
                    assert(self.toks()[self.pos as int].kind is Spawn);
                }
                self.bump();
                match self.parse_block() {
                    Ok(b) => {
                        spawns = b;
                    },
                    Err(e) => {
                        return Err(e);
                    },
                }
                found_spawn = true;
            } else {
                self.bump();
            }
        }
        proof {
            toks_pointwise(self.tokens@);
        }
        if !found_environment {
            return Err(String::from_str("Syntax Error: Missing obligatory ENVIRONMENT block"));
        }
        if !found_species {
            return Err(String::from_str("Syntax Error: Missing obligatory SPECIES block"));
        }
        if !found_evolve {
            return Err(String::from_str("Syntax Error: Missing obligatory EVOLVE block"));
        }
        if !found_fitness {
            return Err(String::from_str("Syntax Error: Missing obligatory FITNESS block"));
        }
        if !found_mutate {
            return Err(String::from_str("Syntax Error: Missing obligatory MUTATE block"));
        }
        if !found_spawn {
            return Err(String::from_str("Syntax Error: Missing obligatory SPAWN block"));
        }
        let p = Program {
            env_width: env.width,
            env_height: env.height,
            env_steps: env.steps,
            routines_block: routines,
            species_block: species,
            spawns_block: spawns,
            mutations_block: mutations,
            fitness_block: fitness,
            evolve_block: evolve,
            visualize_block,
            visualize: found_visualize,
        };
        proof {
            assert(crate::ast::program_view(p) =~= spec_assemble(
                match spec_parse_toplevel(
                    old(self).toks(),
                    old(self).pos as int,
                    spec_parts_init(),
                ) {
                    Some(parts) => parts,
                    None => spec_parts_init(),
                },
            ));
        }
        Ok(p)
    }

    /// Parses the ENVIRONMENT block's options; `width`, `height` and
    /// `steps` default to 50, 50 and 10.
    #[verifier::spinoff_prover]
    fn parse_env_block(&mut self) -> (r: Result<EnvDef, String>)
        requires
            old(self).wf(),
        ensures
            final(self).wf(),
            final(self).tokens == old(self).tokens,
            old(self).pos <= final(self).pos,
            r is Ok ==> old(self).pos < final(self).pos,
            (match spec_parse_env_block(old(self).toks(), old(self).pos as int) {
                Some(pr) => r matches Ok(env) && env.width as int == pr.0.0 && env.height as int
                    == pr.0.1 && env.steps as int == pr.0.2 && final(self).pos as int == pr.1,
                None => r is Err,
            }),
        decreases old(self).tokens@.len() - old(self).pos, 12nat,
    {
        proof {
            toks_pointwise(self.tokens@);
        }
        let r = self.expect(&TokenKind::Environment);
        if let Err(e) = r {
            return Err(e);
        }
        let r = self.expect(&TokenKind::LBrace);
        if let Err(e) = r {
            return Err(e);
        }
        let mut env = EnvDef { width: 50, height: 50, steps: 10 };
        while !matches!(self.tokens[self.pos].kind, TokenKind::RBrace) && !matches!(
            self.tokens[self.pos].kind,
            TokenKind::Eof,
        )
            invariant
                self.wf(),
                self.tokens == old(self).tokens,
                old(self).pos + 2 <= self.pos,
                spec_env_rest(old(self).toks(), old(self).pos + 2, 50, 50, 10) == spec_env_rest(
                    self.toks(),
                    self.pos as int,
                    env.width as int,
                    env.height as int,
                    env.steps as int,
                ),
            decreases self.tokens@.len() - self.pos,
        {
            let ghost i0 = self.pos as int;
            let ghost w0 = env.width as int;
            let ghost h0 = env.height as int;
            let ghost s0 = env.steps as int;
            proof {
                toks_pointwise(self.tokens@);
                reveal_strlit("width");
                reveal_strlit("height");
                reveal_strlit("steps");
            }
            let key = match &self.tokens[self.pos].kind {
                TokenKind::Identifier(n) => n.clone(),
                _ => {
                    return Err(self.error("Expected Key in ENVIRONMENT"));
                },
            };
            self.bump();
            let r = self.expect(&TokenKind::Colon);
            if let Err(e) = r {
                return Err(e);
            }
            proof {
                toks_pointwise(self.tokens@);
            }
            if key.eq(&String::from_str("width")) {
                if let TokenKind::Number(v) = &self.tokens[self.pos].kind {
                    env.width = *v;
                }
                self.bump();
            } else if key.eq(&String::from_str("height")) {
                if let TokenKind::Number(v) = &self.tokens[self.pos].kind {
                    env.height = *v;
                }
                self.bump();
            } else if key.eq(&String::from_str("steps")) {
                if let TokenKind::Number(v) = &self.tokens[self.pos].kind {
                    env.steps = *v;
                }
                self.bump();
            } else {
                self.bump();
            }
            proof {
                toks_pointwise(self.tokens@);
            }
            if matches!(self.tokens[self.pos].kind, TokenKind::Comma) {
                self.bump();
            }
            proof {
                toks_pointwise(self.tokens@);
                reveal_strlit("width");
                reveal_strlit("height");
                reveal_strlit("steps");
                distinct_option_keys();
                let ghost t2 = self.toks();
                assert(t2[i0].kind == crate::lexer::KindModel::Identifier(key@));
                assert(t2[i0 + 1].kind is Colon);
                if t2[i0 + 2].kind is Eof {
                    assert(spec_env_rest(t2, i0, w0, h0, s0) is None);
                    assert(self.pos == i0 + 2);
                    assert(spec_env_rest(
                        t2,
                        self.pos as int,
                        env.width as int,
                        env.height as int,
                        env.steps as int,
                    ) is None);
                } else {
                    assert(self.pos == i0 + 3 || self.pos == i0 + 4);
                    let ghost gotv: Option<int> = match t2[i0 + 2].kind {
                        crate::lexer::KindModel::Number(v) => Some(v),
                        _ => None,
                    };
                    let ghost w1 = if key@ == "width"@ && gotv is Some { gotv->0 } else { w0 };
                    let ghost h1 = if key@ == "height"@ && gotv is Some { gotv->0 } else { h0 };
                    let ghost s1 = if key@ == "steps"@ && gotv is Some { gotv->0 } else { s0 };
                    let ghost jj = if i0 + 3 < t2.len() && t2[i0 + 3].kind is Comma {
                        i0 + 4
                    } else {
                        i0 + 3
                    };
                    assert(spec_env_rest(t2, i0, w0, h0, s0) == spec_env_rest(t2, jj, w1, h1, s1));
                    assert(jj == self.pos as int);
                    assert(w1 == env.width as int);
                    assert(h1 == env.height as int);
                    assert(s1 == env.steps as int);
                }
                assert(spec_env_rest(t2, i0, w0, h0, s0) == spec_env_rest(
                    t2,
                    self.pos as int,
                    env.width as int,
                    env.height as int,
                    env.steps as int,
                ));
            }
        }
        proof {
            toks_pointwise(self.tokens@);
        }
        let r = self.expect(&TokenKind::RBrace);
        if let Err(e) = r {
            return Err(e);
        }
        Ok(env)
    }

    /// Parses the EVOLVE block's options; `generations` and `instances`
    /// default to 1 and 1.
    #[verifier::spinoff_prover]
    fn parse_evolve_block(&mut self) -> (r: Result<EvolveBlock, String>)
        requires
            old(self).wf(),
        ensures
            final(self).wf(),
            final(self).tokens == old(self).tokens,
            old(self).pos <= final(self).pos,
            r is Ok ==> old(self).pos < final(self).pos,
            (match spec_parse_evolve_block(old(self).toks(), old(self).pos as int) {
                Some(pr) => r matches Ok(ev) && ev.generations as int == pr.0.0
                    && ev.instances as int == pr.0.1 && final(self).pos as int == pr.1,
                None => r is Err,
            }),
        decreases old(self).tokens@.len() - old(self).pos, 12nat,
    {
        proof {
            toks_pointwise(self.tokens@);
        }
        let r = self.expect(&TokenKind::Evolve);
        if let Err(e) = r {
            return Err(e);
        }
        let r = self.expect(&TokenKind::LBrace);
        if let Err(e) = r {
            return Err(e);
        }
        let mut evolve = EvolveBlock::new_default();
        while !matches!(self.tokens[self.pos].kind, TokenKind::RBrace) && !matches!(
            self.tokens[self.pos].kind,
            TokenKind::Eof,
        )
            invariant
                self.wf(),
                self.tokens == old(self).tokens,
                old(self).pos + 2 <= self.pos,
                spec_evolve_rest(old(self).toks(), old(self).pos + 2, 1, 1) == spec_evolve_rest(
                    self.toks(),
                    self.pos as int,
                    evolve.generations as int,
                    evolve.instances as int,
                ),
            decreases self.tokens@.len() - self.pos,
        {
            let ghost i0 = self.pos as int;
            let ghost g0 = evolve.generations as int;
            let ghost n0 = evolve.instances as int;
            proof {
                toks_pointwise(self.tokens@);
            }
            let key = match &self.tokens[self.pos].kind {
                TokenKind::Identifier(n) => n.clone(),
                _ => {
                    return Err(self.error("Expected key"));
                },
            };
            self.bump();
            let r = self.expect(&TokenKind::Colon);
            if let Err(e) = r {
                return Err(e);
            }
            proof {
                toks_pointwise(self.tokens@);
            }
            if key.eq(&String::from_str("generations")) {
                if let TokenKind::Number(v) = &self.tokens[self.pos].kind {
                    evolve.generations = *v;
                }
                self.bump();
            } else if key.eq(&String::from_str("instances")) {
                if let TokenKind::Number(v) = &self.tokens[self.pos].kind {
                    evolve.instances = *v;
                }
                self.bump();
            } else {
                self.bump();
            }
            proof {
                toks_pointwise(self.tokens@);
            }
            if matches!(self.tokens[self.pos].kind, TokenKind::Comma) {
                self.bump();
            }
            proof {
                toks_pointwise(self.tokens@);
                distinct_option_keys();
                let ghost t2 = self.toks();
                assert(t2[i0].kind == crate::lexer::KindModel::Identifier(key@));
                assert(t2[i0 + 1].kind is Colon);
                assert(spec_evolve_rest(t2, i0, g0, n0) == spec_evolve_rest(
                    t2,
                    self.pos as int,
                    evolve.generations as int,
                    evolve.instances as int,
                ));
            }
        }
        proof {
            toks_pointwise(self.tokens@);
        }
        let r = self.expect(&TokenKind::RBrace);
        if let Err(e) = r {
            return Err(e);
        }
        Ok(evolve)
    }

    /// Parses the MUTATE block: named rules, each a key, a colon and a
    /// command block.
    #[verifier::rlimit(100)]
    #[verifier::spinoff_prover]
    fn parse_mutate_block(&mut self) -> (r: Result<Vec<MutationRule>, String>)
        requires
            old(self).wf(),
        ensures
            final(self).wf(),
            final(self).tokens == old(self).tokens,
            old(self).pos <= final(self).pos,
            r is Ok ==> old(self).pos < final(self).pos,
            (match spec_parse_mutate_block(old(self).toks(), old(self).pos as int) {
                Some(pr) => r matches Ok(rules) && crate::ast::rules_view(rules@) == pr.0 && final(self).pos as int == pr.1,
                None => r is Err,
            }),
        decreases old(self).tokens@.len() - old(self).pos, 12nat,
    {
        proof {
            toks_pointwise(self.tokens@);
        }
        let r = self.expect(&TokenKind::Mutate);
        if let Err(e) = r {
            return Err(e);
        }
        let r = self.expect(&TokenKind::LBrace);
        if let Err(e) = r {
            return Err(e);
        }
        let mut rules: Vec<MutationRule> = Vec::new();
        proof {
            assert(crate::ast::rules_view(rules@) =~= Seq::<MutationRuleModel>::empty());
        }
        while !matches!(self.tokens[self.pos].kind, TokenKind::RBrace) && !matches!(
            self.tokens[self.pos].kind,
            TokenKind::Eof,
        )
            invariant
                self.wf(),
                self.tokens == old(self).tokens,
                old(self).pos + 2 <= self.pos,
                spec_mutate_rest(old(self).toks(), old(self).pos + 2, Seq::empty())
                    == spec_mutate_rest(
                    self.toks(),
                    self.pos as int,
                    crate::ast::rules_view(rules@),
                ),
            decreases self.tokens@.len() - self.pos,
        {
            proof {
                toks_pointwise(self.tokens@);
            }
            let key = match &self.tokens[self.pos].kind {
                TokenKind::Identifier(n) => n.clone(),
                _ => {
                    return Err(self.error("Expected key"));
                },
            };
            self.bump();
            let r = self.expect(&TokenKind::Colon);
            if let Err(e) = r {
                return Err(e);
            }
            let body = match self.parse_block() {
                Ok(b) => b,
                Err(e) => {
                    return Err(e);
                },
            };
            let ghost prev = rules@;
            rules.push(MutationRule { action: key, body: Some(body) });
            proof {
                rules_view_pointwise(prev);
                rules_view_pointwise(rules@);
                assert(crate::ast::rules_view(rules@) =~= crate::ast::rules_view(prev).push(
                    crate::ast::rule_view(rules@.last()),
                ));
                toks_pointwise(self.tokens@);
            }
            if matches!(self.tokens[self.pos].kind, TokenKind::Comma) {
                self.bump();
            }
        }
        proof {
            toks_pointwise(self.tokens@);
        }
        let r = self.expect(&TokenKind::RBrace);
        if let Err(e) = r {
            return Err(e);
        }
        Ok(rules)
    }

    /// Parses one `ROUTINE name { ... }` definition.
    fn parse_routine_def(&mut self) -> (r: Result<RoutineDef, String>)
        requires
            old(self).wf(),
        ensures
            final(self).wf(),
            final(self).tokens == old(self).tokens,
            old(self).pos <= final(self).pos,
            r is Ok ==> old(self).pos < final(self).pos,
            (match spec_parse_routine_def(old(self).toks(), old(self).pos as int) {
                Some(pr) => r matches Ok(rt) && crate::ast::routine_def_view(rt) == pr.0 && final(self).pos as int == pr.1,
                None => r is Err,
            }),
        decreases old(self).tokens@.len() - old(self).pos, 12nat,
    {
        proof {
            toks_pointwise(self.tokens@);
        }
        let r = self.expect(&TokenKind::Routine);
        if let Err(e) = r {
            return Err(e);
        }
        proof {
            toks_pointwise(self.tokens@);
        }
        let name = match &self.tokens[self.pos].kind {
            TokenKind::Identifier(n) => n.clone(),
            _ => {
                return Err(self.error("Name"));
            },
        };
        self.bump();
        match self.parse_block() {
            Ok(body) => Ok(RoutineDef { name, body }),
            Err(e) => Err(e),
        }
    }

    /// Parses the SPAWN block: the SPAWN keyword and a command block.
    fn parse_spawn_block(&mut self) -> (r: Result<Vec<Command>, String>)
        requires
            old(self).wf(),
        ensures
            final(self).wf(),
            final(self).tokens == old(self).tokens,
            old(self).pos <= final(self).pos,
            r is Ok ==> old(self).pos < final(self).pos,
            old(self).toks()[old(self).pos as int].kind is Spawn ==> (
            match spec_parse_block(old(self).toks(), old(self).pos + 1) {
                Some(pr) => r matches Ok(cs) && crate::ast::cmds_view(cs@, cs@.len() as int)
                    == pr.0 && final(self).pos as int == pr.1,
                None => r is Err,
            }),
            !(old(self).toks()[old(self).pos as int].kind is Spawn) ==> r is Err,
        decreases old(self).tokens@.len() - old(self).pos, 12nat,
    {
        proof {
            toks_pointwise(self.tokens@);
        }
        let r = self.expect(&TokenKind::Spawn);
        if let Err(e) = r {
            return Err(e);
        }
        self.parse_block()
    }

    /// Parses the FITNESS block: the FITNESS keyword and a command block.
    fn parse_fitness_block(&mut self) -> (r: Result<FitnessBlock, String>)
        requires
            old(self).wf(),
        ensures
            final(self).wf(),
            final(self).tokens == old(self).tokens,
            old(self).pos <= final(self).pos,
            r is Ok ==> old(self).pos < final(self).pos,
            old(self).toks()[old(self).pos as int].kind is Fitness ==> (
            match spec_parse_block(old(self).toks(), old(self).pos + 1) {
                Some(pr) => r matches Ok(f) && crate::ast::cmds_view(
                    f.commands@,
                    f.commands@.len() as int,
                ) == pr.0 && final(self).pos as int == pr.1,
                None => r is Err,
            }),
            !(old(self).toks()[old(self).pos as int].kind is Fitness) ==> r is Err,
        decreases old(self).tokens@.len() - old(self).pos, 12nat,
    {
        proof {
            toks_pointwise(self.tokens@);
        }
        let r = self.expect(&TokenKind::Fitness);
        if let Err(e) = r {
            return Err(e);
        }
        match self.parse_block() {
            Ok(commands) => Ok(FitnessBlock { commands }),
            Err(e) => Err(e),
        }
    }

    /// Parses the SPECIES block: routine definitions and species
    /// definitions, a later duplicate name replacing an earlier one.
    #[verifier::rlimit(100)]
    #[verifier::spinoff_prover]
    fn parse_species_block(&mut self) -> (r: Result<
        (Vec<RoutineDef>, Vec<(String, SpeciesDef)>),
        String,
    >)
        requires
            old(self).wf(),
        ensures
            final(self).wf(),
            final(self).tokens == old(self).tokens,
            old(self).pos <= final(self).pos,
            r is Ok ==> old(self).pos < final(self).pos,
            (match spec_parse_species_block(old(self).toks(), old(self).pos as int) {
                Some(pr) => r matches Ok(rs) && crate::ast::routines_view(rs.0@) == pr.0.0
                    && crate::ast::species_list_view(rs.1@) == pr.0.1 && final(self).pos as int
                    == pr.1,
                None => r is Err,
            }),
        decreases old(self).tokens@.len() - old(self).pos, 13nat,
    {
        proof {
            toks_pointwise(self.tokens@);
        }
        let r = self.expect(&TokenKind::Species);
        if let Err(e) = r {
            return Err(e);
        }
        let r = self.expect(&TokenKind::LBrace);
        if let Err(e) = r {
            return Err(e);
        }
        let mut routines: Vec<RoutineDef> = Vec::new();
        let mut species: Vec<(String, SpeciesDef)> = Vec::new();
        proof {
            assert(crate::ast::routines_view(routines@) =~= Seq::<RoutineDefModel>::empty());
            assert(crate::ast::species_list_view(species@) =~= Seq::<
                (Seq<char>, SpeciesDefModel),
            >::empty());
        }
        while !matches!(self.tokens[self.pos].kind, TokenKind::RBrace) && !matches!(
            self.tokens[self.pos].kind,
            TokenKind::Eof,
        )
            invariant
                self.wf(),
                self.tokens == old(self).tokens,
                old(self).pos + 2 <= self.pos,
                spec_species_rest(old(self).toks(), old(self).pos + 2, Seq::empty(), Seq::empty())
                    == spec_species_rest(
                    self.toks(),
                    self.pos as int,
                    crate::ast::routines_view(routines@),
                    crate::ast::species_list_view(species@),
                ),
            decreases self.tokens@.len() - self.pos,
        {
            proof {
                toks_pointwise(self.tokens@);
            }
            if matches!(self.tokens[self.pos].kind, TokenKind::Routine) {
                let rt = match self.parse_routine_def() {
                    Ok(rt) => rt,
                    Err(e) => {
                        return Err(e);
                    },
                };
                insert_routine(&mut routines, rt);
                proof {
                    toks_pointwise(self.tokens@);
                }
                if matches!(self.tokens[self.pos].kind, TokenKind::Comma) {
                    self.bump();
                }
                continue ;
            }
            let name = match &self.tokens[self.pos].kind {
                TokenKind::Identifier(n) => n.clone(),
                _ => {
                    return Err(self.error("Expected species name"));
                },
            };
            self.bump();
            let r = self.expect(&TokenKind::LBrace);
            if let Err(e) = r {
                return Err(e);
            }
            let sp = match self.parse_species_entries() {
                Ok(sp) => sp,
                Err(e) => {
                    return Err(e);
                },
            };
            insert_species(&mut species, name, sp);
            proof {
                toks_pointwise(self.tokens@);
            }
            if matches!(self.tokens[self.pos].kind, TokenKind::Comma) {
                self.bump();
            }
        }
        proof {
            toks_pointwise(self.tokens@);
        }
        let r = self.expect(&TokenKind::RBrace);
        if let Err(e) = r {
            return Err(e);
        }
        Ok((routines, species))
    }

    /// Parses one species' entries after its opening `{`: default
    /// properties in declared order and the routine name.
    #[verifier::rlimit(100)]
    #[verifier::spinoff_prover]
    fn parse_species_entries(&mut self) -> (r: Result<SpeciesDef, String>)
        requires
            old(self).wf(),
        ensures
            final(self).wf(),
            final(self).tokens == old(self).tokens,
            old(self).pos <= final(self).pos,
            (match spec_species_props_rest(
                old(self).toks(),
                old(self).pos as int,
                Seq::empty(),
                Seq::empty(),
            ) {
                Some(pr) => r matches Ok(d) && crate::ast::species_def_view(d) == (SpeciesDefModel {
                    properties: pr.0.0,
                    routine_call: pr.0.1,
                }) && final(self).pos as int == pr.1,
                None => r is Err,
            }),
        decreases old(self).tokens@.len() - old(self).pos, 12nat,
    {
        let mut props: Vec<(String, Exp)> = Vec::new();
        let mut routine_call = String::new();
        proof {
            assert(crate::ast::props_view(props@) =~= Seq::<(Seq<char>, ExpModel)>::empty());
        }
        while !matches!(self.tokens[self.pos].kind, TokenKind::RBrace) && !matches!(
            self.tokens[self.pos].kind,
            TokenKind::Eof,
        )
            invariant
                self.wf(),
                self.tokens == old(self).tokens,
                old(self).pos <= self.pos,
                spec_species_props_rest(
                    old(self).toks(),
                    old(self).pos as int,
                    Seq::empty(),
                    Seq::empty(),
                ) == spec_species_props_rest(
                    self.toks(),
                    self.pos as int,
                    crate::ast::props_view(props@),
                    routine_call@,
                ),
            decreases self.tokens@.len() - self.pos,
        {
            proof {
                toks_pointwise(self.tokens@);
            }
            let prop_key = match &self.tokens[self.pos].kind {
                TokenKind::Identifier(n) => n.clone(),
                TokenKind::Routine => String::from_str("routine"),
                _ => {
                    return Err(self.error("Property Key"));
                },
            };
            self.bump();
            let r = self.expect(&TokenKind::Colon);
            if let Err(e) = r {
                return Err(e);
            }
            let val = match self.parse_exp() {
                Ok(v) => v,
                Err(e) => {
                    return Err(e);
                },
            };
            proof {
                toks_pointwise(self.tokens@);
            }
            if matches!(self.tokens[self.pos].kind, TokenKind::SemiColon) {
                self.bump();
            }
            proof {
                toks_pointwise(self.tokens@);
            }
            if matches!(self.tokens[self.pos].kind, TokenKind::Comma) {
                self.bump();
            }
            if prop_key.eq(&String::from_str("routine")) {
                if let Exp::Var(v, _) = val {
                    routine_call = v;
                }
            } else {
                insert_prop(&mut props, prop_key, val);
            }
        }
        proof {
            toks_pointwise(self.tokens@);
        }
        let r = self.expect(&TokenKind::RBrace);
        if let Err(e) = r {
            return Err(e);
        }
        Ok(SpeciesDef { properties: props, routine_call })
    }

    /// Parses a `{ ... }` command block; the commands are fixed by
    /// `spec_parse_block`.
    pub fn parse_block(&mut self) -> (r: Result<Vec<Command>, String>)
        requires
            old(self).wf(),
        ensures
            final(self).wf(),
            final(self).tokens == old(self).tokens,
            old(self).pos <= final(self).pos,
            r is Ok ==> old(self).pos < final(self).pos,
            (match spec_parse_block(old(self).toks(), old(self).pos as int) {
                Some(pr) => r matches Ok(cs) && crate::ast::cmds_view(cs@, cs@.len() as int)
                    == pr.0 && final(self).pos as int == pr.1,
                None => r is Err,
            }),
        decreases old(self).tokens@.len() - old(self).pos, 11nat,
    {
        proof {
            toks_pointwise(self.tokens@);
        }
        let r = self.expect(&TokenKind::LBrace);
        if let Err(e) = r {
            return Err(e);
        }
        let mut cmds: Vec<Command> = Vec::new();
        proof {
            assert(crate::ast::cmds_view(cmds@, 0) =~= Seq::<crate::ast::CmdModel>::empty());
        }
        while !matches!(self.tokens[self.pos].kind, TokenKind::RBrace) && !matches!(
            self.tokens[self.pos].kind,
            TokenKind::Eof,
        )
            invariant
                self.wf(),
                self.tokens == old(self).tokens,
                old(self).pos < self.pos,
                old(self).toks()[old(self).pos as int].kind is LBrace,
                spec_block_rest(old(self).toks(), old(self).pos + 1, Seq::empty())
                    == spec_block_rest(
                    self.toks(),
                    self.pos as int,
                    crate::ast::cmds_view(cmds@, cmds@.len() as int),
                ),
            decreases self.tokens@.len() - self.pos,
        {
            proof {
                toks_pointwise(self.tokens@);
            }
            let c = match self.parse_command() {
                Ok(c) => c,
                Err(e) => {
                    return Err(e);
                },
            };
            let ghost prev = cmds@;
            cmds.push(c);
            proof {
                lemma_cmds_view_push(prev, c, prev.len() as int);
                assert(cmds@ == prev.push(c));
                assert(crate::ast::cmds_view(cmds@, cmds@.len() as int)
                    == crate::ast::cmds_view(prev, prev.len() as int).push(
                    crate::ast::cmd_view(c),
                ));
            }
        }
        proof {
            toks_pointwise(self.tokens@);
        }
        let r = self.expect(&TokenKind::RBrace);
        if let Err(e) = r {
            return Err(e);
        }
        Ok(cmds)
    }
}

/// Reading `toks_view` element by element./// Reading `toks_view` element by element.
proof fn toks_pointwise(v: Seq<Token>)
    ensures
        crate::lexer::toks_view(v).len() == v.len(),
        forall|q: int| 0 <= q < v.len() ==> crate::lexer::toks_view(v)[q] == (#[trigger] v[q])@,
{
}

proof fn routines_view_pointwise(s: Seq<RoutineDef>)
    ensures
        crate::ast::routines_view(s).len() == s.len(),
        forall|q: int|
            0 <= q < s.len() ==> crate::ast::routines_view(s)[q] == crate::ast::routine_def_view(
                #[trigger] s[q],
            ),
{
}

proof fn species_view_pointwise(s: Seq<(String, SpeciesDef)>)
    ensures
        crate::ast::species_list_view(s).len() == s.len(),
        forall|q: int|
            0 <= q < s.len() ==> crate::ast::species_list_view(s)[q]
                == crate::ast::species_entry_view(#[trigger] s[q]),
{
}

proof fn props_view_pointwise(s: Seq<(String, Exp)>)
    ensures
        crate::ast::props_view(s).len() == s.len(),
        forall|q: int|
            0 <= q < s.len() ==> crate::ast::props_view(s)[q] == crate::ast::prop_entry_view(
                #[trigger] s[q],
            ),
{
}

proof fn rules_view_pointwise(s: Seq<MutationRule>)
    ensures
        crate::ast::rules_view(s).len() == s.len(),
        forall|q: int|
            0 <= q < s.len() ==> crate::ast::rules_view(s)[q] == crate::ast::rule_view(
                #[trigger] s[q],
            ),
{
}

proof fn lemma_routines_set_update(s: Seq<RoutineDefModel>, rt: RoutineDefModel, i: int)
    requires
        0 <= i < s.len(),
        s[i].name == rt.name,
        forall|j: int| 0 <= j < i ==> (#[trigger] s[j]).name != rt.name,
    ensures
        spec_routines_set(s, rt) =~= s.update(i, rt),
    decreases i,
{
    if i == 0 {
        assert(spec_routines_set(s, rt) =~= s.update(0, rt));
    } else {
        lemma_routines_set_update(s.drop_first(), rt, i - 1);
        assert(seq![s[0]] + s.drop_first().update(i - 1, rt) =~= s.update(i, rt));
    }
}

proof fn lemma_routines_set_push(s: Seq<RoutineDefModel>, rt: RoutineDefModel)
    requires
        forall|j: int| 0 <= j < s.len() ==> (#[trigger] s[j]).name != rt.name,
    ensures
        spec_routines_set(s, rt) =~= s.push(rt),
    decreases s.len(),
{
    if s.len() > 0 {
        lemma_routines_set_push(s.drop_first(), rt);
        assert(seq![s[0]] + s.drop_first().push(rt) =~= s.push(rt));
    }
}

proof fn lemma_species_set_update(
    s: Seq<(Seq<char>, SpeciesDefModel)>,
    name: Seq<char>,
    def: SpeciesDefModel,
    i: int,
)
    requires
        0 <= i < s.len(),
        s[i].0 == name,
        forall|j: int| 0 <= j < i ==> (#[trigger] s[j]).0 != name,
    ensures
        spec_species_set(s, name, def) =~= s.update(i, (name, def)),
    decreases i,
{
    if i == 0 {
        assert(spec_species_set(s, name, def) =~= s.update(0, (name, def)));
    } else {
        lemma_species_set_update(s.drop_first(), name, def, i - 1);
        assert(seq![s[0]] + s.drop_first().update(i - 1, (name, def)) =~= s.update(
            i,
            (name, def),
        ));
    }
}

proof fn lemma_species_set_push(
    s: Seq<(Seq<char>, SpeciesDefModel)>,
    name: Seq<char>,
    def: SpeciesDefModel,
)
    requires
        forall|j: int| 0 <= j < s.len() ==> (#[trigger] s[j]).0 != name,
    ensures
        spec_species_set(s, name, def) =~= s.push((name, def)),
    decreases s.len(),
{
    if s.len() > 0 {
        lemma_species_set_push(s.drop_first(), name, def);
        assert(seq![s[0]] + s.drop_first().push((name, def)) =~= s.push((name, def)));
    }
}

proof fn lemma_props_set_update(
    s: Seq<(Seq<char>, ExpModel)>,
    key: Seq<char>,
    val: ExpModel,
    i: int,
)
    requires
        0 <= i < s.len(),
        s[i].0 == key,
        forall|j: int| 0 <= j < i ==> (#[trigger] s[j]).0 != key,
    ensures
        spec_props_set(s, key, val) =~= s.update(i, (key, val)),
    decreases i,
{
    if i == 0 {
        assert(spec_props_set(s, key, val) =~= s.update(0, (key, val)));
    } else {
        lemma_props_set_update(s.drop_first(), key, val, i - 1);
        assert(seq![s[0]] + s.drop_first().update(i - 1, (key, val)) =~= s.update(i, (key, val)));
    }
}

proof fn lemma_props_set_push(s: Seq<(Seq<char>, ExpModel)>, key: Seq<char>, val: ExpModel)
    requires
        forall|j: int| 0 <= j < s.len() ==> (#[trigger] s[j]).0 != key,
    ensures
        spec_props_set(s, key, val) =~= s.push((key, val)),
    decreases s.len(),
{
    if s.len() > 0 {
        lemma_props_set_push(s.drop_first(), key, val);
        assert(seq![s[0]] + s.drop_first().push((key, val)) =~= s.push((key, val)));
    }
}

proof fn lemma_exps_view_push(s: Seq<Exp>, e: Exp, k: int)
    requires
        0 <= k <= s.len(),
    ensures
        crate::ast::exps_view(s.push(e), k) == crate::ast::exps_view(s, k),
    decreases k,
{
    if k > 0 {
        lemma_exps_view_push(s, e, k - 1);
    }
}

proof fn lemma_cmds_view_push(s: Seq<Command>, e: Command, k: int)
    requires
        0 <= k <= s.len(),
    ensures
        crate::ast::cmds_view(s.push(e), k) == crate::ast::cmds_view(s, k),
    decreases k,
{
    if k > 0 {
        lemma_cmds_view_push(s, e, k - 1);
    }
}

/// Adds a routine definition, replacing the first earlier one of the same
/// name in place, or appending.
fn insert_routine(routines: &mut Vec<RoutineDef>, rt: RoutineDef)
    ensures
        crate::ast::routines_view(final(routines)@) == spec_routines_set(
            crate::ast::routines_view(old(routines)@),
            crate::ast::routine_def_view(rt),
        ),
{
    let ghost rtm = crate::ast::routine_def_view(rt);
    let n = routines.len();
    let mut i: usize = 0;
    while i < n
        invariant
            n == routines@.len(),
            routines@ == old(routines)@,
            rtm == crate::ast::routine_def_view(rt),
            i <= n,
            forall|j: int|
                0 <= j < i ==> (#[trigger] crate::ast::routines_view(routines@)[j]).name
                    != rtm.name,
        decreases n - i,
    {
        let hit = routines[i].name.eq(&rt.name);
        proof {
            routines_view_pointwise(routines@);
            assert(crate::ast::routines_view(routines@)[i as int]
                == crate::ast::routine_def_view(routines@[i as int]));
            assert(crate::ast::routine_def_view(routines@[i as int]).name
                == routines@[i as int].name@);
            assert(rtm.name == rt.name@);
        }
        if hit {
            proof {
                lemma_routines_set_update(crate::ast::routines_view(routines@), rtm, i as int);
            }
            let ghost before = crate::ast::routines_view(routines@);
            routines[i] = rt;
            proof {
                routines_view_pointwise(routines@);
                assert(crate::ast::routines_view(routines@) =~= before.update(i as int, rtm));
            }
            return ;
        }
        i += 1;
    }
    proof {
        routines_view_pointwise(routines@);
        lemma_routines_set_push(crate::ast::routines_view(routines@), rtm);
    }
    let ghost before = crate::ast::routines_view(routines@);
    routines.push(rt);
    proof {
        routines_view_pointwise(routines@);
        assert(crate::ast::routines_view(routines@) =~= before.push(rtm));
    }
}

/// Adds a species definition, replacing the first earlier one of the same
/// name in place, or appending.
fn insert_species(species: &mut Vec<(String, SpeciesDef)>, name: String, def: SpeciesDef)
    ensures
        crate::ast::species_list_view(final(species)@) == spec_species_set(
            crate::ast::species_list_view(old(species)@),
            name@,
            crate::ast::species_def_view(def),
        ),
{
    let ghost dm = crate::ast::species_def_view(def);
    let n = species.len();
    let mut i: usize = 0;
    while i < n
        invariant
            n == species@.len(),
            species@ == old(species)@,
            dm == crate::ast::species_def_view(def),
            i <= n,
            forall|j: int|
                0 <= j < i ==> (#[trigger] crate::ast::species_list_view(species@)[j]).0 != name@,
        decreases n - i,
    {
        proof {
            species_view_pointwise(species@);
        }
        if species[i].0.eq(&name) {
            proof {
                lemma_species_set_update(
                    crate::ast::species_list_view(species@),
                    name@,
                    dm,
                    i as int,
                );
            }
            let ghost before = crate::ast::species_list_view(species@);
            species[i] = (name, def);
            proof {
                species_view_pointwise(species@);
                assert(crate::ast::species_list_view(species@) =~= before.update(
                    i as int,
                    (name@, dm),
                ));
            }
            return ;
        }
        i += 1;
    }
    proof {
        species_view_pointwise(species@);
        lemma_species_set_push(crate::ast::species_list_view(species@), name@, dm);
    }
    let ghost before = crate::ast::species_list_view(species@);
    species.push((name, def));
    proof {
        species_view_pointwise(species@);
        assert(crate::ast::species_list_view(species@) =~= before.push((name@, dm)));
    }
}

/// Adds a default property, replacing the first earlier one of the same
/// key in place (keeping the declared position), or appending.
fn insert_prop(props: &mut Vec<(String, Exp)>, key: String, val: Exp)
    ensures
        crate::ast::props_view(final(props)@) == spec_props_set(
            crate::ast::props_view(old(props)@),
            key@,
            crate::ast::exp_view(val),
        ),
{
    let ghost vm = crate::ast::exp_view(val);
    let n = props.len();
    let mut i: usize = 0;
    while i < n
        invariant
            n == props@.len(),
            props@ == old(props)@,
            vm == crate::ast::exp_view(val),
            i <= n,
            forall|j: int|
                0 <= j < i ==> (#[trigger] crate::ast::props_view(props@)[j]).0 != key@,
        decreases n - i,
    {
        proof {
            props_view_pointwise(props@);
        }
        if props[i].0.eq(&key) {
            proof {
                lemma_props_set_update(crate::ast::props_view(props@), key@, vm, i as int);
            }
            let ghost before = crate::ast::props_view(props@);
            props[i] = (key, val);
            proof {
                props_view_pointwise(props@);
                assert(crate::ast::props_view(props@) =~= before.update(i as int, (key@, vm)));
            }
            return ;
        }
        i += 1;
    }
    proof {
        props_view_pointwise(props@);
        lemma_props_set_push(crate::ast::props_view(props@), key@, vm);
    }
    let ghost before = crate::ast::props_view(props@);
    props.push((key, val));
    proof {
        props_view_pointwise(props@);
        assert(crate::ast::props_view(props@) =~= before.push((key@, vm)));
    }
}

impl Parser {
    /// Parses one command; the result is fixed by `spec_parse_command`:
    /// assignments, bare expressions, control commands, `spawn`, `print`
    /// and `return`, with trailing semicolons optional.
    pub fn parse_command(&mut self) -> (r: Result<Command, String>)
        requires
            old(self).wf(),
        ensures
            final(self).wf(),
            final(self).tokens == old(self).tokens,
            old(self).pos <= final(self).pos,
            r is Ok ==> old(self).pos < final(self).pos,
            (match spec_parse_command(old(self).toks(), old(self).pos as int) {
                Some(pr) => r matches Ok(c) && crate::ast::cmd_view(c) == pr.0 && final(self).pos as int == pr.1,
                None => r is Err,
            }),
        decreases old(self).tokens@.len() - old(self).pos, 10nat,
    {
        proof {
            toks_pointwise(self.tokens@);
        }
        if matches!(self.tokens[self.pos].kind, TokenKind::If) {
            self.parse_if_command()
        } else if matches!(self.tokens[self.pos].kind, TokenKind::While) {
            self.parse_while_command()
        } else if matches!(self.tokens[self.pos].kind, TokenKind::For) {
            self.parse_for_command()
        } else if matches!(self.tokens[self.pos].kind, TokenKind::Return) {
            self.parse_return_command()
        } else if matches!(self.tokens[self.pos].kind, TokenKind::Print) {
            self.parse_print_command()
        } else if matches!(self.tokens[self.pos].kind, TokenKind::Spawn) {
            self.parse_spawn_command()
        } else {
            self.parse_assign_or_exp_command()
        }
    }

    /// One arm of the command parser.
    #[verifier::spinoff_prover]
    fn parse_if_command(&mut self) -> (r: Result<Command, String>)
        requires
            old(self).wf(),
            old(self).toks()[old(self).pos as int].kind is If,
        ensures
            final(self).wf(),
            final(self).tokens == old(self).tokens,
            old(self).pos <= final(self).pos,
            r is Ok ==> old(self).pos < final(self).pos,
            (match spec_cmd_if(old(self).toks(), old(self).pos as int) {
                Some(pr) => r matches Ok(c) && crate::ast::cmd_view(c) == pr.0 && final(self).pos as int == pr.1,
                None => r is Err,
            }),
        decreases old(self).tokens@.len() - old(self).pos, 9nat,
    {
        proof {
            toks_pointwise(self.tokens@);
        }
        let line = self.tokens[self.pos].line;
        self.bump();
        let r = self.expect(&TokenKind::LParen);
        if let Err(e) = r {
            return Err(e);
        }
        let cond = match self.parse_bexp() {
            Ok(c) => c,
            Err(e) => {
                return Err(e);
            },
        };
        proof {
            toks_pointwise(self.tokens@);
        }
        let r = self.expect(&TokenKind::RParen);
        if let Err(e) = r {
            return Err(e);
        }
        let then_b = match self.parse_block() {
            Ok(b) => b,
            Err(e) => {
                return Err(e);
            },
        };
        let else_b = match self.parse_else_part() {
            Ok(b) => b,
            Err(e) => {
                return Err(e);
            },
        };
        Ok(Command::If { condition: cond, then_block: then_b, else_block: else_b, line })
    }

    /// The optional `else` continuation of an `if`.
    #[verifier::rlimit(100)]
    #[verifier::spinoff_prover]
    fn parse_else_part(&mut self) -> (r: Result<Option<Vec<Command>>, String>)
        requires
            old(self).wf(),
        ensures
            final(self).wf(),
            final(self).tokens == old(self).tokens,
            old(self).pos <= final(self).pos,
            (match spec_else_part(old(self).toks(), old(self).pos as int) {
                Some(pr) => r matches Ok(eb) && final(self).pos as int == pr.1 && (match eb {
                    Some(v) => pr.0 == Some(crate::ast::cmds_view(v@, v@.len() as int)),
                    None => pr.0 is None,
                }),
                None => r is Err,
            }),
        decreases old(self).tokens@.len() - old(self).pos, 8nat,
    {
        proof {
            toks_pointwise(self.tokens@);
        }
        if matches!(self.tokens[self.pos].kind, TokenKind::Else) {
            self.bump();
            proof {
                toks_pointwise(self.tokens@);
            }
            if matches!(self.tokens[self.pos].kind, TokenKind::If) {
                let c = match self.parse_if_command() {
                    Ok(c) => c,
                    Err(e) => {
                        return Err(e);
                    },
                };
                let mut v: Vec<Command> = Vec::new();
                v.push(c);
                proof {
                    assert(crate::ast::cmds_view(v@, 0) =~= Seq::<crate::ast::CmdModel>::empty());
                    assert(crate::ast::cmds_view(v@, 1) =~= seq![crate::ast::cmd_view(c)]);
                }
                Ok(Some(v))
            } else {
                let b = match self.parse_block() {
                    Ok(b) => b,
                    Err(e) => {
                        return Err(e);
                    },
                };
                Ok(Some(b))
            }
        } else {
            Ok(None)
        }
    }

    /// One arm of the command parser.
    #[verifier::spinoff_prover]
    fn parse_while_command(&mut self) -> (r: Result<Command, String>)
        requires
            old(self).wf(),
            old(self).toks()[old(self).pos as int].kind is While,
        ensures
            final(self).wf(),
            final(self).tokens == old(self).tokens,
            old(self).pos <= final(self).pos,
            r is Ok ==> old(self).pos < final(self).pos,
            (match spec_cmd_while(old(self).toks(), old(self).pos as int) {
                Some(pr) => r matches Ok(c) && crate::ast::cmd_view(c) == pr.0 && final(self).pos as int == pr.1,
                None => r is Err,
            }),
        decreases old(self).tokens@.len() - old(self).pos, 9nat,
    {
        proof {
            toks_pointwise(self.tokens@);
        }
        let line = self.tokens[self.pos].line;
        self.bump();
        let r = self.expect(&TokenKind::LParen);
        if let Err(e) = r {
            return Err(e);
        }
        let cond = match self.parse_bexp() {
            Ok(c) => c,
            Err(e) => {
                return Err(e);
            },
        };
        proof {
            toks_pointwise(self.tokens@);
        }
        let r = self.expect(&TokenKind::RParen);
        if let Err(e) = r {
            return Err(e);
        }
        let body = match self.parse_block() {
            Ok(b) => b,
            Err(e) => {
                return Err(e);
            },
        };
        Ok(Command::While { condition: cond, body, line })
    }

    /// One arm of the command parser.
    #[verifier::spinoff_prover]
    fn parse_for_command(&mut self) -> (r: Result<Command, String>)
        requires
            old(self).wf(),
            old(self).toks()[old(self).pos as int].kind is For,
        ensures
            final(self).wf(),
            final(self).tokens == old(self).tokens,
            old(self).pos <= final(self).pos,
            r is Ok ==> old(self).pos < final(self).pos,
            (match spec_cmd_for(old(self).toks(), old(self).pos as int) {
                Some(pr) => r matches Ok(c) && crate::ast::cmd_view(c) == pr.0 && final(self).pos as int == pr.1,
                None => r is Err,
            }),
        decreases old(self).tokens@.len() - old(self).pos, 9nat,
    {
        proof {
            toks_pointwise(self.tokens@);
        }
        let line = self.tokens[self.pos].line;
        self.bump();
        proof {
            toks_pointwise(self.tokens@);
        }
        let var = match &self.tokens[self.pos].kind {
            TokenKind::Identifier(n) => n.clone(),
            _ => {
                return Err(self.error("Expected var"));
            },
        };
        self.bump();
        let r = self.expect(&TokenKind::In);
        if let Err(e) = r {
            return Err(e);
        }
        proof {
            toks_pointwise(self.tokens@);
        }
        let collection = match &self.tokens[self.pos].kind {
            TokenKind::Identifier(n) => n.clone(),
            TokenKind::Environment => String::from_str("environment"),
            _ => {
                return Err(self.error("Expected collection"));
            },
        };
        self.bump();
        let body = match self.parse_block() {
            Ok(b) => b,
            Err(e) => {
                return Err(e);
            },
        };
        Ok(Command::For { var, collection, body, line })
    }

    /// One arm of the command parser.
    #[verifier::spinoff_prover]
    fn parse_return_command(&mut self) -> (r: Result<Command, String>)
        requires
            old(self).wf(),
            old(self).toks()[old(self).pos as int].kind is Return,
        ensures
            final(self).wf(),
            final(self).tokens == old(self).tokens,
            old(self).pos <= final(self).pos,
            r is Ok ==> old(self).pos < final(self).pos,
            (match spec_cmd_return(old(self).toks(), old(self).pos as int) {
                Some(pr) => r matches Ok(c) && crate::ast::cmd_view(c) == pr.0 && final(self).pos as int == pr.1,
                None => r is Err,
            }),
        decreases old(self).tokens@.len() - old(self).pos, 9nat,
    {
        proof {
            toks_pointwise(self.tokens@);
        }
        let line = self.tokens[self.pos].line;
        self.bump();
        let exp = match self.parse_exp() {
            Ok(x) => x,
            Err(e) => {
                return Err(e);
            },
        };
        proof {
            toks_pointwise(self.tokens@);
        }
        if matches!(self.tokens[self.pos].kind, TokenKind::SemiColon) {
            self.bump();
        }
        Ok(Command::Return(exp, line))
    }

    /// One arm of the command parser.
    #[verifier::spinoff_prover]
    fn parse_print_command(&mut self) -> (r: Result<Command, String>)
        requires
            old(self).wf(),
            old(self).toks()[old(self).pos as int].kind is Print,
        ensures
            final(self).wf(),
            final(self).tokens == old(self).tokens,
            old(self).pos <= final(self).pos,
            r is Ok ==> old(self).pos < final(self).pos,
            (match spec_cmd_print(old(self).toks(), old(self).pos as int) {
                Some(pr) => r matches Ok(c) && crate::ast::cmd_view(c) == pr.0 && final(self).pos as int == pr.1,
                None => r is Err,
            }),
        decreases old(self).tokens@.len() - old(self).pos, 9nat,
    {
        proof {
            toks_pointwise(self.tokens@);
        }
        let line = self.tokens[self.pos].line;
        self.bump();
        let r = self.expect(&TokenKind::LParen);
        if let Err(e) = r {
            return Err(e);
        }
        let mut exps: Vec<Exp> = Vec::new();
        proof {
            assert(crate::ast::exps_view(exps@, 0) =~= Seq::<crate::ast::ExpModel>::empty());
        }
        while !matches!(self.tokens[self.pos].kind, TokenKind::RParen) && !matches!(
            self.tokens[self.pos].kind,
            TokenKind::Eof,
        )
            invariant
                self.wf(),
                self.tokens == old(self).tokens,
                old(self).pos + 2 <= self.pos,
                old(self).toks()[old(self).pos as int].kind is Print,
                old(self).toks()[old(self).pos + 1].kind is LParen,
                line == old(self).tokens@[old(self).pos as int].line,
                spec_print_args(old(self).toks(), old(self).pos + 2, Seq::empty())
                    == spec_print_args(
                    self.toks(),
                    self.pos as int,
                    crate::ast::exps_view(exps@, exps@.len() as int),
                ),
            decreases self.tokens@.len() - self.pos,
        {
            proof {
                toks_pointwise(self.tokens@);
            }
            let x = match self.parse_exp() {
                Ok(x) => x,
                Err(e) => {
                    return Err(e);
                },
            };
            let ghost prev = exps@;
            exps.push(x);
            proof {
                lemma_exps_view_push(prev, x, prev.len() as int);
                assert(exps@ == prev.push(x));
                assert(crate::ast::exps_view(exps@, exps@.len() as int)
                    == crate::ast::exps_view(prev, prev.len() as int).push(
                    crate::ast::exp_view(x),
                ));
                toks_pointwise(self.tokens@);
            }
            if matches!(self.tokens[self.pos].kind, TokenKind::Comma) {
                self.bump();
            }
        }
        proof {
            toks_pointwise(self.tokens@);
        }
        let r = self.expect(&TokenKind::RParen);
        if let Err(e) = r {
            return Err(e);
        }
        proof {
            toks_pointwise(self.tokens@);
        }
        if matches!(self.tokens[self.pos].kind, TokenKind::SemiColon) {
            self.bump();
        }
        Ok(Command::Print(exps, line))
    }

    /// One arm of the command parser.
    #[verifier::spinoff_prover]
    fn parse_spawn_command(&mut self) -> (r: Result<Command, String>)
        requires
            old(self).wf(),
            old(self).toks()[old(self).pos as int].kind is Spawn,
        ensures
            final(self).wf(),
            final(self).tokens == old(self).tokens,
            old(self).pos <= final(self).pos,
            r is Ok ==> old(self).pos < final(self).pos,
            (match spec_cmd_spawn(old(self).toks(), old(self).pos as int) {
                Some(pr) => r matches Ok(c) && crate::ast::cmd_view(c) == pr.0 && final(self).pos as int == pr.1,
                None => r is Err,
            }),
        decreases old(self).tokens@.len() - old(self).pos, 9nat,
    {
        proof {
            toks_pointwise(self.tokens@);
        }
        let line = self.tokens[self.pos].line;
        self.bump();
        proof {
            toks_pointwise(self.tokens@);
        }
        let species = match &self.tokens[self.pos].kind {
            TokenKind::Identifier(n) => n.clone(),
            _ => {
                return Err(self.error("Expected species"));
            },
        };
        self.bump();
        let r = self.expect(&TokenKind::At);
        if let Err(e) = r {
            return Err(e);
        }
        let r = self.expect(&TokenKind::LParen);
        if let Err(e) = r {
            return Err(e);
        }
        let x = match self.parse_exp() {
            Ok(x) => x,
            Err(e) => {
                return Err(e);
            },
        };
        proof {
            toks_pointwise(self.tokens@);
        }
        let r = self.expect(&TokenKind::Comma);
        if let Err(e) = r {
            return Err(e);
        }
        let y = match self.parse_exp() {
            Ok(y) => y,
            Err(e) => {
                return Err(e);
            },
        };
        proof {
            toks_pointwise(self.tokens@);
        }
        let r = self.expect(&TokenKind::RParen);
        if let Err(e) = r {
            return Err(e);
        }
        proof {
            toks_pointwise(self.tokens@);
        }
        if matches!(self.tokens[self.pos].kind, TokenKind::SemiColon) {
            self.bump();
        }
        Ok(Command::Spawn { species, x, y, line })
    }

    /// One arm of the command parser.
    #[verifier::spinoff_prover]
    fn parse_assign_or_exp_command(&mut self) -> (r: Result<Command, String>)
        requires
            old(self).wf(),
            !(old(self).toks()[old(self).pos as int].kind is If),
            !(old(self).toks()[old(self).pos as int].kind is While),
            !(old(self).toks()[old(self).pos as int].kind is For),
            !(old(self).toks()[old(self).pos as int].kind is Return),
            !(old(self).toks()[old(self).pos as int].kind is Print),
            !(old(self).toks()[old(self).pos as int].kind is Spawn),
        ensures
            final(self).wf(),
            final(self).tokens == old(self).tokens,
            old(self).pos <= final(self).pos,
            r is Ok ==> old(self).pos < final(self).pos,
            (match spec_cmd_assign_or_exp(old(self).toks(), old(self).pos as int) {
                Some(pr) => r matches Ok(c) && crate::ast::cmd_view(c) == pr.0 && final(self).pos as int == pr.1,
                None => r is Err,
            }),
        decreases old(self).tokens@.len() - old(self).pos, 9nat,
    {
        proof {
            toks_pointwise(self.tokens@);
        }
        let line = self.tokens[self.pos].line;
        let exp = match self.parse_exp() {
                Ok(x) => x,
                Err(e) => {
                    return Err(e);
                },
            };
            proof {
                toks_pointwise(self.tokens@);
            }
            if matches!(self.tokens[self.pos].kind, TokenKind::Equal) {
                self.bump();
                let value = match self.parse_exp() {
                    Ok(v) => v,
                    Err(e) => {
                        return Err(e);
                    },
                };
                proof {
                    toks_pointwise(self.tokens@);
                }
                if matches!(self.tokens[self.pos].kind, TokenKind::SemiColon) {
                    self.bump();
                }
                Ok(Command::Assign { target: exp, value, line })
            } else {
                if matches!(self.tokens[self.pos].kind, TokenKind::SemiColon) {
                    self.bump();
                }
                Ok(Command::Exp(exp, line))
            }
    }

    /// Parses an expression; the result is fixed by `spec_parse_exp` over
    /// the token models: products bind tighter than sums, chains associate
    /// to the left.
    pub fn parse_exp(&mut self) -> (r: Result<Exp, String>)
        requires
            old(self).wf(),
        ensures
            final(self).wf(),
            final(self).tokens == old(self).tokens,
            old(self).pos <= final(self).pos,
            r is Ok ==> old(self).pos < final(self).pos,
            (match spec_parse_exp(old(self).toks(), old(self).pos as int) {
                Some(pr) => r matches Ok(e) && crate::ast::exp_view(e) == pr.0 && final(self).pos as int == pr.1,
                None => r is Err,
            }),
        decreases old(self).tokens@.len() - old(self).pos, 5nat,
    {
        self.parse_sum()
    }

    /// Parses a sum of products, left-associatively.
    fn parse_sum(&mut self) -> (r: Result<Exp, String>)
        requires
            old(self).wf(),
        ensures
            final(self).wf(),
            final(self).tokens == old(self).tokens,
            old(self).pos <= final(self).pos,
            r is Ok ==> old(self).pos < final(self).pos,
            (match spec_parse_sum(old(self).toks(), old(self).pos as int) {
                Some(pr) => r matches Ok(e) && crate::ast::exp_view(e) == pr.0 && final(self).pos as int == pr.1,
                None => r is Err,
            }),
        decreases old(self).tokens@.len() - old(self).pos, 4nat,
    {
        let mut left = match self.parse_term() {
            Ok(x) => x,
            Err(e) => {
                return Err(e);
            },
        };
        while matches!(self.tokens[self.pos].kind, TokenKind::Plus) || matches!(
            self.tokens[self.pos].kind,
            TokenKind::Minus,
        )
            invariant
                self.wf(),
                self.tokens == old(self).tokens,
                old(self).pos < self.pos,
                spec_parse_sum(old(self).toks(), old(self).pos as int) == spec_sum_rest(
                    self.toks(),
                    self.pos as int,
                    crate::ast::exp_view(left),
                ),
            decreases self.tokens@.len() - self.pos,
        {
            proof {
                toks_pointwise(self.tokens@);
            }
            let line = self.tokens[self.pos].line;
            let op = if matches!(self.tokens[self.pos].kind, TokenKind::Plus) {
                String::from_str("+")
            } else {
                String::from_str("-")
            };
            self.bump();
            let right = match self.parse_term() {
                Ok(x) => x,
                Err(e) => {
                    return Err(e);
                },
            };
            left = Exp::BinaryOp(Box::new(left), op, Box::new(right), line);
        }
        proof {
            toks_pointwise(self.tokens@);
        }
        Ok(left)
    }

    /// Parses a product of primaries, left-associatively.
    fn parse_term(&mut self) -> (r: Result<Exp, String>)
        requires
            old(self).wf(),
        ensures
            final(self).wf(),
            final(self).tokens == old(self).tokens,
            old(self).pos <= final(self).pos,
            r is Ok ==> old(self).pos < final(self).pos,
            (match spec_parse_term(old(self).toks(), old(self).pos as int) {
                Some(pr) => r matches Ok(e) && crate::ast::exp_view(e) == pr.0 && final(self).pos as int == pr.1,
                None => r is Err,
            }),
        decreases old(self).tokens@.len() - old(self).pos, 3nat,
    {
        let mut left = match self.parse_primary() {
            Ok(x) => x,
            Err(e) => {
                return Err(e);
            },
        };
        while matches!(self.tokens[self.pos].kind, TokenKind::Star) || matches!(
            self.tokens[self.pos].kind,
            TokenKind::Slash,
        ) || matches!(self.tokens[self.pos].kind, TokenKind::Percent)
            invariant
                self.wf(),
                self.tokens == old(self).tokens,
                old(self).pos < self.pos,
                spec_parse_term(old(self).toks(), old(self).pos as int) == spec_term_rest(
                    self.toks(),
                    self.pos as int,
                    crate::ast::exp_view(left),
                ),
            decreases self.tokens@.len() - self.pos,
        {
            proof {
                toks_pointwise(self.tokens@);
            }
            let line = self.tokens[self.pos].line;
            let op = if matches!(self.tokens[self.pos].kind, TokenKind::Star) {
                String::from_str("*")
            } else if matches!(self.tokens[self.pos].kind, TokenKind::Slash) {
                String::from_str("/")
            } else {
                String::from_str("%")
            };
            self.bump();
            let right = match self.parse_primary() {
                Ok(x) => x,
                Err(e) => {
                    return Err(e);
                },
            };
            left = Exp::BinaryOp(Box::new(left), op, Box::new(right), line);
        }
        proof {
            toks_pointwise(self.tokens@);
        }
        Ok(left)
    }

    /// The field name a token denotes after `.`; keyword-like names are
    /// accepted as fields.
    fn token_to_field_name(&self) -> (r: Option<String>)
        requires
            self.wf(),
        ensures
            (match r {
                Some(f) => spec_field_name(self.toks()[self.pos as int].kind) == Some(f@),
                None => spec_field_name(self.toks()[self.pos as int].kind) is None,
            }),
    {
        proof {
            toks_pointwise(self.tokens@);
        }
        match &self.tokens[self.pos].kind {
            TokenKind::Identifier(name) => Some(name.clone()),
            TokenKind::Species => Some(String::from_str("species")),
            TokenKind::Spawn => Some(String::from_str("spawn")),
            TokenKind::Routine => Some(String::from_str("routine")),
            TokenKind::Fitness => Some(String::from_str("fitness")),
            _ => None,
        }
    }

    /// Parses a primary expression, with unary minus rewritten as
    /// `0 - primary` and trailing accesses attached.
    #[verifier::rlimit(100)]
    #[verifier::spinoff_prover]
    fn parse_primary(&mut self) -> (r: Result<Exp, String>)
        requires
            old(self).wf(),
        ensures
            final(self).wf(),
            final(self).tokens == old(self).tokens,
            old(self).pos <= final(self).pos,
            r is Ok ==> old(self).pos < final(self).pos,
            (match spec_parse_primary(old(self).toks(), old(self).pos as int) {
                Some(pr) => r matches Ok(e) && crate::ast::exp_view(e) == pr.0 && final(self).pos as int == pr.1,
                None => r is Err,
            }),
        decreases old(self).tokens@.len() - old(self).pos, 2nat,
    {
        proof {
            toks_pointwise(self.tokens@);
        }
        if matches!(self.tokens[self.pos].kind, TokenKind::Minus) {
            let line = self.tokens[self.pos].line;
            self.bump();
            let right = match self.parse_primary() {
                Ok(x) => x,
                Err(e) => {
                    return Err(e);
                },
            };
            let node = Exp::BinaryOp(
                Box::new(Exp::Int(0, line)),
                String::from_str("-"),
                Box::new(right),
                line,
            );
            proof {
                reveal_with_fuel(crate::ast::exp_view, 3);
            }
            return self.parse_dot_and_index(node);
        }
        let line = self.tokens[self.pos].line;
        let node = match &self.tokens[self.pos].kind {
            TokenKind::Number(v) => {
                let v = *v;
                self.bump();
                Exp::Int(v, line)
            },
            TokenKind::StringLiteral(st) => {
                let st = st.clone();
                self.bump();
                Exp::StringLiteral(st, line)
            },
            TokenKind::True => {
                self.bump();
                Exp::Bool(true, line)
            },
            TokenKind::False => {
                self.bump();
                Exp::Bool(false, line)
            },
            TokenKind::LBracket => {
                self.bump();
                let mut exps: Vec<Exp> = Vec::new();
                proof {
                    assert(crate::ast::exps_view(exps@, 0) =~= Seq::<crate::ast::ExpModel>::empty());
                }
                while !matches!(self.tokens[self.pos].kind, TokenKind::RBracket) && !matches!(
                    self.tokens[self.pos].kind,
                    TokenKind::Eof,
                )
                    invariant
                        self.wf(),
                        self.tokens == old(self).tokens,
                        old(self).pos < self.pos,
                        old(self).toks()[old(self).pos as int].kind is LBracket,
                        !(old(self).toks()[old(self).pos as int].kind is Minus),
                        line == old(self).tokens@[old(self).pos as int].line,
                        spec_list_items(
                            self.toks(),
                            old(self).pos + 1,
                            Seq::empty(),
                        ) == spec_list_items(
                            self.toks(),
                            self.pos as int,
                            crate::ast::exps_view(exps@, exps@.len() as int),
                        ),
                    decreases self.tokens@.len() - self.pos,
                {
                    proof {
                        toks_pointwise(self.tokens@);
                    }
                    let x = match self.parse_exp() {
                        Ok(x) => x,
                        Err(e) => {
                            return Err(e);
                        },
                    };
                    let ghost prev = exps@;
                    exps.push(x);
                    proof {
                        lemma_exps_view_push(prev, x, prev.len() as int);
                        assert(exps@ == prev.push(x));
                        assert(crate::ast::exps_view(exps@, exps@.len() as int)
                            == crate::ast::exps_view(prev, prev.len() as int).push(
                            crate::ast::exp_view(x),
                        ));
                        toks_pointwise(self.tokens@);
                    }
                    if matches!(self.tokens[self.pos].kind, TokenKind::Comma) {
                        self.bump();
                    }
                }
                proof {
                    toks_pointwise(self.tokens@);
                }
                let r = self.expect(&TokenKind::RBracket);
                if let Err(e) = r {
                    return Err(e);
                }
                Exp::List(exps, line)
            },
            TokenKind::LParen => {
                self.bump();
                let x = match self.parse_exp() {
                    Ok(x) => x,
                    Err(e) => {
                        return Err(e);
                    },
                };
                proof {
                    toks_pointwise(self.tokens@);
                }
                let r = self.expect(&TokenKind::RParen);
                if let Err(e) = r {
                    return Err(e);
                }
                x
            },
            TokenKind::Identifier(n) => {
                let name = n.clone();
                self.bump();
                match self.finish_name(name, line) {
                    Ok(x) => x,
                    Err(e) => {
                        return Err(e);
                    },
                }
            },
            TokenKind::Random => {
                self.bump();
                match self.finish_name(String::from_str("random"), line) {
                    Ok(x) => x,
                    Err(e) => {
                        return Err(e);
                    },
                }
            },
            TokenKind::Environment => {
                self.bump();
                match self.finish_name(String::from_str("environment"), line) {
                    Ok(x) => x,
                    Err(e) => {
                        return Err(e);
                    },
                }
            },
            _ => {
                return Err(self.error("Expected exp"));
            },
        };
        self.parse_dot_and_index(node)
    }

    /// Finishes a name primary: a call when `(` follows, a variable
    /// otherwise.
    fn finish_name(&mut self, name: String, line: usize) -> (r: Result<Exp, String>)
        requires
            old(self).wf(),
        ensures
            final(self).wf(),
            final(self).tokens == old(self).tokens,
            old(self).pos <= final(self).pos,
            (match spec_finish_name(old(self).toks(), old(self).pos as int, name@, line as int) {
                Some(pr) => r matches Ok(e) && crate::ast::exp_view(e) == pr.0 && final(self).pos as int == pr.1,
                None => r is Err,
            }),
        decreases old(self).tokens@.len() - old(self).pos, 2nat,
    {
        proof {
            toks_pointwise(self.tokens@);
        }
        if matches!(self.tokens[self.pos].kind, TokenKind::LParen) {
            self.bump();
            let mut args: Vec<Exp> = Vec::new();
            proof {
                assert(crate::ast::exps_view(args@, 0) =~= Seq::<crate::ast::ExpModel>::empty());
            }
            while !matches!(self.tokens[self.pos].kind, TokenKind::RParen) && !matches!(
                self.tokens[self.pos].kind,
                TokenKind::Eof,
            )
                invariant
                    self.wf(),
                    self.tokens == old(self).tokens,
                    old(self).pos < self.pos,
                    old(self).toks()[old(self).pos as int].kind is LParen,
                    spec_call_args(old(self).toks(), old(self).pos + 1, Seq::empty())
                        == spec_call_args(
                        self.toks(),
                        self.pos as int,
                        crate::ast::exps_view(args@, args@.len() as int),
                    ),
                decreases self.tokens@.len() - self.pos,
            {
                proof {
                    toks_pointwise(self.tokens@);
                }
                let x = match self.parse_exp() {
                    Ok(x) => x,
                    Err(e) => {
                        return Err(e);
                    },
                };
                let ghost prev = args@;
                args.push(x);
                proof {
                    lemma_exps_view_push(prev, x, prev.len() as int);
                    assert(args@ == prev.push(x));
                    assert(crate::ast::exps_view(args@, args@.len() as int)
                        == crate::ast::exps_view(prev, prev.len() as int).push(
                        crate::ast::exp_view(x),
                    ));
                    toks_pointwise(self.tokens@);
                }
                if matches!(self.tokens[self.pos].kind, TokenKind::Comma) {
                    self.bump();
                }
            }
            proof {
                toks_pointwise(self.tokens@);
            }
            let r = self.expect(&TokenKind::RParen);
            if let Err(e) = r {
                return Err(e);
            }
            Ok(Exp::Call(name, args, line))
        } else {
            Ok(Exp::Var(name, line))
        }
    }

    /// Parses trailing `.field` and `[index]` accesses.
    fn parse_dot_and_index(&mut self, node: Exp) -> (r: Result<Exp, String>)
        requires
            old(self).wf(),
        ensures
            final(self).wf(),
            final(self).tokens == old(self).tokens,
            old(self).pos <= final(self).pos,
            (match spec_parse_dot_rest(
                old(self).toks(),
                old(self).pos as int,
                crate::ast::exp_view(node),
            ) {
                Some(pr) => r matches Ok(e) && crate::ast::exp_view(e) == pr.0 && final(self).pos as int == pr.1,
                None => r is Err,
            }),
        decreases old(self).tokens@.len() - old(self).pos, 1nat,
    {
        let mut out = node;
        while matches!(self.tokens[self.pos].kind, TokenKind::Dot) || matches!(
            self.tokens[self.pos].kind,
            TokenKind::LBracket,
        )
            invariant
                self.wf(),
                self.tokens == old(self).tokens,
                old(self).pos <= self.pos,
                spec_parse_dot_rest(
                    old(self).toks(),
                    old(self).pos as int,
                    crate::ast::exp_view(node),
                ) == spec_parse_dot_rest(
                    self.toks(),
                    self.pos as int,
                    crate::ast::exp_view(out),
                ),
            decreases self.tokens@.len() - self.pos,
        {
            proof {
                toks_pointwise(self.tokens@);
            }
            let line = self.tokens[self.pos].line;
            if matches!(self.tokens[self.pos].kind, TokenKind::Dot) {
                self.bump();
                let field_name = match self.token_to_field_name() {
                    Some(f) => f,
                    None => {
                        return Err(self.error("Expected field name after '.'"));
                    },
                };
                self.bump();
                out = Exp::Dot(Box::new(out), field_name, line);
            } else {
                self.bump();
                let idx = match self.parse_exp() {
                    Ok(x) => x,
                    Err(e) => {
                        return Err(e);
                    },
                };
                proof {
                    toks_pointwise(self.tokens@);
                }
                let r = self.expect(&TokenKind::RBracket);
                if let Err(e) = r {
                    return Err(e);
                }
                out = Exp::Index(Box::new(out), Box::new(idx), line);
            }
        }
        proof {
            toks_pointwise(self.tokens@);
        }
        Ok(out)
    }

    /// Parses a boolean expression; the result is fixed by
    /// `spec_parse_bexp`: `||` over `&&` over one comparison, chains
    /// associating to the left.
    pub fn parse_bexp(&mut self) -> (r: Result<BExp, String>)
        requires
            old(self).wf(),
        ensures
            final(self).wf(),
            final(self).tokens == old(self).tokens,
            old(self).pos <= final(self).pos,
            r is Ok ==> old(self).pos < final(self).pos,
            (match spec_parse_bexp(old(self).toks(), old(self).pos as int) {
                Some(pr) => r matches Ok(b) && crate::ast::bexp_view(b) == pr.0 && final(self).pos as int == pr.1,
                None => r is Err,
            }),
        decreases old(self).tokens@.len() - old(self).pos, 8nat,
    {
        let mut left = match self.parse_and_exp() {
            Ok(x) => x,
            Err(e) => {
                return Err(e);
            },
        };
        while matches!(self.tokens[self.pos].kind, TokenKind::Or)
            invariant
                self.wf(),
                self.tokens == old(self).tokens,
                old(self).pos < self.pos,
                spec_parse_bexp(old(self).toks(), old(self).pos as int) == spec_or_rest(
                    self.toks(),
                    self.pos as int,
                    crate::ast::bexp_view(left),
                ),
            decreases self.tokens@.len() - self.pos,
        {
            proof {
                toks_pointwise(self.tokens@);
            }
            self.bump();
            let right = match self.parse_and_exp() {
                Ok(x) => x,
                Err(e) => {
                    return Err(e);
                },
            };
            left = BExp::Or(Box::new(left), Box::new(right));
        }
        proof {
            toks_pointwise(self.tokens@);
        }
        Ok(left)
    }

    /// Parses a conjunction of comparisons, left-associatively.
    fn parse_and_exp(&mut self) -> (r: Result<BExp, String>)
        requires
            old(self).wf(),
        ensures
            final(self).wf(),
            final(self).tokens == old(self).tokens,
            old(self).pos <= final(self).pos,
            r is Ok ==> old(self).pos < final(self).pos,
            (match spec_parse_and_exp(old(self).toks(), old(self).pos as int) {
                Some(pr) => r matches Ok(b) && crate::ast::bexp_view(b) == pr.0 && final(self).pos as int == pr.1,
                None => r is Err,
            }),
        decreases old(self).tokens@.len() - old(self).pos, 7nat,
    {
        let mut left = match self.parse_primary_bexp() {
            Ok(x) => x,
            Err(e) => {
                return Err(e);
            },
        };
        while matches!(self.tokens[self.pos].kind, TokenKind::And)
            invariant
                self.wf(),
                self.tokens == old(self).tokens,
                old(self).pos < self.pos,
                spec_parse_and_exp(old(self).toks(), old(self).pos as int) == spec_and_rest(
                    self.toks(),
                    self.pos as int,
                    crate::ast::bexp_view(left),
                ),
            decreases self.tokens@.len() - self.pos,
        {
            proof {
                toks_pointwise(self.tokens@);
            }
            self.bump();
            let right = match self.parse_primary_bexp() {
                Ok(x) => x,
                Err(e) => {
                    return Err(e);
                },
            };
            left = BExp::And(Box::new(left), Box::new(right));
        }
        proof {
            toks_pointwise(self.tokens@);
        }
        Ok(left)
    }

    /// Parses one comparison between two expressions.
    fn parse_primary_bexp(&mut self) -> (r: Result<BExp, String>)
        requires
            old(self).wf(),
        ensures
            final(self).wf(),
            final(self).tokens == old(self).tokens,
            old(self).pos <= final(self).pos,
            r is Ok ==> old(self).pos < final(self).pos,
            (match spec_parse_primary_bexp(old(self).toks(), old(self).pos as int) {
                Some(pr) => r matches Ok(b) && crate::ast::bexp_view(b) == pr.0 && final(self).pos as int == pr.1,
                None => r is Err,
            }),
        decreases old(self).tokens@.len() - old(self).pos, 6nat,
    {
        proof {
            toks_pointwise(self.tokens@);
        }
        let left = match self.parse_exp() {
            Ok(x) => x,
            Err(e) => {
                return Err(e);
            },
        };
        proof {
            toks_pointwise(self.tokens@);
        }
        if matches!(self.tokens[self.pos].kind, TokenKind::Greater) {
            self.bump();
            let right = match self.parse_exp() {
                Ok(x) => x,
                Err(e) => {
                    return Err(e);
                },
            };
            Ok(BExp::Greater(left, right))
        } else if matches!(self.tokens[self.pos].kind, TokenKind::Less) {
            self.bump();
            let right = match self.parse_exp() {
                Ok(x) => x,
                Err(e) => {
                    return Err(e);
                },
            };
            Ok(BExp::Less(left, right))
        } else if matches!(self.tokens[self.pos].kind, TokenKind::GreaterEqual) {
            self.bump();
            let right = match self.parse_exp() {
                Ok(x) => x,
                Err(e) => {
                    return Err(e);
                },
            };
            Ok(BExp::GreaterEqual(left, right))
        } else if matches!(self.tokens[self.pos].kind, TokenKind::LessEqual) {
            self.bump();
            let right = match self.parse_exp() {
                Ok(x) => x,
                Err(e) => {
                    return Err(e);
                },
            };
            Ok(BExp::LessEqual(left, right))
        } else if matches!(self.tokens[self.pos].kind, TokenKind::DoubleEqual) {
            self.bump();
            let right = match self.parse_exp() {
                Ok(x) => x,
                Err(e) => {
                    return Err(e);
                },
            };
            Ok(BExp::Equal(left, right))
        } else if matches!(self.tokens[self.pos].kind, TokenKind::NotEqual) {
            self.bump();
            let right = match self.parse_exp() {
                Ok(x) => x,
                Err(e) => {
                    return Err(e);
                },
            };
            Ok(BExp::NotEqual(left, right))
        } else {
            Err(self.error("Expected comparison operator"))
        }
    }
}


/// The trailing `.field` and `[index]` accesses attached to `node`,
/// starting at `i`.
pub open spec fn spec_parse_dot_rest(t: Seq<TokModel>, i: int, node: ExpModel) -> Option<
    (ExpModel, int),
>
    decreases t.len() - i, 1nat,
{
    if i < 0 || i >= t.len() {
        None
    } else if t[i].kind is Dot {
        if i + 1 < t.len() {
            match spec_field_name(t[i + 1].kind) {
                Some(f) => spec_parse_dot_rest(
                    t,
                    i + 2,
                    ExpModel::Dot(Box::new(node), f, t[i].line),
                ),
                None => None,
            }
        } else {
            None
        }
    } else if t[i].kind is LBracket {
        match spec_parse_exp(t, i + 1) {
            Some((e, j)) => if i + 1 < j && j < t.len() && t[j].kind is RBracket {
                spec_parse_dot_rest(
                    t,
                    j + 1,
                    ExpModel::Index(Box::new(node), Box::new(e), t[i].line),
                )
            } else {
                None
            },
            None => None,
        }
    } else {
        Some((node, i))
    }
}

/// The field name a token denotes after `.`, if any.
pub open spec fn spec_field_name(k: crate::lexer::KindModel) -> Option<Seq<char>> {
    match k {
        crate::lexer::KindModel::Identifier(n) => Some(n),
        crate::lexer::KindModel::Species => Some("species"@),
        crate::lexer::KindModel::Spawn => Some("spawn"@),
        crate::lexer::KindModel::Routine => Some("routine"@),
        crate::lexer::KindModel::Fitness => Some("fitness"@),
        _ => None,
    }
}

/// A name primary at `i`: a call when `(` follows, a variable otherwise.
pub open spec fn spec_finish_name(t: Seq<TokModel>, i: int, name: Seq<char>, line: int) -> Option<
    (ExpModel, int),
>
    decreases t.len() - i, 2nat,
{
    if i < 0 || i > t.len() {
        None
    } else if i < t.len() && t[i].kind is LParen {
        match spec_call_args(t, i + 1, Seq::empty()) {
            Some((args, j)) => Some((ExpModel::Call(name, args, line), j)),
            None => None,
        }
    } else {
        Some((ExpModel::Var(name, line), i))
    }
}

/// Comma-separated call or list arguments up to a closing `)`.
pub open spec fn spec_call_args(t: Seq<TokModel>, i: int, acc: Seq<ExpModel>) -> Option<
    (Seq<ExpModel>, int),
>
    decreases t.len() - i, 9nat,
{
    if i < 0 || i >= t.len() {
        None
    } else if t[i].kind is RParen {
        Some((acc, i + 1))
    } else if t[i].kind is Eof {
        None
    } else {
        match spec_parse_exp(t, i) {
            Some((e, j)) => if i < j && j < t.len() {
                if t[j].kind is Comma {
                    spec_call_args(t, j + 1, acc.push(e))
                } else {
                    spec_call_args(t, j, acc.push(e))
                }
            } else {
                None
            },
            None => None,
        }
    }
}

/// Comma-separated list-literal elements up to a closing `]`.
pub open spec fn spec_list_items(t: Seq<TokModel>, i: int, acc: Seq<ExpModel>) -> Option<
    (Seq<ExpModel>, int),
>
    decreases t.len() - i, 9nat,
{
    if i < 0 || i >= t.len() {
        None
    } else if t[i].kind is RBracket {
        Some((acc, i + 1))
    } else if t[i].kind is Eof {
        None
    } else {
        match spec_parse_exp(t, i) {
            Some((e, j)) => if i < j && j < t.len() {
                if t[j].kind is Comma {
                    spec_list_items(t, j + 1, acc.push(e))
                } else {
                    spec_list_items(t, j, acc.push(e))
                }
            } else {
                None
            },
            None => None,
        }
    }
}

/// A primary expression at `i`, with unary minus rewritten as
/// `0 - primary` and trailing accesses attached.
pub open spec fn spec_parse_primary(t: Seq<TokModel>, i: int) -> Option<(ExpModel, int)>
    decreases t.len() - i, 3nat,
{
    if i < 0 || i >= t.len() {
        None
    } else if t[i].kind is Minus {
        match spec_parse_primary(t, i + 1) {
            Some((r, j)) => if i + 1 < j && j <= t.len() {
                spec_parse_dot_rest(
                    t,
                    j,
                    ExpModel::BinaryOp(
                        Box::new(ExpModel::Int(0, t[i].line)),
                        "-"@,
                        Box::new(r),
                        t[i].line,
                    ),
                )
            } else {
                None
            },
            None => None,
        }
    } else {
        let line = t[i].line;
        match t[i].kind {
            crate::lexer::KindModel::Number(v) => spec_parse_dot_rest(
                t,
                i + 1,
                ExpModel::Int(v, line),
            ),
            crate::lexer::KindModel::StringLiteral(s) => spec_parse_dot_rest(
                t,
                i + 1,
                ExpModel::StringLiteral(s, line),
            ),
            crate::lexer::KindModel::True => spec_parse_dot_rest(t, i + 1, ExpModel::Bool(true, line)),
            crate::lexer::KindModel::False => spec_parse_dot_rest(
                t,
                i + 1,
                ExpModel::Bool(false, line),
            ),
            crate::lexer::KindModel::LBracket => match spec_list_items(t, i + 1, Seq::empty()) {
                Some((items, j)) => if i + 1 < j && j <= t.len() {
                    spec_parse_dot_rest(t, j, ExpModel::List(items, line))
                } else {
                    None
                },
                None => None,
            },
            crate::lexer::KindModel::LParen => match spec_parse_exp(t, i + 1) {
                Some((e, j)) => if i + 1 < j && j < t.len() && t[j].kind is RParen {
                    spec_parse_dot_rest(t, j + 1, e)
                } else {
                    None
                },
                None => None,
            },
            crate::lexer::KindModel::Identifier(n) => match spec_finish_name(t, i + 1, n, line) {
                Some((e, j)) => if i < j && j <= t.len() {
                    spec_parse_dot_rest(t, j, e)
                } else {
                    None
                },
                None => None,
            },
            crate::lexer::KindModel::Random => match spec_finish_name(t, i + 1, "random"@, line) {
                Some((e, j)) => if i < j && j <= t.len() {
                    spec_parse_dot_rest(t, j, e)
                } else {
                    None
                },
                None => None,
            },
            crate::lexer::KindModel::Environment => match spec_finish_name(
                t,
                i + 1,
                "environment"@,
                line,
            ) {
                Some((e, j)) => if i < j && j <= t.len() {
                    spec_parse_dot_rest(t, j, e)
                } else {
                    None
                },
                None => None,
            },
            _ => None,
        }
    }
}

/// The multiplicative operators continuing a product left-associatively.
pub open spec fn spec_term_rest(t: Seq<TokModel>, i: int, acc: ExpModel) -> Option<(ExpModel, int)>
    decreases t.len() - i, 4nat,
{
    if i < 0 || i >= t.len() {
        None
    } else if t[i].kind is Star || t[i].kind is Slash || t[i].kind is Percent {
        let op = if t[i].kind is Star {
            "*"@
        } else if t[i].kind is Slash {
            "/"@
        } else {
            "%"@
        };
        match spec_parse_primary(t, i + 1) {
            Some((r, j)) => if i + 1 < j && j <= t.len() {
                spec_term_rest(
                    t,
                    j,
                    ExpModel::BinaryOp(Box::new(acc), op, Box::new(r), t[i].line),
                )
            } else {
                None
            },
            None => None,
        }
    } else {
        Some((acc, i))
    }
}

/// A product of primaries at `i`.
pub open spec fn spec_parse_term(t: Seq<TokModel>, i: int) -> Option<(ExpModel, int)>
    decreases t.len() - i, 5nat,
{
    match spec_parse_primary(t, i) {
        Some((e, j)) => if i < j && j <= t.len() {
            spec_term_rest(t, j, e)
        } else {
            None
        },
        None => None,
    }
}

/// The additive operators continuing a sum left-associatively.
pub open spec fn spec_sum_rest(t: Seq<TokModel>, i: int, acc: ExpModel) -> Option<(ExpModel, int)>
    decreases t.len() - i, 6nat,
{
    if i < 0 || i >= t.len() {
        None
    } else if t[i].kind is Plus || t[i].kind is Minus {
        let op = if t[i].kind is Plus {
            "+"@
        } else {
            "-"@
        };
        match spec_parse_term(t, i + 1) {
            Some((r, j)) => if i + 1 < j && j <= t.len() {
                spec_sum_rest(
                    t,
                    j,
                    ExpModel::BinaryOp(Box::new(acc), op, Box::new(r), t[i].line),
                )
            } else {
                None
            },
            None => None,
        }
    } else {
        Some((acc, i))
    }
}

/// A sum of products at `i`: product binds tighter, sums associate left.
pub open spec fn spec_parse_sum(t: Seq<TokModel>, i: int) -> Option<(ExpModel, int)>
    decreases t.len() - i, 7nat,
{
    match spec_parse_term(t, i) {
        Some((e, j)) => if i < j && j <= t.len() {
            spec_sum_rest(t, j, e)
        } else {
            None
        },
        None => None,
    }
}

/// An expression at `i`.
pub open spec fn spec_parse_exp(t: Seq<TokModel>, i: int) -> Option<(ExpModel, int)>
    decreases t.len() - i, 8nat,
{
    spec_parse_sum(t, i)
}

/// One comparison of two expressions at `i`.
pub open spec fn spec_parse_primary_bexp(t: Seq<TokModel>, i: int) -> Option<(BExpModel, int)>
    decreases t.len() - i, 10nat,
{
    match spec_parse_exp(t, i) {
        Some((l, j)) => if i < j && j < t.len() {
            if t[j].kind is Greater {
                match spec_parse_exp(t, j + 1) {
                    Some((r, k)) => if j + 1 < k {
                        Some((BExpModel::Greater(l, r), k))
                    } else {
                        None
                    },
                    None => None,
                }
            } else if t[j].kind is Less {
                match spec_parse_exp(t, j + 1) {
                    Some((r, k)) => if j + 1 < k {
                        Some((BExpModel::Less(l, r), k))
                    } else {
                        None
                    },
                    None => None,
                }
            } else if t[j].kind is GreaterEqual {
                match spec_parse_exp(t, j + 1) {
                    Some((r, k)) => if j + 1 < k {
                        Some((BExpModel::GreaterEqual(l, r), k))
                    } else {
                        None
                    },
                    None => None,
                }
            } else if t[j].kind is LessEqual {
                match spec_parse_exp(t, j + 1) {
                    Some((r, k)) => if j + 1 < k {
                        Some((BExpModel::LessEqual(l, r), k))
                    } else {
                        None
                    },
                    None => None,
                }
            } else if t[j].kind is DoubleEqual {
                match spec_parse_exp(t, j + 1) {
                    Some((r, k)) => if j + 1 < k {
                        Some((BExpModel::Equal(l, r), k))
                    } else {
                        None
                    },
                    None => None,
                }
            } else if t[j].kind is NotEqual {
                match spec_parse_exp(t, j + 1) {
                    Some((r, k)) => if j + 1 < k {
                        Some((BExpModel::NotEqual(l, r), k))
                    } else {
                        None
                    },
                    None => None,
                }
            } else {
                None
            }
        } else {
            None
        },
        None => None,
    }
}

/// The `&&` chain continuing a conjunction left-associatively.
pub open spec fn spec_and_rest(t: Seq<TokModel>, i: int, acc: BExpModel) -> Option<(BExpModel, int)>
    decreases t.len() - i, 11nat,
{
    if 0 <= i && i < t.len() && t[i].kind is And {
        match spec_parse_primary_bexp(t, i + 1) {
            Some((r, j)) => if i + 1 < j && j <= t.len() {
                spec_and_rest(t, j, BExpModel::And(Box::new(acc), Box::new(r)))
            } else {
                None
            },
            None => None,
        }
    } else {
        Some((acc, i))
    }
}

/// A conjunction of comparisons at `i`.
pub open spec fn spec_parse_and_exp(t: Seq<TokModel>, i: int) -> Option<(BExpModel, int)>
    decreases t.len() - i, 12nat,
{
    match spec_parse_primary_bexp(t, i) {
        Some((e, j)) => if i < j && j <= t.len() {
            spec_and_rest(t, j, e)
        } else {
            None
        },
        None => None,
    }
}

/// The `||` chain continuing a disjunction left-associatively.
pub open spec fn spec_or_rest(t: Seq<TokModel>, i: int, acc: BExpModel) -> Option<(BExpModel, int)>
    decreases t.len() - i, 13nat,
{
    if 0 <= i && i < t.len() && t[i].kind is Or {
        match spec_parse_and_exp(t, i + 1) {
            Some((r, j)) => if i + 1 < j && j <= t.len() {
                spec_or_rest(t, j, BExpModel::Or(Box::new(acc), Box::new(r)))
            } else {
                None
            },
            None => None,
        }
    } else {
        Some((acc, i))
    }
}

/// A boolean expression at `i`: `||` over `&&` over one comparison.
pub open spec fn spec_parse_bexp(t: Seq<TokModel>, i: int) -> Option<(BExpModel, int)>
    decreases t.len() - i, 14nat,
{
    match spec_parse_and_exp(t, i) {
        Some((e, j)) => if i < j && j <= t.len() {
            spec_or_rest(t, j, e)
        } else {
            None
        },
        None => None,
    }
}

/// The position after an optional semicolon at `i`.
pub open spec fn spec_skip_semi(t: Seq<TokModel>, i: int) -> int {
    if 0 <= i && i < t.len() && t[i].kind is SemiColon {
        i + 1
    } else {
        i
    }
}

/// The comma-separated expressions of a `print` up to the closing `)`.
pub open spec fn spec_print_args(t: Seq<TokModel>, i: int, acc: Seq<ExpModel>) -> Option<
    (Seq<ExpModel>, int),
>
    decreases t.len() - i, 9nat,
{
    if i < 0 || i >= t.len() {
        None
    } else if t[i].kind is RParen {
        Some((acc, i + 1))
    } else if t[i].kind is Eof {
        None
    } else {
        match spec_parse_exp(t, i) {
            Some((e, j)) => if i < j && j < t.len() {
                if t[j].kind is Comma {
                    spec_print_args(t, j + 1, acc.push(e))
                } else {
                    spec_print_args(t, j, acc.push(e))
                }
            } else {
                None
            },
            None => None,
        }
    }
}

/// The optional `else` continuation at `k`: an `else if` chains one
/// command, an `else { ... }` a block, anything else ends the `if`.
pub open spec fn spec_else_part(t: Seq<TokModel>, k: int) -> Option<(Option<Seq<CmdModel>>, int)>
    decreases t.len() - k, 14nat,
{
    if 0 <= k && k < t.len() && t[k].kind is Else {
        if k + 1 < t.len() && t[k + 1].kind is If {
            match spec_cmd_if(t, k + 1) {
                Some((c, m)) => Some((Some(seq![c]), m)),
                None => None,
            }
        } else {
            match spec_parse_block(t, k + 1) {
                Some((eb, m)) => Some((Some(eb), m)),
                None => None,
            }
        }
    } else {
        Some((None, k))
    }
}

/// The `if` command at `i`.
pub open spec fn spec_cmd_if(t: Seq<TokModel>, i: int) -> Option<(CmdModel, int)>
    decreases t.len() - i, 15nat,
{
    if i < 0 || i >= t.len() || !(t[i].kind is If) {
        None
    } else {
        let line = t[i].line;
        if i + 1 < t.len() && t[i + 1].kind is LParen {
            match spec_parse_bexp(t, i + 2) {
                Some((cond, j)) => if i + 2 < j && j < t.len() && t[j].kind is RParen {
                    match spec_parse_block(t, j + 1) {
                        Some((tb, k)) => if j + 1 < k && k <= t.len() {
                            match spec_else_part(t, k) {
                                Some((eb, m)) => Some(
                                    (
                                        CmdModel::If {
                                            condition: cond,
                                            then_block: tb,
                                            else_block: eb,
                                            line,
                                        },
                                        m,
                                    ),
                                ),
                                None => None,
                            }
                        } else {
                            None
                        },
                        None => None,
                    }
                } else {
                    None
                },
                None => None,
            }
        } else {
            None
        }
    }
}

/// The `while` command at `i`.
pub open spec fn spec_cmd_while(t: Seq<TokModel>, i: int) -> Option<(CmdModel, int)>
    decreases t.len() - i, 15nat,
{
    if i < 0 || i >= t.len() {
        None
    } else {
        let line = t[i].line;
        if i + 1 < t.len() && t[i + 1].kind is LParen {
            match spec_parse_bexp(t, i + 2) {
                Some((cond, j)) => if i + 2 < j && j < t.len() && t[j].kind is RParen {
                    match spec_parse_block(t, j + 1) {
                        Some((b, k)) => Some(
                            (CmdModel::While { condition: cond, body: b, line }, k),
                        ),
                        None => None,
                    }
                } else {
                    None
                },
                None => None,
            }
        } else {
            None
        }
    }
}

/// The `for` command at `i`.
pub open spec fn spec_cmd_for(t: Seq<TokModel>, i: int) -> Option<(CmdModel, int)>
    decreases t.len() - i, 15nat,
{
    if i < 0 || i >= t.len() {
        None
    } else {
        let line = t[i].line;
        if i + 1 < t.len() {
            match t[i + 1].kind {
                crate::lexer::KindModel::Identifier(var) => {
                    if i + 2 < t.len() && t[i + 2].kind is In && i + 3 < t.len() {
                        let coll = match t[i + 3].kind {
                            crate::lexer::KindModel::Identifier(n) => Some(n),
                            crate::lexer::KindModel::Environment => Some("environment"@),
                            _ => None,
                        };
                        match coll {
                            Some(collection) => match spec_parse_block(t, i + 4) {
                                Some((b, k)) => Some(
                                    (CmdModel::For { var, collection, body: b, line }, k),
                                ),
                                None => None,
                            },
                            None => None,
                        }
                    } else {
                        None
                    }
                },
                _ => None,
            }
        } else {
            None
        }
    }
}

/// The `return` command at `i`.
pub open spec fn spec_cmd_return(t: Seq<TokModel>, i: int) -> Option<(CmdModel, int)>
    decreases t.len() - i, 15nat,
{
    if i < 0 || i >= t.len() {
        None
    } else {
        let line = t[i].line;
        match spec_parse_exp(t, i + 1) {
            Some((e, j)) => if i + 1 < j {
                Some((CmdModel::Return(e, line), spec_skip_semi(t, j)))
            } else {
                None
            },
            None => None,
        }
    }
}

/// The `print` command at `i`.
pub open spec fn spec_cmd_print(t: Seq<TokModel>, i: int) -> Option<(CmdModel, int)>
    decreases t.len() - i, 15nat,
{
    if i < 0 || i >= t.len() {
        None
    } else {
        let line = t[i].line;
        if i + 1 < t.len() && t[i + 1].kind is LParen {
            match spec_print_args(t, i + 2, Seq::empty()) {
                Some((exps, j)) => Some((CmdModel::Print(exps, line), spec_skip_semi(t, j))),
                None => None,
            }
        } else {
            None
        }
    }
}

/// The `spawn` command at `i`.
pub open spec fn spec_cmd_spawn(t: Seq<TokModel>, i: int) -> Option<(CmdModel, int)>
    decreases t.len() - i, 15nat,
{
    if i < 0 || i >= t.len() {
        None
    } else {
        let line = t[i].line;
        if i + 1 < t.len() {
            match t[i + 1].kind {
                crate::lexer::KindModel::Identifier(species) => {
                    if i + 2 < t.len() && t[i + 2].kind is At && i + 3 < t.len() && t[i
                        + 3].kind is LParen {
                        match spec_parse_exp(t, i + 4) {
                            Some((x, j)) => if i + 4 < j && j < t.len() && t[j].kind is Comma {
                                match spec_parse_exp(t, j + 1) {
                                    Some((y, k)) => if j + 1 < k && k < t.len() && t[k].kind
                                        is RParen {
                                        Some(
                                            (
                                                CmdModel::Spawn { species, x, y, line },
                                                spec_skip_semi(t, k + 1),
                                            ),
                                        )
                                    } else {
                                        None
                                    },
                                    None => None,
                                }
                            } else {
                                None
                            },
                            None => None,
                        }
                    } else {
                        None
                    }
                },
                _ => None,
            }
        } else {
            None
        }
    }
}

/// An assignment or a bare expression statement at `i`.
pub open spec fn spec_cmd_assign_or_exp(t: Seq<TokModel>, i: int) -> Option<(CmdModel, int)>
    decreases t.len() - i, 15nat,
{
    if i < 0 || i >= t.len() {
        None
    } else {
        let line = t[i].line;
        match spec_parse_exp(t, i) {
            Some((e, j)) => if i < j {
                if j < t.len() && t[j].kind is Equal {
                    match spec_parse_exp(t, j + 1) {
                        Some((v, k)) => if j + 1 < k {
                            Some(
                                (
                                    CmdModel::Assign { target: e, value: v, line },
                                    spec_skip_semi(t, k),
                                ),
                            )
                        } else {
                            None
                        },
                        None => None,
                    }
                } else {
                    Some((CmdModel::Exp(e, line), spec_skip_semi(t, j)))
                }
            } else {
                None
            },
            None => None,
        }
    }
}

/// One command at `i`, dispatched on the leading token.
pub open spec fn spec_parse_command(t: Seq<TokModel>, i: int) -> Option<(CmdModel, int)>
    decreases t.len() - i, 16nat,
{
    if i < 0 || i >= t.len() {
        None
    } else if t[i].kind is If {
        spec_cmd_if(t, i)
    } else if t[i].kind is While {
        spec_cmd_while(t, i)
    } else if t[i].kind is For {
        spec_cmd_for(t, i)
    } else if t[i].kind is Return {
        spec_cmd_return(t, i)
    } else if t[i].kind is Print {
        spec_cmd_print(t, i)
    } else if t[i].kind is Spawn {
        spec_cmd_spawn(t, i)
    } else {
        spec_cmd_assign_or_exp(t, i)
    }
}

/// The commands of an open block up to its closing `}`.
pub open spec fn spec_block_rest(t: Seq<TokModel>, i: int, acc: Seq<CmdModel>) -> Option<
    (Seq<CmdModel>, int),
>
    decreases t.len() - i, 17nat,
{
    if i < 0 || i >= t.len() {
        None
    } else if t[i].kind is RBrace {
        Some((acc, i + 1))
    } else if t[i].kind is Eof {
        None
    } else {
        match spec_parse_command(t, i) {
            Some((c, j)) => if i < j && j <= t.len() {
                spec_block_rest(t, j, acc.push(c))
            } else {
                None
            },
            None => None,
        }
    }
}

/// A `{ ... }` command block at `i`.
pub open spec fn spec_parse_block(t: Seq<TokModel>, i: int) -> Option<(Seq<CmdModel>, int)>
    decreases t.len() - i, 18nat,
{
    if 0 <= i && i < t.len() && t[i].kind is LBrace {
        spec_block_rest(t, i + 1, Seq::empty())
    } else {
        None
    }
}


/// A routine list with one definition added: the first entry of the same
/// name is replaced in place, or the definition is appended.
pub open spec fn spec_routines_set(rs: Seq<RoutineDefModel>, rt: RoutineDefModel) -> Seq<
    RoutineDefModel,
>
    decreases rs.len(),
{
    if rs.len() == 0 {
        seq![rt]
    } else if rs[0].name == rt.name {
        seq![rt] + rs.drop_first()
    } else {
        seq![rs[0]] + spec_routines_set(rs.drop_first(), rt)
    }
}

/// A species list with one definition added, first-match replacement.
pub open spec fn spec_species_set(
    ss: Seq<(Seq<char>, SpeciesDefModel)>,
    name: Seq<char>,
    def: SpeciesDefModel,
) -> Seq<(Seq<char>, SpeciesDefModel)>
    decreases ss.len(),
{
    if ss.len() == 0 {
        seq![(name, def)]
    } else if ss[0].0 == name {
        seq![(name, def)] + ss.drop_first()
    } else {
        seq![ss[0]] + spec_species_set(ss.drop_first(), name, def)
    }
}

/// A property list with one default added, first-match replacement.
pub open spec fn spec_props_set(
    ps: Seq<(Seq<char>, ExpModel)>,
    key: Seq<char>,
    val: ExpModel,
) -> Seq<(Seq<char>, ExpModel)>
    decreases ps.len(),
{
    if ps.len() == 0 {
        seq![(key, val)]
    } else if ps[0].0 == key {
        seq![(key, val)] + ps.drop_first()
    } else {
        seq![ps[0]] + spec_props_set(ps.drop_first(), key, val)
    }
}

/// The ENVIRONMENT options read until the closing `}`: `width`, `height`
/// and `steps` take the last number given; other keys are skipped.
pub open spec fn spec_env_rest(t: Seq<TokModel>, i: int, w: int, h: int, st: int) -> Option<
    ((int, int, int), int),
>
    decreases t.len() - i, 20nat,
{
    if i < 0 || i >= t.len() {
        None
    } else if t[i].kind is RBrace {
        Some(((w, h, st), i + 1))
    } else if t[i].kind is Eof {
        None
    } else {
        match t[i].kind {
            crate::lexer::KindModel::Identifier(key) => {
                if i + 1 < t.len() && t[i + 1].kind is Colon && i + 2 < t.len() && !(t[i
                    + 2].kind is Eof) {
                    let got = match t[i + 2].kind {
                        crate::lexer::KindModel::Number(v) => Some(v),
                        _ => None,
                    };
                    let w1 = if key == "width"@ && got is Some {
                        got->0
                    } else {
                        w
                    };
                    let h1 = if key == "height"@ && got is Some {
                        got->0
                    } else {
                        h
                    };
                    let s1 = if key == "steps"@ && got is Some {
                        got->0
                    } else {
                        st
                    };
                    let j = if i + 3 < t.len() && t[i + 3].kind is Comma {
                        i + 4
                    } else {
                        i + 3
                    };
                    spec_env_rest(t, j, w1, h1, s1)
                } else {
                    None
                }
            },
            _ => None,
        }
    }
}

/// The ENVIRONMENT block at `i`, defaults 50, 50 and 10.
pub open spec fn spec_parse_env_block(t: Seq<TokModel>, i: int) -> Option<((int, int, int), int)>
    decreases t.len() - i, 21nat,
{
    if 0 <= i && i < t.len() && t[i].kind is Environment && i + 1 < t.len() && t[i + 1].kind
        is LBrace {
        spec_env_rest(t, i + 2, 50, 50, 10)
    } else {
        None
    }
}

/// The EVOLVE options read until the closing `}`, defaults 1 and 1.
pub open spec fn spec_evolve_rest(t: Seq<TokModel>, i: int, g: int, n: int) -> Option<
    ((int, int), int),
>
    decreases t.len() - i, 20nat,
{
    if i < 0 || i >= t.len() {
        None
    } else if t[i].kind is RBrace {
        Some(((g, n), i + 1))
    } else if t[i].kind is Eof {
        None
    } else {
        match t[i].kind {
            crate::lexer::KindModel::Identifier(key) => {
                if i + 1 < t.len() && t[i + 1].kind is Colon && i + 2 < t.len() && !(t[i
                    + 2].kind is Eof) {
                    let got = match t[i + 2].kind {
                        crate::lexer::KindModel::Number(v) => Some(v),
                        _ => None,
                    };
                    let g1 = if key == "generations"@ && got is Some {
                        got->0
                    } else {
                        g
                    };
                    let n1 = if key == "instances"@ && got is Some {
                        got->0
                    } else {
                        n
                    };
                    let j = if i + 3 < t.len() && t[i + 3].kind is Comma {
                        i + 4
                    } else {
                        i + 3
                    };
                    spec_evolve_rest(t, j, g1, n1)
                } else {
                    None
                }
            },
            _ => None,
        }
    }
}

/// The EVOLVE block at `i`.
pub open spec fn spec_parse_evolve_block(t: Seq<TokModel>, i: int) -> Option<((int, int), int)>
    decreases t.len() - i, 21nat,
{
    if 0 <= i && i < t.len() && t[i].kind is Evolve && i + 1 < t.len() && t[i + 1].kind
        is LBrace {
        spec_evolve_rest(t, i + 2, 1, 1)
    } else {
        None
    }
}

/// The MUTATE rules read until the closing `}`: each is a key, a colon and
/// a command block.
pub open spec fn spec_mutate_rest(t: Seq<TokModel>, i: int, acc: Seq<MutationRuleModel>) -> Option<
    (Seq<MutationRuleModel>, int),
>
    decreases t.len() - i, 20nat,
{
    if i < 0 || i >= t.len() {
        None
    } else if t[i].kind is RBrace {
        Some((acc, i + 1))
    } else if t[i].kind is Eof {
        None
    } else {
        match t[i].kind {
            crate::lexer::KindModel::Identifier(key) => {
                if i + 1 < t.len() && t[i + 1].kind is Colon {
                    match spec_parse_block(t, i + 2) {
                        Some((b, j)) => if i + 2 < j && j <= t.len() {
                            let j1 = if j < t.len() && t[j].kind is Comma {
                                j + 1
                            } else {
                                j
                            };
                            spec_mutate_rest(
                                t,
                                j1,
                                acc.push(MutationRuleModel { action: key, body: Some(b) }),
                            )
                        } else {
                            None
                        },
                        None => None,
                    }
                } else {
                    None
                }
            },
            _ => None,
        }
    }
}

/// The MUTATE block at `i`.
pub open spec fn spec_parse_mutate_block(t: Seq<TokModel>, i: int) -> Option<
    (Seq<MutationRuleModel>, int),
>
    decreases t.len() - i, 21nat,
{
    if 0 <= i && i < t.len() && t[i].kind is Mutate && i + 1 < t.len() && t[i + 1].kind
        is LBrace {
        spec_mutate_rest(t, i + 2, Seq::empty())
    } else {
        None
    }
}

/// One `ROUTINE name { ... }` definition at `i`.
pub open spec fn spec_parse_routine_def(t: Seq<TokModel>, i: int) -> Option<(RoutineDefModel, int)>
    decreases t.len() - i, 21nat,
{
    if 0 <= i && i < t.len() && t[i].kind is Routine && i + 1 < t.len() {
        match t[i + 1].kind {
            crate::lexer::KindModel::Identifier(name) => match spec_parse_block(t, i + 2) {
                Some((b, j)) => Some((RoutineDefModel { name, body: b }, j)),
                None => None,
            },
            _ => None,
        }
    } else {
        None
    }
}

/// The entries of one species definition read until the closing `}`: a
/// `routine` entry names the routine; other entries become default
/// properties in declared order, a later duplicate replacing the value.
pub open spec fn spec_species_props_rest(
    t: Seq<TokModel>,
    i: int,
    props: Seq<(Seq<char>, ExpModel)>,
    rc: Seq<char>,
) -> Option<((Seq<(Seq<char>, ExpModel)>, Seq<char>), int)>
    decreases t.len() - i, 20nat,
{
    if i < 0 || i >= t.len() {
        None
    } else if t[i].kind is RBrace {
        Some(((props, rc), i + 1))
    } else if t[i].kind is Eof {
        None
    } else {
        let keyo = match t[i].kind {
            crate::lexer::KindModel::Identifier(n) => Some(n),
            crate::lexer::KindModel::Routine => Some("routine"@),
            _ => None,
        };
        match keyo {
            Some(key) => {
                if i + 1 < t.len() && t[i + 1].kind is Colon {
                    match spec_parse_exp(t, i + 2) {
                        Some((val, j)) => if i + 2 < j && j <= t.len() {
                            let j1 = spec_skip_semi(t, j);
                            let j2 = if j1 < t.len() && t[j1].kind is Comma {
                                j1 + 1
                            } else {
                                j1
                            };
                            if key == "routine"@ {
                                let rc1 = match val {
                                    ExpModel::Var(v, _) => v,
                                    _ => rc,
                                };
                                spec_species_props_rest(t, j2, props, rc1)
                            } else {
                                spec_species_props_rest(t, j2, spec_props_set(props, key, val), rc)
                            }
                        } else {
                            None
                        },
                        None => None,
                    }
                } else {
                    None
                }
            },
            None => None,
        }
    }
}

/// The SPECIES block contents read until the closing `}`: routine
/// definitions and species definitions, in any order, a later duplicate
/// name replacing an earlier one.
pub open spec fn spec_species_rest(
    t: Seq<TokModel>,
    i: int,
    routines: Seq<RoutineDefModel>,
    species: Seq<(Seq<char>, SpeciesDefModel)>,
) -> Option<((Seq<RoutineDefModel>, Seq<(Seq<char>, SpeciesDefModel)>), int)>
    decreases t.len() - i, 22nat,
{
    if i < 0 || i >= t.len() {
        None
    } else if t[i].kind is RBrace {
        Some(((routines, species), i + 1))
    } else if t[i].kind is Eof {
        None
    } else if t[i].kind is Routine {
        match spec_parse_routine_def(t, i) {
            Some((rt, j)) => if i < j && j <= t.len() {
                let j1 = if j < t.len() && t[j].kind is Comma {
                    j + 1
                } else {
                    j
                };
                spec_species_rest(t, j1, spec_routines_set(routines, rt), species)
            } else {
                None
            },
            None => None,
        }
    } else {
        match t[i].kind {
            crate::lexer::KindModel::Identifier(name) => {
                if i + 1 < t.len() && t[i + 1].kind is LBrace {
                    match spec_species_props_rest(t, i + 2, Seq::empty(), Seq::empty()) {
                        Some(((props, rc), j)) => if i + 2 < j && j <= t.len() {
                            let j1 = if j < t.len() && t[j].kind is Comma {
                                j + 1
                            } else {
                                j
                            };
                            spec_species_rest(
                                t,
                                j1,
                                routines,
                                spec_species_set(
                                    species,
                                    name,
                                    SpeciesDefModel { properties: props, routine_call: rc },
                                ),
                            )
                        } else {
                            None
                        },
                        None => None,
                    }
                } else {
                    None
                }
            },
            _ => None,
        }
    }
}

/// The SPECIES block at `i`.
pub open spec fn spec_parse_species_block(t: Seq<TokModel>, i: int) -> Option<
    ((Seq<RoutineDefModel>, Seq<(Seq<char>, SpeciesDefModel)>), int),
>
    decreases t.len() - i, 23nat,
{
    if 0 <= i && i < t.len() && t[i].kind is Species && i + 1 < t.len() && t[i + 1].kind
        is LBrace {
        spec_species_rest(t, i + 2, Seq::empty(), Seq::empty())
    } else {
        None
    }
}

/// The running accumulation of the top-level dispatch: the blocks read so
/// far and which of them have been seen.
#[verifier::ext_equal]
pub ghost struct PartsModel {
    pub env_width: int,
    pub env_height: int,
    pub env_steps: int,
    pub routines: Seq<RoutineDefModel>,
    pub species: Seq<(Seq<char>, SpeciesDefModel)>,
    pub spawns: Seq<CmdModel>,
    pub mutations: Seq<MutationRuleModel>,
    pub fitness: Seq<CmdModel>,
    pub evolve_generations: int,
    pub evolve_instances: int,
    pub visualize_block: Seq<CmdModel>,
    pub found_environment: bool,
    pub found_species: bool,
    pub found_evolve: bool,
    pub found_fitness: bool,
    pub found_mutate: bool,
    pub found_spawn: bool,
    pub found_visualize: bool,
}

/// The initial accumulation: the documented defaults and nothing seen.
pub open spec fn spec_parts_init() -> PartsModel {
    PartsModel {
        env_width: 50,
        env_height: 50,
        env_steps: 10,
        routines: Seq::empty(),
        species: Seq::empty(),
        spawns: Seq::empty(),
        mutations: Seq::empty(),
        fitness: Seq::empty(),
        evolve_generations: 1,
        evolve_instances: 1,
        visualize_block: Seq::empty(),
        found_environment: false,
        found_species: false,
        found_evolve: false,
        found_fitness: false,
        found_mutate: false,
        found_spawn: false,
        found_visualize: false,
    }
}

/// The top-level dispatch from `i` to the end of input: each keyword
/// opens its block parser, an unknown token is skipped.
pub open spec fn spec_parse_toplevel(t: Seq<TokModel>, i: int, parts: PartsModel) -> Option<
    PartsModel,
>
    decreases t.len() - i, 25nat,
{
    if i < 0 || i >= t.len() {
        None
    } else if t[i].kind is Eof {
        Some(parts)
    } else if t[i].kind is Environment {
        match spec_parse_env_block(t, i) {
            Some(((w, h, st), j)) => if i < j && j <= t.len() {
                spec_parse_toplevel(
                    t,
                    j,
                    PartsModel {
                        env_width: w,
                        env_height: h,
                        env_steps: st,
                        found_environment: true,
                        ..parts
                    },
                )
            } else {
                None
            },
            None => None,
        }
    } else if t[i].kind is Species {
        match spec_parse_species_block(t, i) {
            Some(((rs, ss), j)) => if i < j && j <= t.len() {
                spec_parse_toplevel(
                    t,
                    j,
                    PartsModel { routines: rs, species: ss, found_species: true, ..parts },
                )
            } else {
                None
            },
            None => None,
        }
    } else if t[i].kind is Evolve {
        match spec_parse_evolve_block(t, i) {
            Some(((g, n), j)) => if i < j && j <= t.len() {
                spec_parse_toplevel(
                    t,
                    j,
                    PartsModel {
                        evolve_generations: g,
                        evolve_instances: n,
                        found_evolve: true,
                        ..parts
                    },
                )
            } else {
                None
            },
            None => None,
        }
    } else if t[i].kind is Fitness {
        match spec_parse_block(t, i + 1) {
            Some((b, j)) => if i < j && j <= t.len() {
                spec_parse_toplevel(t, j, PartsModel { fitness: b, found_fitness: true, ..parts })
            } else {
                None
            },
            None => None,
        }
    } else if t[i].kind is Mutate {
        match spec_parse_mutate_block(t, i) {
            Some((rules, j)) => if i < j && j <= t.len() {
                spec_parse_toplevel(
                    t,
                    j,
                    PartsModel { mutations: rules, found_mutate: true, ..parts },
                )
            } else {
                None
            },
            None => None,
        }
    } else if t[i].kind is Visualize {
        match spec_parse_block(t, i + 1) {
            Some((b, j)) => if i < j && j <= t.len() {
                spec_parse_toplevel(
                    t,
                    j,
                    PartsModel { visualize_block: b, found_visualize: true, ..parts },
                )
            } else {
                None
            },
            None => None,
        }
    } else if t[i].kind is Spawn {
        match spec_parse_block(t, i + 1) {
            Some((b, j)) => if i < j && j <= t.len() {
                spec_parse_toplevel(t, j, PartsModel { spawns: b, found_spawn: true, ..parts })
            } else {
                None
            },
            None => None,
        }
    } else {
        spec_parse_toplevel(t, i + 1, parts)
    }
}

/// The outcome of parsing a whole program: the program, or the first
/// mandatory block found missing, or a failure inside some block.
#[verifier::ext_equal]
pub ghost enum ParseOutcome {
    Parsed(ProgramModel),
    MissingEnvironment,
    MissingSpecies,
    MissingEvolve,
    MissingFitness,
    MissingMutate,
    MissingSpawn,
    Failed,
}

/// The program assembled from a completed top-level dispatch.
pub open spec fn spec_assemble(parts: PartsModel) -> ProgramModel {
    ProgramModel {
        env_width: parts.env_width,
        env_height: parts.env_height,
        env_steps: parts.env_steps,
        routines_block: parts.routines,
        species_block: parts.species,
        spawns_block: parts.spawns,
        mutations_block: parts.mutations,
        fitness_block: parts.fitness,
        evolve_generations: parts.evolve_generations,
        evolve_instances: parts.evolve_instances,
        visualize_block: parts.visualize_block,
        visualize: parts.found_visualize,
    }
}

/// A whole program parsed from position `i`: the six mandatory blocks are
/// checked in a fixed order once the input is exhausted.
pub open spec fn spec_parse_program(t: Seq<TokModel>, i: int) -> ParseOutcome {
    match spec_parse_toplevel(t, i, spec_parts_init()) {
        None => ParseOutcome::Failed,
        Some(parts) => if !parts.found_environment {
            ParseOutcome::MissingEnvironment
        } else if !parts.found_species {
            ParseOutcome::MissingSpecies
        } else if !parts.found_evolve {
            ParseOutcome::MissingEvolve
        } else if !parts.found_fitness {
            ParseOutcome::MissingFitness
        } else if !parts.found_mutate {
            ParseOutcome::MissingMutate
        } else if !parts.found_spawn {
            ParseOutcome::MissingSpawn
        } else {
            ParseOutcome::Parsed(spec_assemble(parts))
        },
    }
}

} // verus!
