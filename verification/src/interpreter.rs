use vstd::prelude::*;

use crate::parser::{ParseError, spec_parse_program};
use crate::types::{
    AstNode, AstNodeView, BinaryOperation, DimensionedValue, EvalError, EvalErrorView, ast_view,
    asts_view, dv_wf, res_eval_view, spec_dv_combine, value_wf,
};

verus! {

/// A failure of a whole program run: either its text does not parse, or
/// its evaluation fails.
#[derive(Debug)]
pub enum ProgramError {
    Parse(ParseError),
    Eval(EvalError),
}

/// The height of a syntax tree, used to bound the evaluator's recursion.
pub open spec fn ast_height(n: AstNodeView) -> nat
    decreases n,
{
    match n {
        AstNodeView::Expression { operation, lhs, rhs } => 1 + ast_height(*lhs) + ast_height(
            *rhs,
        ),
        AstNodeView::Variable { name, expr } => 1 + ast_height(*name) + ast_height(*expr),
        _ => 0,
    }
}

/// A node that may stand on the right-hand side of an assignment: a
/// literal, a name, or a fully parenthesized operation on such nodes, with
/// a well-formed payload in every literal.
pub open spec fn expr_wf(n: AstNodeView) -> bool
    decreases n,
{
    match n {
        AstNodeView::Double { value, unit } => value_wf(value),
        AstNodeView::Name(_) => true,
        AstNodeView::Expression { operation, lhs, rhs } => expr_wf(*lhs) && expr_wf(*rhs),
        AstNodeView::Variable { .. } => false,
    }
}

/// A node that may stand as a statement: a variable bound to a
/// well-formed expression.
pub open spec fn stmt_wf(n: AstNodeView) -> bool {
    match n {
        AstNodeView::Variable { name, expr } => (*name matches AstNodeView::Name(_)) && expr_wf(
            *expr,
        ),
        _ => false,
    }
}

/// Every statement of a line is well-formed.
pub open spec fn stmts_wf(s: Seq<AstNodeView>) -> bool {
    forall|j: int| 0 <= j < s.len() ==> stmt_wf(#[trigger] s[j])
}

/// Every line of a program is made of well-formed statements.
pub open spec fn lines_wf(lines: Seq<Seq<AstNodeView>>) -> bool {
    forall|i: int| 0 <= i < lines.len() ==> stmts_wf(#[trigger] lines[i])
}

/// Every value stored in an environment is well-formed.
pub open spec fn env_wf(entries: Seq<(String, DimensionedValue)>) -> bool {
    forall|i: int| 0 <= i < entries.len() ==> dv_wf((#[trigger] entries[i]).1)
}

/// The mapping an association list stands for: later entries win.
pub open spec fn env_map(entries: Seq<(String, DimensionedValue)>) -> Map<
    Seq<char>,
    DimensionedValue,
>
    decreases entries.len(),
{
    if entries.len() == 0 {
        Map::empty()
    } else {
        env_map(entries.drop_last()).insert(entries.last().0@, entries.last().1)
    }
}

/// The meaning of one expression under an environment: a literal is its
/// own value, unnormalized; a name is the value bound to it, or an
/// undefined-variable failure; an operation evaluates both sides, then
/// combines them as the dimensional algebra says.
pub open spec fn spec_eval(
    env: Map<Seq<char>, DimensionedValue>,
    n: AstNodeView,
) -> Result<DimensionedValue, EvalErrorView>
    decreases ast_height(n), 0int,
{
    match n {
        AstNodeView::Double { value, unit } => Ok(DimensionedValue { value, unit }),
        AstNodeView::Name(s) => if env.contains_key(s) {
            Ok(env[s])
        } else {
            Err(EvalErrorView::UndefinedVariable(s))
        },
        AstNodeView::Expression { operation, lhs, rhs } => spec_eval_expr(
            env,
            operation,
            *lhs,
            *rhs,
        ),
        AstNodeView::Variable { .. } => arbitrary(),
    }
}

/// The meaning of one binary operation: left side first, then right, then
/// the dimensional algebra of the operator.
pub open spec fn spec_eval_expr(
    env: Map<Seq<char>, DimensionedValue>,
    op: BinaryOperation,
    lhs: AstNodeView,
    rhs: AstNodeView,
) -> Result<DimensionedValue, EvalErrorView>
    decreases ast_height(lhs) + ast_height(rhs), 1int,
{
    match spec_eval(env, lhs) {
        Ok(l) => match spec_eval(env, rhs) {
            Ok(r) => match spec_dv_combine(op, l, r) {
                Ok(v) => Ok(v),
                Err(e) => Err(e@),
            },
            Err(e) => Err(e),
        },
        Err(e) => Err(e),
    }
}

/// The effect of one statement: its expression's value is bound to its
/// name, overwriting any earlier binding.
pub open spec fn spec_run_stmt(
    env: Map<Seq<char>, DimensionedValue>,
    stmt: AstNodeView,
) -> Result<Map<Seq<char>, DimensionedValue>, EvalErrorView> {
    match stmt {
        AstNodeView::Variable { name, expr } => match *name {
            AstNodeView::Name(s) => match spec_eval(env, *expr) {
                Ok(v) => Ok(env.insert(s, v)),
                Err(e) => Err(e),
            },
            _ => arbitrary(),
        },
        _ => arbitrary(),
    }
}

/// The effect of the statements of one line from position `i` on: each in
/// turn, stopping at the first failure.
pub open spec fn spec_run_stmts_from(
    env: Map<Seq<char>, DimensionedValue>,
    stmts: Seq<AstNodeView>,
    i: int,
) -> Result<Map<Seq<char>, DimensionedValue>, EvalErrorView>
    decreases stmts.len() - i,
{
    if i < 0 || i >= stmts.len() {
        Ok(env)
    } else {
        match spec_run_stmt(env, stmts[i]) {
            Ok(env2) => spec_run_stmts_from(env2, stmts, i + 1),
            Err(e) => Err(e),
        }
    }
}

/// The effect of a whole program from line `i` on: every line in order,
/// stopping at the first failure.
pub open spec fn spec_run_lines_from(
    env: Map<Seq<char>, DimensionedValue>,
    lines: Seq<Seq<AstNodeView>>,
    i: int,
) -> Result<Map<Seq<char>, DimensionedValue>, EvalErrorView>
    decreases lines.len() - i,
{
    if i < 0 || i >= lines.len() {
        Ok(env)
    } else {
        match spec_run_stmts_from(env, lines[i], 0) {
            Ok(env2) => spec_run_lines_from(env2, lines, i + 1),
            Err(e) => Err(e),
        }
    }
}

/// The effect of a whole program on an environment.
pub open spec fn spec_run(
    env: Map<Seq<char>, DimensionedValue>,
    lines: Seq<Seq<AstNodeView>>,
) -> Result<Map<Seq<char>, DimensionedValue>, EvalErrorView> {
    spec_run_lines_from(env, lines, 0)
}

/// The views of a program's lines.
pub open spec fn lines_view(lines: Seq<Vec<AstNode>>) -> Seq<Seq<AstNodeView>> {
    lines.map_values(|line: Vec<AstNode>| asts_view(line@))
}

/// A found entry fixes the mapping: the latest entry under a key is what
/// the association list's map holds there.
proof fn lemma_env_map_present(s: Seq<(String, DimensionedValue)>, i: int, k: Seq<char>)
    requires
        0 <= i < s.len(),
        s[i].0@ == k,
        forall|j: int| i < j < s.len() ==> (#[trigger] s[j]).0@ != k,
    ensures
        env_map(s).contains_key(k),
        env_map(s)[k] == s[i].1,
    decreases s.len(),
{
    if i == s.len() - 1 {
    } else {
        assert(s.drop_last()[i] == s[i]);
        lemma_env_map_present(s.drop_last(), i, k);
    }
}

/// A key under no entry is not in the association list's map.
proof fn lemma_env_map_absent(s: Seq<(String, DimensionedValue)>, k: Seq<char>)
    requires
        forall|j: int| 0 <= j < s.len() ==> (#[trigger] s[j]).0@ != k,
    ensures
        !env_map(s).contains_key(k),
    decreases s.len(),
{
    if s.len() > 0 {
        assert(s[s.len() - 1] == s.last());
        lemma_env_map_absent(s.drop_last(), k);
    }
}

/// The interpreter's state: the program to run, and the environment its
/// assignments fill.  The environment is an association list in which the
/// latest entry under a name wins; its meaning is the map `env_map` gives.
#[derive(Debug)]
pub struct Memory {
    pub instructions: Vec<Vec<AstNode>>,
    pub memory: Vec<(String, DimensionedValue)>,
}

impl View for Memory {
    type V = Map<Seq<char>, DimensionedValue>;

    open spec fn view(&self) -> Map<Seq<char>, DimensionedValue> {
        env_map(self.memory@)
    }
}

impl Memory {
    /// A fresh interpreter over the given program, with an empty
    /// environment.
    pub fn new(instructions: Vec<Vec<AstNode>>) -> (r: Memory)
        ensures
            r.instructions == instructions,
            r.memory@ == Seq::<(String, DimensionedValue)>::empty(),
            r@ == Map::<Seq<char>, DimensionedValue>::empty(),
    {
        Memory { instructions, memory: Vec::new() }
    }

    /// The value bound to a name, or nothing where no assignment bound it.
    pub fn lookup(&self, name: &String) -> (r: Option<DimensionedValue>)
        requires
            env_wf(self.memory@),
        ensures
            match r {
                Some(v) => self@.contains_key(name@) && v == self@[name@] && dv_wf(v),
                None => !self@.contains_key(name@),
            },
    {
        let n = self.memory.len();
        let mut i = n;
        while i > 0
            invariant
                i <= n,
                n == self.memory@.len(),
                env_wf(self.memory@),
                forall|j: int| i <= j < n ==> (#[trigger] self.memory@[j]).0@ != name@,
            decreases i,
        {
            i = i - 1;
            let entry = &self.memory[i];
            if entry.0 == *name {
                proof {
                    lemma_env_map_present(self.memory@, i as int, name@);
                }
                return Some(entry.1.duplicate());
            }
        }
        proof {
            lemma_env_map_absent(self.memory@, name@);
        }
        None
    }

    /// Evaluates one expression against the current environment; see
    /// `spec_eval`.
    pub fn evaluate(&self, expression: &AstNode) -> (r: Result<DimensionedValue, EvalError>)
        requires
            expr_wf(expression@),
            env_wf(self.memory@),
        ensures
            res_eval_view(r) == spec_eval(self@, expression@),
            r is Ok ==> dv_wf(r->Ok_0),
        decreases ast_height(expression@), 0int,
    {
        match expression {
            AstNode::Double { value, unit } => Ok(
                DimensionedValue { value: *value, unit: unit.duplicate() },
            ),
            AstNode::Name(name) => match self.lookup(name) {
                Some(v) => Ok(v),
                _ => Err(EvalError::UndefinedVariable(name.clone())),
            },
            AstNode::Expression { operation, lhs, rhs } => self.evaluate_expression(
                *operation,
                lhs,
                rhs,
            ),
            AstNode::Variable { .. } => unreached(),
        }
    }

    /// Evaluates one binary operation against the current environment; see
    /// `spec_eval_expr`.
    pub fn evaluate_expression(
        &self,
        operation: BinaryOperation,
        lhs: &AstNode,
        rhs: &AstNode,
    ) -> (r: Result<DimensionedValue, EvalError>)
        requires
            expr_wf(lhs@),
            expr_wf(rhs@),
            env_wf(self.memory@),
        ensures
            res_eval_view(r) == spec_eval_expr(self@, operation, lhs@, rhs@),
            r is Ok ==> dv_wf(r->Ok_0),
        decreases ast_height(lhs@) + ast_height(rhs@), 1int,
    {
        let l = match self.evaluate(lhs) {
            Ok(v) => v,
            Err(e) => return Err(e),
        };
        let r = match self.evaluate(rhs) {
            Ok(v) => v,
            Err(e) => return Err(e),
        };
        match operation {
            BinaryOperation::Add => l.add(&r),
            BinaryOperation::Subtract => l.sub(&r),
            BinaryOperation::Multiply => l.mul(&r),
            BinaryOperation::Divide => l.div(&r),
        }
    }

    /// Runs the whole program: every statement of every line in order,
    /// binding each result under its variable's name, and stopping at the
    /// first failure; see `spec_run`.
    pub fn run(&mut self) -> (r: Result<(), EvalError>)
        requires
            lines_wf(lines_view(old(self).instructions@)),
            env_wf(old(self).memory@),
        ensures
            final(self).instructions == old(self).instructions,
            env_wf(final(self).memory@),
            match r {
                Ok(_) => spec_run(old(self)@, lines_view(old(self).instructions@)) == Ok::<
                    Map<Seq<char>, DimensionedValue>,
                    EvalErrorView,
                >(final(self)@),
                Err(e) => spec_run(old(self)@, lines_view(old(self).instructions@)) == Err::<
                    Map<Seq<char>, DimensionedValue>,
                    EvalErrorView,
                >(e@),
            },
    {
        let ghost env0 = self@;
        let ghost linesv = lines_view(self.instructions@);
        let n = self.instructions.len();
        let mut i: usize = 0;
        while i < n
            invariant
                i <= n,
                n == self.instructions@.len(),
                self.instructions == old(self).instructions,
                linesv == lines_view(self.instructions@),
                env0 == old(self)@,
                lines_wf(linesv),
                env_wf(self.memory@),
                spec_run_lines_from(env0, linesv, 0) == spec_run_lines_from(self@, linesv, i as int),
            decreases n - i,
        {
            let m = self.instructions[i].len();
            let mut j: usize = 0;
            while j < m
                invariant
                    i < n,
                    j <= m,
                    n == self.instructions@.len(),
                    m == self.instructions@[i as int]@.len(),
                    self.instructions == old(self).instructions,
                    linesv == lines_view(self.instructions@),
                    env0 == old(self)@,
                    lines_wf(linesv),
                    env_wf(self.memory@),
                    spec_run_lines_from(env0, linesv, 0) == (match spec_run_stmts_from(
                        self@,
                        linesv[i as int],
                        j as int,
                    ) {
                        Ok(env2) => spec_run_lines_from(env2, linesv, i as int + 1),
                        Err(e) => Err(e),
                    }),
                decreases m - j,
            {
                let ghost stmtv = linesv[i as int][j as int];
                proof {
                    assert(linesv[i as int] == asts_view(self.instructions@[i as int]@));
                    assert(stmtv == self.instructions@[i as int]@[j as int]@);
                    assert(stmts_wf(linesv[i as int]));
                    assert(stmt_wf(stmtv));
                }
                let (bound_name, value) = {
                    let stmt = &self.instructions[i][j];
                    proof {
                        assert(stmt@ == stmtv);
                    }
                    match stmt {
                        AstNode::Variable { name, expr } => {
                            proof {
                                assert(stmtv == AstNodeView::Variable {
                                    name: Box::new(ast_view(**name)),
                                    expr: Box::new(ast_view(**expr)),
                                });
                                assert(ast_view(**name) matches AstNodeView::Name(_));
                                assert(expr_wf((**expr)@));
                            }
                            let nm: &String = match &**name {
                                AstNode::Name(s) => s,
                                _ => unreached(),
                            };
                            proof {
                                assert(ast_view(**name) == AstNodeView::Name(nm@));
                            }
                            let value = match self.evaluate(expr) {
                                Ok(v) => v,
                                Err(e) => {
                                    proof {
                                        assert(spec_run_stmt(self@, stmtv) == Err::<
                                            Map<Seq<char>, DimensionedValue>,
                                            EvalErrorView,
                                        >(e@));
                                        assert(linesv[i as int].len() == m);
                                        assert(spec_run_stmts_from(
                                            self@,
                                            linesv[i as int],
                                            j as int,
                                        ) == Err::<
                                            Map<Seq<char>, DimensionedValue>,
                                            EvalErrorView,
                                        >(e@));
                                        assert(spec_run_lines_from(env0, linesv, 0) == Err::<
                                            Map<Seq<char>, DimensionedValue>,
                                            EvalErrorView,
                                        >(e@));
                                    }
                                    return Err(e);
                                },
                            };
                            (nm.clone(), value)
                        },
                        _ => unreached(),
                    }
                };
                let ghost before = self.memory@;
                self.memory.push((bound_name, value));
                proof {
                    assert(self.memory@.drop_last() =~= before);
                    assert(self@ =~= env_map(before).insert(bound_name@, value));
                    assert(Ok::<Map<Seq<char>, DimensionedValue>, EvalErrorView>(self@)
                        == spec_run_stmt(env_map(before), stmtv));
                }
                j = j + 1;
            }
            i = i + 1;
        }
        Ok(())
    }
}

/// Parses and runs a whole program against a fresh environment: the
/// program's lines in order, each statement binding its variable, stopping
/// at the first failure.  On success the returned interpreter holds the
/// final environment.
pub fn evaluate_program(source: &str) -> (r: Result<Memory, ProgramError>)
    ensures
        match r {
            Ok(m) => spec_parse_program(source@, 0) matches Ok(linesv) && lines_view(
                m.instructions@,
            ) == linesv && spec_run(Map::empty(), linesv) == Ok::<
                Map<Seq<char>, DimensionedValue>,
                EvalErrorView,
            >(m@) && env_wf(m.memory@),
            Err(ProgramError::Parse(e)) => spec_parse_program(source@, 0) == Err::<
                Seq<Seq<AstNodeView>>,
                ParseError,
            >(e),
            Err(ProgramError::Eval(e)) => spec_parse_program(source@, 0) matches Ok(linesv)
                && spec_run(Map::empty(), linesv) == Err::<
                Map<Seq<char>, DimensionedValue>,
                EvalErrorView,
            >(e@),
        },
{
    let lines = match crate::parser::parse_program(source) {
        Ok(l) => l,
        Err(e) => return Err(ProgramError::Parse(e)),
    };
    let mut m = Memory::new(lines);
    match m.run() {
        Ok(_) => Ok(m),
        Err(e) => Err(ProgramError::Eval(e)),
    }
}

} // verus!
