//! The expression tree and its evaluation algorithm.
//!
//! An [`Expr`] is a finite, immutable arithmetic expression over IEEE 754
//! single-precision values, carried everywhere as `u32` bit patterns. The
//! engine itself performs no floating-point arithmetic: every `Add`, `Sub`,
//! `Mul`, `Div` and `Neg` on operand values is delegated to the caller, who
//! owns the floating-point unit. The caller drives [`Expr::eval`] with an
//! [`OpTable`] of the arithmetic results computed so far; each attempt either
//! finishes with a result, or names the one further operation whose result it
//! needs ([`EvalStep::Need`]). Recording that result and re-running makes
//! progress, so the loop terminates after at most one round per operator node.
//!
//! What the engine does decide is verified exactly: traversal order, variable
//! resolution, the zero-divisor check, and which error propagates first.

use vstd::prelude::*;

use crate::context::Context;

verus! {

/// An arithmetic expression: constants, named variables, and operators that
/// own their sub-expressions, so every tree is finite and acyclic by
/// construction.
///
/// `Constant` carries the bit pattern of an IEEE 754 single-precision value.
#[derive(Debug, PartialEq)]
pub enum Expr {
    Constant(u32),
    Variable(String),
    Add(Box<Expr>, Box<Expr>),
    Sub(Box<Expr>, Box<Expr>),
    Mul(Box<Expr>, Box<Expr>),
    Div(Box<Expr>, Box<Expr>),
    Neg(Box<Expr>),
}

/// Why an evaluation failed. Both kinds are reported to the caller as typed
/// results; neither is fatal.
#[derive(Debug, Clone, PartialEq)]
pub enum EvalError {
    /// The tree references a variable the supplied context cannot resolve.
    VariableNotFound(String),
    /// A `Div` node's divisor evaluated to an IEEE 754 zero.
    DivisionByZero,
}

/// The mathematical image of an [`EvalError`].
pub enum SpecEvalError {
    VariableNotFound(Seq<char>),
    DivisionByZero,
}

impl View for EvalError {
    type V = SpecEvalError;

    open spec fn view(&self) -> SpecEvalError {
        match self {
            EvalError::VariableNotFound(name) => SpecEvalError::VariableNotFound(name@),
            EvalError::DivisionByZero => SpecEvalError::DivisionByZero,
        }
    }
}

/// The arithmetic operations the engine delegates to its caller.
#[derive(Debug, Clone, Copy, PartialEq, Eq, Structural)]
pub enum Op {
    Add,
    Sub,
    Mul,
    Div,
    Neg,
}

/// One delegated computation: the caller's result `r` for `op` applied to the
/// operand bit patterns `a` and `b` (`b` is `0` for `Op::Neg`).
#[derive(Debug, Clone, Copy, PartialEq, Eq, Structural)]
pub struct OpEntry {
    pub op: Op,
    pub a: u32,
    pub b: u32,
    pub r: u32,
}

/// The arithmetic results recorded so far by the caller driving an
/// evaluation.
#[derive(Debug)]
pub struct OpTable {
    entries: Vec<OpEntry>,
}

/// The first recorded result for `op` on `a` and `b`, if any.
pub open spec fn lookup(entries: Seq<OpEntry>, op: Op, a: u32, b: u32) -> Option<u32>
    decreases entries.len(),
{
    if entries.len() == 0 {
        None
    } else if entries[0].op == op && entries[0].a == a && entries[0].b == b {
        Some(entries[0].r)
    } else {
        lookup(entries.drop_first(), op, a, b)
    }
}

impl View for OpTable {
    type V = Seq<OpEntry>;

    closed spec fn view(&self) -> Seq<OpEntry> {
        self.entries@
    }
}

impl OpTable {
    /// An empty table: no results recorded yet.
    pub fn new() -> (t: OpTable)
        ensures
            t@ == Seq::<OpEntry>::empty(),
    {
        OpTable { entries: Vec::new() }
    }

    /// Record the caller's result `r` for `op` on `a` and `b`.
    pub fn record(&mut self, op: Op, a: u32, b: u32, r: u32)
        ensures
            final(self)@ == old(self)@.push((OpEntry { op, a, b, r })),
    {
        self.entries.push(OpEntry { op, a, b, r });
    }

    /// Look up the first recorded result for `op` on `a` and `b`.
    fn find(&self, op: Op, a: u32, b: u32) -> (r: Option<u32>)
        ensures
            r == lookup(self@, op, a, b),
    {
        let n = self.entries.len();
        let mut i: usize = 0;
        proof {
            assert(self@.subrange(0, n as int) =~= self@);
        }
        while i < n
            invariant
                i <= n,
                n == self@.len(),
                lookup(self@, op, a, b) == lookup(self@.subrange(i as int, n as int), op, a, b),
            decreases n - i,
        {
            let e = self.entries[i];
            proof {
                assert(self@.subrange(i as int, n as int)[0] == self@[i as int]);
                assert(self@.subrange(i as int, n as int).drop_first() =~= self@.subrange(
                    i as int + 1,
                    n as int,
                ));
            }
            if e.op == op && e.a == a && e.b == b {
                return Some(e.r);
            }
            i = i + 1;
        }
        proof {
            assert(self@.subrange(n as int, n as int).len() == 0);
        }
        None
    }
}

/// `true` exactly when `bits` is the bit pattern of an IEEE 754
/// single-precision zero.
///
/// A single-precision value compares equal to zero exactly when it is `+0.0`
/// (all bits clear) or `-0.0` (only the sign bit set); a NaN or an infinity
/// never does.
pub open spec fn spec_is_zero(bits: u32) -> bool {
    bits == 0u32 || bits == 0x8000_0000u32
}

/// Decide [`spec_is_zero`] on a value bit pattern.
pub fn is_zero(bits: u32) -> (r: bool)
    ensures
        r == spec_is_zero(bits),
{
    bits == 0 || bits == 0x8000_0000
}

/// What one evaluation attempt yields: a final result, or a request that the
/// caller compute one more arithmetic operation and record it.
pub enum SpecStep {
    Done(Result<u32, SpecEvalError>),
    Need(Op, u32, u32),
}

/// The outcome of one evaluation attempt against the results recorded so far.
#[derive(Debug, PartialEq)]
pub enum EvalStep {
    /// Evaluation finished with this result.
    Done(Result<u32, EvalError>),
    /// Evaluation is blocked on one arithmetic operation: compute it, record
    /// it in the table, and attempt again.
    Need(Op, u32, u32),
}

impl View for EvalStep {
    type V = SpecStep;

    open spec fn view(&self) -> SpecStep {
        match self {
            EvalStep::Done(res) => SpecStep::Done(
                match res {
                    Ok(v) => Ok(*v),
                    Err(e) => Err(e@),
                },
            ),
            EvalStep::Need(op, a, b) => SpecStep::Need(*op, *a, *b),
        }
    }
}

/// Combine the operand outcomes of a strict binary operator (`Add`, `Sub`,
/// `Mul`): the left operand's request or error takes precedence, then the
/// right's, and only when both have values is the table consulted.
pub open spec fn spec_bin(op: Op, left: SpecStep, right: SpecStep, tab: Seq<OpEntry>) -> SpecStep {
    match left {
        SpecStep::Need(o, x, y) => SpecStep::Need(o, x, y),
        SpecStep::Done(Err(e)) => SpecStep::Done(Err(e)),
        SpecStep::Done(Ok(a)) => match right {
            SpecStep::Need(o, x, y) => SpecStep::Need(o, x, y),
            SpecStep::Done(Err(e)) => SpecStep::Done(Err(e)),
            SpecStep::Done(Ok(b)) => match lookup(tab, op, a, b) {
                Some(v) => SpecStep::Done(Ok(v)),
                None => SpecStep::Need(op, a, b),
            },
        },
    }
}

/// Combine the operand outcomes of a division. The divisor — evaluated first
/// — takes precedence, and a zero divisor yields `DivisionByZero` without
/// consulting the dividend's outcome at all.
pub open spec fn spec_div(dividend: SpecStep, divisor: SpecStep, tab: Seq<OpEntry>) -> SpecStep {
    match divisor {
        SpecStep::Need(o, x, y) => SpecStep::Need(o, x, y),
        SpecStep::Done(Err(e)) => SpecStep::Done(Err(e)),
        SpecStep::Done(Ok(b)) => if spec_is_zero(b) {
            SpecStep::Done(Err(SpecEvalError::DivisionByZero))
        } else {
            match dividend {
                SpecStep::Need(o, x, y) => SpecStep::Need(o, x, y),
                SpecStep::Done(Err(e)) => SpecStep::Done(Err(e)),
                SpecStep::Done(Ok(a)) => match lookup(tab, Op::Div, a, b) {
                    Some(v) => SpecStep::Done(Ok(v)),
                    None => SpecStep::Need(Op::Div, a, b),
                },
            }
        },
    }
}

/// Combine the operand outcome of a negation.
pub open spec fn spec_neg(operand: SpecStep, tab: Seq<OpEntry>) -> SpecStep {
    match operand {
        SpecStep::Need(o, x, y) => SpecStep::Need(o, x, y),
        SpecStep::Done(Err(e)) => SpecStep::Done(Err(e)),
        SpecStep::Done(Ok(a)) => match lookup(tab, Op::Neg, a, 0u32) {
            Some(v) => SpecStep::Done(Ok(v)),
            None => SpecStep::Need(Op::Neg, a, 0u32),
        },
    }
}

/// The outcome of one evaluation attempt of `e` under the environment `vars`
/// against the recorded table `tab` — the exact meaning of [`Expr::eval`].
pub open spec fn spec_eval_step(e: Expr, vars: Map<Seq<char>, u32>, tab: Seq<OpEntry>) -> SpecStep
    decreases e,
{
    match e {
        Expr::Constant(v) => SpecStep::Done(Ok(v)),
        Expr::Variable(name) => SpecStep::Done(
            if vars.contains_key(name@) {
                Ok(vars[name@])
            } else {
                Err(SpecEvalError::VariableNotFound(name@))
            },
        ),
        Expr::Add(l, r) => spec_bin(
            Op::Add,
            spec_eval_step(*l, vars, tab),
            spec_eval_step(*r, vars, tab),
            tab,
        ),
        Expr::Sub(l, r) => spec_bin(
            Op::Sub,
            spec_eval_step(*l, vars, tab),
            spec_eval_step(*r, vars, tab),
            tab,
        ),
        Expr::Mul(l, r) => spec_bin(
            Op::Mul,
            spec_eval_step(*l, vars, tab),
            spec_eval_step(*r, vars, tab),
            tab,
        ),
        Expr::Div(l, r) => spec_div(
            spec_eval_step(*l, vars, tab),
            spec_eval_step(*r, vars, tab),
            tab,
        ),
        Expr::Neg(x) => spec_neg(spec_eval_step(*x, vars, tab), tab),
    }
}

impl Expr {
    /// One evaluation attempt of `self`, resolving variables through
    /// `context` and arithmetic through the results recorded in `ops`.
    ///
    /// The outcome is pinned exactly by [`spec_eval_step`]: evaluation is a
    /// pure function of the tree, the context's environment and the recorded
    /// table, so re-running it with unchanged inputs yields an identical
    /// outcome. Operands are visited left before right, except that a `Div`
    /// node evaluates its divisor first and reports `DivisionByZero` for a
    /// zero divisor without evaluating its dividend.
    pub fn eval<C: Context>(&self, context: &C, ops: &OpTable) -> (r: EvalStep)
        ensures
            r@ == spec_eval_step(*self, context.vars(), ops@),
        decreases *self,
    {
        match self {
            Expr::Constant(v) => EvalStep::Done(Ok(*v)),
            Expr::Variable(name) => match context.get_var(name.as_str()) {
                Some(v) => EvalStep::Done(Ok(v)),
                None => EvalStep::Done(Err(EvalError::VariableNotFound(name.clone()))),
            },
            Expr::Add(l, r) => match l.eval(context, ops) {
                EvalStep::Need(o, x, y) => EvalStep::Need(o, x, y),
                EvalStep::Done(Err(e)) => EvalStep::Done(Err(e)),
                EvalStep::Done(Ok(a)) => finish_bin(Op::Add, a, r.eval(context, ops), ops),
            },
            Expr::Sub(l, r) => match l.eval(context, ops) {
                EvalStep::Need(o, x, y) => EvalStep::Need(o, x, y),
                EvalStep::Done(Err(e)) => EvalStep::Done(Err(e)),
                EvalStep::Done(Ok(a)) => finish_bin(Op::Sub, a, r.eval(context, ops), ops),
            },
            Expr::Mul(l, r) => match l.eval(context, ops) {
                EvalStep::Need(o, x, y) => EvalStep::Need(o, x, y),
                EvalStep::Done(Err(e)) => EvalStep::Done(Err(e)),
                EvalStep::Done(Ok(a)) => finish_bin(Op::Mul, a, r.eval(context, ops), ops),
            },
            Expr::Div(l, r) => match r.eval(context, ops) {
                EvalStep::Need(o, x, y) => EvalStep::Need(o, x, y),
                EvalStep::Done(Err(e)) => EvalStep::Done(Err(e)),
                EvalStep::Done(Ok(b)) => {
                    if is_zero(b) {
                        EvalStep::Done(Err(EvalError::DivisionByZero))
                    } else {
                        match l.eval(context, ops) {
                            EvalStep::Need(o, x, y) => EvalStep::Need(o, x, y),
                            EvalStep::Done(Err(e)) => EvalStep::Done(Err(e)),
                            EvalStep::Done(Ok(a)) => match ops.find(Op::Div, a, b) {
                                Some(v) => EvalStep::Done(Ok(v)),
                                None => EvalStep::Need(Op::Div, a, b),
                            },
                        }
                    }
                },
            },
            Expr::Neg(x) => match x.eval(context, ops) {
                EvalStep::Need(o, xx, yy) => EvalStep::Need(o, xx, yy),
                EvalStep::Done(Err(e)) => EvalStep::Done(Err(e)),
                EvalStep::Done(Ok(a)) => match ops.find(Op::Neg, a, 0) {
                    Some(v) => EvalStep::Done(Ok(v)),
                    None => EvalStep::Need(Op::Neg, a, 0),
                },
            },
        }
    }
}

/// The mathematical value of `e` under the environment `vars`, with the
/// arithmetic itself given by the pure operation table `ops` — what a
/// completed evaluation computes, independent of any recorded table.
pub open spec fn spec_eval(
    e: Expr,
    vars: Map<Seq<char>, u32>,
    ops: spec_fn(Op, u32, u32) -> u32,
) -> Result<u32, SpecEvalError>
    decreases e,
{
    match e {
        Expr::Constant(v) => Ok(v),
        Expr::Variable(name) => if vars.contains_key(name@) {
            Ok(vars[name@])
        } else {
            Err(SpecEvalError::VariableNotFound(name@))
        },
        Expr::Add(l, r) => spec_eval_bin(Op::Add, spec_eval(*l, vars, ops), spec_eval(*r, vars, ops), ops),
        Expr::Sub(l, r) => spec_eval_bin(Op::Sub, spec_eval(*l, vars, ops), spec_eval(*r, vars, ops), ops),
        Expr::Mul(l, r) => spec_eval_bin(Op::Mul, spec_eval(*l, vars, ops), spec_eval(*r, vars, ops), ops),
        Expr::Div(l, r) => match spec_eval(*r, vars, ops) {
            Err(e2) => Err(e2),
            Ok(b) => if spec_is_zero(b) {
                Err(SpecEvalError::DivisionByZero)
            } else {
                match spec_eval(*l, vars, ops) {
                    Err(e2) => Err(e2),
                    Ok(a) => Ok(ops(Op::Div, a, b)),
                }
            },
        },
        Expr::Neg(x) => match spec_eval(*x, vars, ops) {
            Err(e2) => Err(e2),
            Ok(a) => Ok(ops(Op::Neg, a, 0u32)),
        },
    }
}

/// The value of a strict binary operator given its operand results: the left
/// operand's error propagates first, then the right's.
pub open spec fn spec_eval_bin(
    op: Op,
    left: Result<u32, SpecEvalError>,
    right: Result<u32, SpecEvalError>,
    ops: spec_fn(Op, u32, u32) -> u32,
) -> Result<u32, SpecEvalError> {
    match left {
        Err(e) => Err(e),
        Ok(a) => match right {
            Err(e) => Err(e),
            Ok(b) => Ok(ops(op, a, b)),
        },
    }
}

/// Every entry of `tab` agrees with the pure operation table `ops`.
pub open spec fn table_consistent(tab: Seq<OpEntry>, ops: spec_fn(Op, u32, u32) -> u32) -> bool {
    forall|i: int|
        0 <= i < tab.len() ==> ops((#[trigger] tab[i]).op, tab[i].a, tab[i].b) == tab[i].r
}

/// A hit in a table consistent with `ops` returns what `ops` computes.
proof fn lemma_lookup_consistent(
    tab: Seq<OpEntry>,
    ops: spec_fn(Op, u32, u32) -> u32,
    op: Op,
    a: u32,
    b: u32,
)
    requires
        table_consistent(tab, ops),
        lookup(tab, op, a, b) is Some,
    ensures
        lookup(tab, op, a, b) == Some(ops(op, a, b)),
    decreases tab.len(),
{
    if tab.len() == 0 {
    } else if tab[0].op == op && tab[0].a == a && tab[0].b == b {
        assert(ops(tab[0].op, tab[0].a, tab[0].b) == tab[0].r);
    } else {
        assert forall|i: int| 0 <= i < tab.drop_first().len() implies ops(
            (#[trigger] tab.drop_first()[i]).op,
            tab.drop_first()[i].a,
            tab.drop_first()[i].b,
        ) == tab.drop_first()[i].r by {
            assert(tab.drop_first()[i] == tab[i + 1]);
        }
        lemma_lookup_consistent(tab.drop_first(), ops, op, a, b);
    }
}

/// Finishing a strict binary operator is sound: if the combined outcome is
/// final and each finished operand outcome carries its operand's value, the
/// combination carries the operator's value.
proof fn lemma_bin_sound(
    op: Op,
    sl: SpecStep,
    sr: SpecStep,
    el: Result<u32, SpecEvalError>,
    er: Result<u32, SpecEvalError>,
    tab: Seq<OpEntry>,
    ops: spec_fn(Op, u32, u32) -> u32,
)
    requires
        table_consistent(tab, ops),
        spec_bin(op, sl, sr, tab) is Done,
        sl is Done ==> sl == SpecStep::Done(el),
        sr is Done ==> sr == SpecStep::Done(er),
    ensures
        spec_bin(op, sl, sr, tab) == SpecStep::Done(spec_eval_bin(op, el, er, ops)),
{
    if let SpecStep::Done(Ok(a)) = sl {
        if let SpecStep::Done(Ok(b)) = sr {
            lemma_lookup_consistent(tab, ops, op, a, b);
        }
    }
}

/// Soundness of attempted evaluation: an attempt that completes against a
/// recorded table consistent with the pure operation table `ops` computes
/// exactly the mathematical value of the expression under `ops`.
pub proof fn lemma_step_sound(
    e: Expr,
    vars: Map<Seq<char>, u32>,
    tab: Seq<OpEntry>,
    ops: spec_fn(Op, u32, u32) -> u32,
)
    requires
        table_consistent(tab, ops),
        spec_eval_step(e, vars, tab) is Done,
    ensures
        spec_eval_step(e, vars, tab) == SpecStep::Done(spec_eval(e, vars, ops)),
    decreases e,
{
    match e {
        Expr::Constant(_) => {},
        Expr::Variable(_) => {},
        Expr::Add(l, r) => {
            if spec_eval_step(*l, vars, tab) is Done {
                lemma_step_sound(*l, vars, tab, ops);
            }
            if spec_eval_step(*r, vars, tab) is Done {
                lemma_step_sound(*r, vars, tab, ops);
            }
            lemma_bin_sound(
                Op::Add,
                spec_eval_step(*l, vars, tab),
                spec_eval_step(*r, vars, tab),
                spec_eval(*l, vars, ops),
                spec_eval(*r, vars, ops),
                tab,
                ops,
            );
        },
        Expr::Sub(l, r) => {
            if spec_eval_step(*l, vars, tab) is Done {
                lemma_step_sound(*l, vars, tab, ops);
            }
            if spec_eval_step(*r, vars, tab) is Done {
                lemma_step_sound(*r, vars, tab, ops);
            }
            lemma_bin_sound(
                Op::Sub,
                spec_eval_step(*l, vars, tab),
                spec_eval_step(*r, vars, tab),
                spec_eval(*l, vars, ops),
                spec_eval(*r, vars, ops),
                tab,
                ops,
            );
        },
        Expr::Mul(l, r) => {
            if spec_eval_step(*l, vars, tab) is Done {
                lemma_step_sound(*l, vars, tab, ops);
            }
            if spec_eval_step(*r, vars, tab) is Done {
                lemma_step_sound(*r, vars, tab, ops);
            }
            lemma_bin_sound(
                Op::Mul,
                spec_eval_step(*l, vars, tab),
                spec_eval_step(*r, vars, tab),
                spec_eval(*l, vars, ops),
                spec_eval(*r, vars, ops),
                tab,
                ops,
            );
        },
        Expr::Div(l, r) => {
            if spec_eval_step(*r, vars, tab) is Done {
                lemma_step_sound(*r, vars, tab, ops);
            }
            if let SpecStep::Done(Ok(b)) = spec_eval_step(*r, vars, tab) {
                if !spec_is_zero(b) {
                    if spec_eval_step(*l, vars, tab) is Done {
                        lemma_step_sound(*l, vars, tab, ops);
                    }
                    if let SpecStep::Done(Ok(a)) = spec_eval_step(*l, vars, tab) {
                        lemma_lookup_consistent(tab, ops, Op::Div, a, b);
                    }
                }
            }
        },
        Expr::Neg(x) => {
            if spec_eval_step(*x, vars, tab) is Done {
                lemma_step_sound(*x, vars, tab, ops);
            }
            if let SpecStep::Done(Ok(a)) = spec_eval_step(*x, vars, tab) {
                lemma_lookup_consistent(tab, ops, Op::Neg, a, 0u32);
            }
        },
    }
}

/// `true` when `e` contains no variable at all and the divisor of every
/// division inside `e` is a constant that is not an IEEE 754 zero.
pub open spec fn closed_div_safe(e: Expr) -> bool
    decreases e,
{
    match e {
        Expr::Constant(_) => true,
        Expr::Variable(_) => false,
        Expr::Add(l, r) => closed_div_safe(*l) && closed_div_safe(*r),
        Expr::Sub(l, r) => closed_div_safe(*l) && closed_div_safe(*r),
        Expr::Mul(l, r) => closed_div_safe(*l) && closed_div_safe(*r),
        Expr::Div(l, r) => closed_div_safe(*l) && (*r matches Expr::Constant(c) && !spec_is_zero(
            c,
        )),
        Expr::Neg(x) => closed_div_safe(*x),
    }
}

/// Law: a tree with no variables, in which every divisor is a constant other
/// than an IEEE 754 zero, always evaluates successfully, and its value does
/// not depend on the variable environment at all. Together with
/// [`spec_eval`] being a pure function of its arguments, this is the
/// determinism of evaluation: the same tree against an unchanged context
/// yields a bit-identical result every time.
pub proof fn lemma_closed_eval_ok(
    e: Expr,
    vars1: Map<Seq<char>, u32>,
    vars2: Map<Seq<char>, u32>,
    ops: spec_fn(Op, u32, u32) -> u32,
)
    requires
        closed_div_safe(e),
    ensures
        spec_eval(e, vars1, ops) is Ok,
        spec_eval(e, vars1, ops) == spec_eval(e, vars2, ops),
    decreases e,
{
    match e {
        Expr::Constant(_) => {},
        Expr::Variable(_) => {},
        Expr::Add(l, r) => {
            lemma_closed_eval_ok(*l, vars1, vars2, ops);
            lemma_closed_eval_ok(*r, vars1, vars2, ops);
        },
        Expr::Sub(l, r) => {
            lemma_closed_eval_ok(*l, vars1, vars2, ops);
            lemma_closed_eval_ok(*r, vars1, vars2, ops);
        },
        Expr::Mul(l, r) => {
            lemma_closed_eval_ok(*l, vars1, vars2, ops);
            lemma_closed_eval_ok(*r, vars1, vars2, ops);
        },
        Expr::Div(l, r) => {
            reveal_with_fuel(spec_eval, 2);
            lemma_closed_eval_ok(*l, vars1, vars2, ops);
        },
        Expr::Neg(x) => {
            lemma_closed_eval_ok(*x, vars1, vars2, ops);
        },
    }
}

/// Law: when the divisor of a division evaluates to an IEEE 754 zero, the
/// division reports `DivisionByZero` whatever its dividend is. The dividend
/// is never consulted, so even a dividend that would itself fail — say, an
/// unresolvable variable — cannot change the reported error.
pub proof fn lemma_div_zero_short_circuit(
    e: Expr,
    vars: Map<Seq<char>, u32>,
    ops: spec_fn(Op, u32, u32) -> u32,
)
    requires
        e matches Expr::Div(l, r) && spec_eval(*r, vars, ops) matches Ok(b) && spec_is_zero(b),
    ensures
        spec_eval(e, vars, ops) == Err::<u32, SpecEvalError>(SpecEvalError::DivisionByZero),
{
}

/// Finish a strict binary operator once the left operand has the value `a`.
fn finish_bin(op: Op, a: u32, right: EvalStep, ops: &OpTable) -> (r: EvalStep)
    ensures
        r@ == spec_bin(op, SpecStep::Done(Ok(a)), right@, ops@),
{
    match right {
        EvalStep::Need(o, x, y) => EvalStep::Need(o, x, y),
        EvalStep::Done(Err(e)) => EvalStep::Done(Err(e)),
        EvalStep::Done(Ok(b)) => match ops.find(op, a, b) {
            Some(v) => EvalStep::Done(Ok(v)),
            None => EvalStep::Need(op, a, b),
        },
    }
}

} // verus!
