//! The tree-walking evaluator, verified against a big-step semantics.
//!
//! Evaluation is defined twice: once as mathematics (`spec_eval_*`, over
//! the models of the syntax tree, the value store and the scope arena) and
//! once as code, with every executable function proved to compute exactly
//! what its mathematical twin defines. A `fuel` bound pays one unit per
//! function application; the public entry point grants the largest bound
//! the machine can hold, which no run can exhaust, and a run that somehow
//! did would report a depth error rather than diverge.
use vstd::prelude::*;

use crate::lexer::punctuator::Punctuator;
use crate::lexer::token::{kind_eq, spec_kind_str, KindV, TokenKind};
use crate::object::{
    spec_builtin_apply, spec_builtin_lookup, spec_env_get, spec_env_set, spec_env_wf,
    spec_hash_set, spec_hashable, spec_obj_kind, Builtin, Environment, Function, MonkeyHash,
    ObjV, Object, Return, ScopeV,
};
use crate::parser::node::{
    lemma_view_exprs_index, lemma_view_pairs_index, lemma_view_stmts_index, view_block, view_expr,
    view_exprs, view_pairs, view_stmt, view_stmts, BlockStatement, Expression, ExprV, Node, NodeV,
    Program, Statement, StmtV,
};
use crate::text::{spec_bool_str, spec_i64_str, spec_nat_str, view_strings};

verus! {

/// An evaluation failure: a single terminal message.
#[derive(Debug)]
pub struct EvalError {
    pub message: String,
}

pub type EvalResult = Result<Object, EvalError>;

/// The outcome of one evaluation step: the produced value or error, the
/// scope arena afterwards, and the lines printed along the way.
#[verifier::ext_equal]
pub ghost struct EStep {
    pub res: Result<ObjV, Seq<char>>,
    pub env: Seq<ScopeV>,
    pub out: Seq<Seq<char>>,
}

/// The outcome of evaluating an expression list.
#[verifier::ext_equal]
pub ghost struct EListStep {
    pub res: Result<Seq<ObjV>, Seq<char>>,
    pub env: Seq<ScopeV>,
    pub out: Seq<Seq<char>>,
}

/// The outcome of evaluating the pairs of a hash literal.
#[verifier::ext_equal]
pub ghost struct EPairsStep {
    pub res: Result<Seq<(ObjV, ObjV)>, Seq<char>>,
    pub env: Seq<ScopeV>,
    pub out: Seq<Seq<char>>,
}

/// The truthiness rule: `false`, `null` and integer zero are falsy, every
/// other value is truthy.
pub open spec fn spec_is_truthy(o: ObjV) -> bool {
    match o {
        ObjV::Null => false,
        ObjV::Bool(b) => b,
        ObjV::Int(n) => n != 0,
        _ => true,
    }
}

/// Truncating signed division on two's-complement 64-bit integers; the
/// divisor is non-zero, and the one overflowing quotient wraps.
pub open spec fn spec_div_i64(l: i64, r: i64) -> i64 {
    let la: nat = if l >= 0 {
        l as nat
    } else {
        (-(l as int)) as nat
    };
    let ra: nat = if r >= 0 {
        r as nat
    } else {
        (-(r as int)) as nat
    };
    let q = la / ra;
    if (l < 0) != (r < 0) {
        if q >= 0x8000_0000_0000_0000 {
            i64::MIN
        } else {
            (-(q as int)) as i64
        }
    } else {
        if q > i64::MAX {
            i64::MIN
        } else {
            q as i64
        }
    }
}

/// Arithmetic and comparison on two integers. `+ - *` wrap on overflow,
/// `/` truncates and rejects a zero divisor, comparisons yield booleans,
/// and any other operator is unknown.
pub open spec fn spec_eval_int_infix(op: KindV, l: i64, r: i64) -> Result<ObjV, Seq<char>> {
    match op {
        KindV::Punct(Punctuator::Add) => Ok(
            ObjV::Int(vstd::wrapping::i64_specs::wrapping_add(l, r)),
        ),
        KindV::Punct(Punctuator::Sub) => Ok(
            ObjV::Int(vstd::wrapping::i64_specs::wrapping_sub(l, r)),
        ),
        KindV::Punct(Punctuator::Mul) => Ok(
            ObjV::Int(vstd::wrapping::i64_specs::wrapping_mul(l, r)),
        ),
        KindV::Punct(Punctuator::Div) => if r == 0 {
            Err("division by zero"@)
        } else {
            Ok(ObjV::Int(spec_div_i64(l, r)))
        },
        KindV::Punct(Punctuator::GreaterThan) => Ok(ObjV::Bool(l > r)),
        KindV::Punct(Punctuator::LessThan) => Ok(ObjV::Bool(l < r)),
        KindV::Punct(Punctuator::Eq) => Ok(ObjV::Bool(l == r)),
        KindV::Punct(Punctuator::NotEq) => Ok(ObjV::Bool(l != r)),
        _ => Err(
            "unknown operator: "@ + spec_i64_str(l) + " "@ + spec_kind_str(op) + " "@
                + spec_i64_str(r),
        ),
    }
}

/// Equality and inequality on two booleans; any other operator is unknown.
pub open spec fn spec_eval_bool_infix(op: KindV, l: bool, r: bool) -> Result<ObjV, Seq<char>> {
    match op {
        KindV::Punct(Punctuator::Eq) => Ok(ObjV::Bool(l == r)),
        KindV::Punct(Punctuator::NotEq) => Ok(ObjV::Bool(l != r)),
        _ => Err(
            "unknown operator: "@ + spec_bool_str(l) + " "@ + spec_kind_str(op) + " "@
                + spec_bool_str(r),
        ),
    }
}

/// A binary operator applied to two evaluated operands: integers support
/// arithmetic and comparison, booleans equality, strings concatenation by
/// `+`; any other pairing of kinds is a type mismatch.
pub open spec fn spec_eval_infix(op: KindV, l: ObjV, r: ObjV) -> Result<ObjV, Seq<char>> {
    match (l, r) {
        (ObjV::Int(a), ObjV::Int(b)) => spec_eval_int_infix(op, a, b),
        (ObjV::Bool(a), ObjV::Bool(b)) => spec_eval_bool_infix(op, a, b),
        (ObjV::Str(a), ObjV::Str(b)) => if op == KindV::Punct(Punctuator::Add) {
            Ok(ObjV::Str(a + b))
        } else {
            Err("unknown operator: STRING "@ + spec_kind_str(op) + " STRING"@)
        },
        _ => Err(
            "type mismatch: "@ + spec_obj_kind(l) + " "@ + spec_kind_str(op) + " "@
                + spec_obj_kind(r),
        ),
    }
}

/// The `!` operator: the negated truthiness of the operand.
pub open spec fn spec_eval_bang(o: ObjV) -> ObjV {
    ObjV::Bool(!spec_is_truthy(o))
}

/// The unary `-` operator: integer negation (two's-complement, so the
/// minimum value negates to itself); any other operand kind is an error.
pub open spec fn spec_eval_minus(o: ObjV) -> Result<ObjV, Seq<char>> {
    match o {
        ObjV::Int(n) => if n == i64::MIN {
            Ok(ObjV::Int(i64::MIN))
        } else {
            Ok(ObjV::Int((-n) as i64))
        },
        _ => Err("unknown operator: -"@ + spec_obj_kind(o)),
    }
}

/// A prefix operator applied to an evaluated operand.
pub open spec fn spec_eval_prefix(op: KindV, right: ObjV) -> Result<ObjV, Seq<char>> {
    match op {
        KindV::Punct(Punctuator::Not) => Ok(spec_eval_bang(right)),
        KindV::Punct(Punctuator::Sub) => spec_eval_minus(right),
        _ => Err("unknown prefix operator "@ + spec_kind_str(op)),
    }
}

/// The index operator. An integer into an array yields the element, or
/// `null` out of bounds (negative included); a hashable key into a hash
/// yields the stored value or `null`; a non-hashable key, or any other
/// collection kind, is an error.
pub open spec fn spec_eval_index(col: ObjV, idx: ObjV) -> Result<ObjV, Seq<char>> {
    match col {
        ObjV::Array(es) => match idx {
            ObjV::Int(i) => if 0 <= i < es.len() {
                Ok(es[i as int])
            } else {
                Ok(ObjV::Null)
            },
            _ => Err("index operator not supported: "@ + spec_obj_kind(idx)),
        },
        ObjV::Hash(ps) => if spec_hashable(idx) {
            match crate::object::spec_hash_get(ps, idx) {
                Some(v) => Ok(v),
                None => Ok(ObjV::Null),
            }
        } else {
            Err("unusable as hash key: "@ + spec_obj_kind(idx))
        },
        _ => Err("index operator not supported: "@ + spec_obj_kind(col)),
    }
}

/// Identifier resolution: the fixed built-in names first, then the scope
/// chain; an unbound name is an error.
pub open spec fn spec_eval_identifier(
    name: Seq<char>,
    env: Seq<ScopeV>,
    scope: int,
) -> Result<ObjV, Seq<char>> {
    match spec_builtin_lookup(name) {
        Some(b) => Ok(b@),
        None => match spec_env_get(env, scope, name) {
            Some(v) => Ok(v),
            None => Err("identifier not found: "@ + name),
        },
    }
}

/// The diagnostic for an exhausted application budget.
pub open spec fn spec_msg_eval_depth() -> Seq<char> {
    "evaluation nesting too deep"@
}

/// Binds the parameters from index `i` on to the matching arguments, in
/// scope `scope`.
pub open spec fn spec_bind_params(
    env: Seq<ScopeV>,
    scope: int,
    params: Seq<Seq<char>>,
    args: Seq<ObjV>,
    i: int,
) -> Seq<ScopeV>
    decreases params.len() - i,
    when 0 <= i <= params.len() && params.len() == args.len()
{
    if i >= params.len() {
        env
    } else {
        spec_bind_params(spec_env_set(env, scope, params[i], args[i]), scope, params, args, i + 1)
    }
}

/// Evaluates a node: a program unwraps a pending `return` into its carried
/// value, a bare statement or expression yields its own value.
pub open spec fn spec_eval(node: NodeV, env: Seq<ScopeV>, scope: int, fuel: nat) -> EStep
    decreases fuel, node, 1int,
{
    match node {
        NodeV::Program(p) => spec_eval_program(p.body, 0, ObjV::Null, env, scope, fuel),
        NodeV::Statement(s) => spec_eval_stmt(s, env, scope, fuel),
        NodeV::Expression(e) => spec_eval_expr(e, env, scope, fuel),
    }
}

/// Program evaluation: statements in order, starting from `last = null`;
/// a pending `return` stops the run and unwraps to its carried value, and
/// otherwise the last statement's value is the program's value.
pub open spec fn spec_eval_program(
    body: Seq<StmtV>,
    i: int,
    last: ObjV,
    env: Seq<ScopeV>,
    scope: int,
    fuel: nat,
) -> EStep
    decreases fuel, body, body.len() - i,
    when 0 <= i <= body.len()
{
    if i >= body.len() {
        EStep { res: Ok(last), env, out: seq![] }
    } else {
        let s = spec_eval_stmt(body[i], env, scope, fuel);
        match s.res {
            Err(e) => s,
            Ok(v) => match v {
                ObjV::Return(rv) => EStep { res: Ok(*rv), env: s.env, out: s.out },
                _ => {
                    let rest = spec_eval_program(body, i + 1, v, s.env, scope, fuel);
                    EStep { res: rest.res, env: rest.env, out: s.out + rest.out }
                },
            },
        }
    }
}

/// Block evaluation: like a program, but a pending `return` is propagated
/// unchanged so it escapes nested blocks up to the function boundary.
pub open spec fn spec_eval_block(
    stmts: Seq<StmtV>,
    i: int,
    last: ObjV,
    env: Seq<ScopeV>,
    scope: int,
    fuel: nat,
) -> EStep
    decreases fuel, stmts, stmts.len() - i,
    when 0 <= i <= stmts.len()
{
    if i >= stmts.len() {
        EStep { res: Ok(last), env, out: seq![] }
    } else {
        let s = spec_eval_stmt(stmts[i], env, scope, fuel);
        match s.res {
            Err(e) => s,
            Ok(v) => match v {
                ObjV::Return(rv) => EStep { res: Ok(ObjV::Return(rv)), env: s.env, out: s.out },
                _ => {
                    let rest = spec_eval_block(stmts, i + 1, v, s.env, scope, fuel);
                    EStep { res: rest.res, env: rest.env, out: s.out + rest.out }
                },
            },
        }
    }
}

/// Statement evaluation. `let` evaluates its expression once, binds the
/// result in the current scope (overwriting a binding of the same name
/// there), and yields that value; `return` wraps its value in the pending
/// sentinel; a bare expression yields its value.
pub open spec fn spec_eval_stmt(s: StmtV, env: Seq<ScopeV>, scope: int, fuel: nat) -> EStep
    decreases fuel, s, 1int,
{
    match s {
        StmtV::Let { name, value } => {
            let v = spec_eval_expr(value, env, scope, fuel);
            match v.res {
                Err(e) => v,
                Ok(obj) => EStep {
                    res: Ok(obj),
                    env: spec_env_set(v.env, scope, name, obj),
                    out: v.out,
                },
            }
        },
        StmtV::Return(value) => {
            let v = spec_eval_expr(value, env, scope, fuel);
            match v.res {
                Err(e) => v,
                Ok(obj) => EStep {
                    res: Ok(ObjV::Return(Box::new(obj))),
                    env: v.env,
                    out: v.out,
                },
            }
        },
        StmtV::Expr(value) => spec_eval_expr(value, env, scope, fuel),
    }
}

/// Expression evaluation, dispatching on the expression's form. Literals
/// evaluate to themselves; a function literal captures the current scope
/// by reference; calls evaluate the callee, then the arguments left to
/// right, then apply.
pub open spec fn spec_eval_expr(e: ExprV, env: Seq<ScopeV>, scope: int, fuel: nat) -> EStep
    decreases fuel, e, 0int,
{
    match e {
        ExprV::Integer(n) => EStep { res: Ok(ObjV::Int(n)), env, out: seq![] },
        ExprV::Boolean(b) => EStep { res: Ok(ObjV::Bool(b)), env, out: seq![] },
        ExprV::StrLit(s) => EStep { res: Ok(ObjV::Str(s)), env, out: seq![] },
        ExprV::Ident(name) => EStep {
            res: spec_eval_identifier(name, env, scope),
            env,
            out: seq![],
        },
        ExprV::Prefix { op, right } => {
            let rstep = spec_eval_expr(*right, env, scope, fuel);
            match rstep.res {
                Err(m) => rstep,
                Ok(rv) => EStep { res: spec_eval_prefix(op, rv), env: rstep.env, out: rstep.out },
            }
        },
        ExprV::Infix { op, left, right } => {
            let lstep = spec_eval_expr(*left, env, scope, fuel);
            match lstep.res {
                Err(m) => lstep,
                Ok(lv) => {
                    let rstep = spec_eval_expr(*right, lstep.env, scope, fuel);
                    match rstep.res {
                        Err(m) => EStep {
                            res: rstep.res,
                            env: rstep.env,
                            out: lstep.out + rstep.out,
                        },
                        Ok(rv) => EStep {
                            res: spec_eval_infix(op, lv, rv),
                            env: rstep.env,
                            out: lstep.out + rstep.out,
                        },
                    }
                },
            }
        },
        ExprV::If { cond, cons, alt } => {
            let cstep = spec_eval_expr(*cond, env, scope, fuel);
            match cstep.res {
                Err(m) => cstep,
                Ok(cv) => if spec_is_truthy(cv) {
                    let b = spec_eval_block(cons.stmts, 0, ObjV::Null, cstep.env, scope, fuel);
                    EStep { res: b.res, env: b.env, out: cstep.out + b.out }
                } else {
                    match alt {
                        Some(a) => {
                            let b = spec_eval_block(a.stmts, 0, ObjV::Null, cstep.env, scope, fuel);
                            EStep { res: b.res, env: b.env, out: cstep.out + b.out }
                        },
                        None => EStep { res: Ok(ObjV::Null), env: cstep.env, out: cstep.out },
                    }
                },
            }
        },
        ExprV::Function { params, body } => EStep {
            res: Ok(ObjV::Function { params, body, env: scope }),
            env,
            out: seq![],
        },
        ExprV::Call { func, args } => {
            let fstep = spec_eval_expr(*func, env, scope, fuel);
            match fstep.res {
                Err(m) => fstep,
                Ok(fv) => {
                    let astep = spec_eval_exprs(args, 0, seq![], fstep.env, scope, fuel);
                    match astep.res {
                        Err(m) => EStep {
                            res: Err(m),
                            env: astep.env,
                            out: fstep.out + astep.out,
                        },
                        Ok(argv) => {
                            if fuel == 0 {
                                EStep {
                                    res: Err(spec_msg_eval_depth()),
                                    env: astep.env,
                                    out: fstep.out + astep.out,
                                }
                            } else {
                                let ap = spec_apply_function(
                                    fv,
                                    argv,
                                    astep.env,
                                    (fuel - 1) as nat,
                                );
                                EStep {
                                    res: ap.res,
                                    env: ap.env,
                                    out: fstep.out + astep.out + ap.out,
                                }
                            }
                        },
                    }
                },
            }
        },
        ExprV::Array(es) => {
            let astep = spec_eval_exprs(es, 0, seq![], env, scope, fuel);
            match astep.res {
                Err(m) => EStep { res: Err(m), env: astep.env, out: astep.out },
                Ok(vals) => EStep { res: Ok(ObjV::Array(vals)), env: astep.env, out: astep.out },
            }
        },
        ExprV::Index { left, index } => {
            let lstep = spec_eval_expr(*left, env, scope, fuel);
            match lstep.res {
                Err(m) => lstep,
                Ok(lv) => {
                    let istep = spec_eval_expr(*index, lstep.env, scope, fuel);
                    match istep.res {
                        Err(m) => EStep {
                            res: istep.res,
                            env: istep.env,
                            out: lstep.out + istep.out,
                        },
                        Ok(iv) => EStep {
                            res: spec_eval_index(lv, iv),
                            env: istep.env,
                            out: lstep.out + istep.out,
                        },
                    }
                },
            }
        },
        ExprV::Hash(ps) => {
            let hstep = spec_eval_pairs(ps, 0, seq![], env, scope, fuel);
            match hstep.res {
                Err(m) => EStep { res: Err(m), env: hstep.env, out: hstep.out },
                Ok(pairs) => EStep { res: Ok(ObjV::Hash(pairs)), env: hstep.env, out: hstep.out },
            }
        },
    }
}

/// Evaluates the expressions from index `i` on, left to right, extending
/// the accumulated values.
pub open spec fn spec_eval_exprs(
    es: Seq<ExprV>,
    i: int,
    acc: Seq<ObjV>,
    env: Seq<ScopeV>,
    scope: int,
    fuel: nat,
) -> EListStep
    decreases fuel, es, es.len() - i,
    when 0 <= i <= es.len()
{
    if i >= es.len() {
        EListStep { res: Ok(acc), env, out: seq![] }
    } else {
        let e = spec_eval_expr(es[i], env, scope, fuel);
        match e.res {
            Err(m) => EListStep { res: Err(m), env: e.env, out: e.out },
            Ok(v) => {
                let rest = spec_eval_exprs(es, i + 1, acc.push(v), e.env, scope, fuel);
                EListStep { res: rest.res, env: rest.env, out: e.out + rest.out }
            },
        }
    }
}

/// Evaluates the key and value expressions of a hash literal from index
/// `i` on, left to right per pair; a later duplicate key overwrites the
/// earlier pair in place, and a key of a non-hashable kind is an error.
pub open spec fn spec_eval_pairs(
    ps: Seq<(ExprV, ExprV)>,
    i: int,
    acc: Seq<(ObjV, ObjV)>,
    env: Seq<ScopeV>,
    scope: int,
    fuel: nat,
) -> EPairsStep
    decreases fuel, ps, ps.len() - i,
    when 0 <= i <= ps.len()
{
    if i >= ps.len() {
        EPairsStep { res: Ok(acc), env, out: seq![] }
    } else {
        let k = spec_eval_expr(ps[i].0, env, scope, fuel);
        match k.res {
            Err(m) => EPairsStep { res: Err(m), env: k.env, out: k.out },
            Ok(kv) => if !spec_hashable(kv) {
                EPairsStep {
                    res: Err("unusable as hash key: "@ + spec_obj_kind(kv)),
                    env: k.env,
                    out: k.out,
                }
            } else {
                let v = spec_eval_expr(ps[i].1, k.env, scope, fuel);
                match v.res {
                    Err(m) => EPairsStep { res: Err(m), env: v.env, out: k.out + v.out },
                    Ok(vv) => {
                        let rest = spec_eval_pairs(
                            ps,
                            i + 1,
                            spec_hash_set(acc, kv, vv),
                            v.env,
                            scope,
                            fuel,
                        );
                        EPairsStep {
                            res: rest.res,
                            env: rest.env,
                            out: k.out + v.out + rest.out,
                        }
                    },
                }
            },
        }
    }
}

/// Function application. A function value gets a fresh scope whose parent
/// is its captured scope, with each parameter bound positionally to its
/// argument (the counts must match); the body runs as a block, and a
/// pending `return` unwraps at this boundary. A built-in dispatches to its
/// fixed behavior. Applying any other value is an error.
pub open spec fn spec_apply_function(func: ObjV, args: Seq<ObjV>, env: Seq<ScopeV>, fuel: nat) -> EStep
    decreases fuel, func, 2int,
{
    if fuel == 0 {
        EStep { res: Err(spec_msg_eval_depth()), env, out: seq![] }
    } else {
        match func {
            ObjV::Function { params, body, env: fenv } => {
                if params.len() != args.len() {
                    EStep {
                        res: Err(
                            "wrong number of arguments: want="@ + spec_nat_str(params.len())
                                + ", got="@ + spec_nat_str(args.len()),
                        ),
                        env,
                        out: seq![],
                    }
                } else if !(0 <= fenv < env.len()) {
                    EStep { res: Err("invalid function environment"@), env, out: seq![] }
                } else {
                    let newscope = env.len() as int;
                    let env2 = env.push(ScopeV { bindings: seq![], outer: Some(fenv) });
                    let env3 = spec_bind_params(env2, newscope, params, args, 0);
                    let b = spec_eval_block(
                        body.stmts,
                        0,
                        ObjV::Null,
                        env3,
                        newscope,
                        (fuel - 1) as nat,
                    );
                    match b.res {
                        Err(m) => b,
                        Ok(v) => match v {
                            ObjV::Return(rv) => EStep { res: Ok(*rv), env: b.env, out: b.out },
                            _ => EStep { res: Ok(v), env: b.env, out: b.out },
                        },
                    }
                }
            },
            ObjV::Builtin(b) => {
                let bs = spec_builtin_apply(b, args);
                EStep { res: bs.res, env, out: bs.out }
            },
            _ => EStep {
                res: Err(spec_obj_kind(func) + " is not a function"@),
                env,
                out: seq![],
            },
        }
    }
}

/// Law: the `!` operator yields exactly the negated truthiness of its
/// operand, for every value, and never fails.
pub proof fn lemma_bang_negates_truthiness(o: ObjV)
    ensures
        spec_eval_prefix(KindV::Punct(Punctuator::Not), o) == Ok::<ObjV, Seq<char>>(
            ObjV::Bool(!spec_is_truthy(o)),
        ),
{
}

/// Law: applying `!` twice coerces any value to its truthiness.
pub proof fn lemma_double_bang_is_truthiness(o: ObjV)
    ensures
        spec_eval_bang(spec_eval_bang(o)) == ObjV::Bool(spec_is_truthy(o)),
{
}

/// Law: indexing an array out of bounds, negative indices included,
/// yields `null` and never an error.
pub proof fn lemma_array_index_out_of_bounds_is_null(es: Seq<ObjV>, i: i64)
    requires
        !(0 <= i < es.len()),
    ensures
        spec_eval_index(ObjV::Array(es), ObjV::Int(i)) == Ok::<ObjV, Seq<char>>(ObjV::Null),
{
}

/// Law: looking a hashable key up in a hash that does not hold it yields
/// `null` and never an error.
pub proof fn lemma_hash_miss_is_null(ps: Seq<(ObjV, ObjV)>, k: ObjV)
    requires
        spec_hashable(k),
        crate::object::spec_hash_get(ps, k) is None,
    ensures
        spec_eval_index(ObjV::Hash(ps), k) == Ok::<ObjV, Seq<char>>(ObjV::Null),
{
}

/// Law: a binary operator applied to an integer and a boolean, in either
/// order, is always a type-mismatch error naming both operand kinds and
/// the operator.
pub proof fn lemma_mixed_operands_are_type_mismatch(op: KindV, n: i64, b: bool)
    ensures
        spec_eval_infix(op, ObjV::Int(n), ObjV::Bool(b)) matches Err(m) && m =~= "type mismatch: INTEGER "@
            + spec_kind_str(op) + " BOOLEAN"@,
        spec_eval_infix(op, ObjV::Bool(b), ObjV::Int(n)) matches Err(m) && m =~= "type mismatch: BOOLEAN "@
            + spec_kind_str(op) + " INTEGER"@,
{
    reveal_strlit("type mismatch: ");
    reveal_strlit("INTEGER");
    reveal_strlit("BOOLEAN");
    reveal_strlit(" ");
    reveal_strlit("type mismatch: INTEGER ");
    reveal_strlit("type mismatch: BOOLEAN ");
    reveal_strlit(" BOOLEAN");
    reveal_strlit(" INTEGER");
}

/// Law: a pending `return` produced by any statement of a block stops the
/// block at that statement and is handed on unchanged, so it escapes
/// nested blocks.
pub proof fn lemma_block_propagates_return(
    stmts: Seq<StmtV>,
    i: int,
    last: ObjV,
    env: Seq<ScopeV>,
    scope: int,
    fuel: nat,
    rv: Box<ObjV>,
)
    requires
        0 <= i < stmts.len(),
        spec_eval_stmt(stmts[i], env, scope, fuel).res == Ok::<ObjV, Seq<char>>(
            ObjV::Return(rv),
        ),
    ensures
        spec_eval_block(stmts, i, last, env, scope, fuel).res == Ok::<ObjV, Seq<char>>(
            ObjV::Return(rv),
        ),
        spec_eval_block(stmts, i, last, env, scope, fuel).env == spec_eval_stmt(
            stmts[i],
            env,
            scope,
            fuel,
        ).env,
{
}

/// Law: at the program boundary the pending `return` unwraps to exactly
/// the value it carries, whatever statements would have followed.
pub proof fn lemma_program_unwraps_return(
    body: Seq<StmtV>,
    i: int,
    last: ObjV,
    env: Seq<ScopeV>,
    scope: int,
    fuel: nat,
    rv: Box<ObjV>,
)
    requires
        0 <= i < body.len(),
        spec_eval_stmt(body[i], env, scope, fuel).res == Ok::<ObjV, Seq<char>>(
            ObjV::Return(rv),
        ),
    ensures
        spec_eval_program(body, i, last, env, scope, fuel).res == Ok::<ObjV, Seq<char>>(*rv),
{
}

/// Whether a value counts as true in a conditional context.
pub fn is_truthy(obj: &Object) -> (r: bool)
    ensures
        r == spec_is_truthy(obj@),
{
    match obj {
        Object::Null => false,
        Object::Bool(b) => *b,
        Object::Int(n) => *n != 0,
        _ => true,
    }
}

/// The `!` operator.
pub fn eval_bang_operator_expression(right: Object) -> (r: Object)
    ensures
        r@ == spec_eval_bang(right@),
{
    Object::Bool(!is_truthy(&right))
}

/// The unary `-` operator.
pub fn eval_minus_prefix_operator_expression(right: Object) -> (r: EvalResult)
    ensures
        ({
            let sr = spec_eval_minus(right@);
            match r {
                Ok(o) => sr is Ok && o@ == sr->Ok_0,
                Err(e) => sr is Err && e.message@ == sr->Err_0,
            }
        }),
{
    match right {
        Object::Int(n) => {
            if n == i64::MIN {
                Ok(Object::Int(i64::MIN))
            } else {
                Ok(Object::Int(-n))
            }
        },
        o => {
            let mut m = String::from_str("unknown operator: -");
            m.append(o.kind_name());
            Err(EvalError { message: m })
        },
    }
}

/// A prefix operator applied to an evaluated operand.
pub fn eval_prefix_expression(operator: &TokenKind, right: Object) -> (r: EvalResult)
    ensures
        ({
            let sr = spec_eval_prefix(operator@, right@);
            match r {
                Ok(o) => sr is Ok && o@ == sr->Ok_0,
                Err(e) => sr is Err && e.message@ == sr->Err_0,
            }
        }),
{
    match operator {
        TokenKind::Punctuator(Punctuator::Not) => Ok(eval_bang_operator_expression(right)),
        TokenKind::Punctuator(Punctuator::Sub) => eval_minus_prefix_operator_expression(right),
        _ => {
            let mut m = String::from_str("unknown prefix operator ");
            let k = operator.string();
            m.append(k.as_str());
            Err(EvalError { message: m })
        },
    }
}

/// Truncating signed division; the divisor is non-zero.
fn div_i64(l: i64, r: i64) -> (q: i64)
    requires
        r != 0,
    ensures
        q == spec_div_i64(l, r),
{
    let la: u64 = if l >= 0 {
        l as u64
    } else if l == i64::MIN {
        0x8000_0000_0000_0000u64
    } else {
        (-l) as u64
    };
    let ra: u64 = if r >= 0 {
        r as u64
    } else if r == i64::MIN {
        0x8000_0000_0000_0000u64
    } else {
        (-r) as u64
    };
    let q = la / ra;
    if (l < 0) != (r < 0) {
        if q >= 0x8000_0000_0000_0000u64 {
            i64::MIN
        } else {
            -(q as i64)
        }
    } else {
        if q > 0x7fff_ffff_ffff_ffffu64 {
            i64::MIN
        } else {
            q as i64
        }
    }
}

/// Arithmetic and comparison on two integer operands.
pub fn eval_integer_infix_expression(operator: &TokenKind, l: i64, r: i64) -> (res: EvalResult)
    ensures
        ({
            let sr = spec_eval_int_infix(operator@, l, r);
            match res {
                Ok(o) => sr is Ok && o@ == sr->Ok_0,
                Err(e) => sr is Err && e.message@ == sr->Err_0,
            }
        }),
{
    match operator {
        TokenKind::Punctuator(Punctuator::Add) => Ok(Object::Int(l.wrapping_add(r))),
        TokenKind::Punctuator(Punctuator::Sub) => Ok(Object::Int(l.wrapping_sub(r))),
        TokenKind::Punctuator(Punctuator::Mul) => Ok(Object::Int(l.wrapping_mul(r))),
        TokenKind::Punctuator(Punctuator::Div) => {
            if r == 0 {
                Err(EvalError { message: String::from_str("division by zero") })
            } else {
                Ok(Object::Int(div_i64(l, r)))
            }
        },
        TokenKind::Punctuator(Punctuator::GreaterThan) => Ok(Object::Bool(l > r)),
        TokenKind::Punctuator(Punctuator::LessThan) => Ok(Object::Bool(l < r)),
        TokenKind::Punctuator(Punctuator::Eq) => Ok(Object::Bool(l == r)),
        TokenKind::Punctuator(Punctuator::NotEq) => Ok(Object::Bool(l != r)),
        _ => {
            let mut m = String::from_str("unknown operator: ");
            let ls = crate::text::i64_string(l);
            m.append(ls.as_str());
            m.append(" ");
            let k = operator.string();
            m.append(k.as_str());
            m.append(" ");
            let rs = crate::text::i64_string(r);
            m.append(rs.as_str());
            Err(EvalError { message: m })
        },
    }
}

/// Equality and inequality on two boolean operands.
pub fn eval_bool_infix_expression(operator: &TokenKind, l: bool, r: bool) -> (res: EvalResult)
    ensures
        ({
            let sr = spec_eval_bool_infix(operator@, l, r);
            match res {
                Ok(o) => sr is Ok && o@ == sr->Ok_0,
                Err(e) => sr is Err && e.message@ == sr->Err_0,
            }
        }),
{
    match operator {
        TokenKind::Punctuator(Punctuator::Eq) => Ok(Object::Bool(l == r)),
        TokenKind::Punctuator(Punctuator::NotEq) => Ok(Object::Bool(l != r)),
        _ => {
            let mut m = String::from_str("unknown operator: ");
            let ls = crate::text::bool_string(l);
            m.append(ls.as_str());
            m.append(" ");
            let k = operator.string();
            m.append(k.as_str());
            m.append(" ");
            let rs = crate::text::bool_string(r);
            m.append(rs.as_str());
            Err(EvalError { message: m })
        },
    }
}

/// A binary operator applied to two evaluated operands.
pub fn eval_infix_expression(operator: &TokenKind, left: Object, right: Object) -> (res:
    EvalResult)
    ensures
        ({
            let sr = spec_eval_infix(operator@, left@, right@);
            match res {
                Ok(o) => sr is Ok && o@ == sr->Ok_0,
                Err(e) => sr is Err && e.message@ == sr->Err_0,
            }
        }),
{
    match (left, right) {
        (Object::Int(a), Object::Int(b)) => eval_integer_infix_expression(operator, a, b),
        (Object::Bool(a), Object::Bool(b)) => eval_bool_infix_expression(operator, a, b),
        (Object::Str(a), Object::Str(b)) => {
            if kind_eq(operator, &TokenKind::Punctuator(Punctuator::Add)) {
                let mut s = a;
                s.append(b.as_str());
                Ok(Object::Str(s))
            } else {
                let mut m = String::from_str("unknown operator: STRING ");
                let k = operator.string();
                m.append(k.as_str());
                m.append(" STRING");
                Err(EvalError { message: m })
            }
        },
        (l, r) => {
            let mut m = String::from_str("type mismatch: ");
            m.append(l.kind_name());
            m.append(" ");
            let k = operator.string();
            m.append(k.as_str());
            m.append(" ");
            m.append(r.kind_name());
            Err(EvalError { message: m })
        },
    }
}

/// The index operator applied to two evaluated operands.
pub fn eval_index_expression(collection: Object, index: Object) -> (res: EvalResult)
    ensures
        ({
            let sr = spec_eval_index(collection@, index@);
            match res {
                Ok(o) => sr is Ok && o@ == sr->Ok_0,
                Err(e) => sr is Err && e.message@ == sr->Err_0,
            }
        }),
{
    match &collection {
        Object::Array(a) => {
            match &index {
                Object::Int(i) => {
                    proof {
                        crate::object::lemma_view_objs_index(a.elements@, 0);
                    }
                    if *i >= 0 && (*i as u64) < (a.elements.len() as u64) {
                        Ok(a.elements[*i as usize].duplicate())
                    } else {
                        Ok(Object::Null)
                    }
                },
                other => {
                    let mut m = String::from_str("index operator not supported: ");
                    m.append(other.kind_name());
                    Err(EvalError { message: m })
                },
            }
        },
        Object::Hash(h) => {
            if index.is_hashable() {
                match h.get(&index) {
                    Some(v) => Ok(v),
                    None => Ok(Object::Null),
                }
            } else {
                let mut m = String::from_str("unusable as hash key: ");
                m.append(index.kind_name());
                Err(EvalError { message: m })
            }
        },
        other => {
            let mut m = String::from_str("index operator not supported: ");
            m.append(other.kind_name());
            Err(EvalError { message: m })
        },
    }
}

/// Identifier resolution: built-ins first, then the scope chain.
pub fn eval_identifier(ident: &str, env: &Environment, scope: usize) -> (r: EvalResult)
    requires
        spec_env_wf(env@),
        scope < env@.len(),
    ensures
        ({
            let sr = spec_eval_identifier(ident@, env@, scope as int);
            match r {
                Ok(o) => sr is Ok && o@ == sr->Ok_0,
                Err(e) => sr is Err && e.message@ == sr->Err_0,
            }
        }),
{
    match Builtin::lookup(ident) {
        Some(obj) => Ok(obj),
        None => {
            match env.get(scope, ident) {
                Some(obj) => Ok(obj),
                None => {
                    let mut m = String::from_str("identifier not found: ");
                    m.append(ident);
                    Err(EvalError { message: m })
                },
            }
        },
    }
}

/// Unwraps a pending `return` into its carried value; any other value
/// passes through.
pub fn unwrap_return_value(obj: Object) -> (r: Object)
    ensures
        r@ == (match obj@ {
            ObjV::Return(rv) => *rv,
            v => v,
        }),
{
    match obj {
        Object::Return(ret) => ret.value,
        o => o,
    }
}

/// Evaluates a node against the store, starting in the root scope. Lines
/// printed by `puts` are appended to `out` for the host to emit.
pub fn eval(node: &Node, env: &mut Environment, out: &mut Vec<String>) -> (r: EvalResult)
    requires
        spec_env_wf(old(env)@),
    ensures
        spec_env_wf(final(env)@),
        old(env)@.len() <= final(env)@.len(),
        ({
            let st = spec_eval(node@, old(env)@, 0, 0xffff_ffff_ffff_ffff as nat);
            &&& final(env)@ == st.env
            &&& view_strings(final(out)@) =~= view_strings(old(out)@) + st.out
            &&& match r {
                Ok(o) => st.res is Ok && o@ == st.res->Ok_0,
                Err(e) => st.res is Err && e.message@ == st.res->Err_0,
            }
        }),
{
    let fuel: u64 = 0xffff_ffff_ffff_ffffu64;
    match node {
        Node::Program(p) => eval_program(p, env, 0, out, fuel),
        Node::Statement(s) => eval_statement(s, env, 0, out, fuel),
        Node::Expression(e) => eval_expression(e, env, 0, out, fuel),
    }
}

/// Program evaluation: statements in order; a pending `return` stops the
/// run and unwraps into its carried value.
pub fn eval_program(p: &Program, env: &mut Environment, scope: usize, out: &mut Vec<String>, fuel: u64) -> (r: EvalResult)
    requires
        spec_env_wf(old(env)@),
        scope < old(env)@.len(),
    ensures
        spec_env_wf(final(env)@),
        old(env)@.len() <= final(env)@.len(),
        ({
            let st = spec_eval_program(
                view_stmts(p.body@, 0),
                0,
                ObjV::Null,
                old(env)@,
                scope as int,
                fuel as nat,
            );
            &&& final(env)@ == st.env
            &&& view_strings(final(out)@) =~= view_strings(old(out)@) + st.out
            &&& match r {
                Ok(o) => st.res is Ok && o@ == st.res->Ok_0,
                Err(e) => st.res is Err && e.message@ == st.res->Err_0,
            }
        }),
    decreases fuel, p.body@, 0int,
{
    let ghost bodyv = view_stmts(p.body@, 0);
    let ghost env0 = old(env)@;
    let ghost out0 = view_strings(old(out)@);
    let ghost target = spec_eval_program(bodyv, 0, ObjV::Null, env0, scope as int, fuel as nat);
    proof {
        lemma_view_stmts_index(p.body@, 0);
    }
    let mut last = Object::Null;
    let mut i: usize = 0;
    while i < p.body.len()
        invariant
            spec_env_wf(env@),
            scope < env@.len(),
            env0.len() <= env@.len(),
            i <= p.body@.len(),
            !(last@ is Return),
            ({
                let rest = spec_eval_program(
                    bodyv,
                    i as int,
                    last@,
                    env@,
                    scope as int,
                    fuel as nat,
                );
                &&& target.res == rest.res
                &&& target.env == rest.env
                &&& out0 + target.out =~= view_strings(out@) + rest.out
            }),
        decreases p.body@.len() - i,
    {
        proof {
            lemma_view_stmts_index(p.body@, 0);
        }
        let s = match eval_statement(&p.body[i], env, scope, out, fuel) {
            Err(e) => {
                return Err(e);
            },
            Ok(v) => v,
        };
        match s {
            Object::Return(ret) => {
                return Ok(ret.value);
            },
            v => {
                last = v;
                i = i + 1;
            },
        }
    }
    Ok(last)
}

/// Block evaluation: like a program, but a pending `return` is handed on
/// unchanged so it escapes nested blocks.
pub fn eval_block_statement(block: &BlockStatement, env: &mut Environment, scope: usize, out: &mut Vec<String>, fuel: u64) -> (r: EvalResult)
    requires
        spec_env_wf(old(env)@),
        scope < old(env)@.len(),
    ensures
        spec_env_wf(final(env)@),
        old(env)@.len() <= final(env)@.len(),
        ({
            let st = spec_eval_block(
                view_stmts(block.statements@, 0),
                0,
                ObjV::Null,
                old(env)@,
                scope as int,
                fuel as nat,
            );
            &&& final(env)@ == st.env
            &&& view_strings(final(out)@) =~= view_strings(old(out)@) + st.out
            &&& match r {
                Ok(o) => st.res is Ok && o@ == st.res->Ok_0,
                Err(e) => st.res is Err && e.message@ == st.res->Err_0,
            }
        }),
    decreases fuel, block, 0int,
{
    let ghost bodyv = view_stmts(block.statements@, 0);
    let ghost env0 = old(env)@;
    let ghost out0 = view_strings(old(out)@);
    let ghost target = spec_eval_block(bodyv, 0, ObjV::Null, env0, scope as int, fuel as nat);
    proof {
        lemma_view_stmts_index(block.statements@, 0);
    }
    let mut last = Object::Null;
    let mut i: usize = 0;
    while i < block.statements.len()
        invariant
            spec_env_wf(env@),
            scope < env@.len(),
            env0.len() <= env@.len(),
            i <= block.statements@.len(),
            !(last@ is Return),
            ({
                let rest = spec_eval_block(
                    bodyv,
                    i as int,
                    last@,
                    env@,
                    scope as int,
                    fuel as nat,
                );
                &&& target.res == rest.res
                &&& target.env == rest.env
                &&& out0 + target.out =~= view_strings(out@) + rest.out
            }),
        decreases block.statements@.len() - i,
    {
        proof {
            lemma_view_stmts_index(block.statements@, 0);
        }
        let s = match eval_statement(&block.statements[i], env, scope, out, fuel) {
            Err(e) => {
                return Err(e);
            },
            Ok(v) => v,
        };
        match s {
            Object::Return(ret) => {
                return Ok(Object::Return(ret));
            },
            v => {
                last = v;
                i = i + 1;
            },
        }
    }
    Ok(last)
}

/// Statement evaluation: `let` binds in the current scope and yields the
/// bound value, `return` wraps its value in the pending sentinel, a bare
/// expression yields its value.
pub fn eval_statement(stmt: &Statement, env: &mut Environment, scope: usize, out: &mut Vec<String>, fuel: u64) -> (r: EvalResult)
    requires
        spec_env_wf(old(env)@),
        scope < old(env)@.len(),
    ensures
        spec_env_wf(final(env)@),
        old(env)@.len() <= final(env)@.len(),
        ({
            let st = spec_eval_stmt(view_stmt(*stmt), old(env)@, scope as int, fuel as nat);
            &&& final(env)@ == st.env
            &&& view_strings(final(out)@) =~= view_strings(old(out)@) + st.out
            &&& match r {
                Ok(o) => st.res is Ok && o@ == st.res->Ok_0,
                Err(e) => st.res is Err && e.message@ == st.res->Err_0,
            }
        }),
    decreases fuel, stmt, 1int,
{
    match stmt {
        Statement::Let(l) => {
            let value = match eval_expression(&l.value, env, scope, out, fuel) {
                Err(e) => {
                    return Err(e);
                },
                Ok(v) => v,
            };
            let obj = value.duplicate();
            env.set(scope, l.name.clone(), obj);
            Ok(value)
        },
        Statement::Return(ret) => {
            let value = match eval_expression(&ret.value, env, scope, out, fuel) {
                Err(e) => {
                    return Err(e);
                },
                Ok(v) => v,
            };
            Ok(Object::Return(Box::new(Return { value })))
        },
        Statement::Expression(e) => eval_expression(&e.expression, env, scope, out, fuel),
    }
}

/// Expression evaluation, dispatching on the expression's form.
#[verifier::rlimit(100)]
#[verifier::spinoff_prover]
pub fn eval_expression(exp: &Expression, env: &mut Environment, scope: usize, out: &mut Vec<String>, fuel: u64) -> (r: EvalResult)
    requires
        spec_env_wf(old(env)@),
        scope < old(env)@.len(),
    ensures
        spec_env_wf(final(env)@),
        old(env)@.len() <= final(env)@.len(),
        ({
            let st = spec_eval_expr(view_expr(*exp), old(env)@, scope as int, fuel as nat);
            &&& final(env)@ == st.env
            &&& view_strings(final(out)@) =~= view_strings(old(out)@) + st.out
            &&& match r {
                Ok(o) => st.res is Ok && o@ == st.res->Ok_0,
                Err(e) => st.res is Err && e.message@ == st.res->Err_0,
            }
        }),
    decreases fuel, exp, 0int,
{
    match exp {
        Expression::Integer(n) => Ok(Object::Int(*n)),
        Expression::Boolean(b) => Ok(Object::Bool(*b)),
        Expression::Str(s) => Ok(Object::Str(s.clone())),
        Expression::Identifier(name) => eval_identifier(name.as_str(), env, scope),
        Expression::Prefix(p) => {
            let right = match eval_expression(&p.right, env, scope, out, fuel) {
                Err(e) => {
                    return Err(e);
                },
                Ok(v) => v,
            };
            eval_prefix_expression(&p.operator, right)
        },
        Expression::Infix(p) => {
            let left = match eval_expression(&p.left, env, scope, out, fuel) {
                Err(e) => {
                    return Err(e);
                },
                Ok(v) => v,
            };
            let right = match eval_expression(&p.right, env, scope, out, fuel) {
                Err(e) => {
                    return Err(e);
                },
                Ok(v) => v,
            };
            eval_infix_expression(&p.operator, left, right)
        },
        Expression::If(p) => {
            let cond = match eval_expression(&p.condition, env, scope, out, fuel) {
                Err(e) => {
                    return Err(e);
                },
                Ok(v) => v,
            };
            if is_truthy(&cond) {
                proof {
                    assert(view_block(p.consequence).stmts == view_stmts(
                        p.consequence.statements@,
                        0,
                    ));
                }
                eval_block_statement(&p.consequence, env, scope, out, fuel)
            } else {
                match &p.alternative {
                    Some(alt) => {
                        proof {
                            assert(view_block(*alt).stmts == view_stmts(alt.statements@, 0));
                        }
                        eval_block_statement(alt, env, scope, out, fuel)
                    },
                    None => Ok(Object::Null),
                }
            }
        },
        Expression::Function(f) => {
            Ok(
                Object::Function(
                    Box::new(
                        Function {
                            parameters: crate::parser::node::params_duplicate(&f.parameters),
                            body: f.body.duplicate(),
                            env: scope,
                        },
                    ),
                ),
            )
        },
        Expression::Call(c) => {
            let function = match eval_expression(&c.function, env, scope, out, fuel) {
                Err(e) => {
                    return Err(e);
                },
                Ok(v) => v,
            };
            let args = match eval_expressions(&c.arguments, env, scope, out, fuel) {
                Err(e) => {
                    return Err(e);
                },
                Ok(v) => v,
            };
            if fuel == 0 {
                Err(EvalError { message: String::from_str("evaluation nesting too deep") })
            } else {
                apply_function(&function, &args, env, out, fuel - 1)
            }
        },
        Expression::Array(a) => {
            let elements = match eval_expressions(&a.elements, env, scope, out, fuel) {
                Err(e) => {
                    return Err(e);
                },
                Ok(v) => v,
            };
            Ok(Object::Array(Box::new(crate::object::Array { elements })))
        },
        Expression::Index(ix) => {
            let left = match eval_expression(&ix.left, env, scope, out, fuel) {
                Err(e) => {
                    return Err(e);
                },
                Ok(v) => v,
            };
            let index = match eval_expression(&ix.index, env, scope, out, fuel) {
                Err(e) => {
                    return Err(e);
                },
                Ok(v) => v,
            };
            eval_index_expression(left, index)
        },
        Expression::Hash(hl) => eval_hash_literal(hl, env, scope, out, fuel),
    }
}

/// A hash literal: key and value expressions evaluated left to right per
/// pair, with a later duplicate key overwriting the earlier pair.
pub fn eval_hash_literal(hl: &crate::parser::node::HashLiteral, env: &mut Environment, scope: usize, out: &mut Vec<String>, fuel: u64) -> (r: EvalResult)
    requires
        spec_env_wf(old(env)@),
        scope < old(env)@.len(),
    ensures
        spec_env_wf(final(env)@),
        old(env)@.len() <= final(env)@.len(),
        ({
            let st = spec_eval_pairs(
                view_pairs(hl.pairs@, 0),
                0,
                seq![],
                old(env)@,
                scope as int,
                fuel as nat,
            );
            &&& final(env)@ == st.env
            &&& view_strings(final(out)@) =~= view_strings(old(out)@) + st.out
            &&& match r {
                Ok(o) => st.res is Ok && o@ == ObjV::Hash(st.res->Ok_0),
                Err(e) => st.res is Err && e.message@ == st.res->Err_0,
            }
        }),
    decreases fuel, hl.pairs@, 1int,
{
    let ghost psv = view_pairs(hl.pairs@, 0);
    let ghost env0 = old(env)@;
    let ghost out0 = view_strings(old(out)@);
    let ghost target = spec_eval_pairs(psv, 0, seq![], env0, scope as int, fuel as nat);
    proof {
        lemma_view_pairs_index(hl.pairs@, 0);
    }
    let mut h = MonkeyHash { pairs: Vec::new() };
    proof {
        crate::object::lemma_view_obj_pairs_index(h.pairs@, 0);
        assert(crate::object::view_obj_pairs(h.pairs@, 0) =~= seq![]);
    }
    let mut i: usize = 0;
    while i < hl.pairs.len()
        invariant
            spec_env_wf(env@),
            scope < env@.len(),
            env0.len() <= env@.len(),
            i <= hl.pairs@.len(),
            ({
                let rest = spec_eval_pairs(
                    psv,
                    i as int,
                    crate::object::view_obj_pairs(h.pairs@, 0),
                    env@,
                    scope as int,
                    fuel as nat,
                );
                &&& target.res == rest.res
                &&& target.env == rest.env
                &&& out0 + target.out =~= view_strings(out@) + rest.out
            }),
        decreases hl.pairs@.len() - i,
    {
        proof {
            lemma_view_pairs_index(hl.pairs@, 0);
        }
        let key = match eval_expression(&hl.pairs[i].0, env, scope, out, fuel) {
            Err(e) => {
                return Err(e);
            },
            Ok(v) => v,
        };
        if !key.is_hashable() {
            let mut m = String::from_str("unusable as hash key: ");
            m.append(key.kind_name());
            return Err(EvalError { message: m });
        }
        let value = match eval_expression(&hl.pairs[i].1, env, scope, out, fuel) {
            Err(e) => {
                return Err(e);
            },
            Ok(v) => v,
        };
        h.insert(key, value);
        i = i + 1;
    }
    Ok(Object::Hash(Box::new(h)))
}

/// Evaluates the expressions of a list, left to right, into a vector of
/// values.
pub fn eval_expressions(exps: &Vec<Expression>, env: &mut Environment, scope: usize, out: &mut Vec<String>, fuel: u64) -> (r: Result<Vec<Object>, EvalError>)
    requires
        spec_env_wf(old(env)@),
        scope < old(env)@.len(),
    ensures
        spec_env_wf(final(env)@),
        old(env)@.len() <= final(env)@.len(),
        ({
            let st = spec_eval_exprs(
                view_exprs(exps@, 0),
                0,
                seq![],
                old(env)@,
                scope as int,
                fuel as nat,
            );
            &&& final(env)@ == st.env
            &&& view_strings(final(out)@) =~= view_strings(old(out)@) + st.out
            &&& match r {
                Ok(objs) => st.res is Ok && crate::object::view_objs(objs@, 0) == st.res->Ok_0,
                Err(e) => st.res is Err && e.message@ == st.res->Err_0,
            }
        }),
    decreases fuel, exps@, 0int,
{
    let ghost esv = view_exprs(exps@, 0);
    let ghost env0 = old(env)@;
    let ghost out0 = view_strings(old(out)@);
    let ghost target = spec_eval_exprs(esv, 0, seq![], env0, scope as int, fuel as nat);
    proof {
        lemma_view_exprs_index(exps@, 0);
    }
    let mut objs: Vec<Object> = Vec::new();
    proof {
        crate::object::lemma_view_objs_index(objs@, 0);
        assert(crate::object::view_objs(objs@, 0) =~= seq![]);
    }
    let mut i: usize = 0;
    while i < exps.len()
        invariant
            spec_env_wf(env@),
            scope < env@.len(),
            env0.len() <= env@.len(),
            i <= exps@.len(),
            ({
                let rest = spec_eval_exprs(
                    esv,
                    i as int,
                    crate::object::view_objs(objs@, 0),
                    env@,
                    scope as int,
                    fuel as nat,
                );
                &&& target.res == rest.res
                &&& target.env == rest.env
                &&& out0 + target.out =~= view_strings(out@) + rest.out
            }),
        decreases exps@.len() - i,
    {
        proof {
            lemma_view_exprs_index(exps@, 0);
        }
        let v = match eval_expression(&exps[i], env, scope, out, fuel) {
            Err(e) => {
                return Err(e);
            },
            Ok(v) => v,
        };
        let ghost before = crate::object::view_objs(objs@, 0);
        let ghost oldobjs = objs@;
        let ghost vv = v@;
        objs.push(v);
        proof {
            crate::object::lemma_view_objs_index(objs@, 0);
            crate::object::lemma_view_objs_index(oldobjs, 0);
            assert(crate::object::view_objs(objs@, 0) =~= before.push(vv));
        }
        i = i + 1;
    }
    Ok(objs)
}

/// A fresh scope for one call: its parent is the function's captured
/// scope, and each parameter is bound positionally to its argument.
pub fn extend_function_env(func: &Function, args: &Vec<Object>, env: &mut Environment) -> (r: usize)
    requires
        spec_env_wf(old(env)@),
        func.env < old(env)@.len(),
        func.parameters@.len() == args@.len(),
    ensures
        spec_env_wf(final(env)@),
        r == old(env)@.len(),
        final(env)@.len() >= old(env)@.len() + 1,
        final(env)@ == spec_bind_params(
            old(env)@.push(ScopeV { bindings: seq![], outer: Some(func.env as int) }),
            old(env)@.len() as int,
            crate::parser::node::view_params(func.parameters@),
            crate::object::view_objs(args@, 0),
            0,
        ),
{
    let ghost paramsv = crate::parser::node::view_params(func.parameters@);
    let ghost argsv = crate::object::view_objs(args@, 0);
    proof {
        crate::object::lemma_view_objs_index(args@, 0);
    }
    let ns = env.new_enclosed(func.env);
    let ghost env2 = env@;
    let ghost target = spec_bind_params(env2, ns as int, paramsv, argsv, 0);
    let mut i: usize = 0;
    while i < func.parameters.len()
        invariant
            spec_env_wf(env@),
            ns < env@.len(),
            env@.len() == env2.len(),
            i <= func.parameters@.len(),
            spec_bind_params(env@, ns as int, paramsv, argsv, i as int) == target,
        decreases func.parameters@.len() - i,
    {
        proof {
            crate::object::lemma_view_objs_index(args@, 0);
        }
        let name = func.parameters[i].name.clone();
        let arg = args[i].duplicate();
        env.set(ns, name, arg);
        i = i + 1;
    }
    ns
}

/// Function application: a function value runs its body in a fresh scope
/// chained to its captured scope, with a pending `return` unwrapped at
/// this boundary; a built-in dispatches to its fixed behavior; any other
/// value is not callable.
pub fn apply_function(func: &Object, args: &Vec<Object>, env: &mut Environment, out: &mut Vec<String>, fuel: u64) -> (r: EvalResult)
    requires
        spec_env_wf(old(env)@),
    ensures
        spec_env_wf(final(env)@),
        old(env)@.len() <= final(env)@.len(),
        ({
            let st = spec_apply_function(
                func@,
                crate::object::view_objs(args@, 0),
                old(env)@,
                fuel as nat,
            );
            &&& final(env)@ == st.env
            &&& view_strings(final(out)@) =~= view_strings(old(out)@) + st.out
            &&& match r {
                Ok(o) => st.res is Ok && o@ == st.res->Ok_0,
                Err(e) => st.res is Err && e.message@ == st.res->Err_0,
            }
        }),
    decreases fuel, func, 2int,
{
    if fuel == 0 {
        return Err(EvalError { message: String::from_str("evaluation nesting too deep") });
    }
    match func {
        Object::Function(f) => {
            proof {
                crate::object::lemma_view_objs_index(args@, 0);
            }
            if f.parameters.len() != args.len() {
                let mut m = String::from_str("wrong number of arguments: want=");
                let w = crate::text::u64_string(f.parameters.len() as u64);
                m.append(w.as_str());
                m.append(", got=");
                let g = crate::text::u64_string(args.len() as u64);
                m.append(g.as_str());
                return Err(EvalError { message: m });
            }
            if f.env >= env.len() {
                return Err(
                    EvalError { message: String::from_str("invalid function environment") },
                );
            }
            let ns = extend_function_env(f, args, env);
            let v = match eval_block_statement(&f.body, env, ns, out, fuel - 1) {
                Err(e) => {
                    return Err(e);
                },
                Ok(v) => v,
            };
            Ok(unwrap_return_value(v))
        },
        Object::Builtin(b) => {
            match b.apply(args, out) {
                Ok(o) => Ok(o),
                Err(m) => Err(EvalError { message: m }),
            }
        },
        other => {
            let mut m = String::from_str(other.kind_name());
            m.append(" is not a function");
            Err(EvalError { message: m })
        },
    }
}

} // verus!
