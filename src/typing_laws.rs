use vstd::prelude::*;

use crate::ast::{Comparison, ExprV, FunctionV, StmtV};
use crate::analyzers::{analyze, check_function, define_function, each};
use crate::types::same_type_spec;
use crate::types_analyzer::{check_body, check_chain, check_expr, check_stmt, lookup, ty, VarsV};

verus! {

broadcast use vstd::seq::group_seq_axioms;

/// Every node carries a type, the operands of every arithmetic node have the
/// same type, and every variable read is in `vars`.
pub open spec fn well_typed(e: ExprV, vars: VarsV) -> bool
    decreases e,
{
    &&& e.metadata().type_information is Some
    &&& match e {
        ExprV::Literal(..) => true,
        ExprV::Var(_, n) => lookup(vars, n) is Some,
        ExprV::Binary { left, right, .. } => {
            &&& same_type_spec(ty(*left), ty(*right))
            &&& well_typed(*left, vars)
            &&& well_typed(*right, vars)
        },
        ExprV::ComparisonChain { first_element, comparisons, .. } => {
            &&& well_typed(*first_element, vars)
            &&& forall|i: int| 0 <= i < comparisons.len() ==> well_typed(#[trigger] comparisons[i].1, vars)
        },
        ExprV::PrefixExpression { expression, .. } => well_typed(*expression, vars),
    }
}

pub open spec fn stmt_typed(s: StmtV, vars: VarsV) -> bool
    decreases s,
{
    match s {
        StmtV::Print(e) | StmtV::Assert(e) | StmtV::Return(e) | StmtV::Test(_, e) => well_typed(e, vars),
        StmtV::Assignment { var_name, expression, .. } => {
            &&& well_typed(expression, vars)
            &&& lookup(vars, var_name) is Some
        },
        StmtV::If { condition, then, otherwise } => {
            &&& well_typed(condition, vars)
            &&& forall|i: int| 0 <= i < then.len() ==> stmt_typed(#[trigger] then[i], vars)
            &&& forall|i: int| 0 <= i < otherwise.len() ==> stmt_typed(#[trigger] otherwise[i], vars)
        },
    }
}

pub open spec fn body_typed(b: Seq<StmtV>, vars: VarsV) -> bool {
    forall|i: int| 0 <= i < b.len() ==> stmt_typed(#[trigger] b[i], vars)
}

/// No variable is recorded twice.
pub open spec fn unique_names(vars: VarsV) -> bool {
    forall|i: int, j: int| 0 <= i < j < vars.len() ==> #[trigger] vars[i].0 != #[trigger] vars[j].0
}

proof fn lemma_lookup_none(vars: VarsV, n: Seq<char>)
    requires
        lookup(vars, n) is None,
    ensures
        forall|i: int| 0 <= i < vars.len() ==> #[trigger] vars[i].0 != n,
    decreases vars.len(),
{
    if vars.len() > 0 {
        lemma_lookup_none(vars.drop_last(), n);
        assert forall|i: int| 0 <= i < vars.len() implies #[trigger] vars[i].0 != n by {
            if i < vars.len() - 1 {
                assert(vars[i] == vars.drop_last()[i]);
            }
        }
    }
}

proof fn lemma_unique_push(vars: VarsV, n: Seq<char>, t: crate::types::TypeInformation)
    requires
        unique_names(vars),
        lookup(vars, n) is None,
    ensures
        unique_names(vars.push((n, t))),
{
    lemma_lookup_none(vars, n);
    let v2 = vars.push((n, t));
    assert forall|i: int, j: int| 0 <= i < j < v2.len() implies #[trigger] v2[i].0 != #[trigger] v2[j].0 by {
        if j == vars.len() {
            assert(v2[i] == vars[i]);
        } else {
            assert(v2[i] == vars[i] && v2[j] == vars[j]);
        }
    }
}

/// `v2` starts with `v1`.
pub open spec fn extends(v2: VarsV, v1: VarsV) -> bool {
    v1.len() <= v2.len() && forall|i: int| 0 <= i < v1.len() ==> v2[i] == v1[i]
}

proof fn lemma_lookup_extends(v1: VarsV, v2: VarsV, n: Seq<char>)
    requires
        extends(v2, v1),
        lookup(v1, n) is Some,
    ensures
        lookup(v2, n) is Some,
    decreases v2.len(),
{
    if v2.len() == v1.len() {
        assert(v2 =~= v1);
    } else if v2.last().0 != n {
        lemma_lookup_extends(v1, v2.drop_last(), n);
    }
}

proof fn lemma_well_typed_extends(e: ExprV, v1: VarsV, v2: VarsV)
    requires
        extends(v2, v1),
        well_typed(e, v1),
    ensures
        well_typed(e, v2),
    decreases e,
{
    match e {
        ExprV::Var(_, n) => lemma_lookup_extends(v1, v2, n),
        ExprV::Binary { left, right, .. } => {
            lemma_well_typed_extends(*left, v1, v2);
            lemma_well_typed_extends(*right, v1, v2);
        },
        ExprV::ComparisonChain { first_element, comparisons, .. } => {
            lemma_well_typed_extends(*first_element, v1, v2);
            assert forall|i: int| 0 <= i < comparisons.len() implies well_typed(#[trigger] comparisons[i].1, v2) by {
                lemma_well_typed_extends(comparisons[i].1, v1, v2);
            }
        },
        ExprV::PrefixExpression { expression, .. } => lemma_well_typed_extends(*expression, v1, v2),
        _ => {},
    }
}

proof fn lemma_stmt_typed_extends(s: StmtV, v1: VarsV, v2: VarsV)
    requires
        extends(v2, v1),
        stmt_typed(s, v1),
    ensures
        stmt_typed(s, v2),
    decreases s,
{
    match s {
        StmtV::Print(e) | StmtV::Assert(e) | StmtV::Return(e) | StmtV::Test(_, e) => lemma_well_typed_extends(e, v1, v2),
        StmtV::Assignment { var_name, expression, .. } => {
            lemma_well_typed_extends(expression, v1, v2);
            lemma_lookup_extends(v1, v2, var_name);
        },
        StmtV::If { condition, then, otherwise } => {
            lemma_well_typed_extends(condition, v1, v2);
            assert forall|i: int| 0 <= i < then.len() implies stmt_typed(#[trigger] then[i], v2) by {
                lemma_stmt_typed_extends(then[i], v1, v2);
            }
            assert forall|i: int| 0 <= i < otherwise.len() implies stmt_typed(#[trigger] otherwise[i], v2) by {
                lemma_stmt_typed_extends(otherwise[i], v1, v2);
            }
        },
    }
}

/// The type pass annotates every node of an expression it accepts, with
/// operands of one type under every arithmetic node and every variable read
/// already recorded.
pub proof fn lemma_check_expr_typed(e: ExprV, vars: VarsV)
    ensures
        check_expr(e, vars) matches Ok(x) ==> well_typed(x, vars),
    decreases e,
{
    match e {
        ExprV::Binary { left, right, .. } => {
            lemma_check_expr_typed(*left, vars);
            lemma_check_expr_typed(*right, vars);
        },
        ExprV::ComparisonChain { first_element, comparisons, .. } => {
            lemma_check_expr_typed(*first_element, vars);
            lemma_check_chain_typed(comparisons, vars);
        },
        ExprV::PrefixExpression { expression, .. } => lemma_check_expr_typed(*expression, vars),
        _ => {},
    }
}

proof fn lemma_check_chain_typed(cs: Seq<(Comparison, ExprV)>, vars: VarsV)
    ensures
        check_chain(cs, vars) matches Ok(xs) ==> xs.len() == cs.len() && forall|i: int|
            0 <= i < xs.len() ==> well_typed(#[trigger] xs[i].1, vars),
    decreases cs,
{
    if cs.len() > 0 {
        lemma_check_chain_typed(cs.drop_last(), vars);
        lemma_check_expr_typed(cs.last().1, vars);
    }
}

/// The type pass only adds variables, and everything in an accepted
/// statement is well typed against the variables after it.
pub proof fn lemma_check_stmt_typed(s: StmtV, vars: VarsV, ret: crate::types::TypeInformation)
    ensures
        check_stmt(s, vars, ret) matches Ok((s2, v2)) ==> extends(v2, vars) && stmt_typed(s2, v2) && (
        unique_names(vars) ==> unique_names(v2)),
    decreases s,
{
    match s {
        StmtV::Print(e) | StmtV::Assert(e) | StmtV::Return(e) | StmtV::Test(_, e) => lemma_check_expr_typed(e, vars),
        StmtV::Assignment { var_name, expression, .. } => {
            lemma_check_expr_typed(expression, vars);
            if let Ok(x) = check_expr(expression, vars) {
                if lookup(vars, var_name) is None {
                    let v2 = vars.push((var_name, ty(x).borrowed()));
                    lemma_well_typed_extends(x, vars, v2);
                    if unique_names(vars) {
                        lemma_unique_push(vars, var_name, ty(x).borrowed());
                    }
                }
            }
        },
        StmtV::If { condition, then, otherwise } => {
            lemma_check_expr_typed(condition, vars);
            lemma_check_body_typed(then, vars, ret);
            if let Ok((t2, v1)) = check_body(then, vars, ret) {
                lemma_check_body_typed(otherwise, v1, ret);
                if let Ok((o2, v2)) = check_body(otherwise, v1, ret) {
                    if let Ok(c) = check_expr(condition, vars) {
                        lemma_well_typed_extends(c, vars, v2);
                    }
                    assert forall|i: int| 0 <= i < t2.len() implies stmt_typed(#[trigger] t2[i], v2) by {
                        lemma_stmt_typed_extends(t2[i], v1, v2);
                    }
                }
            }
        },
    }
}

/// A body accepted by the type pass is well typed against the variables
/// recorded after it, which extend those before it.
pub proof fn lemma_check_body_typed(ss: Seq<StmtV>, vars: VarsV, ret: crate::types::TypeInformation)
    ensures
        check_body(ss, vars, ret) matches Ok((b, v2)) ==> extends(v2, vars) && body_typed(b, v2) && (
        unique_names(vars) ==> unique_names(v2)),
    decreases ss,
{
    if ss.len() > 0 {
        lemma_check_body_typed(ss.drop_last(), vars, ret);
        if let Ok((done, v1)) = check_body(ss.drop_last(), vars, ret) {
            lemma_check_stmt_typed(ss.last(), v1, ret);
            if let Ok((s2, v2)) = check_stmt(ss.last(), v1, ret) {
                assert forall|i: int| 0 <= i < done.len() implies stmt_typed(#[trigger] done[i], v2) by {
                    lemma_stmt_typed_extends(done[i], v1, v2);
                }
                let b = done.push(s2);
                assert forall|i: int| 0 <= i < b.len() implies stmt_typed(#[trigger] b[i], v2) by {
                    if i < done.len() {
                        assert(b[i] == done[i]);
                    }
                }
            }
        }
    }
}

/// A function after both passes: its return type is set, its body is well
/// typed against the variables that its metadata records, and no variable is
/// recorded twice.
pub open spec fn function_typed(f: FunctionV) -> bool {
    &&& f.metadata.return_type is Some
    &&& body_typed(f.body, f.metadata.var_types)
    &&& unique_names(f.metadata.var_types)
}

proof fn lemma_each_typed(fs: Seq<FunctionV>)
    requires
        forall|i: int| 0 <= i < fs.len() ==> (#[trigger] fs[i]).metadata.return_type is Some,
    ensures
        each(fs, |f: FunctionV| check_function(f)) matches Ok(out) ==> out.len() == fs.len() && forall|i: int|
            0 <= i < out.len() ==> function_typed(#[trigger] out[i]),
    decreases fs.len(),
{
    if fs.len() > 0 {
        lemma_each_typed(fs.drop_last());
        let f = fs.last();
        lemma_check_body_typed(f.body, Seq::empty(), f.metadata.return_type->Some_0);
    }
}

proof fn lemma_each_defined(fs: Seq<FunctionV>)
    ensures
        each(fs, |f: FunctionV| define_function(f)) matches Ok(out) ==> out.len() == fs.len() && forall|i: int|
            0 <= i < out.len() ==> (#[trigger] out[i]).metadata.return_type is Some,
    decreases fs.len(),
{
    if fs.len() > 0 {
        lemma_each_defined(fs.drop_last());
    }
}

/// Both semantic passes together: in every function of an accepted file the
/// return type is set, every expression carries a type, the operands of every
/// arithmetic node have the same type, every variable read is recorded in the
/// function's variable table, and that table names each variable once.
pub proof fn lemma_analyzed_file_is_typed(fs: Seq<FunctionV>)
    ensures
        analyze(fs) matches Ok(out) ==> forall|i: int| 0 <= i < out.len() ==> function_typed(#[trigger] out[i]),
{
    lemma_each_defined(fs);
    if let Ok(defined) = each(fs, |f: FunctionV| define_function(f)) {
        lemma_each_typed(defined);
    }
}

} // verus!
