use vstd::prelude::*;

use crate::ast::{body_view, vars_view, CodeBody, Expression, FunctionV, Statement, StmtV, TopLevelStatement};
use crate::errors::CompilerResult;
use crate::ir_plan::{code_view, lower, lower_expression, Instr, InstrV};
use crate::lowering::{
    assert_message, assert_message_spec, ir_type, ir_type_spec, test_failed_message, test_label,
    test_label_spec, test_ok_message, IrType,
};
use crate::types::TypeInformation;
use crate::types_analyzer::{lemma_body_view_index, ty, VarsV};
use crate::typing_laws::{body_typed, function_typed, stmt_typed};

verus! {

broadcast use vstd::seq::group_seq_axioms, vstd::std_specs::vec::group_vec_axioms;

/// An operand of an operation: a value of the statement's expression code,
/// or the value that an earlier operation of the same list defined.
#[derive(Debug, PartialEq, Eq, Clone, Copy, Structural)]
pub enum Val {
    Expr(usize),
    Op(usize),
}

/// The format that `printf` is given.
#[derive(Debug, PartialEq, Eq, Clone, Copy, Structural)]
pub enum Format {
    /// `"%d\n"`
    Decimal,
    /// `"%s\n"`
    Text,
}

/// One operation on slots, heap buffers or output. Operation `k` of a list
/// defines the value `Val::Op(k)` when it has a result.
#[derive(Debug, PartialEq, Eq, Clone)]
pub enum Op {
    /// A stack slot for the named variable.
    Alloca(String, IrType),
    /// The value in the named variable's slot.
    LoadSlot(String),
    /// Stores the value into the named variable's slot.
    Store(String, Val),
    /// `free(p)`.
    Free(Val),
    /// `strlen(s)`, as a 64-bit size.
    Strlen(Val),
    /// `n + 1` on a 64-bit size: room for the terminator.
    Increment(Val),
    /// `malloc(0)`.
    MallocEmpty,
    /// `malloc(n)`.
    Malloc(Val),
    /// `realloc(p, n)`.
    Realloc(Val, Val),
    /// `memcpy(dest, src, n)`.
    Memcpy(Val, Val, Val),
    /// `printf(format, v)`.
    Print(Format, Val),
    /// `printf("%s\n", text)` with a global copy of the text.
    PrintText(String),
    /// `abort()`; nothing after it runs.
    Abort,
    /// Returns the value from the function.
    Ret(Val),
}

pub ghost enum OpV {
    Alloca(Seq<char>, IrType),
    LoadSlot(Seq<char>),
    Store(Seq<char>, Val),
    Free(Val),
    Strlen(Val),
    Increment(Val),
    MallocEmpty,
    Malloc(Val),
    Realloc(Val, Val),
    Memcpy(Val, Val, Val),
    Print(Format, Val),
    PrintText(Seq<char>),
    Abort,
    Ret(Val),
}

impl View for Op {
    type V = OpV;

    open spec fn view(&self) -> OpV {
        match self {
            Op::Alloca(n, t) => OpV::Alloca(n@, *t),
            Op::LoadSlot(n) => OpV::LoadSlot(n@),
            Op::Store(n, v) => OpV::Store(n@, *v),
            Op::Free(v) => OpV::Free(*v),
            Op::Strlen(v) => OpV::Strlen(*v),
            Op::Increment(v) => OpV::Increment(*v),
            Op::MallocEmpty => OpV::MallocEmpty,
            Op::Malloc(v) => OpV::Malloc(*v),
            Op::Realloc(p, n) => OpV::Realloc(*p, *n),
            Op::Memcpy(d, s, n) => OpV::Memcpy(*d, *s, *n),
            Op::Print(f, v) => OpV::Print(*f, *v),
            Op::PrintText(t) => OpV::PrintText(t@),
            Op::Abort => OpV::Abort,
            Op::Ret(v) => OpV::Ret(*v),
        }
    }
}

pub open spec fn ops_view(ops: Seq<Op>) -> Seq<OpV> {
    ops.map_values(|o: Op| o@)
}

/// What the IR of one statement does.
#[derive(Debug)]
pub enum Step {
    /// The expression's code, then `ops` in order.
    Straight { code: Vec<Instr>, ops: Vec<Op> },
    /// The expression's code, then a branch on its value: `if_true` or
    /// `if_false` runs, and execution continues after both unless they abort.
    Branch { code: Vec<Instr>, value: usize, if_true: Vec<Op>, if_false: Vec<Op> },
    /// The condition's code, a branch on its value to the two bodies, which
    /// join afterwards.
    If { code: Vec<Instr>, value: usize, then: Vec<Step>, otherwise: Vec<Step> },
}

pub ghost enum StepV {
    Straight { code: Seq<InstrV>, ops: Seq<OpV> },
    Branch { code: Seq<InstrV>, value: nat, if_true: Seq<OpV>, if_false: Seq<OpV> },
    If { code: Seq<InstrV>, value: nat, then: Seq<StepV>, otherwise: Seq<StepV> },
}

pub open spec fn step_view(s: Step) -> StepV
    decreases s,
{
    match s {
        Step::Straight { code, ops } => StepV::Straight { code: code_view(code@), ops: ops_view(ops@) },
        Step::Branch { code, value, if_true, if_false } => StepV::Branch {
            code: code_view(code@),
            value: value as nat,
            if_true: ops_view(if_true@),
            if_false: ops_view(if_false@),
        },
        Step::If { code, value, then, otherwise } => StepV::If {
            code: code_view(code@),
            value: value as nat,
            then: steps_view(then@),
            otherwise: steps_view(otherwise@),
        },
    }
}

pub open spec fn steps_view(ss: Seq<Step>) -> Seq<StepV>
    decreases ss,
{
    if ss.len() == 0 {
        Seq::empty()
    } else {
        steps_view(ss.drop_last()).push(step_view(ss.last()))
    }
}

// ---------------------------------------------------------------------------
// The operations, as sequences.
// ---------------------------------------------------------------------------

/// Storing value `v` of type `rhs` into a variable. A borrowed string is
/// copied, terminator included, into the slot's buffer grown by `realloc`; an
/// owned string replaces the slot's buffer, which is freed.
pub open spec fn store_ops(name: Seq<char>, v: nat, rhs: TypeInformation) -> Seq<OpV> {
    let e = Val::Expr(v as usize);
    match rhs {
        TypeInformation::String(false) => seq![
            OpV::LoadSlot(name),
            OpV::Strlen(e),
            OpV::Increment(Val::Op(1)),
            OpV::Realloc(Val::Op(0), Val::Op(2)),
            OpV::Memcpy(Val::Op(3), e, Val::Op(2)),
            OpV::Store(name, Val::Op(3)),
        ],
        TypeInformation::String(true) => seq![OpV::LoadSlot(name), OpV::Free(Val::Op(0)), OpV::Store(name, e)],
        _ => seq![OpV::Store(name, e)],
    }
}

/// A fresh heap copy of string `v`, terminator included; it is value `Op(2)`.
pub open spec fn copy_ops(v: nat) -> Seq<OpV> {
    let e = Val::Expr(v as usize);
    seq![OpV::Strlen(e), OpV::Increment(Val::Op(0)), OpV::Malloc(Val::Op(1)), OpV::Memcpy(Val::Op(2), e, Val::Op(1))]
}

/// Frees the buffer of each named variable, the first operation being number `start`.
pub open spec fn free_ops(names: Seq<Seq<char>>, start: nat) -> Seq<OpV>
    decreases names.len(),
{
    if names.len() == 0 {
        Seq::empty()
    } else {
        let k = start + 2 * (names.len() - 1);
        free_ops(names.drop_last(), start) + seq![OpV::LoadSlot(names.last()), OpV::Free(Val::Op(k as usize))]
    }
}

/// Returning value `v` of type `t`: a borrowed string is first copied to the
/// heap, then every string variable's buffer is freed, then the function returns.
pub open spec fn return_ops(v: nat, t: TypeInformation, strings: Seq<Seq<char>>) -> Seq<OpV> {
    if t == TypeInformation::String(false) {
        copy_ops(v) + free_ops(strings, 4) + seq![OpV::Ret(Val::Op(2))]
    } else {
        free_ops(strings, 0) + seq![OpV::Ret(Val::Expr(v as usize))]
    }
}

/// The names of the string variables, in order.
pub open spec fn string_vars(vars: VarsV) -> Seq<Seq<char>>
    decreases vars.len(),
{
    if vars.len() == 0 {
        Seq::empty()
    } else if vars.last().1 is String {
        string_vars(vars.drop_last()).push(vars.last().0)
    } else {
        string_vars(vars.drop_last())
    }
}

/// The slots of the variables: each gets an `alloca`, and a string variable's
/// slot also gets an empty heap buffer, so that freeing it is always safe.
pub open spec fn prologue_ops(vars: VarsV) -> Seq<OpV>
    decreases vars.len(),
{
    if vars.len() == 0 {
        Seq::empty()
    } else {
        let pre = prologue_ops(vars.drop_last());
        let (n, t) = vars.last();
        pre + if t is String {
            seq![OpV::Alloca(n, IrType::I8Ptr), OpV::MallocEmpty, OpV::Store(n, Val::Op((pre.len() + 1) as usize))]
        } else {
            seq![OpV::Alloca(n, ir_type_spec(t))]
        }
    }
}

/// The plan of a typed statement of a function whose string variables are
/// `strings`, in source file `file`.
pub open spec fn plan_stmt(s: StmtV, strings: Seq<Seq<char>>, file: Seq<char>) -> StepV
    decreases s,
{
    match s {
        StmtV::Print(e) => {
            let (code, v) = lower(e, 0);
            match ty(e) {
                TypeInformation::Number => StepV::Straight { code, ops: seq![OpV::Print(Format::Decimal, Val::Expr(v as usize))] },
                TypeInformation::String(owned) => StepV::Straight {
                    code,
                    ops: seq![OpV::Print(Format::Text, Val::Expr(v as usize))] + if owned {
                        seq![OpV::Free(Val::Expr(v as usize))]
                    } else {
                        Seq::empty()
                    },
                },
                TypeInformation::Boolean => StepV::Branch {
                    code,
                    value: v,
                    if_true: seq![OpV::PrintText("true"@)],
                    if_false: seq![OpV::PrintText("false"@)],
                },
            }
        },
        StmtV::Assignment { var_name, expression, .. } => StepV::Straight {
            code: lower(expression, 0).0,
            ops: store_ops(var_name, lower(expression, 0).1, ty(expression)),
        },
        StmtV::Return(e) => StepV::Straight {
            code: lower(e, 0).0,
            ops: return_ops(lower(e, 0).1, ty(e), strings),
        },
        StmtV::Assert(e) => StepV::Branch {
            code: lower(e, 0).0,
            value: lower(e, 0).1,
            if_true: Seq::empty(),
            if_false: seq![OpV::PrintText(assert_message_spec(e.location().line_start as nat)), OpV::Abort],
        },
        StmtV::Test(name, e) => StepV::Branch {
            code: lower(e, 0).0,
            value: lower(e, 0).1,
            if_true: seq![OpV::PrintText("\x1b[32mOK "@ + test_label_spec(name, file) + "\x1b[0m"@)],
            if_false: seq![
                OpV::PrintText("\x1b[31mFAILED "@ + test_label_spec(name, file) + "\x1b[0m"@),
                OpV::Abort,
            ],
        },
        StmtV::If { condition, then, otherwise } => StepV::If {
            code: lower(condition, 0).0,
            value: lower(condition, 0).1,
            then: plan_body(then, strings, file),
            otherwise: plan_body(otherwise, strings, file),
        },
    }
}

pub open spec fn plan_body(b: Seq<StmtV>, strings: Seq<Seq<char>>, file: Seq<char>) -> Seq<StepV>
    decreases b,
{
    if b.len() == 0 {
        Seq::empty()
    } else {
        plan_body(b.drop_last(), strings, file).push(plan_stmt(b.last(), strings, file))
    }
}

// ---------------------------------------------------------------------------
// Building the plans.
// ---------------------------------------------------------------------------

pub open spec fn names_view(v: Seq<String>) -> Seq<Seq<char>> {
    v.map_values(|s: String| s@)
}

fn push_op(ops: &mut Vec<Op>, op: Op)
    ensures
        ops_view(final(ops)@) == ops_view(old(ops)@).push(op@),
        final(ops)@.len() == old(ops)@.len() + 1,
{
    let ghost before = ops@;
    ops.push(op);
    proof {
        assert(ops_view(ops@) =~= ops_view(before).push(op@));
    }
}

fn empty_ops() -> (r: Vec<Op>)
    ensures
        ops_view(r@) == Seq::<OpV>::empty(),
        r@.len() == 0,
{
    let r: Vec<Op> = Vec::new();
    proof {
        assert(ops_view(r@) =~= Seq::<OpV>::empty());
    }
    r
}

/// The operations that store value `v` of type `rhs` into the variable `name`.
pub fn store_code(name: &String, v: usize, rhs: TypeInformation) -> (r: Vec<Op>)
    ensures
        ops_view(r@) == store_ops(name@, v as nat, rhs),
{
    let e = Val::Expr(v);
    let mut ops = empty_ops();
    match rhs {
        TypeInformation::String(false) => {
            push_op(&mut ops, Op::LoadSlot(name.clone()));
            push_op(&mut ops, Op::Strlen(e));
            push_op(&mut ops, Op::Increment(Val::Op(1)));
            push_op(&mut ops, Op::Realloc(Val::Op(0), Val::Op(2)));
            push_op(&mut ops, Op::Memcpy(Val::Op(3), e, Val::Op(2)));
            push_op(&mut ops, Op::Store(name.clone(), Val::Op(3)));
        },
        TypeInformation::String(true) => {
            push_op(&mut ops, Op::LoadSlot(name.clone()));
            push_op(&mut ops, Op::Free(Val::Op(0)));
            push_op(&mut ops, Op::Store(name.clone(), e));
        },
        _ => {
            push_op(&mut ops, Op::Store(name.clone(), e));
        },
    }
    proof {
        assert(ops_view(ops@) =~= store_ops(name@, v as nat, rhs));
    }
    ops
}

/// Appends the operations that free the buffer of each named variable.
fn free_code(ops: &mut Vec<Op>, names: &Vec<String>)
    ensures
        ops_view(final(ops)@) == ops_view(old(ops)@) + free_ops(names_view(names@), old(ops)@.len() as nat),
        final(ops)@.len() == old(ops)@.len() + 2 * names@.len(),
{
    let ghost start = ops@.len();
    let ghost pre = ops_view(ops@);
    let ghost nv = names_view(names@);
    let mut i: usize = 0;
    proof {
        assert(nv.take(0) =~= Seq::<Seq<char>>::empty());
        assert(pre + free_ops(nv.take(0), start as nat) =~= pre);
    }
    while i < names.len()
        invariant
            i <= names@.len(),
            nv == names_view(names@),
            ops@.len() == start + 2 * i,
            ops_view(ops@) == pre + free_ops(nv.take(i as int), start as nat),
        decreases names@.len() - i,
    {
        let k = ops.len();
        push_op(ops, Op::LoadSlot(names[i].clone()));
        push_op(ops, Op::Free(Val::Op(k)));
        proof {
            assert(nv.take(i + 1).drop_last() =~= nv.take(i as int));
            assert(ops_view(ops@) =~= pre + free_ops(nv.take(i + 1), start as nat));
        }
        i = i + 1;
    }
    proof {
        assert(nv.take(names@.len() as int) =~= nv);
    }
}

/// The operations that return value `v` of type `t` from a function whose
/// string variables are `strings`.
pub fn return_code(v: usize, t: TypeInformation, strings: &Vec<String>) -> (r: Vec<Op>)
    ensures
        ops_view(r@) == return_ops(v as nat, t, names_view(strings@)),
{
    let e = Val::Expr(v);
    let mut ops = empty_ops();
    let result = if t == TypeInformation::String(false) {
        push_op(&mut ops, Op::Strlen(e));
        push_op(&mut ops, Op::Increment(Val::Op(0)));
        push_op(&mut ops, Op::Malloc(Val::Op(1)));
        push_op(&mut ops, Op::Memcpy(Val::Op(2), e, Val::Op(1)));
        proof {
            assert(ops_view(ops@) =~= copy_ops(v as nat));
        }
        Val::Op(2)
    } else {
        e
    };
    free_code(&mut ops, strings);
    push_op(&mut ops, Op::Ret(result));
    proof {
        assert(ops_view(ops@) =~= return_ops(v as nat, t, names_view(strings@)));
    }
    ops
}

/// The names of the string variables, in order.
pub fn string_variables(vars: &Vec<(String, TypeInformation)>) -> (r: Vec<String>)
    ensures
        names_view(r@) == string_vars(vars_view(vars@)),
{
    let ghost vv = vars_view(vars@);
    let mut r: Vec<String> = Vec::new();
    let mut i: usize = 0;
    proof {
        assert(vv.take(0) =~= Seq::<(Seq<char>, TypeInformation)>::empty());
        assert(names_view(r@) =~= Seq::<Seq<char>>::empty());
    }
    while i < vars.len()
        invariant
            i <= vars@.len(),
            vv == vars_view(vars@),
            names_view(r@) == string_vars(vv.take(i as int)),
        decreases vars@.len() - i,
    {
        proof {
            assert(vv.take(i + 1).drop_last() =~= vv.take(i as int));
        }
        match vars[i].1 {
            TypeInformation::String(_) => {
                let ghost before = r@;
                r.push(vars[i].0.clone());
                proof {
                    assert(names_view(r@) =~= names_view(before).push(vars@[i as int].0@));
                }
            },
            _ => {},
        }
        i = i + 1;
    }
    proof {
        assert(vv.take(vars@.len() as int) =~= vv);
    }
    r
}

/// The operations that set up the slots of a function's variables.
pub fn prologue_code(vars: &Vec<(String, TypeInformation)>) -> (r: Vec<Op>)
    ensures
        ops_view(r@) == prologue_ops(vars_view(vars@)),
{
    let ghost vv = vars_view(vars@);
    let mut ops = empty_ops();
    let mut i: usize = 0;
    proof {
        assert(vv.take(0) =~= Seq::<(Seq<char>, TypeInformation)>::empty());
    }
    while i < vars.len()
        invariant
            i <= vars@.len(),
            vv == vars_view(vars@),
            ops_view(ops@) == prologue_ops(vv.take(i as int)),
            ops@.len() == ops_view(ops@).len(),
        decreases vars@.len() - i,
    {
        proof {
            assert(vv.take(i + 1).drop_last() =~= vv.take(i as int));
        }
        let ghost before = ops_view(ops@);
        let name = &vars[i].0;
        let t = vars[i].1;
        match t {
            TypeInformation::String(_) => {
                push_op(&mut ops, Op::Alloca(name.clone(), IrType::I8Ptr));
                let k = ops.len();
                push_op(&mut ops, Op::MallocEmpty);
                push_op(&mut ops, Op::Store(name.clone(), Val::Op(k)));
            },
            _ => {
                push_op(&mut ops, Op::Alloca(name.clone(), ir_type(t)));
            },
        }
        proof {
            assert(ops_view(ops@) =~= prologue_ops(vv.take(i + 1)));
        }
        i = i + 1;
    }
    proof {
        assert(vv.take(vars@.len() as int) =~= vv);
    }
    ops
}

fn lower_fresh(e: &Expression) -> (r: (Vec<Instr>, usize))
    ensures
        code_view(r.0@) == lower(e@, 0).0,
        r.1 == lower(e@, 0).1,
{
    let mut code: Vec<Instr> = Vec::new();
    proof {
        assert(code_view(code@) =~= Seq::empty());
    }
    let value = lower_expression(e, &mut code);
    proof {
        assert(code_view(code@) =~= lower(e@, 0).0);
    }
    (code, value)
}

fn text_op(t: &str) -> (r: Op)
    ensures
        r@ == OpV::PrintText(t@),
{
    Op::PrintText(crate::text::string_from(t))
}

/// The plan of one statement of a function whose variables are `vars`, in
/// source file `file`. Every expression of the statement must carry its type.
pub fn plan_statement(s: &Statement, vars: &Vec<(String, TypeInformation)>, file: &str) -> (r: Step)
    requires
        stmt_typed(s@, vars_view(vars@)),
    ensures
        step_view(r) == plan_stmt(s@, string_vars(vars_view(vars@)), file@),
    decreases s,
{
    match s {
        Statement::Print(e) => {
            let (code, value) = lower_fresh(e);
            let mut ops = empty_ops();
            let t = *e.type_info();
            let r = match t {
                TypeInformation::Number => {
                    push_op(&mut ops, Op::Print(Format::Decimal, Val::Expr(value)));
                    proof {
                        assert(ops_view(ops@) =~= seq![OpV::Print(Format::Decimal, Val::Expr(value))]);
                    }
                    let r = Step::Straight { code, ops };
                    r
                },
                TypeInformation::String(owned) => {
                    push_op(&mut ops, Op::Print(Format::Text, Val::Expr(value)));
                    if owned {
                        push_op(&mut ops, Op::Free(Val::Expr(value)));
                    }
                    proof {
                        assert(ops_view(ops@) =~= seq![OpV::Print(Format::Text, Val::Expr(value))] + if owned {
                            seq![OpV::Free(Val::Expr(value))]
                        } else {
                            Seq::empty()
                        });
                    }
                    let r = Step::Straight { code, ops };
                    r
                },
                TypeInformation::Boolean => {
                    let mut if_false = empty_ops();
                    push_op(&mut ops, text_op("true"));
                    push_op(&mut if_false, text_op("false"));
                    proof {
                        assert(ops_view(ops@) =~= seq![OpV::PrintText("true"@)]);
                        assert(ops_view(if_false@) =~= seq![OpV::PrintText("false"@)]);
                    }
                    let r = Step::Branch { code, value, if_true: ops, if_false };
                    r
                },
            };
            r
        },
        Statement::Assignment { var_name, expression, .. } => {
            let (code, value) = lower_fresh(expression);
            let ops = store_code(var_name, value, *expression.type_info());
            Step::Straight { code, ops }
        },
        Statement::Return(e) => {
            let (code, value) = lower_fresh(e);
            let strings = string_variables(vars);
            let ops = return_code(value, *e.type_info(), &strings);
            Step::Straight { code, ops }
        },
        Statement::Assert(e) => {
            let (code, value) = lower_fresh(e);
            let if_true = empty_ops();
            let mut if_false = empty_ops();
            push_op(&mut if_false, Op::PrintText(assert_message(e.location().line_start)));
            push_op(&mut if_false, Op::Abort);
            proof {
                assert(ops_view(if_true@) =~= Seq::<OpV>::empty());
                assert(ops_view(if_false@) =~= seq![
                    OpV::PrintText(assert_message_spec(e@.location().line_start as nat)),
                    OpV::Abort,
                ]);
            }
            Step::Branch { code, value, if_true, if_false }
        },
        Statement::Test(name, e) => {
            let (code, value) = lower_fresh(e);
            let label = test_label(name.as_str(), file);
            let mut if_true = empty_ops();
            let mut if_false = empty_ops();
            push_op(&mut if_true, Op::PrintText(test_ok_message(label.as_str())));
            push_op(&mut if_false, Op::PrintText(test_failed_message(label.as_str())));
            push_op(&mut if_false, Op::Abort);
            proof {
                assert(ops_view(if_true@) =~= seq![OpV::PrintText(
                    "\x1b[32mOK "@ + test_label_spec(name@, file@) + "\x1b[0m"@,
                )]);
                assert(ops_view(if_false@) =~= seq![
                    OpV::PrintText("\x1b[31mFAILED "@ + test_label_spec(name@, file@) + "\x1b[0m"@),
                    OpV::Abort,
                ]);
            }
            Step::Branch { code, value, if_true, if_false }
        },
        Statement::If { condition, then, otherwise } => {
            let (code, value) = lower_fresh(condition);
            let then = plan_codebody(then, vars, file);
            let otherwise = plan_codebody(otherwise, vars, file);
            Step::If { code, value, then, otherwise }
        },
    }
}

/// The plans of the statements of a typed body, in order.
pub fn plan_codebody(b: &CodeBody, vars: &Vec<(String, TypeInformation)>, file: &str) -> (r: Vec<Step>)
    requires
        body_typed(b@, vars_view(vars@)),
    ensures
        steps_view(r@) == plan_body(b@, string_vars(vars_view(vars@)), file@),
    decreases b,
{
    let ghost orig = b.0@;
    let ghost strings = string_vars(vars_view(vars@));
    proof {
        lemma_body_view_index(orig);
        assert forall|i: int| 0 <= i < orig.len() implies decreases_to!(*b => #[trigger] orig[i]) by {
            assert(decreases_to!(*b => b.0));
            assert(decreases_to!(b.0 => b.0@));
            assert(decreases_to!(b.0@ => b.0@[i]));
        }
        assert(body_view(orig).take(0) =~= Seq::empty());
    }
    let mut out: Vec<Step> = Vec::new();
    proof {
        assert(steps_view(out@) =~= Seq::empty());
    }
    let n = b.0.len();
    let mut k: usize = 0;
    while k < n
        invariant
            n == orig.len(),
            orig == b.0@,
            k <= n,
            body_view(orig).len() == orig.len(),
            body_typed(body_view(orig), vars_view(vars@)),
            strings == string_vars(vars_view(vars@)),
            forall|i: int| 0 <= i < orig.len() ==> #[trigger] body_view(orig)[i] == orig[i]@,
            forall|i: int| 0 <= i < orig.len() ==> decreases_to!(*b => #[trigger] orig[i]),
            steps_view(out@) == plan_body(body_view(orig).take(k as int), strings, file@),
        decreases n - k,
    {
        proof {
            assert(decreases_to!(*b => orig[k as int]));
            assert(body_view(orig).take(k + 1).drop_last() =~= body_view(orig).take(k as int));
            assert(stmt_typed(body_view(orig)[k as int], vars_view(vars@)));
        }
        let step = plan_statement(&b.0[k], vars, file);
        let ghost before = out@;
        let ghost sv = step_view(step);
        out.push(step);
        proof {
            assert(out@.drop_last() =~= before);
            assert(steps_view(out@) == steps_view(before).push(sv));
        }
        k = k + 1;
    }
    proof {
        assert(body_view(orig).take(n as int) =~= body_view(orig));
    }
    out
}

/// The plan of a whole function: its name and result type, the operations
/// that set up its variables' slots, and the steps of its body.
#[derive(Debug)]
pub struct FunctionPlan {
    pub name: String,
    pub result: IrType,
    pub prologue: Vec<Op>,
    pub steps: Vec<Step>,
}

pub ghost struct FunctionPlanV {
    pub name: Seq<char>,
    pub result: IrType,
    pub prologue: Seq<OpV>,
    pub steps: Seq<StepV>,
}

pub open spec fn function_plan_view(p: FunctionPlan) -> FunctionPlanV {
    FunctionPlanV { name: p.name@, result: p.result, prologue: ops_view(p.prologue@), steps: steps_view(p.steps@) }
}

pub open spec fn plan_function_spec(f: FunctionV, file: Seq<char>) -> FunctionPlanV {
    FunctionPlanV {
        name: f.function_name,
        result: ir_type_spec(f.metadata.return_type->Some_0),
        prologue: prologue_ops(f.metadata.var_types),
        steps: plan_body(f.body, string_vars(f.metadata.var_types), file),
    }
}

/// The plan of a checked function.
pub fn plan_function(f: &TopLevelStatement, file: &str) -> (r: FunctionPlan)
    requires
        function_typed(f@),
    ensures
        function_plan_view(r) == plan_function_spec(f@, file@),
{
    match f {
        TopLevelStatement::FunctionDefinition { function_name, body, metadata, .. } => {
            let result = match metadata.return_type {
                Some(t) => ir_type(t),
                None => vstd::pervasive::unreached(),
            };
            FunctionPlan {
                name: function_name.clone(),
                result,
                prologue: prologue_code(&metadata.var_types),
                steps: plan_codebody(body, &metadata.var_types, file),
            }
        },
    }
}

/// Checks a source text and plans the IR of each of its functions, in order.
pub fn compile_plans(code: &str, file: &str) -> (r: CompilerResult<Vec<FunctionPlan>>)
    requires
        code@.len() < usize::MAX,
    ensures
        match crate::check_source(code@) {
            Ok(fs) => r matches Ok(ps) && ps@.len() == fs.len() && forall|i: int|
                0 <= i < fs.len() ==> function_plan_view(#[trigger] ps@[i]) == plan_function_spec(fs[i], file@),
            Err(e) => r matches Err(x) && x@ == e,
        },
{
    let f = match crate::check_file(code) {
        Ok(f) => f,
        Err(e) => return Err(e),
    };
    proof {
        match crate::check_source(code@) {
            Ok(fs) => crate::typing_laws::lemma_analyzed_file_is_typed(crate::parse_source(code@)->Ok_0),
            Err(_) => {},
        }
    }
    let ghost fs = f@;
    let mut plans: Vec<FunctionPlan> = Vec::new();
    let mut i: usize = 0;
    while i < f.0.len()
        invariant
            i <= f.0@.len(),
            fs == f@,
            fs.len() == f.0@.len(),
            forall|k: int| 0 <= k < fs.len() ==> function_typed(#[trigger] fs[k]),
            plans@.len() == i,
            forall|k: int| 0 <= k < i ==> function_plan_view(#[trigger] plans@[k]) == plan_function_spec(fs[k], file@),
        decreases f.0@.len() - i,
    {
        proof {
            assert(fs[i as int] == f.0@[i as int]@);
        }
        plans.push(plan_function(&f.0[i], file));
        i = i + 1;
    }
    Ok(plans)
}

} // verus!
