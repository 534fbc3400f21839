use vstd::prelude::*;

use crate::ast::{chain_view, Comparison, ExprV, Expression, LiteralType, LiteralV, Operator};
use crate::lowering::{predicate, predicate_spec, IntPredicate};
use crate::types_analyzer::lemma_chain_view_index;

verus! {

broadcast use vstd::seq::group_seq_axioms, vstd::std_specs::vec::group_vec_axioms;

/// One SSA instruction of an expression's code. Instruction `k` of a plan
/// defines value `k`; operands name earlier values by their index.
#[derive(Debug, PartialEq, Eq, Clone)]
pub enum Instr {
    /// An `i32` constant.
    ConstNumber(i32),
    /// An `i1` constant.
    ConstBool(bool),
    /// A pointer to a global null-terminated copy of the text.
    GlobalString(String),
    /// The value in a variable's stack slot.
    LoadVar(String),
    /// `add`, `sub`, `mul` or `sdiv` on `i32`.
    Arith(Operator, usize, usize),
    /// A signed comparison giving an `i1`.
    Compare(IntPredicate, usize, usize),
    /// Bitwise `and` of two `i1`.
    And(usize, usize),
    /// Bitwise `not` of an `i1`.
    Not(usize),
}

pub ghost enum InstrV {
    ConstNumber(i32),
    ConstBool(bool),
    GlobalString(Seq<char>),
    LoadVar(Seq<char>),
    Arith(Operator, nat, nat),
    Compare(IntPredicate, nat, nat),
    And(nat, nat),
    Not(nat),
}

impl View for Instr {
    type V = InstrV;

    open spec fn view(&self) -> InstrV {
        match self {
            Instr::ConstNumber(n) => InstrV::ConstNumber(*n),
            Instr::ConstBool(b) => InstrV::ConstBool(*b),
            Instr::GlobalString(s) => InstrV::GlobalString(s@),
            Instr::LoadVar(s) => InstrV::LoadVar(s@),
            Instr::Arith(op, a, b) => InstrV::Arith(*op, *a as nat, *b as nat),
            Instr::Compare(p, a, b) => InstrV::Compare(*p, *a as nat, *b as nat),
            Instr::And(a, b) => InstrV::And(*a as nat, *b as nat),
            Instr::Not(a) => InstrV::Not(*a as nat),
        }
    }
}

pub open spec fn code_view(code: Seq<Instr>) -> Seq<InstrV> {
    code.map_values(|i: Instr| i@)
}

/// The state of lowering a comparison chain after some of its links: the code
/// so far, the value of the last operand, and the conjunction so far.
pub ghost struct ChainState {
    pub code: Seq<InstrV>,
    pub left: nat,
    pub acc: Option<nat>,
}

/// The code of an expression whose first instruction will be value `base`,
/// and the value that holds its result. Operands come first, left to right.
pub open spec fn lower(e: ExprV, base: nat) -> (Seq<InstrV>, nat)
    decreases e,
{
    match e {
        ExprV::Literal(_, LiteralV::Number(n)) => (seq![InstrV::ConstNumber(n)], base),
        ExprV::Literal(_, LiteralV::Boolean(b)) => (seq![InstrV::ConstBool(b)], base),
        ExprV::Literal(_, LiteralV::String(s)) => (seq![InstrV::GlobalString(s)], base),
        ExprV::Var(_, n) => (seq![InstrV::LoadVar(n)], base),
        ExprV::Binary { left, operator, right, .. } => {
            let (il, rl) = lower(*left, base);
            let (ir, rr) = lower(*right, base + il.len());
            (il + ir + seq![InstrV::Arith(operator, rl, rr)], base + il.len() + ir.len())
        },
        ExprV::PrefixExpression { expression, .. } => {
            let (ix, rx) = lower(*expression, base);
            (ix + seq![InstrV::Not(rx)], base + ix.len())
        },
        ExprV::ComparisonChain { first_element, comparisons, .. } => {
            let (i0, r0) = lower(*first_element, base);
            let st = links(comparisons, base, ChainState { code: i0, left: r0, acc: None });
            (
                st.code,
                match st.acc {
                    Some(a) => a,
                    None => r0,
                },
            )
        },
    }
}

/// The chain state after the links `cs`: each compares the previous operand
/// with the next, and the comparisons are joined by `and`, left to right.
pub open spec fn links(cs: Seq<(Comparison, ExprV)>, base: nat, start: ChainState) -> ChainState
    decreases cs,
{
    if cs.len() == 0 {
        start
    } else {
        let st = links(cs.drop_last(), base, start);
        let (ir, rr) = lower(cs.last().1, base + st.code.len());
        let cmp = base + st.code.len() + ir.len();
        let code = st.code + ir + seq![InstrV::Compare(predicate_spec(cs.last().0), st.left, rr)];
        match st.acc {
            None => ChainState { code, left: rr, acc: Some(cmp) },
            Some(a) => ChainState { code: code + seq![InstrV::And(a, cmp)], left: rr, acc: Some(cmp + 1) },
        }
    }
}

fn emit(code: &mut Vec<Instr>, i: Instr) -> (r: usize)
    ensures
        code_view(final(code)@) == code_view(old(code)@).push(i@),
        final(code)@.len() == old(code)@.len() + 1,
        r == old(code)@.len(),
{
    let r = code.len();
    let ghost before = code@;
    code.push(i);
    proof {
        assert(code_view(code@) =~= code_view(before).push(i@));
    }
    r
}

/// Appends the code of `e` to `code`; returns the value that holds its result.
pub fn lower_expression(e: &Expression, code: &mut Vec<Instr>) -> (r: usize)
    ensures
        code_view(final(code)@) == code_view(old(code)@) + lower(e@, old(code)@.len()).0,
        final(code)@.len() == old(code)@.len() + lower(e@, old(code)@.len()).0.len(),
        r == lower(e@, old(code)@.len()).1,
    decreases e,
{
    let ghost base = code@.len();
    let ghost start = code_view(code@);
    match e {
        Expression::Literal(_, LiteralType::Number(n)) => emit(code, Instr::ConstNumber(*n)),
        Expression::Literal(_, LiteralType::Boolean(b)) => emit(code, Instr::ConstBool(*b)),
        Expression::Literal(_, LiteralType::String(s)) => emit(code, Instr::GlobalString(s.clone())),
        Expression::Var(_, n) => emit(code, Instr::LoadVar(n.clone())),
        Expression::Binary { left, operator, right, .. } => {
            let rl = lower_expression(left, code);
            let ghost mid = code_view(code@);
            let rr = lower_expression(right, code);
            let r = emit(code, Instr::Arith(*operator, rl, rr));
            proof {
                assert(code_view(code@) =~= start + lower(e@, base as nat).0);
            }
            r
        },
        Expression::PrefixExpression { expression, .. } => {
            let rx = lower_expression(expression, code);
            let r = emit(code, Instr::Not(rx));
            proof {
                assert(code_view(code@) =~= start + lower(e@, base as nat).0);
            }
            r
        },
        Expression::ComparisonChain { first_element, comparisons, .. } => {
            let r0 = lower_expression(first_element, code);
            let ghost cv = chain_view(comparisons@);
            proof {
                lemma_chain_view_index(comparisons@);
                assert(cv.take(0) =~= Seq::empty());
                assert forall|i: int| 0 <= i < comparisons@.len() implies decreases_to!(*e => #[trigger] comparisons@[i].1) by {
                    assert(decreases_to!(*e => *comparisons));
                    assert(decreases_to!(*comparisons => comparisons@));
                    assert(decreases_to!(comparisons@ => comparisons@[i]));
                }
            }
            let ghost init = ChainState {
                code: lower(first_element@, base as nat).0,
                left: lower(first_element@, base as nat).1,
                acc: None,
            };
            let mut left = r0;
            let mut acc: Option<usize> = None;
            let n = comparisons.len();
            let mut k: usize = 0;
            while k < n
                invariant
                    n == comparisons@.len(),
                    k <= n,
                    cv == chain_view(comparisons@),
                    cv.len() == n,
                    forall|i: int| 0 <= i < n ==> #[trigger] cv[i] == (comparisons@[i].0, comparisons@[i].1@),
                    base <= code@.len(),
                    code_view(code@).len() == code@.len(),
                    forall|i: int| 0 <= i < comparisons@.len() ==> decreases_to!(*e => #[trigger] comparisons@[i].1),
                    start.len() == base,
                    init == (ChainState {
                        code: lower(first_element@, base as nat).0,
                        left: lower(first_element@, base as nat).1,
                        acc: None,
                    }),
                    ({
                        let st = links(cv.take(k as int), base as nat, init);
                        &&& code_view(code@) == start + st.code
                        &&& left == st.left
                        &&& acc matches Some(a) ==> st.acc == Some(a as nat)
                        &&& acc is None ==> st.acc is None
                    }),
                decreases n - k,
            {
                proof {
                    assert(cv.take(k + 1).drop_last() =~= cv.take(k as int));
                }
                let (c, rhs) = (&comparisons[k].0, &comparisons[k].1);
                proof {
                    assert(decreases_to!(*e => comparisons@[k as int].1));
                }
                let ghost st = links(cv.take(k as int), base as nat, init);
                let ghost before = code_view(code@);
                let ghost low = lower(comparisons@[k as int].1@, code@.len() as nat);
                let rr = lower_expression(rhs, code);
                let ghost after_rhs = code_view(code@);
                let cmp = emit(code, Instr::Compare(predicate(*c), left, rr));
                proof {
                    assert(cv[k as int] == (*c, comparisons@[k as int].1@));
                    assert(cmp == base + st.code.len() + low.0.len());
                }
                acc = match acc {
                    None => Some(cmp),
                    Some(a) => Some(emit(code, Instr::And(a, cmp))),
                };
                left = rr;
                proof {
                    let nst = links(cv.take(k + 1), base as nat, init);
                    assert(nst.code == st.code + low.0 + seq![InstrV::Compare(predicate_spec(*c), st.left, low.1)]
                        + (if st.acc is None { Seq::<InstrV>::empty() } else { seq![InstrV::And(st.acc->Some_0, cmp as nat)] })) by {
                        if st.acc is None {
                            assert(st.code + low.0 + seq![InstrV::Compare(predicate_spec(*c), st.left, low.1)] =~= st.code + low.0 + seq![InstrV::Compare(predicate_spec(*c), st.left, low.1)] + Seq::<InstrV>::empty());
                        }
                    }
                    assert(code_view(code@) =~= start + nst.code);
                }
                k = k + 1;
            }
            proof {
                assert(cv.take(n as int) =~= cv);
            }
            match acc {
                Some(a) => a,
                None => r0,
            }
        },
    }
}

} // verus!
