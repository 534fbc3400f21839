use vstd::prelude::*;

use crate::ast::{
    body_view, chain_view, expr_view, CodeBody, Comparison, ExprV, Expression, ExpressionMetadata,
    LiteralType, LiteralV, PrefixOprator, Statement, StmtV,
};
use crate::errors::{error_at, CompileError, CompileErrorV, CompilerResult, ErrorKind, ErrorKindV};
use crate::source_location::SourceLocation;
use crate::types::{same_type_spec, TypeInformation};

verus! {

broadcast use vstd::seq::group_seq_axioms, vstd::std_specs::vec::group_vec_axioms;

/// The variables of a function and their types, in order of first assignment.
pub type VarsV = Seq<(Seq<char>, TypeInformation)>;

pub open spec fn lookup(vars: VarsV, n: Seq<char>) -> Option<TypeInformation>
    decreases vars.len(),
{
    if vars.len() == 0 {
        None
    } else if vars.last().0 == n {
        Some(vars.last().1)
    } else {
        lookup(vars.drop_last(), n)
    }
}

pub open spec fn typed(m: ExpressionMetadata, t: TypeInformation) -> ExpressionMetadata {
    ExpressionMetadata { location: m.location, type_information: Some(t) }
}

/// The type recorded on an expression.
pub open spec fn ty(e: ExprV) -> TypeInformation {
    e.metadata().type_information->Some_0
}

pub open spec fn literal_type(l: LiteralV) -> TypeInformation {
    match l {
        LiteralV::Number(_) => TypeInformation::Number,
        LiteralV::String(_) => TypeInformation::String(false),
        LiteralV::Boolean(_) => TypeInformation::Boolean,
    }
}

/// Arithmetic: both operands of one type, and that type must be `Number`.
pub open spec fn binary_verdict(l: ExprV, r: ExprV) -> Option<CompileErrorV> {
    let at = SourceLocation::union(l.location(), r.location());
    if !same_type_spec(ty(l), ty(r)) {
        Some(error_at(at, ErrorKindV::TypeMismatch { expected: ty(l), got: ty(r) }))
    } else if ty(l) != TypeInformation::Number {
        Some(error_at(at, ErrorKindV::IllegalOperator(ty(l))))
    } else {
        None
    }
}

/// A comparison chain: every member of the first member's type, which must be `Number`.
pub open spec fn chain_verdict(first: ExprV, cs: Seq<(Comparison, ExprV)>, at: SourceLocation) -> Option<CompileErrorV>
    decreases cs.len(),
{
    if cs.len() == 0 {
        None
    } else {
        match chain_verdict(first, cs.drop_last(), at) {
            Some(e) => Some(e),
            None => {
                let v = cs.last().1;
                if !same_type_spec(ty(first), ty(v)) {
                    Some(
                        error_at(
                            SourceLocation::union(first.location(), v.location()),
                            ErrorKindV::TypeMismatch { expected: ty(first), got: ty(v) },
                        ),
                    )
                } else if ty(first) != TypeInformation::Number {
                    Some(error_at(at, ErrorKindV::IllegalOperator(ty(first))))
                } else {
                    None
                }
            },
        }
    }
}

/// The annotated form of an expression: children first, then the node.
pub open spec fn check_expr(e: ExprV, vars: VarsV) -> Result<ExprV, CompileErrorV>
    decreases e,
{
    match e {
        ExprV::Literal(m, l) => Ok(ExprV::Literal(typed(m, literal_type(l)), l)),
        ExprV::Var(m, n) => match lookup(vars, n) {
            Some(t) => Ok(ExprV::Var(typed(m, t), n)),
            None => Err(error_at(m.location, ErrorKindV::UndefinedName(n))),
        },
        ExprV::Binary { left, operator, right, metadata } => match check_expr(*left, vars) {
            Ok(l) => match check_expr(*right, vars) {
                Ok(r) => match binary_verdict(l, r) {
                    Some(err) => Err(err),
                    None => Ok(
                        ExprV::Binary {
                            left: Box::new(l),
                            operator,
                            right: Box::new(r),
                            metadata: typed(metadata, TypeInformation::Number),
                        },
                    ),
                },
                Err(err) => Err(err),
            },
            Err(err) => Err(err),
        },
        ExprV::ComparisonChain { first_element, comparisons, metadata } => match check_expr(
            *first_element,
            vars,
        ) {
            Ok(f) => match check_chain(comparisons, vars) {
                Ok(cs) => match chain_verdict(f, cs, metadata.location) {
                    Some(err) => Err(err),
                    None => Ok(
                        ExprV::ComparisonChain {
                            first_element: Box::new(f),
                            comparisons: cs,
                            metadata: typed(metadata, TypeInformation::Boolean),
                        },
                    ),
                },
                Err(err) => Err(err),
            },
            Err(err) => Err(err),
        },
        ExprV::PrefixExpression { op, expression, metadata } => match check_expr(*expression, vars) {
            Ok(x) => if ty(x) == TypeInformation::Boolean {
                Ok(
                    ExprV::PrefixExpression {
                        op,
                        expression: Box::new(x),
                        metadata: typed(metadata, TypeInformation::Boolean),
                    },
                )
            } else {
                Err(error_at(x.location(), ErrorKindV::IllegalOperator(ty(x))))
            },
            Err(err) => Err(err),
        },
    }
}

/// The annotated members of a comparison chain, in order.
pub open spec fn check_chain(cs: Seq<(Comparison, ExprV)>, vars: VarsV) -> Result<Seq<(Comparison, ExprV)>, CompileErrorV>
    decreases cs,
{
    if cs.len() == 0 {
        Ok(Seq::empty())
    } else {
        match check_chain(cs.drop_last(), vars) {
            Ok(done) => match check_expr(cs.last().1, vars) {
                Ok(x) => Ok(done.push((cs.last().0, x))),
                Err(err) => Err(err),
            },
            Err(err) => Err(err),
        }
    }
}

/// A statement checked against the variables so far and the return type: the
/// annotated statement and the variables after it.
pub open spec fn check_stmt(s: StmtV, vars: VarsV, ret: TypeInformation) -> Result<(StmtV, VarsV), CompileErrorV>
    decreases s,
{
    match s {
        StmtV::Print(e) => match check_expr(e, vars) {
            Ok(x) => Ok((StmtV::Print(x), vars)),
            Err(err) => Err(err),
        },
        StmtV::Assert(e) => match check_expr(e, vars) {
            Ok(x) => if ty(x) == TypeInformation::Boolean {
                Ok((StmtV::Assert(x), vars))
            } else {
                Err(error_at(x.location(), ErrorKindV::BadAssertType(ty(x))))
            },
            Err(err) => Err(err),
        },
        StmtV::Test(n, e) => match check_expr(e, vars) {
            Ok(x) => if ty(x) == TypeInformation::Boolean {
                Ok((StmtV::Test(n, x), vars))
            } else {
                Err(error_at(x.location(), ErrorKindV::BadAssertType(ty(x))))
            },
            Err(err) => Err(err),
        },
        StmtV::Assignment { expression_location, var_name, expression } => match check_expr(
            expression,
            vars,
        ) {
            Ok(x) => {
                let st = StmtV::Assignment { expression_location, var_name, expression: x };
                match lookup(vars, var_name) {
                    None => Ok((st, vars.push((var_name, ty(x).borrowed())))),
                    Some(t) => if same_type_spec(t, ty(x)) {
                        Ok((st, vars))
                    } else {
                        Err(error_at(x.location(), ErrorKindV::TypeMismatch { expected: t, got: ty(x) }))
                    },
                }
            },
            Err(err) => Err(err),
        },
        StmtV::Return(e) => match check_expr(e, vars) {
            Ok(x) => if same_type_spec(ret, ty(x)) {
                Ok((StmtV::Return(x), vars))
            } else {
                Err(error_at(x.location(), ErrorKindV::TypeMismatch { expected: ret, got: ty(x) }))
            },
            Err(err) => Err(err),
        },
        StmtV::If { condition, then, otherwise } => match check_expr(condition, vars) {
            Ok(c) => match check_body(then, vars, ret) {
                Ok((t2, v1)) => match check_body(otherwise, v1, ret) {
                    Ok((o2, v2)) => if ty(c) == TypeInformation::Boolean {
                        Ok((StmtV::If { condition: c, then: t2, otherwise: o2 }, v2))
                    } else {
                        Err(error_at(c.location(), ErrorKindV::BadIfCondition(ty(c))))
                    },
                    Err(err) => Err(err),
                },
                Err(err) => Err(err),
            },
            Err(err) => Err(err),
        },
    }
}

/// The statements of a body checked in order, threading the variables through.
pub open spec fn check_body(ss: Seq<StmtV>, vars: VarsV, ret: TypeInformation) -> Result<(Seq<StmtV>, VarsV), CompileErrorV>
    decreases ss,
{
    if ss.len() == 0 {
        Ok((Seq::empty(), vars))
    } else {
        match check_body(ss.drop_last(), vars, ret) {
            Ok((done, v1)) => match check_stmt(ss.last(), v1, ret) {
                Ok((s2, v2)) => Ok((done.push(s2), v2)),
                Err(err) => Err(err),
            },
            Err(err) => Err(err),
        }
    }
}


/// `chain_view` is taken member by member.
pub proof fn lemma_chain_view_index(cs: Seq<(Comparison, Expression)>)
    ensures
        chain_view(cs).len() == cs.len(),
        forall|i: int| 0 <= i < cs.len() ==> #[trigger] chain_view(cs)[i] == (cs[i].0, cs[i].1@),
    decreases cs.len(),
{
    if cs.len() > 0 {
        lemma_chain_view_index(cs.drop_last());
    }
}

/// `body_view` is taken statement by statement.
pub proof fn lemma_body_view_index(ss: Seq<Statement>)
    ensures
        body_view(ss).len() == ss.len(),
        forall|i: int| 0 <= i < ss.len() ==> #[trigger] body_view(ss)[i] == ss[i]@,
    decreases ss.len(),
{
    if ss.len() > 0 {
        lemma_body_view_index(ss.drop_last());
    }
}

/// An error in checking a prefix of a chain is the error of the whole chain.
pub proof fn lemma_check_chain_prefix(s: Seq<(Comparison, ExprV)>, vars: VarsV, j: int)
    requires
        0 <= j <= s.len(),
        check_chain(s.take(j), vars) is Err,
    ensures
        check_chain(s, vars) == check_chain(s.take(j), vars),
    decreases s.len() - j,
{
    if j < s.len() {
        assert(s.take(j + 1).drop_last() =~= s.take(j));
        lemma_check_chain_prefix(s, vars, j + 1);
    } else {
        assert(s.take(j) =~= s);
    }
}

/// A verdict against a prefix of a chain is the verdict against the whole chain.
pub proof fn lemma_chain_verdict_prefix(f: ExprV, s: Seq<(Comparison, ExprV)>, at: SourceLocation, j: int)
    requires
        0 <= j <= s.len(),
        chain_verdict(f, s.take(j), at) is Some,
    ensures
        chain_verdict(f, s, at) == chain_verdict(f, s.take(j), at),
    decreases s.len() - j,
{
    if j < s.len() {
        assert(s.take(j + 1).drop_last() =~= s.take(j));
        lemma_chain_verdict_prefix(f, s, at, j + 1);
    } else {
        assert(s.take(j) =~= s);
    }
}

/// An error in checking a prefix of a body is the error of the whole body.
pub proof fn lemma_check_body_prefix(s: Seq<StmtV>, vars: VarsV, ret: TypeInformation, j: int)
    requires
        0 <= j <= s.len(),
        check_body(s.take(j), vars, ret) is Err,
    ensures
        check_body(s, vars, ret) == check_body(s.take(j), vars, ret),
    decreases s.len() - j,
{
    if j < s.len() {
        assert(s.take(j + 1).drop_last() =~= s.take(j));
        lemma_check_body_prefix(s, vars, ret, j + 1);
    } else {
        assert(s.take(j) =~= s);
    }
}

pub open spec fn stmt_agrees(r: CompilerResult<Statement>, s: Result<(StmtV, VarsV), CompileErrorV>, vars: VarsV) -> bool {
    match r {
        Ok(x) => s == Ok::<(StmtV, VarsV), CompileErrorV>((x@, vars)),
        Err(e) => s == Err::<(StmtV, VarsV), CompileErrorV>(e@),
    }
}

pub open spec fn body_agrees(r: CompilerResult<CodeBody>, s: Result<(Seq<StmtV>, VarsV), CompileErrorV>, vars: VarsV) -> bool {
    match r {
        Ok(x) => s == Ok::<(Seq<StmtV>, VarsV), CompileErrorV>((x@, vars)),
        Err(e) => s == Err::<(Seq<StmtV>, VarsV), CompileErrorV>(e@),
    }
}

/// How an exec check of an expression corresponds to `check_expr`.
pub open spec fn expr_agrees(r: CompilerResult<Expression>, s: Result<ExprV, CompileErrorV>) -> bool {
    match r {
        Ok(x) => s == Ok::<ExprV, CompileErrorV>(x@),
        Err(e) => s == Err::<ExprV, CompileErrorV>(e@),
    }
}

fn with_type(m: ExpressionMetadata, t: TypeInformation) -> (r: ExpressionMetadata)
    ensures
        r == typed(m, t),
{
    ExpressionMetadata { location: m.location, type_information: Some(t) }
}

/// The type pass: annotates every expression with its type and records the
/// type of every variable of the function being checked.
pub struct TypeAnalyzer {
    pub var_types: Vec<(String, TypeInformation)>,
    pub return_type: TypeInformation,
}

impl TypeAnalyzer {
    pub open spec fn vars(&self) -> VarsV {
        crate::ast::vars_view(self.var_types@)
    }

    pub fn new() -> (r: Self)
        ensures
            r.vars() == Seq::<(Seq<char>, TypeInformation)>::empty(),
    {
        let r = Self { var_types: Vec::new(), return_type: TypeInformation::Number };
        proof {
            assert(r.vars() =~= Seq::empty());
        }
        r
    }

    fn lookup(&self, n: &String) -> (r: Option<TypeInformation>)
        ensures
            r == lookup(self.vars(), n@),
    {
        let mut k = self.var_types.len();
        proof {
            assert(self.vars().take(k as int) =~= self.vars());
        }
        while k > 0
            invariant
                k <= self.var_types.len(),
                lookup(self.vars(), n@) == lookup(self.vars().take(k as int), n@),
            decreases k,
        {
            let ghost prefix = self.vars().take(k as int);
            proof {
                assert(prefix.drop_last() =~= self.vars().take(k - 1));
            }
            if self.var_types[k - 1].0 == *n {
                return Some(self.var_types[k - 1].1);
            }
            k = k - 1;
        }
        None
    }

    fn type_of(e: &Expression) -> (r: TypeInformation)
        requires
            e@.metadata().type_information is Some,
        ensures
            r == ty(e@),
    {
        *e.type_info()
    }

    /// Annotates an expression, children first.
    pub fn visit_expression(&self, e: Expression) -> (r: CompilerResult<Expression>)
        ensures
            expr_agrees(r, check_expr(e@, self.vars())),
            r matches Ok(x) ==> x@.metadata().type_information is Some,
        decreases e,
    {
        let ghost eg = e;
        match e {
            Expression::Literal(m, l) => {
                let t = match &l {
                    LiteralType::Number(_) => TypeInformation::Number,
                    LiteralType::String(_) => TypeInformation::String(false),
                    LiteralType::Boolean(_) => TypeInformation::Boolean,
                };
                Ok(Expression::Literal(with_type(m, t), l))
            },
            Expression::Var(m, n) => match self.lookup(&n) {
                Some(t) => Ok(Expression::Var(with_type(m, t), n)),
                None => Err(CompileError { location: m.location, kind: ErrorKind::UndefinedName(n) }),
            },
            Expression::Binary { left, operator, right, metadata } => {
                let l = match self.visit_expression(*left) {
                    Ok(x) => x,
                    Err(err) => return Err(err),
                };
                let r = match self.visit_expression(*right) {
                    Ok(x) => x,
                    Err(err) => return Err(err),
                };
                let lt = Self::type_of(&l);
                let rt = Self::type_of(&r);
                let at = SourceLocation::combine(l.location(), r.location());
                if !TypeInformation::same_type(lt, rt) {
                    return Err(CompileError { location: at, kind: ErrorKind::TypeMismatch { expected: lt, got: rt } });
                }
                match lt {
                    TypeInformation::Number => Ok(
                        Expression::Binary {
                            left: Box::new(l),
                            operator,
                            right: Box::new(r),
                            metadata: with_type(metadata, TypeInformation::Number),
                        },
                    ),
                    _ => Err(CompileError { location: at, kind: ErrorKind::IllegalOperator(lt) }),
                }
            },
            Expression::ComparisonChain { first_element, comparisons, metadata } => {
                let ghost cv = comparisons;
                let ghost fv = first_element@;
                let f = match self.visit_expression(*first_element) {
                    Ok(x) => x,
                    Err(err) => return Err(err),
                };
                let ghost orig = comparisons@;
                proof {
                    assert(eg@ == ExprV::ComparisonChain {
                        first_element: Box::new(fv),
                        comparisons: chain_view(orig),
                        metadata,
                    });
                    assert(check_expr(fv, self.vars()) == Ok::<ExprV, CompileErrorV>(f@));
                    let ce = ExprV::ComparisonChain { first_element: Box::new(fv), comparisons: chain_view(orig), metadata };
                    assert(check_expr(eg@, self.vars()) == check_expr(ce, self.vars()));
                    assert(check_expr(ce, self.vars()) == match check_chain(chain_view(orig), self.vars()) {
                        Ok(cs) => match chain_verdict(f@, cs, metadata.location) {
                            Some(err) => Err(err),
                            None => Ok(ExprV::ComparisonChain {
                                first_element: Box::new(f@),
                                comparisons: cs,
                                metadata: typed(metadata, TypeInformation::Boolean),
                            }),
                        },
                        Err(err) => Err(err),
                    });
                    lemma_chain_view_index(orig);
                    assert forall|i: int| 0 <= i < orig.len() implies decreases_to!(eg => #[trigger] orig[i].1) by {
                        assert(decreases_to!(eg => cv));
                        assert(decreases_to!(cv => cv@));
                        assert(decreases_to!(cv@ => cv@[i]));
                    }
                }
                let mut rest = comparisons;
                let mut done: Vec<(Comparison, Expression)> = Vec::new();
                let n = rest.len();
                let mut k: usize = 0;
                proof {
                    assert(chain_view(orig).take(0) =~= Seq::empty());
                    assert(chain_view(done@) =~= Seq::empty());
                }
                while k < n
                    invariant
                        n == orig.len(),
                        k <= n,
                        rest@ == orig.skip(k as int),
                        chain_view(orig).len() == orig.len(),
                        forall|i: int| 0 <= i < orig.len() ==> #[trigger] chain_view(orig)[i] == (orig[i].0, orig[i].1@),
                        check_chain(chain_view(orig).take(k as int), self.vars()) == Ok::<Seq<(Comparison, ExprV)>, CompileErrorV>(chain_view(done@)),
                        done@.len() == k,
                        forall|i: int| 0 <= i < done@.len() ==> (#[trigger] done@[i]).1@.metadata().type_information is Some,
                        forall|i: int| 0 <= i < orig.len() ==> decreases_to!(eg => #[trigger] orig[i].1),
                        eg == e,
                        eg@ == (ExprV::ComparisonChain { first_element: Box::new(fv), comparisons: chain_view(orig), metadata }),
                        check_expr(fv, self.vars()) == Ok::<ExprV, CompileErrorV>(f@),
                    decreases n - k,
                {
                    let item = rest.remove(0);
                    proof {
                        assert(item == orig[k as int]);
                        assert(decreases_to!(eg => orig[k as int].1));
                        assert(decreases_to!(eg => item.1));
                        assert(chain_view(orig).take(k + 1).drop_last() =~= chain_view(orig).take(k as int));
                    }
                    let x = match self.visit_expression(item.1) {
                        Ok(x) => x,
                        Err(err) => {
                            proof {
                                lemma_check_chain_prefix(chain_view(orig), self.vars(), k + 1);
                            }
                            return Err(err);
                        },
                    };
                    let ghost before = done@;
                    let ghost xv = x@;
                    let comp = item.0;
                    done.push((comp, x));
                    proof {
                        assert(done@.drop_last() =~= before);
                        assert(chain_view(done@) == chain_view(before).push((comp, xv)));
                    }
                    k = k + 1;
                }
                proof {
                    assert(chain_view(orig).take(n as int) =~= chain_view(orig));
                    lemma_chain_view_index(done@);
                }
                let ghost dv = chain_view(done@);
                proof {
                    let ce = ExprV::ComparisonChain { first_element: Box::new(fv), comparisons: chain_view(orig), metadata };
                    assert(check_expr(ce, self.vars()) == match chain_verdict(f@, dv, metadata.location) {
                        Some(err) => Err(err),
                        None => Ok(ExprV::ComparisonChain {
                            first_element: Box::new(f@),
                            comparisons: dv,
                            metadata: typed(metadata, TypeInformation::Boolean),
                        }),
                    });
                }
                let ft = Self::type_of(&f);
                let mut j: usize = 0;
                proof {
                    assert(dv.take(0) =~= Seq::empty());
                }
                while j < n
                    invariant
                        n == done@.len(),
                        j <= n,
                        dv == chain_view(done@),
                        dv.len() == n,
                        forall|i: int| 0 <= i < n ==> #[trigger] dv[i] == (done@[i].0, done@[i].1@),
                        forall|i: int| 0 <= i < done@.len() ==> (#[trigger] done@[i]).1@.metadata().type_information is Some,
                        chain_verdict(f@, dv.take(j as int), metadata.location) is None,
                        ft == ty(f@),
                        eg@ == (ExprV::ComparisonChain { first_element: Box::new(fv), comparisons: chain_view(orig), metadata }),
                        check_expr(fv, self.vars()) == Ok::<ExprV, CompileErrorV>(f@),
                        check_chain(chain_view(orig), self.vars()) == Ok::<Seq<(Comparison, ExprV)>, CompileErrorV>(dv),
                        eg == e,
                        check_expr(eg@, self.vars()) == match chain_verdict(f@, dv, metadata.location) {
                            Some(err) => Err(err),
                            None => Ok(ExprV::ComparisonChain {
                                first_element: Box::new(f@),
                                comparisons: dv,
                                metadata: typed(metadata, TypeInformation::Boolean),
                            }),
                        },
                    decreases n - j,
                {
                    let xt = Self::type_of(&done[j].1);
                    proof {
                        assert(dv.take(j + 1).drop_last() =~= dv.take(j as int));
                        assert(dv.take(j + 1).last() == dv[j as int]);
                    }
                    if !TypeInformation::same_type(ft, xt) {
                        proof {
                            lemma_chain_verdict_prefix(f@, dv, metadata.location, j + 1);
                        }
                        return Err(CompileError {
                            location: SourceLocation::combine(f.location(), done[j].1.location()),
                            kind: ErrorKind::TypeMismatch { expected: ft, got: xt },
                        });
                    }
                    match ft {
                        TypeInformation::Number => {},
                        _ => {
                            proof {
                                lemma_chain_verdict_prefix(f@, dv, metadata.location, j + 1);
                            }
                            return Err(CompileError { location: metadata.location, kind: ErrorKind::IllegalOperator(ft) });
                        },
                    }
                    j = j + 1;
                }
                proof {
                    assert(dv.take(n as int) =~= dv);
                }
                Ok(
                    Expression::ComparisonChain {
                        first_element: Box::new(f),
                        comparisons: done,
                        metadata: with_type(metadata, TypeInformation::Boolean),
                    },
                )
            },
            Expression::PrefixExpression { op, expression, metadata } => {
                let x = match self.visit_expression(*expression) {
                    Ok(x) => x,
                    Err(err) => return Err(err),
                };
                let t = Self::type_of(&x);
                match t {
                    TypeInformation::Boolean => Ok(
                        Expression::PrefixExpression {
                            op,
                            expression: Box::new(x),
                            metadata: with_type(metadata, TypeInformation::Boolean),
                        },
                    ),
                    _ => Err(CompileError { location: *x.location(), kind: ErrorKind::IllegalOperator(t) }),
                }
            },
        }
    }

    /// Checks a statement and records the variables it assigns.
    pub fn visit_stmt(&mut self, st: Statement) -> (r: CompilerResult<Statement>)
        ensures
            final(self).return_type == old(self).return_type,
            stmt_agrees(r, check_stmt(st@, old(self).vars(), old(self).return_type), final(self).vars()),
            r is Err && !(st@ is If) ==> final(self).vars() == old(self).vars(),
        decreases st,
    {
        match st {
            Statement::Print(e) => match self.visit_expression(e) {
                Ok(x) => Ok(Statement::Print(x)),
                Err(err) => Err(err),
            },
            Statement::Assert(e) => match self.visit_expression(e) {
                Ok(x) => {
                    let t = Self::type_of(&x);
                    match t {
                        TypeInformation::Boolean => Ok(Statement::Assert(x)),
                        _ => Err(CompileError { location: *x.location(), kind: ErrorKind::BadAssertType(t) }),
                    }
                },
                Err(err) => Err(err),
            },
            Statement::Test(n, e) => match self.visit_expression(e) {
                Ok(x) => {
                    let t = Self::type_of(&x);
                    match t {
                        TypeInformation::Boolean => Ok(Statement::Test(n, x)),
                        _ => Err(CompileError { location: *x.location(), kind: ErrorKind::BadAssertType(t) }),
                    }
                },
                Err(err) => Err(err),
            },
            Statement::Assignment { expression_location, var_name, expression } => {
                let x = match self.visit_expression(expression) {
                    Ok(x) => x,
                    Err(err) => return Err(err),
                };
                let t = Self::type_of(&x);
                match self.lookup(&var_name) {
                    None => {
                        let ghost before = self.var_types@;
                        self.var_types.push((var_name.clone(), t.mark_borrowed()));
                        proof {
                            assert(self.vars() =~= crate::ast::vars_view(before).push((var_name@, t.borrowed())));
                        }
                        Ok(Statement::Assignment { expression_location, var_name, expression: x })
                    },
                    Some(expected) => {
                        if TypeInformation::same_type(expected, t) {
                            Ok(Statement::Assignment { expression_location, var_name, expression: x })
                        } else {
                            Err(CompileError { location: *x.location(), kind: ErrorKind::TypeMismatch { expected, got: t } })
                        }
                    },
                }
            },
            Statement::Return(e) => match self.visit_expression(e) {
                Ok(x) => {
                    let t = Self::type_of(&x);
                    if TypeInformation::same_type(self.return_type, t) {
                        Ok(Statement::Return(x))
                    } else {
                        Err(CompileError {
                            location: *x.location(),
                            kind: ErrorKind::TypeMismatch { expected: self.return_type, got: t },
                        })
                    }
                },
                Err(err) => Err(err),
            },
            Statement::If { condition, then, otherwise } => {
                let c = match self.visit_expression(condition) {
                    Ok(x) => x,
                    Err(err) => return Err(err),
                };
                let t2 = match self.visit_body(then) {
                    Ok(x) => x,
                    Err(err) => return Err(err),
                };
                let o2 = match self.visit_body(otherwise) {
                    Ok(x) => x,
                    Err(err) => return Err(err),
                };
                let t = Self::type_of(&c);
                match t {
                    TypeInformation::Boolean => Ok(Statement::If { condition: c, then: t2, otherwise: o2 }),
                    _ => Err(CompileError { location: *c.location(), kind: ErrorKind::BadIfCondition(t) }),
                }
            },
        }
    }

    /// Checks the statements of a body in order.
    pub fn visit_body(&mut self, b: CodeBody) -> (r: CompilerResult<CodeBody>)
        ensures
            final(self).return_type == old(self).return_type,
            body_agrees(r, check_body(b@, old(self).vars(), old(self).return_type), final(self).vars()),
        decreases b,
    {
        let ghost bg = b;
        let ghost orig = b.0@;
        let ghost vars0 = self.vars();
        let ret = self.return_type;
        proof {
            lemma_body_view_index(orig);
            assert forall|i: int| 0 <= i < orig.len() implies decreases_to!(bg => #[trigger] orig[i]) by {
                assert(decreases_to!(bg => bg.0));
                assert(decreases_to!(bg.0 => bg.0@));
                assert(decreases_to!(bg.0@ => bg.0@[i]));
            }
            assert(body_view(orig).take(0) =~= Seq::empty());
        }
        let mut rest = b.0;
        let mut done: Vec<Statement> = Vec::new();
        proof {
            assert(body_view(done@) =~= Seq::empty());
        }
        let n = rest.len();
        let mut k: usize = 0;
        while k < n
            invariant
                bg == b,
                ret == old(self).return_type,
                vars0 == old(self).vars(),
                orig == b.0@,
                n == orig.len(),
                k <= n,
                rest@ == orig.skip(k as int),
                self.return_type == ret,
                body_view(orig).len() == orig.len(),
                forall|i: int| 0 <= i < orig.len() ==> #[trigger] body_view(orig)[i] == orig[i]@,
                check_body(body_view(orig).take(k as int), vars0, ret) == Ok::<(Seq<StmtV>, VarsV), CompileErrorV>((body_view(done@), self.vars())),
                forall|i: int| 0 <= i < orig.len() ==> decreases_to!(bg => #[trigger] orig[i]),
            decreases n - k,
        {
            let item = rest.remove(0);
            proof {
                assert(item == orig[k as int]);
                assert(decreases_to!(bg => item));
                assert(body_view(orig).take(k + 1).drop_last() =~= body_view(orig).take(k as int));
            }
            let x = match self.visit_stmt(item) {
                Ok(x) => x,
                Err(err) => {
                    proof {
                        lemma_check_body_prefix(body_view(orig), vars0, ret, k + 1);
                    }
                    return Err(err);
                },
            };
            let ghost before = done@;
            let ghost xv = x@;
            done.push(x);
            proof {
                assert(done@.drop_last() =~= before);
                assert(body_view(done@) == body_view(before).push(xv));
            }
            k = k + 1;
        }
        proof {
            assert(body_view(orig).take(n as int) =~= body_view(orig));
        }
        Ok(CodeBody(done))
    }
}

} // verus!
