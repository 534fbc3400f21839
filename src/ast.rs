use vstd::prelude::*;

use crate::source_location::SourceLocation;
use crate::types::TypeInformation;

verus! {

broadcast use vstd::std_specs::vec::group_vec_axioms, vstd::seq::group_seq_axioms;

/// A whole program: a list of top-level definitions.
#[derive(Debug)]
pub struct File(pub Vec<TopLevelStatement>);

#[derive(Debug)]
pub enum TopLevelStatement {
    FunctionDefinition {
        function_name: String,
        body: CodeBody,
        return_type_name: String,
        return_type_location: SourceLocation,
        metadata: FunctionMetadata,
    },
}

/// What the semantic passes learn of a function: the type of each variable, in
/// order of first assignment, and the return type.
#[derive(Debug)]
pub struct FunctionMetadata {
    pub var_types: Vec<(String, TypeInformation)>,
    pub return_type: Option<TypeInformation>,
}

/// A sequence of statements.
#[derive(Debug)]
pub struct CodeBody(pub Vec<Statement>);

#[derive(Debug)]
pub enum Statement {
    /// Prints the value of an expression.
    Print(Expression),
    /// Aborts the program when the expression is false.
    Assert(Expression),
    /// Reports whether the expression holds, under a name.
    Test(String, Expression),
    /// Stores the value of the expression in the named variable.
    Assignment { expression_location: SourceLocation, var_name: String, expression: Expression },
    Return(Expression),
    If { condition: Expression, then: CodeBody, otherwise: CodeBody },
}

#[derive(Debug)]
pub enum Expression {
    /// A constant.
    Literal(ExpressionMetadata, LiteralType),
    /// Two operands and an arithmetic operator.
    Binary {
        left: Box<Expression>,
        operator: Operator,
        right: Box<Expression>,
        metadata: ExpressionMetadata,
    },
    /// `a < b <= c` means `a < b` and `b <= c`.
    ComparisonChain {
        first_element: Box<Expression>,
        comparisons: Vec<(Comparison, Expression)>,
        metadata: ExpressionMetadata,
    },
    PrefixExpression { op: PrefixOprator, expression: Box<Expression>, metadata: ExpressionMetadata },
    /// The value of a variable.
    Var(ExpressionMetadata, String),
}

/// The span of an expression, and its type once the type pass has run.
#[derive(Debug, PartialEq, Eq, Clone, Copy, Structural)]
pub struct ExpressionMetadata {
    pub location: SourceLocation,
    pub type_information: Option<TypeInformation>,
}

#[derive(Debug, PartialEq, Eq, Clone, Copy, Structural)]
pub enum Operator {
    Add,
    Sub,
    Mul,
    Div,
}

#[derive(Debug, PartialEq, Eq, Clone, Copy, Structural)]
pub enum Comparison {
    Equal,
    NotEqual,
    GreaterThan,
    GreaterThanEqual,
    LessThan,
    LessThanEqual,
}

#[derive(Debug, PartialEq, Eq, Clone, Copy, Structural)]
pub enum PrefixOprator {
    Not,
}

#[derive(Debug)]
pub enum LiteralType {
    Number(i32),
    String(String),
    Boolean(bool),
}

// ---------------------------------------------------------------------------
// Mathematical forms.
// ---------------------------------------------------------------------------

pub ghost enum LiteralV {
    Number(i32),
    String(Seq<char>),
    Boolean(bool),
}

pub ghost enum ExprV {
    Literal(ExpressionMetadata, LiteralV),
    Binary { left: Box<ExprV>, operator: Operator, right: Box<ExprV>, metadata: ExpressionMetadata },
    ComparisonChain {
        first_element: Box<ExprV>,
        comparisons: Seq<(Comparison, ExprV)>,
        metadata: ExpressionMetadata,
    },
    PrefixExpression { op: PrefixOprator, expression: Box<ExprV>, metadata: ExpressionMetadata },
    Var(ExpressionMetadata, Seq<char>),
}

pub ghost enum StmtV {
    Print(ExprV),
    Assert(ExprV),
    Test(Seq<char>, ExprV),
    Assignment { expression_location: SourceLocation, var_name: Seq<char>, expression: ExprV },
    Return(ExprV),
    If { condition: ExprV, then: Seq<StmtV>, otherwise: Seq<StmtV> },
}

pub ghost struct MetaV {
    pub var_types: Seq<(Seq<char>, TypeInformation)>,
    pub return_type: Option<TypeInformation>,
}

pub ghost struct FunctionV {
    pub function_name: Seq<char>,
    pub body: Seq<StmtV>,
    pub return_type_name: Seq<char>,
    pub return_type_location: SourceLocation,
    pub metadata: MetaV,
}

impl View for LiteralType {
    type V = LiteralV;

    open spec fn view(&self) -> LiteralV {
        match self {
            LiteralType::Number(n) => LiteralV::Number(*n),
            LiteralType::String(s) => LiteralV::String(s@),
            LiteralType::Boolean(b) => LiteralV::Boolean(*b),
        }
    }
}

pub open spec fn expr_view(e: Expression) -> ExprV
    decreases e,
{
    match e {
        Expression::Literal(m, l) => ExprV::Literal(m, l@),
        Expression::Binary { left, operator, right, metadata } => ExprV::Binary {
            left: Box::new(expr_view(*left)),
            operator,
            right: Box::new(expr_view(*right)),
            metadata,
        },
        Expression::ComparisonChain { first_element, comparisons, metadata } => {
            ExprV::ComparisonChain {
                first_element: Box::new(expr_view(*first_element)),
                comparisons: chain_view(comparisons@),
                metadata,
            }
        },
        Expression::PrefixExpression { op, expression, metadata } => ExprV::PrefixExpression {
            op,
            expression: Box::new(expr_view(*expression)),
            metadata,
        },
        Expression::Var(m, n) => ExprV::Var(m, n@),
    }
}

pub open spec fn chain_view(cs: Seq<(Comparison, Expression)>) -> Seq<(Comparison, ExprV)>
    decreases cs,
{
    if cs.len() == 0 {
        Seq::empty()
    } else {
        chain_view(cs.drop_last()).push((cs.last().0, expr_view(cs.last().1)))
    }
}

pub open spec fn stmt_view(s: Statement) -> StmtV
    decreases s,
{
    match s {
        Statement::Print(e) => StmtV::Print(expr_view(e)),
        Statement::Assert(e) => StmtV::Assert(expr_view(e)),
        Statement::Test(n, e) => StmtV::Test(n@, expr_view(e)),
        Statement::Assignment { expression_location, var_name, expression } => StmtV::Assignment {
            expression_location,
            var_name: var_name@,
            expression: expr_view(expression),
        },
        Statement::Return(e) => StmtV::Return(expr_view(e)),
        Statement::If { condition, then, otherwise } => StmtV::If {
            condition: expr_view(condition),
            then: body_view(then.0@),
            otherwise: body_view(otherwise.0@),
        },
    }
}

pub open spec fn body_view(ss: Seq<Statement>) -> Seq<StmtV>
    decreases ss,
{
    if ss.len() == 0 {
        Seq::empty()
    } else {
        body_view(ss.drop_last()).push(stmt_view(ss.last()))
    }
}

pub open spec fn vars_view(vs: Seq<(String, TypeInformation)>) -> Seq<(Seq<char>, TypeInformation)> {
    vs.map_values(|p: (String, TypeInformation)| (p.0@, p.1))
}

impl View for Expression {
    type V = ExprV;

    open spec fn view(&self) -> ExprV {
        expr_view(*self)
    }
}

impl View for Statement {
    type V = StmtV;

    open spec fn view(&self) -> StmtV {
        stmt_view(*self)
    }
}

impl View for CodeBody {
    type V = Seq<StmtV>;

    open spec fn view(&self) -> Seq<StmtV> {
        body_view(self.0@)
    }
}

impl View for FunctionMetadata {
    type V = MetaV;

    open spec fn view(&self) -> MetaV {
        MetaV { var_types: vars_view(self.var_types@), return_type: self.return_type }
    }
}

impl View for TopLevelStatement {
    type V = FunctionV;

    open spec fn view(&self) -> FunctionV {
        match self {
            TopLevelStatement::FunctionDefinition {
                function_name,
                body,
                return_type_name,
                return_type_location,
                metadata,
            } => FunctionV {
                function_name: function_name@,
                body: body@,
                return_type_name: return_type_name@,
                return_type_location: *return_type_location,
                metadata: metadata@,
            },
        }
    }
}

impl View for File {
    type V = Seq<FunctionV>;

    open spec fn view(&self) -> Seq<FunctionV> {
        self.0@.map_values(|t: TopLevelStatement| t@)
    }
}

impl ExprV {
    pub open spec fn metadata(self) -> ExpressionMetadata {
        match self {
            ExprV::Literal(m, _) => m,
            ExprV::Binary { metadata, .. } => metadata,
            ExprV::ComparisonChain { metadata, .. } => metadata,
            ExprV::PrefixExpression { metadata, .. } => metadata,
            ExprV::Var(m, _) => m,
        }
    }

    pub open spec fn location(self) -> SourceLocation {
        self.metadata().location
    }
}

// ---------------------------------------------------------------------------
// Shape of a parsed tree.
// ---------------------------------------------------------------------------

/// Every node's span encloses the spans of its children, and no comparison
/// chain is without comparisons.
pub open spec fn expr_well_formed(e: ExprV) -> bool
    decreases e,
{
    match e {
        ExprV::Literal(..) | ExprV::Var(..) => true,
        ExprV::Binary { left, right, metadata, .. } => {
            &&& metadata.location.contains(left.location())
            &&& metadata.location.contains(right.location())
            &&& expr_well_formed(*left)
            &&& expr_well_formed(*right)
        },
        ExprV::ComparisonChain { first_element, comparisons, metadata } => {
            &&& comparisons.len() >= 1
            &&& metadata.location.contains(first_element.location())
            &&& expr_well_formed(*first_element)
            &&& forall|i: int|
                0 <= i < comparisons.len() ==> metadata.location.contains(
                    #[trigger] comparisons[i].1.location(),
                ) && expr_well_formed(comparisons[i].1)
        },
        ExprV::PrefixExpression { expression, metadata, .. } => {
            &&& metadata.location.contains(expression.location())
            &&& expr_well_formed(*expression)
        },
    }
}

pub open spec fn stmt_well_formed(s: StmtV) -> bool
    decreases s,
{
    match s {
        StmtV::Print(e) | StmtV::Assert(e) | StmtV::Return(e) | StmtV::Test(_, e) => expr_well_formed(e),
        StmtV::Assignment { expression_location, expression, .. } => {
            &&& expression_location.contains(expression.location())
            &&& expr_well_formed(expression)
        },
        StmtV::If { condition, then, otherwise } => {
            &&& expr_well_formed(condition)
            &&& forall|i: int| 0 <= i < then.len() ==> stmt_well_formed(#[trigger] then[i])
            &&& forall|i: int| 0 <= i < otherwise.len() ==> stmt_well_formed(#[trigger] otherwise[i])
        },
    }
}

pub open spec fn body_well_formed(b: Seq<StmtV>) -> bool {
    forall|i: int| 0 <= i < b.len() ==> stmt_well_formed(#[trigger] b[i])
}

/// A parsed file: every function body is well formed and no metadata is filled in yet.
pub open spec fn file_well_formed(f: Seq<FunctionV>) -> bool {
    forall|i: int|
        0 <= i < f.len() ==> body_well_formed(#[trigger] f[i].body) && f[i].metadata
            == (MetaV { var_types: Seq::empty(), return_type: None })
}

impl Expression {
    pub fn metadata(&self) -> (r: &ExpressionMetadata)
        ensures
            *r == self@.metadata(),
    {
        match self {
            Expression::Literal(meta, _)
            | Expression::Binary { metadata: meta, .. }
            | Expression::Var(meta, _)
            | Expression::ComparisonChain { metadata: meta, .. }
            | Expression::PrefixExpression { metadata: meta, .. } => meta,
        }
    }

    pub fn location(&self) -> (r: &SourceLocation)
        ensures
            *r == self@.location(),
    {
        &self.metadata().location
    }

    /// The type that the type pass recorded.
    pub fn type_info(&self) -> (r: &TypeInformation)
        requires
            self@.metadata().type_information is Some,
        ensures
            *r == self@.metadata().type_information->Some_0,
    {
        match &self.metadata().type_information {
            Some(t) => t,
            None => vstd::pervasive::unreached(),
        }
    }
}

} // verus!
