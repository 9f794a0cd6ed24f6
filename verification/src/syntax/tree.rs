//! The syntax tree for the complete grammar: shapes, singles, constructors,
//! refutable clauses, deferred calls and lifted access chains.
use vstd::prelude::*;
use crate::source::Span;
pub use crate::ast::{RecordTypeField, TupleTypeField, TypeParam, TypeRef, UnaryOp, Visibility};

verus! {

#[derive(Debug)]
pub struct Program {
    pub module: Option<ModuleDecl>,
    pub imports: Vec<ImportDecl>,
    pub items: Vec<Item>,
    pub span: Option<Span>,
}

#[derive(Debug)]
pub struct ModuleDecl {
    pub name: String,
    pub span: Span,
}

#[derive(Debug)]
pub struct ImportDecl {
    pub path: String,
    pub single_name: Option<String>,
    pub wildcard: bool,
    pub symbols: Vec<ImportSymbol>,
    pub span: Span,
}

#[derive(Debug)]
pub struct ImportSymbol {
    pub name: String,
    pub alias: Option<String>,
    pub span: Span,
}

#[derive(Debug)]
pub enum Item {
    Function(FunctionDecl),
    Type(TypeDecl),
    Impl(ImplBlock),
    Statement(Stmt),
}

#[derive(Debug)]
pub struct Annotation {
    pub value: Expr,
    pub span: Span,
}

#[derive(Debug)]
pub struct FunctionDecl {
    pub annotations: Vec<Annotation>,
    pub visibility: Visibility,
    pub name: String,
    pub type_params: Vec<TypeParam>,
    pub params: Vec<Param>,
    pub return_type: Option<TypeRef>,
    pub body: CallableBody,
    pub span: Span,
}

#[derive(Debug, Clone, Copy, PartialEq, Eq, Structural)]
pub enum TypeKind {
    Annotation,
    Class,
    Record,
    Single,
    Interface,
    Enum,
}

#[derive(Debug)]
pub struct TypeDecl {
    pub annotations: Vec<Annotation>,
    pub visibility: Visibility,
    pub kind: TypeKind,
    pub name: String,
    pub type_params: Vec<TypeParam>,
    pub with_bounds: Vec<TypeRef>,
    pub members: Vec<TypeMember>,
    pub span: Span,
}

#[derive(Debug)]
pub enum TypeMember {
    Field(FieldDecl),
    Method(MethodDecl),
    Case(EnumCaseDecl),
}

#[derive(Debug)]
pub struct EnumCaseDecl {
    pub annotations: Vec<Annotation>,
    pub name: String,
    pub fields: Vec<FieldDecl>,
    pub span: Span,
}

#[derive(Debug, Clone, Copy, PartialEq, Eq, Structural)]
pub enum ImplTargetKind {
    Instance,
    Single,
}

#[derive(Debug)]
pub struct ImplBlock {
    pub target_kind: ImplTargetKind,
    pub target: TypeRef,
    pub methods: Vec<MethodDecl>,
    pub span: Span,
}

#[derive(Debug)]
pub struct MethodDecl {
    pub annotations: Vec<Annotation>,
    pub visibility: Visibility,
    pub name: String,
    pub type_params: Vec<TypeParam>,
    pub params: Vec<Param>,
    pub return_type: Option<TypeRef>,
    pub body: Option<CallableBody>,
    pub span: Span,
}

#[derive(Debug)]
pub struct FieldDecl {
    pub annotations: Vec<Annotation>,
    pub visibility: Visibility,
    pub mutable: bool,
    pub name: String,
    pub ty: Option<TypeRef>,
    pub initializer: Option<Expr>,
    pub span: Span,
}

#[derive(Debug)]
pub struct Param {
    pub name: String,
    pub ty: Option<TypeRef>,
    pub initializer: Option<Expr>,
    pub variadic: bool,
    pub span: Span,
}

#[derive(Debug)]
pub enum CallableBody {
    Block(Block),
    Expr(Expr),
}

#[derive(Debug)]
pub struct Block {
    pub statements: Vec<Stmt>,
    pub span: Span,
}

#[derive(Debug)]
pub enum Stmt {
    LocalFunction(FunctionDecl),
    Match(MatchStmt),
    LetElse(LetElseStmt),
    PatternBinding(PatternBindingStmt),
    ExpectCondition(ExpectConditionStmt),
    Binding(BindingStmt),
    Defer(DeferStmt),
    If(IfStmt),
    While(WhileStmt),
    For(ForStmt),
    Return(ReturnStmt),
    Break(BreakStmt),
    Continue(ContinueStmt),
    Expr(ExprStmt),
    Assignment(AssignmentStmt),
}

#[derive(Debug, Clone, Copy, PartialEq, Eq, Structural)]
pub enum DestructureKind {
    Tuple,
    Record,
}

#[derive(Debug)]
pub struct BindingStmt {
    pub visibility: Visibility,
    pub bindings: Vec<Binding>,
    pub values: Vec<Expr>,
    pub destructure: Option<DestructureKind>,
    pub span: Span,
}

#[derive(Debug)]
pub struct Binding {
    pub name: String,
    pub field_name: Option<String>,
    pub ty: Option<TypeRef>,
    pub mutable: bool,
    pub span: Span,
}

#[derive(Debug)]
pub enum DeferAction {
    Block(Block),
    Call(Expr),
}

#[derive(Debug)]
pub struct DeferStmt {
    pub action: DeferAction,
    pub span: Span,
}

#[derive(Debug)]
pub struct LetElseStmt {
    pub clauses: Vec<RefutableClause>,
    pub pattern: Pattern,
    pub value: Expr,
    pub else_block: Block,
    pub span: Span,
}

#[derive(Debug, Clone, Copy, PartialEq, Eq, Structural)]
pub enum PatternBindingKind {
    Let,
    Expect,
}

#[derive(Debug)]
pub struct PatternBindingStmt {
    pub kind: PatternBindingKind,
    pub clauses: Vec<RefutableClause>,
    pub pattern: Pattern,
    pub value: Expr,
    pub span: Span,
}

#[derive(Debug)]
pub struct ExpectConditionStmt {
    pub condition: Expr,
    pub span: Span,
}

#[derive(Debug)]
pub struct RefutableClause {
    pub pattern: Pattern,
    pub value: Expr,
    pub span: Span,
}

#[derive(Debug, Clone, Copy, PartialEq, Eq, Structural)]
pub enum AssignOp {
    Assign,
    Reassign,
    AddAssign,
    SubAssign,
    MulAssign,
    DivAssign,
}

#[derive(Debug)]
pub struct AssignmentStmt {
    pub targets: Vec<Expr>,
    pub operator: AssignOp,
    pub values: Vec<Expr>,
    pub span: Span,
}

#[derive(Debug)]
pub enum IfConditionClause {
    Let(RefutableClause),
    Expr(Expr),
}

#[derive(Debug)]
pub struct IfStmt {
    pub condition: Option<Expr>,
    pub condition_clauses: Vec<IfConditionClause>,
    pub pattern: Option<Pattern>,
    pub pattern_value: Option<Expr>,
    pub pattern_clauses: Vec<RefutableClause>,
    pub bindings: Vec<Binding>,
    pub binding_value: Option<Expr>,
    pub then_block: Block,
    pub else_branch: Option<ElseBranch>,
    pub span: Span,
}

#[derive(Debug)]
pub enum ElseBranch {
    If(Box<IfStmt>),
    Block(Block),
}

#[derive(Debug)]
pub struct WhileStmt {
    pub condition: Expr,
    pub body: Block,
    pub span: Span,
}

#[derive(Debug)]
pub struct ForStmt {
    pub bindings: Vec<ForBinding>,
    pub body: Block,
    pub span: Span,
}

#[derive(Debug)]
pub struct ForBinding {
    pub bindings: Vec<Binding>,
    pub destructure: Option<DestructureKind>,
    pub pattern: Option<Pattern>,
    pub iterable: Option<Expr>,
    pub values: Vec<Expr>,
    pub span: Span,
}

#[derive(Debug)]
pub struct MatchStmt {
    pub partial: bool,
    pub value: Expr,
    pub cases: Vec<MatchCase>,
    pub span: Span,
}

#[derive(Debug)]
pub struct MatchCase {
    pub pattern: Pattern,
    pub guard: Option<Expr>,
    pub body: MatchCaseBody,
    pub span: Span,
}

#[derive(Debug)]
pub enum MatchCaseBody {
    Block(Block),
    Expr(Expr),
}

#[derive(Debug)]
pub struct ReturnStmt {
    pub value: Option<Expr>,
    pub span: Span,
}

#[derive(Debug)]
pub struct BreakStmt {
    pub span: Span,
}

#[derive(Debug)]
pub struct ContinueStmt {
    pub span: Span,
}

#[derive(Debug)]
pub struct ExprStmt {
    pub expr: Expr,
    pub span: Span,
}

#[derive(Debug)]
#[allow(inconsistent_fields)]
pub enum Pattern {
    Wildcard { span: Span },
    Type { name: Option<String>, target: TypeRef, span: Span },
    Literal { value: Expr, span: Span },
    Tuple { elements: Vec<Pattern>, span: Span },
    Constructor { path: Vec<String>, args: Vec<Pattern>, span: Span },
    Binding { name: String, span: Span },
    Extract { inner: Box<Pattern>, span: Span },
}

#[derive(Debug, Clone, Copy, PartialEq, Eq, Structural)]
pub enum BinaryOp {
    Add,
    Sub,
    Mul,
    Div,
    Mod,
    Eq,
    NotEq,
    Less,
    LessEq,
    Greater,
    GreaterEq,
    And,
    Or,
    Colon,
}

#[derive(Debug)]
pub struct CallArg {
    pub name: Option<String>,
    pub ty: Option<TypeRef>,
    pub value: Expr,
    pub span: Span,
}

#[derive(Debug)]
pub struct LambdaParamDestructure {
    pub kind: DestructureKind,
    pub bindings: Vec<Binding>,
}

#[derive(Debug)]
pub struct LambdaParam {
    pub name: String,
    pub ty: Option<TypeRef>,
    pub destructure: Option<LambdaParamDestructure>,
    pub span: Span,
}

#[derive(Debug)]
pub enum LambdaBody {
    Expr(Box<Expr>),
    Block(Block),
}

#[derive(Debug)]
pub enum ElseExprBranch {
    If(Box<Expr>),
    Block(Block),
}

#[derive(Debug)]
pub struct LiftedChainSegment {
    pub param: String,
    pub body: Expr,
    pub span: Span,
}

#[derive(Debug)]
#[allow(inconsistent_fields)]
pub enum Expr {
    Identifier { name: String, span: Span },
    Placeholder { span: Span },
    Integer { raw: String, span: Span },
    Float { raw: String, span: Span },
    String { raw: String, span: Span },
    Bool { value: bool, span: Span },
    Unit { span: Span },
    Binary { left: Box<Expr>, op: BinaryOp, right: Box<Expr>, span: Span },
    Unary { op: UnaryOp, expr: Box<Expr>, span: Span },
    Is { left: Box<Expr>, target: TypeRef, span: Span },
    Try { value: Box<Expr>, span: Span },
    Return { value: Option<Box<Expr>>, span: Span },
    Break { span: Span },
    Continue { span: Span },
    Call { callee: Box<Expr>, args: Vec<CallArg>, uses_brace_syntax: bool, span: Span },
    Member { receiver: Box<Expr>, name: String, span: Span },
    Index { receiver: Box<Expr>, index: Box<Expr>, span: Span },
    TypeOf { ty: TypeRef, span: Span },
    RecordUpdate { receiver: Box<Expr>, patch: Box<Expr>, span: Span },
    LiftedChain { base: Box<Expr>, segments: Vec<LiftedChainSegment>, span: Span },
    ExtractOr { value: Box<Expr>, fallback: Box<Expr>, span: Span },
    Match { partial: bool, value: Box<Expr>, cases: Vec<MatchCase>, span: Span },
    Block { body: Block, span: Span },
    Lambda { params: Vec<LambdaParam>, body: LambdaBody, span: Span },
    If { condition: Box<Expr>, then_block: Block, else_branch: Box<ElseExprBranch>, span: Span },
    ForYield { bindings: Vec<ForBinding>, yield_body: Block, span: Span },
    RecordLiteral { fields: Vec<CallArg>, values: Vec<Expr>, span: Span },
    ShapeLiteral { items: Vec<Expr>, span: Span },
    AnonymousInterface { interfaces: Vec<TypeRef>, methods: Vec<MethodDecl>, span: Span },
    ListLiteral { items: Vec<Expr>, span: Span },
    TupleLiteral { items: Vec<Expr>, span: Span },
    Group { inner: Box<Expr>, span: Span },
    Spread { value: Box<Expr>, span: Span },
}

/// The span stored in an expression node.
pub open spec fn expr_span(e: Expr) -> Span {
    match e {
            Expr::Identifier { span, .. } => span,
            Expr::Placeholder { span } => span,
            Expr::Integer { span, .. } => span,
            Expr::Float { span, .. } => span,
            Expr::String { span, .. } => span,
            Expr::Bool { span, .. } => span,
            Expr::Unit { span } => span,
            Expr::Binary { span, .. } => span,
            Expr::Unary { span, .. } => span,
            Expr::Is { span, .. } => span,
            Expr::Try { span, .. } => span,
            Expr::Return { span, .. } => span,
            Expr::Break { span } => span,
            Expr::Continue { span } => span,
            Expr::Call { span, .. } => span,
            Expr::Member { span, .. } => span,
            Expr::Index { span, .. } => span,
            Expr::TypeOf { span, .. } => span,
            Expr::RecordUpdate { span, .. } => span,
            Expr::LiftedChain { span, .. } => span,
            Expr::ExtractOr { span, .. } => span,
            Expr::Match { span, .. } => span,
            Expr::Block { span, .. } => span,
            Expr::Lambda { span, .. } => span,
            Expr::If { span, .. } => span,
            Expr::ForYield { span, .. } => span,
            Expr::RecordLiteral { span, .. } => span,
            Expr::ShapeLiteral { span, .. } => span,
            Expr::AnonymousInterface { span, .. } => span,
            Expr::ListLiteral { span, .. } => span,
            Expr::TupleLiteral { span, .. } => span,
            Expr::Group { span, .. } => span,
            Expr::Spread { span, .. } => span,
    }
}

impl Expr {
    pub fn span(&self) -> (s: Span)
        ensures
            s == expr_span(*self),
    {
        match self {
                Expr::Identifier { span, .. } => *span,
                Expr::Placeholder { span } => *span,
                Expr::Integer { span, .. } => *span,
                Expr::Float { span, .. } => *span,
                Expr::String { span, .. } => *span,
                Expr::Bool { span, .. } => *span,
                Expr::Unit { span } => *span,
                Expr::Binary { span, .. } => *span,
                Expr::Unary { span, .. } => *span,
                Expr::Is { span, .. } => *span,
                Expr::Try { span, .. } => *span,
                Expr::Return { span, .. } => *span,
                Expr::Break { span } => *span,
                Expr::Continue { span } => *span,
                Expr::Call { span, .. } => *span,
                Expr::Member { span, .. } => *span,
                Expr::Index { span, .. } => *span,
                Expr::TypeOf { span, .. } => *span,
                Expr::RecordUpdate { span, .. } => *span,
                Expr::LiftedChain { span, .. } => *span,
                Expr::ExtractOr { span, .. } => *span,
                Expr::Match { span, .. } => *span,
                Expr::Block { span, .. } => *span,
                Expr::Lambda { span, .. } => *span,
                Expr::If { span, .. } => *span,
                Expr::ForYield { span, .. } => *span,
                Expr::RecordLiteral { span, .. } => *span,
                Expr::ShapeLiteral { span, .. } => *span,
                Expr::AnonymousInterface { span, .. } => *span,
                Expr::ListLiteral { span, .. } => *span,
                Expr::TupleLiteral { span, .. } => *span,
                Expr::Group { span, .. } => *span,
                Expr::Spread { span, .. } => *span,
        }
    }
}

/// The span stored in a pattern.
pub open spec fn pattern_span(p: Pattern) -> Span {
    match p {
            Pattern::Wildcard { span } => span,
            Pattern::Type { span, .. } => span,
            Pattern::Literal { span, .. } => span,
            Pattern::Tuple { span, .. } => span,
            Pattern::Constructor { span, .. } => span,
            Pattern::Binding { span, .. } => span,
            Pattern::Extract { span, .. } => span,
    }
}

impl Pattern {
    pub fn span(&self) -> (s: Span)
        ensures
            s == pattern_span(*self),
    {
        match self {
                Pattern::Wildcard { span } => *span,
                Pattern::Type { span, .. } => *span,
                Pattern::Literal { span, .. } => *span,
                Pattern::Tuple { span, .. } => *span,
                Pattern::Constructor { span, .. } => *span,
                Pattern::Binding { span, .. } => *span,
                Pattern::Extract { span, .. } => *span,
        }
    }
}

/// The span stored in a statement.
pub open spec fn stmt_span(s: Stmt) -> Span {
    match s {
        Stmt::LocalFunction(f) => f.span,
        Stmt::Match(m) => m.span,
        Stmt::LetElse(l) => l.span,
        Stmt::PatternBinding(p) => p.span,
        Stmt::ExpectCondition(c) => c.span,
        Stmt::Binding(b) => b.span,
        Stmt::Defer(d) => d.span,
        Stmt::If(i) => i.span,
        Stmt::While(w) => w.span,
        Stmt::For(f) => f.span,
        Stmt::Return(r) => r.span,
        Stmt::Break(b) => b.span,
        Stmt::Continue(c) => c.span,
        Stmt::Expr(e) => e.span,
        Stmt::Assignment(a) => a.span,
    }
}

impl Stmt {
    pub fn span(&self) -> (s: Span)
        ensures
            s == stmt_span(*self),
    {
        match self {
            Stmt::LocalFunction(f) => f.span,
            Stmt::Match(m) => m.span,
            Stmt::LetElse(l) => l.span,
            Stmt::PatternBinding(p) => p.span,
            Stmt::ExpectCondition(c) => c.span,
            Stmt::Binding(b) => b.span,
            Stmt::Defer(d) => d.span,
            Stmt::If(i) => i.span,
            Stmt::While(w) => w.span,
            Stmt::For(f) => f.span,
            Stmt::Return(r) => r.span,
            Stmt::Break(b) => b.span,
            Stmt::Continue(c) => c.span,
            Stmt::Expr(e) => e.span,
            Stmt::Assignment(a) => a.span,
        }
    }
}

/// The span stored in a callable body.
pub open spec fn callable_body_span(b: CallableBody) -> Span {
    match b {
        CallableBody::Block(block) => block.span,
        CallableBody::Expr(expr) => expr_span(expr),
    }
}

impl CallableBody {
    pub fn span(&self) -> (s: Span)
        ensures
            s == callable_body_span(*self),
    {
        match self {
            CallableBody::Block(block) => block.span,
            CallableBody::Expr(expr) => expr.span(),
        }
    }
}

/// The span stored in a lambda body.
pub open spec fn lambda_body_span(b: LambdaBody) -> Span {
    match b {
        LambdaBody::Expr(expr) => expr_span(*expr),
        LambdaBody::Block(block) => block.span,
    }
}

impl LambdaBody {
    pub fn span(&self) -> (s: Span)
        ensures
            s == lambda_body_span(*self),
    {
        match self {
            LambdaBody::Expr(expr) => expr.span(),
            LambdaBody::Block(block) => block.span,
        }
    }
}

} // verus!
