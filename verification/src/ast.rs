//! The syntax tree that the analyses read.
//!
//! It holds, as plain values, what name resolution and capture analysis look
//! at: identifiers, binding patterns, declarations, the nesting of functions
//! and classes, and the sub-expressions that may reference a name. Literal
//! values are kept in the textual form in which the later stages use them.
use vstd::prelude::*;

verus! {

/// `var`, `let` or `const`.
#[derive(Clone, Copy, PartialEq, Eq, Structural, Debug)]
#[allow(inconsistent_fields)]
pub enum VariableDeclarationKind {
    Var,
    Let,
    Const,
}

/// A string literal: its cooked value, and whether that value carries
/// lone-surrogate markers (in which case it is already in pool-key form).
pub struct StringLiteral {
    pub value: String,
    pub lone_surrogates: bool,
}

/// A property key. Computed keys (`[expr]`) carry their expression.
#[allow(inconsistent_fields)]
pub enum PropertyKey {
    StaticIdentifier(String),
    PrivateIdentifier(String),
    StringLiteral(StringLiteral),
    /// A numeric key, held as the text of its number value.
    NumericLiteral(String),
    Computed(Box<Expression>),
}

/// A binding pattern: an identifier, or a destructuring of one.
#[allow(inconsistent_fields)]
pub enum BindingPattern {
    Identifier(String),
    Array { elements: Vec<Option<BindingPattern>>, rest: Option<Box<BindingPattern>> },
    Object { properties: Vec<BindingProperty>, rest: Option<Box<BindingPattern>> },
    /// `left = right`: a pattern with a default value.
    Assignment { left: Box<BindingPattern>, right: Box<Expression> },
}

/// `key: value` inside an object binding pattern.
pub struct BindingProperty {
    pub key: PropertyKey,
    pub value: BindingPattern,
}

/// A formal parameter with its optional default value.
pub struct FormalParameter {
    pub pattern: BindingPattern,
    pub initializer: Option<Expression>,
}

/// A parameter list: the parameters and the rest parameter's pattern.
pub struct FormalParameters {
    pub items: Vec<FormalParameter>,
    pub rest: Option<BindingPattern>,
}

/// A function (declaration, expression, method or arrow).
pub struct Function {
    pub id: Option<String>,
    pub params: FormalParameters,
    pub body: Option<Vec<Statement>>,
    pub is_generator: bool,
    pub is_async: bool,
}

/// The kind of a class method.
#[derive(Clone, Copy, PartialEq, Eq, Structural, Debug)]
#[allow(inconsistent_fields)]
pub enum MethodDefinitionKind {
    Constructor,
    Method,
    Getter,
    Setter,
}

/// A class (declaration or expression).
pub struct Class {
    pub id: Option<String>,
    pub super_class: Option<Box<Expression>>,
    pub body: Vec<ClassElement>,
}

/// A member of a class body.
#[allow(inconsistent_fields)]
pub enum ClassElement {
    Method { key: PropertyKey, kind: MethodDefinitionKind, is_static: bool, value: Function },
    Property { key: PropertyKey, value: Option<Expression>, is_static: bool },
    StaticBlock(Vec<Statement>),
    /// An auto-accessor property (`accessor x = ...`).
    Accessor,
    /// An element that references no name (an index signature).
    Other,
}

/// A template literal: the cooked text of each quasi (none where an escape
/// is invalid), the raw text of each quasi, and the interpolated expressions.
pub struct TemplateLiteral {
    pub quasis: Vec<Option<String>>,
    pub raws: Vec<String>,
    pub expressions: Vec<Expression>,
}

/// An element of an array literal.
#[allow(inconsistent_fields)]
pub enum ArrayElement {
    Expression(Expression),
    Spread(Expression),
    Elision,
}

/// A call argument.
#[allow(inconsistent_fields)]
pub enum Argument {
    Expression(Expression),
    Spread(Expression),
}

/// A member of an object literal.
#[allow(inconsistent_fields)]
pub enum ObjectPropertyKind {
    Property { key: PropertyKey, value: Expression },
    Spread(Expression),
}

/// An element of an optional chain.
#[allow(inconsistent_fields)]
pub enum ChainElement {
    Call { callee: Expression, arguments: Vec<Argument> },
    StaticMember { object: Expression, property: String },
    ComputedMember { object: Expression, expression: Expression },
    PrivateField { object: Expression, field: String },
    Other,
}

/// The target of an assignment or an update.
#[allow(inconsistent_fields)]
pub enum AssignmentTarget {
    Identifier(String),
    StaticMember { object: Expression, property: String },
    ComputedMember { object: Expression, expression: Expression },
    PrivateField { object: Expression, field: String },
    Array { elements: Vec<Option<MaybeDefaultTarget>>, rest: Option<Box<AssignmentTarget>> },
    Object { properties: Vec<AssignmentTargetProperty>, rest: Option<Box<AssignmentTarget>> },
    Other,
}

/// An element of a destructuring assignment, with or without a default.
#[allow(inconsistent_fields)]
pub enum MaybeDefaultTarget {
    WithDefault { binding: AssignmentTarget, init: Expression },
    Plain(AssignmentTarget),
}

/// A property of an object destructuring assignment.
#[allow(inconsistent_fields)]
pub enum AssignmentTargetProperty {
    /// `{ name }` or `{ name = init }`.
    Identifier { name: String, init: Option<Expression> },
    /// `{ key: binding }`.
    Property { name: PropertyKey, binding: MaybeDefaultTarget },
}

/// A binary operator.
#[derive(Clone, Copy, PartialEq, Eq, Structural, Debug)]
pub enum BinaryOperator {
    Equality,
    Inequality,
    StrictEquality,
    StrictInequality,
    LessThan,
    LessEqualThan,
    GreaterThan,
    GreaterEqualThan,
    Addition,
    Subtraction,
    Multiplication,
    Division,
    Remainder,
    Exponential,
    ShiftLeft,
    ShiftRight,
    ShiftRightZeroFill,
    BitwiseOR,
    BitwiseXOR,
    BitwiseAnd,
    In,
    Instanceof,
}

/// A short-circuiting operator.
#[derive(Clone, Copy, PartialEq, Eq, Structural, Debug)]
pub enum LogicalOperator {
    Or,
    And,
    Coalesce,
}

/// A unary operator.
#[derive(Clone, Copy, PartialEq, Eq, Structural, Debug)]
pub enum UnaryOperator {
    UnaryNegation,
    UnaryPlus,
    LogicalNot,
    BitwiseNot,
    Typeof,
    Void,
    Delete,
}

/// `++` or `--`.
#[derive(Clone, Copy, PartialEq, Eq, Structural, Debug)]
pub enum UpdateOperator {
    Increment,
    Decrement,
}

/// An assignment operator.
#[derive(Clone, Copy, PartialEq, Eq, Structural, Debug)]
pub enum AssignmentOperator {
    Assign,
    Addition,
    Subtraction,
    Multiplication,
    Division,
    Remainder,
    Exponential,
    ShiftLeft,
    ShiftRight,
    ShiftRightZeroFill,
    BitwiseOR,
    BitwiseXOR,
    BitwiseAnd,
    LogicalOr,
    LogicalAnd,
    LogicalNullish,
}

/// An expression.
#[allow(inconsistent_fields)]
pub enum Expression {
    Identifier(String),
    This,
    /// A numeric literal, held as the text of its value.
    NumericLiteral(String),
    StringLiteral(StringLiteral),
    BooleanLiteral(bool),
    NullLiteral,
    /// A BigInt literal, held as its decimal digits.
    BigIntLiteral(String),
    /// A regular expression literal, held as its raw source text.
    RegExpLiteral(Option<String>),
    TemplateLiteral(TemplateLiteral),
    TaggedTemplate { tag: Box<Expression>, quasi: TemplateLiteral },
    Binary { operator: BinaryOperator, left: Box<Expression>, right: Box<Expression> },
    Logical { operator: LogicalOperator, left: Box<Expression>, right: Box<Expression> },
    Unary { operator: UnaryOperator, argument: Box<Expression> },
    Update { operator: UpdateOperator, prefix: bool, argument: Box<AssignmentTarget> },
    Assignment { operator: AssignmentOperator, left: Box<AssignmentTarget>, right: Box<Expression> },
    Conditional { test: Box<Expression>, consequent: Box<Expression>, alternate: Box<Expression> },
    Sequence(Vec<Expression>),
    Call { callee: Box<Expression>, arguments: Vec<Argument> },
    New { callee: Box<Expression>, arguments: Vec<Argument> },
    Array(Vec<ArrayElement>),
    Object(Vec<ObjectPropertyKind>),
    StaticMember { object: Box<Expression>, property: String },
    ComputedMember { object: Box<Expression>, expression: Box<Expression> },
    PrivateField { object: Box<Expression>, field: String },
    PrivateIn { name: String, right: Box<Expression> },
    Chain(Box<ChainElement>),
    Parenthesized(Box<Expression>),
    Function(Box<Function>),
    ArrowFunction(Box<Function>),
    Class(Box<Class>),
    Yield(Option<Box<Expression>>),
    Await(Box<Expression>),
    /// An expression that references no name (`new.target`, `import.meta`, `super`, ...).
    Other,
}

/// A `var`/`let`/`const` declaration.
pub struct VariableDeclaration {
    pub kind: VariableDeclarationKind,
    pub declarations: Vec<VariableDeclarator>,
}

/// `id = init` inside a variable declaration.
pub struct VariableDeclarator {
    pub id: BindingPattern,
    pub init: Option<Expression>,
}

/// The head of a C-style `for`.
#[allow(inconsistent_fields)]
pub enum ForInit {
    Expression(Expression),
    Variable(VariableDeclaration),
}

/// The left side of a `for-in` / `for-of` head.
#[allow(inconsistent_fields)]
pub enum ForLeft {
    Variable(VariableDeclaration),
    Target(AssignmentTarget),
}

/// `catch (param) { body }`.
pub struct CatchClause {
    pub param: Option<BindingPattern>,
    pub body: Vec<Statement>,
}

/// `case test: consequent` (`default:` has no test).
pub struct SwitchCase {
    pub test: Option<Expression>,
    pub consequent: Vec<Statement>,
}

/// An import attribute `key: "value"` from a `with` clause.
pub struct ImportAttribute {
    pub key: String,
    pub value: String,
}

/// A specifier of an import declaration; module export names are held as strings.
#[allow(inconsistent_fields)]
pub enum ImportSpecifier {
    Named { imported: String, local: String },
    Default { local: String },
    Namespace { local: String },
}

/// `import ... from source`.
pub struct ImportDeclaration {
    pub specifiers: Option<Vec<ImportSpecifier>>,
    pub source: String,
    pub attributes: Vec<ImportAttribute>,
}

/// `local as exported` inside an export list.
pub struct ExportSpecifier {
    pub local: String,
    pub exported: String,
}

/// A declaration that an `export` may wrap.
#[allow(inconsistent_fields)]
pub enum Declaration {
    Variable(VariableDeclaration),
    Function(Function),
    Class(Class),
    Other,
}

/// `export <declaration>` or `export { ... } [from source]`.
pub struct ExportNamedDeclaration {
    pub declaration: Option<Declaration>,
    pub specifiers: Vec<ExportSpecifier>,
    pub source: Option<String>,
    pub attributes: Vec<ImportAttribute>,
}

/// What follows `export default`.
#[allow(inconsistent_fields)]
pub enum ExportDefaultKind {
    Function(Function),
    Class(Class),
    Expression(Expression),
}

/// `export * [as exported] from source`.
pub struct ExportAllDeclaration {
    pub exported: Option<String>,
    pub source: String,
    pub attributes: Vec<ImportAttribute>,
}

/// A statement.
#[allow(inconsistent_fields)]
pub enum Statement {
    Expression(Expression),
    Return(Option<Expression>),
    Variable(VariableDeclaration),
    Function(Function),
    Class(Class),
    If { test: Expression, consequent: Box<Statement>, alternate: Option<Box<Statement>> },
    For { init: Option<ForInit>, test: Option<Expression>, update: Option<Expression>, body: Box<Statement> },
    ForIn { left: ForLeft, right: Expression, body: Box<Statement> },
    ForOf { left: ForLeft, right: Expression, body: Box<Statement>, is_await: bool },
    While { test: Expression, body: Box<Statement> },
    DoWhile { body: Box<Statement>, test: Expression },
    Block(Vec<Statement>),
    Try { block: Vec<Statement>, handler: Option<CatchClause>, finalizer: Option<Vec<Statement>> },
    Throw(Expression),
    Switch { discriminant: Expression, cases: Vec<SwitchCase> },
    Labeled { label: String, body: Box<Statement> },
    With { object: Expression, body: Box<Statement> },
    Break(Option<String>),
    Continue(Option<String>),
    Empty,
    Debugger,
    Import(ImportDeclaration),
    ExportNamed(ExportNamedDeclaration),
    ExportDefault(ExportDefaultKind),
    ExportAll(ExportAllDeclaration),
}

} // verus!
