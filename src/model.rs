use vstd::prelude::*;

verus! {

/// The primitive keyword types that a guard can test with `typeof`.
#[derive(Clone, Copy, Debug, PartialEq, Eq, Structural)]
pub enum PrimitiveKind {
    Number,
    String,
    Boolean,
    Object,
}

/// A construct of the type grammar that the guard compiler has no check for.
#[derive(Clone, Copy, Debug, PartialEq, Eq, Structural)]
pub enum Unsupported {
    AnyType,
    BigIntType,
    IntrinsicType,
    NeverType,
    NullType,
    SymbolType,
    ThisType,
    UndefinedType,
    UnknownType,
    VoidType,
    ConditionalType,
    ConstructorType,
    FunctionType,
    ImportType,
    IndexedAccessType,
    InferType,
    IntersectionType,
    MappedType,
    QualifiedName,
    ThisTypeName,
    TemplateLiteralType,
    TupleType,
    TypeOperator,
    TypePredicate,
    TypeQuery,
    JSDocNullableType,
    JSDocUnknownType,
    JSDocNonNullableType,
    NamedTupleMember,
    NullLiteral,
    NumberLiteral,
    BigIntLiteral,
    RegExpLiteral,
    TemplateLiteral,
    UnaryLiteral,
    CallSignature,
    ConstructSignature,
    MethodSignature,
    ComputedKey,
    PrivateKey,
    UntypedProperty,
    IndexSignatureArity,
}

/// A literal type whose value a guard compares against.
#[derive(Debug)]
pub enum LiteralValue {
    Bool(bool),
    Str(String),
}

/// A type expression, as bound by a type alias or assembled from an
/// interface body.
#[derive(Debug)]
pub enum TypeExpression {
    Primitive(PrimitiveKind),
    Literal(LiteralValue),
    /// A homogeneous array of the element type.
    Array(Box<TypeExpression>),
    /// A value that satisfies at least one member.
    Union(Vec<TypeExpression>),
    /// An object type given by its members (an interface body or a type
    /// literal). Its check first tests for a truthy object, so that the
    /// member checks never read a property of a non-object.
    ObjectShape(Vec<Member>),
    /// Another exported type, checked by its own guard `is<name>`. The name
    /// is not resolved: the guard may be declared later in the output, or
    /// be provided by the runtime.
    Reference(String),
    /// A construct that the guard compiler does not handle.
    Unsupported(Unsupported),
}

/// One member of an object shape.
#[derive(Debug)]
pub enum Member {
    /// A required property of type `any`: only its presence is checked.
    AnyProperty(String),
    /// A required property of the given type.
    Property(String, TypeExpression),
    /// `[param: K]: value`: every own entry's value has the value type.
    IndexSignature(String, TypeExpression),
    /// A member that the guard compiler does not handle.
    Unsupported(Unsupported),
}

/// An exported type declaration: its name and the shape it binds.
#[derive(Debug)]
pub struct Declaration {
    pub name: String,
    pub shape: TypeExpression,
}

/// A binding pattern of a variable declaration.
#[derive(Debug)]
pub enum BindingPattern {
    /// `x`
    Identifier(String),
    /// `{ a, b: c }`: the patterns of its property values, in order.
    Object(Vec<BindingPattern>),
    /// `[a, , b]`: one entry per element, `None` for a hole.
    Array(Vec<Option<BindingPattern>>),
    /// `x = default`: the pattern on the left.
    Assignment(Box<BindingPattern>),
}

/// The declaration carried by a named export.
#[derive(Debug)]
pub enum ExportedDecl {
    /// `type T = ...`
    TypeAlias(Declaration),
    /// `interface I { ... }`, whose shape is the object shape of its body.
    Interface(Declaration),
    /// `const`, `let` or `var`, with one binding pattern per declarator.
    Variable(Vec<BindingPattern>),
    Function(Option<String>),
    Class(Option<String>),
    Enum(String),
    Module(String),
    ImportEquals(String),
}

/// `export <declaration>` or `export { a, b as c }`: the inline declaration,
/// if any, and the exported names of the specifiers.
#[derive(Debug)]
pub struct ExportNamed {
    pub declaration: Option<ExportedDecl>,
    pub specifiers: Vec<String>,
}

/// An export statement of a module, in source order.
#[derive(Debug)]
pub enum ModuleItem {
    Named(ExportNamed),
    /// `export default ...`
    Default,
    /// `export * from "..."`
    All,
}

/// A named export that both declares a binding and lists specifiers.
#[derive(Clone, Copy, Debug, PartialEq, Eq, Structural)]
pub struct MalformedExport;

/// Whether `item` declares a binding and lists specifiers at once.
pub open spec fn is_malformed(item: ModuleItem) -> bool {
    match item {
        ModuleItem::Named(n) => n.declaration is Some && n.specifiers@.len() > 0,
        _ => false,
    }
}

/// Whether any of `items` is malformed.
pub open spec fn any_malformed(items: Seq<ModuleItem>) -> bool {
    exists|i: int| 0 <= i < items.len() && #[trigger] is_malformed(items[i])
}

} // verus!
