//! The parse tree for C++ entity names.  Parsers build these values directly
//! from text; the interner maps them to compact handles afterwards.

use vstd::prelude::*;
use crate::atoms::{ConstVolatile, Reference, Symbol};
use crate::legacy::LegacyName;
use crate::literals::{Literal, LiteralValue};

verus! {

/// C++ operators that can be overloaded
#[derive(Debug, PartialEq)]
pub enum Operator {
    /// Basic grammar followed by most operators: a symbol that can appear
    /// twice, optionally followed by an equality sign.
    Basic {
        /// Base symbol at the beginning
        symbol: Symbol,
        /// Whether this symbol is repeated
        twice: bool,
        /// Whether this singleton/pair is followed by an equality sign
        equal: bool,
    },
    /// Dereference operators `->` and `->*`
    Deref {
        /// `->` if this is false, `->*` if this is true
        star: bool,
    },
    /// Spaceship operator `<=>`
    Spaceship,
    /// Bracketed operators `()` and `[]`
    CallIndex {
        /// `()` if this is false, `[]` if this is true
        is_index: bool,
    },
    /// Custom literal operator (`operator "" <suffix-identifier>`)
    CustomLiteral(String),
    /// Allocation/deallocation functions
    NewDelete {
        /// `new` if this is false, `delete` if this is true
        is_delete: bool,
        /// True if this targets arrays (e.g. `operator new[]`)
        array: bool,
    },
    /// Overloaded `co_await` operator
    CoAwait,
    /// Type conversion operator (`operator <type>`)
    Conversion(Box<TypeLike>),
}

/// Type specifier: a simple type with its CV qualifiers
#[derive(Debug, PartialEq)]
pub struct TypeSpecifier {
    /// CV qualifiers applying to the simple type
    pub cv: ConstVolatile,
    /// Simple type
    pub simple_type: SimpleType,
}

/// Inner simple type specifiers that [`TypeSpecifier`] can wrap
#[derive(Debug, PartialEq)]
pub enum SimpleType {
    /// Id-expressions
    IdExpression(IdExpression),
    /// C-style space-separated type names (e.g. `unsigned int`)
    LegacyName(LegacyName),
}

/// One step of a pointer/reference declarator chain
#[derive(Debug, PartialEq, Eq, Clone, Copy, Structural)]
pub enum DeclOperator {
    /// `*`, optionally CV-qualified
    Pointer(ConstVolatile),
    /// `&`
    LRef,
    /// `&&`
    RRef,
}

/// A type, or something that looks close enough to it
#[derive(Debug, PartialEq)]
pub struct TypeLike {
    /// Type specifier
    pub specifier: TypeSpecifier,
    /// Pointer and reference declarators, leftmost first
    pub declarators: Vec<DeclOperator>,
    /// Function-signature suffix, for function types
    pub signature: Option<Box<FunctionSignature>>,
    /// Array extents; `None` stands for an empty `[]`
    pub arrays: Vec<Option<Box<ValueLike>>>,
}

/// A scoped name: a sequence of scopes then an unqualified id
#[derive(Debug, PartialEq)]
pub struct IdExpression {
    /// Outer scopes, joined by `::`
    pub scopes: Vec<Scope>,
    /// Final name component
    pub id: UnqualifiedId,
}

/// One scope component of an id-expression
#[derive(Debug, PartialEq)]
pub struct Scope {
    /// Scope name
    pub id: String,
    /// Template parameters, if any
    pub template_parameters: Option<TemplateParameters>,
    /// Function signature, for names local to a function body
    pub signature: Option<Box<FunctionSignature>>,
}

/// The final component of an id-expression
#[derive(Debug, PartialEq)]
pub enum UnqualifiedId {
    /// A named entity, with optional template parameters
    Named {
        /// Entity name
        id: String,
        /// Template parameters, if any
        template_parameters: Option<TemplateParameters>,
    },
    /// An operator overload, with optional template parameters
    OperatorName {
        /// The operator
        operator: Box<Operator>,
        /// Template parameters, if any
        template_parameters: Option<TemplateParameters>,
    },
    /// A destructor
    Destructor {
        /// Name of the destroyed type
        id: String,
    },
    /// `decltype(auto)`
    DecltypeAuto,
    /// A clang lambda name
    Lambda(Lambda),
    /// A clang anonymous entity, e.g. `(anonymous namespace)`
    Anonymous {
        /// The entity kind, when clang states one
        id: Option<String>,
    },
    /// clang's `<unknown>` entity
    Unknown,
}

/// Lambda location description
#[derive(Debug, PartialEq, Eq, Clone)]
pub struct Lambda {
    /// In which file the lambda is declared
    pub file: String,
    /// Line where the lambda is declared
    pub line: u32,
    /// Column where the lambda is declared
    pub col: u32,
}

/// A template parameter list, or clang's ambiguity sentinel
#[derive(Debug, PartialEq)]
pub enum TemplateParameters {
    /// A proper parameter list
    Resolved(Vec<TemplateParameter>),
    /// The literal `<, void>` that clang emits in certain error states
    Ambiguous,
}

/// Template parameter
#[derive(Debug, PartialEq)]
pub enum TemplateParameter {
    /// Type or value looking close enough to a type
    TypeLike(TypeLike),
    /// Value
    ValueLike(ValueLike),
}

/// Function signature
#[derive(Debug, PartialEq)]
pub struct FunctionSignature {
    /// Parameter types
    pub parameters: Vec<TypeLike>,
    /// CV qualifiers
    pub cv: ConstVolatile,
    /// Reference qualifiers
    pub reference: Reference,
    /// `noexcept` qualifier: the outer layer records presence of the keyword,
    /// the inner layer its optional argument.
    pub noexcept: Option<Option<ValueLike>>,
}

/// A value, or something that looks close enough to it
#[derive(Debug, PartialEq)]
pub enum ValueLike {
    /// A literal
    Literal(Literal),
    /// A named value
    IdExpression(Box<IdExpression>),
    /// A unary prefix operator applied to a value
    UnaryOp(Box<Operator>, Box<ValueLike>),
    /// A binary operator between two values
    BinaryOp(Box<ValueLike>, Box<Operator>, Box<ValueLike>),
    /// A parenthesized value
    Parens(Box<ValueLike>),
}

// ------------------------------------------------------------------------
// Specification-level mirrors of the parse tree.  Text becomes `Seq<char>`
// and lists become `Seq`; contracts are stated over these values.
// ------------------------------------------------------------------------

/// Specification mirror of [`Operator`]
pub enum OperatorV {
    /// See [`Operator::Basic`]
    Basic { symbol: Symbol, twice: bool, equal: bool },
    /// See [`Operator::Deref`]
    Deref { star: bool },
    /// See [`Operator::Spaceship`]
    Spaceship,
    /// See [`Operator::CallIndex`]
    CallIndex { is_index: bool },
    /// See [`Operator::CustomLiteral`]
    CustomLiteral(Seq<char>),
    /// See [`Operator::NewDelete`]
    NewDelete { is_delete: bool, array: bool },
    /// See [`Operator::CoAwait`]
    CoAwait,
    /// See [`Operator::Conversion`]
    Conversion(Box<TypeLikeV>),
}

/// Specification mirror of [`TypeSpecifier`]
pub struct TypeSpecifierV {
    /// CV qualifiers
    pub cv: ConstVolatile,
    /// Simple type
    pub simple_type: SimpleTypeV,
}

/// Specification mirror of [`SimpleType`]
pub enum SimpleTypeV {
    /// Id-expressions
    IdExpression(IdExpressionV),
    /// C-style primitive names
    LegacyName(LegacyName),
}

/// Specification mirror of [`TypeLike`]
pub struct TypeLikeV {
    /// Type specifier
    pub specifier: TypeSpecifierV,
    /// Declarator chain
    pub declarators: Seq<DeclOperator>,
    /// Function-signature suffix
    pub signature: Option<Box<FunctionSignatureV>>,
    /// Array extents
    pub arrays: Seq<Option<Box<ValueLikeV>>>,
}

/// Specification mirror of [`IdExpression`]
pub struct IdExpressionV {
    /// Outer scopes
    pub scopes: Seq<ScopeV>,
    /// Final name component
    pub id: UnqualifiedIdV,
}

/// Specification mirror of [`Scope`]
pub struct ScopeV {
    /// Scope name
    pub id: Seq<char>,
    /// Template parameters
    pub template_parameters: Option<TemplateParametersV>,
    /// Function signature
    pub signature: Option<Box<FunctionSignatureV>>,
}

/// Specification mirror of [`UnqualifiedId`]
pub enum UnqualifiedIdV {
    /// See [`UnqualifiedId::Named`]
    Named { id: Seq<char>, template_parameters: Option<TemplateParametersV> },
    /// See [`UnqualifiedId::OperatorName`]
    OperatorName { operator: Box<OperatorV>, template_parameters: Option<TemplateParametersV> },
    /// See [`UnqualifiedId::Destructor`]
    Destructor { id: Seq<char> },
    /// See [`UnqualifiedId::DecltypeAuto`]
    DecltypeAuto,
    /// See [`UnqualifiedId::Lambda`]
    Lambda { file: Seq<char>, line: u32, col: u32 },
    /// See [`UnqualifiedId::Anonymous`]
    Anonymous { id: Option<Seq<char>> },
    /// See [`UnqualifiedId::Unknown`]
    Unknown,
}

/// Specification mirror of [`TemplateParameters`]
pub enum TemplateParametersV {
    /// A proper parameter list
    Resolved(Seq<TemplateParameterV>),
    /// The `<, void>` sentinel
    Ambiguous,
}

/// Specification mirror of [`TemplateParameter`]
pub enum TemplateParameterV {
    /// A type argument
    TypeLike(TypeLikeV),
    /// A value argument
    ValueLike(ValueLikeV),
}

/// Specification mirror of [`FunctionSignature`]
pub struct FunctionSignatureV {
    /// Parameter types
    pub parameters: Seq<TypeLikeV>,
    /// CV qualifiers
    pub cv: ConstVolatile,
    /// Reference qualifiers
    pub reference: Reference,
    /// `noexcept` qualifier
    pub noexcept: Option<Option<Box<ValueLikeV>>>,
}

/// Specification mirror of [`Literal`]
pub struct LiteralV {
    /// Inner value
    pub value: LiteralValue,
    /// Custom literal suffix
    pub custom_suffix: Option<Seq<char>>,
}

/// Specification mirror of [`ValueLike`]
pub enum ValueLikeV {
    /// A literal
    Literal(LiteralV),
    /// A named value
    IdExpression(Box<IdExpressionV>),
    /// A unary prefix operation
    UnaryOp(Box<OperatorV>, Box<ValueLikeV>),
    /// A binary operation
    BinaryOp(Box<ValueLikeV>, Box<OperatorV>, Box<ValueLikeV>),
    /// A parenthesized value
    Parens(Box<ValueLikeV>),
}

/// View of a literal
pub open spec fn v_literal(l: Literal) -> LiteralV {
    LiteralV {
        value: l.value,
        custom_suffix: match l.custom_suffix {
            Some(s) => Some(s@),
            None => None,
        },
    }
}

/// View of an operator
pub open spec fn v_operator(o: Operator) -> OperatorV
    decreases o,
{
    match o {
        Operator::Basic { symbol, twice, equal } => OperatorV::Basic { symbol, twice, equal },
        Operator::Deref { star } => OperatorV::Deref { star },
        Operator::Spaceship => OperatorV::Spaceship,
        Operator::CallIndex { is_index } => OperatorV::CallIndex { is_index },
        Operator::CustomLiteral(s) => OperatorV::CustomLiteral(s@),
        Operator::NewDelete { is_delete, array } => OperatorV::NewDelete { is_delete, array },
        Operator::CoAwait => OperatorV::CoAwait,
        Operator::Conversion(t) => OperatorV::Conversion(Box::new(v_type_like(*t))),
    }
}

/// View of a type specifier
pub open spec fn v_type_specifier(t: TypeSpecifier) -> TypeSpecifierV
    decreases t,
{
    TypeSpecifierV {
        cv: t.cv,
        simple_type: match t.simple_type {
            SimpleType::IdExpression(i) => SimpleTypeV::IdExpression(v_id_expression(i)),
            SimpleType::LegacyName(l) => SimpleTypeV::LegacyName(l),
        },
    }
}

/// View of an array-extent list
pub open spec fn v_array_list(a: Seq<Option<Box<ValueLike>>>) -> Seq<Option<Box<ValueLikeV>>>
    decreases a,
{
    if a.len() == 0 {
        Seq::empty()
    } else {
        v_array_list(a.drop_last()).push(
            match a.last() {
                Some(bv) => Some(Box::new(v_value_like(*bv))),
                None => None,
            },
        )
    }
}

/// View of a type
pub open spec fn v_type_like(t: TypeLike) -> TypeLikeV
    decreases t,
{
    TypeLikeV {
        specifier: v_type_specifier(t.specifier),
        declarators: t.declarators@,
        signature: match t.signature {
            Some(b) => Some(Box::new(v_signature(*b))),
            None => None,
        },
        arrays: v_array_list(t.arrays@),
    }
}

/// View of a scope list
pub open spec fn v_scope_list(ss: Seq<Scope>) -> Seq<ScopeV>
    decreases ss,
{
    if ss.len() == 0 {
        Seq::empty()
    } else {
        v_scope_list(ss.drop_last()).push(v_scope(ss.last()))
    }
}

/// View of one scope
pub open spec fn v_scope(s: Scope) -> ScopeV
    decreases s,
{
    ScopeV {
        id: s.id@,
        template_parameters: match s.template_parameters {
            Some(t) => Some(v_template_parameters(t)),
            None => None,
        },
        signature: match s.signature {
            Some(b) => Some(Box::new(v_signature(*b))),
            None => None,
        },
    }
}

/// View of an id-expression
pub open spec fn v_id_expression(i: IdExpression) -> IdExpressionV
    decreases i,
{
    IdExpressionV {
        scopes: v_scope_list(i.scopes@),
        id: v_unqualified_id(i.id),
    }
}

/// View of an unqualified id
pub open spec fn v_unqualified_id(u: UnqualifiedId) -> UnqualifiedIdV
    decreases u,
{
    match u {
        UnqualifiedId::Named { id, template_parameters } => UnqualifiedIdV::Named {
            id: id@,
            template_parameters: match template_parameters {
                Some(t) => Some(v_template_parameters(t)),
                None => None,
            },
        },
        UnqualifiedId::OperatorName { operator, template_parameters } => UnqualifiedIdV::OperatorName {
            operator: Box::new(v_operator(*operator)),
            template_parameters: match template_parameters {
                Some(t) => Some(v_template_parameters(t)),
                None => None,
            },
        },
        UnqualifiedId::Destructor { id } => UnqualifiedIdV::Destructor { id: id@ },
        UnqualifiedId::DecltypeAuto => UnqualifiedIdV::DecltypeAuto,
        UnqualifiedId::Lambda(l) => UnqualifiedIdV::Lambda { file: l.file@, line: l.line, col: l.col },
        UnqualifiedId::Anonymous { id } => UnqualifiedIdV::Anonymous {
            id: match id {
                Some(s) => Some(s@),
                None => None,
            },
        },
        UnqualifiedId::Unknown => UnqualifiedIdV::Unknown,
    }
}

/// View of a template-parameter list
pub open spec fn v_template_parameters(t: TemplateParameters) -> TemplateParametersV
    decreases t,
{
    match t {
        TemplateParameters::Resolved(ps) => TemplateParametersV::Resolved(v_tplparam_list(ps@)),
        TemplateParameters::Ambiguous => TemplateParametersV::Ambiguous,
    }
}

/// View of the parameters inside a template-parameter list
pub open spec fn v_tplparam_list(ps: Seq<TemplateParameter>) -> Seq<TemplateParameterV>
    decreases ps,
{
    if ps.len() == 0 {
        Seq::empty()
    } else {
        v_tplparam_list(ps.drop_last()).push(
            match ps.last() {
                TemplateParameter::TypeLike(t) => TemplateParameterV::TypeLike(v_type_like(t)),
                TemplateParameter::ValueLike(v) => TemplateParameterV::ValueLike(v_value_like(v)),
            },
        )
    }
}

/// View of a parameter-type list
pub open spec fn v_type_list(ps: Seq<TypeLike>) -> Seq<TypeLikeV>
    decreases ps,
{
    if ps.len() == 0 {
        Seq::empty()
    } else {
        v_type_list(ps.drop_last()).push(v_type_like(ps.last()))
    }
}

/// View of a function signature
pub open spec fn v_signature(f: FunctionSignature) -> FunctionSignatureV
    decreases f,
{
    FunctionSignatureV {
        parameters: v_type_list(f.parameters@),
        cv: f.cv,
        reference: f.reference,
        noexcept: match f.noexcept {
            Some(Some(v)) => Some(Some(Box::new(v_value_like(v)))),
            Some(None) => Some(None),
            None => None,
        },
    }
}

/// View of a value
pub open spec fn v_value_like(v: ValueLike) -> ValueLikeV
    decreases v,
{
    match v {
        ValueLike::Literal(l) => ValueLikeV::Literal(v_literal(l)),
        ValueLike::IdExpression(i) => ValueLikeV::IdExpression(Box::new(v_id_expression(*i))),
        ValueLike::UnaryOp(o, inner) => ValueLikeV::UnaryOp(
            Box::new(v_operator(*o)),
            Box::new(v_value_like(*inner)),
        ),
        ValueLike::BinaryOp(l, o, r) => ValueLikeV::BinaryOp(
            Box::new(v_value_like(*l)),
            Box::new(v_operator(*o)),
            Box::new(v_value_like(*r)),
        ),
        ValueLike::Parens(inner) => ValueLikeV::Parens(Box::new(v_value_like(*inner))),
    }
}


/// The view of an empty scope list is empty.
pub proof fn lemma_v_scope_list_empty()
    ensures
        v_scope_list(Seq::<Scope>::empty()) == Seq::<ScopeV>::empty(),
{
}

/// Pushing a scope extends the list view by its view.
pub proof fn lemma_v_scope_list_push(ss: Seq<Scope>, x: Scope)
    ensures
        v_scope_list(ss.push(x)) == v_scope_list(ss).push(v_scope(x)),
{
    assert(ss.push(x).drop_last() =~= ss);
    assert(ss.push(x).last() == x);
}

/// The view of an empty parameter list is empty.
pub proof fn lemma_v_type_list_empty()
    ensures
        v_type_list(Seq::<TypeLike>::empty()) == Seq::<TypeLikeV>::empty(),
{
}

/// Pushing a type extends the list view by its view.
pub proof fn lemma_v_type_list_push(ps: Seq<TypeLike>, x: TypeLike)
    ensures
        v_type_list(ps.push(x)) == v_type_list(ps).push(v_type_like(x)),
{
    assert(ps.push(x).drop_last() =~= ps);
    assert(ps.push(x).last() == x);
}

/// The view of an empty template-parameter list is empty.
pub proof fn lemma_v_tplparam_list_empty()
    ensures
        v_tplparam_list(Seq::<TemplateParameter>::empty()) == Seq::<TemplateParameterV>::empty(),
{
}

/// Pushing a template parameter extends the list view by its view.
pub proof fn lemma_v_tplparam_list_push(ps: Seq<TemplateParameter>, x: TemplateParameter)
    ensures
        v_tplparam_list(ps.push(x)) == v_tplparam_list(ps).push(
            match x {
                TemplateParameter::TypeLike(t) => TemplateParameterV::TypeLike(v_type_like(t)),
                TemplateParameter::ValueLike(v) => TemplateParameterV::ValueLike(v_value_like(v)),
            },
        ),
{
    assert(ps.push(x).drop_last() =~= ps);
    assert(ps.push(x).last() == x);
}

/// The view of an empty array-extent list is empty.
pub proof fn lemma_v_array_list_empty()
    ensures
        v_array_list(Seq::<Option<Box<ValueLike>>>::empty()) == Seq::<Option<Box<ValueLikeV>>>::empty(),
{
}

/// Pushing an extent extends the list view by its view.
pub proof fn lemma_v_array_list_push(a: Seq<Option<Box<ValueLike>>>, x: Option<Box<ValueLike>>)
    ensures
        v_array_list(a.push(x)) == v_array_list(a).push(
            match x {
                Some(bv) => Some(Box::new(v_value_like(*bv))),
                None => None,
            },
        ),
{
    assert(a.push(x).drop_last() =~= a);
    assert(a.push(x).last() == x);
}


/// Length and elements of a scope-list view
pub proof fn lemma_v_scope_list_index(ss: Seq<Scope>)
    ensures
        v_scope_list(ss).len() == ss.len(),
        forall|i: int| 0 <= i < ss.len() ==> v_scope_list(ss)[i] == v_scope(#[trigger] ss[i]),
    decreases ss,
{
    if ss.len() > 0 {
        lemma_v_scope_list_index(ss.drop_last());
        assert forall|i: int| 0 <= i < ss.len() implies v_scope_list(ss)[i]
            == v_scope(#[trigger] ss[i]) by {
            if i < ss.len() - 1 {
                assert(ss.drop_last()[i] == ss[i]);
                assert(v_scope_list(ss)[i] == v_scope_list(ss.drop_last())[i]);
            } else {
                assert(ss[i] == ss.last());
            }
        }
    }
}

/// Length and elements of a type-list view
pub proof fn lemma_v_type_list_index(ps: Seq<TypeLike>)
    ensures
        v_type_list(ps).len() == ps.len(),
        forall|i: int| 0 <= i < ps.len() ==> v_type_list(ps)[i] == v_type_like(#[trigger] ps[i]),
    decreases ps,
{
    if ps.len() > 0 {
        lemma_v_type_list_index(ps.drop_last());
        assert forall|i: int| 0 <= i < ps.len() implies v_type_list(ps)[i]
            == v_type_like(#[trigger] ps[i]) by {
            if i < ps.len() - 1 {
                assert(ps.drop_last()[i] == ps[i]);
                assert(v_type_list(ps)[i] == v_type_list(ps.drop_last())[i]);
            } else {
                assert(ps[i] == ps.last());
            }
        }
    }
}

/// Length and elements of a template-parameter-list view
pub proof fn lemma_v_tplparam_list_index(ps: Seq<TemplateParameter>)
    ensures
        v_tplparam_list(ps).len() == ps.len(),
        forall|i: int| 0 <= i < ps.len() ==> v_tplparam_list(ps)[i] == (match #[trigger] ps[i] {
            TemplateParameter::TypeLike(t) => TemplateParameterV::TypeLike(v_type_like(t)),
            TemplateParameter::ValueLike(v) => TemplateParameterV::ValueLike(v_value_like(v)),
        }),
    decreases ps,
{
    if ps.len() > 0 {
        lemma_v_tplparam_list_index(ps.drop_last());
        assert forall|i: int| 0 <= i < ps.len() implies v_tplparam_list(ps)[i] == (match #[trigger] ps[i] {
            TemplateParameter::TypeLike(t) => TemplateParameterV::TypeLike(v_type_like(t)),
            TemplateParameter::ValueLike(v) => TemplateParameterV::ValueLike(v_value_like(v)),
        }) by {
            if i < ps.len() - 1 {
                assert(ps.drop_last()[i] == ps[i]);
                assert(v_tplparam_list(ps)[i] == v_tplparam_list(ps.drop_last())[i]);
            } else {
                assert(ps[i] == ps.last());
            }
        }
    }
}

/// Length and elements of an array-extent-list view
pub proof fn lemma_v_array_list_index(a: Seq<Option<Box<ValueLike>>>)
    ensures
        v_array_list(a).len() == a.len(),
        forall|i: int| 0 <= i < a.len() ==> v_array_list(a)[i] == (match #[trigger] a[i] {
            Some(bv) => Some(Box::new(v_value_like(*bv))),
            None => None,
        }),
    decreases a,
{
    if a.len() > 0 {
        lemma_v_array_list_index(a.drop_last());
        assert forall|i: int| 0 <= i < a.len() implies v_array_list(a)[i] == (match #[trigger] a[i] {
            Some(bv) => Some(Box::new(v_value_like(*bv))),
            None => None,
        }) by {
            if i < a.len() - 1 {
                assert(a.drop_last()[i] == a[i]);
                assert(v_array_list(a)[i] == v_array_list(a.drop_last())[i]);
            } else {
                assert(a[i] == a.last());
            }
        }
    }
}

} // verus!
