//! The interning store: each distinct parsed substructure is kept once in an
//! append-only arena and addressed by a compact handle.  Child structures are
//! referenced by handles that always point to earlier entries, so the store
//! is a DAG by construction.

use vstd::prelude::*;
use crate::ast::{
    FunctionSignatureV, IdExpressionV, OperatorV, ScopeV, SimpleTypeV, TemplateParameterV,
    TemplateParametersV, TypeLikeV, UnqualifiedIdV, ValueLikeV,
};
use crate::atoms::{ConstVolatile, Reference, Symbol};
use crate::legacy::LegacyName;
use crate::literals::LiteralValue;

verus! {

/// Handle of an interned identifier
#[derive(Debug, PartialEq, Eq, Clone, Copy, Structural)]
pub struct IdentifierKey(pub usize);

/// Handle of an interned file path
#[derive(Debug, PartialEq, Eq, Clone, Copy, Structural)]
pub struct PathKey(pub usize);

/// Handle of an interned type
#[derive(Debug, PartialEq, Eq, Clone, Copy, Structural)]
pub struct TypeKey(pub usize);

/// Handle of an interned value
#[derive(Debug, PartialEq, Eq, Clone, Copy, Structural)]
pub struct ValueKey(pub usize);

/// Handle of an interned id-expression
#[derive(Debug, PartialEq, Eq, Clone, Copy, Structural)]
pub struct IdExprKey(pub usize);

/// Handle of an interned template-parameter list
#[derive(Debug, PartialEq, Eq, Clone, Copy, Structural)]
pub struct TplKey(pub usize);

/// Handle of an interned function signature
#[derive(Debug, PartialEq, Eq, Clone, Copy, Structural)]
pub struct SigKey(pub usize);

/// Interned form of [`crate::ast::Operator`]: children become handles
#[derive(Debug, PartialEq, Eq, Clone, Copy, Structural)]
pub enum IOperator {
    /// A symbol, possibly doubled, possibly followed by `=`
    Basic {
        /// Base symbol
        symbol: Symbol,
        /// Whether the symbol is repeated
        twice: bool,
        /// Whether an equality sign follows
        equal: bool,
    },
    /// `->` or `->*`
    Deref {
        /// `->*` if true
        star: bool,
    },
    /// `<=>`
    Spaceship,
    /// `()` or `[]`
    CallIndex {
        /// `[]` if true
        is_index: bool,
    },
    /// Custom literal suffix
    CustomLiteral(IdentifierKey),
    /// `new`/`delete` and array forms
    NewDelete {
        /// `delete` if true
        is_delete: bool,
        /// Array form if true
        array: bool,
    },
    /// `co_await`
    CoAwait,
    /// Conversion to an interned type
    Conversion(TypeKey),
}

/// Interned form of [`crate::ast::SimpleType`]
#[derive(Debug, PartialEq, Eq, Clone, Copy, Structural)]
pub enum ISimpleType {
    /// An interned id-expression
    IdExpression(IdExprKey),
    /// A legacy primitive name
    LegacyName(LegacyName),
}

/// Interned form of [`crate::ast::TypeLike`]
#[derive(Debug, PartialEq, Eq)]
pub struct IType {
    /// CV qualifiers of the specifier
    pub cv: ConstVolatile,
    /// Simple type of the specifier
    pub simple: ISimpleType,
    /// Declarator chain
    pub declarators: Vec<crate::ast::DeclOperator>,
    /// Function-signature suffix
    pub signature: Option<SigKey>,
    /// Array extents
    pub arrays: Vec<Option<ValueKey>>,
}

/// Interned form of [`crate::ast::Scope`]
#[derive(Debug, PartialEq, Eq, Clone, Copy, Structural)]
pub struct IScope {
    /// Scope name
    pub id: IdentifierKey,
    /// Template parameters
    pub template_parameters: Option<TplKey>,
    /// Function signature for function-local names
    pub signature: Option<SigKey>,
}

/// Interned form of [`crate::ast::UnqualifiedId`]
#[derive(Debug, PartialEq, Eq, Clone, Copy, Structural)]
pub enum IUnqualifiedId {
    /// A named entity
    Named {
        /// Entity name
        id: IdentifierKey,
        /// Template parameters
        template_parameters: Option<TplKey>,
    },
    /// An operator overload
    OperatorName {
        /// The operator
        operator: IOperator,
        /// Template parameters
        template_parameters: Option<TplKey>,
    },
    /// A destructor
    Destructor {
        /// Name of the destroyed type
        id: IdentifierKey,
    },
    /// `decltype(auto)`
    DecltypeAuto,
    /// A clang lambda name
    Lambda {
        /// File that declares the lambda
        file: PathKey,
        /// Line of the declaration
        line: u32,
        /// Column of the declaration
        col: u32,
    },
    /// A clang anonymous entity
    Anonymous {
        /// The entity kind, when clang states one
        id: Option<IdentifierKey>,
    },
    /// clang's `<unknown>` entity
    Unknown,
}

/// Interned form of [`crate::ast::IdExpression`]
#[derive(Debug, PartialEq, Eq)]
pub struct IIdExpression {
    /// Outer scopes
    pub scopes: Vec<IScope>,
    /// Final name component
    pub id: IUnqualifiedId,
}

/// Interned form of [`crate::ast::TemplateParameter`]
#[derive(Debug, PartialEq, Eq, Clone, Copy, Structural)]
pub enum ITemplateParameter {
    /// A type argument
    TypeLike(TypeKey),
    /// A value argument
    ValueLike(ValueKey),
}

/// Interned form of [`crate::ast::TemplateParameters`]
#[derive(Debug, PartialEq, Eq)]
pub enum ITemplateParameters {
    /// A proper parameter list
    Resolved(Vec<ITemplateParameter>),
    /// The `<, void>` sentinel
    Ambiguous,
}

/// Interned form of [`crate::ast::FunctionSignature`]
#[derive(Debug, PartialEq, Eq)]
pub struct ISignature {
    /// Parameter types
    pub parameters: Vec<TypeKey>,
    /// CV qualifiers
    pub cv: ConstVolatile,
    /// Reference qualifiers
    pub reference: Reference,
    /// `noexcept` qualifier
    pub noexcept: Option<Option<ValueKey>>,
}

/// Interned form of [`crate::literals::Literal`]
#[derive(Debug, PartialEq, Eq, Clone, Copy, Structural)]
pub struct ILiteral {
    /// Inner value
    pub value: LiteralValue,
    /// Custom literal suffix
    pub custom_suffix: Option<IdentifierKey>,
}

/// Interned form of [`crate::ast::ValueLike`]
#[derive(Debug, PartialEq, Eq, Clone, Copy, Structural)]
pub enum IValue {
    /// A literal
    Literal(ILiteral),
    /// A named value
    IdExpression(IdExprKey),
    /// A unary prefix operation
    UnaryOp(IOperator, ValueKey),
    /// A binary operation
    BinaryOp(ValueKey, IOperator, ValueKey),
    /// A parenthesized value
    Parens(ValueKey),
}

/// One arena entry
#[derive(Debug, PartialEq, Eq)]
pub enum Entity {
    /// An interned type
    Type(IType),
    /// An interned value
    Value(IValue),
    /// An interned id-expression
    IdExpr(IIdExpression),
    /// An interned template-parameter list
    Tpl(ITemplateParameters),
    /// An interned function signature
    Sig(ISignature),
}

/// The mathematical content of a store: identifier texts, path texts, and
/// the entity arena.
pub struct StoreModel {
    /// Identifier texts, by handle
    pub ids: Seq<Seq<char>>,
    /// Path texts, by handle
    pub paths: Seq<Seq<char>>,
    /// Arena entries, by handle
    pub arena: Seq<Entity>,
}

/// `m2` holds everything `m1` holds, at the same handles.
pub open spec fn store_extends(m2: StoreModel, m1: StoreModel) -> bool {
    m1.ids.is_prefix_of(m2.ids) && m1.paths.is_prefix_of(m2.paths)
        && m1.arena.is_prefix_of(m2.arena)
}

// ---------------------------------------------------------------------
// Well-formedness: every handle in an entry points below that entry
// ---------------------------------------------------------------------

/// Handle bounds for an operator
pub open spec fn op_wf(o: IOperator, k: int, nid: int) -> bool {
    match o {
        IOperator::CustomLiteral(i) => i.0 < nid,
        IOperator::Conversion(t) => t.0 < k,
        _ => true,
    }
}

/// Handle bounds for an unqualified id
pub open spec fn uid_wf(u: IUnqualifiedId, k: int, nid: int, npath: int) -> bool {
    match u {
        IUnqualifiedId::Named { id, template_parameters } => id.0 < nid && match template_parameters {
            Some(t) => t.0 < k,
            None => true,
        },
        IUnqualifiedId::OperatorName { operator, template_parameters } => op_wf(operator, k, nid)
            && match template_parameters {
                Some(t) => t.0 < k,
                None => true,
            },
        IUnqualifiedId::Destructor { id } => id.0 < nid,
        IUnqualifiedId::DecltypeAuto => true,
        IUnqualifiedId::Lambda { file, .. } => file.0 < npath,
        IUnqualifiedId::Anonymous { id } => match id {
            Some(i) => i.0 < nid,
            None => true,
        },
        IUnqualifiedId::Unknown => true,
    }
}

/// Handle bounds for one arena entry at index `k`
pub open spec fn entity_wf(e: Entity, k: int, nid: int, npath: int) -> bool {
    match e {
        Entity::Type(t) => {
            &&& match t.simple {
                ISimpleType::IdExpression(i) => i.0 < k,
                ISimpleType::LegacyName(_) => true,
            }
            &&& match t.signature {
                Some(sg) => sg.0 < k,
                None => true,
            }
            &&& forall|j: int| 0 <= j < t.arrays@.len() ==> match #[trigger] t.arrays@[j] {
                Some(v) => v.0 < k,
                None => true,
            }
        },
        Entity::Value(v) => match v {
            IValue::Literal(l) => match l.custom_suffix {
                Some(i) => i.0 < nid,
                None => true,
            },
            IValue::IdExpression(i) => i.0 < k,
            IValue::UnaryOp(o, inner) => op_wf(o, k, nid) && inner.0 < k,
            IValue::BinaryOp(l, o, r) => l.0 < k && op_wf(o, k, nid) && r.0 < k,
            IValue::Parens(inner) => inner.0 < k,
        },
        Entity::IdExpr(ie) => {
            &&& forall|j: int| 0 <= j < ie.scopes@.len() ==> {
                let sc = #[trigger] ie.scopes@[j];
                &&& sc.id.0 < nid
                &&& match sc.template_parameters {
                    Some(t) => t.0 < k,
                    None => true,
                }
                &&& match sc.signature {
                    Some(sg) => sg.0 < k,
                    None => true,
                }
            }
            &&& uid_wf(ie.id, k, nid, npath)
        },
        Entity::Tpl(t) => match t {
            ITemplateParameters::Resolved(ps) => forall|j: int| 0 <= j < ps@.len()
                ==> match #[trigger] ps@[j] {
                    ITemplateParameter::TypeLike(tk) => tk.0 < k,
                    ITemplateParameter::ValueLike(vk) => vk.0 < k,
                },
            ITemplateParameters::Ambiguous => true,
        },
        Entity::Sig(sg) => {
            &&& forall|j: int| 0 <= j < sg.parameters@.len()
                ==> (#[trigger] sg.parameters@[j]).0 < k
            &&& match sg.noexcept {
                Some(Some(v)) => v.0 < k,
                _ => true,
            }
        },
    }
}

/// Content equality of two types, comparing list fields by their views
pub open spec fn itype_sim(a: IType, b: IType) -> bool {
    a.cv == b.cv && a.simple == b.simple && a.declarators@ == b.declarators@
        && a.signature == b.signature && a.arrays@ == b.arrays@
}

/// Content equality of two id-expressions
pub open spec fn iidexpr_sim(a: IIdExpression, b: IIdExpression) -> bool {
    a.scopes@ == b.scopes@ && a.id == b.id
}

/// Content equality of two template-parameter lists
pub open spec fn itpl_sim(a: ITemplateParameters, b: ITemplateParameters) -> bool {
    match (a, b) {
        (ITemplateParameters::Resolved(x), ITemplateParameters::Resolved(y)) => x@ == y@,
        (ITemplateParameters::Ambiguous, ITemplateParameters::Ambiguous) => true,
        _ => false,
    }
}

/// Content equality of two function signatures
pub open spec fn isig_sim(a: ISignature, b: ISignature) -> bool {
    a.parameters@ == b.parameters@ && a.cv == b.cv && a.reference == b.reference
        && a.noexcept == b.noexcept
}

/// Content equality of two arena entries
pub open spec fn entity_sim(a: Entity, b: Entity) -> bool {
    match (a, b) {
        (Entity::Type(x), Entity::Type(y)) => itype_sim(x, y),
        (Entity::Value(x), Entity::Value(y)) => x == y,
        (Entity::IdExpr(x), Entity::IdExpr(y)) => iidexpr_sim(x, y),
        (Entity::Tpl(x), Entity::Tpl(y)) => itpl_sim(x, y),
        (Entity::Sig(x), Entity::Sig(y)) => isig_sim(x, y),
        _ => false,
    }
}

/// A well-formed store: every handle points strictly below its entry, and no
/// text or entry is stored twice.
pub open spec fn store_wf(m: StoreModel) -> bool {
    &&& forall|k: int| 0 <= k < m.arena.len()
        ==> entity_wf(#[trigger] m.arena[k], k, m.ids.len() as int, m.paths.len() as int)
    &&& forall|i: int, j: int| 0 <= i < j < m.arena.len()
        ==> !entity_sim(#[trigger] m.arena[i], #[trigger] m.arena[j])
    &&& forall|i: int, j: int| 0 <= i < j < m.ids.len() ==> m.ids[i] != m.ids[j]
    &&& forall|i: int, j: int| 0 <= i < j < m.paths.len() ==> m.paths[i] != m.paths[j]
}

// ---------------------------------------------------------------------
// The represents relation: what a handle stands for
// ---------------------------------------------------------------------

/// Handle `i` holds the identifier text `s`.
pub open spec fn repr_ident(m: StoreModel, i: int, s: Seq<char>) -> bool {
    0 <= i < m.ids.len() && m.ids[i] == s
}

/// Handle `i` holds the path text `s`.
pub open spec fn repr_path(m: StoreModel, i: int, s: Seq<char>) -> bool {
    0 <= i < m.paths.len() && m.paths[i] == s
}

/// Operator `o` stands for the parsed operator `v`.
pub open spec fn repr_op(m: StoreModel, o: IOperator, v: OperatorV) -> bool
    decreases v,
{
    match v {
        OperatorV::Basic { symbol, twice, equal } => o == (IOperator::Basic { symbol, twice, equal }),
        OperatorV::Deref { star } => o == (IOperator::Deref { star }),
        OperatorV::Spaceship => o == IOperator::Spaceship,
        OperatorV::CallIndex { is_index } => o == (IOperator::CallIndex { is_index }),
        OperatorV::CustomLiteral(s) => match o {
            IOperator::CustomLiteral(i) => repr_ident(m, i.0 as int, s),
            _ => false,
        },
        OperatorV::NewDelete { is_delete, array } => o == (IOperator::NewDelete { is_delete, array }),
        OperatorV::CoAwait => o == IOperator::CoAwait,
        OperatorV::Conversion(bt) => match o {
            IOperator::Conversion(tk) => repr_type(m, tk.0 as int, *bt),
            _ => false,
        },
    }
}

/// Handle `k` stands for the parsed type `v`.
pub open spec fn repr_type(m: StoreModel, k: int, v: TypeLikeV) -> bool
    decreases v,
{
    &&& 0 <= k < m.arena.len()
    &&& match m.arena[k] {
        Entity::Type(t) => {
            &&& t.cv == v.specifier.cv
            &&& match (t.simple, v.specifier.simple_type) {
                (ISimpleType::LegacyName(l1), SimpleTypeV::LegacyName(l2)) => l1 == l2,
                (ISimpleType::IdExpression(ik), SimpleTypeV::IdExpression(ve)) =>
                    repr_idexpr(m, ik.0 as int, ve),
                _ => false,
            }
            &&& t.declarators@ == v.declarators
            &&& match (t.signature, v.signature) {
                (None, None) => true,
                (Some(sk), Some(bs)) => repr_sig(m, sk.0 as int, *bs),
                _ => false,
            }
            &&& repr_array_list(m, t.arrays@, v.arrays)
        },
        _ => false,
    }
}

/// The stored extent handles stand for the parsed extents, pointwise.
pub open spec fn repr_array_list(
    m: StoreModel,
    ks: Seq<Option<ValueKey>>,
    vs: Seq<Option<Box<ValueLikeV>>>,
) -> bool
    decreases vs,
{
    &&& ks.len() == vs.len()
    &&& if vs.len() == 0 {
        true
    } else {
        &&& repr_array_list(m, ks.drop_last(), vs.drop_last())
        &&& match (ks.last(), vs.last()) {
            (None, None) => true,
            (Some(vk), Some(bv)) => repr_value(m, vk.0 as int, *bv),
            _ => false,
        }
    }
}

/// Handle `k` stands for the parsed value `v`.
pub open spec fn repr_value(m: StoreModel, k: int, v: ValueLikeV) -> bool
    decreases v,
{
    &&& 0 <= k < m.arena.len()
    &&& match m.arena[k] {
        Entity::Value(iv) => match (iv, v) {
            (IValue::Literal(l), ValueLikeV::Literal(lv)) => {
                &&& l.value == lv.value
                &&& match (l.custom_suffix, lv.custom_suffix) {
                    (None, None) => true,
                    (Some(i), Some(s)) => repr_ident(m, i.0 as int, s),
                    _ => false,
                }
            },
            (IValue::IdExpression(ik), ValueLikeV::IdExpression(bi)) =>
                repr_idexpr(m, ik.0 as int, *bi),
            (IValue::UnaryOp(o, inner), ValueLikeV::UnaryOp(bo, bi)) =>
                repr_op(m, o, *bo) && repr_value(m, inner.0 as int, *bi),
            (IValue::BinaryOp(l, o, r), ValueLikeV::BinaryOp(bl, bo, br)) =>
                repr_value(m, l.0 as int, *bl) && repr_op(m, o, *bo)
                    && repr_value(m, r.0 as int, *br),
            (IValue::Parens(inner), ValueLikeV::Parens(bi)) =>
                repr_value(m, inner.0 as int, *bi),
            _ => false,
        },
        _ => false,
    }
}

/// Handle `k` stands for the parsed id-expression `v`.
pub open spec fn repr_idexpr(m: StoreModel, k: int, v: IdExpressionV) -> bool
    decreases v,
{
    &&& 0 <= k < m.arena.len()
    &&& match m.arena[k] {
        Entity::IdExpr(ie) => {
            &&& repr_scope_list(m, ie.scopes@, v.scopes)
            &&& repr_uid(m, ie.id, v.id)
        },
        _ => false,
    }
}

/// The stored scopes stand for the parsed scopes, pointwise.
pub open spec fn repr_scope_list(m: StoreModel, ks: Seq<IScope>, vs: Seq<ScopeV>) -> bool
    decreases vs,
{
    &&& ks.len() == vs.len()
    &&& if vs.len() == 0 {
        true
    } else {
        repr_scope_list(m, ks.drop_last(), vs.drop_last())
            && repr_scope(m, ks.last(), vs.last())
    }
}

/// One stored scope stands for one parsed scope.
pub open spec fn repr_scope(m: StoreModel, sc: IScope, v: ScopeV) -> bool
    decreases v,
{
    &&& repr_ident(m, sc.id.0 as int, v.id)
    &&& match (sc.template_parameters, v.template_parameters) {
        (None, None) => true,
        (Some(tk), Some(tv)) => repr_tpl(m, tk.0 as int, tv),
        _ => false,
    }
    &&& match (sc.signature, v.signature) {
        (None, None) => true,
        (Some(sk), Some(bs)) => repr_sig(m, sk.0 as int, *bs),
        _ => false,
    }
}

/// The stored unqualified id stands for the parsed one.
pub open spec fn repr_uid(m: StoreModel, u: IUnqualifiedId, v: UnqualifiedIdV) -> bool
    decreases v,
{
    match v {
        UnqualifiedIdV::Named { id, template_parameters } => match u {
            IUnqualifiedId::Named { id: ik, template_parameters: tk } => {
                &&& repr_ident(m, ik.0 as int, id)
                &&& match (tk, template_parameters) {
                    (None, None) => true,
                    (Some(t), Some(tv)) => repr_tpl(m, t.0 as int, tv),
                    _ => false,
                }
            },
            _ => false,
        },
        UnqualifiedIdV::OperatorName { operator, template_parameters } => match u {
            IUnqualifiedId::OperatorName { operator: io, template_parameters: tk } => {
                &&& repr_op(m, io, *operator)
                &&& match (tk, template_parameters) {
                    (None, None) => true,
                    (Some(t), Some(tv)) => repr_tpl(m, t.0 as int, tv),
                    _ => false,
                }
            },
            _ => false,
        },
        UnqualifiedIdV::Destructor { id } => match u {
            IUnqualifiedId::Destructor { id: ik } => repr_ident(m, ik.0 as int, id),
            _ => false,
        },
        UnqualifiedIdV::DecltypeAuto => u == IUnqualifiedId::DecltypeAuto,
        UnqualifiedIdV::Lambda { file, line, col } => match u {
            IUnqualifiedId::Lambda { file: fk, line: l2, col: c2 } =>
                repr_path(m, fk.0 as int, file) && l2 == line && c2 == col,
            _ => false,
        },
        UnqualifiedIdV::Anonymous { id } => match u {
            IUnqualifiedId::Anonymous { id: ik } => match (ik, id) {
                (None, None) => true,
                (Some(i), Some(s)) => repr_ident(m, i.0 as int, s),
                _ => false,
            },
            _ => false,
        },
        UnqualifiedIdV::Unknown => u == IUnqualifiedId::Unknown,
    }
}

/// Handle `k` stands for the parsed template-parameter list `v`.
pub open spec fn repr_tpl(m: StoreModel, k: int, v: TemplateParametersV) -> bool
    decreases v,
{
    &&& 0 <= k < m.arena.len()
    &&& match m.arena[k] {
        Entity::Tpl(t) => match (t, v) {
            (ITemplateParameters::Ambiguous, TemplateParametersV::Ambiguous) => true,
            (ITemplateParameters::Resolved(ps), TemplateParametersV::Resolved(vs)) =>
                repr_tplparam_list(m, ps@, vs),
            _ => false,
        },
        _ => false,
    }
}

/// The stored template parameters stand for the parsed ones, pointwise.
pub open spec fn repr_tplparam_list(
    m: StoreModel,
    ks: Seq<ITemplateParameter>,
    vs: Seq<TemplateParameterV>,
) -> bool
    decreases vs,
{
    &&& ks.len() == vs.len()
    &&& if vs.len() == 0 {
        true
    } else {
        &&& repr_tplparam_list(m, ks.drop_last(), vs.drop_last())
        &&& match (ks.last(), vs.last()) {
            (ITemplateParameter::TypeLike(tk), TemplateParameterV::TypeLike(tv)) =>
                repr_type(m, tk.0 as int, tv),
            (ITemplateParameter::ValueLike(vk), TemplateParameterV::ValueLike(vv)) =>
                repr_value(m, vk.0 as int, vv),
            _ => false,
        }
    }
}

/// Handle `k` stands for the parsed function signature `v`.
pub open spec fn repr_sig(m: StoreModel, k: int, v: FunctionSignatureV) -> bool
    decreases v,
{
    &&& 0 <= k < m.arena.len()
    &&& match m.arena[k] {
        Entity::Sig(sg) => {
            &&& repr_type_list(m, sg.parameters@, v.parameters)
            &&& sg.cv == v.cv
            &&& sg.reference == v.reference
            &&& match (sg.noexcept, v.noexcept) {
                (None, None) => true,
                (Some(None), Some(None)) => true,
                (Some(Some(vk)), Some(Some(bv))) => repr_value(m, vk.0 as int, *bv),
                _ => false,
            }
        },
        _ => false,
    }
}

/// The stored parameter types stand for the parsed ones, pointwise.
pub open spec fn repr_type_list(m: StoreModel, ks: Seq<TypeKey>, vs: Seq<TypeLikeV>) -> bool
    decreases vs,
{
    &&& ks.len() == vs.len()
    &&& if vs.len() == 0 {
        true
    } else {
        repr_type_list(m, ks.drop_last(), vs.drop_last())
            && repr_type(m, ks.last().0 as int, vs.last())
    }
}

// ---------------------------------------------------------------------
// Growing the store never invalidates a handle
// ---------------------------------------------------------------------

/// A prefix agrees with the whole on every index it covers.
pub proof fn lemma_prefix_index<T>(a: Seq<T>, b: Seq<T>, k: int)
    requires
        a.is_prefix_of(b),
        0 <= k < a.len(),
    ensures
        b[k] == a[k],
{
    assert(a[k] == b.subrange(0, a.len() as int)[k]);
}

/// Operators keep their meaning when the store grows.
pub proof fn lemma_mono_op(m1: StoreModel, m2: StoreModel, o: IOperator, v: OperatorV)
    requires
        store_extends(m2, m1),
        repr_op(m1, o, v),
    ensures
        repr_op(m2, o, v),
    decreases v,
{
    match v {
        OperatorV::CustomLiteral(s) => {
            if let IOperator::CustomLiteral(i) = o {
                lemma_prefix_index(m1.ids, m2.ids, i.0 as int);
            }
        },
        OperatorV::Conversion(bt) => {
            if let IOperator::Conversion(tk) = o {
                lemma_mono_type(m1, m2, tk.0 as int, *bt);
            }
        },
        _ => {},
    }
}

/// Types keep their meaning when the store grows.
pub proof fn lemma_mono_type(m1: StoreModel, m2: StoreModel, k: int, v: TypeLikeV)
    requires
        store_extends(m2, m1),
        repr_type(m1, k, v),
    ensures
        repr_type(m2, k, v),
    decreases v,
{
    lemma_prefix_index(m1.arena, m2.arena, k);
    if let Entity::Type(t) = m1.arena[k] {
        match (t.simple, v.specifier.simple_type) {
            (ISimpleType::IdExpression(ik), SimpleTypeV::IdExpression(ve)) => {
                lemma_mono_idexpr(m1, m2, ik.0 as int, ve);
            },
            _ => {},
        }
        match (t.signature, v.signature) {
            (Some(sk), Some(bs)) => {
                lemma_mono_sig(m1, m2, sk.0 as int, *bs);
            },
            _ => {},
        }
        lemma_mono_array_list(m1, m2, t.arrays@, v.arrays);
    }
}

/// Array extents keep their meaning when the store grows.
pub proof fn lemma_mono_array_list(
    m1: StoreModel,
    m2: StoreModel,
    ks: Seq<Option<ValueKey>>,
    vs: Seq<Option<Box<ValueLikeV>>>,
)
    requires
        store_extends(m2, m1),
        repr_array_list(m1, ks, vs),
    ensures
        repr_array_list(m2, ks, vs),
    decreases vs,
{
    if vs.len() > 0 {
        lemma_mono_array_list(m1, m2, ks.drop_last(), vs.drop_last());
        match (ks.last(), vs.last()) {
            (Some(vk), Some(bv)) => {
                lemma_mono_value(m1, m2, vk.0 as int, *bv);
            },
            _ => {},
        }
    }
}

/// Values keep their meaning when the store grows.
pub proof fn lemma_mono_value(m1: StoreModel, m2: StoreModel, k: int, v: ValueLikeV)
    requires
        store_extends(m2, m1),
        repr_value(m1, k, v),
    ensures
        repr_value(m2, k, v),
    decreases v,
{
    lemma_prefix_index(m1.arena, m2.arena, k);
    if let Entity::Value(iv) = m1.arena[k] {
        match (iv, v) {
            (IValue::Literal(l), ValueLikeV::Literal(lv)) => {
                match (l.custom_suffix, lv.custom_suffix) {
                    (Some(i), Some(s)) => {
                        lemma_prefix_index(m1.ids, m2.ids, i.0 as int);
                    },
                    _ => {},
                }
            },
            (IValue::IdExpression(ik), ValueLikeV::IdExpression(bi)) => {
                lemma_mono_idexpr(m1, m2, ik.0 as int, *bi);
            },
            (IValue::UnaryOp(o, inner), ValueLikeV::UnaryOp(bo, bi)) => {
                lemma_mono_op(m1, m2, o, *bo);
                lemma_mono_value(m1, m2, inner.0 as int, *bi);
            },
            (IValue::BinaryOp(l, o, r), ValueLikeV::BinaryOp(bl, bo, br)) => {
                lemma_mono_value(m1, m2, l.0 as int, *bl);
                lemma_mono_op(m1, m2, o, *bo);
                lemma_mono_value(m1, m2, r.0 as int, *br);
            },
            (IValue::Parens(inner), ValueLikeV::Parens(bi)) => {
                lemma_mono_value(m1, m2, inner.0 as int, *bi);
            },
            _ => {},
        }
    }
}

/// Id-expressions keep their meaning when the store grows.
pub proof fn lemma_mono_idexpr(m1: StoreModel, m2: StoreModel, k: int, v: IdExpressionV)
    requires
        store_extends(m2, m1),
        repr_idexpr(m1, k, v),
    ensures
        repr_idexpr(m2, k, v),
    decreases v,
{
    lemma_prefix_index(m1.arena, m2.arena, k);
    if let Entity::IdExpr(ie) = m1.arena[k] {
        lemma_mono_scope_list(m1, m2, ie.scopes@, v.scopes);
        lemma_mono_uid(m1, m2, ie.id, v.id);
    }
}

/// Scope lists keep their meaning when the store grows.
pub proof fn lemma_mono_scope_list(m1: StoreModel, m2: StoreModel, ks: Seq<IScope>, vs: Seq<ScopeV>)
    requires
        store_extends(m2, m1),
        repr_scope_list(m1, ks, vs),
    ensures
        repr_scope_list(m2, ks, vs),
    decreases vs,
{
    if vs.len() > 0 {
        lemma_mono_scope_list(m1, m2, ks.drop_last(), vs.drop_last());
        lemma_mono_scope(m1, m2, ks.last(), vs.last());
    }
}

/// Scopes keep their meaning when the store grows.
pub proof fn lemma_mono_scope(m1: StoreModel, m2: StoreModel, sc: IScope, v: ScopeV)
    requires
        store_extends(m2, m1),
        repr_scope(m1, sc, v),
    ensures
        repr_scope(m2, sc, v),
    decreases v,
{
    lemma_prefix_index(m1.ids, m2.ids, sc.id.0 as int);
    match (sc.template_parameters, v.template_parameters) {
        (Some(tk), Some(tv)) => {
            lemma_mono_tpl(m1, m2, tk.0 as int, tv);
        },
        _ => {},
    }
    match (sc.signature, v.signature) {
        (Some(sk), Some(bs)) => {
            lemma_mono_sig(m1, m2, sk.0 as int, *bs);
        },
        _ => {},
    }
}

/// Unqualified ids keep their meaning when the store grows.
pub proof fn lemma_mono_uid(m1: StoreModel, m2: StoreModel, u: IUnqualifiedId, v: UnqualifiedIdV)
    requires
        store_extends(m2, m1),
        repr_uid(m1, u, v),
    ensures
        repr_uid(m2, u, v),
    decreases v,
{
    match v {
        UnqualifiedIdV::Named { id, template_parameters } => {
            if let IUnqualifiedId::Named { id: ik, template_parameters: tk } = u {
                lemma_prefix_index(m1.ids, m2.ids, ik.0 as int);
                match (tk, template_parameters) {
                    (Some(t), Some(tv)) => {
                        lemma_mono_tpl(m1, m2, t.0 as int, tv);
                    },
                    _ => {},
                }
            }
        },
        UnqualifiedIdV::OperatorName { operator, template_parameters } => {
            if let IUnqualifiedId::OperatorName { operator: io, template_parameters: tk } = u {
                lemma_mono_op(m1, m2, io, *operator);
                match (tk, template_parameters) {
                    (Some(t), Some(tv)) => {
                        lemma_mono_tpl(m1, m2, t.0 as int, tv);
                    },
                    _ => {},
                }
            }
        },
        UnqualifiedIdV::Destructor { id } => {
            if let IUnqualifiedId::Destructor { id: ik } = u {
                lemma_prefix_index(m1.ids, m2.ids, ik.0 as int);
            }
        },
        UnqualifiedIdV::Lambda { file, .. } => {
            if let IUnqualifiedId::Lambda { file: fk, .. } = u {
                lemma_prefix_index(m1.paths, m2.paths, fk.0 as int);
            }
        },
        UnqualifiedIdV::Anonymous { id } => {
            if let IUnqualifiedId::Anonymous { id: ik } = u {
                match (ik, id) {
                    (Some(i), Some(s)) => {
                        lemma_prefix_index(m1.ids, m2.ids, i.0 as int);
                    },
                    _ => {},
                }
            }
        },
        _ => {},
    }
}

/// Template-parameter lists keep their meaning when the store grows.
pub proof fn lemma_mono_tpl(m1: StoreModel, m2: StoreModel, k: int, v: TemplateParametersV)
    requires
        store_extends(m2, m1),
        repr_tpl(m1, k, v),
    ensures
        repr_tpl(m2, k, v),
    decreases v,
{
    lemma_prefix_index(m1.arena, m2.arena, k);
    if let Entity::Tpl(t) = m1.arena[k] {
        match (t, v) {
            (ITemplateParameters::Resolved(ps), TemplateParametersV::Resolved(vs)) => {
                lemma_mono_tplparam_list(m1, m2, ps@, vs);
            },
            _ => {},
        }
    }
}

/// Template parameters keep their meaning when the store grows.
pub proof fn lemma_mono_tplparam_list(
    m1: StoreModel,
    m2: StoreModel,
    ks: Seq<ITemplateParameter>,
    vs: Seq<TemplateParameterV>,
)
    requires
        store_extends(m2, m1),
        repr_tplparam_list(m1, ks, vs),
    ensures
        repr_tplparam_list(m2, ks, vs),
    decreases vs,
{
    if vs.len() > 0 {
        lemma_mono_tplparam_list(m1, m2, ks.drop_last(), vs.drop_last());
        match (ks.last(), vs.last()) {
            (ITemplateParameter::TypeLike(tk), TemplateParameterV::TypeLike(tv)) => {
                lemma_mono_type(m1, m2, tk.0 as int, tv);
            },
            (ITemplateParameter::ValueLike(vk), TemplateParameterV::ValueLike(vv)) => {
                lemma_mono_value(m1, m2, vk.0 as int, vv);
            },
            _ => {},
        }
    }
}

/// Function signatures keep their meaning when the store grows.
pub proof fn lemma_mono_sig(m1: StoreModel, m2: StoreModel, k: int, v: FunctionSignatureV)
    requires
        store_extends(m2, m1),
        repr_sig(m1, k, v),
    ensures
        repr_sig(m2, k, v),
    decreases v,
{
    lemma_prefix_index(m1.arena, m2.arena, k);
    if let Entity::Sig(sg) = m1.arena[k] {
        lemma_mono_type_list(m1, m2, sg.parameters@, v.parameters);
        match (sg.noexcept, v.noexcept) {
            (Some(Some(vk)), Some(Some(bv))) => {
                lemma_mono_value(m1, m2, vk.0 as int, *bv);
            },
            _ => {},
        }
    }
}

/// Parameter-type lists keep their meaning when the store grows.
pub proof fn lemma_mono_type_list(m1: StoreModel, m2: StoreModel, ks: Seq<TypeKey>, vs: Seq<TypeLikeV>)
    requires
        store_extends(m2, m1),
        repr_type_list(m1, ks, vs),
    ensures
        repr_type_list(m2, ks, vs),
    decreases vs,
{
    if vs.len() > 0 {
        lemma_mono_type_list(m1, m2, ks.drop_last(), vs.drop_last());
        lemma_mono_type(m1, m2, ks.last().0 as int, vs.last());
    }
}

// ---------------------------------------------------------------------
// In a well-formed store, a structural value has at most one handle
// ---------------------------------------------------------------------

/// Two identifier handles for the same text coincide.
pub proof fn lemma_uniq_ident(m: StoreModel, i1: int, i2: int, s: Seq<char>)
    requires
        store_wf(m),
        repr_ident(m, i1, s),
        repr_ident(m, i2, s),
    ensures
        i1 == i2,
{
}

/// Two path handles for the same text coincide.
pub proof fn lemma_uniq_path(m: StoreModel, i1: int, i2: int, s: Seq<char>)
    requires
        store_wf(m),
        repr_path(m, i1, s),
        repr_path(m, i2, s),
    ensures
        i1 == i2,
{
}

/// Two interned operators for the same parsed operator coincide.
pub proof fn lemma_uniq_op(m: StoreModel, o1: IOperator, o2: IOperator, v: OperatorV)
    requires
        store_wf(m),
        repr_op(m, o1, v),
        repr_op(m, o2, v),
    ensures
        o1 == o2,
    decreases v,
{
    match v {
        OperatorV::CustomLiteral(s) => {
            if let (IOperator::CustomLiteral(i1), IOperator::CustomLiteral(i2)) = (o1, o2) {
                lemma_uniq_ident(m, i1.0 as int, i2.0 as int, s);
            }
        },
        OperatorV::Conversion(bt) => {
            if let (IOperator::Conversion(t1), IOperator::Conversion(t2)) = (o1, o2) {
                lemma_uniq_type(m, t1.0 as int, t2.0 as int, *bt);
            }
        },
        _ => {},
    }
}

/// Two type handles for the same parsed type coincide.
pub proof fn lemma_uniq_type(m: StoreModel, k1: int, k2: int, v: TypeLikeV)
    requires
        store_wf(m),
        repr_type(m, k1, v),
        repr_type(m, k2, v),
    ensures
        k1 == k2,
    decreases v,
{
    if let (Entity::Type(t1), Entity::Type(t2)) = (m.arena[k1], m.arena[k2]) {
        match (t1.simple, t2.simple, v.specifier.simple_type) {
            (
                ISimpleType::IdExpression(i1),
                ISimpleType::IdExpression(i2),
                SimpleTypeV::IdExpression(ve),
            ) => {
                lemma_uniq_idexpr(m, i1.0 as int, i2.0 as int, ve);
            },
            _ => {},
        }
        match (t1.signature, t2.signature, v.signature) {
            (Some(s1), Some(s2), Some(bs)) => {
                lemma_uniq_sig(m, s1.0 as int, s2.0 as int, *bs);
            },
            _ => {},
        }
        lemma_uniq_array_list(m, t1.arrays@, t2.arrays@, v.arrays);
        assert(entity_sim(m.arena[k1], m.arena[k2]));
        if k1 < k2 {
            assert(!entity_sim(m.arena[k1], m.arena[k2]));
        } else if k2 < k1 {
            assert(!entity_sim(m.arena[k2], m.arena[k1]));
            assert(entity_sim(m.arena[k2], m.arena[k1]));
        }
    }
}

/// Two extent-handle lists for the same parsed extents coincide.
pub proof fn lemma_uniq_array_list(
    m: StoreModel,
    ks1: Seq<Option<ValueKey>>,
    ks2: Seq<Option<ValueKey>>,
    vs: Seq<Option<Box<ValueLikeV>>>,
)
    requires
        store_wf(m),
        repr_array_list(m, ks1, vs),
        repr_array_list(m, ks2, vs),
    ensures
        ks1 == ks2,
    decreases vs,
{
    if vs.len() == 0 {
        assert(ks1 =~= ks2);
    } else {
        lemma_uniq_array_list(m, ks1.drop_last(), ks2.drop_last(), vs.drop_last());
        match (ks1.last(), ks2.last(), vs.last()) {
            (Some(a), Some(b), Some(bv)) => {
                lemma_uniq_value(m, a.0 as int, b.0 as int, *bv);
            },
            _ => {},
        }
        assert(ks1 =~= ks2) by {
            assert(forall|i: int| 0 <= i < ks1.len() - 1
                ==> ks1[i] == ks1.drop_last()[i] && ks2[i] == ks2.drop_last()[i]);
        }
    }
}

/// Two value handles for the same parsed value coincide.
pub proof fn lemma_uniq_value(m: StoreModel, k1: int, k2: int, v: ValueLikeV)
    requires
        store_wf(m),
        repr_value(m, k1, v),
        repr_value(m, k2, v),
    ensures
        k1 == k2,
    decreases v,
{
    if let (Entity::Value(v1), Entity::Value(v2)) = (m.arena[k1], m.arena[k2]) {
        match v {
            ValueLikeV::Literal(lv) => {
                if let (IValue::Literal(l1), IValue::Literal(l2)) = (v1, v2) {
                    match (l1.custom_suffix, l2.custom_suffix, lv.custom_suffix) {
                        (Some(a), Some(b), Some(s)) => {
                            lemma_uniq_ident(m, a.0 as int, b.0 as int, s);
                        },
                        _ => {},
                    }
                }
            },
            ValueLikeV::IdExpression(bi) => {
                if let (IValue::IdExpression(a), IValue::IdExpression(b)) = (v1, v2) {
                    lemma_uniq_idexpr(m, a.0 as int, b.0 as int, *bi);
                }
            },
            ValueLikeV::UnaryOp(bo, bi) => {
                if let (IValue::UnaryOp(o1, a), IValue::UnaryOp(o2, b)) = (v1, v2) {
                    lemma_uniq_op(m, o1, o2, *bo);
                    lemma_uniq_value(m, a.0 as int, b.0 as int, *bi);
                }
            },
            ValueLikeV::BinaryOp(bl, bo, br) => {
                if let (IValue::BinaryOp(a1, o1, b1), IValue::BinaryOp(a2, o2, b2)) = (v1, v2) {
                    lemma_uniq_value(m, a1.0 as int, a2.0 as int, *bl);
                    lemma_uniq_op(m, o1, o2, *bo);
                    lemma_uniq_value(m, b1.0 as int, b2.0 as int, *br);
                }
            },
            ValueLikeV::Parens(bi) => {
                if let (IValue::Parens(a), IValue::Parens(b)) = (v1, v2) {
                    lemma_uniq_value(m, a.0 as int, b.0 as int, *bi);
                }
            },
        }
        assert(entity_sim(m.arena[k1], m.arena[k2]));
        if k1 < k2 {
            assert(!entity_sim(m.arena[k1], m.arena[k2]));
        } else if k2 < k1 {
            assert(!entity_sim(m.arena[k2], m.arena[k1]));
            assert(entity_sim(m.arena[k2], m.arena[k1]));
        }
    }
}

/// Two id-expression handles for the same parsed id-expression coincide.
pub proof fn lemma_uniq_idexpr(m: StoreModel, k1: int, k2: int, v: IdExpressionV)
    requires
        store_wf(m),
        repr_idexpr(m, k1, v),
        repr_idexpr(m, k2, v),
    ensures
        k1 == k2,
    decreases v,
{
    if let (Entity::IdExpr(e1), Entity::IdExpr(e2)) = (m.arena[k1], m.arena[k2]) {
        lemma_uniq_scope_list(m, e1.scopes@, e2.scopes@, v.scopes);
        lemma_uniq_uid(m, e1.id, e2.id, v.id);
        assert(entity_sim(m.arena[k1], m.arena[k2]));
        if k1 < k2 {
            assert(!entity_sim(m.arena[k1], m.arena[k2]));
        } else if k2 < k1 {
            assert(!entity_sim(m.arena[k2], m.arena[k1]));
            assert(entity_sim(m.arena[k2], m.arena[k1]));
        }
    }
}

/// Two scope lists for the same parsed scopes coincide.
pub proof fn lemma_uniq_scope_list(m: StoreModel, ks1: Seq<IScope>, ks2: Seq<IScope>, vs: Seq<ScopeV>)
    requires
        store_wf(m),
        repr_scope_list(m, ks1, vs),
        repr_scope_list(m, ks2, vs),
    ensures
        ks1 == ks2,
    decreases vs,
{
    if vs.len() == 0 {
        assert(ks1 =~= ks2);
    } else {
        lemma_uniq_scope_list(m, ks1.drop_last(), ks2.drop_last(), vs.drop_last());
        lemma_uniq_scope(m, ks1.last(), ks2.last(), vs.last());
        assert(ks1 =~= ks2) by {
            assert(forall|i: int| 0 <= i < ks1.len() - 1
                ==> ks1[i] == ks1.drop_last()[i] && ks2[i] == ks2.drop_last()[i]);
        }
    }
}

/// Two interned scopes for the same parsed scope coincide.
pub proof fn lemma_uniq_scope(m: StoreModel, s1: IScope, s2: IScope, v: ScopeV)
    requires
        store_wf(m),
        repr_scope(m, s1, v),
        repr_scope(m, s2, v),
    ensures
        s1 == s2,
    decreases v,
{
    lemma_uniq_ident(m, s1.id.0 as int, s2.id.0 as int, v.id);
    match (s1.template_parameters, s2.template_parameters, v.template_parameters) {
        (Some(a), Some(b), Some(tv)) => {
            lemma_uniq_tpl(m, a.0 as int, b.0 as int, tv);
        },
        _ => {},
    }
    match (s1.signature, s2.signature, v.signature) {
        (Some(a), Some(b), Some(bs)) => {
            lemma_uniq_sig(m, a.0 as int, b.0 as int, *bs);
        },
        _ => {},
    }
}

/// Two interned unqualified ids for the same parsed one coincide.
pub proof fn lemma_uniq_uid(m: StoreModel, u1: IUnqualifiedId, u2: IUnqualifiedId, v: UnqualifiedIdV)
    requires
        store_wf(m),
        repr_uid(m, u1, v),
        repr_uid(m, u2, v),
    ensures
        u1 == u2,
    decreases v,
{
    match v {
        UnqualifiedIdV::Named { id, template_parameters } => {
            if let (
                IUnqualifiedId::Named { id: a, template_parameters: t1 },
                IUnqualifiedId::Named { id: b, template_parameters: t2 },
            ) = (u1, u2) {
                lemma_uniq_ident(m, a.0 as int, b.0 as int, id);
                match (t1, t2, template_parameters) {
                    (Some(x), Some(y), Some(tv)) => {
                        lemma_uniq_tpl(m, x.0 as int, y.0 as int, tv);
                    },
                    _ => {},
                }
            }
        },
        UnqualifiedIdV::OperatorName { operator, template_parameters } => {
            if let (
                IUnqualifiedId::OperatorName { operator: o1, template_parameters: t1 },
                IUnqualifiedId::OperatorName { operator: o2, template_parameters: t2 },
            ) = (u1, u2) {
                lemma_uniq_op(m, o1, o2, *operator);
                match (t1, t2, template_parameters) {
                    (Some(x), Some(y), Some(tv)) => {
                        lemma_uniq_tpl(m, x.0 as int, y.0 as int, tv);
                    },
                    _ => {},
                }
            }
        },
        UnqualifiedIdV::Destructor { id } => {
            if let (
                IUnqualifiedId::Destructor { id: a },
                IUnqualifiedId::Destructor { id: b },
            ) = (u1, u2) {
                lemma_uniq_ident(m, a.0 as int, b.0 as int, id);
            }
        },
        UnqualifiedIdV::Lambda { file, .. } => {
            if let (
                IUnqualifiedId::Lambda { file: a, .. },
                IUnqualifiedId::Lambda { file: b, .. },
            ) = (u1, u2) {
                lemma_uniq_path(m, a.0 as int, b.0 as int, file);
            }
        },
        UnqualifiedIdV::Anonymous { id } => {
            if let (
                IUnqualifiedId::Anonymous { id: a },
                IUnqualifiedId::Anonymous { id: b },
            ) = (u1, u2) {
                match (a, b, id) {
                    (Some(x), Some(y), Some(s)) => {
                        lemma_uniq_ident(m, x.0 as int, y.0 as int, s);
                    },
                    _ => {},
                }
            }
        },
        _ => {},
    }
}

/// Two template-list handles for the same parsed list coincide.
pub proof fn lemma_uniq_tpl(m: StoreModel, k1: int, k2: int, v: TemplateParametersV)
    requires
        store_wf(m),
        repr_tpl(m, k1, v),
        repr_tpl(m, k2, v),
    ensures
        k1 == k2,
    decreases v,
{
    if let (Entity::Tpl(t1), Entity::Tpl(t2)) = (m.arena[k1], m.arena[k2]) {
        match (t1, t2, v) {
            (
                ITemplateParameters::Resolved(a),
                ITemplateParameters::Resolved(b),
                TemplateParametersV::Resolved(vs),
            ) => {
                lemma_uniq_tplparam_list(m, a@, b@, vs);
            },
            _ => {},
        }
        assert(entity_sim(m.arena[k1], m.arena[k2]));
        if k1 < k2 {
            assert(!entity_sim(m.arena[k1], m.arena[k2]));
        } else if k2 < k1 {
            assert(!entity_sim(m.arena[k2], m.arena[k1]));
            assert(entity_sim(m.arena[k2], m.arena[k1]));
        }
    }
}

/// Two template-parameter handle lists for the same parsed ones coincide.
pub proof fn lemma_uniq_tplparam_list(
    m: StoreModel,
    ks1: Seq<ITemplateParameter>,
    ks2: Seq<ITemplateParameter>,
    vs: Seq<TemplateParameterV>,
)
    requires
        store_wf(m),
        repr_tplparam_list(m, ks1, vs),
        repr_tplparam_list(m, ks2, vs),
    ensures
        ks1 == ks2,
    decreases vs,
{
    if vs.len() == 0 {
        assert(ks1 =~= ks2);
    } else {
        lemma_uniq_tplparam_list(m, ks1.drop_last(), ks2.drop_last(), vs.drop_last());
        match (ks1.last(), ks2.last(), vs.last()) {
            (
                ITemplateParameter::TypeLike(a),
                ITemplateParameter::TypeLike(b),
                TemplateParameterV::TypeLike(tv),
            ) => {
                lemma_uniq_type(m, a.0 as int, b.0 as int, tv);
            },
            (
                ITemplateParameter::ValueLike(a),
                ITemplateParameter::ValueLike(b),
                TemplateParameterV::ValueLike(vv),
            ) => {
                lemma_uniq_value(m, a.0 as int, b.0 as int, vv);
            },
            _ => {},
        }
        assert(ks1 =~= ks2) by {
            assert(forall|i: int| 0 <= i < ks1.len() - 1
                ==> ks1[i] == ks1.drop_last()[i] && ks2[i] == ks2.drop_last()[i]);
        }
    }
}

/// Two signature handles for the same parsed signature coincide.
pub proof fn lemma_uniq_sig(m: StoreModel, k1: int, k2: int, v: FunctionSignatureV)
    requires
        store_wf(m),
        repr_sig(m, k1, v),
        repr_sig(m, k2, v),
    ensures
        k1 == k2,
    decreases v,
{
    if let (Entity::Sig(s1), Entity::Sig(s2)) = (m.arena[k1], m.arena[k2]) {
        lemma_uniq_type_list(m, s1.parameters@, s2.parameters@, v.parameters);
        match (s1.noexcept, s2.noexcept, v.noexcept) {
            (Some(Some(a)), Some(Some(b)), Some(Some(bv))) => {
                lemma_uniq_value(m, a.0 as int, b.0 as int, *bv);
            },
            _ => {},
        }
        assert(entity_sim(m.arena[k1], m.arena[k2]));
        if k1 < k2 {
            assert(!entity_sim(m.arena[k1], m.arena[k2]));
        } else if k2 < k1 {
            assert(!entity_sim(m.arena[k2], m.arena[k1]));
            assert(entity_sim(m.arena[k2], m.arena[k1]));
        }
    }
}

/// Two parameter-type handle lists for the same parsed ones coincide.
pub proof fn lemma_uniq_type_list(m: StoreModel, ks1: Seq<TypeKey>, ks2: Seq<TypeKey>, vs: Seq<TypeLikeV>)
    requires
        store_wf(m),
        repr_type_list(m, ks1, vs),
        repr_type_list(m, ks2, vs),
    ensures
        ks1 == ks2,
    decreases vs,
{
    if vs.len() == 0 {
        assert(ks1 =~= ks2);
    } else {
        lemma_uniq_type_list(m, ks1.drop_last(), ks2.drop_last(), vs.drop_last());
        lemma_uniq_type(m, ks1.last().0 as int, ks2.last().0 as int, vs.last());
        assert(ks1 =~= ks2) by {
            assert(forall|i: int| 0 <= i < ks1.len() - 1
                ==> ks1[i] == ks1.drop_last()[i] && ks2[i] == ks2.drop_last()[i]);
        }
    }
}

// ---------------------------------------------------------------------
// The store itself
// ---------------------------------------------------------------------

/// Extension of stores is transitive.
pub proof fn lemma_extends_trans(m3: StoreModel, m2: StoreModel, m1: StoreModel)
    requires
        store_extends(m3, m2),
        store_extends(m2, m1),
    ensures
        store_extends(m3, m1),
{
    assert forall|i: int| 0 <= i < m1.ids.len() implies m1.ids[i] == m3.ids[i] by {
        lemma_prefix_index(m1.ids, m2.ids, i);
        lemma_prefix_index(m2.ids, m3.ids, i);
    }
    assert(m1.ids =~= m3.ids.subrange(0, m1.ids.len() as int));
    assert forall|i: int| 0 <= i < m1.paths.len() implies m1.paths[i] == m3.paths[i] by {
        lemma_prefix_index(m1.paths, m2.paths, i);
        lemma_prefix_index(m2.paths, m3.paths, i);
    }
    assert(m1.paths =~= m3.paths.subrange(0, m1.paths.len() as int));
    assert forall|i: int| 0 <= i < m1.arena.len() implies m1.arena[i] == m3.arena[i] by {
        lemma_prefix_index(m1.arena, m2.arena, i);
        lemma_prefix_index(m2.arena, m3.arena, i);
    }
    assert(m1.arena =~= m3.arena.subrange(0, m1.arena.len() as int));
}

/// A store extends itself.
pub proof fn lemma_extends_refl(m: StoreModel)
    ensures
        store_extends(m, m),
{
    assert(m.ids =~= m.ids.subrange(0, m.ids.len() as int));
    assert(m.paths =~= m.paths.subrange(0, m.paths.len() as int));
    assert(m.arena =~= m.arena.subrange(0, m.arena.len() as int));
}

/// Deduplicating stores that map each distinct parsed substructure to a
/// stable compact handle and back
pub struct EntityParser {
    /// Identifier texts
    idents: Vec<String>,
    /// Path texts
    paths: Vec<String>,
    /// Entity arena
    arena: Vec<Entity>,
}

impl EntityParser {
    /// The mathematical content of this store
    pub closed spec fn model(self) -> StoreModel {
        StoreModel {
            ids: self.idents@.map_values(|s: String| s@),
            paths: self.paths@.map_values(|s: String| s@),
            arena: self.arena@,
        }
    }

    /// The store invariant
    pub open spec fn wf(self) -> bool {
        store_wf(self.model())
    }

    /// Set up an empty store
    pub fn new() -> (r: EntityParser)
        ensures
            r.wf(),
            r.model().ids.len() == 0,
            r.model().paths.len() == 0,
            r.model().arena.len() == 0,
    {
        EntityParser { idents: Vec::new(), paths: Vec::new(), arena: Vec::new() }
    }

    /// Number of interned entities
    pub fn num_entities(&self) -> (n: usize)
        ensures
            n == self.model().arena.len(),
    {
        self.arena.len()
    }

    /// Intern one identifier text: idempotent and content-addressed.
    pub fn intern_identifier(&mut self, s: &String) -> (k: IdentifierKey)
        requires
            old(self).wf(),
        ensures
            final(self).wf(),
            store_extends(final(self).model(), old(self).model()),
            repr_ident(final(self).model(), k.0 as int, s@),
    {
        let n = self.idents.len();
        let mut i: usize = 0;
        while i < n
            invariant
                *self == *old(self),
                old(self).wf(),
                n == self.idents@.len(),
                i <= n,
                forall|j: int| 0 <= j < i ==> self.idents@[j]@ != s@,
            decreases n - i,
        {
            if self.idents[i] == *s {
                proof {
                    lemma_extends_refl(self.model());
                    assert(self.model().ids[i as int] == s@);
                }
                return IdentifierKey(i);
            }
            i = i + 1;
        }
        let ghost m0 = self.model();
        self.idents.push(s.clone());
        proof {
            assert(self.model().ids =~= m0.ids.push(s@));
            assert(m0.ids =~= self.model().ids.subrange(0, m0.ids.len() as int));
            assert(self.model().paths =~= m0.paths);
            assert(self.model().arena =~= m0.arena);
            assert(m0.paths =~= self.model().paths.subrange(0, m0.paths.len() as int));
            assert(m0.arena =~= self.model().arena.subrange(0, m0.arena.len() as int));
            assert(forall|q: int| 0 <= q < m0.ids.len()
                ==> self.model().ids[q] == m0.ids[q]);
            assert(self.model().ids[n as int] == s@);
            assert(store_wf(self.model()));
        }
        IdentifierKey(n)
    }

    /// Intern one path text: idempotent and content-addressed.
    pub fn intern_path(&mut self, s: &String) -> (k: PathKey)
        requires
            old(self).wf(),
        ensures
            final(self).wf(),
            store_extends(final(self).model(), old(self).model()),
            repr_path(final(self).model(), k.0 as int, s@),
    {
        let n = self.paths.len();
        let mut i: usize = 0;
        while i < n
            invariant
                *self == *old(self),
                old(self).wf(),
                n == self.paths@.len(),
                i <= n,
                forall|j: int| 0 <= j < i ==> self.paths@[j]@ != s@,
            decreases n - i,
        {
            if self.paths[i] == *s {
                proof {
                    lemma_extends_refl(self.model());
                    assert(self.model().paths[i as int] == s@);
                }
                return PathKey(i);
            }
            i = i + 1;
        }
        let ghost m0 = self.model();
        self.paths.push(s.clone());
        proof {
            assert(self.model().paths =~= m0.paths.push(s@));
            assert(m0.paths =~= self.model().paths.subrange(0, m0.paths.len() as int));
            assert(self.model().ids =~= m0.ids);
            assert(self.model().arena =~= m0.arena);
            assert(m0.ids =~= self.model().ids.subrange(0, m0.ids.len() as int));
            assert(m0.arena =~= self.model().arena.subrange(0, m0.arena.len() as int));
            assert(forall|q: int| 0 <= q < m0.paths.len()
                ==> self.model().paths[q] == m0.paths[q]);
            assert(self.model().paths[n as int] == s@);
            assert(store_wf(self.model()));
        }
        PathKey(n)
    }

    /// Look the entity up; append it only when it is new.  The returned
    /// handle always denotes an entry with this entity's content.
    fn find_or_push(&mut self, e: Entity) -> (k: usize)
        requires
            old(self).wf(),
            entity_wf(
                e,
                old(self).model().arena.len() as int,
                old(self).model().ids.len() as int,
                old(self).model().paths.len() as int,
            ),
        ensures
            final(self).wf(),
            store_extends(final(self).model(), old(self).model()),
            final(self).model().ids == old(self).model().ids,
            final(self).model().paths == old(self).model().paths,
            k < final(self).model().arena.len(),
            entity_sim(final(self).model().arena[k as int], e),
    {
        let n = self.arena.len();
        let mut i: usize = 0;
        while i < n
            invariant
                *self == *old(self),
                old(self).wf(),
                entity_wf(
                    e,
                    old(self).model().arena.len() as int,
                    old(self).model().ids.len() as int,
                    old(self).model().paths.len() as int,
                ),
                n == self.arena@.len(),
                i <= n,
                forall|j: int| 0 <= j < i ==> !entity_sim(self.arena@[j], e),
            decreases n - i,
        {
            if entity_eq(&self.arena[i], &e) {
                proof {
                    lemma_extends_refl(self.model());
                }
                return i;
            }
            i = i + 1;
        }
        let ghost m0 = self.model();
        let ghost klen = m0.arena.len() as int;
        self.arena.push(e);
        proof {
            assert(self.model().arena =~= m0.arena.push(self.model().arena[klen]));
            assert(m0.arena =~= self.model().arena.subrange(0, klen));
            assert(self.model().ids =~= m0.ids);
            assert(self.model().paths =~= m0.paths);
            assert(m0.ids =~= self.model().ids.subrange(0, m0.ids.len() as int));
            assert(m0.paths =~= self.model().paths.subrange(0, m0.paths.len() as int));
            assert(entity_sim(self.model().arena[klen], self.model().arena[klen])) by {
                lemma_entity_sim_refl(self.model().arena[klen]);
            }
            assert(store_wf(self.model())) by {
                assert(forall|q: int| 0 <= q < klen
                    ==> self.model().arena[q] == m0.arena[q]);
                assert(forall|q: int, j: int| 0 <= q < j < self.model().arena.len() && j < klen
                    ==> !entity_sim(self.model().arena[q], self.model().arena[j]));
            }
        }
        n
    }
}

/// Content equality is reflexive.
pub proof fn lemma_entity_sim_refl(e: Entity)
    ensures
        entity_sim(e, e),
{
}

// ---------------------------------------------------------------------
// Executable content equality on arena entries
// ---------------------------------------------------------------------

/// Equality of declarator chains
fn eq_decl_vec(a: &Vec<crate::ast::DeclOperator>, b: &Vec<crate::ast::DeclOperator>) -> (r: bool)
    ensures
        r == (a@ == b@),
{
    if a.len() != b.len() {
        assert(a@ != b@);
        return false;
    }
    let mut i: usize = 0;
    while i < a.len()
        invariant
            a@.len() == b@.len(),
            i <= a@.len(),
            forall|j: int| 0 <= j < i ==> a@[j] == b@[j],
        decreases a@.len() - i,
    {
        if a[i] != b[i] {
            assert(a@ != b@);
            return false;
        }
        i = i + 1;
    }
    assert(a@ =~= b@);
    true
}

/// Equality of array-extent handle lists
fn eq_arr_vec(a: &Vec<Option<ValueKey>>, b: &Vec<Option<ValueKey>>) -> (r: bool)
    ensures
        r == (a@ == b@),
{
    if a.len() != b.len() {
        assert(a@ != b@);
        return false;
    }
    let mut i: usize = 0;
    while i < a.len()
        invariant
            a@.len() == b@.len(),
            i <= a@.len(),
            forall|j: int| 0 <= j < i ==> a@[j] == b@[j],
        decreases a@.len() - i,
    {
        if a[i] != b[i] {
            assert(a@ != b@);
            return false;
        }
        i = i + 1;
    }
    assert(a@ =~= b@);
    true
}

/// Equality of scope lists
fn eq_scope_vec(a: &Vec<IScope>, b: &Vec<IScope>) -> (r: bool)
    ensures
        r == (a@ == b@),
{
    if a.len() != b.len() {
        assert(a@ != b@);
        return false;
    }
    let mut i: usize = 0;
    while i < a.len()
        invariant
            a@.len() == b@.len(),
            i <= a@.len(),
            forall|j: int| 0 <= j < i ==> a@[j] == b@[j],
        decreases a@.len() - i,
    {
        if a[i] != b[i] {
            assert(a@ != b@);
            return false;
        }
        i = i + 1;
    }
    assert(a@ =~= b@);
    true
}

/// Equality of template-parameter handle lists
fn eq_tplparam_vec(a: &Vec<ITemplateParameter>, b: &Vec<ITemplateParameter>) -> (r: bool)
    ensures
        r == (a@ == b@),
{
    if a.len() != b.len() {
        assert(a@ != b@);
        return false;
    }
    let mut i: usize = 0;
    while i < a.len()
        invariant
            a@.len() == b@.len(),
            i <= a@.len(),
            forall|j: int| 0 <= j < i ==> a@[j] == b@[j],
        decreases a@.len() - i,
    {
        if a[i] != b[i] {
            assert(a@ != b@);
            return false;
        }
        i = i + 1;
    }
    assert(a@ =~= b@);
    true
}

/// Equality of parameter-type handle lists
fn eq_typekey_vec(a: &Vec<TypeKey>, b: &Vec<TypeKey>) -> (r: bool)
    ensures
        r == (a@ == b@),
{
    if a.len() != b.len() {
        assert(a@ != b@);
        return false;
    }
    let mut i: usize = 0;
    while i < a.len()
        invariant
            a@.len() == b@.len(),
            i <= a@.len(),
            forall|j: int| 0 <= j < i ==> a@[j] == b@[j],
        decreases a@.len() - i,
    {
        if a[i] != b[i] {
            assert(a@ != b@);
            return false;
        }
        i = i + 1;
    }
    assert(a@ =~= b@);
    true
}

/// Content equality of two arena entries
fn entity_eq(a: &Entity, b: &Entity) -> (r: bool)
    ensures
        r == entity_sim(*a, *b),
{
    match (a, b) {
        (Entity::Type(x), Entity::Type(y)) => {
            x.cv == y.cv && x.simple == y.simple && x.signature == y.signature
                && eq_decl_vec(&x.declarators, &y.declarators) && eq_arr_vec(&x.arrays, &y.arrays)
        },
        (Entity::Value(x), Entity::Value(y)) => x == y,
        (Entity::IdExpr(x), Entity::IdExpr(y)) => {
            x.id == y.id && eq_scope_vec(&x.scopes, &y.scopes)
        },
        (Entity::Tpl(x), Entity::Tpl(y)) => match (x, y) {
            (ITemplateParameters::Resolved(p), ITemplateParameters::Resolved(q)) =>
                eq_tplparam_vec(p, q),
            (ITemplateParameters::Ambiguous, ITemplateParameters::Ambiguous) => true,
            _ => false,
        },
        (Entity::Sig(x), Entity::Sig(y)) => {
            x.cv == y.cv && x.reference == y.reference && x.noexcept == y.noexcept
                && eq_typekey_vec(&x.parameters, &y.parameters)
        },
        _ => false,
    }
}

// ---------------------------------------------------------------------
// Pointwise handle bounds, extracted from list representations
// ---------------------------------------------------------------------

/// Every extent handle in a represented list is in bounds.
pub proof fn lemma_array_list_bounds(
    m: StoreModel,
    ks: Seq<Option<ValueKey>>,
    vs: Seq<Option<Box<ValueLikeV>>>,
)
    requires
        repr_array_list(m, ks, vs),
    ensures
        forall|j: int| 0 <= j < ks.len() ==> match #[trigger] ks[j] {
            Some(v) => v.0 < m.arena.len(),
            None => true,
        },
    decreases vs,
{
    if vs.len() > 0 {
        lemma_array_list_bounds(m, ks.drop_last(), vs.drop_last());
        assert(forall|j: int| 0 <= j < ks.len() - 1 ==> ks[j] == ks.drop_last()[j]);
        match (ks.last(), vs.last()) {
            (Some(vk), Some(bv)) => {
                assert(repr_value(m, vk.0 as int, *bv));
                assert(vk.0 < m.arena.len());
            },
            _ => {},
        }
        assert(ks[ks.len() - 1] == ks.last());
    }
}

/// Every handle in a represented scope list is in bounds.
pub proof fn lemma_scope_list_bounds(m: StoreModel, ks: Seq<IScope>, vs: Seq<ScopeV>)
    requires
        repr_scope_list(m, ks, vs),
    ensures
        forall|j: int| 0 <= j < ks.len() ==> {
            let sc = #[trigger] ks[j];
            &&& sc.id.0 < m.ids.len()
            &&& match sc.template_parameters {
                Some(t) => t.0 < m.arena.len(),
                None => true,
            }
            &&& match sc.signature {
                Some(sg) => sg.0 < m.arena.len(),
                None => true,
            }
        },
    decreases vs,
{
    if vs.len() > 0 {
        lemma_scope_list_bounds(m, ks.drop_last(), vs.drop_last());
        assert(forall|j: int| 0 <= j < ks.len() - 1 ==> ks[j] == ks.drop_last()[j]);
        let sc = ks.last();
        assert(repr_scope(m, sc, vs.last()));
        assert(sc.id.0 < m.ids.len());
        match sc.template_parameters {
            Some(t) => {
                assert(t.0 < m.arena.len());
            },
            None => {},
        }
        match sc.signature {
            Some(sg) => {
                assert(sg.0 < m.arena.len());
            },
            None => {},
        }
        assert(ks[ks.len() - 1] == ks.last());
    }
}

/// Every handle in a represented template-parameter list is in bounds.
pub proof fn lemma_tplparam_list_bounds(
    m: StoreModel,
    ks: Seq<ITemplateParameter>,
    vs: Seq<TemplateParameterV>,
)
    requires
        repr_tplparam_list(m, ks, vs),
    ensures
        forall|j: int| 0 <= j < ks.len() ==> match #[trigger] ks[j] {
            ITemplateParameter::TypeLike(t) => t.0 < m.arena.len(),
            ITemplateParameter::ValueLike(v) => v.0 < m.arena.len(),
        },
    decreases vs,
{
    if vs.len() > 0 {
        lemma_tplparam_list_bounds(m, ks.drop_last(), vs.drop_last());
        assert(forall|j: int| 0 <= j < ks.len() - 1 ==> ks[j] == ks.drop_last()[j]);
        match (ks.last(), vs.last()) {
            (ITemplateParameter::TypeLike(a), TemplateParameterV::TypeLike(tv)) => {
                assert(repr_type(m, a.0 as int, tv));
                assert(a.0 < m.arena.len());
            },
            (ITemplateParameter::ValueLike(a), TemplateParameterV::ValueLike(vv)) => {
                assert(repr_value(m, a.0 as int, vv));
                assert(a.0 < m.arena.len());
            },
            _ => {},
        }
        assert(ks[ks.len() - 1] == ks.last());
    }
}

/// Every handle in a represented parameter-type list is in bounds.
pub proof fn lemma_type_list_bounds(m: StoreModel, ks: Seq<TypeKey>, vs: Seq<TypeLikeV>)
    requires
        repr_type_list(m, ks, vs),
    ensures
        forall|j: int| 0 <= j < ks.len() ==> (#[trigger] ks[j]).0 < m.arena.len(),
    decreases vs,
{
    if vs.len() > 0 {
        lemma_type_list_bounds(m, ks.drop_last(), vs.drop_last());
        assert(forall|j: int| 0 <= j < ks.len() - 1 ==> ks[j] == ks.drop_last()[j]);
        assert(repr_type(m, ks.last().0 as int, vs.last()));
        assert(ks[ks.len() - 1] == ks.last());
    }
}

impl EntityParser {
    /// Intern a literal: only its suffix needs the store.
    pub fn intern_literal(&mut self, l: &crate::literals::Literal) -> (r: ILiteral)
        requires
            old(self).wf(),
        ensures
            final(self).wf(),
            store_extends(final(self).model(), old(self).model()),
            r.value == l.value,
            match (r.custom_suffix, crate::ast::v_literal(*l).custom_suffix) {
                (None, None) => true,
                (Some(i), Some(sq)) => repr_ident(final(self).model(), i.0 as int, sq),
                _ => false,
            },
    {
        let suffix = match &l.custom_suffix {
            Some(s) => Some(self.intern_identifier(s)),
            None => None,
        };
        ILiteral { value: l.value, custom_suffix: suffix }
    }

    /// Intern an operator; only custom-literal suffixes and conversion types
    /// reach the store.
    pub fn intern_operator(&mut self, o: &crate::ast::Operator) -> (r: IOperator)
        requires
            old(self).wf(),
        ensures
            final(self).wf(),
            store_extends(final(self).model(), old(self).model()),
            repr_op(final(self).model(), r, crate::ast::v_operator(*o)),
        decreases *o,
    {
        match o {
            crate::ast::Operator::Basic { symbol, twice, equal } => IOperator::Basic {
                symbol: *symbol,
                twice: *twice,
                equal: *equal,
            },
            crate::ast::Operator::Deref { star } => IOperator::Deref { star: *star },
            crate::ast::Operator::Spaceship => IOperator::Spaceship,
            crate::ast::Operator::CallIndex { is_index } => IOperator::CallIndex {
                is_index: *is_index,
            },
            crate::ast::Operator::CustomLiteral(s) => IOperator::CustomLiteral(
                self.intern_identifier(s),
            ),
            crate::ast::Operator::NewDelete { is_delete, array } => IOperator::NewDelete {
                is_delete: *is_delete,
                array: *array,
            },
            crate::ast::Operator::CoAwait => IOperator::CoAwait,
            crate::ast::Operator::Conversion(t) => IOperator::Conversion(self.intern_type(&*t)),
        }
    }

    /// Intern a template-parameter list.
    pub fn intern_template_parameters(&mut self, t: &crate::ast::TemplateParameters) -> (k: TplKey)
        requires
            old(self).wf(),
        ensures
            final(self).wf(),
            store_extends(final(self).model(), old(self).model()),
            repr_tpl(final(self).model(), k.0 as int, crate::ast::v_template_parameters(*t)),
        decreases *t,
    {
        let ghost tv = crate::ast::v_template_parameters(*t);
        match t {
            crate::ast::TemplateParameters::Ambiguous => {
                let kk = self.find_or_push(Entity::Tpl(ITemplateParameters::Ambiguous));
                TplKey(kk)
            },
            crate::ast::TemplateParameters::Resolved(ps) => {
                let ghost vs = crate::ast::v_tplparam_list(ps@);
                proof {
                    crate::ast::lemma_v_tplparam_list_index(ps@);
                }
                let mut items: Vec<ITemplateParameter> = Vec::new();
                let mut i: usize = 0;
                proof {
                    assert(vs.subrange(0, 0) =~= Seq::<TemplateParameterV>::empty());
                }
                while i < ps.len()
                    invariant
                        *t == crate::ast::TemplateParameters::Resolved(*ps),
                        old(self).wf(),
                        self.wf(),
                        store_extends(self.model(), old(self).model()),
                        i <= ps@.len(),
                        items@.len() == i,
                        vs.len() == ps@.len(),
                        vs == crate::ast::v_tplparam_list(ps@),
                        forall|j: int| 0 <= j < ps@.len() ==> vs[j] == (match #[trigger] ps@[j] {
                            crate::ast::TemplateParameter::TypeLike(t2) =>
                                crate::ast::TemplateParameterV::TypeLike(crate::ast::v_type_like(t2)),
                            crate::ast::TemplateParameter::ValueLike(v2) =>
                                crate::ast::TemplateParameterV::ValueLike(crate::ast::v_value_like(v2)),
                        }),
                        repr_tplparam_list(self.model(), items@, vs.subrange(0, i as int)),
                    decreases ps@.len() - i,
                {
                    let ghost m1 = self.model();
                    proof {
                        assert(*ps == t->Resolved_0);
                        assert(decreases_to!(*t => t->Resolved_0));
                        assert(decreases_to!(*ps => ps@[i as int]));
                    }
                    let item = match &ps[i] {
                        crate::ast::TemplateParameter::TypeLike(t2) => {
                            proof {
                                assert(decreases_to!(ps@[i as int] => *t2));
                            }
                            ITemplateParameter::TypeLike(self.intern_type(t2))
                        },
                        crate::ast::TemplateParameter::ValueLike(v2) => {
                            proof {
                                assert(decreases_to!(ps@[i as int] => *v2));
                            }
                            ITemplateParameter::ValueLike(self.intern_value(v2))
                        },
                    };
                    proof {
                        lemma_mono_tplparam_list(m1, self.model(), items@, vs.subrange(0, i as int));
                        lemma_extends_trans(self.model(), m1, old(self).model());
                        assert(vs.subrange(0, i + 1).drop_last() =~= vs.subrange(0, i as int));
                        assert(vs.subrange(0, i + 1).last() == vs[i as int]);
                        assert((items@.push(item)).drop_last() =~= items@);
                    }
                    items.push(item);
                    i = i + 1;
                }
                proof {
                    assert(vs.subrange(0, vs.len() as int) =~= vs);
                }
                let ghost m2 = self.model();
                proof {
                    lemma_tplparam_list_bounds(m2, items@, vs);
                    assert(entity_wf(
                        Entity::Tpl(ITemplateParameters::Resolved(items)),
                        m2.arena.len() as int,
                        m2.ids.len() as int,
                        m2.paths.len() as int,
                    ));
                }
                let kk = self.find_or_push(Entity::Tpl(ITemplateParameters::Resolved(items)));
                proof {
                    lemma_mono_tplparam_list(
                        m2,
                        self.model(),
                        self.model().arena[kk as int]->Tpl_0->Resolved_0@,
                        vs,
                    );
                    lemma_extends_trans(self.model(), m2, old(self).model());
                }
                TplKey(kk)
            },
        }
    }

    /// Intern a function signature.
    pub fn intern_signature(&mut self, f: &crate::ast::FunctionSignature) -> (k: SigKey)
        requires
            old(self).wf(),
        ensures
            final(self).wf(),
            store_extends(final(self).model(), old(self).model()),
            repr_sig(final(self).model(), k.0 as int, crate::ast::v_signature(*f)),
        decreases *f,
    {
        let ghost fv = crate::ast::v_signature(*f);
        let ghost vs = crate::ast::v_type_list(f.parameters@);
        proof {
            crate::ast::lemma_v_type_list_index(f.parameters@);
        }
        let mut params: Vec<TypeKey> = Vec::new();
        let mut i: usize = 0;
        proof {
            assert(vs.subrange(0, 0) =~= Seq::<TypeLikeV>::empty());
        }
        while i < f.parameters.len()
            invariant
                old(self).wf(),
                self.wf(),
                store_extends(self.model(), old(self).model()),
                i <= f.parameters@.len(),
                params@.len() == i,
                vs.len() == f.parameters@.len(),
                vs == crate::ast::v_type_list(f.parameters@),
                forall|j: int| 0 <= j < f.parameters@.len()
                    ==> vs[j] == crate::ast::v_type_like(#[trigger] f.parameters@[j]),
                repr_type_list(self.model(), params@, vs.subrange(0, i as int)),
            decreases f.parameters@.len() - i,
        {
            let ghost m1 = self.model();
            let tk = self.intern_type(&f.parameters[i]);
            proof {
                lemma_mono_type_list(m1, self.model(), params@, vs.subrange(0, i as int));
                lemma_extends_trans(self.model(), m1, old(self).model());
                assert(vs.subrange(0, i + 1).drop_last() =~= vs.subrange(0, i as int));
                assert(vs.subrange(0, i + 1).last() == vs[i as int]);
                assert((params@.push(tk)).drop_last() =~= params@);
            }
            params.push(tk);
            i = i + 1;
        }
        proof {
            assert(vs.subrange(0, vs.len() as int) =~= vs);
        }
        let ghost m1 = self.model();
        let noexc: Option<Option<ValueKey>> = match &f.noexcept {
            Some(inner) => match inner {
                Some(v) => Some(Some(self.intern_value(v))),
                None => Some(None),
            },
            None => None,
        };
        proof {
            lemma_mono_type_list(m1, self.model(), params@, vs);
            lemma_extends_trans(self.model(), m1, old(self).model());
        }
        let ghost m2 = self.model();
        let ent = Entity::Sig(ISignature {
            parameters: params,
            cv: f.cv,
            reference: f.reference,
            noexcept: noexc,
        });
        proof {
            lemma_type_list_bounds(m2, ent->Sig_0.parameters@, vs);
            assert(entity_wf(
                ent,
                m2.arena.len() as int,
                m2.ids.len() as int,
                m2.paths.len() as int,
            ));
        }
        let kk = self.find_or_push(ent);
        proof {
            lemma_mono_type_list(m2, self.model(), self.model().arena[kk as int]->Sig_0.parameters@, vs);
            match (self.model().arena[kk as int]->Sig_0.noexcept, fv.noexcept) {
                (Some(Some(vk)), Some(Some(bv))) => {
                    lemma_mono_value(m2, self.model(), vk.0 as int, *bv);
                },
                _ => {},
            }
            lemma_extends_trans(self.model(), m2, old(self).model());
        }
        SigKey(kk)
    }
}

/// Copy of a declarator chain
fn copy_decls(v: &Vec<crate::ast::DeclOperator>) -> (r: Vec<crate::ast::DeclOperator>)
    ensures
        r@ == v@,
{
    let mut out: Vec<crate::ast::DeclOperator> = Vec::new();
    let mut i: usize = 0;
    while i < v.len()
        invariant
            i <= v@.len(),
            out@ == v@.subrange(0, i as int),
        decreases v@.len() - i,
    {
        out.push(v[i]);
        assert(out@ =~= v@.subrange(0, i + 1));
        i = i + 1;
    }
    assert(out@ =~= v@);
    out
}

impl EntityParser {
    /// Intern one scope.
    pub fn intern_scope(&mut self, sc: &crate::ast::Scope) -> (r: IScope)
        requires
            old(self).wf(),
        ensures
            final(self).wf(),
            store_extends(final(self).model(), old(self).model()),
            repr_scope(final(self).model(), r, crate::ast::v_scope(*sc)),
        decreases *sc,
    {
        let idk = self.intern_identifier(&sc.id);
        let ghost m1 = self.model();
        let tpl = match &sc.template_parameters {
            Some(t) => Some(self.intern_template_parameters(t)),
            None => None,
        };
        proof {
            lemma_prefix_index(m1.ids, self.model().ids, idk.0 as int);
            lemma_extends_trans(self.model(), m1, old(self).model());
        }
        let ghost m2 = self.model();
        let sig = match &sc.signature {
            Some(b) => Some(self.intern_signature(&*b)),
            None => None,
        };
        proof {
            lemma_prefix_index(m2.ids, self.model().ids, idk.0 as int);
            match (tpl, crate::ast::v_scope(*sc).template_parameters) {
                (Some(tk), Some(tv)) => {
                    lemma_mono_tpl(m2, self.model(), tk.0 as int, tv);
                },
                _ => {},
            }
            lemma_extends_trans(self.model(), m2, old(self).model());
        }
        IScope { id: idk, template_parameters: tpl, signature: sig }
    }

    /// Intern an unqualified id.
    pub fn intern_unqualified_id(&mut self, u: &crate::ast::UnqualifiedId) -> (r: IUnqualifiedId)
        requires
            old(self).wf(),
        ensures
            final(self).wf(),
            store_extends(final(self).model(), old(self).model()),
            repr_uid(final(self).model(), r, crate::ast::v_unqualified_id(*u)),
        decreases *u,
    {
        match u {
            crate::ast::UnqualifiedId::Named { id, template_parameters } => {
                let idk = self.intern_identifier(id);
                let ghost m1 = self.model();
                let tpl = match template_parameters {
                    Some(t) => Some(self.intern_template_parameters(t)),
                    None => None,
                };
                proof {
                    lemma_prefix_index(m1.ids, self.model().ids, idk.0 as int);
                    lemma_extends_trans(self.model(), m1, old(self).model());
                }
                IUnqualifiedId::Named { id: idk, template_parameters: tpl }
            },
            crate::ast::UnqualifiedId::OperatorName { operator, template_parameters } => {
                let io = self.intern_operator(&*operator);
                let ghost m1 = self.model();
                let tpl = match template_parameters {
                    Some(t) => Some(self.intern_template_parameters(t)),
                    None => None,
                };
                proof {
                    lemma_mono_op(
                        m1,
                        self.model(),
                        io,
                        crate::ast::v_operator(*(*operator)),
                    );
                    lemma_extends_trans(self.model(), m1, old(self).model());
                }
                IUnqualifiedId::OperatorName { operator: io, template_parameters: tpl }
            },
            crate::ast::UnqualifiedId::Destructor { id } => {
                let idk = self.intern_identifier(id);
                IUnqualifiedId::Destructor { id: idk }
            },
            crate::ast::UnqualifiedId::DecltypeAuto => IUnqualifiedId::DecltypeAuto,
            crate::ast::UnqualifiedId::Lambda(lam) => {
                let fk = self.intern_path(&lam.file);
                IUnqualifiedId::Lambda { file: fk, line: lam.line, col: lam.col }
            },
            crate::ast::UnqualifiedId::Anonymous { id } => {
                let idk = match id {
                    Some(s) => Some(self.intern_identifier(s)),
                    None => None,
                };
                IUnqualifiedId::Anonymous { id: idk }
            },
            crate::ast::UnqualifiedId::Unknown => IUnqualifiedId::Unknown,
        }
    }

    /// Intern an id-expression.
    pub fn intern_id_expression(&mut self, i: &crate::ast::IdExpression) -> (k: IdExprKey)
        requires
            old(self).wf(),
        ensures
            final(self).wf(),
            store_extends(final(self).model(), old(self).model()),
            repr_idexpr(final(self).model(), k.0 as int, crate::ast::v_id_expression(*i)),
        decreases *i,
    {
        let ghost iv = crate::ast::v_id_expression(*i);
        let ghost vs = crate::ast::v_scope_list(i.scopes@);
        proof {
            crate::ast::lemma_v_scope_list_index(i.scopes@);
        }
        let mut scopes: Vec<IScope> = Vec::new();
        let mut j: usize = 0;
        proof {
            assert(vs.subrange(0, 0) =~= Seq::<ScopeV>::empty());
        }
        while j < i.scopes.len()
            invariant
                old(self).wf(),
                self.wf(),
                store_extends(self.model(), old(self).model()),
                j <= i.scopes@.len(),
                scopes@.len() == j,
                vs.len() == i.scopes@.len(),
                vs == crate::ast::v_scope_list(i.scopes@),
                forall|q: int| 0 <= q < i.scopes@.len()
                    ==> vs[q] == crate::ast::v_scope(#[trigger] i.scopes@[q]),
                repr_scope_list(self.model(), scopes@, vs.subrange(0, j as int)),
            decreases i.scopes@.len() - j,
        {
            let ghost m1 = self.model();
            let isc = self.intern_scope(&i.scopes[j]);
            proof {
                lemma_mono_scope_list(m1, self.model(), scopes@, vs.subrange(0, j as int));
                lemma_extends_trans(self.model(), m1, old(self).model());
                assert(vs.subrange(0, j + 1).drop_last() =~= vs.subrange(0, j as int));
                assert(vs.subrange(0, j + 1).last() == vs[j as int]);
                assert((scopes@.push(isc)).drop_last() =~= scopes@);
            }
            scopes.push(isc);
            j = j + 1;
        }
        proof {
            assert(vs.subrange(0, vs.len() as int) =~= vs);
        }
        let ghost m1 = self.model();
        let iu = self.intern_unqualified_id(&i.id);
        proof {
            lemma_mono_scope_list(m1, self.model(), scopes@, vs);
            lemma_extends_trans(self.model(), m1, old(self).model());
        }
        let ghost m2 = self.model();
        let ent = Entity::IdExpr(IIdExpression { scopes, id: iu });
        proof {
            lemma_scope_list_bounds(m2, ent->IdExpr_0.scopes@, vs);
            assert(entity_wf(
                ent,
                m2.arena.len() as int,
                m2.ids.len() as int,
                m2.paths.len() as int,
            ));
        }
        let kk = self.find_or_push(ent);
        proof {
            lemma_mono_scope_list(
                m2,
                self.model(),
                self.model().arena[kk as int]->IdExpr_0.scopes@,
                vs,
            );
            lemma_mono_uid(m2, self.model(), self.model().arena[kk as int]->IdExpr_0.id, iv.id);
            lemma_extends_trans(self.model(), m2, old(self).model());
        }
        IdExprKey(kk)
    }

    /// Intern a value.
    pub fn intern_value(&mut self, v: &crate::ast::ValueLike) -> (k: ValueKey)
        requires
            old(self).wf(),
        ensures
            final(self).wf(),
            store_extends(final(self).model(), old(self).model()),
            repr_value(final(self).model(), k.0 as int, crate::ast::v_value_like(*v)),
        decreases *v,
    {
        let ghost vv = crate::ast::v_value_like(*v);
        match v {
            crate::ast::ValueLike::Literal(l) => {
                let il = self.intern_literal(l);
                let ghost m1 = self.model();
                let kk = self.find_or_push(Entity::Value(IValue::Literal(il)));
                proof {
                    match (il.custom_suffix, crate::ast::v_literal(*l).custom_suffix) {
                        (Some(ik), Some(sq)) => {
                            lemma_prefix_index(m1.ids, self.model().ids, ik.0 as int);
                        },
                        _ => {},
                    }
                    lemma_extends_trans(self.model(), m1, old(self).model());
                }
                ValueKey(kk)
            },
            crate::ast::ValueLike::IdExpression(i) => {
                let ik = self.intern_id_expression(&*i);
                let ghost m1 = self.model();
                let kk = self.find_or_push(Entity::Value(IValue::IdExpression(ik)));
                proof {
                    lemma_mono_idexpr(
                        m1,
                        self.model(),
                        ik.0 as int,
                        crate::ast::v_id_expression(*(*i)),
                    );
                    lemma_extends_trans(self.model(), m1, old(self).model());
                }
                ValueKey(kk)
            },
            crate::ast::ValueLike::UnaryOp(o, inner) => {
                let io = self.intern_operator(&*o);
                let ghost m1 = self.model();
                let ki = self.intern_value(&*inner);
                proof {
                    lemma_mono_op(m1, self.model(), io, crate::ast::v_operator(*(*o)));
                    lemma_extends_trans(self.model(), m1, old(self).model());
                }
                let ghost m2 = self.model();
                let kk = self.find_or_push(Entity::Value(IValue::UnaryOp(io, ki)));
                proof {
                    lemma_mono_op(m2, self.model(), io, crate::ast::v_operator(*(*o)));
                    lemma_mono_value(
                        m2,
                        self.model(),
                        ki.0 as int,
                        crate::ast::v_value_like(*(*inner)),
                    );
                    lemma_extends_trans(self.model(), m2, old(self).model());
                }
                ValueKey(kk)
            },
            crate::ast::ValueLike::BinaryOp(l, o, r) => {
                let kl = self.intern_value(&*l);
                let ghost m1 = self.model();
                let io = self.intern_operator(&*o);
                proof {
                    lemma_mono_value(
                        m1,
                        self.model(),
                        kl.0 as int,
                        crate::ast::v_value_like(*(*l)),
                    );
                    lemma_extends_trans(self.model(), m1, old(self).model());
                }
                let ghost m2 = self.model();
                let kr = self.intern_value(&*r);
                proof {
                    lemma_mono_value(
                        m2,
                        self.model(),
                        kl.0 as int,
                        crate::ast::v_value_like(*(*l)),
                    );
                    lemma_mono_op(m2, self.model(), io, crate::ast::v_operator(*(*o)));
                    lemma_extends_trans(self.model(), m2, old(self).model());
                }
                let ghost m3 = self.model();
                let kk = self.find_or_push(Entity::Value(IValue::BinaryOp(kl, io, kr)));
                proof {
                    lemma_mono_value(
                        m3,
                        self.model(),
                        kl.0 as int,
                        crate::ast::v_value_like(*(*l)),
                    );
                    lemma_mono_op(m3, self.model(), io, crate::ast::v_operator(*(*o)));
                    lemma_mono_value(
                        m3,
                        self.model(),
                        kr.0 as int,
                        crate::ast::v_value_like(*(*r)),
                    );
                    lemma_extends_trans(self.model(), m3, old(self).model());
                }
                ValueKey(kk)
            },
            crate::ast::ValueLike::Parens(inner) => {
                let ki = self.intern_value(&*inner);
                let ghost m1 = self.model();
                let kk = self.find_or_push(Entity::Value(IValue::Parens(ki)));
                proof {
                    lemma_mono_value(
                        m1,
                        self.model(),
                        ki.0 as int,
                        crate::ast::v_value_like(*(*inner)),
                    );
                    lemma_extends_trans(self.model(), m1, old(self).model());
                }
                ValueKey(kk)
            },
        }
    }

    /// Intern a type.  This is the entry point used by `parse_entity`; every
    /// distinct substructure it reaches is stored once.
    pub fn intern_type(&mut self, t: &crate::ast::TypeLike) -> (k: TypeKey)
        requires
            old(self).wf(),
        ensures
            final(self).wf(),
            store_extends(final(self).model(), old(self).model()),
            repr_type(final(self).model(), k.0 as int, crate::ast::v_type_like(*t)),
        decreases *t,
    {
        let ghost tv = crate::ast::v_type_like(*t);
        let simple = match &t.specifier.simple_type {
            crate::ast::SimpleType::LegacyName(l) => ISimpleType::LegacyName(*l),
            crate::ast::SimpleType::IdExpression(i) => ISimpleType::IdExpression(
                self.intern_id_expression(i),
            ),
        };
        let ghost m1 = self.model();
        let sig = match &t.signature {
            Some(b) => Some(self.intern_signature(&*b)),
            None => None,
        };
        proof {
            match (simple, tv.specifier.simple_type) {
                (ISimpleType::IdExpression(ik), SimpleTypeV::IdExpression(ve)) => {
                    lemma_mono_idexpr(m1, self.model(), ik.0 as int, ve);
                },
                _ => {},
            }
            lemma_extends_trans(self.model(), m1, old(self).model());
        }
        let ghost va = crate::ast::v_array_list(t.arrays@);
        proof {
            crate::ast::lemma_v_array_list_index(t.arrays@);
        }
        let mut arrs: Vec<Option<ValueKey>> = Vec::new();
        let mut i: usize = 0;
        proof {
            assert(va.subrange(0, 0) =~= Seq::<Option<Box<ValueLikeV>>>::empty());
        }
        while i < t.arrays.len()
            invariant
                old(self).wf(),
                self.wf(),
                store_extends(self.model(), old(self).model()),
                i <= t.arrays@.len(),
                arrs@.len() == i,
                va.len() == t.arrays@.len(),
                va == crate::ast::v_array_list(t.arrays@),
                forall|q: int| 0 <= q < t.arrays@.len() ==> va[q] == (match #[trigger] t.arrays@[q] {
                    Some(bv) => Some(Box::new(crate::ast::v_value_like(*bv))),
                    None => None,
                }),
                repr_array_list(self.model(), arrs@, va.subrange(0, i as int)),
                match (simple, tv.specifier.simple_type) {
                    (ISimpleType::LegacyName(l1), SimpleTypeV::LegacyName(l2)) => l1 == l2,
                    (ISimpleType::IdExpression(ik), SimpleTypeV::IdExpression(ve)) =>
                        repr_idexpr(self.model(), ik.0 as int, ve),
                    _ => false,
                },
                match (sig, tv.signature) {
                    (None, None) => true,
                    (Some(sk), Some(bs)) => repr_sig(self.model(), sk.0 as int, *bs),
                    _ => false,
                },
            decreases t.arrays@.len() - i,
        {
            let ghost m2 = self.model();
            let item: Option<ValueKey> = match &t.arrays[i] {
                Some(bv) => Some(self.intern_value(&*bv)),
                None => None,
            };
            proof {
                lemma_mono_array_list(m2, self.model(), arrs@, va.subrange(0, i as int));
                match (simple, tv.specifier.simple_type) {
                    (ISimpleType::IdExpression(ik), SimpleTypeV::IdExpression(ve)) => {
                        lemma_mono_idexpr(m2, self.model(), ik.0 as int, ve);
                    },
                    _ => {},
                }
                match (sig, tv.signature) {
                    (Some(sk), Some(bs)) => {
                        lemma_mono_sig(m2, self.model(), sk.0 as int, *bs);
                    },
                    _ => {},
                }
                lemma_extends_trans(self.model(), m2, old(self).model());
                assert(va.subrange(0, i + 1).drop_last() =~= va.subrange(0, i as int));
                assert(va.subrange(0, i + 1).last() == va[i as int]);
                assert((arrs@.push(item)).drop_last() =~= arrs@);
            }
            arrs.push(item);
            i = i + 1;
        }
        proof {
            assert(va.subrange(0, va.len() as int) =~= va);
        }
        let decls = copy_decls(&t.declarators);
        let ghost m3 = self.model();
        let ent = Entity::Type(IType {
            cv: t.specifier.cv,
            simple,
            declarators: decls,
            signature: sig,
            arrays: arrs,
        });
        proof {
            lemma_array_list_bounds(m3, ent->Type_0.arrays@, va);
            assert(entity_wf(
                ent,
                m3.arena.len() as int,
                m3.ids.len() as int,
                m3.paths.len() as int,
            ));
        }
        let kk = self.find_or_push(ent);
        proof {
            match (simple, tv.specifier.simple_type) {
                (ISimpleType::IdExpression(ik), SimpleTypeV::IdExpression(ve)) => {
                    lemma_mono_idexpr(m3, self.model(), ik.0 as int, ve);
                },
                _ => {},
            }
            match (sig, tv.signature) {
                (Some(sk), Some(bs)) => {
                    lemma_mono_sig(m3, self.model(), sk.0 as int, *bs);
                },
                _ => {},
            }
            lemma_mono_array_list(
                m3,
                self.model(),
                self.model().arena[kk as int]->Type_0.arrays@,
                va,
            );
            lemma_extends_trans(self.model(), m3, old(self).model());
        }
        TypeKey(kk)
    }
}

// ---------------------------------------------------------------------
// The public parsing interface
// ---------------------------------------------------------------------

/// Failure of an entity parse at the interface boundary
#[derive(Debug, PartialEq)]
pub enum ParseError {
    /// The parse succeeded but left unconsumed input; the tail is returned
    /// and nothing is stored.
    Incomplete(String),
    /// No grammar alternative matched at the given character offset; nothing
    /// is stored.
    Syntax(usize),
}

impl EntityParser {
    /// Parse a whole C++ entity name and intern it.
    ///
    /// On success the handle stands for the parsed type-like entity and the
    /// whole input was consumed.  On failure nothing is stored: an
    /// `Incomplete` error returns the unconsumed tail, and a `Syntax` error
    /// reports the offset at which the entity parse failed.
    pub fn parse_entity(&mut self, s: &str) -> (r: Result<TypeKey, ParseError>)
        requires
            old(self).wf(),
        ensures
            final(self).wf(),
            store_extends(final(self).model(), old(self).model()),
            match r {
                Ok(k) => {
                    &&& crate::grammar::sp_type_like(s@, 0) is Some
                    &&& crate::grammar::sp_type_like(s@, 0).unwrap().1 == s@.len()
                    &&& repr_type(
                        final(self).model(),
                        k.0 as int,
                        crate::grammar::sp_type_like(s@, 0).unwrap().0,
                    )
                },
                Err(ParseError::Incomplete(tail)) => {
                    &&& crate::grammar::sp_type_like(s@, 0) is Some
                    &&& crate::grammar::sp_type_like(s@, 0).unwrap().1 < s@.len()
                    &&& tail@ == s@.subrange(
                        crate::grammar::sp_type_like(s@, 0).unwrap().1,
                        s@.len() as int,
                    )
                    &&& final(self).model() == old(self).model()
                },
                Err(ParseError::Syntax(p)) => {
                    &&& crate::grammar::sp_type_like(s@, 0) is None
                    &&& p == 0
                    &&& final(self).model() == old(self).model()
                },
            },
    {
        let chars = crate::text::chars_of(s);
        match crate::grammar::type_like(&chars, 0) {
            None => {
                proof {
                    lemma_extends_refl(self.model());
                }
                Err(ParseError::Syntax(0))
            },
            Some((ast, p)) => {
                let n = chars.len();
                if p < n {
                    let mut tail_chars: Vec<char> = Vec::new();
                    let mut i: usize = p;
                    while i < n
                        invariant
                            p <= i <= n == chars@.len(),
                            tail_chars@ == chars@.subrange(p as int, i as int),
                        decreases n - i,
                    {
                        tail_chars.push(chars[i]);
                        assert(tail_chars@ =~= chars@.subrange(p as int, i + 1));
                        i = i + 1;
                    }
                    let tail = crate::text::string_from_chars(tail_chars);
                    proof {
                        lemma_extends_refl(self.model());
                    }
                    Err(ParseError::Incomplete(tail))
                } else {
                    let k = self.intern_type(&ast);
                    Ok(k)
                }
            },
        }
    }

    /// Parser for literals, interning any custom suffix
    pub fn parse_literal(&mut self, s: &str) -> (r: Option<(ILiteral, usize)>)
        requires
            old(self).wf(),
        ensures
            final(self).wf(),
            store_extends(final(self).model(), old(self).model()),
            match r {
                Some((lit, p)) => match crate::literals::sp_literal(s@, 0) {
                    Some((v, suf, q)) => {
                        &&& lit.value == v
                        &&& p as int == q
                        &&& match (lit.custom_suffix, suf) {
                            (None, None) => true,
                            (Some(i), Some(sq)) => repr_ident(final(self).model(), i.0 as int, sq),
                            _ => false,
                        }
                    },
                    None => false,
                },
                None => crate::literals::sp_literal(s@, 0) is None,
            },
    {
        let chars = crate::text::chars_of(s);
        match crate::literals::literal(&chars, 0) {
            Some((lit, p)) => {
                let il = self.intern_literal(&lit);
                Some((il, p))
            },
            None => {
                proof {
                    lemma_extends_refl(self.model());
                }
                None
            },
        }
    }

    /// Parser recognizing type specifiers, in the plain string-borrowed mode
    pub fn parse_type_specifier(&self, s: &str) -> (r: Option<(crate::ast::TypeSpecifier, usize)>)
        ensures
            match r {
                Some((t, p)) => crate::grammar::sp_type_specifier(s@, 0)
                    == Some((crate::ast::v_type_specifier(t), p as int)),
                None => crate::grammar::sp_type_specifier(s@, 0) is None,
            },
    {
        let chars = crate::text::chars_of(s);
        crate::grammar::type_specifier(&chars, 0)
    }

    /// Resolve a handle obtained from this store; infallible for handles the
    /// store handed out.
    pub fn entity(&self, k: TypeKey) -> (r: &Entity)
        requires
            k.0 < self.model().arena.len(),
        ensures
            *r == self.model().arena[k.0 as int],
    {
        &self.arena[k.0]
    }
}

// ---------------------------------------------------------------------
// Interning laws
// ---------------------------------------------------------------------

/// Interning idempotence: when a string parses, interning its parse twice
/// yields the same handle.  The first call leaves the store in a state where
/// the value is represented at `k1`; any later call on the grown store that
/// represents the same parse at `k2` must agree.
pub proof fn lemma_interning_idempotent(
    m1: StoreModel,
    m2: StoreModel,
    s: Seq<char>,
    k1: TypeKey,
    k2: TypeKey,
)
    requires
        store_wf(m2),
        store_extends(m2, m1),
        crate::grammar::sp_type_like(s, 0) is Some,
        repr_type(m1, k1.0 as int, crate::grammar::sp_type_like(s, 0).unwrap().0),
        repr_type(m2, k2.0 as int, crate::grammar::sp_type_like(s, 0).unwrap().0),
    ensures
        k1 == k2,
{
    lemma_mono_type(m1, m2, k1.0 as int, crate::grammar::sp_type_like(s, 0).unwrap().0);
    lemma_uniq_type(m2, k1.0 as int, k2.0 as int, crate::grammar::sp_type_like(s, 0).unwrap().0);
}

/// Structural equality implies handle equality: two inputs that parse to the
/// same structural value receive equal type handles, even when their
/// spellings differ.
pub proof fn lemma_structural_equality(
    m1: StoreModel,
    m2: StoreModel,
    s1: Seq<char>,
    s2: Seq<char>,
    k1: TypeKey,
    k2: TypeKey,
)
    requires
        store_wf(m2),
        store_extends(m2, m1),
        crate::grammar::sp_type_like(s1, 0) is Some,
        crate::grammar::sp_type_like(s2, 0) is Some,
        crate::grammar::sp_type_like(s1, 0).unwrap().0 == crate::grammar::sp_type_like(s2, 0).unwrap().0,
        repr_type(m1, k1.0 as int, crate::grammar::sp_type_like(s1, 0).unwrap().0),
        repr_type(m2, k2.0 as int, crate::grammar::sp_type_like(s2, 0).unwrap().0),
    ensures
        k1 == k2,
{
    lemma_mono_type(m1, m2, k1.0 as int, crate::grammar::sp_type_like(s1, 0).unwrap().0);
    lemma_uniq_type(
        m2,
        k1.0 as int,
        k2.0 as int,
        crate::grammar::sp_type_like(s1, 0).unwrap().0,
    );
}

// ---------------------------------------------------------------------
// Read access for the display layer
// ---------------------------------------------------------------------

impl EntityParser {
    /// Text of an interned identifier
    pub fn ident_text(&self, i: IdentifierKey) -> (r: &String)
        requires
            i.0 < self.model().ids.len(),
        ensures
            r@ == self.model().ids[i.0 as int],
    {
        &self.idents[i.0]
    }

    /// Text of an interned path
    pub fn path_text(&self, i: PathKey) -> (r: &String)
        requires
            i.0 < self.model().paths.len(),
        ensures
            r@ == self.model().paths[i.0 as int],
    {
        &self.paths[i.0]
    }

    /// The arena entry at an index
    pub fn entry(&self, j: usize) -> (r: &Entity)
        requires
            j < self.model().arena.len(),
        ensures
            *r == self.model().arena[j as int],
    {
        &self.arena[j]
    }
}

/// Pointwise reading of a represented scope list
pub proof fn lemma_scope_list_pointwise(m: StoreModel, ks: Seq<IScope>, vs: Seq<ScopeV>)
    requires
        repr_scope_list(m, ks, vs),
    ensures
        ks.len() == vs.len(),
        forall|j: int| 0 <= j < ks.len() ==> repr_scope(m, #[trigger] ks[j], vs[j]),
    decreases vs,
{
    if vs.len() > 0 {
        lemma_scope_list_pointwise(m, ks.drop_last(), vs.drop_last());
        assert(forall|j: int| 0 <= j < ks.len() - 1
            ==> ks[j] == ks.drop_last()[j] && vs[j] == vs.drop_last()[j]);
        assert(ks[ks.len() - 1] == ks.last() && vs[vs.len() - 1] == vs.last());
    }
}

/// Pointwise reading of a represented template-parameter list
pub proof fn lemma_tplparam_list_pointwise(
    m: StoreModel,
    ks: Seq<ITemplateParameter>,
    vs: Seq<TemplateParameterV>,
)
    requires
        repr_tplparam_list(m, ks, vs),
    ensures
        ks.len() == vs.len(),
        forall|j: int| 0 <= j < ks.len() ==> match (#[trigger] ks[j], vs[j]) {
            (ITemplateParameter::TypeLike(tk), TemplateParameterV::TypeLike(tv)) =>
                repr_type(m, tk.0 as int, tv),
            (ITemplateParameter::ValueLike(vk), TemplateParameterV::ValueLike(vv)) =>
                repr_value(m, vk.0 as int, vv),
            _ => false,
        },
    decreases vs,
{
    if vs.len() > 0 {
        lemma_tplparam_list_pointwise(m, ks.drop_last(), vs.drop_last());
        assert(forall|j: int| 0 <= j < ks.len() - 1
            ==> ks[j] == ks.drop_last()[j] && vs[j] == vs.drop_last()[j]);
        assert(ks[ks.len() - 1] == ks.last() && vs[vs.len() - 1] == vs.last());
    }
}

/// Pointwise reading of a represented parameter-type list
pub proof fn lemma_type_list_pointwise(m: StoreModel, ks: Seq<TypeKey>, vs: Seq<TypeLikeV>)
    requires
        repr_type_list(m, ks, vs),
    ensures
        ks.len() == vs.len(),
        forall|j: int| 0 <= j < ks.len() ==> repr_type(m, (#[trigger] ks[j]).0 as int, vs[j]),
    decreases vs,
{
    if vs.len() > 0 {
        lemma_type_list_pointwise(m, ks.drop_last(), vs.drop_last());
        assert(forall|j: int| 0 <= j < ks.len() - 1
            ==> ks[j] == ks.drop_last()[j] && vs[j] == vs.drop_last()[j]);
        assert(ks[ks.len() - 1] == ks.last() && vs[vs.len() - 1] == vs.last());
    }
}

/// Pointwise reading of a represented array-extent list
pub proof fn lemma_array_list_pointwise(
    m: StoreModel,
    ks: Seq<Option<ValueKey>>,
    vs: Seq<Option<Box<ValueLikeV>>>,
)
    requires
        repr_array_list(m, ks, vs),
    ensures
        ks.len() == vs.len(),
        forall|j: int| 0 <= j < ks.len() ==> match (#[trigger] ks[j], vs[j]) {
            (None, None) => true,
            (Some(vk), Some(bv)) => repr_value(m, vk.0 as int, *bv),
            _ => false,
        },
    decreases vs,
{
    if vs.len() > 0 {
        lemma_array_list_pointwise(m, ks.drop_last(), vs.drop_last());
        assert(forall|j: int| 0 <= j < ks.len() - 1
            ==> ks[j] == ks.drop_last()[j] && vs[j] == vs.drop_last()[j]);
        assert(ks[ks.len() - 1] == ks.last() && vs[vs.len() - 1] == vs.last());
    }
}

/// A read-only view of a store, for sharing once parsing is done
pub struct FrozenEntities {
    /// The frozen store
    parser: EntityParser,
}

impl EntityParser {
    /// Freeze this store into a read-only view.  Every handle handed out so
    /// far keeps its meaning in the frozen view.
    pub fn finalize(self) -> (r: FrozenEntities)
        ensures
            r.entities() == self,
    {
        FrozenEntities { parser: self }
    }
}

impl FrozenEntities {
    /// The store inside the frozen view
    pub closed spec fn entities(self) -> EntityParser {
        self.parser
    }

    /// Read access to the frozen store
    pub fn parser(&self) -> (r: &EntityParser)
        ensures
            *r == self.entities(),
    {
        &self.parser
    }
}

} // verus!
