//! Width-bounded display of interned entities.
//!
//! Rendering is specified as a pure function of the entity's structural
//! value, parameterized by an elision level.  `bounded_display` walks a fixed
//! chain of ever-more-elided renderings — full, template arguments elided,
//! signature parameters elided, inner scopes elided, all scopes elided, and
//! finally a bare ellipsis — and returns the first one that fits the column
//! budget.

use vstd::prelude::*;
use crate::ast::{
    FunctionSignatureV, IdExpressionV, LiteralV, OperatorV, ScopeV, SimpleTypeV,
    TemplateParameterV, TemplateParametersV, TypeLikeV, UnqualifiedIdV, ValueLikeV,
};
use crate::atoms::{ConstVolatile, Reference, Symbol};
use crate::legacy::LegacyName;
use crate::literals::LiteralValue;
use crate::text::{col_width_of, sp_width};

verus! {

/// How many scope components of an id-expression are kept
#[derive(Debug, PartialEq, Eq, Clone, Copy, Structural)]
pub enum ScopeMode {
    /// Keep every scope
    KeepAll,
    /// Keep the outermost scope, eliding the rest
    KeepFirst,
    /// Elide every scope
    KeepNone,
}

/// An elision level for rendering
#[derive(Debug, PartialEq, Eq, Clone, Copy, Structural)]
pub struct Elision {
    /// Replace template-argument lists by an ellipsis
    pub tpl: bool,
    /// Replace function-signature parameter lists by an ellipsis
    pub sig: bool,
    /// How scope chains are shortened
    pub scopes: ScopeMode,
}

/// The character a symbol is spelled with
pub open spec fn sp_symbol_char(sym: Symbol) -> char {
    match sym {
        Symbol::AddPlus => '+',
        Symbol::SubNeg => '-',
        Symbol::MulDeref => '*',
        Symbol::Div => '/',
        Symbol::Mod => '%',
        Symbol::Xor => '^',
        Symbol::AndRef => '&',
        Symbol::Or => '|',
        Symbol::BitNot => '~',
        Symbol::Not => '!',
        Symbol::AssignEq => '=',
        Symbol::Less => '<',
        Symbol::Greater => '>',
        Symbol::Comma => ',',
    }
}

/// Canonical spelling of a legacy primitive name
pub open spec fn sp_legacy_chars(l: LegacyName) -> Seq<char> {
    match l {
        LegacyName::Void => "void"@,
        LegacyName::Bool => "bool"@,
        LegacyName::Char => "char"@,
        LegacyName::SignedChar => "signed char"@,
        LegacyName::UnsignedChar => "unsigned char"@,
        LegacyName::WChar => "wchar_t"@,
        LegacyName::Char8 => "char8_t"@,
        LegacyName::Char16 => "char16_t"@,
        LegacyName::Char32 => "char32_t"@,
        LegacyName::Short => "short"@,
        LegacyName::UnsignedShort => "unsigned short"@,
        LegacyName::Int => "int"@,
        LegacyName::UnsignedInt => "unsigned int"@,
        LegacyName::Long => "long"@,
        LegacyName::UnsignedLong => "unsigned long"@,
        LegacyName::LongLong => "long long"@,
        LegacyName::UnsignedLongLong => "unsigned long long"@,
        LegacyName::Int128 => "__int128"@,
        LegacyName::UnsignedInt128 => "unsigned __int128"@,
        LegacyName::Float => "float"@,
        LegacyName::Double => "double"@,
        LegacyName::LongDouble => "long double"@,
    }
}

/// Decimal spelling of a nonnegative number
pub open spec fn sp_udec(n: int) -> Seq<char>
    decreases n,
{
    if n < 10 {
        seq![sp_digit_char(if n < 0 { 0 } else { n % 10 })]
    } else {
        sp_udec(n / 10).push(sp_digit_char(n % 10))
    }
}

/// The character of one decimal digit
pub open spec fn sp_digit_char(d: int) -> char {
    if d == 0 { '0' }
    else if d == 1 { '1' }
    else if d == 2 { '2' }
    else if d == 3 { '3' }
    else if d == 4 { '4' }
    else if d == 5 { '5' }
    else if d == 6 { '6' }
    else if d == 7 { '7' }
    else if d == 8 { '8' }
    else { '9' }
}

/// Decimal spelling of a signed number
pub open spec fn sp_idec(n: int) -> Seq<char> {
    if n < 0 {
        seq!['-'] + sp_udec(-n)
    } else {
        sp_udec(n)
    }
}

/// CV qualifiers as a type prefix, each followed by a space
pub open spec fn sp_cv_prefix(cv: ConstVolatile) -> Seq<char> {
    (if cv.is_const { "const "@ } else { Seq::empty() })
        + (if cv.is_volatile { "volatile "@ } else { Seq::empty() })
}

/// CV qualifiers as a signature suffix, each preceded by a space
pub open spec fn sp_cv_suffix(cv: ConstVolatile) -> Seq<char> {
    (if cv.is_const { " const"@ } else { Seq::empty() })
        + (if cv.is_volatile { " volatile"@ } else { Seq::empty() })
}

/// Reference qualifier as a signature suffix
pub open spec fn sp_ref_suffix(r: Reference) -> Seq<char> {
    match r {
        Reference::NoRef => Seq::empty(),
        Reference::LValue => " &"@,
        Reference::RValue => " &&"@,
    }
}

/// Rendering of a literal
pub open spec fn sp_render_literal(l: LiteralV) -> Seq<char> {
    (match l.value {
        LiteralValue::I64(i) => sp_idec(i as int),
        LiteralValue::U64(u) => sp_udec(u as int),
        LiteralValue::Char(c) => seq!['\''] + seq![c] + seq!['\''],
    }) + (match l.custom_suffix {
        Some(s) => s,
        None => Seq::empty(),
    })
}

/// Rendering of a declarator chain
pub open spec fn sp_render_decls(ds: Seq<crate::ast::DeclOperator>) -> Seq<char>
    decreases ds,
{
    if ds.len() == 0 {
        Seq::empty()
    } else {
        sp_render_decls(ds.drop_last()) + (match ds.last() {
            crate::ast::DeclOperator::Pointer(cv) => seq!['*'] + sp_cv_suffix(cv),
            crate::ast::DeclOperator::LRef => seq!['&'],
            crate::ast::DeclOperator::RRef => seq!['&', '&'],
        })
    }
}

/// Rendering of an operator-overload name, after the `operator` keyword
pub open spec fn sp_render_op(o: OperatorV, e: Elision) -> Seq<char>
    decreases o,
{
    match o {
        OperatorV::Basic { symbol, twice, equal } => seq![sp_symbol_char(symbol)]
            + (if twice { seq![sp_symbol_char(symbol)] } else { Seq::empty() })
            + (if equal { seq!['='] } else { Seq::empty() }),
        OperatorV::Deref { star } => if star { "->*"@ } else { "->"@ },
        OperatorV::Spaceship => "<=>"@,
        OperatorV::CallIndex { is_index } => if is_index { "[]"@ } else { "()"@ },
        OperatorV::CustomLiteral(s) => "\"\" "@ + s,
        OperatorV::NewDelete { is_delete, array } => (if is_delete { " delete"@ } else { " new"@ })
            + (if array { "[]"@ } else { Seq::empty() }),
        OperatorV::CoAwait => " co_await"@,
        OperatorV::Conversion(t) => seq![' '] + sp_render_type(*t, e),
    }
}

/// Rendering of a template-parameter list
pub open spec fn sp_render_tpl(t: TemplateParametersV, e: Elision) -> Seq<char>
    decreases t,
{
    match t {
        TemplateParametersV::Ambiguous => "<, void>"@,
        TemplateParametersV::Resolved(ps) => if e.tpl {
            "<\u{2026}>"@
        } else {
            seq!['<'] + sp_join_tplparams(ps, e) + seq!['>']
        },
    }
}

/// Comma-joined template parameters
pub open spec fn sp_join_tplparams(ps: Seq<TemplateParameterV>, e: Elision) -> Seq<char>
    decreases ps,
{
    if ps.len() == 0 {
        Seq::empty()
    } else if ps.len() == 1 {
        sp_render_tplparam(ps.last(), e)
    } else {
        sp_join_tplparams(ps.drop_last(), e) + ", "@ + sp_render_tplparam(ps.last(), e)
    }
}

/// Rendering of one template parameter
pub open spec fn sp_render_tplparam(p: TemplateParameterV, e: Elision) -> Seq<char>
    decreases p,
{
    match p {
        TemplateParameterV::TypeLike(t) => sp_render_type(t, e),
        TemplateParameterV::ValueLike(v) => sp_render_value(v, e),
    }
}

/// Rendering of a function signature
pub open spec fn sp_render_sig(f: FunctionSignatureV, e: Elision) -> Seq<char>
    decreases f,
{
    if e.sig {
        "(\u{2026})"@
    } else {
        seq!['('] + sp_join_params(f.parameters, e) + seq![')'] + sp_cv_suffix(f.cv)
            + sp_ref_suffix(f.reference) + (match f.noexcept {
            None => Seq::empty(),
            Some(None) => " noexcept"@,
            Some(Some(v)) => " noexcept("@ + sp_render_value(*v, e) + seq![')'],
        })
    }
}

/// Comma-joined parameter types
pub open spec fn sp_join_params(ps: Seq<TypeLikeV>, e: Elision) -> Seq<char>
    decreases ps,
{
    if ps.len() == 0 {
        Seq::empty()
    } else if ps.len() == 1 {
        sp_render_type(ps.last(), e)
    } else {
        sp_join_params(ps.drop_last(), e) + ", "@ + sp_render_type(ps.last(), e)
    }
}

/// Rendering of the scope part of an id-expression
pub open spec fn sp_render_scopes(ss: Seq<ScopeV>, e: Elision) -> Seq<char>
    decreases ss, 1int,
{
    match e.scopes {
        ScopeMode::KeepAll => sp_render_scopes_all(ss, e),
        ScopeMode::KeepFirst => if ss.len() >= 2 {
            sp_render_scope(ss[0], e) + "::\u{2026}::"@
        } else {
            sp_render_scopes_all(ss, e)
        },
        ScopeMode::KeepNone => if ss.len() >= 1 {
            "\u{2026}::"@
        } else {
            Seq::empty()
        },
    }
}

/// Every scope rendered, each followed by `::`
pub open spec fn sp_render_scopes_all(ss: Seq<ScopeV>, e: Elision) -> Seq<char>
    decreases ss, 0int,
{
    if ss.len() == 0 {
        Seq::empty()
    } else {
        sp_render_scopes_all(ss.drop_last(), e) + sp_render_scope(ss.last(), e) + "::"@
    }
}

/// Rendering of one scope component
pub open spec fn sp_render_scope(s: ScopeV, e: Elision) -> Seq<char>
    decreases s,
{
    s.id + (match s.template_parameters {
        Some(t) => sp_render_tpl(t, e),
        None => Seq::empty(),
    }) + (match s.signature {
        Some(f) => sp_render_sig(*f, e),
        None => Seq::empty(),
    })
}

/// Rendering of an unqualified id
pub open spec fn sp_render_uid(u: UnqualifiedIdV, e: Elision) -> Seq<char>
    decreases u,
{
    match u {
        UnqualifiedIdV::Named { id, template_parameters } => id + (match template_parameters {
            Some(t) => sp_render_tpl(t, e),
            None => Seq::empty(),
        }),
        UnqualifiedIdV::OperatorName { operator, template_parameters } => "operator"@
            + sp_render_op(*operator, e) + (match template_parameters {
            Some(t) => sp_render_tpl(t, e),
            None => Seq::empty(),
        }),
        UnqualifiedIdV::Destructor { id } => seq!['~'] + id,
        UnqualifiedIdV::DecltypeAuto => "decltype(auto)"@,
        UnqualifiedIdV::Lambda { file, line, col } => "(lambda at "@ + file + seq![':']
            + sp_udec(line as int) + seq![':'] + sp_udec(col as int) + seq![')'],
        UnqualifiedIdV::Anonymous { id } => match id {
            Some(s) => "(anonymous "@ + s + seq![')'],
            None => "(anonymous)"@,
        },
        UnqualifiedIdV::Unknown => "<unknown>"@,
    }
}

/// Rendering of an id-expression
pub open spec fn sp_render_idexpr(i: IdExpressionV, e: Elision) -> Seq<char>
    decreases i,
{
    sp_render_scopes(i.scopes, e) + sp_render_uid(i.id, e)
}

/// Rendering of a value
pub open spec fn sp_render_value(v: ValueLikeV, e: Elision) -> Seq<char>
    decreases v,
{
    match v {
        ValueLikeV::Literal(l) => sp_render_literal(l),
        ValueLikeV::IdExpression(i) => sp_render_idexpr(*i, e),
        ValueLikeV::UnaryOp(o, inner) => sp_render_op(*o, e) + sp_render_value(*inner, e),
        ValueLikeV::BinaryOp(l, o, r) => sp_render_value(*l, e) + sp_render_op(*o, e)
            + sp_render_value(*r, e),
        ValueLikeV::Parens(inner) => seq!['('] + sp_render_value(*inner, e) + seq![')'],
    }
}

/// Rendering of the array-extent suffix
pub open spec fn sp_render_arrays(a: Seq<Option<Box<ValueLikeV>>>, e: Elision) -> Seq<char>
    decreases a,
{
    if a.len() == 0 {
        Seq::empty()
    } else {
        sp_render_arrays(a.drop_last(), e) + (match a.last() {
            None => "[]"@,
            Some(v) => seq!['['] + sp_render_value(*v, e) + seq![']'],
        })
    }
}

/// Rendering of a type at an elision level
pub open spec fn sp_render_type(t: TypeLikeV, e: Elision) -> Seq<char>
    decreases t,
{
    sp_cv_prefix(t.specifier.cv) + (match t.specifier.simple_type {
        SimpleTypeV::LegacyName(l) => sp_legacy_chars(l),
        SimpleTypeV::IdExpression(i) => sp_render_idexpr(i, e),
    }) + sp_render_decls(t.declarators) + (match t.signature {
        Some(f) => sp_render_sig(*f, e),
        None => Seq::empty(),
    }) + sp_render_arrays(t.arrays, e)
}

// ---------------------------------------------------------------------
// The candidate chain and the choice of rendering
// ---------------------------------------------------------------------

/// The elision level of candidate `j`; later candidates elide template
/// arguments first, then signature parameters, then scopes.
pub open spec fn sp_elision(j: int) -> Elision {
    Elision {
        tpl: j >= 1,
        sig: j >= 2,
        scopes: if j >= 4 {
            ScopeMode::KeepNone
        } else if j >= 3 {
            ScopeMode::KeepFirst
        } else {
            ScopeMode::KeepAll
        },
    }
}

/// Candidate rendering `j` of an entity; candidate 5 is a bare ellipsis.
pub open spec fn sp_candidate(t: TypeLikeV, j: int) -> Seq<char> {
    if j >= 5 {
        seq!['\u{2026}']
    } else {
        sp_render_type(t, sp_elision(j))
    }
}

/// The first candidate from `j` on that fits the budget; candidate 5 is
/// taken as the last resort.
pub open spec fn sp_chosen_from(t: TypeLikeV, budget: int, j: int) -> int
    decreases 5 - j when j <= 5
{
    if j >= 5 {
        5
    } else if sp_width(sp_candidate(t, j)) <= budget {
        j
    } else {
        sp_chosen_from(t, budget, j + 1)
    }
}

/// The candidate index that `bounded_display` renders at this budget
pub open spec fn sp_chosen(t: TypeLikeV, budget: int) -> int {
    sp_chosen_from(t, budget, 0)
}

/// The chosen candidate lies between the starting index and the last resort.
pub proof fn lemma_chosen_range(t: TypeLikeV, budget: int, j: int)
    requires
        0 <= j <= 5,
    ensures
        j <= sp_chosen_from(t, budget, j) <= 5,
    decreases 5 - j,
{
    if j < 5 && sp_width(sp_candidate(t, j)) > budget {
        lemma_chosen_range(t, budget, j + 1);
    }
}

/// Truncation monotonicity: a smaller budget never picks an earlier, more
/// detailed candidate.  Shrinking the budget can only move the rendering
/// further along the elision chain, so no token that was elided reappears.
pub proof fn lemma_truncation_monotonic(t: TypeLikeV, n1: int, n2: int)
    requires
        n1 <= n2,
    ensures
        sp_chosen(t, n1) >= sp_chosen(t, n2),
{
    lemma_chosen_antitone(t, n1, n2, 0);
}

proof fn lemma_chosen_antitone(t: TypeLikeV, n1: int, n2: int, j: int)
    requires
        n1 <= n2,
        0 <= j <= 5,
    ensures
        sp_chosen_from(t, n1, j) >= sp_chosen_from(t, n2, j),
    decreases 5 - j,
{
    if j < 5 {
        if sp_width(sp_candidate(t, j)) <= n1 {
        } else if sp_width(sp_candidate(t, j)) <= n2 {
            lemma_chosen_range(t, n1, j + 1);
        } else {
            lemma_chosen_antitone(t, n1, n2, j + 1);
        }
    }
}

/// Scope elision priority: the elision chain drops template arguments
/// before signature parameters, those before inner scopes, scopes before
/// the whole name.  Together with [`lemma_truncation_monotonic`] this pins
/// the order in which a rendering loses detail as the budget shrinks.
pub proof fn lemma_elision_priority(j1: int, j2: int)
    requires
        0 <= j1 <= j2 <= 5,
    ensures
        sp_elision(j1).tpl ==> sp_elision(j2).tpl,
        sp_elision(j1).sig ==> sp_elision(j2).sig,
        sp_elision(j1).scopes == ScopeMode::KeepFirst ==> sp_elision(j2).scopes != ScopeMode::KeepAll,
        sp_elision(j1).sig ==> sp_elision(j1).tpl,
        sp_elision(j1).scopes != ScopeMode::KeepAll ==> sp_elision(j1).sig,
{
}

// ---------------------------------------------------------------------
// Executable rendering
// ---------------------------------------------------------------------

/// Append the characters of a literal piece
fn append_lit(out: &mut Vec<char>, s: &str)
    ensures
        final(out)@ == old(out)@ + s@,
{
    let cs = crate::text::chars_of(s);
    let mut i: usize = 0;
    while i < cs.len()
        invariant
            i <= cs@.len(),
            cs@ == s@,
            out@ == old(out)@ + s@.subrange(0, i as int),
        decreases cs@.len() - i,
    {
        out.push(cs[i]);
        assert(out@ =~= old(out)@ + s@.subrange(0, i + 1));
        i = i + 1;
    }
    assert(out@ =~= old(out)@ + s@);
}

/// Append another buffer
fn append_chars(out: &mut Vec<char>, mut part: Vec<char>)
    ensures
        final(out)@ == old(out)@ + part@,
{
    let n = part.len();
    let mut i: usize = 0;
    while i < n
        invariant
            n == part@.len(),
            i <= n,
            out@ == old(out)@ + part@.subrange(0, i as int),
        decreases n - i,
    {
        out.push(part[i]);
        assert(out@ =~= old(out)@ + part@.subrange(0, i + 1));
        i = i + 1;
    }
    assert(out@ =~= old(out)@ + part@);
}

/// The character of one decimal digit
fn digit_char_of(d: u64) -> (c: char)
    requires
        d < 10,
    ensures
        c == sp_digit_char(d as int),
{
    if d == 0 { '0' }
    else if d == 1 { '1' }
    else if d == 2 { '2' }
    else if d == 3 { '3' }
    else if d == 4 { '4' }
    else if d == 5 { '5' }
    else if d == 6 { '6' }
    else if d == 7 { '7' }
    else if d == 8 { '8' }
    else { '9' }
}

/// Decimal rendering of an unsigned number
fn u64_chars(n: u64) -> (out: Vec<char>)
    ensures
        out@ == sp_udec(n as int),
    decreases n,
{
    if n < 10 {
        let mut out: Vec<char> = Vec::new();
        out.push(digit_char_of(n));
        assert(out@ =~= seq![sp_digit_char(n as int)]);
        assert(n as int % 10 == n as int);
        out
    } else {
        let mut out = u64_chars(n / 10);
        out.push(digit_char_of(n % 10));
        out
    }
}

/// Decimal rendering of a signed number
fn i64_chars(n: i64) -> (out: Vec<char>)
    ensures
        out@ == sp_idec(n as int),
{
    if n < 0 {
        let mag: u64 = if n == i64::MIN {
            0x8000_0000_0000_0000u64
        } else {
            (-n) as u64
        };
        assert(mag as int == -(n as int));
        let mut out: Vec<char> = Vec::new();
        out.push('-');
        let digits = u64_chars(mag);
        append_chars(&mut out, digits);
        assert(out@ =~= seq!['-'] + sp_udec(mag as int));
        out
    } else {
        u64_chars(n as u64)
    }
}

/// Decimal rendering of a signed number, for public use
pub fn number_chars(n: i64) -> (out: Vec<char>)
    ensures
        out@ == sp_idec(n as int),
{
    i64_chars(n)
}

/// Spelling of one operator symbol
fn symbol_char(sym: Symbol) -> (c: char)
    ensures
        c == sp_symbol_char(sym),
{
    match sym {
        Symbol::AddPlus => '+',
        Symbol::SubNeg => '-',
        Symbol::MulDeref => '*',
        Symbol::Div => '/',
        Symbol::Mod => '%',
        Symbol::Xor => '^',
        Symbol::AndRef => '&',
        Symbol::Or => '|',
        Symbol::BitNot => '~',
        Symbol::Not => '!',
        Symbol::AssignEq => '=',
        Symbol::Less => '<',
        Symbol::Greater => '>',
        Symbol::Comma => ',',
    }
}

/// Canonical spelling of a legacy primitive name
fn legacy_chars(l: LegacyName) -> (out: Vec<char>)
    ensures
        out@ == sp_legacy_chars(l),
{
    match l {
        LegacyName::Void => crate::text::chars_of("void"),
        LegacyName::Bool => crate::text::chars_of("bool"),
        LegacyName::Char => crate::text::chars_of("char"),
        LegacyName::SignedChar => crate::text::chars_of("signed char"),
        LegacyName::UnsignedChar => crate::text::chars_of("unsigned char"),
        LegacyName::WChar => crate::text::chars_of("wchar_t"),
        LegacyName::Char8 => crate::text::chars_of("char8_t"),
        LegacyName::Char16 => crate::text::chars_of("char16_t"),
        LegacyName::Char32 => crate::text::chars_of("char32_t"),
        LegacyName::Short => crate::text::chars_of("short"),
        LegacyName::UnsignedShort => crate::text::chars_of("unsigned short"),
        LegacyName::Int => crate::text::chars_of("int"),
        LegacyName::UnsignedInt => crate::text::chars_of("unsigned int"),
        LegacyName::Long => crate::text::chars_of("long"),
        LegacyName::UnsignedLong => crate::text::chars_of("unsigned long"),
        LegacyName::LongLong => crate::text::chars_of("long long"),
        LegacyName::UnsignedLongLong => crate::text::chars_of("unsigned long long"),
        LegacyName::Int128 => crate::text::chars_of("__int128"),
        LegacyName::UnsignedInt128 => crate::text::chars_of("unsigned __int128"),
        LegacyName::Float => crate::text::chars_of("float"),
        LegacyName::Double => crate::text::chars_of("double"),
        LegacyName::LongDouble => crate::text::chars_of("long double"),
    }
}

/// CV qualifiers as a type prefix
fn cv_prefix_chars(cv: ConstVolatile) -> (out: Vec<char>)
    ensures
        out@ == sp_cv_prefix(cv),
{
    let mut out: Vec<char> = Vec::new();
    if cv.is_const {
        append_lit(&mut out, "const ");
    }
    if cv.is_volatile {
        append_lit(&mut out, "volatile ");
    }
    assert(out@ =~= sp_cv_prefix(cv));
    out
}

/// CV qualifiers as a suffix
fn cv_suffix_chars(cv: ConstVolatile) -> (out: Vec<char>)
    ensures
        out@ == sp_cv_suffix(cv),
{
    let mut out: Vec<char> = Vec::new();
    if cv.is_const {
        append_lit(&mut out, " const");
    }
    if cv.is_volatile {
        append_lit(&mut out, " volatile");
    }
    assert(out@ =~= sp_cv_suffix(cv));
    out
}

impl crate::intern::EntityParser {
    /// Render an interned literal
    fn render_literal(&self, l: crate::intern::ILiteral, Ghost(lv): Ghost<LiteralV>)
        -> (out: Vec<char>)
        requires
            self.wf(),
            l.value == lv.value,
            match (l.custom_suffix, lv.custom_suffix) {
                (None, None) => true,
                (Some(i), Some(sq)) => crate::intern::repr_ident(self.model(), i.0 as int, sq),
                _ => false,
            },
        ensures
            out@ == sp_render_literal(lv),
    {
        let mut out: Vec<char> = match l.value {
            LiteralValue::I64(i) => i64_chars(i),
            LiteralValue::U64(u) => u64_chars(u),
            LiteralValue::Char(c) => {
                let mut v: Vec<char> = Vec::new();
                v.push('\'');
                v.push(c);
                v.push('\'');
                assert(v@ =~= seq!['\''] + seq![c] + seq!['\'']);
                v
            },
        };
        match l.custom_suffix {
            Some(i) => {
                let txt = self.ident_text(i);
                let cs = crate::text::chars_of(txt.as_str());
                append_chars(&mut out, cs);
            },
            None => {},
        }
        assert(out@ =~= sp_render_literal(lv));
        out
    }

    /// Render an interned operator name
    fn render_op(&self, o: crate::intern::IOperator, e: Elision, Ghost(ov): Ghost<OperatorV>)
        -> (out: Vec<char>)
        requires
            self.wf(),
            crate::intern::repr_op(self.model(), o, ov),
        ensures
            out@ == sp_render_op(ov, e),
        decreases ov,
    {
        match o {
            crate::intern::IOperator::Basic { symbol, twice, equal } => {
                let mut out: Vec<char> = Vec::new();
                out.push(symbol_char(symbol));
                if twice {
                    out.push(symbol_char(symbol));
                }
                if equal {
                    out.push('=');
                }
                assert(out@ =~= sp_render_op(ov, e));
                out
            },
            crate::intern::IOperator::Deref { star } => {
                if star {
                    crate::text::chars_of("->*")
                } else {
                    crate::text::chars_of("->")
                }
            },
            crate::intern::IOperator::Spaceship => crate::text::chars_of("<=>"),
            crate::intern::IOperator::CallIndex { is_index } => {
                if is_index {
                    crate::text::chars_of("[]")
                } else {
                    crate::text::chars_of("()")
                }
            },
            crate::intern::IOperator::CustomLiteral(i) => {
                let mut out = crate::text::chars_of("\"\" ");
                let txt = self.ident_text(i);
                let cs = crate::text::chars_of(txt.as_str());
                append_chars(&mut out, cs);
                out
            },
            crate::intern::IOperator::NewDelete { is_delete, array } => {
                let mut out = if is_delete {
                    crate::text::chars_of(" delete")
                } else {
                    crate::text::chars_of(" new")
                };
                if array {
                    append_lit(&mut out, "[]");
                }
                assert(out@ =~= sp_render_op(ov, e));
                out
            },
            crate::intern::IOperator::CoAwait => crate::text::chars_of(" co_await"),
            crate::intern::IOperator::Conversion(tk) => {
                let ghost tv = ov->Conversion_0;
                let mut out: Vec<char> = Vec::new();
                out.push(' ');
                let part = self.render_type(tk, e, Ghost(*tv));
                append_chars(&mut out, part);
                assert(out@ =~= seq![' '] + sp_render_type(*tv, e));
                out
            },
        }
    }

    /// Render an interned template-parameter list
    fn render_tpl(&self, k: crate::intern::TplKey, e: Elision, Ghost(tv): Ghost<TemplateParametersV>)
        -> (out: Vec<char>)
        requires
            self.wf(),
            crate::intern::repr_tpl(self.model(), k.0 as int, tv),
        ensures
            out@ == sp_render_tpl(tv, e),
        decreases tv,
    {
        let ent = self.entry(k.0);
        match ent {
            crate::intern::Entity::Tpl(t) => match t {
                crate::intern::ITemplateParameters::Ambiguous => crate::text::chars_of("<, void>"),
                crate::intern::ITemplateParameters::Resolved(ps) => {
                    let ghost vs = tv->Resolved_0;
                    if e.tpl {
                        crate::text::chars_of("<\u{2026}>")
                    } else {
                        proof {
                            crate::intern::lemma_tplparam_list_pointwise(self.model(), ps@, vs);
                        }
                        let mut out: Vec<char> = Vec::new();
                        out.push('<');
                        let mut i: usize = 0;
                        while i < ps.len()
                            invariant
                                self.wf(),
                                tv is Resolved,
                                vs == tv->Resolved_0,
                                ps@.len() == vs.len(),
                                i <= ps@.len(),
                                forall|j: int| 0 <= j < ps@.len()
                                    ==> match (#[trigger] ps@[j], vs[j]) {
                                    (
                                        crate::intern::ITemplateParameter::TypeLike(tk2),
                                        TemplateParameterV::TypeLike(tv2),
                                    ) => crate::intern::repr_type(self.model(), tk2.0 as int, tv2),
                                    (
                                        crate::intern::ITemplateParameter::ValueLike(vk2),
                                        TemplateParameterV::ValueLike(vv2),
                                    ) => crate::intern::repr_value(self.model(), vk2.0 as int, vv2),
                                    _ => false,
                                },
                                out@ == seq!['<'] + sp_join_tplparams(vs.subrange(0, i as int), e),
                            decreases ps@.len() - i,
                        {
                            if i > 0 {
                                append_lit(&mut out, ", ");
                            }
                            proof {
                                assert(decreases_to!(tv => tv->Resolved_0));
                                assert(decreases_to!(vs => vs[i as int]));
                            }
                            let part = match ps[i] {
                                crate::intern::ITemplateParameter::TypeLike(tk2) => {
                                    proof {
                                        assert(decreases_to!(vs[i as int] => vs[i as int]->TypeLike_0));
                                    }
                                    self.render_type(tk2, e, Ghost(vs[i as int]->TypeLike_0))
                                },
                                crate::intern::ITemplateParameter::ValueLike(vk2) => {
                                    proof {
                                        assert(decreases_to!(vs[i as int] => vs[i as int]->ValueLike_0));
                                    }
                                    self.render_value(vk2, e, Ghost(vs[i as int]->ValueLike_0))
                                },
                            };
                            proof {
                                assert(vs.subrange(0, i + 1).drop_last() =~= vs.subrange(0, i as int));
                                assert(vs.subrange(0, i + 1).last() == vs[i as int]);
                                assert(part@ == sp_render_tplparam(vs[i as int], e));
                            }
                            append_chars(&mut out, part);
                            proof {
                                assert(out@ =~= seq!['<'] + sp_join_tplparams(vs.subrange(0, i + 1), e));
                            }
                            i = i + 1;
                        }
                        out.push('>');
                        proof {
                            assert(vs.subrange(0, vs.len() as int) =~= vs);
                            assert(out@ =~= seq!['<'] + sp_join_tplparams(vs, e) + seq!['>']);
                        }
                        out
                    }
                },
            },
            _ => {
                proof {
                    assert(false);
                }
                Vec::new()
            },
        }
    }

    /// Render an interned function signature
    fn render_sig(&self, k: crate::intern::SigKey, e: Elision, Ghost(fv): Ghost<FunctionSignatureV>)
        -> (out: Vec<char>)
        requires
            self.wf(),
            crate::intern::repr_sig(self.model(), k.0 as int, fv),
        ensures
            out@ == sp_render_sig(fv, e),
        decreases fv,
    {
        if e.sig {
            return crate::text::chars_of("(\u{2026})");
        }
        let ent = self.entry(k.0);
        match ent {
            crate::intern::Entity::Sig(sg) => {
                let ghost vs = fv.parameters;
                proof {
                    crate::intern::lemma_type_list_pointwise(self.model(), sg.parameters@, vs);
                }
                let mut out: Vec<char> = Vec::new();
                out.push('(');
                let mut i: usize = 0;
                while i < sg.parameters.len()
                    invariant
                        self.wf(),
                        !e.sig,
                        vs == fv.parameters,
                        sg.parameters@.len() == vs.len(),
                        i <= sg.parameters@.len(),
                        forall|j: int| 0 <= j < sg.parameters@.len()
                            ==> crate::intern::repr_type(
                                self.model(),
                                (#[trigger] sg.parameters@[j]).0 as int,
                                vs[j],
                            ),
                        out@ == seq!['('] + sp_join_params(vs.subrange(0, i as int), e),
                    decreases sg.parameters@.len() - i,
                {
                    if i > 0 {
                        append_lit(&mut out, ", ");
                    }
                    proof {
                        assert(decreases_to!(fv => fv.parameters));
                        assert(decreases_to!(vs => vs[i as int]));
                    }
                    let part = self.render_type(sg.parameters[i], e, Ghost(vs[i as int]));
                    proof {
                        assert(vs.subrange(0, i + 1).drop_last() =~= vs.subrange(0, i as int));
                        assert(vs.subrange(0, i + 1).last() == vs[i as int]);
                    }
                    append_chars(&mut out, part);
                    proof {
                        assert(out@ =~= seq!['('] + sp_join_params(vs.subrange(0, i + 1), e));
                    }
                    i = i + 1;
                }
                out.push(')');
                proof {
                    assert(vs.subrange(0, vs.len() as int) =~= vs);
                }
                let cvs = cv_suffix_chars(sg.cv);
                append_chars(&mut out, cvs);
                match sg.reference {
                    crate::atoms::Reference::NoRef => {},
                    crate::atoms::Reference::LValue => {
                        append_lit(&mut out, " &");
                    },
                    crate::atoms::Reference::RValue => {
                        append_lit(&mut out, " &&");
                    },
                }
                match sg.noexcept {
                    None => {},
                    Some(None) => {
                        append_lit(&mut out, " noexcept");
                    },
                    Some(Some(vk)) => {
                        append_lit(&mut out, " noexcept(");
                        let ghost nv = fv.noexcept.unwrap().unwrap();
                        let part = self.render_value(vk, e, Ghost(*nv));
                        append_chars(&mut out, part);
                        out.push(')');
                    },
                }
                proof {
                    assert(out@ =~= sp_render_sig(fv, e));
                }
                out
            },
            _ => {
                proof {
                    assert(false);
                }
                Vec::new()
            },
        }
    }

    /// Render one interned scope component
    fn render_scope(&self, sc: crate::intern::IScope, e: Elision, Ghost(sv): Ghost<ScopeV>)
        -> (out: Vec<char>)
        requires
            self.wf(),
            crate::intern::repr_scope(self.model(), sc, sv),
        ensures
            out@ == sp_render_scope(sv, e),
        decreases sv,
    {
        let txt = self.ident_text(sc.id);
        let mut out = crate::text::chars_of(txt.as_str());
        match sc.template_parameters {
            Some(tk) => {
                let ghost tv = sv.template_parameters.unwrap();
                let part = self.render_tpl(tk, e, Ghost(tv));
                append_chars(&mut out, part);
            },
            None => {},
        }
        match sc.signature {
            Some(sk) => {
                let ghost fvb = sv.signature.unwrap();
                let part = self.render_sig(sk, e, Ghost(*fvb));
                append_chars(&mut out, part);
            },
            None => {},
        }
        assert(out@ =~= sp_render_scope(sv, e));
        out
    }

    /// Render an interned unqualified id
    fn render_uid(&self, u: crate::intern::IUnqualifiedId, e: Elision, Ghost(uv): Ghost<UnqualifiedIdV>)
        -> (out: Vec<char>)
        requires
            self.wf(),
            crate::intern::repr_uid(self.model(), u, uv),
        ensures
            out@ == sp_render_uid(uv, e),
        decreases uv,
    {
        match u {
            crate::intern::IUnqualifiedId::Named { id, template_parameters } => {
                let txt = self.ident_text(id);
                let mut out = crate::text::chars_of(txt.as_str());
                match template_parameters {
                    Some(tk) => {
                        let ghost tv = uv->Named_template_parameters.unwrap();
                        let part = self.render_tpl(tk, e, Ghost(tv));
                        append_chars(&mut out, part);
                    },
                    None => {},
                }
                assert(out@ =~= sp_render_uid(uv, e));
                out
            },
            crate::intern::IUnqualifiedId::OperatorName { operator, template_parameters } => {
                let mut out = crate::text::chars_of("operator");
                let ghost ov = uv->OperatorName_operator;
                let part = self.render_op(operator, e, Ghost(*ov));
                append_chars(&mut out, part);
                match template_parameters {
                    Some(tk) => {
                        let ghost tv = uv->OperatorName_template_parameters.unwrap();
                        let part2 = self.render_tpl(tk, e, Ghost(tv));
                        append_chars(&mut out, part2);
                    },
                    None => {},
                }
                assert(out@ =~= sp_render_uid(uv, e));
                out
            },
            crate::intern::IUnqualifiedId::Destructor { id } => {
                let mut out: Vec<char> = Vec::new();
                out.push('~');
                let txt = self.ident_text(id);
                let cs = crate::text::chars_of(txt.as_str());
                append_chars(&mut out, cs);
                assert(out@ =~= sp_render_uid(uv, e));
                out
            },
            crate::intern::IUnqualifiedId::DecltypeAuto => crate::text::chars_of("decltype(auto)"),
            crate::intern::IUnqualifiedId::Lambda { file, line, col } => {
                let mut out = crate::text::chars_of("(lambda at ");
                let txt = self.path_text(file);
                let cs = crate::text::chars_of(txt.as_str());
                append_chars(&mut out, cs);
                out.push(':');
                let lc = u64_chars(line as u64);
                append_chars(&mut out, lc);
                out.push(':');
                let cc = u64_chars(col as u64);
                append_chars(&mut out, cc);
                out.push(')');
                assert(out@ =~= sp_render_uid(uv, e));
                out
            },
            crate::intern::IUnqualifiedId::Anonymous { id } => match id {
                Some(i) => {
                    let mut out = crate::text::chars_of("(anonymous ");
                    let txt = self.ident_text(i);
                    let cs = crate::text::chars_of(txt.as_str());
                    append_chars(&mut out, cs);
                    out.push(')');
                    assert(out@ =~= sp_render_uid(uv, e));
                    out
                },
                None => crate::text::chars_of("(anonymous)"),
            },
            crate::intern::IUnqualifiedId::Unknown => crate::text::chars_of("<unknown>"),
        }
    }

    /// Render an interned id-expression
    fn render_idexpr(&self, k: crate::intern::IdExprKey, e: Elision, Ghost(iv): Ghost<IdExpressionV>)
        -> (out: Vec<char>)
        requires
            self.wf(),
            crate::intern::repr_idexpr(self.model(), k.0 as int, iv),
        ensures
            out@ == sp_render_idexpr(iv, e),
        decreases iv, 1int,
    {
        let ent = self.entry(k.0);
        match ent {
            crate::intern::Entity::IdExpr(ie) => {
                let ghost vs = iv.scopes;
                proof {
                    crate::intern::lemma_scope_list_pointwise(self.model(), ie.scopes@, vs);
                }
                let mut out: Vec<char> = Vec::new();
                let keep_all = match e.scopes {
                    ScopeMode::KeepAll => true,
                    ScopeMode::KeepFirst => ie.scopes.len() < 2,
                    ScopeMode::KeepNone => false,
                };
                if keep_all {
                    let mut i: usize = 0;
                    while i < ie.scopes.len()
                        invariant
                            self.wf(),
                            vs == iv.scopes,
                            ie.scopes@.len() == vs.len(),
                            i <= ie.scopes@.len(),
                            forall|j: int| 0 <= j < ie.scopes@.len()
                                ==> crate::intern::repr_scope(
                                    self.model(),
                                    #[trigger] ie.scopes@[j],
                                    vs[j],
                                ),
                            out@ == sp_render_scopes_all(vs.subrange(0, i as int), e),
                        decreases ie.scopes@.len() - i,
                    {
                        proof {
                            assert(decreases_to!(iv => iv.scopes));
                            assert(decreases_to!(vs => vs[i as int]));
                        }
                        let part = self.render_scope(ie.scopes[i], e, Ghost(vs[i as int]));
                        append_chars(&mut out, part);
                        append_lit(&mut out, "::");
                        proof {
                            assert(vs.subrange(0, i + 1).drop_last() =~= vs.subrange(0, i as int));
                            assert(vs.subrange(0, i + 1).last() == vs[i as int]);
                            assert(out@ =~= sp_render_scopes_all(vs.subrange(0, i + 1), e));
                        }
                        i = i + 1;
                    }
                    proof {
                        assert(vs.subrange(0, vs.len() as int) =~= vs);
                        match e.scopes {
                            ScopeMode::KeepAll => {},
                            ScopeMode::KeepFirst => {
                                assert(vs.len() < 2);
                            },
                            ScopeMode::KeepNone => {},
                        }
                        assert(out@ == sp_render_scopes(vs, e));
                    }
                } else {
                    match e.scopes {
                        ScopeMode::KeepFirst => {
                            proof {
                                assert(decreases_to!(iv => iv.scopes));
                                assert(decreases_to!(vs => vs[0]));
                            }
                            let part = self.render_scope(ie.scopes[0], e, Ghost(vs[0]));
                            append_chars(&mut out, part);
                            append_lit(&mut out, "::\u{2026}::");
                            proof {
                                assert(out@ =~= sp_render_scope(vs[0], e) + "::\u{2026}::"@);
                            }
                        },
                        _ => {
                            if ie.scopes.len() >= 1 {
                                append_lit(&mut out, "\u{2026}::");
                            }
                            proof {
                                assert(out@ =~= sp_render_scopes(vs, e));
                            }
                        },
                    }
                }
                let part = self.render_uid(ie.id, e, Ghost(iv.id));
                append_chars(&mut out, part);
                proof {
                    assert(out@ =~= sp_render_idexpr(iv, e));
                }
                out
            },
            _ => {
                proof {
                    assert(false);
                }
                Vec::new()
            },
        }
    }

    /// Render an interned value
    fn render_value(&self, k: crate::intern::ValueKey, e: Elision, Ghost(vv): Ghost<ValueLikeV>)
        -> (out: Vec<char>)
        requires
            self.wf(),
            crate::intern::repr_value(self.model(), k.0 as int, vv),
        ensures
            out@ == sp_render_value(vv, e),
        decreases vv,
    {
        let ent = self.entry(k.0);
        match ent {
            crate::intern::Entity::Value(iv) => match iv {
                crate::intern::IValue::Literal(l) => {
                    let out = self.render_literal(*l, Ghost(vv->Literal_0));
                    out
                },
                crate::intern::IValue::IdExpression(ik) => {
                    let ghost bi = vv->IdExpression_0;
                    self.render_idexpr(*ik, e, Ghost(*bi))
                },
                crate::intern::IValue::UnaryOp(o, inner) => {
                    let ghost bo = vv->UnaryOp_0;
                    let ghost bi = vv->UnaryOp_1;
                    let mut out = self.render_op(*o, e, Ghost(*bo));
                    let part = self.render_value(*inner, e, Ghost(*bi));
                    append_chars(&mut out, part);
                    out
                },
                crate::intern::IValue::BinaryOp(l, o, r) => {
                    let ghost bl = vv->BinaryOp_0;
                    let ghost bo = vv->BinaryOp_1;
                    let ghost br = vv->BinaryOp_2;
                    let mut out = self.render_value(*l, e, Ghost(*bl));
                    let part = self.render_op(*o, e, Ghost(*bo));
                    append_chars(&mut out, part);
                    let part2 = self.render_value(*r, e, Ghost(*br));
                    append_chars(&mut out, part2);
                    out
                },
                crate::intern::IValue::Parens(inner) => {
                    let ghost bi = vv->Parens_0;
                    let mut out: Vec<char> = Vec::new();
                    out.push('(');
                    let part = self.render_value(*inner, e, Ghost(*bi));
                    append_chars(&mut out, part);
                    out.push(')');
                    assert(out@ =~= seq!['('] + sp_render_value(*bi, e) + seq![')']);
                    out
                },
            },
            _ => {
                proof {
                    assert(false);
                }
                Vec::new()
            },
        }
    }

    /// Render an interned type at an elision level
    fn render_type(&self, k: crate::intern::TypeKey, e: Elision, Ghost(tv): Ghost<TypeLikeV>)
        -> (out: Vec<char>)
        requires
            self.wf(),
            crate::intern::repr_type(self.model(), k.0 as int, tv),
        ensures
            out@ == sp_render_type(tv, e),
        decreases tv, 2int,
    {
        let ent = self.entry(k.0);
        match ent {
            crate::intern::Entity::Type(t) => {
                let mut out = cv_prefix_chars(t.cv);
                match t.simple {
                    crate::intern::ISimpleType::LegacyName(l) => {
                        let part = legacy_chars(l);
                        append_chars(&mut out, part);
                    },
                    crate::intern::ISimpleType::IdExpression(ik) => {
                        let ghost ive = tv.specifier.simple_type->IdExpression_0;
                        let part = self.render_idexpr(ik, e, Ghost(ive));
                        append_chars(&mut out, part);
                    },
                }
                let mut i: usize = 0;
                let ghost base = out@;
                proof {
                    assert(base == sp_cv_prefix(tv.specifier.cv)
                        + (match tv.specifier.simple_type {
                            SimpleTypeV::LegacyName(l) => sp_legacy_chars(l),
                            SimpleTypeV::IdExpression(iv2) => sp_render_idexpr(iv2, e),
                        }));
                }
                while i < t.declarators.len()
                    invariant
                        t.declarators@ == tv.declarators,
                        i <= t.declarators@.len(),
                        out@ == base + sp_render_decls(tv.declarators.subrange(0, i as int)),
                    decreases t.declarators@.len() - i,
                {
                    match t.declarators[i] {
                        crate::ast::DeclOperator::Pointer(cv) => {
                            out.push('*');
                            let part = cv_suffix_chars(cv);
                            append_chars(&mut out, part);
                        },
                        crate::ast::DeclOperator::LRef => {
                            out.push('&');
                        },
                        crate::ast::DeclOperator::RRef => {
                            out.push('&');
                            out.push('&');
                        },
                    }
                    proof {
                        assert(tv.declarators.subrange(0, i + 1).drop_last()
                            =~= tv.declarators.subrange(0, i as int));
                        assert(tv.declarators.subrange(0, i + 1).last() == tv.declarators[i as int]);
                        assert(out@ =~= base + sp_render_decls(tv.declarators.subrange(0, i + 1)));
                    }
                    i = i + 1;
                }
                proof {
                    assert(tv.declarators.subrange(0, tv.declarators.len() as int) =~= tv.declarators);
                }
                match t.signature {
                    Some(sk) => {
                        let ghost fvb = tv.signature.unwrap();
                        let part = self.render_sig(sk, e, Ghost(*fvb));
                        append_chars(&mut out, part);
                    },
                    None => {},
                }
                let ghost base2 = out@;
                let ghost va = tv.arrays;
                proof {
                    crate::intern::lemma_array_list_pointwise(self.model(), t.arrays@, va);
                }
                let mut j: usize = 0;
                while j < t.arrays.len()
                    invariant
                        self.wf(),
                        va == tv.arrays,
                        t.arrays@.len() == va.len(),
                        j <= t.arrays@.len(),
                        forall|q: int| 0 <= q < t.arrays@.len()
                            ==> match (#[trigger] t.arrays@[q], va[q]) {
                            (None, None) => true,
                            (Some(vk), Some(bv)) => crate::intern::repr_value(
                                self.model(),
                                vk.0 as int,
                                *bv,
                            ),
                            _ => false,
                        },
                        out@ == base2 + sp_render_arrays(va.subrange(0, j as int), e),
                    decreases t.arrays@.len() - j,
                {
                    match t.arrays[j] {
                        None => {
                            append_lit(&mut out, "[]");
                        },
                        Some(vk) => {
                            out.push('[');
                            let ghost bv = va[j as int].unwrap();
                            proof {
                                assert(decreases_to!(tv => tv.arrays));
                                assert(decreases_to!(va => va[j as int]));
                                assert(decreases_to!(va[j as int] => *bv));
                            }
                            let part = self.render_value(vk, e, Ghost(*bv));
                            append_chars(&mut out, part);
                            out.push(']');
                        },
                    }
                    proof {
                        assert(va.subrange(0, j + 1).drop_last() =~= va.subrange(0, j as int));
                        assert(va.subrange(0, j + 1).last() == va[j as int]);
                        assert(out@ =~= base2 + sp_render_arrays(va.subrange(0, j + 1), e));
                    }
                    j = j + 1;
                }
                proof {
                    assert(va.subrange(0, va.len() as int) =~= va);
                    assert(out@ =~= sp_render_type(tv, e));
                }
                out
            },
            _ => {
                proof {
                    assert(false);
                }
                Vec::new()
            },
        }
    }
}

// ---------------------------------------------------------------------
// The bounded display interface
// ---------------------------------------------------------------------

/// Error for a width budget too small to render even a single ellipsis
#[derive(Debug, PartialEq, Eq, Clone, Copy, Structural)]
pub enum DisplayError {
    /// The budget is below one column
    TooNarrow,
}

/// The elision level of candidate `j`
fn elision_at(j: usize) -> (e: Elision)
    requires
        j <= 4,
    ensures
        e == sp_elision(j as int),
{
    Elision {
        tpl: j >= 1,
        sig: j >= 2,
        scopes: if j >= 4 {
            ScopeMode::KeepNone
        } else if j >= 3 {
            ScopeMode::KeepFirst
        } else {
            ScopeMode::KeepAll
        },
    }
}

impl crate::intern::EntityParser {
    /// Render an entity inside a column budget.
    ///
    /// The display width of the result never exceeds the budget; the result
    /// is the first fitting rendering along the elision chain, with a bare
    /// ellipsis as the last resort.  Only a zero budget fails.
    pub fn bounded_display(&self, k: crate::intern::TypeKey, max_cols: u16)
        -> (r: Result<String, DisplayError>)
        requires
            self.wf(),
            exists|v: TypeLikeV| crate::intern::repr_type(self.model(), k.0 as int, v),
        ensures
            r is Err ==> max_cols == 0,
            max_cols >= 1 ==> r is Ok,
            match r {
                Ok(out) => {
                    &&& sp_width(out@) <= max_cols as int
                    &&& exists|v: TypeLikeV| {
                        &&& #[trigger] crate::intern::repr_type(self.model(), k.0 as int, v)
                        &&& out@ == sp_candidate(v, sp_chosen(v, max_cols as int))
                    }
                },
                Err(_) => true,
            },
    {
        let ghost v = choose|v: TypeLikeV| crate::intern::repr_type(self.model(), k.0 as int, v);
        let budget: usize = max_cols as usize;
        let mut j: usize = 0;
        while j < 5
            invariant
                self.wf(),
                crate::intern::repr_type(self.model(), k.0 as int, v),
                j <= 5,
                budget == max_cols as int,
                sp_chosen(v, budget as int) == sp_chosen_from(v, budget as int, j as int),
            decreases 5 - j,
        {
            let e = elision_at(j);
            let out = self.render_type(k, e, Ghost(v));
            if crate::text::width_le(&out, budget) {
                proof {
                    assert(sp_chosen_from(v, budget as int, j as int) == j as int);
                    assert(out@ == sp_candidate(v, sp_chosen(v, max_cols as int)));
                }
                return Ok(crate::text::string_from_chars(out));
            }
            proof {
                assert(sp_chosen_from(v, budget as int, j as int)
                    == sp_chosen_from(v, budget as int, j + 1));
            }
            j = j + 1;
        }
        let w = crate::text::char_width('\u{2026}');
        if w <= budget {
            let mut out: Vec<char> = Vec::new();
            out.push('\u{2026}');
            proof {
                assert(out@ =~= seq!['\u{2026}']);
                crate::text::lemma_width_push(Seq::<char>::empty(), '\u{2026}');
                assert(sp_width(out@) == crate::text::col_width_of('\u{2026}'));
                assert(sp_chosen(v, max_cols as int) == 5);
                assert(out@ == sp_candidate(v, 5));
            }
            Ok(crate::text::string_from_chars(out))
        } else {
            assert(max_cols == 0);
            Err(DisplayError::TooNarrow)
        }
    }

    /// The number of display columns the full rendering would occupy,
    /// saturating at the machine limit.
    pub fn display_width(&self, k: crate::intern::TypeKey) -> (w: usize)
        requires
            self.wf(),
            exists|v: TypeLikeV| crate::intern::repr_type(self.model(), k.0 as int, v),
        ensures
            exists|v: TypeLikeV| {
                &&& #[trigger] crate::intern::repr_type(self.model(), k.0 as int, v)
                &&& {
                    let full = sp_candidate(v, 0);
                    if sp_width(full) <= usize::MAX {
                        w == sp_width(full)
                    } else {
                        w == usize::MAX
                    }
                }
            },
    {
        let ghost v = choose|v: TypeLikeV| crate::intern::repr_type(self.model(), k.0 as int, v);
        let e = elision_at(0);
        let out = self.render_type(k, e, Ghost(v));
        crate::text::width_of_chars(&out)
    }
}

// ---------------------------------------------------------------------
// String truncation for raw strings and paths
// ---------------------------------------------------------------------

/// End of the longest prefix whose width fits `budget`
pub open spec fn sp_head_end(s: Seq<char>, i: int, budget: int) -> int
    decreases s.len() - i when 0 <= i <= s.len()
{
    if i < s.len() && sp_width(s.subrange(0, i + 1)) <= budget {
        sp_head_end(s, i + 1, budget)
    } else {
        i
    }
}

/// Start of the longest suffix whose width fits `budget`
pub open spec fn sp_tail_start(s: Seq<char>, i: int, budget: int) -> int
    decreases i when 0 <= i <= s.len()
{
    if i > 0 && sp_width(s.subrange(i - 1, s.len() as int)) <= budget {
        sp_tail_start(s, i - 1, budget)
    } else {
        i
    }
}

/// First position at or after `i` whose character occupies at least one
/// column
pub open spec fn sp_skip_zero_width(s: Seq<char>, i: int) -> int
    decreases s.len() - i when 0 <= i <= s.len()
{
    if i < s.len() && col_width_of(s[i]) == 0 {
        sp_skip_zero_width(s, i + 1)
    } else {
        i
    }
}

/// Truncation of a string to a column budget: a fitting prefix, an ellipsis,
/// and a fitting suffix.  The suffix gets `(budget - 1) / 2` columns and the
/// prefix the rest.  The suffix is then backed off zero-width characters, so
/// that it never begins in the middle of a combining-character cluster.
pub open spec fn sp_truncate(s: Seq<char>, max_cols: int) -> Seq<char> {
    let trailer = (max_cols - 1) / 2;
    let header = max_cols - 1 - trailer;
    s.subrange(0, sp_head_end(s, 0, header)) + seq!['\u{2026}']
        + s.subrange(
        sp_skip_zero_width(s, sp_tail_start(s, s.len() as int, trailer)),
        s.len() as int,
    )
}

/// Truncate a string so that it occupies at most `max_cols` columns, by
/// eating up the middle.  Cuts land on character boundaries; the trailer
/// additionally skips zero-width characters, so no combining mark is severed
/// from its base character.  (The header needs no such care: a zero-width
/// character always fits the remaining budget, so the prefix never stops
/// right before one.)
pub fn truncate_string(input: &str, max_cols: u16) -> (r: String)
    requires
        max_cols >= 1,
    ensures
        r@ == sp_truncate(input@, max_cols as int),
        sp_width(r@) <= max_cols as int,
{
    let cs = crate::text::chars_of(input);
    let n = cs.len();
    let trailer_cols: usize = ((max_cols - 1) / 2) as usize;
    let header_cols: usize = (max_cols - 1) as usize - trailer_cols;

    // Longest fitting prefix
    let mut h: usize = 0;
    let mut wh: usize = 0;
    proof {
        assert(cs@.subrange(0, 0) =~= Seq::<char>::empty());
    }
    loop
        invariant_except_break
            n == cs@.len(),
            cs@ == input@,
            h <= n,
            wh == sp_width(cs@.subrange(0, h as int)),
            wh <= header_cols,
            sp_head_end(cs@, 0, header_cols as int)
                == sp_head_end(cs@, h as int, header_cols as int),
        ensures
            n == cs@.len(),
            h <= n,
            wh == sp_width(cs@.subrange(0, h as int)),
            wh <= header_cols,
            sp_head_end(cs@, 0, header_cols as int) == h as int,
        decreases n - h,
    {
        if h >= n {
            proof {
                assert(sp_head_end(cs@, h as int, header_cols as int) == h as int);
            }
            break;
        }
        let cw = crate::text::char_width(cs[h]);
        proof {
            assert(cs@.subrange(0, h + 1) =~= cs@.subrange(0, h as int).push(cs@[h as int]));
            crate::text::lemma_width_push(cs@.subrange(0, h as int), cs@[h as int]);
        }
        if cw > header_cols - wh {
            proof {
                assert(sp_width(cs@.subrange(0, h + 1)) > header_cols as int);
                assert(sp_head_end(cs@, h as int, header_cols as int) == h as int);
            }
            break;
        }
        proof {
            assert(sp_width(cs@.subrange(0, h + 1)) <= header_cols as int);
        }
        wh = wh + cw;
        h = h + 1;
    }

    // Longest fitting suffix
    let mut t: usize = n;
    let mut wt: usize = 0;
    proof {
        assert(cs@.subrange(n as int, n as int) =~= Seq::<char>::empty());
    }
    loop
        invariant_except_break
            n == cs@.len(),
            cs@ == input@,
            t <= n,
            wt == sp_width(cs@.subrange(t as int, n as int)),
            wt <= trailer_cols,
            sp_tail_start(cs@, n as int, trailer_cols as int)
                == sp_tail_start(cs@, t as int, trailer_cols as int),
        ensures
            n == cs@.len(),
            t <= n,
            wt == sp_width(cs@.subrange(t as int, n as int)),
            wt <= trailer_cols,
            sp_tail_start(cs@, n as int, trailer_cols as int) == t as int,
        decreases t,
    {
        if t == 0 {
            proof {
                assert(sp_tail_start(cs@, t as int, trailer_cols as int) == t as int);
            }
            break;
        }
        let cw = crate::text::char_width(cs[t - 1]);
        proof {
            assert(cs@.subrange(t - 1, n as int)
                =~= seq![cs@[t - 1]] + cs@.subrange(t as int, n as int));
            crate::text::lemma_width_append(seq![cs@[t - 1]], cs@.subrange(t as int, n as int));
            crate::text::lemma_width_push(Seq::<char>::empty(), cs@[t - 1]);
            assert(Seq::<char>::empty().push(cs@[t - 1]) =~= seq![cs@[t - 1]]);
        }
        if cw > trailer_cols - wt {
            proof {
                assert(sp_width(cs@.subrange(t - 1, n as int)) > trailer_cols as int);
                assert(sp_tail_start(cs@, t as int, trailer_cols as int) == t as int);
            }
            break;
        }
        proof {
            assert(sp_width(cs@.subrange(t - 1, n as int)) <= trailer_cols as int);
        }
        wt = wt + cw;
        t = t - 1;
    }

    // Never start the trailer at a zero-width character: such a character
    // belongs to the cluster of the character before the cut
    let ghost t0 = t as int;
    loop
        invariant_except_break
            n == cs@.len(),
            cs@ == input@,
            t <= n,
            wt == sp_width(cs@.subrange(t as int, n as int)),
            wt <= trailer_cols,
            sp_skip_zero_width(cs@, t0) == sp_skip_zero_width(cs@, t as int),
        ensures
            n == cs@.len(),
            t <= n,
            wt == sp_width(cs@.subrange(t as int, n as int)),
            wt <= trailer_cols,
            sp_skip_zero_width(cs@, t0) == t as int,
        decreases n - t,
    {
        if t >= n {
            proof {
                assert(sp_skip_zero_width(cs@, t as int) == t as int);
            }
            break;
        }
        let cw = crate::text::char_width(cs[t]);
        if cw != 0 {
            proof {
                assert(sp_skip_zero_width(cs@, t as int) == t as int);
            }
            break;
        }
        proof {
            assert(cs@.subrange(t as int, n as int)
                =~= seq![cs@[t as int]] + cs@.subrange(t + 1, n as int));
            crate::text::lemma_width_append(
                seq![cs@[t as int]],
                cs@.subrange(t + 1, n as int),
            );
            crate::text::lemma_width_push(Seq::<char>::empty(), cs@[t as int]);
            assert(Seq::<char>::empty().push(cs@[t as int]) =~= seq![cs@[t as int]]);
            assert(sp_width(cs@.subrange(t + 1, n as int)) == wt as int);
        }
        t = t + 1;
    }

    // Assemble
    let mut out: Vec<char> = Vec::new();
    let mut i: usize = 0;
    while i < h
        invariant
            h <= n == cs@.len(),
            i <= h,
            out@ == cs@.subrange(0, i as int),
        decreases h - i,
    {
        out.push(cs[i]);
        assert(out@ =~= cs@.subrange(0, i + 1));
        i = i + 1;
    }
    let we = crate::text::char_width('\u{2026}');
    proof {
        crate::text::lemma_width_push(out@, '\u{2026}');
    }
    out.push('\u{2026}');
    let ghost mid = out@;
    let mut j2: usize = t;
    while j2 < n
        invariant
            t <= j2 <= n == cs@.len(),
            out@ == mid + cs@.subrange(t as int, j2 as int),
        decreases n - j2,
    {
        out.push(cs[j2]);
        assert(out@ =~= mid + cs@.subrange(t as int, j2 + 1));
        j2 = j2 + 1;
    }
    proof {
        assert(out@ =~= cs@.subrange(0, h as int) + seq!['\u{2026}']
            + cs@.subrange(t as int, n as int));
        assert(out@ == sp_truncate(input@, max_cols as int));
        crate::text::lemma_width_append(
            cs@.subrange(0, h as int) + seq!['\u{2026}'],
            cs@.subrange(t as int, n as int),
        );
        crate::text::lemma_width_append(cs@.subrange(0, h as int), seq!['\u{2026}']);
        crate::text::lemma_width_push(Seq::<char>::empty(), '\u{2026}');
        assert(Seq::<char>::empty().push('\u{2026}') =~= seq!['\u{2026}']);
        assert(sp_width(out@) <= header_cols + 1 + trailer_cols);
    }
    crate::text::string_from_chars(out)
}

/// A string fitted to a column budget: itself when it fits, its middle
/// truncation otherwise
pub open spec fn sp_string_in_cols(s: Seq<char>, budget: int) -> Seq<char> {
    if sp_width(s) <= budget {
        s
    } else {
        sp_truncate(s, budget)
    }
}

/// Write a string inside a column budget: in full when it fits, truncated
/// through the middle otherwise.
pub fn display_string(s: &str, max_cols: u16) -> (r: String)
    requires
        max_cols >= 1,
    ensures
        r@ == sp_string_in_cols(s@, max_cols as int),
        sp_width(r@) <= max_cols as int,
{
    let cs = crate::text::chars_of(s);
    if crate::text::width_le(&cs, max_cols as usize) {
        s.to_owned()
    } else {
        truncate_string(s, max_cols)
    }
}

// ---------------------------------------------------------------------
// Activity descriptions
// ---------------------------------------------------------------------

/// The argument attached to a traced compiler activity, after parsing
#[derive(Debug)]
pub enum ActivityArgument {
    /// No argument
    Nothing,
    /// A raw string
    TextArg(String),
    /// A file path
    FilePath(String),
    /// A parsed C++ entity
    CppEntity(crate::intern::TypeKey),
}

/// Error that is emitted when an activity cannot be displayed
#[derive(Debug, PartialEq, Eq, Clone, Copy, Structural)]
pub enum ActivityDescError {
    /// Not enough space to display the activity name
    NotEnoughCols(u16),
}

/// Columns the argument decoration `(…)` may claim: three when present
pub open spec fn sp_arg_reserve(arg: ActivityArgument) -> int {
    if arg is Nothing {
        0
    } else {
        3
    }
}

impl crate::intern::EntityParser {
    /// Display an activity's name and argument in finite space.
    ///
    /// Fails exactly when not even the name plus an elided argument fits;
    /// otherwise the name is shown in full and the argument is truncated
    /// into the remaining columns.
    pub fn display_activity_desc(
        &self,
        activity_name: &str,
        activity_arg: &ActivityArgument,
        max_cols: u16,
    ) -> (r: Result<String, ActivityDescError>)
        requires
            self.wf(),
            match *activity_arg {
                ActivityArgument::CppEntity(k) => exists|v: TypeLikeV|
                    crate::intern::repr_type(self.model(), k.0 as int, v),
                _ => true,
            },
        ensures
            r is Err <==> (max_cols as int) < sp_width(activity_name@)
                + sp_arg_reserve(*activity_arg),
            match r {
                Err(e) => e == ActivityDescError::NotEnoughCols(max_cols),
                Ok(out) => {
                    &&& sp_width(out@) <= max_cols as int
                    &&& {
                        let rem = max_cols as int - sp_width(activity_name@) - 2;
                        match *activity_arg {
                            ActivityArgument::Nothing => out@ == activity_name@,
                            ActivityArgument::TextArg(s) => out@ == activity_name@
                                + seq!['('] + sp_string_in_cols(s@, rem) + seq![')'],
                            ActivityArgument::FilePath(p) => out@ == activity_name@
                                + seq!['('] + sp_string_in_cols(p@, rem) + seq![')'],
                            ActivityArgument::CppEntity(k) => exists|v: TypeLikeV| {
                                &&& #[trigger] crate::intern::repr_type(
                                    self.model(),
                                    k.0 as int,
                                    v,
                                )
                                &&& out@ == activity_name@ + seq!['(']
                                    + sp_candidate(v, sp_chosen(v, rem)) + seq![')']
                            },
                        }
                    }
                },
            },
    {
        let name_chars = crate::text::chars_of(activity_name);
        let wname = crate::text::width_of_chars(&name_chars);
        let has_arg = match activity_arg {
            ActivityArgument::Nothing => false,
            _ => true,
        };
        let reserve: usize = if has_arg { 3 } else { 0 };
        if wname > u16::MAX as usize || (max_cols as usize) < wname + reserve {
            proof {
                crate::text::lemma_width_nonneg(activity_name@);
            }
            return Err(ActivityDescError::NotEnoughCols(max_cols));
        }
        if !has_arg {
            return Ok(activity_name.to_owned());
        }
        let rem: usize = max_cols as usize - wname - 2;
        assert(1 <= rem <= u16::MAX);
        let inner: String = match activity_arg {
            ActivityArgument::Nothing => {
                proof {
                    assert(false);
                }
                activity_name.to_owned()
            },
            ActivityArgument::TextArg(s) => display_string(s.as_str(), rem as u16),
            ActivityArgument::FilePath(p) => display_string(p.as_str(), rem as u16),
            ActivityArgument::CppEntity(k) => {
                match self.bounded_display(*k, rem as u16) {
                    Ok(s) => s,
                    Err(_) => {
                        proof {
                            assert(false);
                        }
                        activity_name.to_owned()
                    },
                }
            },
        };
        let w_open = crate::text::char_width('(');
        let w_close = crate::text::char_width(')');
        assert(w_open == 1 && w_close == 1);
        let inner_chars = crate::text::chars_of(inner.as_str());
        let mut out: Vec<char> = Vec::new();
        append_lit(&mut out, activity_name);
        out.push('(');
        append_chars(&mut out, inner_chars);
        out.push(')');
        proof {
            assert(out@ =~= activity_name@ + seq!['('] + inner@ + seq![')']);
            crate::text::lemma_width_append(
                activity_name@ + seq!['('] + inner@,
                seq![')'],
            );
            crate::text::lemma_width_append(activity_name@ + seq!['('], inner@);
            crate::text::lemma_width_append(activity_name@, seq!['(']);
            crate::text::lemma_width_push(Seq::<char>::empty(), '(');
            assert(Seq::<char>::empty().push('(') =~= seq!['(']);
            crate::text::lemma_width_push(Seq::<char>::empty(), ')');
            assert(Seq::<char>::empty().push(')') =~= seq![')']);
            assert(sp_width(activity_name@) == wname as int);
            assert(sp_width(inner@) <= rem as int);
            assert(sp_width(out@) == sp_width(activity_name@) + 1 + sp_width(inner@) + 1);
            assert(sp_width(out@) <= max_cols as int);
            assert((rem as u16) as int == max_cols as int - sp_width(activity_name@) - 2);
            match activity_arg {
                ActivityArgument::Nothing => {},
                ActivityArgument::TextArg(sa) => {
                    assert(inner@ == sp_string_in_cols(sa@, rem as int));
                },
                ActivityArgument::FilePath(pa) => {
                    assert(inner@ == sp_string_in_cols(pa@, rem as int));
                },
                ActivityArgument::CppEntity(k) => {
                    let v0 = choose|v: TypeLikeV| {
                        &&& #[trigger] crate::intern::repr_type(self.model(), k.0 as int, v)
                        &&& inner@ == sp_candidate(v, sp_chosen(v, rem as int))
                    };
                    assert(crate::intern::repr_type(self.model(), k.0 as int, v0));
                    assert(out@ == activity_name@ + seq!['(']
                        + sp_candidate(v0, sp_chosen(v0, rem as int)) + seq![')']);
                },
            }
        }
        Ok(crate::text::string_from_chars(out))
    }
}

} // verus!
