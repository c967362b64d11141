//! The recursive core of the C++ entity-name grammar: types, id-expressions,
//! template-parameter lists, operator overloads, function signatures and
//! value expressions.
//!
//! Each parser has a specification mirror over `Seq<char>`; the executable
//! parsers are proved to return exactly what the mirror says.  The mirrors
//! recurse along a lexicographic measure: the number of characters left,
//! then a fixed rank that orders the parsers which call one another without
//! consuming input.

use vstd::prelude::*;
use crate::ast::{
    DeclOperator, FunctionSignatureV, IdExpressionV, LiteralV, OperatorV, ScopeV, SimpleTypeV,
    TemplateParameterV, TemplateParametersV, TypeLikeV, TypeSpecifierV, UnqualifiedIdV, ValueLikeV,
};
use crate::ast::{
    FunctionSignature, IdExpression, Operator, Scope, SimpleType, TemplateParameter,
    TemplateParameters, TypeLike, TypeSpecifier, UnqualifiedId, ValueLike,
};
use crate::ast::{
    v_id_expression, v_operator, v_scope, v_scope_list, v_signature, v_template_parameters,
    v_tplparam_list, v_type_like, v_type_list, v_type_specifier, v_unqualified_id, v_value_like,
};
use crate::ast::{
    lemma_v_array_list_empty, lemma_v_array_list_push, lemma_v_scope_list_empty,
    lemma_v_scope_list_push, lemma_v_tplparam_list_empty, lemma_v_tplparam_list_push,
    lemma_v_type_list_empty, lemma_v_type_list_push,
};
use crate::atoms::{self, ConstVolatile, Symbol};
use crate::legacy;
use crate::literals;
use crate::operators;
use crate::text;

verus! {

/// `const`/`volatile` with neither flag set
pub open spec fn cv_none() -> ConstVolatile {
    ConstVolatile { is_const: false, is_volatile: false }
}

// ---------------------------------------------------------------------
// Scope chains (rank 2)
// ---------------------------------------------------------------------

/// Parse as many `name [template-parameters] [signature] ::` groups as
/// possible; never fails.  A group without the trailing `::` is left for the
/// unqualified-id that follows.
pub open spec fn sp_scope_chain(s: Seq<char>, pos: int) -> (Seq<ScopeV>, int)
    decreases s.len() - pos, 2int, 1int
        when 0 <= pos <= s.len()
{
    match atoms::sp_identifier(s, pos) {
        None => (Seq::empty(), pos),
        Some((id, p1)) => {
            if pos < p1 <= s.len() {
                let tq = match sp_template_parameters(s, p1) {
                    Some((t, q)) => if p1 < q <= s.len() {
                        (Some(t), q)
                    } else {
                        (None, p1)
                    },
                    None => (None, p1),
                };
                let sq = match sp_function_signature(s, tq.1) {
                    Some((f, q)) => if tq.1 < q <= s.len() {
                        (Some(Box::new(f)), q)
                    } else {
                        (None, tq.1)
                    },
                    None => (None, tq.1),
                };
                if atoms::sp_lit_at(s, sq.1, "::"@) {
                    let p4 = sq.1 + 2;
                    if pos < p4 <= s.len() {
                        let rest = sp_scope_chain(s, p4);
                        (
                            seq![ScopeV { id, template_parameters: tq.0, signature: sq.0 }]
                                + rest.0,
                            rest.1,
                        )
                    } else {
                        (Seq::empty(), pos)
                    }
                } else {
                    (Seq::empty(), pos)
                }
            } else {
                (Seq::empty(), pos)
            }
        },
    }
}

// ---------------------------------------------------------------------
// Id-expressions (ranks 2 and 3)
// ---------------------------------------------------------------------

/// Parse clang's lambda name: `(lambda at <path>:<line>:<col>)`.  The path
/// may not contain `:` except as a leading disk designator.
pub open spec fn sp_lambda(s: Seq<char>, pos: int) -> Option<(UnqualifiedIdV, int)> {
    if atoms::sp_lit_at(s, pos, "(lambda at "@) {
        let p0 = pos + 11;
        let pd = if p0 + 1 < s.len() && s[p0 + 1] == ':' {
            p0 + 2
        } else {
            p0
        };
        let colon = sp_find_colon(s, pd);
        match colon {
            Some(j) => {
                if j > pd {
                    let file = s.subrange(p0, j);
                    match sp_u32(s, j + 1) {
                        Some((line, p1)) => {
                            if p1 < s.len() && s[p1] == ':' {
                                match sp_u32(s, p1 + 1) {
                                    Some((col, p2)) => {
                                        if p2 < s.len() && s[p2] == ')' {
                                            Some((
                                                UnqualifiedIdV::Lambda { file, line, col },
                                                p2 + 1,
                                            ))
                                        } else {
                                            None
                                        }
                                    },
                                    None => None,
                                }
                            } else {
                                None
                            }
                        },
                        None => None,
                    }
                } else {
                    None
                }
            },
            None => None,
        }
    } else {
        None
    }
}

/// Position of the next `:` at or after `pos`, if any
pub open spec fn sp_find_colon(s: Seq<char>, pos: int) -> Option<int>
    decreases s.len() - pos when 0 <= pos <= s.len()
{
    if pos >= s.len() {
        None
    } else if s[pos] == ':' {
        Some(pos)
    } else {
        sp_find_colon(s, pos + 1)
    }
}

/// Parse an unsigned 32-bit decimal number.
pub open spec fn sp_u32(s: Seq<char>, pos: int) -> Option<(u32, int)> {
    if 0 <= pos <= s.len() {
        let dend = literals::sp_digits_end(s, pos);
        if dend == pos {
            None
        } else {
            let m = literals::sp_digits_val(s, pos, dend);
            if m <= u32::MAX {
                Some((m as u32, dend))
            } else {
                None
            }
        }
    } else {
        None
    }
}

/// Parse clang's anonymous-entity name: `(anonymous)` or
/// `(anonymous <identifier>)`.
pub open spec fn sp_anonymous(s: Seq<char>, pos: int) -> Option<(UnqualifiedIdV, int)> {
    if atoms::sp_lit_at(s, pos, "(anonymous"@) {
        let p0 = pos + 10;
        if p0 < s.len() && s[p0] == ')' {
            Some((UnqualifiedIdV::Anonymous { id: None }, p0 + 1))
        } else if p0 < s.len() && s[p0] == ' ' {
            match atoms::sp_identifier(s, p0 + 1) {
                Some((id, p1)) => {
                    if p1 < s.len() && s[p1] == ')' {
                        Some((UnqualifiedIdV::Anonymous { id: Some(id) }, p1 + 1))
                    } else {
                        None
                    }
                },
                None => None,
            }
        } else {
            None
        }
    } else {
        None
    }
}

/// Parse clang's `<unknown>` entity.
pub open spec fn sp_unknown_entity(s: Seq<char>, pos: int) -> Option<int> {
    if atoms::sp_lit_at(s, pos, "<unknown>"@) {
        Some(pos + 9)
    } else {
        None
    }
}

/// Parse an unqualified-id: an operator overload, one of clang's special
/// names, `decltype(auto)`, a destructor, or a named id with optional
/// template parameters.
pub open spec fn sp_unqualified_id(s: Seq<char>, pos: int) -> Option<(UnqualifiedIdV, int)>
    decreases s.len() - pos, 2int, 0int
        when 0 <= pos <= s.len()
{
    match sp_operator_overload(s, pos) {
        Some(((op, tpl), p)) => Some((
            UnqualifiedIdV::OperatorName {
                operator: Box::new(op),
                template_parameters: tpl,
            },
            p,
        )),
        None => match sp_lambda(s, pos) {
            Some(r) => Some(r),
            None => match sp_anonymous(s, pos) {
                Some(r) => Some(r),
                None => match sp_unknown_entity(s, pos) {
                    Some(p) => Some((UnqualifiedIdV::Unknown, p)),
                    None => {
                        if atoms::sp_lit_at(s, pos, "decltype(auto)"@) {
                            Some((UnqualifiedIdV::DecltypeAuto, pos + 14))
                        } else if pos < s.len() && s[pos] == '~' {
                            match atoms::sp_identifier(s, pos + 1) {
                                Some((id, p)) => Some((UnqualifiedIdV::Destructor { id }, p)),
                                None => None,
                            }
                        } else {
                            match atoms::sp_identifier(s, pos) {
                                Some((id, p1)) => {
                                    if pos < p1 <= s.len() {
                                        match sp_template_parameters(s, p1) {
                                            Some((t, p2)) => {
                                                if p1 < p2 <= s.len() {
                                                    Some((
                                                        UnqualifiedIdV::Named {
                                                            id,
                                                            template_parameters: Some(t),
                                                        },
                                                        p2,
                                                    ))
                                                } else {
                                                    Some((
                                                        UnqualifiedIdV::Named {
                                                            id,
                                                            template_parameters: None,
                                                        },
                                                        p1,
                                                    ))
                                                }
                                            },
                                            None => Some((
                                                UnqualifiedIdV::Named {
                                                    id,
                                                    template_parameters: None,
                                                },
                                                p1,
                                            )),
                                        }
                                    } else {
                                        None
                                    }
                                },
                                None => None,
                            }
                        }
                    },
                },
            },
        },
    }
}

/// Parse an id-expression: a scope chain followed by an unqualified-id.
pub open spec fn sp_id_expression(s: Seq<char>, pos: int) -> Option<(IdExpressionV, int)>
    decreases s.len() - pos, 3int, 0int
        when 0 <= pos <= s.len()
{
    let sc = sp_scope_chain(s, pos);
    if pos <= sc.1 <= s.len() {
        match sp_unqualified_id(s, sc.1) {
            Some((u, p)) => Some((IdExpressionV { scopes: sc.0, id: u }, p)),
            None => None,
        }
    } else {
        None
    }
}

// ---------------------------------------------------------------------
// Template parameters (rank 0: every inner call consumes input first)
// ---------------------------------------------------------------------

/// Parse one template parameter: a type if possible, else a value with the
/// comma and greater-than operators disabled.
pub open spec fn sp_template_parameter(s: Seq<char>, pos: int) -> Option<(TemplateParameterV, int)>
    decreases s.len() - pos, 7int, 0int
        when 0 <= pos <= s.len()
{
    match sp_type_like(s, pos) {
        Some((t, p)) => Some((TemplateParameterV::TypeLike(t), p)),
        None => match sp_value_like(s, pos, false, false) {
            Some((v, p)) => Some((TemplateParameterV::ValueLike(v), p)),
            None => None,
        },
    }
}

/// Parameters after the first one: `, <blanks> parameter` groups.
pub open spec fn sp_tpl_more(s: Seq<char>, pos: int) -> (Seq<TemplateParameterV>, int)
    decreases s.len() - pos, 0int, 0int
        when 0 <= pos <= s.len()
{
    if pos < s.len() && s[pos] == ',' {
        let q = atoms::sp_space_end(s, pos + 1);
        if pos < q <= s.len() {
            match sp_template_parameter(s, q) {
                Some((x, p)) => {
                    if pos < p <= s.len() && q < p {
                        let rest = sp_tpl_more(s, p);
                        (seq![x] + rest.0, rest.1)
                    } else {
                        (Seq::empty(), pos)
                    }
                },
                None => (Seq::empty(), pos),
            }
        } else {
            (Seq::empty(), pos)
        }
    } else {
        (Seq::empty(), pos)
    }
}

/// Parse a template-parameter list `<...>`, or clang's `<, void>` ambiguity
/// sentinel.  An empty list `<>` is valid.
pub open spec fn sp_template_parameters(s: Seq<char>, pos: int) -> Option<(TemplateParametersV, int)>
    decreases s.len() - pos, 0int, 1int
        when 0 <= pos <= s.len()
{
    let list = sp_tpl_list(s, pos);
    match list {
        Some(r) => Some(r),
        None => {
            if atoms::sp_lit_at(s, pos, "<, void>"@) {
                Some((TemplateParametersV::Ambiguous, pos + 8))
            } else {
                None
            }
        },
    }
}

/// The proper-list branch of [`sp_template_parameters`]
pub open spec fn sp_tpl_list(s: Seq<char>, pos: int) -> Option<(TemplateParametersV, int)>
    decreases s.len() - pos, 0int, 0int
        when 0 <= pos <= s.len()
{
    if pos < s.len() && s[pos] == '<' {
        let p0 = pos + 1;
        let items = match sp_template_parameter(s, p0) {
            Some((x, p)) => {
                if p0 < p <= s.len() {
                    let rest = sp_tpl_more(s, p);
                    (seq![x] + rest.0, rest.1)
                } else {
                    (Seq::empty(), p0)
                }
            },
            None => (Seq::empty(), p0),
        };
        let q = atoms::sp_space_end(s, items.1);
        if q < s.len() && s[q] == '>' {
            Some((TemplateParametersV::Resolved(items.0), q + 1))
        } else {
            None
        }
    } else {
        None
    }
}

// ---------------------------------------------------------------------
// Function signatures (rank 0)
// ---------------------------------------------------------------------

/// Parameters after the first one: `<blanks> , <blanks> type` groups.
pub open spec fn sp_param_more(s: Seq<char>, pos: int) -> (Seq<TypeLikeV>, int)
    decreases s.len() - pos, 0int, 0int
        when 0 <= pos <= s.len()
{
    let q = atoms::sp_space_end(s, pos);
    if q < s.len() && s[q] == ',' {
        let q2 = atoms::sp_space_end(s, q + 1);
        if pos < q2 <= s.len() {
            match sp_type_like(s, q2) {
                Some((x, p)) => {
                    if pos < p <= s.len() && q2 < p {
                        let rest = sp_param_more(s, p);
                        (seq![x] + rest.0, rest.1)
                    } else {
                        (Seq::empty(), pos)
                    }
                },
                None => (Seq::empty(), pos),
            }
        } else {
            (Seq::empty(), pos)
        }
    } else {
        (Seq::empty(), pos)
    }
}

/// Parse a parenthesized, comma-separated parameter-type list.
pub open spec fn sp_function_parameters(s: Seq<char>, pos: int) -> Option<(Seq<TypeLikeV>, int)>
    decreases s.len() - pos, 0int, 1int
        when 0 <= pos <= s.len()
{
    if pos < s.len() && s[pos] == '(' {
        let p0 = pos + 1;
        let items = match sp_type_like(s, p0) {
            Some((x, p)) => {
                if p0 < p <= s.len() {
                    let rest = sp_param_more(s, p);
                    (seq![x] + rest.0, rest.1)
                } else {
                    (Seq::empty(), p0)
                }
            },
            None => (Seq::empty(), p0),
        };
        let q = atoms::sp_space_end(s, items.1);
        if q < s.len() && s[q] == ')' {
            Some((items.0, q + 1))
        } else {
            None
        }
    } else {
        None
    }
}

/// Parse the `noexcept` qualifier with its optional argument.
pub open spec fn sp_noexcept(s: Seq<char>, pos: int) -> Option<(Option<Box<ValueLikeV>>, int)>
    decreases s.len() - pos, 0int, 1int
        when 0 <= pos <= s.len()
{
    match atoms::sp_keyword(s, pos, "noexcept"@) {
        Some(p) => {
            if pos < p <= s.len() && p < s.len() && s[p] == '(' {
                match sp_value_like(s, p + 1, true, true) {
                    Some((v, p2)) => {
                        if p < p2 <= s.len() && p2 < s.len() && s[p2] == ')' {
                            Some((Some(Box::new(v)), p2 + 1))
                        } else {
                            Some((None, p))
                        }
                    },
                    None => Some((None, p)),
                }
            } else if pos < p <= s.len() {
                Some((None, p))
            } else {
                None
            }
        },
        None => None,
    }
}

/// Parse a function signature: parameters, optional CV, optional reference
/// qualifier, optional `noexcept`.
pub open spec fn sp_function_signature(s: Seq<char>, pos: int) -> Option<(FunctionSignatureV, int)>
    decreases s.len() - pos, 0int, 2int
        when 0 <= pos <= s.len()
{
    match sp_function_parameters(s, pos) {
        Some((params, p1)) => {
            if pos < p1 <= s.len() {
                let cvr = atoms::sp_cv(s, p1, cv_none());
                if p1 <= cvr.1 <= s.len() {
                    let q = atoms::sp_space_end(s, cvr.1);
                    if cvr.1 <= q <= s.len() {
                    let refr = atoms::sp_reference(s, q);
                    if q <= refr.1 <= s.len() {
                        let q2 = atoms::sp_space_end(s, refr.1);
                        if !(refr.1 <= q2 <= s.len()) {
                            Some((
                                FunctionSignatureV {
                                    parameters: params,
                                    cv: cvr.0,
                                    reference: refr.0,
                                    noexcept: None,
                                },
                                refr.1,
                            ))
                        } else {
                        match sp_noexcept(s, q2) {
                            Some((ne, p2)) => {
                                if q2 < p2 <= s.len() {
                                    Some((
                                        FunctionSignatureV {
                                            parameters: params,
                                            cv: cvr.0,
                                            reference: refr.0,
                                            noexcept: Some(ne),
                                        },
                                        p2,
                                    ))
                                } else {
                                    Some((
                                        FunctionSignatureV {
                                            parameters: params,
                                            cv: cvr.0,
                                            reference: refr.0,
                                            noexcept: None,
                                        },
                                        refr.1,
                                    ))
                                }
                            },
                            None => Some((
                                FunctionSignatureV {
                                    parameters: params,
                                    cv: cvr.0,
                                    reference: refr.0,
                                    noexcept: None,
                                },
                                refr.1,
                            )),
                        }
                        }
                    } else {
                        None
                    }
                    } else {
                        None
                    }
                } else {
                    None
                }
            } else {
                None
            }
        },
        None => None,
    }
}

// ---------------------------------------------------------------------
// Types (rank 4)
// ---------------------------------------------------------------------

/// The elaborated-type keywords that may prefix an id-expression
pub open spec fn sp_elaborated_prefix(s: Seq<char>, pos: int) -> int {
    let kw = if atoms::sp_keyword(s, pos, "typename"@) is Some {
        atoms::sp_keyword(s, pos, "typename"@)
    } else if atoms::sp_keyword(s, pos, "class"@) is Some {
        atoms::sp_keyword(s, pos, "class"@)
    } else if atoms::sp_keyword(s, pos, "struct"@) is Some {
        atoms::sp_keyword(s, pos, "struct"@)
    } else if atoms::sp_keyword(s, pos, "enum"@) is Some {
        atoms::sp_keyword(s, pos, "enum"@)
    } else if atoms::sp_keyword(s, pos, "union"@) is Some {
        atoms::sp_keyword(s, pos, "union"@)
    } else {
        None
    };
    match kw {
        Some(p) => match atoms::sp_space1(s, p) {
            Some(q) => if pos < q <= s.len() {
                q
            } else {
                pos
            },
            None => pos,
        },
        None => pos,
    }
}

/// Parse the declarator chain: `*` (with optional CV), `&`, `&&`, each
/// possibly preceded by blanks; never fails.
pub open spec fn sp_decl_chain(s: Seq<char>, pos: int) -> (Seq<DeclOperator>, int)
    decreases s.len() - pos, 0int, 0int
        when 0 <= pos <= s.len()
{
    let q = atoms::sp_space_end(s, pos);
    if q < s.len() && s[q] == '*' {
        let cvr = atoms::sp_cv(s, q + 1, cv_none());
        if pos < cvr.1 <= s.len() {
            let rest = sp_decl_chain(s, cvr.1);
            (seq![DeclOperator::Pointer(cvr.0)] + rest.0, rest.1)
        } else {
            (Seq::empty(), pos)
        }
    } else if atoms::sp_lit_at(s, q, "&&"@) {
        if pos < q + 2 <= s.len() {
            let rest = sp_decl_chain(s, q + 2);
            (seq![DeclOperator::RRef] + rest.0, rest.1)
        } else {
            (Seq::empty(), pos)
        }
    } else if q < s.len() && s[q] == '&' {
        if pos < q + 1 <= s.len() {
            let rest = sp_decl_chain(s, q + 1);
            (seq![DeclOperator::LRef] + rest.0, rest.1)
        } else {
            (Seq::empty(), pos)
        }
    } else {
        (Seq::empty(), pos)
    }
}

/// Parse the array-extent chain: bracketed optional values; never fails.
pub open spec fn sp_array_chain(s: Seq<char>, pos: int) -> (Seq<Option<Box<ValueLikeV>>>, int)
    decreases s.len() - pos, 0int, 1int
        when 0 <= pos <= s.len()
{
    let q = atoms::sp_space_end(s, pos);
    if q < s.len() && s[q] == '[' {
        let q2 = atoms::sp_space_end(s, q + 1);
        if q2 < s.len() && s[q2] == ']' {
            if pos < q2 + 1 <= s.len() {
                let rest = sp_array_chain(s, q2 + 1);
                (seq![None] + rest.0, rest.1)
            } else {
                (Seq::empty(), pos)
            }
        } else if pos < q2 <= s.len() {
            match sp_value_like(s, q2, false, true) {
                Some((v, p)) => {
                    if q2 <= p <= s.len() {
                        let q3 = atoms::sp_space_end(s, p);
                        if q3 < s.len() && s[q3] == ']' && pos < q3 + 1 {
                            let rest = sp_array_chain(s, q3 + 1);
                            (seq![Some(Box::new(v))] + rest.0, rest.1)
                        } else {
                            (Seq::empty(), pos)
                        }
                    } else {
                        (Seq::empty(), pos)
                    }
                },
                None => (Seq::empty(), pos),
            }
        } else {
            (Seq::empty(), pos)
        }
    } else {
        (Seq::empty(), pos)
    }
}

/// Parse a type specifier: optional CV, a legacy primitive name or an
/// (optionally elaborated) id-expression, then optional CV.
pub open spec fn sp_type_specifier(s: Seq<char>, pos: int) -> Option<(TypeSpecifierV, int)>
    decreases s.len() - pos, 4int, 0int
        when 0 <= pos <= s.len()
{
    let cv1r = atoms::sp_cv(s, pos, cv_none());
    if pos <= cv1r.1 <= s.len() {
        let p1 = atoms::sp_space_end(s, cv1r.1);
        if !(cv1r.1 <= p1 <= s.len()) {
            None
        } else {
        let simple = match legacy::sp_legacy_name(s, p1) {
            Some((l, p)) => Some((SimpleTypeV::LegacyName(l), p)),
            None => {
                let p_id = sp_elaborated_prefix(s, p1);
                if p1 <= p_id <= s.len() {
                    match sp_id_expression(s, p_id) {
                        Some((i, p)) => Some((SimpleTypeV::IdExpression(i), p)),
                        None => None,
                    }
                } else {
                    None
                }
            },
        };
        match simple {
            Some((st, p2)) => {
                if p1 <= p2 <= s.len() {
                    let p2b = atoms::sp_space_end(s, p2);
                    let cv2r = atoms::sp_cv(s, p2b, cv_none());
                    if p2b <= cv2r.1 <= s.len() {
                        Some((
                            TypeSpecifierV {
                                cv: ConstVolatile {
                                    is_const: cv1r.0.is_const || cv2r.0.is_const,
                                    is_volatile: cv1r.0.is_volatile || cv2r.0.is_volatile,
                                },
                                simple_type: st,
                            },
                            cv2r.1,
                        ))
                    } else {
                        None
                    }
                } else {
                    None
                }
            },
            None => None,
        }
        }
    } else {
        None
    }
}

/// Parse a type: a type specifier, then declarators, an optional
/// function-signature suffix, and optional array extents.
pub open spec fn sp_type_like(s: Seq<char>, pos: int) -> Option<(TypeLikeV, int)>
    decreases s.len() - pos, 4int, 1int
        when 0 <= pos <= s.len()
{
    match sp_type_specifier(s, pos) {
        Some((spec, p1)) => {
            if pos <= p1 <= s.len() {
                let dc = sp_decl_chain(s, p1);
                if p1 <= dc.1 <= s.len() {
                    let qs = atoms::sp_space_end(s, dc.1);
                    let sig = if p1 <= qs <= s.len() {
                        match sp_function_signature(s, qs) {
                            Some((f, p)) => if qs < p <= s.len() {
                                Some((Some(Box::new(f)), p))
                            } else {
                                Some((None, dc.1))
                            },
                            None => Some((None, dc.1)),
                        }
                    } else {
                        Some((None, dc.1))
                    };
                    match sig {
                        Some((sg, p2)) => {
                            if p1 <= p2 <= s.len() {
                                let ac = sp_array_chain(s, p2);
                                if p2 <= ac.1 <= s.len() {
                                    Some((
                                        TypeLikeV {
                                            specifier: spec,
                                            declarators: dc.0,
                                            signature: sg,
                                            arrays: ac.0,
                                        },
                                        ac.1,
                                    ))
                                } else {
                                    None
                                }
                            } else {
                                None
                            }
                        },
                        None => None,
                    }
                } else {
                    None
                }
            } else {
                None
            }
        },
        None => None,
    }
}

// ---------------------------------------------------------------------
// Operator overloads and value expressions (ranks 1, 5, 6)
// ---------------------------------------------------------------------

/// Try an arithmetic/comparison operator of length `len` followed by an
/// optional template-parameter list; reject the candidate if an operator
/// symbol is queued next, which means the operator name was cut short.
pub open spec fn sp_arith_tpl(s: Seq<char>, pos: int, len: int)
    -> Option<((OperatorV, Option<TemplateParametersV>), int)>
    decreases s.len() - pos, 1int, 0int
        when 0 <= pos <= s.len()
{
    match operators::sp_arith(s, pos, len) {
        Some((op, p1)) => {
            if pos < p1 <= s.len() {
                let tq = match sp_template_parameters(s, p1) {
                    Some((t, q)) => if p1 < q <= s.len() {
                        (Some(t), q)
                    } else {
                        (None, p1)
                    },
                    None => (None, p1),
                };
                if atoms::spec_symbol(s, tq.1) is None {
                    Some(((op, tq.0), tq.1))
                } else {
                    None
                }
            } else {
                None
            }
        },
        None => None,
    }
}

/// Parse an operator-overload name, starting from the `operator` keyword.
pub open spec fn sp_operator_overload(s: Seq<char>, pos: int)
    -> Option<((OperatorV, Option<TemplateParametersV>), int)>
    decreases s.len() - pos, 1int, 1int
        when 0 <= pos <= s.len()
{
    match atoms::sp_keyword(s, pos, "operator"@) {
        Some(p) => {
            if pos < p <= s.len() {
                match sp_arith_tpl(s, p, 1) {
                    Some(r) => Some(r),
                    None => match sp_arith_tpl(s, p, 2) {
                        Some(r) => Some(r),
                        None => match sp_arith_tpl(s, p, 3) {
                            Some(r) => Some(r),
                            None => {
                                let ob = sp_operator_oblivious(s, p);
                                match ob {
                                    Some((op, p1)) => {
                                        if p <= p1 <= s.len() {
                                            let tq = match sp_template_parameters(s, p1) {
                                                Some((t, q)) => if p1 < q <= s.len() {
                                                    (Some(t), q)
                                                } else {
                                                    (None, p1)
                                                },
                                                None => (None, p1),
                                            };
                                            Some(((op, tq.0), tq.1))
                                        } else {
                                            None
                                        }
                                    },
                                    None => None,
                                }
                            },
                        },
                    },
                }
            } else {
                None
            }
        },
        None => None,
    }
}

/// The template-oblivious operator names: bracket pairs, custom literals,
/// and after one space `new`/`delete`, `co_await`, or a conversion type.
pub open spec fn sp_operator_oblivious(s: Seq<char>, pos: int) -> Option<(OperatorV, int)>
    decreases s.len() - pos, 1int, 0int
        when 0 <= pos <= s.len()
{
    match operators::sp_call_or_index(s, pos) {
        Some(r) => Some(r),
        None => match operators::sp_custom_literal(s, pos) {
            Some(r) => Some(r),
            None => {
                if pos < s.len() && s[pos] == ' ' {
                    let q = pos + 1;
                    match operators::sp_new_or_delete(s, q) {
                        Some(r) => Some(r),
                        None => match operators::sp_co_await(s, q) {
                            Some(r) => Some(r),
                            None => {
                                if q <= s.len() {
                                    match sp_type_like(s, q) {
                                        Some((t, p)) => Some((
                                            OperatorV::Conversion(Box::new(t)),
                                            p,
                                        )),
                                        None => None,
                                    }
                                } else {
                                    None
                                }
                            },
                        },
                    }
                } else {
                    None
                }
            },
        },
    }
}

/// Parse a unary prefix operator: `++`/`--`, a unary symbol, `co_await` or
/// `delete` followed by whitespace, or a parenthesized type cast.
pub open spec fn sp_unary_expr_prefix(s: Seq<char>, pos: int) -> Option<(OperatorV, int)>
    decreases s.len() - pos, 1int, 2int
        when 0 <= pos <= s.len()
{
    let incdec = match (atoms::spec_symbol(s, pos), atoms::spec_symbol(s, pos + 1)) {
        (Some((s1, _)), Some((s2, p))) => {
            if s1 == crate::atoms::Symbol::AddPlus && s2 == crate::atoms::Symbol::AddPlus {
                Some((OperatorV::Basic { symbol: s1, twice: true, equal: false }, p))
            } else if s1 == crate::atoms::Symbol::SubNeg && s2 == crate::atoms::Symbol::SubNeg {
                Some((OperatorV::Basic { symbol: s1, twice: true, equal: false }, p))
            } else {
                None
            }
        },
        _ => None,
    };
    let unary_sym = match atoms::spec_symbol(s, pos) {
        Some((sym, p)) => {
            if sym == crate::atoms::Symbol::AddPlus || sym == crate::atoms::Symbol::SubNeg
                || sym == crate::atoms::Symbol::MulDeref || sym == crate::atoms::Symbol::AndRef
                || sym == crate::atoms::Symbol::BitNot || sym == crate::atoms::Symbol::Not {
                Some((OperatorV::Basic { symbol: sym, twice: false, equal: false }, p))
            } else {
                None
            }
        },
        None => None,
    };
    match if incdec is Some { incdec } else { unary_sym } {
        Some((op, p)) => Some((op, atoms::sp_space_end(s, p))),
        None => {
            let kwop = match operators::sp_co_await(s, pos) {
                Some(r) => Some(r),
                None => operators::sp_delete(s, pos),
            };
            match kwop {
                Some((op, p)) => match atoms::sp_space1(s, p) {
                    Some(q) => Some((op, q)),
                    None => sp_unary_cast(s, pos),
                },
                None => sp_unary_cast(s, pos),
            }
        },
    }
}

/// The cast alternative of [`sp_unary_expr_prefix`]: `( type )`.
pub open spec fn sp_unary_cast(s: Seq<char>, pos: int) -> Option<(OperatorV, int)>
    decreases s.len() - pos, 1int, 1int
        when 0 <= pos <= s.len()
{
    if pos < s.len() && s[pos] == '(' {
        match sp_type_like(s, pos + 1) {
            Some((t, p)) => {
                if pos < p <= s.len() && p < s.len() && s[p] == ')' {
                    Some((
                        OperatorV::Conversion(Box::new(t)),
                        atoms::sp_space_end(s, p + 1),
                    ))
                } else {
                    None
                }
            },
            None => None,
        }
    } else {
        None
    }
}

/// Parse a value atom: a literal, a unary operation, a named value, or a
/// parenthesized value.
pub open spec fn sp_value_atom(s: Seq<char>, pos: int) -> Option<(ValueLikeV, int)>
    decreases s.len() - pos, 5int, 0int
        when 0 <= pos <= s.len()
{
    match literals::sp_literal(s, pos) {
        Some((v, suf, p)) => Some((
            ValueLikeV::Literal(LiteralV { value: v, custom_suffix: suf }),
            p,
        )),
        None => {
            let un = match sp_unary_expr_prefix(s, pos) {
                Some((op, p)) => {
                    if pos < p <= s.len() {
                        match sp_value_atom(s, p) {
                            Some((inner, p2)) => Some((
                                ValueLikeV::UnaryOp(Box::new(op), Box::new(inner)),
                                p2,
                            )),
                            None => None,
                        }
                    } else {
                        None
                    }
                },
                None => None,
            };
            match un {
                Some(r) => Some(r),
                None => match sp_id_expression(s, pos) {
                    Some((i, p)) => Some((ValueLikeV::IdExpression(Box::new(i)), p)),
                    None => {
                        if pos < s.len() && s[pos] == '(' {
                            match sp_value_like(s, pos + 1, true, true) {
                                Some((v, p)) => {
                                    if pos < p <= s.len() && p < s.len() && s[p] == ')' {
                                        Some((ValueLikeV::Parens(Box::new(v)), p + 1))
                                    } else {
                                        None
                                    }
                                },
                                None => None,
                            }
                        } else {
                            None
                        }
                    },
                },
            }
        },
    }
}

/// Fold trailing `op value` groups onto `first`, left-associatively.
pub open spec fn sp_value_chain(
    s: Seq<char>,
    pos: int,
    first: ValueLikeV,
    allow_comma: bool,
    allow_greater: bool,
) -> (ValueLikeV, int)
    decreases s.len() - pos, 6int, 0int
        when 0 <= pos <= s.len()
{
    let q = atoms::sp_space_end(s, pos);
    match operators::sp_binary_expr_middle(s, q, allow_comma, allow_greater) {
        Some((op, p1)) => {
            if pos < p1 <= s.len() {
                let q2 = atoms::sp_space_end(s, p1);
                if pos < q2 <= s.len() {
                    match sp_value_atom(s, q2) {
                        Some((rhs, p2)) => {
                            if pos < p2 <= s.len() && q2 <= p2 {
                                sp_value_chain(
                                    s,
                                    p2,
                                    ValueLikeV::BinaryOp(
                                        Box::new(first),
                                        Box::new(op),
                                        Box::new(rhs),
                                    ),
                                    allow_comma,
                                    allow_greater,
                                )
                            } else {
                                (first, pos)
                            }
                        },
                        None => (first, pos),
                    }
                } else {
                    (first, pos)
                }
            } else {
                (first, pos)
            }
        },
        None => (first, pos),
    }
}

/// Parse a value: an atom followed by any number of binary operations.
pub open spec fn sp_value_like(
    s: Seq<char>,
    pos: int,
    allow_comma: bool,
    allow_greater: bool,
) -> Option<(ValueLikeV, int)>
    decreases s.len() - pos, 6int, 1int
        when 0 <= pos <= s.len()
{
    match sp_value_atom(s, pos) {
        Some((v, p)) => {
            if pos < p <= s.len() {
                Some(sp_value_chain(s, p, v, allow_comma, allow_greater))
            } else {
                Some((v, p))
            }
        },
        None => None,
    }
}

// ---------------------------------------------------------------------
// Executable parsers: clang's special names
// ---------------------------------------------------------------------

/// Position of the next `:`, if any
fn find_colon(inp: &Vec<char>, pos: usize) -> (r: Option<usize>)
    requires
        pos <= inp@.len(),
    ensures
        match r {
            Some(j) => sp_find_colon(inp@, pos as int) == Some(j as int)
                && pos <= j < inp@.len(),
            None => sp_find_colon(inp@, pos as int) is None,
        },
{
    let mut i: usize = pos;
    while i < inp.len() && inp[i] != ':'
        invariant
            pos <= i <= inp@.len(),
            sp_find_colon(inp@, pos as int) == sp_find_colon(inp@, i as int),
        decreases inp@.len() - i,
    {
        i = i + 1;
    }
    if i < inp.len() {
        Some(i)
    } else {
        None
    }
}

/// Parser for unsigned 32-bit decimal numbers
fn parse_u32(inp: &Vec<char>, pos: usize) -> (r: Option<(u32, usize)>)
    requires
        pos <= inp@.len(),
    ensures
        atoms::omatch(r, sp_u32(inp@, pos as int)),
        r is Some ==> pos < r.unwrap().1 <= inp@.len(),
{
    let n = inp.len();
    proof {
        literals::lemma_digits_end_bounds(inp@, pos as int);
    }
    let mut dend: usize = pos;
    while dend < n && literals::digit_char(inp[dend])
        invariant
            pos <= dend <= n == inp@.len(),
            literals::sp_digits_end(inp@, pos as int) == literals::sp_digits_end(inp@, dend as int),
        decreases n - dend,
    {
        proof {
            literals::lemma_digits_end_bounds(inp@, dend + 1);
        }
        dend = dend + 1;
    }
    proof {
        if (dend as int) < inp@.len() {
            assert(!literals::is_digit(inp@[dend as int]));
        }
        assert(literals::sp_digits_end(inp@, dend as int) == dend as int);
    }
    if dend == pos {
        return None;
    }
    proof {
        literals::lemma_digits_end_bounds(inp@, pos as int);
    }
    let mut acc: u64 = 0;
    let mut i: usize = pos;
    while i < dend
        invariant
            pos <= i <= dend <= inp@.len(),
            forall|j: int| pos <= j < dend ==> literals::is_digit(inp@[j]),
            acc <= 0xffff_ffff ==> acc == literals::sp_digits_val(inp@, pos as int, i as int),
            acc > 0xffff_ffff ==> literals::sp_digits_val(inp@, pos as int, i as int) > u32::MAX,
            acc <= 0x1_0000_0000,
        decreases dend - i,
    {
        let c = inp[i];
        assert(literals::is_digit(inp@[i as int]));
        let d: u64 = (c as u32 - '0' as u32) as u64;
        assert(d <= 9);
        proof {
            assert(literals::sp_digits_val(inp@, pos as int, i + 1)
                == literals::sp_digits_val(inp@, pos as int, i as int) * 10 + d);
            if acc > 0xffff_ffff {
                literals::lemma_digits_val_nonneg(inp@, pos as int, i as int);
                assert(literals::sp_digits_val(inp@, pos as int, i + 1) > u32::MAX)
                    by (nonlinear_arith)
                    requires
                        literals::sp_digits_val(inp@, pos as int, i + 1)
                            == literals::sp_digits_val(inp@, pos as int, i as int) * 10 + d,
                        literals::sp_digits_val(inp@, pos as int, i as int) > u32::MAX,
                        d >= 0,
                ;
            }
        }
        if acc > 0xffff_ffff {
            acc = 0x1_0000_0000;
        } else {
            acc = acc * 10 + d;
            if acc > 0x1_0000_0000 {
                acc = 0x1_0000_0000;
                proof {
                    assert(literals::sp_digits_val(inp@, pos as int, i + 1) > u32::MAX);
                }
            }
        }
        i = i + 1;
    }
    proof {
        if acc > 0xffff_ffff {
            literals::lemma_digits_val_monotone(inp@, pos as int, i as int, dend as int);
        }
    }
    if acc <= 0xffff_ffff {
        Some((acc as u32, dend))
    } else {
        None
    }
}

/// Parser for clang lambda names `(lambda at <file path>:<line>:<col>)`
///
/// This fails if the file path contains a `:` other than a Windows-style
/// disk designator at the start.
pub fn lambda(inp: &Vec<char>, pos: usize) -> (r: Option<(crate::ast::Lambda, usize)>)
    requires
        pos <= inp@.len(),
    ensures
        match r {
            Some((lam, p)) => sp_lambda(inp@, pos as int)
                == Some((
                    UnqualifiedIdV::Lambda { file: lam.file@, line: lam.line, col: lam.col },
                    p as int,
                )) && pos < p <= inp@.len(),
            None => sp_lambda(inp@, pos as int) is None,
        },
{
    proof {
        reveal_strlit("(lambda at ");
    }
    let n = inp.len();
    if !atoms::lit_at(inp, pos, "(lambda at ") {
        return None;
    }
    assert(pos + 11 <= n);
    let p0 = pos + 11;
    let pd = if n - p0 > 1 && inp[p0 + 1] == ':' {
        assert(p0 + 1 < n);
        p0 + 2
    } else {
        p0
    };
    let j = match find_colon(inp, pd) {
        Some(j) => j,
        None => {
            return None;
        },
    };
    if !(j > pd) {
        return None;
    }
    let mut file_chars: Vec<char> = Vec::new();
    let mut i: usize = p0;
    while i < j
        invariant
            p0 <= i <= j <= inp@.len(),
            file_chars@ == inp@.subrange(p0 as int, i as int),
        decreases j - i,
    {
        file_chars.push(inp[i]);
        assert(file_chars@ =~= inp@.subrange(p0 as int, i + 1));
        i = i + 1;
    }
    let (line, p1) = match parse_u32(inp, j + 1) {
        Some(r) => r,
        None => {
            return None;
        },
    };
    if !(p1 < n && inp[p1] == ':') {
        return None;
    }
    let (col, p2) = match parse_u32(inp, p1 + 1) {
        Some(r) => r,
        None => {
            return None;
        },
    };
    if !(p2 < n && inp[p2] == ')') {
        return None;
    }
    let file = text::string_from_chars(file_chars);
    Some((crate::ast::Lambda { file, line, col }, p2 + 1))
}

/// Parser for clang's anonymous entities `(anonymous)` and
/// `(anonymous <identifier>)`
pub fn anonymous(inp: &Vec<char>, pos: usize) -> (r: Option<(Option<String>, usize)>)
    requires
        pos <= inp@.len(),
    ensures
        match r {
            Some((id, p)) => sp_anonymous(inp@, pos as int)
                == Some((
                    UnqualifiedIdV::Anonymous {
                        id: match id {
                            Some(name) => Some(name@),
                            None => None,
                        },
                    },
                    p as int,
                )) && pos < p <= inp@.len(),
            None => sp_anonymous(inp@, pos as int) is None,
        },
{
    proof {
        reveal_strlit("(anonymous");
    }
    let n = inp.len();
    if !atoms::lit_at(inp, pos, "(anonymous") {
        return None;
    }
    assert(pos + 10 <= n);
    let p0 = pos + 10;
    if p0 < n && inp[p0] == ')' {
        return Some((None, p0 + 1));
    }
    if p0 < n && inp[p0] == ' ' {
        match atoms::identifier(inp, p0 + 1) {
            Some((id, p1)) => {
                if p1 < n && inp[p1] == ')' {
                    let name = text::string_from_chars(id);
                    return Some((Some(name), p1 + 1));
                } else {
                    return None;
                }
            },
            None => {
                return None;
            },
        }
    }
    None
}

/// Parser for clang's `<unknown>` entity
pub fn unknown_entity(inp: &Vec<char>, pos: usize) -> (r: Option<usize>)
    requires
        pos <= inp@.len(),
    ensures
        match r {
            Some(p) => sp_unknown_entity(inp@, pos as int) == Some(p as int)
                && pos < p <= inp@.len(),
            None => sp_unknown_entity(inp@, pos as int) is None,
        },
{
    proof {
        reveal_strlit("<unknown>");
    }
    let n = inp.len();
    if atoms::lit_at(inp, pos, "<unknown>") {
        assert(pos + 9 <= n);
        Some(pos + 9)
    } else {
        None
    }
}

// ---------------------------------------------------------------------
// Executable parsers: template parameters
// ---------------------------------------------------------------------

/// Parser for one template parameter
pub fn template_parameter(inp: &Vec<char>, pos: usize) -> (r: Option<(TemplateParameter, usize)>)
    requires
        pos <= inp@.len(),
    ensures
        match r {
            Some((x, p)) => sp_template_parameter(inp@, pos as int)
                == Some((
                    match x {
                        TemplateParameter::TypeLike(t) => TemplateParameterV::TypeLike(v_type_like(t)),
                        TemplateParameter::ValueLike(v) => TemplateParameterV::ValueLike(v_value_like(v)),
                    },
                    p as int,
                )) && pos < p <= inp@.len(),
            None => sp_template_parameter(inp@, pos as int) is None,
        },
    decreases inp@.len() - pos, 7int, 0int,
{
    match type_like(inp, pos) {
        Some((t, p)) => Some((TemplateParameter::TypeLike(t), p)),
        None => match value_like::<false, false>(inp, pos) {
            Some((v, p)) => Some((TemplateParameter::ValueLike(v), p)),
            None => None,
        },
    }
}

/// The proper-list branch of [`template_parameters`]
#[verifier::rlimit(80)]
fn tpl_list(inp: &Vec<char>, pos: usize) -> (r: Option<(TemplateParameters, usize)>)
    requires
        pos <= inp@.len(),
    ensures
        match r {
            Some((t, p)) => sp_tpl_list(inp@, pos as int)
                == Some((v_template_parameters(t), p as int)) && pos < p <= inp@.len(),
            None => sp_tpl_list(inp@, pos as int) is None,
        },
    decreases inp@.len() - pos, 0int, 0int,
{
    let n = inp.len();
    if !(pos < n && inp[pos] == '<') {
        return None;
    }
    let p0 = pos + 1;
    let mut items: Vec<TemplateParameter> = Vec::new();
    let mut pe: usize = p0;
    let ghost sitems = if pos < p0 <= inp@.len() {
        match sp_template_parameter(inp@, p0 as int) {
            Some((x, p)) => {
                if p0 < p <= inp@.len() {
                    let rest = sp_tpl_more(inp@, p);
                    (seq![x] + rest.0, rest.1)
                } else {
                    (Seq::<TemplateParameterV>::empty(), p0 as int)
                }
            },
            None => (Seq::<TemplateParameterV>::empty(), p0 as int),
        }
    } else {
        (Seq::<TemplateParameterV>::empty(), p0 as int)
    };
    match template_parameter(inp, p0) {
        Some((x0, p)) => {
            proof {
                lemma_v_tplparam_list_empty();
                lemma_v_tplparam_list_push(items@, x0);
            }
            items.push(x0);
            pe = p;
            proof {
                assert(sitems.0 =~= v_tplparam_list(items@) + sp_tpl_more(inp@, pe as int).0);
                assert(sitems.1 == sp_tpl_more(inp@, pe as int).1);
            }
            loop
                invariant_except_break
                    pos < pe,
                    p0 <= pe <= inp@.len(),
                    sitems.0 =~= v_tplparam_list(items@) + sp_tpl_more(inp@, pe as int).0,
                    sitems.1 == sp_tpl_more(inp@, pe as int).1,
                ensures
                    p0 <= pe <= inp@.len(),
                    sitems.0 =~= v_tplparam_list(items@),
                    sitems.1 == pe as int,
                decreases inp@.len() - pe,
            {
                if pe < inp.len() && inp[pe] == ',' {
                    let q = atoms::space0(inp, pe + 1);
                    if let Some((x, p2)) = template_parameter(inp, q) {
                        proof {
                            assert(sp_tpl_more(inp@, pe as int).0
                                =~= seq![sp_template_parameter(inp@, q as int).unwrap().0]
                                    + sp_tpl_more(inp@, p2 as int).0);
                            assert(sp_tpl_more(inp@, pe as int).1
                                == sp_tpl_more(inp@, p2 as int).1);
                            lemma_v_tplparam_list_push(items@, x);
                        }
                        items.push(x);
                        proof {
                            assert(sitems.0 =~= v_tplparam_list(items@)
                                + sp_tpl_more(inp@, p2 as int).0);
                        }
                        pe = p2;
                        continue;
                    }
                }
                proof {
                    assert(sp_tpl_more(inp@, pe as int).0 =~= Seq::<TemplateParameterV>::empty());
                    assert(sitems.0 =~= v_tplparam_list(items@)
                        + Seq::<TemplateParameterV>::empty());
                    assert(sitems.0 =~= v_tplparam_list(items@));
                }
                break;
            }
        },
        None => {
            proof {
                lemma_v_tplparam_list_empty();
                assert(items@ =~= Seq::<TemplateParameter>::empty());
                assert(sitems.0 =~= Seq::<TemplateParameterV>::empty());
            }
        },
    }
    let q = atoms::space0(inp, pe);
    if q < n && inp[q] == '>' {
        proof {
            assert(v_template_parameters(TemplateParameters::Resolved(items))
                == TemplateParametersV::Resolved(v_tplparam_list(items@)));
        }
        Some((TemplateParameters::Resolved(items), q + 1))
    } else {
        None
    }
}

/// Parser for template-parameter lists
///
/// `None` in the result value is never produced here; the `<, void>` pattern
/// that clang occasionally emits becomes the `Ambiguous` variant.
pub fn template_parameters(inp: &Vec<char>, pos: usize) -> (r: Option<(TemplateParameters, usize)>)
    requires
        pos <= inp@.len(),
    ensures
        match r {
            Some((t, p)) => sp_template_parameters(inp@, pos as int)
                == Some((v_template_parameters(t), p as int)) && pos < p <= inp@.len(),
            None => sp_template_parameters(inp@, pos as int) is None,
        },
    decreases inp@.len() - pos, 0int, 1int,
{
    match tpl_list(inp, pos) {
        Some(r) => Some(r),
        None => {
            proof {
                reveal_strlit("<, void>");
            }
            let n = inp.len();
            if atoms::lit_at(inp, pos, "<, void>") {
                assert(pos + 8 <= n);
                Some((TemplateParameters::Ambiguous, pos + 8))
            } else {
                None
            }
        },
    }
}

// ---------------------------------------------------------------------
// Executable parsers: function signatures
// ---------------------------------------------------------------------

/// Parser for parenthesized parameter-type lists
pub fn function_parameters(inp: &Vec<char>, pos: usize) -> (r: Option<(Vec<TypeLike>, usize)>)
    requires
        pos <= inp@.len(),
    ensures
        match r {
            Some((ps, p)) => sp_function_parameters(inp@, pos as int)
                == Some((v_type_list(ps@), p as int)) && pos < p <= inp@.len(),
            None => sp_function_parameters(inp@, pos as int) is None,
        },
    decreases inp@.len() - pos, 0int, 1int,
{
    let n = inp.len();
    if !(pos < n && inp[pos] == '(') {
        return None;
    }
    let p0 = pos + 1;
    let mut items: Vec<TypeLike> = Vec::new();
    let mut pe: usize = p0;
    let ghost sitems = if pos < p0 <= inp@.len() {
        match sp_type_like(inp@, p0 as int) {
            Some((x, p)) => {
                if p0 < p <= inp@.len() {
                    let rest = sp_param_more(inp@, p);
                    (seq![x] + rest.0, rest.1)
                } else {
                    (Seq::<TypeLikeV>::empty(), p0 as int)
                }
            },
            None => (Seq::<TypeLikeV>::empty(), p0 as int),
        }
    } else {
        (Seq::<TypeLikeV>::empty(), p0 as int)
    };
    match type_like(inp, p0) {
        Some((x0, p)) => {
            proof {
                lemma_v_type_list_empty();
                lemma_v_type_list_push(items@, x0);
            }
            items.push(x0);
            pe = p;
            proof {
                assert(sitems.0 =~= v_type_list(items@) + sp_param_more(inp@, pe as int).0);
                assert(sitems.1 == sp_param_more(inp@, pe as int).1);
            }
            loop
                invariant_except_break
                    p0 <= pe <= inp@.len(),
                    pos < pe,
                    sitems.0 =~= v_type_list(items@) + sp_param_more(inp@, pe as int).0,
                    sitems.1 == sp_param_more(inp@, pe as int).1,
                ensures
                    p0 <= pe <= inp@.len(),
                    sitems.0 =~= v_type_list(items@),
                    sitems.1 == pe as int,
                decreases inp@.len() - pe,
            {
                let q = atoms::space0(inp, pe);
                if q < inp.len() && inp[q] == ',' {
                    let q2 = atoms::space0(inp, q + 1);
                    if let Some((x, p2)) = type_like(inp, q2) {
                        proof {
                            assert(sp_param_more(inp@, pe as int).0
                                =~= seq![sp_type_like(inp@, q2 as int).unwrap().0]
                                    + sp_param_more(inp@, p2 as int).0);
                            assert(sp_param_more(inp@, pe as int).1
                                == sp_param_more(inp@, p2 as int).1);
                            lemma_v_type_list_push(items@, x);
                        }
                        items.push(x);
                        proof {
                            assert(sitems.0 =~= v_type_list(items@)
                                + sp_param_more(inp@, p2 as int).0);
                        }
                        pe = p2;
                        continue;
                    }
                }
                proof {
                    assert(sp_param_more(inp@, pe as int).0 =~= Seq::<TypeLikeV>::empty());
                    assert(sitems.0 =~= v_type_list(items@) + Seq::<TypeLikeV>::empty());
                    assert(sitems.0 =~= v_type_list(items@));
                }
                break;
            }
        },
        None => {
            proof {
                lemma_v_type_list_empty();
                assert(items@ =~= Seq::<TypeLike>::empty());
                assert(sitems.0 =~= Seq::<TypeLikeV>::empty());
            }
        },
    }
    let q = atoms::space0(inp, pe);
    if q < n && inp[q] == ')' {
        Some((items, q + 1))
    } else {
        None
    }
}

/// Parser for the `noexcept` qualifier and its optional argument
pub fn noexcept(inp: &Vec<char>, pos: usize) -> (r: Option<(Option<ValueLike>, usize)>)
    requires
        pos <= inp@.len(),
    ensures
        match r {
            Some((ne, p)) => sp_noexcept(inp@, pos as int)
                == Some((
                    match ne {
                        Some(v) => Some(Box::new(v_value_like(v))),
                        None => None,
                    },
                    p as int,
                )) && pos < p <= inp@.len(),
            None => sp_noexcept(inp@, pos as int) is None,
        },
    decreases inp@.len() - pos, 0int, 1int,
{
    proof {
        reveal_strlit("noexcept");
    }
    let n = inp.len();
    let p = match atoms::keyword(inp, pos, "noexcept") {
        Some(p) => p,
        None => {
            return None;
        },
    };
    assert(pos < p);
    if p < n && inp[p] == '(' {
        match value_like::<true, true>(inp, p + 1) {
            Some((v, p2)) => {
                if p2 < n && inp[p2] == ')' {
                    Some((Some(v), p2 + 1))
                } else {
                    Some((None, p))
                }
            },
            None => Some((None, p)),
        }
    } else {
        Some((None, p))
    }
}

/// Parser recognizing a function signature (parameters + qualifiers)
pub fn function_signature(inp: &Vec<char>, pos: usize) -> (r: Option<(FunctionSignature, usize)>)
    requires
        pos <= inp@.len(),
    ensures
        match r {
            Some((f, p)) => sp_function_signature(inp@, pos as int)
                == Some((v_signature(f), p as int)) && pos < p <= inp@.len(),
            None => sp_function_signature(inp@, pos as int) is None,
        },
    decreases inp@.len() - pos, 0int, 2int,
{
    let n = inp.len();
    let (params, p1) = match function_parameters(inp, pos) {
        Some(r) => r,
        None => {
            return None;
        },
    };
    let (cvq, pcv) = atoms::cv(inp, p1);
    let q = atoms::space0(inp, pcv);
    let (refq, pref) = atoms::reference(inp, q);
    let q2 = atoms::space0(inp, pref);
    match noexcept(inp, q2) {
        Some((ne, p2)) => Some((
            FunctionSignature {
                parameters: params,
                cv: cvq,
                reference: refq,
                noexcept: Some(ne),
            },
            p2,
        )),
        None => Some((
            FunctionSignature {
                parameters: params,
                cv: cvq,
                reference: refq,
                noexcept: None,
            },
            pref,
        )),
    }
}

// ---------------------------------------------------------------------
// Executable parsers: types
// ---------------------------------------------------------------------

/// Parser for the declarator chain; never fails
#[verifier::rlimit(80)]
fn decl_chain(inp: &Vec<char>, pos: usize) -> (r: (Vec<DeclOperator>, usize))
    requires
        pos <= inp@.len(),
    ensures
        sp_decl_chain(inp@, pos as int) == (r.0@, r.1 as int),
        pos <= r.1 <= inp@.len(),
    decreases inp@.len() - pos, 0int, 0int,
{
    proof {
        reveal_strlit("&&");
    }
    let n = inp.len();
    let ghost whole = sp_decl_chain(inp@, pos as int);
    let mut out: Vec<DeclOperator> = Vec::new();
    let mut p: usize = pos;
    loop
        invariant_except_break
            n == inp@.len(),
            pos <= p <= inp@.len(),
            whole.0 =~= out@ + sp_decl_chain(inp@, p as int).0,
            whole.1 == sp_decl_chain(inp@, p as int).1,
        ensures
            pos <= p <= inp@.len(),
            whole.0 =~= out@,
            whole.1 == p as int,
        decreases inp@.len() - p,
    {
        proof {
            reveal_strlit("&&");
        }
        let q = atoms::space0(inp, p);
        if q < n && inp[q] == '*' {
            let (cvq, p2) = atoms::cv(inp, q + 1);
            proof {
                assert(sp_decl_chain(inp@, p as int).0
                    =~= seq![DeclOperator::Pointer(cvq)] + sp_decl_chain(inp@, p2 as int).0);
                assert(sp_decl_chain(inp@, p as int).1 == sp_decl_chain(inp@, p2 as int).1);
                assert((out@.push(DeclOperator::Pointer(cvq))) + sp_decl_chain(inp@, p2 as int).0
                    =~= out@ + sp_decl_chain(inp@, p as int).0);
            }
            out.push(DeclOperator::Pointer(cvq));
            p = p2;
            continue;
        }
        if atoms::lit_at(inp, q, "&&") {
            assert(q + 2 <= n);
            proof {
                assert(sp_decl_chain(inp@, p as int).0
                    =~= seq![DeclOperator::RRef] + sp_decl_chain(inp@, q + 2).0);
                assert(sp_decl_chain(inp@, p as int).1 == sp_decl_chain(inp@, q + 2).1);
                assert((out@.push(DeclOperator::RRef)) + sp_decl_chain(inp@, q + 2).0
                    =~= out@ + sp_decl_chain(inp@, p as int).0);
            }
            out.push(DeclOperator::RRef);
            p = q + 2;
            continue;
        }
        if q < n && inp[q] == '&' {
            proof {
                assert(sp_decl_chain(inp@, p as int).0
                    =~= seq![DeclOperator::LRef] + sp_decl_chain(inp@, q + 1).0);
                assert(sp_decl_chain(inp@, p as int).1 == sp_decl_chain(inp@, q + 1).1);
                assert((out@.push(DeclOperator::LRef)) + sp_decl_chain(inp@, q + 1).0
                    =~= out@ + sp_decl_chain(inp@, p as int).0);
            }
            out.push(DeclOperator::LRef);
            p = q + 1;
            continue;
        }
        proof {
            assert(sp_decl_chain(inp@, p as int).0 =~= Seq::<DeclOperator>::empty());
            assert(whole.0 =~= out@ + Seq::<DeclOperator>::empty());
            assert(whole.0 =~= out@);
        }
        break;
    }
    (out, p)
}

/// Parser for the array-extent chain; never fails
fn array_chain(inp: &Vec<char>, pos: usize) -> (r: (Vec<Option<Box<ValueLike>>>, usize))
    requires
        pos <= inp@.len(),
    ensures
        sp_array_chain(inp@, pos as int).0 == crate::ast::v_array_list(r.0@),
        sp_array_chain(inp@, pos as int).1 == r.1 as int,
        pos <= r.1 <= inp@.len(),
    decreases inp@.len() - pos, 0int, 1int,
{
    let n = inp.len();
    let ghost whole = sp_array_chain(inp@, pos as int);
    let mut out: Vec<Option<Box<ValueLike>>> = Vec::new();
    let mut p: usize = pos;
    loop
        invariant_except_break
            n == inp@.len(),
            pos <= p <= inp@.len(),
            whole.0 =~= crate::ast::v_array_list(out@) + sp_array_chain(inp@, p as int).0,
            whole.1 == sp_array_chain(inp@, p as int).1,
        ensures
            pos <= p <= inp@.len(),
            whole.0 =~= crate::ast::v_array_list(out@),
            whole.1 == p as int,
        decreases inp@.len() - p,
    {
        let q = atoms::space0(inp, p);
        if q < n && inp[q] == '[' {
            let q2 = atoms::space0(inp, q + 1);
            if q2 < n && inp[q2] == ']' {
                proof {
                    assert(sp_array_chain(inp@, p as int).0
                        =~= seq![None::<Box<ValueLikeV>>] + sp_array_chain(inp@, q2 + 1).0);
                    assert(sp_array_chain(inp@, p as int).1 == sp_array_chain(inp@, q2 + 1).1);
                    lemma_v_array_list_push(out@, None);
                }
                out.push(None);
                proof {
                    assert(whole.0 =~= crate::ast::v_array_list(out@)
                        + sp_array_chain(inp@, q2 + 1).0);
                }
                p = q2 + 1;
                continue;
            }
            if let Some((v, pv)) = value_like::<false, true>(inp, q2) {
                let q3 = atoms::space0(inp, pv);
                if q3 < n && inp[q3] == ']' {
                    let bv = Box::new(v);
                    proof {
                        assert(sp_array_chain(inp@, p as int).0
                            =~= seq![Some(Box::new(v_value_like(v)))]
                                + sp_array_chain(inp@, q3 + 1).0);
                        assert(sp_array_chain(inp@, p as int).1
                            == sp_array_chain(inp@, q3 + 1).1);
                        lemma_v_array_list_push(out@, Some(Box::new(v)));
                    }
                    out.push(Some(bv));
                    proof {
                        assert(whole.0 =~= crate::ast::v_array_list(out@)
                            + sp_array_chain(inp@, q3 + 1).0);
                    }
                    p = q3 + 1;
                    continue;
                }
                proof {
                    assert(sp_array_chain(inp@, p as int).0
                        =~= Seq::<Option<Box<ValueLikeV>>>::empty());
                    assert(whole.0 =~= crate::ast::v_array_list(out@));
                }
                break;
            }
            proof {
                assert(sp_array_chain(inp@, p as int).0
                    =~= Seq::<Option<Box<ValueLikeV>>>::empty());
                assert(whole.0 =~= crate::ast::v_array_list(out@));
            }
            break;
        }
        proof {
            assert(sp_array_chain(inp@, p as int).0
                =~= Seq::<Option<Box<ValueLikeV>>>::empty());
            assert(whole.0 =~= crate::ast::v_array_list(out@));
        }
        break;
    }
    (out, p)
}

/// Consume an elaborated-type keyword and the whitespace after it, if present
fn elaborated_prefix(inp: &Vec<char>, pos: usize) -> (p: usize)
    requires
        pos <= inp@.len(),
    ensures
        p as int == sp_elaborated_prefix(inp@, pos as int),
        pos <= p <= inp@.len(),
{
    let kw = if let Some(p) = atoms::keyword(inp, pos, "typename") {
        Some(p)
    } else if let Some(p) = atoms::keyword(inp, pos, "class") {
        Some(p)
    } else if let Some(p) = atoms::keyword(inp, pos, "struct") {
        Some(p)
    } else if let Some(p) = atoms::keyword(inp, pos, "enum") {
        Some(p)
    } else if let Some(p) = atoms::keyword(inp, pos, "union") {
        Some(p)
    } else {
        None
    };
    match kw {
        Some(p) => match atoms::space1(inp, p) {
            Some(q) => {
                if pos < q {
                    q
                } else {
                    pos
                }
            },
            None => pos,
        },
        None => pos,
    }
}

/// Parser recognizing type specifiers
pub fn type_specifier(inp: &Vec<char>, pos: usize) -> (r: Option<(TypeSpecifier, usize)>)
    requires
        pos <= inp@.len(),
    ensures
        match r {
            Some((t, p)) => sp_type_specifier(inp@, pos as int)
                == Some((v_type_specifier(t), p as int)) && pos < p <= inp@.len(),
            None => sp_type_specifier(inp@, pos as int) is None,
        },
    decreases inp@.len() - pos, 4int, 0int,
{
    let (cv1, pcv) = atoms::cv(inp, pos);
    let p1 = atoms::space0(inp, pcv);
    let simple = match legacy::legacy_name(inp, p1) {
        Some((l, p)) => Some((SimpleType::LegacyName(l), p)),
        None => {
            let p_id = elaborated_prefix(inp, p1);
            match id_expression(inp, p_id) {
                Some((i, p)) => Some((SimpleType::IdExpression(i), p)),
                None => None,
            }
        },
    };
    match simple {
        Some((st, p2)) => {
            assert(p1 <= p2);
            let p2b = atoms::space0(inp, p2);
            let (cv2, p3) = atoms::cv(inp, p2b);
            Some((
                TypeSpecifier {
                    cv: ConstVolatile {
                        is_const: cv1.is_const || cv2.is_const,
                        is_volatile: cv1.is_volatile || cv2.is_volatile,
                    },
                    simple_type: st,
                },
                p3,
            ))
        },
        None => None,
    }
}

/// Parser recognizing a type, or something close enough to it
pub fn type_like(inp: &Vec<char>, pos: usize) -> (r: Option<(TypeLike, usize)>)
    requires
        pos <= inp@.len(),
    ensures
        match r {
            Some((t, p)) => sp_type_like(inp@, pos as int)
                == Some((v_type_like(t), p as int)) && pos < p <= inp@.len(),
            None => sp_type_like(inp@, pos as int) is None,
        },
    decreases inp@.len() - pos, 4int, 1int,
{
    let (spec_part, p1) = match type_specifier(inp, pos) {
        Some(r) => r,
        None => {
            return None;
        },
    };
    let (decls, pd) = decl_chain(inp, p1);
    let qs = atoms::space0(inp, pd);
    let (sig, p2) = match function_signature(inp, qs) {
        Some((f, p)) => (Some(Box::new(f)), p),
        None => (None, pd),
    };
    let (arrays, p3) = array_chain(inp, p2);
    Some((
        TypeLike {
            specifier: spec_part,
            declarators: decls,
            signature: sig,
            arrays,
        },
        p3,
    ))
}

// ---------------------------------------------------------------------
// Executable parsers: id-expressions
// ---------------------------------------------------------------------

/// Parser for the scope chain; never fails
#[verifier::rlimit(80)]
fn scope_chain(inp: &Vec<char>, pos: usize) -> (r: (Vec<Scope>, usize))
    requires
        pos <= inp@.len(),
    ensures
        sp_scope_chain(inp@, pos as int).0 == v_scope_list(r.0@),
        sp_scope_chain(inp@, pos as int).1 == r.1 as int,
        pos <= r.1 <= inp@.len(),
    decreases inp@.len() - pos, 2int, 1int,
{
    proof {
        reveal_strlit("::");
    }
    let n = inp.len();
    let ghost whole = sp_scope_chain(inp@, pos as int);
    proof {
        lemma_v_scope_list_empty();
    }
    let mut out: Vec<Scope> = Vec::new();
    let mut p: usize = pos;
    loop
        invariant_except_break
            n == inp@.len(),
            pos <= p <= inp@.len(),
            whole.0 =~= v_scope_list(out@) + sp_scope_chain(inp@, p as int).0,
            whole.1 == sp_scope_chain(inp@, p as int).1,
        ensures
            pos <= p <= inp@.len(),
            whole.0 =~= v_scope_list(out@),
            whole.1 == p as int,
        decreases inp@.len() - p,
    {
        proof {
            reveal_strlit("::");
        }
        match atoms::identifier(inp, p) {
            None => {
                proof {
                    assert(sp_scope_chain(inp@, p as int).0 =~= Seq::<ScopeV>::empty());
                    assert(whole.0 =~= v_scope_list(out@) + Seq::<ScopeV>::empty());
                    assert(whole.0 =~= v_scope_list(out@));
                }
                break;
            },
            Some((idc, p1)) => {
                let (tpl, p2) = match template_parameters(inp, p1) {
                    Some((t, q)) => (Some(t), q),
                    None => (None, p1),
                };
                let (sig, p3) = match function_signature(inp, p2) {
                    Some((f, q)) => (Some(Box::new(f)), q),
                    None => (None, p2),
                };
                if atoms::lit_at(inp, p3, "::") {
                    assert(p3 + 2 <= n);
                    let idname = text::string_from_chars(idc);
                    let sc = Scope { id: idname, template_parameters: tpl, signature: sig };
                    proof {
                        assert(sp_scope_chain(inp@, p as int).0
                            =~= seq![v_scope(sc)] + sp_scope_chain(inp@, p3 + 2).0);
                        assert(sp_scope_chain(inp@, p as int).1
                            == sp_scope_chain(inp@, p3 + 2).1);
                        lemma_v_scope_list_push(out@, sc);
                    }
                    out.push(sc);
                    proof {
                        assert(whole.0 =~= v_scope_list(out@) + sp_scope_chain(inp@, p3 + 2).0);
                    }
                    p = p3 + 2;
                    continue;
                } else {
                    proof {
                        assert(sp_scope_chain(inp@, p as int).0 =~= Seq::<ScopeV>::empty());
                        assert(whole.0 =~= v_scope_list(out@));
                    }
                    break;
                }
            },
        }
    }
    (out, p)
}

/// Parser for unqualified-ids
pub fn unqualified_id(inp: &Vec<char>, pos: usize) -> (r: Option<(UnqualifiedId, usize)>)
    requires
        pos <= inp@.len(),
    ensures
        match r {
            Some((u, p)) => sp_unqualified_id(inp@, pos as int)
                == Some((v_unqualified_id(u), p as int)) && pos < p <= inp@.len(),
            None => sp_unqualified_id(inp@, pos as int) is None,
        },
    decreases inp@.len() - pos, 2int, 0int,
{
    let n = inp.len();
    if let Some(((op, tpl), p)) = operator_overload(inp, pos) {
        return Some((
            UnqualifiedId::OperatorName { operator: Box::new(op), template_parameters: tpl },
            p,
        ));
    }
    if let Some((lam, p)) = lambda(inp, pos) {
        return Some((UnqualifiedId::Lambda(lam), p));
    }
    if let Some((id, p)) = anonymous(inp, pos) {
        return Some((UnqualifiedId::Anonymous { id }, p));
    }
    if let Some(p) = unknown_entity(inp, pos) {
        return Some((UnqualifiedId::Unknown, p));
    }
    proof {
        reveal_strlit("decltype(auto)");
    }
    if atoms::lit_at(inp, pos, "decltype(auto)") {
        assert(pos + 14 <= n);
        return Some((UnqualifiedId::DecltypeAuto, pos + 14));
    }
    if pos < n && inp[pos] == '~' {
        match atoms::identifier(inp, pos + 1) {
            Some((idc, p)) => {
                let idname = text::string_from_chars(idc);
                return Some((UnqualifiedId::Destructor { id: idname }, p));
            },
            None => {
                return None;
            },
        }
    }
    match atoms::identifier(inp, pos) {
        Some((idc, p1)) => {
            let idname = text::string_from_chars(idc);
            match template_parameters(inp, p1) {
                Some((t, p2)) => Some((
                    UnqualifiedId::Named { id: idname, template_parameters: Some(t) },
                    p2,
                )),
                None => Some((
                    UnqualifiedId::Named { id: idname, template_parameters: None },
                    p1,
                )),
            }
        },
        None => None,
    }
}

/// Parser for id-expressions
pub fn id_expression(inp: &Vec<char>, pos: usize) -> (r: Option<(IdExpression, usize)>)
    requires
        pos <= inp@.len(),
    ensures
        match r {
            Some((i, p)) => sp_id_expression(inp@, pos as int)
                == Some((v_id_expression(i), p as int)) && pos < p <= inp@.len(),
            None => sp_id_expression(inp@, pos as int) is None,
        },
    decreases inp@.len() - pos, 3int, 0int,
{
    let (scopes, p1) = scope_chain(inp, pos);
    match unqualified_id(inp, p1) {
        Some((u, p)) => Some((IdExpression { scopes, id: u }, p)),
        None => None,
    }
}

// ---------------------------------------------------------------------
// Executable parsers: operator overloads and values
// ---------------------------------------------------------------------

/// One candidate of [`operator_overload`]: an arithmetic/comparison operator
/// of length `LEN` with optional template parameters, accepted only when no
/// operator symbol is queued next.
fn arith_tpl<const LEN: usize>(inp: &Vec<char>, pos: usize)
    -> (r: Option<((Operator, Option<TemplateParameters>), usize)>)
    requires
        1 <= LEN <= 3,
        pos <= inp@.len(),
    ensures
        match r {
            Some(((op, tpl), p)) => sp_arith_tpl(inp@, pos as int, LEN as int)
                == Some(((
                    v_operator(op),
                    match tpl {
                        Some(t) => Some(v_template_parameters(t)),
                        None => None,
                    },
                ), p as int)) && pos < p <= inp@.len(),
            None => sp_arith_tpl(inp@, pos as int, LEN as int) is None,
        },
    decreases inp@.len() - pos, 1int, 0int,
{
    let (op, p1) = match operators::arithmetic_or_comparison::<LEN>(inp, pos) {
        Some(r) => r,
        None => {
            return None;
        },
    };
    let (tpl, p2) = match template_parameters(inp, p1) {
        Some((t, q)) => (Some(t), q),
        None => (None, p1),
    };
    match atoms::symbol(inp, p2) {
        Some(_) => None,
        None => Some(((op, tpl), p2)),
    }
}

/// The template-oblivious alternatives of [`operator_overload`]
fn operator_oblivious(inp: &Vec<char>, pos: usize) -> (r: Option<(Operator, usize)>)
    requires
        pos <= inp@.len(),
    ensures
        match r {
            Some((op, p)) => sp_operator_oblivious(inp@, pos as int)
                == Some((v_operator(op), p as int)) && pos < p <= inp@.len(),
            None => sp_operator_oblivious(inp@, pos as int) is None,
        },
    decreases inp@.len() - pos, 1int, 0int,
{
    let n = inp.len();
    if let Some(r) = operators::call_or_index(inp, pos) {
        return Some(r);
    }
    if let Some(r) = operators::custom_literal(inp, pos) {
        return Some(r);
    }
    if pos < n && inp[pos] == ' ' {
        let q = pos + 1;
        if let Some(r) = operators::new_or_delete(inp, q) {
            return Some(r);
        }
        if let Some(r) = operators::co_await(inp, q) {
            return Some(r);
        }
        match type_like(inp, q) {
            Some((t, p)) => {
                return Some((Operator::Conversion(Box::new(t)), p));
            },
            None => {
                return None;
            },
        }
    }
    None
}

/// Parser for any supported operator overload
///
/// The template parameter set that may follow is parsed in the same go, in
/// order to handle the syntactically ambiguous nature of `<` and `>`.
pub fn operator_overload(inp: &Vec<char>, pos: usize)
    -> (r: Option<((Operator, Option<TemplateParameters>), usize)>)
    requires
        pos <= inp@.len(),
    ensures
        match r {
            Some(((op, tpl), p)) => sp_operator_overload(inp@, pos as int)
                == Some(((
                    v_operator(op),
                    match tpl {
                        Some(t) => Some(v_template_parameters(t)),
                        None => None,
                    },
                ), p as int)) && pos < p <= inp@.len(),
            None => sp_operator_overload(inp@, pos as int) is None,
        },
    decreases inp@.len() - pos, 1int, 1int,
{
    proof {
        reveal_strlit("operator");
    }
    let p = match atoms::keyword(inp, pos, "operator") {
        Some(p) => p,
        None => {
            return None;
        },
    };
    assert(pos < p);
    if let Some(r) = arith_tpl::<1>(inp, p) {
        return Some(r);
    }
    if let Some(r) = arith_tpl::<2>(inp, p) {
        return Some(r);
    }
    if let Some(r) = arith_tpl::<3>(inp, p) {
        return Some(r);
    }
    match operator_oblivious(inp, p) {
        Some((op, p1)) => {
            let (tpl, p2) = match template_parameters(inp, p1) {
                Some((t, q)) => (Some(t), q),
                None => (None, p1),
            };
            Some(((op, tpl), p2))
        },
        None => None,
    }
}

/// The cast alternative of [`unary_expr_prefix`]
fn unary_cast(inp: &Vec<char>, pos: usize) -> (r: Option<(Operator, usize)>)
    requires
        pos <= inp@.len(),
    ensures
        match r {
            Some((op, p)) => sp_unary_cast(inp@, pos as int)
                == Some((v_operator(op), p as int)) && pos < p <= inp@.len(),
            None => sp_unary_cast(inp@, pos as int) is None,
        },
    decreases inp@.len() - pos, 1int, 1int,
{
    let n = inp.len();
    if !(pos < n && inp[pos] == '(') {
        return None;
    }
    match type_like(inp, pos + 1) {
        Some((t, p)) => {
            if p < n && inp[p] == ')' {
                let pe = atoms::space0(inp, p + 1);
                Some((Operator::Conversion(Box::new(t)), pe))
            } else {
                None
            }
        },
        None => None,
    }
}

/// Parser for unary operators usable in prefix position
pub fn unary_expr_prefix(inp: &Vec<char>, pos: usize) -> (r: Option<(Operator, usize)>)
    requires
        pos <= inp@.len(),
    ensures
        match r {
            Some((op, p)) => sp_unary_expr_prefix(inp@, pos as int)
                == Some((v_operator(op), p as int)) && pos < p <= inp@.len(),
            None => sp_unary_expr_prefix(inp@, pos as int) is None,
        },
    decreases inp@.len() - pos, 1int, 2int,
{
    let s1 = atoms::symbol(inp, pos);
    if let Some((sy1, p1)) = s1 {
        let s2 = atoms::symbol(inp, p1);
        if let Some((sy2, p2)) = s2 {
            if (sy1 == Symbol::AddPlus && sy2 == Symbol::AddPlus)
                || (sy1 == Symbol::SubNeg && sy2 == Symbol::SubNeg) {
                let pe = atoms::space0(inp, p2);
                return Some((
                    Operator::Basic { symbol: sy1, twice: true, equal: false },
                    pe,
                ));
            }
        }
        if sy1 == Symbol::AddPlus || sy1 == Symbol::SubNeg || sy1 == Symbol::MulDeref
            || sy1 == Symbol::AndRef || sy1 == Symbol::BitNot || sy1 == Symbol::Not {
            let pe = atoms::space0(inp, p1);
            return Some((
                Operator::Basic { symbol: sy1, twice: false, equal: false },
                pe,
            ));
        }
    }
    let kwop = match operators::co_await(inp, pos) {
        Some(r) => Some(r),
        None => operators::delete(inp, pos),
    };
    match kwop {
        Some((op, p)) => match atoms::space1(inp, p) {
            Some(q) => Some((op, q)),
            None => unary_cast(inp, pos),
        },
        None => unary_cast(inp, pos),
    }
}

/// Parser for value atoms: literals, unary operations, named values and
/// parenthesized values
fn value_atom(inp: &Vec<char>, pos: usize) -> (r: Option<(ValueLike, usize)>)
    requires
        pos <= inp@.len(),
    ensures
        match r {
            Some((v, p)) => sp_value_atom(inp@, pos as int)
                == Some((v_value_like(v), p as int)) && pos < p <= inp@.len(),
            None => sp_value_atom(inp@, pos as int) is None,
        },
    decreases inp@.len() - pos, 5int, 0int,
{
    let n = inp.len();
    if let Some((lit, p)) = literals::literal(inp, pos) {
        return Some((ValueLike::Literal(lit), p));
    }
    if let Some((op, p)) = unary_expr_prefix(inp, pos) {
        if let Some((inner, p2)) = value_atom(inp, p) {
            return Some((
                ValueLike::UnaryOp(Box::new(op), Box::new(inner)),
                p2,
            ));
        }
    }
    if let Some((i, p)) = id_expression(inp, pos) {
        return Some((ValueLike::IdExpression(Box::new(i)), p));
    }
    if pos < n && inp[pos] == '(' {
        match value_like::<true, true>(inp, pos + 1) {
            Some((v, p)) => {
                if p < n && inp[p] == ')' {
                    return Some((ValueLike::Parens(Box::new(v)), p + 1));
                } else {
                    return None;
                }
            },
            None => {
                return None;
            },
        }
    }
    None
}

/// Parser for values: an atom, then any number of binary operations folded
/// left-associatively
pub fn value_like<const ALLOW_COMMA: bool, const ALLOW_GREATER: bool>(
    inp: &Vec<char>,
    pos: usize,
) -> (r: Option<(ValueLike, usize)>)
    requires
        pos <= inp@.len(),
    ensures
        match r {
            Some((v, p)) => sp_value_like(inp@, pos as int, ALLOW_COMMA, ALLOW_GREATER)
                == Some((v_value_like(v), p as int)) && pos < p <= inp@.len(),
            None => sp_value_like(inp@, pos as int, ALLOW_COMMA, ALLOW_GREATER) is None,
        },
    decreases inp@.len() - pos, 6int, 1int,
{
    let (first, p0) = match value_atom(inp, pos) {
        Some(r) => r,
        None => {
            return None;
        },
    };
    let ghost target = sp_value_chain(inp@, p0 as int, v_value_like(first), ALLOW_COMMA, ALLOW_GREATER);
    let mut acc = first;
    let mut p: usize = p0;
    loop
        invariant_except_break
            pos < p <= inp@.len(),
            p0 <= p,
            target == sp_value_chain(inp@, p as int, v_value_like(acc), ALLOW_COMMA, ALLOW_GREATER),
        ensures
            pos < p <= inp@.len(),
            target == (v_value_like(acc), p as int),
        decreases inp@.len() - p,
    {
        let q = atoms::space0(inp, p);
        if let Some((op, p1)) = operators::binary_expr_middle::<ALLOW_COMMA, ALLOW_GREATER>(inp, q) {
            let q2 = atoms::space0(inp, p1);
            if let Some((rhs, p2)) = value_atom(inp, q2) {
                proof {
                    assert(sp_value_chain(inp@, p as int, v_value_like(acc), ALLOW_COMMA, ALLOW_GREATER)
                        == sp_value_chain(
                            inp@,
                            p2 as int,
                            ValueLikeV::BinaryOp(
                                Box::new(v_value_like(acc)),
                                Box::new(v_operator(op)),
                                Box::new(v_value_like(rhs)),
                            ),
                            ALLOW_COMMA,
                            ALLOW_GREATER,
                        ));
                }
                acc = ValueLike::BinaryOp(Box::new(acc), Box::new(op), Box::new(rhs));
                p = p2;
                continue;
            }
        }
        proof {
            assert(sp_value_chain(inp@, p as int, v_value_like(acc), ALLOW_COMMA, ALLOW_GREATER)
                == (v_value_like(acc), p as int));
        }
        break;
    }
    Some((acc, p))
}

// ---------------------------------------------------------------------
// Grammar laws
// ---------------------------------------------------------------------

/// The first character of a matched literal is its first character.
pub proof fn lemma_lit_first_char(s: Seq<char>, pos: int, lit: Seq<char>)
    requires
        atoms::sp_lit_at(s, pos, lit),
        lit.len() > 0,
    ensures
        s[pos] == lit[0],
{
    assert(s.subrange(pos, pos + lit.len())[0] == s[pos]);
}

/// Operator-length maximality: when the upcoming symbols also form a longer
/// arithmetic/comparison operator and no template-argument list follows the
/// shorter reading, the shorter candidate is rejected — an operator symbol is
/// still queued — so the overload parser moves on to the longer one.
pub proof fn lemma_operator_length_maximality(s: Seq<char>, pos: int, len: int)
    requires
        0 <= pos <= s.len(),
        1 <= len <= 2,
        operators::sp_arith(s, pos, len) is Some,
        operators::sp_arith(s, pos, len + 1) is Some,
        sp_template_parameters(s, pos + len) is None,
    ensures
        sp_arith_tpl(s, pos, len) is None,
{
    if len == 1 {
        assert(operators::sp_arith(s, pos, 1).unwrap().1 == pos + 1);
        assert(atoms::spec_symbol(s, pos + 1) is Some);
    } else {
        assert(operators::sp_arith(s, pos, 2).unwrap().1 == pos + 2);
        assert(atoms::spec_symbol(s, pos + 2) is Some);
    }
}

/// Ambiguity sentinel: the literal `<, void>` that clang emits in certain
/// error states parses to the designated `Ambiguous` variant, never to a
/// type list, because no template parameter can start at the comma.
#[verifier::rlimit(100)]
pub proof fn lemma_ambiguity_sentinel(s: Seq<char>, pos: int)
    requires
        0 <= pos,
        atoms::sp_lit_at(s, pos, "<, void>"@),
    ensures
        sp_template_parameters(s, pos)
            == Some((TemplateParametersV::Ambiguous, pos + 8)),
{
    reveal_strlit("<, void>");
    assert(pos + 8 <= s.len());
    assert(s[pos] == '<') by {
        assert(s.subrange(pos, pos + 8)[0] == s[pos]);
    }
    let p0 = pos + 1;
    assert(s[p0] == ',') by {
        assert(s.subrange(pos, pos + 8)[1] == s[p0]);
    }
    let comma = s[p0];

    // No keyword and no literal can start at the comma.
    assert forall|lit: Seq<char>|
        #![trigger atoms::sp_lit_at(s, p0, lit)]
        lit.len() > 0 && lit[0] != ',' implies !atoms::sp_lit_at(s, p0, lit) by {
        if atoms::sp_lit_at(s, p0, lit) {
            lemma_lit_first_char(s, p0, lit);
        }
    }
    reveal_strlit("const");
    reveal_strlit("volatile");
    reveal_strlit("typename");
    reveal_strlit("class");
    reveal_strlit("struct");
    reveal_strlit("enum");
    reveal_strlit("union");
    reveal_strlit("void");
    reveal_strlit("bool");
    reveal_strlit("wchar_t");
    reveal_strlit("char8_t");
    reveal_strlit("char16_t");
    reveal_strlit("char32_t");
    reveal_strlit("char");
    reveal_strlit("short");
    reveal_strlit("int");
    reveal_strlit("long");
    reveal_strlit("signed");
    reveal_strlit("unsigned");
    reveal_strlit("float");
    reveal_strlit("double");
    reveal_strlit("__int128");
    reveal_strlit("operator");
    reveal_strlit("new");
    reveal_strlit("delete");
    reveal_strlit("co_await");
    reveal_strlit("u8");
    reveal_strlit("(lambda at ");
    reveal_strlit("(anonymous");
    reveal_strlit("<unknown>");
    reveal_strlit("decltype(auto)");

    // The comma is not an identifier start, a digit, a blank, a quote, a
    // parenthesis or a tilde, so every alternative of a template parameter
    // fails at `p0`.
    assert(!atoms::is_ident_start(comma));
    assert(!literals::is_digit(comma));
    assert(atoms::sp_space_end(s, p0) == p0);
    assert(atoms::sp_cv(s, p0, cv_none()) == (cv_none(), p0));
    assert(legacy::sp_legacy_kw1(s, p0) is None);
    assert(legacy::sp_legacy_kws(s, p0).0.len() == 0);
    assert(legacy::sp_legacy_name(s, p0) is None);
    assert(sp_elaborated_prefix(s, p0) == p0);
    assert(atoms::sp_identifier(s, p0) is None);
    assert(sp_scope_chain(s, p0) == (Seq::<ScopeV>::empty(), p0));
    assert(sp_operator_overload(s, p0) is None);
    assert(sp_lambda(s, p0) is None);
    assert(sp_anonymous(s, p0) is None);
    assert(sp_unknown_entity(s, p0) is None);
    assert(sp_unqualified_id(s, p0) is None);
    assert(sp_id_expression(s, p0) is None);
    assert(sp_type_specifier(s, p0) is None);
    assert(sp_type_like(s, p0) is None);
    assert(literals::sp_digits_end(s, p0) == p0);
    assert(literals::sp_integer(s, p0) is None);
    assert(literals::sp_character(s, p0) is None);
    assert(literals::sp_literal_value(s, p0) is None);
    assert(literals::sp_literal(s, p0) is None);
    assert(atoms::spec_symbol_of(comma) == Some(crate::atoms::Symbol::Comma));
    assert(sp_unary_expr_prefix(s, p0) is None);
    assert(sp_value_atom(s, p0) is None);
    assert(sp_value_like(s, p0, false, false) is None);
    assert(sp_template_parameter(s, p0) is None);

    // So the proper-list branch fails at the comma and the sentinel matches.
    assert(sp_tpl_list(s, pos) is None);
    assert(sp_template_parameters(s, pos)
        == Some((TemplateParametersV::Ambiguous, pos + 8)));
}

} // verus!
