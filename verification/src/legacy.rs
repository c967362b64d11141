//! Legacy C-style primitive type names: space-separated keyword combinations
//! such as `unsigned long long int`, normalized to one canonical variant per
//! combination that C++ accepts.

use vstd::prelude::*;
use crate::atoms;

verus! {

/// Canonical spellings of the C-style primitive types
#[derive(Debug, PartialEq, Eq, Clone, Copy, Structural)]
pub enum LegacyName {
    /// `void`
    Void,
    /// `bool`
    Bool,
    /// `char`
    Char,
    /// `signed char`
    SignedChar,
    /// `unsigned char`
    UnsignedChar,
    /// `wchar_t`
    WChar,
    /// `char8_t`
    Char8,
    /// `char16_t`
    Char16,
    /// `char32_t`
    Char32,
    /// `short` and equivalents
    Short,
    /// `unsigned short` and equivalents
    UnsignedShort,
    /// `int`, `signed` and equivalents
    Int,
    /// `unsigned int` and equivalents
    UnsignedInt,
    /// `long` and equivalents
    Long,
    /// `unsigned long` and equivalents
    UnsignedLong,
    /// `long long` and equivalents
    LongLong,
    /// `unsigned long long` and equivalents
    UnsignedLongLong,
    /// `__int128` and `signed __int128`
    Int128,
    /// `unsigned __int128`
    UnsignedInt128,
    /// `float`
    Float,
    /// `double`
    Double,
    /// `long double`
    LongDouble,
}

/// One keyword drawn from the primitive-type keyword set
#[derive(Debug, PartialEq, Eq, Clone, Copy, Structural)]
pub enum LegacyKw {
    /// `void`
    KwVoid,
    /// `bool`
    KwBool,
    /// `char`
    KwChar,
    /// `wchar_t`
    KwWChar,
    /// `char8_t`
    KwChar8,
    /// `char16_t`
    KwChar16,
    /// `char32_t`
    KwChar32,
    /// `short`
    KwShort,
    /// `int`
    KwInt,
    /// `long`
    KwLong,
    /// `signed`
    KwSigned,
    /// `unsigned`
    KwUnsigned,
    /// `float`
    KwFloat,
    /// `double`
    KwDouble,
    /// `__int128`
    KwInt128,
}

/// Parse one primitive-type keyword.
pub open spec fn sp_legacy_kw1(s: Seq<char>, pos: int) -> Option<(LegacyKw, int)> {
    if sp_kw(s, pos, "void"@) is Some { Some((LegacyKw::KwVoid, sp_kw(s, pos, "void"@).unwrap())) }
    else if sp_kw(s, pos, "bool"@) is Some { Some((LegacyKw::KwBool, sp_kw(s, pos, "bool"@).unwrap())) }
    else if sp_kw(s, pos, "wchar_t"@) is Some { Some((LegacyKw::KwWChar, sp_kw(s, pos, "wchar_t"@).unwrap())) }
    else if sp_kw(s, pos, "char8_t"@) is Some { Some((LegacyKw::KwChar8, sp_kw(s, pos, "char8_t"@).unwrap())) }
    else if sp_kw(s, pos, "char16_t"@) is Some { Some((LegacyKw::KwChar16, sp_kw(s, pos, "char16_t"@).unwrap())) }
    else if sp_kw(s, pos, "char32_t"@) is Some { Some((LegacyKw::KwChar32, sp_kw(s, pos, "char32_t"@).unwrap())) }
    else if sp_kw(s, pos, "char"@) is Some { Some((LegacyKw::KwChar, sp_kw(s, pos, "char"@).unwrap())) }
    else if sp_kw(s, pos, "short"@) is Some { Some((LegacyKw::KwShort, sp_kw(s, pos, "short"@).unwrap())) }
    else if sp_kw(s, pos, "int"@) is Some { Some((LegacyKw::KwInt, sp_kw(s, pos, "int"@).unwrap())) }
    else if sp_kw(s, pos, "long"@) is Some { Some((LegacyKw::KwLong, sp_kw(s, pos, "long"@).unwrap())) }
    else if sp_kw(s, pos, "signed"@) is Some { Some((LegacyKw::KwSigned, sp_kw(s, pos, "signed"@).unwrap())) }
    else if sp_kw(s, pos, "unsigned"@) is Some { Some((LegacyKw::KwUnsigned, sp_kw(s, pos, "unsigned"@).unwrap())) }
    else if sp_kw(s, pos, "float"@) is Some { Some((LegacyKw::KwFloat, sp_kw(s, pos, "float"@).unwrap())) }
    else if sp_kw(s, pos, "double"@) is Some { Some((LegacyKw::KwDouble, sp_kw(s, pos, "double"@).unwrap())) }
    else if sp_kw(s, pos, "__int128"@) is Some { Some((LegacyKw::KwInt128, sp_kw(s, pos, "__int128"@).unwrap())) }
    else { None }
}

/// Short alias used by [`sp_legacy_kw1`]
pub open spec fn sp_kw(s: Seq<char>, pos: int, kw: Seq<char>) -> Option<int> {
    atoms::sp_keyword(s, pos, kw)
}

/// Executable parser for one primitive-type keyword
pub fn legacy_kw1(inp: &Vec<char>, pos: usize) -> (r: Option<(LegacyKw, usize)>)
    requires
        pos <= inp@.len(),
    ensures
        atoms::omatch(r, sp_legacy_kw1(inp@, pos as int)),
        r is Some ==> pos < r.unwrap().1 <= inp@.len(),
{
    proof {
        reveal_strlit("void");
        reveal_strlit("bool");
        reveal_strlit("wchar_t");
        reveal_strlit("char8_t");
        reveal_strlit("char16_t");
        reveal_strlit("char32_t");
        reveal_strlit("char");
        reveal_strlit("short");
        reveal_strlit("int");
        reveal_strlit("long");
        reveal_strlit("signed");
        reveal_strlit("unsigned");
        reveal_strlit("float");
        reveal_strlit("double");
        reveal_strlit("__int128");
    }
    if let Some(p) = atoms::keyword(inp, pos, "void") { Some((LegacyKw::KwVoid, p)) }
    else if let Some(p) = atoms::keyword(inp, pos, "bool") { Some((LegacyKw::KwBool, p)) }
    else if let Some(p) = atoms::keyword(inp, pos, "wchar_t") { Some((LegacyKw::KwWChar, p)) }
    else if let Some(p) = atoms::keyword(inp, pos, "char8_t") { Some((LegacyKw::KwChar8, p)) }
    else if let Some(p) = atoms::keyword(inp, pos, "char16_t") { Some((LegacyKw::KwChar16, p)) }
    else if let Some(p) = atoms::keyword(inp, pos, "char32_t") { Some((LegacyKw::KwChar32, p)) }
    else if let Some(p) = atoms::keyword(inp, pos, "char") { Some((LegacyKw::KwChar, p)) }
    else if let Some(p) = atoms::keyword(inp, pos, "short") { Some((LegacyKw::KwShort, p)) }
    else if let Some(p) = atoms::keyword(inp, pos, "int") { Some((LegacyKw::KwInt, p)) }
    else if let Some(p) = atoms::keyword(inp, pos, "long") { Some((LegacyKw::KwLong, p)) }
    else if let Some(p) = atoms::keyword(inp, pos, "signed") { Some((LegacyKw::KwSigned, p)) }
    else if let Some(p) = atoms::keyword(inp, pos, "unsigned") { Some((LegacyKw::KwUnsigned, p)) }
    else if let Some(p) = atoms::keyword(inp, pos, "float") { Some((LegacyKw::KwFloat, p)) }
    else if let Some(p) = atoms::keyword(inp, pos, "double") { Some((LegacyKw::KwDouble, p)) }
    else if let Some(p) = atoms::keyword(inp, pos, "__int128") { Some((LegacyKw::KwInt128, p)) }
    else { None }
}

/// Further ` kw` groups after the first keyword; blanks are consumed only
/// when another primitive keyword follows them.
pub open spec fn sp_legacy_more(s: Seq<char>, pos: int) -> (Seq<LegacyKw>, int)
    decreases s.len() - pos when 0 <= pos <= s.len()
{
    match atoms::sp_space1(s, pos) {
        Some(q) => {
            if pos < q <= s.len() {
                match sp_legacy_kw1(s, q) {
                    Some((k, p2)) => {
                        if q <= p2 <= s.len() {
                            let r = sp_legacy_more(s, p2);
                            (seq![k] + r.0, r.1)
                        } else {
                            (Seq::empty(), pos)
                        }
                    },
                    None => (Seq::empty(), pos),
                }
            } else {
                (Seq::empty(), pos)
            }
        },
        None => (Seq::empty(), pos),
    }
}

/// The keyword run of a legacy primitive name, with its end position.
pub open spec fn sp_legacy_kws(s: Seq<char>, pos: int) -> (Seq<LegacyKw>, int) {
    match sp_legacy_kw1(s, pos) {
        Some((k, p)) => {
            if pos <= p <= s.len() {
                let r = sp_legacy_more(s, p);
                (seq![k] + r.0, r.1)
            } else {
                (Seq::empty(), pos)
            }
        },
        None => (Seq::empty(), pos),
    }
}

/// Occurrences of `k` in `kws`
pub open spec fn sp_count(kws: Seq<LegacyKw>, k: LegacyKw) -> int
    decreases kws.len(),
{
    if kws.len() == 0 {
        0
    } else {
        sp_count(kws.drop_last(), k) + if kws.last() == k { 1int } else { 0int }
    }
}

pub proof fn lemma_count_bounds(kws: Seq<LegacyKw>, k: LegacyKw)
    ensures
        0 <= sp_count(kws, k) <= kws.len(),
    decreases kws.len(),
{
    if kws.len() > 0 {
        lemma_count_bounds(kws.drop_last(), k);
    }
}

/// The canonical primitive type named by a keyword multiset, if C++ accepts
/// the combination.
pub open spec fn sp_classify(kws: Seq<LegacyKw>) -> Option<LegacyName> {
    let n_void = sp_count(kws, LegacyKw::KwVoid);
    let n_bool = sp_count(kws, LegacyKw::KwBool);
    let n_char = sp_count(kws, LegacyKw::KwChar);
    let n_wchar = sp_count(kws, LegacyKw::KwWChar);
    let n_char8 = sp_count(kws, LegacyKw::KwChar8);
    let n_char16 = sp_count(kws, LegacyKw::KwChar16);
    let n_char32 = sp_count(kws, LegacyKw::KwChar32);
    let n_short = sp_count(kws, LegacyKw::KwShort);
    let n_int = sp_count(kws, LegacyKw::KwInt);
    let n_long = sp_count(kws, LegacyKw::KwLong);
    let n_signed = sp_count(kws, LegacyKw::KwSigned);
    let n_unsigned = sp_count(kws, LegacyKw::KwUnsigned);
    let n_float = sp_count(kws, LegacyKw::KwFloat);
    let n_double = sp_count(kws, LegacyKw::KwDouble);
    let n_i128 = sp_count(kws, LegacyKw::KwInt128);
    let n_sign = n_signed + n_unsigned;
    let n_alone = n_void + n_bool + n_wchar + n_char8 + n_char16 + n_char32 + n_float;
    if kws.len() == 0 || n_sign > 1 {
        None
    } else if n_alone > 0 {
        // These keywords admit no companions at all.
        if kws.len() != 1 {
            None
        } else if n_void == 1 { Some(LegacyName::Void) }
        else if n_bool == 1 { Some(LegacyName::Bool) }
        else if n_wchar == 1 { Some(LegacyName::WChar) }
        else if n_char8 == 1 { Some(LegacyName::Char8) }
        else if n_char16 == 1 { Some(LegacyName::Char16) }
        else if n_char32 == 1 { Some(LegacyName::Char32) }
        else { Some(LegacyName::Float) }
    } else if n_char > 0 {
        // `char` admits one signedness keyword only.
        if n_char == 1 && n_short + n_int + n_long + n_double + n_i128 == 0 {
            if n_unsigned == 1 { Some(LegacyName::UnsignedChar) }
            else if n_signed == 1 { Some(LegacyName::SignedChar) }
            else { Some(LegacyName::Char) }
        } else {
            None
        }
    } else if n_double > 0 {
        // `double` admits at most one `long`.
        if n_double == 1 && n_short + n_int + n_i128 + n_sign == 0 && n_long <= 1 {
            if n_long == 1 { Some(LegacyName::LongDouble) } else { Some(LegacyName::Double) }
        } else {
            None
        }
    } else if n_i128 > 0 {
        // `__int128` admits one signedness keyword only.
        if n_i128 == 1 && n_short + n_int + n_long == 0 {
            if n_unsigned == 1 { Some(LegacyName::UnsignedInt128) } else { Some(LegacyName::Int128) }
        } else {
            None
        }
    } else {
        // The `int` family: at most one `int`, `short` excludes `long`,
        // at most two `long`.
        if n_int > 1 || (n_short > 0 && n_long > 0) || n_short > 1 || n_long > 2 {
            None
        } else if n_short == 1 {
            if n_unsigned == 1 { Some(LegacyName::UnsignedShort) } else { Some(LegacyName::Short) }
        } else if n_long == 1 {
            if n_unsigned == 1 { Some(LegacyName::UnsignedLong) } else { Some(LegacyName::Long) }
        } else if n_long == 2 {
            if n_unsigned == 1 { Some(LegacyName::UnsignedLongLong) } else { Some(LegacyName::LongLong) }
        } else if n_int == 1 || n_sign == 1 {
            if n_unsigned == 1 { Some(LegacyName::UnsignedInt) } else { Some(LegacyName::Int) }
        } else {
            None
        }
    }
}

/// Parse a legacy primitive name: one or more primitive keywords naming a
/// combination C++ accepts.
pub open spec fn sp_legacy_name(s: Seq<char>, pos: int) -> Option<(LegacyName, int)> {
    let r = sp_legacy_kws(s, pos);
    if r.0.len() == 0 {
        None
    } else {
        match sp_classify(r.0) {
            Some(name) => Some((name, r.1)),
            None => None,
        }
    }
}

/// Count occurrences of `k` in `v`
fn count_kw(v: &Vec<LegacyKw>, k: LegacyKw) -> (n: usize)
    ensures
        n == sp_count(v@, k),
{
    proof {
        lemma_count_bounds(v@, k);
    }
    let mut n: usize = 0;
    let mut i: usize = 0;
    proof {
        assert(v@.subrange(0, 0) =~= Seq::<LegacyKw>::empty());
    }
    while i < v.len()
        invariant
            i <= v@.len(),
            n == sp_count(v@.subrange(0, i as int), k),
            n <= i,
        decreases v@.len() - i,
    {
        proof {
            assert(v@.subrange(0, i + 1).drop_last() =~= v@.subrange(0, i as int));
            assert(v@.subrange(0, i + 1).last() == v@[i as int]);
        }
        if v[i] == k {
            n = n + 1;
        }
        i = i + 1;
    }
    assert(v@.subrange(0, v@.len() as int) =~= v@);
    n
}

/// Executable mirror of [`sp_classify`]
fn classify(v: &Vec<LegacyKw>) -> (r: Option<LegacyName>)
    ensures
        r == sp_classify(v@),
{
    let n_void = count_kw(v, LegacyKw::KwVoid) as u128;
    let n_bool = count_kw(v, LegacyKw::KwBool) as u128;
    let n_char = count_kw(v, LegacyKw::KwChar) as u128;
    let n_wchar = count_kw(v, LegacyKw::KwWChar) as u128;
    let n_char8 = count_kw(v, LegacyKw::KwChar8) as u128;
    let n_char16 = count_kw(v, LegacyKw::KwChar16) as u128;
    let n_char32 = count_kw(v, LegacyKw::KwChar32) as u128;
    let n_short = count_kw(v, LegacyKw::KwShort) as u128;
    let n_int = count_kw(v, LegacyKw::KwInt) as u128;
    let n_long = count_kw(v, LegacyKw::KwLong) as u128;
    let n_signed = count_kw(v, LegacyKw::KwSigned) as u128;
    let n_unsigned = count_kw(v, LegacyKw::KwUnsigned) as u128;
    let n_float = count_kw(v, LegacyKw::KwFloat) as u128;
    let n_double = count_kw(v, LegacyKw::KwDouble) as u128;
    let n_i128 = count_kw(v, LegacyKw::KwInt128) as u128;
    let n_sign = n_signed + n_unsigned;
    let n_alone = n_void + n_bool + n_wchar + n_char8 + n_char16 + n_char32 + n_float;
    if v.len() == 0 || n_sign > 1 {
        None
    } else if n_alone > 0 {
        if v.len() != 1 {
            None
        } else if n_void == 1 { Some(LegacyName::Void) }
        else if n_bool == 1 { Some(LegacyName::Bool) }
        else if n_wchar == 1 { Some(LegacyName::WChar) }
        else if n_char8 == 1 { Some(LegacyName::Char8) }
        else if n_char16 == 1 { Some(LegacyName::Char16) }
        else if n_char32 == 1 { Some(LegacyName::Char32) }
        else { Some(LegacyName::Float) }
    } else if n_char > 0 {
        if n_char == 1 && n_short + n_int + n_long + n_double + n_i128 == 0 {
            if n_unsigned == 1 { Some(LegacyName::UnsignedChar) }
            else if n_signed == 1 { Some(LegacyName::SignedChar) }
            else { Some(LegacyName::Char) }
        } else {
            None
        }
    } else if n_double > 0 {
        if n_double == 1 && n_short + n_int + n_i128 + n_sign == 0 && n_long <= 1 {
            if n_long == 1 { Some(LegacyName::LongDouble) } else { Some(LegacyName::Double) }
        } else {
            None
        }
    } else if n_i128 > 0 {
        if n_i128 == 1 && n_short + n_int + n_long == 0 {
            if n_unsigned == 1 { Some(LegacyName::UnsignedInt128) } else { Some(LegacyName::Int128) }
        } else {
            None
        }
    } else {
        if n_int > 1 || (n_short > 0 && n_long > 0) || n_short > 1 || n_long > 2 {
            None
        } else if n_short == 1 {
            if n_unsigned == 1 { Some(LegacyName::UnsignedShort) } else { Some(LegacyName::Short) }
        } else if n_long == 1 {
            if n_unsigned == 1 { Some(LegacyName::UnsignedLong) } else { Some(LegacyName::Long) }
        } else if n_long == 2 {
            if n_unsigned == 1 { Some(LegacyName::UnsignedLongLong) } else { Some(LegacyName::LongLong) }
        } else if n_int == 1 || n_sign == 1 {
            if n_unsigned == 1 { Some(LegacyName::UnsignedInt) } else { Some(LegacyName::Int) }
        } else {
            None
        }
    }
}

/// Parser for legacy primitive names
pub fn legacy_name(inp: &Vec<char>, pos: usize) -> (r: Option<(LegacyName, usize)>)
    requires
        pos <= inp@.len(),
    ensures
        atoms::omatch(r, sp_legacy_name(inp@, pos as int)),
        r is Some ==> pos < r.unwrap().1 <= inp@.len(),
{
    let first = legacy_kw1(inp, pos);
    if first.is_none() {
        assert(sp_legacy_kws(inp@, pos as int).0.len() == 0);
        return None;
    }
    let (k0, p0) = first.unwrap();
    let mut kws: Vec<LegacyKw> = Vec::new();
    kws.push(k0);
    let mut p: usize = p0;
    let ghost whole = sp_legacy_kws(inp@, pos as int);
    proof {
        assert(whole.0 =~= seq![k0] + sp_legacy_more(inp@, p0 as int).0);
        assert(whole.1 == sp_legacy_more(inp@, p0 as int).1);
    }
    loop
        invariant_except_break
            pos < p <= inp@.len(),
            whole == sp_legacy_kws(inp@, pos as int),
            whole.0 =~= kws@ + sp_legacy_more(inp@, p as int).0,
            whole.1 == sp_legacy_more(inp@, p as int).1,
        ensures
            pos < p <= inp@.len(),
            whole.0 =~= kws@,
            whole.1 == p as int,
        decreases inp@.len() - p,
    {
        let q_opt = atoms::space1(inp, p);
        if let Some(q) = q_opt {
            if let Some((k, p2)) = legacy_kw1(inp, q) {
                assert(p2 > p);
                kws.push(k);
                proof {
                    assert(sp_legacy_more(inp@, p as int).0
                        =~= seq![k] + sp_legacy_more(inp@, p2 as int).0);
                    assert(sp_legacy_more(inp@, p as int).1
                        == sp_legacy_more(inp@, p2 as int).1);
                    assert(whole.0 =~= kws@ + sp_legacy_more(inp@, p2 as int).0);
                }
                p = p2;
                continue;
            }
        }
        proof {
            assert(sp_legacy_more(inp@, p as int).0 =~= Seq::<LegacyKw>::empty());
            assert(whole.0 =~= kws@ + Seq::<LegacyKw>::empty());
            assert(whole.0 =~= kws@);
        }
        break;
    }
    match classify(&kws) {
        Some(name) => Some((name, p)),
        None => None,
    }
}

} // verus!
