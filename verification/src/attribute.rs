use vstd::prelude::*;

use crate::decimal::{
    digits_value, lemma_digit_run_chars, parse_decimal, spec_parse_decimal, Decimal,
};
use crate::error::{err_model, CompileError, ErrModel};
use crate::hostexpr::{host_expr_well_formed, tokenizes};
use crate::text::{digit_run, scan_digits, str_is, trim_str, trimmed};

verus! {

// ---------------------------------------------------------------------------
// Attribute lookup
// ---------------------------------------------------------------------------

/// Looks a name up in an attribute list. When a name occurs twice in one
/// tag, the later entry wins.
pub open spec fn attr_get(attrs: Seq<(Seq<char>, Seq<char>)>, name: Seq<char>) -> Option<
    Seq<char>,
>
    decreases attrs.len(),
{
    if attrs.len() == 0 {
        None
    } else if attrs.last().0 == name {
        Some(attrs.last().1)
    } else {
        attr_get(attrs.drop_last(), name)
    }
}

pub fn find_attr<'a>(attrs: &'a Vec<(String, String)>, name: &str) -> (r: Option<&'a String>)
    ensures
        match r {
            Some(v) => attr_get(attrs.deep_view(), name@) == Some(v@),
            None => attr_get(attrs.deep_view(), name@) is None,
        },
{
    let wanted = String::from_str(name);
    let mut k = attrs.len();
    proof {
        assert(attrs.deep_view().subrange(0, attrs.deep_view().len() as int) =~= attrs.deep_view());
    }
    while k > 0
        invariant
            0 <= k <= attrs@.len(),
            wanted@ == name@,
            attr_get(attrs.deep_view(), name@) == attr_get(
                attrs.deep_view().subrange(0, k as int),
                name@,
            ),
        decreases k,
    {
        k = k - 1;
        proof {
            let dv = attrs.deep_view();
            assert(dv.subrange(0, k + 1).last() == dv[k as int]);
            assert(dv.subrange(0, k + 1).drop_last() =~= dv.subrange(0, k as int));
        }
        if attrs[k].0.eq(&wanted) {
            return Some(&attrs[k].1);
        }
    }
    proof {
        assert(attrs.deep_view().subrange(0, 0).len() == 0);
    }
    None
}

// ---------------------------------------------------------------------------
// Plain string attributes
// ---------------------------------------------------------------------------

pub open spec fn spec_parse_string(
    attrs: Seq<(Seq<char>, Seq<char>)>,
    name: Seq<char>,
) -> Result<Seq<char>, ErrModel> {
    match attr_get(attrs, name) {
        Some(v) => Ok(v),
        None => Err(ErrModel::MissingAttribute { attribute: name }),
    }
}

/// Reads an attribute as plain text; the attribute must be present.
pub fn parse_string(attributes: &Vec<(String, String)>, attribute: &str) -> (r: Result<
    String,
    CompileError,
>)
    ensures
        match r {
            Ok(v) => spec_parse_string(attributes.deep_view(), attribute@) == Ok::<_, ErrModel>(
                v@,
            ),
            Err(e) => spec_parse_string(attributes.deep_view(), attribute@) == Err::<Seq<char>, _>(
                err_model(e),
            ),
        },
{
    match find_attr(attributes, attribute) {
        Some(v) => Ok(v.clone()),
        None => Err(CompileError::MissingAttribute { attribute: String::from_str(attribute) }),
    }
}

// ---------------------------------------------------------------------------
// Typed literal values
// ---------------------------------------------------------------------------

/// A type whose literals can stand in an attribute value. `M` is the
/// mathematical model of a parsed value, and `spec_parse` is the literal
/// grammar of the type.
pub trait LiteralValue: Sized {
    type M;

    spec fn model(&self) -> Self::M;

    spec fn spec_parse(s: Seq<char>) -> Option<Self::M>;

    fn parse_literal(s: &str) -> (r: Option<Self>)
        ensures
            match r {
                Some(v) => Self::spec_parse(s@) == Some(v.model()),
                None => Self::spec_parse(s@) is None,
            },
    ;
}

/// An attribute value that is either a literal of its type or an opaque
/// fragment of host-language source, marked by the sigil `@` in the markup.
#[derive(Debug, PartialEq)]
pub enum HybridAttribute<T> {
    Literal(T),
    HostExpression(String),
}

/// Mathematical model of a hybrid attribute over the model `M` of its
/// literal type.
pub enum HybridModel<M> {
    Literal(M),
    HostExpression(Seq<char>),
}

pub open spec fn hybrid_model<T: LiteralValue>(h: HybridAttribute<T>) -> HybridModel<T::M> {
    match h {
        HybridAttribute::Literal(v) => HybridModel::Literal(v.model()),
        HybridAttribute::HostExpression(s) => HybridModel::HostExpression(s@),
    }
}

/// Resolution of one non-empty raw attribute value as a hybrid attribute.
///
/// A value that starts with the sigil carries a host expression: the rest
/// must be non-empty, must not itself parse as a literal (the sigil would be
/// redundant), and must lex as a token stream. A value without the sigil
/// must parse as a literal of the type, surrounding whitespace ignored.
pub open spec fn spec_hybrid_value<T: LiteralValue>(v: Seq<char>, name: Seq<char>) -> Result<
    HybridModel<T::M>,
    ErrModel,
> {
    if v.len() > 0 && v[0] == '@' {
        let frag = v.subrange(1, v.len() as int);
        if frag.len() == 0 {
            Err(ErrModel::InvalidExpression { attribute: name })
        } else if T::spec_parse(trimmed(frag)) is Some {
            Err(ErrModel::RedundantSigil { attribute: name })
        } else if !tokenizes(frag) {
            Err(ErrModel::InvalidExpression { attribute: name })
        } else {
            Ok(HybridModel::HostExpression(frag))
        }
    } else {
        match T::spec_parse(trimmed(v)) {
            Some(m) => Ok(HybridModel::Literal(m)),
            None => Err(ErrModel::InvalidLiteral { attribute: name }),
        }
    }
}

pub(crate) fn hybrid_value<T: LiteralValue>(v: &str, attribute: &str) -> (r: Result<
    HybridAttribute<T>,
    CompileError,
>)
    requires
        v@.len() > 0,
    ensures
        match r {
            Ok(h) => spec_hybrid_value::<T>(v@, attribute@) == Ok::<_, ErrModel>(hybrid_model(h)),
            Err(e) => spec_hybrid_value::<T>(v@, attribute@) == Err::<HybridModel<T::M>, _>(
                err_model(e),
            ),
        },
{
    let n = v.unicode_len();
    if v.get_char(0) == '@' {
        let frag = v.substring_char(1, n);
        if frag.unicode_len() == 0 {
            return Err(
                CompileError::InvalidExpression { attribute: String::from_str(attribute) },
            );
        }
        let ft = trim_str(frag, n - 1);
        match T::parse_literal(ft) {
            Some(_) => Err(CompileError::RedundantSigil { attribute: String::from_str(attribute) }),
            None => {
                if !host_expr_well_formed(frag) {
                    Err(CompileError::InvalidExpression { attribute: String::from_str(attribute) })
                } else {
                    Ok(HybridAttribute::HostExpression(frag.to_owned()))
                }
            },
        }
    } else {
        let vt = trim_str(v, n);
        match T::parse_literal(vt) {
            Some(value) => Ok(HybridAttribute::Literal(value)),
            None => Err(CompileError::InvalidLiteral { attribute: String::from_str(attribute) }),
        }
    }
}

/// Resolution of a required hybrid attribute: an absent or empty value is
/// a missing attribute.
pub open spec fn spec_parse_hybrid<T: LiteralValue>(
    attrs: Seq<(Seq<char>, Seq<char>)>,
    name: Seq<char>,
) -> Result<HybridModel<T::M>, ErrModel> {
    match attr_get(attrs, name) {
        None => Err(ErrModel::MissingAttribute { attribute: name }),
        Some(v) => if v.len() == 0 {
            Err(ErrModel::MissingAttribute { attribute: name })
        } else {
            spec_hybrid_value::<T>(v, name)
        },
    }
}

/// Resolution of an optional hybrid attribute: an absent or empty value is
/// no value at all.
pub open spec fn spec_parse_opt_hybrid<T: LiteralValue>(
    attrs: Seq<(Seq<char>, Seq<char>)>,
    name: Seq<char>,
) -> Result<Option<HybridModel<T::M>>, ErrModel> {
    match attr_get(attrs, name) {
        None => Ok(None),
        Some(v) => if v.len() == 0 {
            Ok(None)
        } else {
            match spec_hybrid_value::<T>(v, name) {
                Ok(h) => Ok(Some(h)),
                Err(e) => Err(e),
            }
        },
    }
}

/// Reads a required hybrid attribute of type `T`.
pub fn parse_hybrid_attribute<T: LiteralValue>(
    attributes: &Vec<(String, String)>,
    attribute: &str,
) -> (r: Result<HybridAttribute<T>, CompileError>)
    ensures
        match r {
            Ok(h) => spec_parse_hybrid::<T>(attributes.deep_view(), attribute@) == Ok::<
                _,
                ErrModel,
            >(hybrid_model(h)),
            Err(e) => spec_parse_hybrid::<T>(attributes.deep_view(), attribute@) == Err::<
                HybridModel<T::M>,
                _,
            >(err_model(e)),
        },
{
    match find_attr(attributes, attribute) {
        None => Err(CompileError::MissingAttribute { attribute: String::from_str(attribute) }),
        Some(v) => {
            if v.as_str().unicode_len() == 0 {
                Err(CompileError::MissingAttribute { attribute: String::from_str(attribute) })
            } else {
                hybrid_value::<T>(v.as_str(), attribute)
            }
        },
    }
}

/// Reads an optional hybrid attribute of type `T`.
pub fn parse_optional_hybrid_attribute<T: LiteralValue>(
    attributes: &Vec<(String, String)>,
    attribute: &str,
) -> (r: Result<Option<HybridAttribute<T>>, CompileError>)
    ensures
        match r {
            Ok(Some(h)) => spec_parse_opt_hybrid::<T>(attributes.deep_view(), attribute@) == Ok::<
                _,
                ErrModel,
            >(Some(hybrid_model(h))),
            Ok(None) => spec_parse_opt_hybrid::<T>(attributes.deep_view(), attribute@) == Ok::<
                Option<HybridModel<T::M>>,
                ErrModel,
            >(None),
            Err(e) => spec_parse_opt_hybrid::<T>(attributes.deep_view(), attribute@) == Err::<
                Option<HybridModel<T::M>>,
                _,
            >(err_model(e)),
        },
{
    match find_attr(attributes, attribute) {
        None => Ok(None),
        Some(v) => {
            if v.as_str().unicode_len() == 0 {
                Ok(None)
            } else {
                match hybrid_value::<T>(v.as_str(), attribute) {
                    Ok(h) => Ok(Some(h)),
                    Err(e) => Err(e),
                }
            }
        },
    }
}

/// An error from resolving an optional hybrid attribute is one of the three
/// value errors; in particular it never concerns a missing attribute.
pub proof fn lemma_opt_hybrid_errors<T: LiteralValue>(
    attrs: Seq<(Seq<char>, Seq<char>)>,
    name: Seq<char>,
)
    ensures
        match spec_parse_opt_hybrid::<T>(attrs, name) {
            Err(e) => e is InvalidExpression || e is RedundantSigil || e is InvalidLiteral,
            Ok(_) => true,
        },
{
}

/// A hybrid literal parses to the same typed value whether or not
/// whitespace surrounds it: padding a sigil-free value with whitespace
/// changes nothing about its resolution.
pub proof fn lemma_literal_whitespace<T: LiteralValue>(
    p1: Seq<char>,
    v: Seq<char>,
    p2: Seq<char>,
    name: Seq<char>,
)
    requires
        crate::text::all_ws(p1),
        crate::text::all_ws(p2),
        v.len() > 0,
        v[0] != '@',
    ensures
        spec_hybrid_value::<T>(p1 + v + p2, name) == spec_hybrid_value::<T>(v, name),
{
    let s = p1 + v + p2;
    assert(s.len() > 0);
    if p1.len() > 0 {
        assert(s[0] == p1[0]);
        assert(crate::text::is_ws(p1[0]));
        assert(s[0] != '@');
    } else {
        assert(s[0] == v[0]);
    }
    crate::text::lemma_trimmed_pad(p1, v, p2);
}

/// A sigil whose remainder parses as a literal of the declared type is
/// always redundant: resolution of such a value fails with the
/// redundant-sigil error, whatever the rest of the attribute list holds.
pub proof fn lemma_redundant_sigil<T: LiteralValue>(v: Seq<char>, name: Seq<char>)
    requires
        v.len() > 1,
        v[0] == '@',
        T::spec_parse(trimmed(v.subrange(1, v.len() as int))) is Some,
    ensures
        spec_hybrid_value::<T>(v, name) == Err::<HybridModel<T::M>, ErrModel>(
            ErrModel::RedundantSigil { attribute: name },
        ),
{
}

// ---------------------------------------------------------------------------
// Host-expression attributes
// ---------------------------------------------------------------------------

/// Resolution of one raw value that must be a host expression: the sigil is
/// required, and the rest must lex as a token stream.
pub open spec fn spec_rust_value(v: Seq<char>, name: Seq<char>) -> Result<Seq<char>, ErrModel> {
    if v.len() == 0 || v[0] != '@' {
        Err(ErrModel::InvalidExpression { attribute: name })
    } else {
        let frag = v.subrange(1, v.len() as int);
        if !tokenizes(frag) {
            Err(ErrModel::InvalidExpression { attribute: name })
        } else {
            Ok(frag)
        }
    }
}

fn rust_value(v: &str, attribute: &str) -> (r: Result<String, CompileError>)
    ensures
        match r {
            Ok(s) => spec_rust_value(v@, attribute@) == Ok::<_, ErrModel>(s@),
            Err(e) => spec_rust_value(v@, attribute@) == Err::<Seq<char>, _>(err_model(e)),
        },
{
    let n = v.unicode_len();
    if n == 0 || v.get_char(0) != '@' {
        return Err(CompileError::InvalidExpression { attribute: String::from_str(attribute) });
    }
    let frag = v.substring_char(1, n);
    if !host_expr_well_formed(frag) {
        Err(CompileError::InvalidExpression { attribute: String::from_str(attribute) })
    } else {
        Ok(frag.to_owned())
    }
}

pub open spec fn spec_parse_rust(
    attrs: Seq<(Seq<char>, Seq<char>)>,
    name: Seq<char>,
) -> Result<Seq<char>, ErrModel> {
    match attr_get(attrs, name) {
        None => Err(ErrModel::MissingAttribute { attribute: name }),
        Some(v) => spec_rust_value(v, name),
    }
}

pub open spec fn spec_parse_opt_rust(
    attrs: Seq<(Seq<char>, Seq<char>)>,
    name: Seq<char>,
) -> Result<Option<Seq<char>>, ErrModel> {
    match attr_get(attrs, name) {
        None => Ok(None),
        Some(v) => if v.len() == 0 {
            Ok(None)
        } else {
            match spec_rust_value(v, name) {
                Ok(s) => Ok(Some(s)),
                Err(e) => Err(e),
            }
        },
    }
}

/// Reads a required attribute that must carry a host expression.
pub fn parse_rust_attribute(attributes: &Vec<(String, String)>, attribute: &str) -> (r: Result<
    String,
    CompileError,
>)
    ensures
        match r {
            Ok(s) => spec_parse_rust(attributes.deep_view(), attribute@) == Ok::<_, ErrModel>(s@),
            Err(e) => spec_parse_rust(attributes.deep_view(), attribute@) == Err::<Seq<char>, _>(
                err_model(e),
            ),
        },
{
    match find_attr(attributes, attribute) {
        None => Err(CompileError::MissingAttribute { attribute: String::from_str(attribute) }),
        Some(v) => rust_value(v.as_str(), attribute),
    }
}

/// Reads an optional attribute that, when present and non-empty, must carry
/// a host expression.
pub fn parse_optional_rust_attribute(
    attributes: &Vec<(String, String)>,
    attribute: &str,
) -> (r: Result<Option<String>, CompileError>)
    ensures
        match r {
            Ok(Some(s)) => spec_parse_opt_rust(attributes.deep_view(), attribute@) == Ok::<
                _,
                ErrModel,
            >(Some(s@)),
            Ok(None) => spec_parse_opt_rust(attributes.deep_view(), attribute@) == Ok::<
                Option<Seq<char>>,
                ErrModel,
            >(None),
            Err(e) => spec_parse_opt_rust(attributes.deep_view(), attribute@) == Err::<
                Option<Seq<char>>,
                _,
            >(err_model(e)),
        },
{
    match find_attr(attributes, attribute) {
        None => Ok(None),
        Some(v) => {
            if v.as_str().unicode_len() == 0 {
                Ok(None)
            } else {
                match rust_value(v.as_str(), attribute) {
                    Ok(s) => Ok(Some(s)),
                    Err(e) => Err(e),
                }
            }
        },
    }
}

// ---------------------------------------------------------------------------
// The literal attribute types
// ---------------------------------------------------------------------------

/// A decimal-number attribute value.
#[derive(Clone, Copy, Debug, PartialEq)]
pub struct AttributeFloat(pub Decimal);

impl LiteralValue for AttributeFloat {
    type M = Decimal;

    open spec fn model(&self) -> Decimal {
        self.0
    }

    open spec fn spec_parse(s: Seq<char>) -> Option<Decimal> {
        spec_parse_decimal(s)
    }

    fn parse_literal(s: &str) -> (r: Option<Self>) {
        match parse_decimal(s) {
            Some(d) => Some(AttributeFloat(d)),
            None => None,
        }
    }
}

/// The literal grammar of an unsigned 32-bit attribute value: an optional
/// plus sign and digits.
pub open spec fn spec_parse_u32(s: Seq<char>) -> Option<u32> {
    let i0: int = if s.len() > 0 && s[0] == '+' {
        1
    } else {
        0
    };
    let d = digit_run(s, i0) as int;
    if d >= 1 && i0 + d == s.len() && crate::decimal::digits_int(s, i0, s.len() as int)
        <= u32::MAX {
        Some(crate::decimal::digits_int(s, i0, s.len() as int) as u32)
    } else {
        None
    }
}

/// An unsigned integer attribute value.
#[derive(Clone, Copy, Debug, PartialEq)]
pub struct AttributeU32(pub u32);

impl LiteralValue for AttributeU32 {
    type M = u32;

    open spec fn model(&self) -> u32 {
        self.0
    }

    open spec fn spec_parse(s: Seq<char>) -> Option<u32> {
        spec_parse_u32(s)
    }

    fn parse_literal(s: &str) -> (r: Option<Self>) {
        let n = s.unicode_len();
        let mut i0: usize = 0;
        if n > 0 && s.get_char(0) == '+' {
            i0 = 1;
        }
        let d_end = scan_digits(s, n, i0);
        proof {
            lemma_digit_run_chars(s@, i0 as int);
        }
        if d_end == i0 || d_end != n {
            return None;
        }
        match digits_value(s, n, i0, n) {
            Some(v) => {
                if v <= u32::MAX as u64 {
                    Some(AttributeU32(v as u32))
                } else {
                    None
                }
            },
            None => None,
        }
    }
}

/// A boolean attribute value: exactly `true` or `false`.
pub open spec fn spec_parse_bool(s: Seq<char>) -> Option<bool> {
    if s == "true"@ {
        Some(true)
    } else if s == "false"@ {
        Some(false)
    } else {
        None
    }
}

#[derive(Clone, Copy, Debug, PartialEq)]
pub struct AttributeBool(pub bool);

impl LiteralValue for AttributeBool {
    type M = bool;

    open spec fn model(&self) -> bool {
        self.0
    }

    open spec fn spec_parse(s: Seq<char>) -> Option<bool> {
        spec_parse_bool(s)
    }

    fn parse_literal(s: &str) -> (r: Option<Self>) {
        if str_is(s, "true") {
            Some(AttributeBool(true))
        } else if str_is(s, "false") {
            Some(AttributeBool(false))
        } else {
            None
        }
    }
}

/// A plain text attribute value; every text is a valid literal.
#[derive(Clone, Debug, PartialEq)]
pub struct AttributeString(pub String);

impl LiteralValue for AttributeString {
    type M = Seq<char>;

    open spec fn model(&self) -> Seq<char> {
        self.0@
    }

    open spec fn spec_parse(s: Seq<char>) -> Option<Seq<char>> {
        Some(s)
    }

    fn parse_literal(s: &str) -> (r: Option<Self>) {
        Some(AttributeString(String::from_str(s)))
    }
}

/// The raw text of a `size` attribute.
#[derive(Clone, Debug, PartialEq)]
pub struct AttributeSizeType(pub String);

} // verus!
