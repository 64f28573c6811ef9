use vstd::prelude::*;

use crate::attribute::{
    attr_get, find_attr, hybrid_model, hybrid_value, parse_optional_hybrid_attribute,
    parse_optional_rust_attribute, parse_string, spec_hybrid_value, spec_parse_opt_hybrid,
    spec_parse_opt_rust, spec_parse_string, AttributeBool, AttributeFloat, HybridAttribute,
    HybridModel,
};
use crate::decimal::{dec_le, dec_le_exec, dec_wf, lemma_parse_decimal_wf, Decimal};
use crate::direction::{parse_direction, parse_size_kind, spec_direction, spec_size_kind, Direction, SizeKind};
use crate::error::{err_model, CompileError, ErrModel};

verus! {

// ---------------------------------------------------------------------------
// Panel sizing
// ---------------------------------------------------------------------------

/// The resolved sizing rule of one panel: the kind of size, its value where
/// the kind takes one, and optional clamps.
#[derive(Debug, PartialEq)]
pub enum SizeBlueprint {
    Remainder {
        min: Option<HybridAttribute<AttributeFloat>>,
        max: Option<HybridAttribute<AttributeFloat>>,
    },
    Exact {
        value: HybridAttribute<AttributeFloat>,
        min: Option<HybridAttribute<AttributeFloat>>,
        max: Option<HybridAttribute<AttributeFloat>>,
    },
    Relative {
        value: HybridAttribute<AttributeFloat>,
        min: Option<HybridAttribute<AttributeFloat>>,
        max: Option<HybridAttribute<AttributeFloat>>,
    },
    Initial {
        value: HybridAttribute<AttributeFloat>,
        min: Option<HybridAttribute<AttributeFloat>>,
        max: Option<HybridAttribute<AttributeFloat>>,
    },
}

/// Mathematical model of a `SizeBlueprint`.
pub enum SizeModel {
    Remainder { min: Option<HybridModel<Decimal>>, max: Option<HybridModel<Decimal>> },
    Exact {
        value: HybridModel<Decimal>,
        min: Option<HybridModel<Decimal>>,
        max: Option<HybridModel<Decimal>>,
    },
    Relative {
        value: HybridModel<Decimal>,
        min: Option<HybridModel<Decimal>>,
        max: Option<HybridModel<Decimal>>,
    },
    Initial {
        value: HybridModel<Decimal>,
        min: Option<HybridModel<Decimal>>,
        max: Option<HybridModel<Decimal>>,
    },
}

pub open spec fn opt_float_model(o: Option<HybridAttribute<AttributeFloat>>) -> Option<
    HybridModel<Decimal>,
> {
    match o {
        Some(h) => Some(hybrid_model(h)),
        None => None,
    }
}

pub open spec fn size_model(b: SizeBlueprint) -> SizeModel {
    match b {
        SizeBlueprint::Remainder { min, max } => SizeModel::Remainder {
            min: opt_float_model(min),
            max: opt_float_model(max),
        },
        SizeBlueprint::Exact { value, min, max } => SizeModel::Exact {
            value: hybrid_model(value),
            min: opt_float_model(min),
            max: opt_float_model(max),
        },
        SizeBlueprint::Relative { value, min, max } => SizeModel::Relative {
            value: hybrid_model(value),
            min: opt_float_model(min),
            max: opt_float_model(max),
        },
        SizeBlueprint::Initial { value, min, max } => SizeModel::Initial {
            value: hybrid_model(value),
            min: opt_float_model(min),
            max: opt_float_model(max),
        },
    }
}

/// Resolution of a panel's sizing from its attributes. `panel` is the
/// panel's position among its strip's children in declaration order; it
/// identifies the panel in errors. A missing `size` attribute fails; a kind
/// other than remainder demands a `value` attribute; `min` and `max` are
/// optional on every kind.
pub open spec fn spec_resolve_size(
    attrs: Seq<(Seq<char>, Seq<char>)>,
    panel: int,
) -> Result<SizeModel, ErrModel> {
    match attr_get(attrs, "size"@) {
        None => Err(ErrModel::MissingSizeAttribute { panel }),
        Some(sv) => match spec_size_kind(sv) {
            None => Err(ErrModel::UnknownEnumValue { attribute: "size"@, value: sv }),
            Some(kind) => match spec_parse_opt_hybrid::<AttributeFloat>(attrs, "min"@) {
                Err(e) => Err(e),
                Ok(minv) => match spec_parse_opt_hybrid::<AttributeFloat>(attrs, "max"@) {
                    Err(e) => Err(e),
                    Ok(maxv) => if kind == SizeKind::Remainder {
                        Ok(SizeModel::Remainder { min: minv, max: maxv })
                    } else {
                        match attr_get(attrs, "value"@) {
                            None => Err(ErrModel::MissingValueAttribute { panel }),
                            Some(vv) => if vv.len() == 0 {
                                Err(ErrModel::MissingValueAttribute { panel })
                            } else {
                                match spec_hybrid_value::<AttributeFloat>(vv, "value"@) {
                                    Err(e) => Err(e),
                                    Ok(h) => if kind == SizeKind::Exact {
                                        Ok(SizeModel::Exact { value: h, min: minv, max: maxv })
                                    } else if kind == SizeKind::Relative {
                                        Ok(
                                            SizeModel::Relative {
                                                value: h,
                                                min: minv,
                                                max: maxv,
                                            },
                                        )
                                    } else {
                                        Ok(SizeModel::Initial { value: h, min: minv, max: maxv })
                                    },
                                }
                            },
                        }
                    },
                },
            },
        },
    }
}

impl SizeBlueprint {
    /// Resolves the sizing of the panel at declaration position `panel`
    /// from its attribute list.
    pub fn resolve(attributes: &Vec<(String, String)>, panel: usize) -> (r: Result<
        SizeBlueprint,
        CompileError,
    >)
        ensures
            match r {
                Ok(b) => spec_resolve_size(attributes.deep_view(), panel as int) == Ok::<
                    _,
                    ErrModel,
                >(size_model(b)),
                Err(e) => spec_resolve_size(attributes.deep_view(), panel as int) == Err::<
                    SizeModel,
                    _,
                >(err_model(e)),
            },
    {
        let sv = match find_attr(attributes, "size") {
            Some(v) => v,
            None => {
                return Err(CompileError::MissingSizeAttribute { panel });
            },
        };
        let kind = match parse_size_kind(sv.as_str()) {
            Some(k) => k,
            None => {
                return Err(
                    CompileError::UnknownEnumValue {
                        attribute: String::from_str("size"),
                        value: sv.clone(),
                    },
                );
            },
        };
        let minv = match parse_optional_hybrid_attribute::<AttributeFloat>(attributes, "min") {
            Ok(m) => m,
            Err(e) => {
                return Err(e);
            },
        };
        let maxv = match parse_optional_hybrid_attribute::<AttributeFloat>(attributes, "max") {
            Ok(m) => m,
            Err(e) => {
                return Err(e);
            },
        };
        match kind {
            SizeKind::Remainder => Ok(SizeBlueprint::Remainder { min: minv, max: maxv }),
            _ => {
                let vv = match find_attr(attributes, "value") {
                    Some(v) => v,
                    None => {
                        return Err(CompileError::MissingValueAttribute { panel });
                    },
                };
                if vv.as_str().unicode_len() == 0 {
                    return Err(CompileError::MissingValueAttribute { panel });
                }
                let value = match hybrid_value::<AttributeFloat>(vv.as_str(), "value") {
                    Ok(h) => h,
                    Err(e) => {
                        return Err(e);
                    },
                };
                match kind {
                    SizeKind::Exact => Ok(SizeBlueprint::Exact { value, min: minv, max: maxv }),
                    SizeKind::Relative => Ok(
                        SizeBlueprint::Relative { value, min: minv, max: maxv },
                    ),
                    SizeKind::Initial => Ok(SizeBlueprint::Initial { value, min: minv, max: maxv }),
                    SizeKind::Remainder => Ok(SizeBlueprint::Remainder { min: minv, max: maxv }),
                }
            },
        }
    }
}

// ---------------------------------------------------------------------------
// Strip attributes
// ---------------------------------------------------------------------------

/// The resolved attributes of a strip: its direction, the effective gap
/// between adjacent panels, the separator flag, and an optional override of
/// the rendering surface to build into.
#[derive(Debug, PartialEq)]
pub struct StripBlueprint {
    pub direction: Direction,
    pub gap: Option<HybridAttribute<AttributeFloat>>,
    pub separator: HybridAttribute<AttributeBool>,
    pub ui: Option<String>,
}

/// Mathematical model of a `StripBlueprint`.
pub struct StripModel {
    pub direction: Direction,
    pub gap: Option<HybridModel<Decimal>>,
    pub separator: HybridModel<bool>,
    pub ui: Option<Seq<char>>,
}

pub open spec fn strip_model(b: StripBlueprint) -> StripModel {
    StripModel {
        direction: b.direction,
        gap: opt_float_model(b.gap),
        separator: hybrid_model(b.separator),
        ui: match b.ui {
            Some(u) => Some(u@),
            None => None,
        },
    }
}

/// The least width reserved for a separator: two size units.
pub open spec fn spec_separator_gap() -> Decimal {
    Decimal { neg: false, mant: 2, scale: 0 }
}

pub fn default_separator_gap() -> (d: Decimal)
    ensures
        d == spec_separator_gap(),
        dec_wf(d),
{
    Decimal { neg: false, mant: 2, scale: 0 }
}

/// Whether the separator flag may render a separator: a literal `true`, or
/// a host expression whose value is unknown until run time.
pub open spec fn sep_on(sep: HybridModel<bool>) -> bool {
    match sep {
        HybridModel::Literal(b) => b,
        HybridModel::HostExpression(_) => true,
    }
}

/// The effective gap policy: a separator that may render needs room, so it
/// implies the least separator gap when no gap is given, and a larger
/// literal gap wins over that least width.
pub open spec fn spec_effective_gap(
    gap: Option<HybridModel<Decimal>>,
    sep: HybridModel<bool>,
) -> Option<HybridModel<Decimal>> {
    if sep_on(sep) {
        match gap {
            None => Some(HybridModel::Literal(spec_separator_gap())),
            Some(HybridModel::Literal(d)) => Some(
                HybridModel::Literal(
                    if dec_le(d, spec_separator_gap()) {
                        spec_separator_gap()
                    } else {
                        d
                    },
                ),
            ),
            Some(HybridModel::HostExpression(e)) => Some(HybridModel::HostExpression(e)),
        }
    } else {
        gap
    }
}

/// A literal gap that came out of attribute resolution is a well-formed
/// decimal.
pub proof fn lemma_opt_gap_wf(attrs: Seq<(Seq<char>, Seq<char>)>, name: Seq<char>)
    ensures
        match spec_parse_opt_hybrid::<AttributeFloat>(attrs, name) {
            Ok(Some(HybridModel::Literal(d))) => dec_wf(d),
            _ => true,
        },
{
    match attr_get(attrs, name) {
        None => {},
        Some(v) => {
            if v.len() > 0 {
                if !(v[0] == '@') {
                    lemma_parse_decimal_wf(crate::text::trimmed(v));
                }
            }
        },
    }
}

fn effective_gap(
    gap: Option<HybridAttribute<AttributeFloat>>,
    sep: &HybridAttribute<AttributeBool>,
) -> (r: Option<HybridAttribute<AttributeFloat>>)
    requires
        match gap {
            Some(HybridAttribute::Literal(af)) => dec_wf(af.0),
            _ => true,
        },
    ensures
        opt_float_model(r) == spec_effective_gap(opt_float_model(gap), hybrid_model(*sep)),
{
    let on = match sep {
        HybridAttribute::Literal(b) => b.0,
        HybridAttribute::HostExpression(_) => true,
    };
    if !on {
        return gap;
    }
    match gap {
        None => Some(HybridAttribute::Literal(AttributeFloat(default_separator_gap()))),
        Some(HybridAttribute::Literal(af)) => {
            let least = default_separator_gap();
            if dec_le_exec(&af.0, &least) {
                Some(HybridAttribute::Literal(AttributeFloat(least)))
            } else {
                Some(HybridAttribute::Literal(af))
            }
        },
        Some(HybridAttribute::HostExpression(e)) => Some(HybridAttribute::HostExpression(e)),
    }
}

/// Resolution of a strip's own attributes: the required `direction`, the
/// optional hybrid `gap` and `separator` (absent means no separator), the
/// optional `ui` surface override, and then the effective-gap policy.
pub open spec fn spec_resolve_strip(attrs: Seq<(Seq<char>, Seq<char>)>) -> Result<
    StripModel,
    ErrModel,
> {
    match spec_parse_string(attrs, "direction"@) {
        Err(e) => Err(e),
        Ok(dv) => match spec_direction(dv) {
            None => Err(ErrModel::UnknownEnumValue { attribute: "direction"@, value: dv }),
            Some(direction) => match spec_parse_opt_hybrid::<AttributeFloat>(attrs, "gap"@) {
                Err(e) => Err(e),
                Ok(gap) => match spec_parse_opt_hybrid::<AttributeBool>(attrs, "separator"@) {
                    Err(e) => Err(e),
                    Ok(sep_opt) => {
                        let separator = match sep_opt {
                            Some(h) => h,
                            None => HybridModel::Literal(false),
                        };
                        match spec_parse_opt_rust(attrs, "ui"@) {
                            Err(e) => Err(e),
                            Ok(ui) => Ok(
                                StripModel {
                                    direction,
                                    gap: spec_effective_gap(gap, separator),
                                    separator,
                                    ui,
                                },
                            ),
                        }
                    },
                },
            },
        },
    }
}

/// A panel whose size kind is `remainder` never demands a `value`
/// attribute: whatever else the attribute list holds, resolution cannot
/// fail for want of a value.
pub proof fn lemma_remainder_needs_no_value(
    attrs: Seq<(Seq<char>, Seq<char>)>,
    sv: Seq<char>,
    panel: int,
)
    requires
        attr_get(attrs, "size"@) == Some(sv),
        spec_size_kind(sv) == Some(SizeKind::Remainder),
    ensures
        match spec_resolve_size(attrs, panel) {
            Ok(sz) => sz is Remainder,
            Err(e) => !(e is MissingValueAttribute),
        },
{
    crate::attribute::lemma_opt_hybrid_errors::<AttributeFloat>(attrs, "min"@);
    crate::attribute::lemma_opt_hybrid_errors::<AttributeFloat>(attrs, "max"@);
}

impl StripBlueprint {
    /// Resolves a strip's attributes.
    pub fn resolve(attributes: &Vec<(String, String)>) -> (r: Result<
        StripBlueprint,
        CompileError,
    >)
        ensures
            match r {
                Ok(b) => spec_resolve_strip(attributes.deep_view()) == Ok::<_, ErrModel>(
                    strip_model(b),
                ),
                Err(e) => spec_resolve_strip(attributes.deep_view()) == Err::<StripModel, _>(
                    err_model(e),
                ),
            },
    {
        let dv = match parse_string(attributes, "direction") {
            Ok(v) => v,
            Err(e) => {
                return Err(e);
            },
        };
        let direction = match parse_direction(dv.as_str()) {
            Some(d) => d,
            None => {
                return Err(
                    CompileError::UnknownEnumValue {
                        attribute: String::from_str("direction"),
                        value: dv,
                    },
                );
            },
        };
        let gap = match parse_optional_hybrid_attribute::<AttributeFloat>(attributes, "gap") {
            Ok(g) => g,
            Err(e) => {
                return Err(e);
            },
        };
        let separator = match parse_optional_hybrid_attribute::<AttributeBool>(
            attributes,
            "separator",
        ) {
            Ok(Some(h)) => h,
            Ok(None) => HybridAttribute::Literal(AttributeBool(false)),
            Err(e) => {
                return Err(e);
            },
        };
        let ui = match parse_optional_rust_attribute(attributes, "ui") {
            Ok(u) => u,
            Err(e) => {
                return Err(e);
            },
        };
        proof {
            lemma_opt_gap_wf(attributes.deep_view(), "gap"@);
        }
        let gap = effective_gap(gap, &separator);
        Ok(StripBlueprint { direction, gap, separator, ui })
    }
}

} // verus!
