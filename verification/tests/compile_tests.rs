use egui_xml::attribute::{
    parse_optional_hybrid_attribute, AttributeBool, AttributeFloat, AttributeString, AttributeU32,
    HybridAttribute,
};
use egui_xml::compile;
use egui_xml::decimal::Decimal;
use egui_xml::direction::Axis;
use egui_xml::error::CompileError;
use egui_xml::plan::Op;
use egui_xml::strip::SizeBlueprint;
use egui_xml::attribute::parse_hybrid_attribute;
use egui_xml::direction::{parse_direction, Direction};
use egui_xml::direction::{parse_size_kind, SizeKind};
use egui_xml::decimal::parse_decimal;
use egui_xml::attribute::{parse_optional_rust_attribute, parse_rust_attribute};

fn dec(neg: bool, mant: u64, scale: u32) -> HybridAttribute<AttributeFloat> {
    HybridAttribute::Literal(AttributeFloat(Decimal { neg, mant, scale }))
}

#[test]
fn west_strip_two_panels() {
    let plan = compile(
        "<Strip direction=\"west\"><Panel size=\"relative\" value=\"0.3\"/><Panel size=\"remainder\"/></Strip>",
    )
    .unwrap();
    let expected = vec![
        Op::SizeConstraint(SizeBlueprint::Relative { value: dec(false, 3, 1), min: None, max: None }),
        Op::SizeConstraint(SizeBlueprint::Remainder { min: None, max: None }),
        Op::BeginSubdivision { axis: Axis::Horizontal, ui: None },
        Op::EmptyCell,
        Op::EmptyCell,
    ];
    assert_eq!(plan, expected);
}

#[test]
fn south_strip_reverses_order() {
    let plan = compile(
        "<Strip direction=\"south\"><Panel size=\"relative\" value=\"0.3\"/><Panel size=\"remainder\"/></Strip>",
    )
    .unwrap();
    let expected = vec![
        Op::SizeConstraint(SizeBlueprint::Remainder { min: None, max: None }),
        Op::SizeConstraint(SizeBlueprint::Relative { value: dec(false, 3, 1), min: None, max: None }),
        Op::BeginSubdivision { axis: Axis::Vertical, ui: None },
        Op::EmptyCell,
        Op::EmptyCell,
    ];
    assert_eq!(plan, expected);
}

#[test]
fn north_strip_with_gap() {
    let plan = compile(
        "<Strip direction=\"north\" gap=\"1.5\"><Panel size=\"exact\" value=\"10\"/><Panel size=\"exact\" value=\"20\"/></Strip>",
    )
    .unwrap();
    let expected = vec![
        Op::SizeConstraint(SizeBlueprint::Exact { value: dec(false, 10, 0), min: None, max: None }),
        Op::SizeConstraint(SizeBlueprint::Exact { value: dec(false, 15, 1), min: None, max: None }),
        Op::SizeConstraint(SizeBlueprint::Exact { value: dec(false, 20, 0), min: None, max: None }),
        Op::BeginSubdivision { axis: Axis::Vertical, ui: None },
        Op::EmptyCell,
        Op::EmptyCell,
        Op::EmptyCell,
    ];
    assert_eq!(plan, expected);
}

#[test]
fn compile_is_deterministic() {
    let markup = "<Strip direction=\"east\" gap=\"2\"><Panel size=\"remainder\">a();</Panel><Panel size=\"exact\" value=\"4\"/></Strip>";
    assert_eq!(compile(markup), compile(markup));
}

#[test]
fn hybrid_value_resolves_host_expression() {

    let list = vec![("value".to_string(), "@x + 1".to_string())];
    let got = parse_hybrid_attribute::<AttributeFloat>(&list, "value").unwrap();
    assert_eq!(got, HybridAttribute::HostExpression("x + 1".to_string()));
}

#[test]
fn redundant_sigil_is_rejected() {

    let list = vec![("value".to_string(), "@5".to_string())];
    assert_eq!(
        parse_hybrid_attribute::<AttributeFloat>(&list, "value"),
        Err(CompileError::RedundantSigil { attribute: "value".to_string() })
    );
}

#[test]
fn ill_formed_host_expression_is_rejected() {

    let list = vec![("value".to_string(), "@(unclosed".to_string())];
    assert_eq!(
        parse_hybrid_attribute::<AttributeFloat>(&list, "value"),
        Err(CompileError::InvalidExpression { attribute: "value".to_string() })
    );
}

#[test]
fn missing_size_names_the_panel() {
    let got = compile("<Strip direction=\"north\"><Panel size=\"remainder\"/><Panel/></Strip>");
    assert_eq!(got, Err(CompileError::MissingSizeAttribute { panel: 1 }));
}

#[test]
fn remainder_needs_no_value_but_exact_does() {
    assert!(compile("<Strip direction=\"north\"><Panel size=\"remainder\"/></Strip>").is_ok());
    let got = compile("<Strip direction=\"north\"><Panel size=\"exact\"/></Strip>");
    assert_eq!(got, Err(CompileError::MissingValueAttribute { panel: 0 }));
}

#[test]
fn separator_implies_default_gap() {
    let plan = compile(
        "<Strip direction=\"north\" separator=\"true\"><Panel size=\"remainder\"/><Panel size=\"remainder\"/></Strip>",
    )
    .unwrap();
    let expected = vec![
        Op::SizeConstraint(SizeBlueprint::Remainder { min: None, max: None }),
        Op::SizeConstraint(SizeBlueprint::Exact { value: dec(false, 2, 0), min: None, max: None }),
        Op::SizeConstraint(SizeBlueprint::Remainder { min: None, max: None }),
        Op::BeginSubdivision { axis: Axis::Vertical, ui: None },
        Op::EmptyCell,
        Op::SeparatorCell { condition: None },
        Op::EmptyCell,
    ];
    assert_eq!(plan, expected);
}

#[test]
fn larger_literal_gap_wins_over_separator_minimum() {
    let plan = compile(
        "<Strip direction=\"north\" separator=\"true\" gap=\"5\"><Panel size=\"remainder\"/><Panel size=\"remainder\"/></Strip>",
    )
    .unwrap();
    assert_eq!(
        plan[1],
        Op::SizeConstraint(SizeBlueprint::Exact { value: dec(false, 5, 0), min: None, max: None })
    );
    let plan = compile(
        "<Strip direction=\"north\" separator=\"true\" gap=\"1\"><Panel size=\"remainder\"/><Panel size=\"remainder\"/></Strip>",
    )
    .unwrap();
    assert_eq!(
        plan[1],
        Op::SizeConstraint(SizeBlueprint::Exact { value: dec(false, 2, 0), min: None, max: None })
    );
}

#[test]
fn separator_false_keeps_gap_and_empty_filler() {
    let plan = compile(
        "<Strip direction=\"north\" separator=\"false\" gap=\"1\"><Panel size=\"remainder\"/><Panel size=\"remainder\"/></Strip>",
    )
    .unwrap();
    assert_eq!(
        plan[1],
        Op::SizeConstraint(SizeBlueprint::Exact { value: dec(false, 1, 0), min: None, max: None })
    );
    assert_eq!(plan[5], Op::EmptyCell);
}

#[test]
fn dynamic_separator_is_conditional() {
    let plan = compile(
        "<Strip direction=\"north\" separator=\"@show\" gap=\"3\"><Panel size=\"remainder\"/><Panel size=\"remainder\"/></Strip>",
    )
    .unwrap();
    assert_eq!(plan[5], Op::SeparatorCell { condition: Some("show".to_string()) });
}

#[test]
fn ui_override_reaches_the_subdivision() {
    let plan = compile(
        "<Strip direction=\"west\" ui=\"@side_ui\"><Panel size=\"remainder\"/></Strip>",
    )
    .unwrap();
    assert_eq!(plan[1], Op::BeginSubdivision { axis: Axis::Horizontal, ui: Some("side_ui".to_string()) });
}

#[test]
fn min_max_clamps_are_kept() {
    let plan = compile(
        "<Strip direction=\"west\"><Panel size=\"exact\" value=\"10\" min=\"2\" max=\"20\"/></Strip>",
    )
    .unwrap();
    assert_eq!(
        plan[0],
        Op::SizeConstraint(SizeBlueprint::Exact {
            value: dec(false, 10, 0),
            min: Some(dec(false, 2, 0)),
            max: Some(dec(false, 20, 0)),
        })
    );
}

#[test]
fn panel_content_becomes_a_cell() {
    let plan = compile(
        "<Strip direction=\"west\"><Panel size=\"remainder\">draw(ui);</Panel></Strip>",
    )
    .unwrap();
    let expected = vec![
        Op::SizeConstraint(SizeBlueprint::Remainder { min: None, max: None }),
        Op::BeginSubdivision { axis: Axis::Horizontal, ui: None },
        Op::Cell(vec![Op::HostCode("draw(ui);".to_string())]),
    ];
    assert_eq!(plan, expected);
}

#[test]
fn nested_strips_nest_in_cells() {
    let plan = compile(
        "<Strip direction=\"west\"><Panel size=\"remainder\"><Strip direction=\"north\"><Panel size=\"remainder\"/></Strip></Panel></Strip>",
    )
    .unwrap();
    let inner = vec![
        Op::SizeConstraint(SizeBlueprint::Remainder { min: None, max: None }),
        Op::BeginSubdivision { axis: Axis::Vertical, ui: None },
        Op::EmptyCell,
    ];
    let expected = vec![
        Op::SizeConstraint(SizeBlueprint::Remainder { min: None, max: None }),
        Op::BeginSubdivision { axis: Axis::Horizontal, ui: None },
        Op::Cell(inner),
    ];
    assert_eq!(plan, expected);
}

#[test]
fn bare_text_passes_through() {
    let plan = compile("  ui.label(\"hi\");  ").unwrap();
    assert_eq!(plan, vec![Op::HostCode("ui.label(\"hi\");".to_string())]);
}

#[test]
fn whitespace_around_literals_is_ignored() {
    let a = compile("<Strip direction=\"west\"><Panel size=\"exact\" value=\" 10 \"/></Strip>");
    let b = compile("<Strip direction=\"west\"><Panel size=\"exact\" value=\"10\"/></Strip>");
    assert_eq!(a, b);
}

#[test]
fn error_taxonomy() {
    // an unterminated tag
    assert_eq!(
        compile("<Panel"),
        Err(CompileError::MalformedMarkup { position: 6 })
    );
    // a close tag that does not match its open tag
    assert!(matches!(
        compile("<Panel size=\"remainder\"></Strip>"),
        Err(CompileError::MalformedMarkup { .. })
    ));
    // an element left open at the end of the text
    assert!(matches!(
        compile("<Panel size=\"remainder\">"),
        Err(CompileError::MalformedMarkup { .. })
    ));
    // an unknown element name
    assert_eq!(
        compile("<Widget/>"),
        Err(CompileError::UnknownElement { name: "Widget".to_string(), position: 0 })
    );
    // a close tag with no matching open tag
    assert_eq!(
        compile("</Panel>"),
        Err(CompileError::UnbalancedTree { position: 0 })
    );
    // text under a leaf element
    assert!(matches!(
        compile("<Rust>let x = 1;</Rust>"),
        Err(CompileError::NoChildrenAllowed { .. })
    ));
    // a strip without a direction
    assert_eq!(
        compile("<Strip><Panel size=\"remainder\"/></Strip>"),
        Err(CompileError::MissingAttribute { attribute: "direction".to_string() })
    );
    // a direction outside the alias table
    assert_eq!(
        compile("<Strip direction=\"up\"/>"),
        Err(CompileError::UnknownEnumValue {
            attribute: "direction".to_string(),
            value: "up".to_string()
        })
    );
    // a size kind outside the alias table
    assert_eq!(
        compile("<Strip direction=\"north\"><Panel size=\"huge\"/></Strip>"),
        Err(CompileError::UnknownEnumValue {
            attribute: "size".to_string(),
            value: "huge".to_string()
        })
    );
    // a literal that does not parse as its type
    assert_eq!(
        compile("<Strip direction=\"north\" gap=\"wide\"/>"),
        Err(CompileError::InvalidLiteral { attribute: "gap".to_string() })
    );
}

#[test]
fn direction_aliases_are_case_insensitive() {

    for alias in ["TopDown", "topdown", "TD", "north", "N"] {
        assert_eq!(parse_direction(alias), Some(Direction::TopDown));
    }
    for alias in ["BottomUp", "bu", "SOUTH", "s"] {
        assert_eq!(parse_direction(alias), Some(Direction::BottomUp));
    }
    for alias in ["LeftToRight", "ltr", "West", "w"] {
        assert_eq!(parse_direction(alias), Some(Direction::LeftToRight));
    }
    for alias in ["RightToLeft", "rtl", "East", "e"] {
        assert_eq!(parse_direction(alias), Some(Direction::RightToLeft));
    }
    assert_eq!(parse_direction("upward"), None);
}

#[test]
fn size_kind_aliases() {

    assert_eq!(parse_size_kind("Remainder"), Some(SizeKind::Remainder));
    assert_eq!(parse_size_kind("rem"), Some(SizeKind::Remainder));
    assert_eq!(parse_size_kind("EXACT"), Some(SizeKind::Exact));
    assert_eq!(parse_size_kind("ex"), Some(SizeKind::Exact));
    assert_eq!(parse_size_kind("relative"), Some(SizeKind::Relative));
    assert_eq!(parse_size_kind("rel"), Some(SizeKind::Relative));
    assert_eq!(parse_size_kind("initial"), Some(SizeKind::Initial));
    assert_eq!(parse_size_kind("init"), Some(SizeKind::Initial));
    assert_eq!(parse_size_kind("fill"), None);
}

#[test]
fn initial_size_kind_compiles() {
    let plan = compile(
        "<Strip direction=\"west\"><Panel size=\"initial\" value=\"7\"/></Strip>",
    )
    .unwrap();
    assert_eq!(
        plan[0],
        Op::SizeConstraint(SizeBlueprint::Initial { value: dec(false, 7, 0), min: None, max: None })
    );
}

#[test]
fn decimal_literals() {

    assert_eq!(parse_decimal("0.3"), Some(Decimal { neg: false, mant: 3, scale: 1 }));
    assert_eq!(parse_decimal("250.0"), Some(Decimal { neg: false, mant: 250, scale: 0 }));
    assert_eq!(parse_decimal("2.50"), Some(Decimal { neg: false, mant: 25, scale: 1 }));
    assert_eq!(parse_decimal("+3"), Some(Decimal { neg: false, mant: 3, scale: 0 }));
    assert_eq!(parse_decimal("-1.5"), Some(Decimal { neg: true, mant: 15, scale: 1 }));
    assert_eq!(parse_decimal("-0.0"), Some(Decimal { neg: false, mant: 0, scale: 0 }));
    assert_eq!(parse_decimal("5."), Some(Decimal { neg: false, mant: 5, scale: 0 }));
    assert_eq!(parse_decimal(".5"), Some(Decimal { neg: false, mant: 5, scale: 1 }));
    assert_eq!(parse_decimal(""), None);
    assert_eq!(parse_decimal("."), None);
    assert_eq!(parse_decimal("1e3"), None);
    assert_eq!(parse_decimal(" 5"), None);
    assert_eq!(parse_decimal("0.1234567890123456789"), None);
}

#[test]
fn typed_attribute_literals() {
    let list = vec![
        ("count".to_string(), "42".to_string()),
        ("flag".to_string(), "true".to_string()),
        ("label".to_string(), " hello ".to_string()),
        ("empty".to_string(), String::new()),
    ];
    assert_eq!(
        parse_optional_hybrid_attribute::<AttributeU32>(&list, "count").unwrap(),
        Some(HybridAttribute::Literal(AttributeU32(42)))
    );
    assert_eq!(
        parse_optional_hybrid_attribute::<AttributeBool>(&list, "flag").unwrap(),
        Some(HybridAttribute::Literal(AttributeBool(true)))
    );
    // the literal is the trimmed text
    assert_eq!(
        parse_optional_hybrid_attribute::<AttributeString>(&list, "label").unwrap(),
        Some(HybridAttribute::Literal(AttributeString("hello".to_string())))
    );
    // an empty value counts as absent
    assert_eq!(
        parse_optional_hybrid_attribute::<AttributeU32>(&list, "empty").unwrap(),
        None
    );
    assert_eq!(
        parse_optional_hybrid_attribute::<AttributeU32>(&list, "other").unwrap(),
        None
    );
}

#[test]
fn rust_attributes_demand_the_sigil() {

    let list = vec![("ui".to_string(), "@side".to_string()), ("bad".to_string(), "side".to_string())];
    assert_eq!(parse_rust_attribute(&list, "ui").unwrap(), "side");
    assert_eq!(
        parse_rust_attribute(&list, "bad"),
        Err(CompileError::InvalidExpression { attribute: "bad".to_string() })
    );
    assert_eq!(
        parse_rust_attribute(&list, "gone"),
        Err(CompileError::MissingAttribute { attribute: "gone".to_string() })
    );
    assert_eq!(parse_optional_rust_attribute(&list, "gone").unwrap(), None);
}

#[test]
fn empty_strip_is_a_degenerate_layout() {
    let plan = compile("<Strip direction=\"north\"></Strip>").unwrap();
    assert_eq!(plan, vec![Op::BeginSubdivision { axis: Axis::Vertical, ui: None }]);
}

#[test]
fn transparent_containers_concatenate() {
    let plan = compile("<Default>a();<Grid>b();</Grid><Border>c();</Border></Default>").unwrap();
    let expected = vec![
        Op::HostCode("a();".to_string()),
        Op::HostCode("b();".to_string()),
        Op::HostCode("c();".to_string()),
    ];
    assert_eq!(plan, expected);
}
