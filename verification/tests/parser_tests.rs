use egui_xml::tree::{Node, XMLForm};
use egui_xml::attribute::parse_string;
use egui_xml::error::CompileError;

fn attrs(pairs: &[(&str, &str)]) -> Vec<(String, String)> {
    pairs.iter().map(|(k, v)| (k.to_string(), v.to_string())).collect()
}

#[test]
fn test() {
    let xml = r#"
        <Form>
            <Strip direction="south">
                <Panel size="relative" value="0.4">
                    <Strip direction="east">
                        <Panel size="exact" value="250.0">
                            if ui.button("Hi I am a button!").clicked() {println!("Button clicked!");}
                        </Panel>
                        <Panel size="remainder">
                            ui.label("Hello from XML!");
                        </Panel>
                    </Strip>
                </Panel>
                <Panel size="remainder">
                    ui.label("Hello from XML!");
                </Panel>
            </Strip>
        </Form>
        "#;

    let form = XMLForm::try_from(xml).unwrap();

    let strip = Node::Strip {
        children: vec![
            Node::Panel {
                children: vec![Node::Strip {
                    children: vec![
                        Node::Panel {
                            children: vec![Node::Rust {
                                code: "if ui.button(\"Hi I am a button!\").clicked() {println!(\"Button clicked!\");}"
                                    .to_string(),
                            }],
                            attributes: attrs(&[("size", "exact"), ("value", "250.0")]),
                        },
                        Node::Panel {
                            children: vec![Node::Rust {
                                code: "ui.label(\"Hello from XML!\");".to_string(),
                            }],
                            attributes: attrs(&[("size", "remainder")]),
                        },
                    ],
                    attributes: attrs(&[("direction", "east")]),
                }],
                attributes: attrs(&[("size", "relative"), ("value", "0.4")]),
            },
            Node::Panel {
                children: vec![Node::Rust {
                    code: "ui.label(\"Hello from XML!\");".to_string(),
                }],
                attributes: attrs(&[("size", "remainder")]),
            },
        ],
        attributes: attrs(&[("direction", "south")]),
    };

    let mut root = Node::Default {
        attributes: Vec::new(),
        children: Vec::new(),
    };
    root.add_node(strip);

    let eq_form = XMLForm { root };

    assert_eq!(form, eq_form);
}

#[test]
fn form_attributes_go_to_root() {
    let form = XMLForm::try_from("<Form theme=\"dark\"><Rust/></Form>").unwrap();
    let expected = XMLForm {
        root: Node::Default {
            attributes: attrs(&[("theme", "dark")]),
            children: vec![Node::Rust { code: String::new() }],
        },
    };
    assert_eq!(form, expected);
}

#[test]
fn self_closing_and_quotes() {
    let form = XMLForm::try_from("<Panel size='remainder' note=\"a b\"/>").unwrap();
    let expected = XMLForm {
        root: Node::Default {
            attributes: Vec::new(),
            children: vec![Node::Panel {
                attributes: attrs(&[("size", "remainder"), ("note", "a b")]),
                children: Vec::new(),
            }],
        },
    };
    assert_eq!(form, expected);
}

#[test]
fn text_runs_are_trimmed_leaves() {
    let form = XMLForm::try_from("  let a = 1;  ").unwrap();
    let expected = XMLForm {
        root: Node::Default {
            attributes: Vec::new(),
            children: vec![Node::Rust { code: "let a = 1;".to_string() }],
        },
    };
    assert_eq!(form, expected);

    let ws_only = XMLForm::try_from("   \n\t  ").unwrap();
    let empty_root = XMLForm {
        root: Node::Default { attributes: Vec::new(), children: Vec::new() },
    };
    assert_eq!(ws_only, empty_root);
}

#[test]
fn node_accessors() {
    let form = XMLForm::try_from("<Border color=\"red\">inner</Border>").unwrap();
    let border = &form.root.get_children().unwrap()[0];
    let ba = border.get_attributes().unwrap();
    assert_eq!(ba, &attrs(&[("color", "red")]));
    let inner = &border.get_children().unwrap()[0];
    assert!(inner.get_children().is_none());
    assert!(inner.get_attributes().is_none());

    let code = match inner {
        Node::Rust { code } => code.clone(),
        _ => panic!("expected a host-code leaf"),
    };
    assert_eq!(code, "inner");
}

#[test]
fn parse_string_reads_attributes() {

    let list = attrs(&[("direction", "south"), ("gap", "2")]);
    assert_eq!(parse_string(&list, "direction").unwrap(), "south");
    assert_eq!(
        parse_string(&list, "missing"),
        Err(CompileError::MissingAttribute { attribute: "missing".to_string() })
    );
    // when a name is given twice, the later entry wins
    let twice = attrs(&[("size", "exact"), ("size", "remainder")]);
    assert_eq!(parse_string(&twice, "size").unwrap(), "remainder");
}

#[test]
fn test_fmt() {
    let xml = r#"
        <Form>
            <Strip direction="south">
                <Panel size="relative" value="0.4">
                    <Strip direction="east">
                        <Panel size="exact" value="250.0">
                            if ui.button("Hi I am a button!").clicked() {println!("Button clicked!");}
                        </Panel>
                        <Panel size="remainder">
                            ui.label("Hello from XML!");
                        </Panel>
                    </Strip>
                </Panel>
                <Panel size="remainder">
                    ui.label("Hello from XML!");
                </Panel>
            </Strip>
        </Form>
        "#;

    let form = XMLForm::try_from(xml).unwrap();

    let debug_str = format!("{:?}", form)
        .replace("\n", "")
        .replace("\t", "")
        .replace(" ", "");

    println!("{:?}", debug_str);
}
