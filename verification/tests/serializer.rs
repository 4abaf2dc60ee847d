//! Model-level tests: the structured serializer on hand-built arenas, the
//! format selector, and the argument validation of the commands.

use nu_plugin_servo::commands::{ColorSchemeChoice, HtmlRenderCommand, RenderOptions};
use nu_plugin_servo::dom::{dedup_attrs, Attr, Doc, Node, NodeData, QName};
use nu_plugin_servo::errors::Error;
use nu_plugin_servo::plugin_interface::NuPluginServo;
use nu_plugin_servo::serialize::to_value;
use nu_plugin_servo::value::{Record, Value};
use nu_plugin_servo::{arena_root, format_qual_name, FlagValue, NuDataFormat};

fn qn(local: &str) -> QName {
    QName {
        prefix: None,
        local: String::from(local),
    }
}

fn attr(name: &str, value: &str) -> Attr {
    Attr {
        name: qn(name),
        value: String::from(value),
    }
}

fn element(local: &str, attrs: Vec<Attr>, children: Vec<usize>) -> Node {
    Node {
        data: NodeData::Element {
            name: qn(local),
            attrs,
        },
        children,
    }
}

fn text(content: &str) -> Node {
    Node {
        data: NodeData::Text {
            content: String::from(content),
        },
        children: vec![],
    }
}

fn str_val(s: &str) -> Value {
    Value::Str(String::from(s))
}

fn record(entries: Vec<(&str, Value)>) -> Value {
    Value::Record(Record {
        entries: entries
            .into_iter()
            .map(|(k, v)| (String::from(k), v))
            .collect(),
    })
}

#[test]
fn round_trip_shape_html() {
    let doc = Doc {
        nodes: vec![element(
            "div",
            vec![attr("a", "1"), attr("class", "x y"), attr("id", "z")],
            vec![],
        )],
    };
    let got = to_value(&doc, 0, NuDataFormat::Html).unwrap();
    let want = record(vec![
        ("tag", str_val("div")),
        ("attributes", record(vec![("a", str_val("1"))])),
        ("id", str_val("z")),
        ("classes", Value::List(vec![str_val("x"), str_val("y")])),
        ("content", Value::List(vec![])),
    ]);
    assert_eq!(got, want);
}

#[test]
fn round_trip_shape_xml() {
    let doc = Doc {
        nodes: vec![element(
            "div",
            vec![attr("a", "1"), attr("class", "x y"), attr("id", "z")],
            vec![],
        )],
    };
    let got = to_value(&doc, 0, NuDataFormat::Xml).unwrap();
    let want = record(vec![
        ("tag", str_val("div")),
        (
            "attributes",
            record(vec![
                ("a", str_val("1")),
                ("class", str_val("x y")),
                ("id", str_val("z")),
            ]),
        ),
        ("content", Value::List(vec![])),
    ]);
    assert_eq!(got, want);
}

#[test]
fn text_leaf_bare_string() {
    let doc = Doc {
        nodes: vec![text("hi")],
    };
    assert_eq!(
        to_value(&doc, 0, NuDataFormat::Html),
        Some(str_val("hi"))
    );
    assert_eq!(to_value(&doc, 0, NuDataFormat::Xml), Some(str_val("hi")));
}

#[test]
fn text_leaf_from_xml_compat() {
    let doc = Doc {
        nodes: vec![text("hi")],
    };
    let want = record(vec![
        ("tag", Value::Nothing),
        ("attributes", Value::Nothing),
        ("content", str_val("hi")),
    ]);
    assert_eq!(to_value(&doc, 0, NuDataFormat::FromXmlCompat), Some(want));
}

#[test]
fn comments_are_transparent() {
    // a root element with children: comment, <p>x</p>, comment
    let doc = Doc {
        nodes: vec![
            element("body", vec![], vec![1, 2, 3]),
            Node {
                data: NodeData::Comment,
                children: vec![],
            },
            element("p", vec![], vec![4]),
            Node {
                data: NodeData::Comment,
                children: vec![],
            },
            text("x"),
        ],
    };
    let got = to_value(&doc, 0, NuDataFormat::Html).unwrap();
    match got {
        Value::Record(rec) => {
            let content = rec
                .entries
                .iter()
                .find(|(k, _)| k == "content")
                .map(|(_, v)| v)
                .unwrap();
            match content {
                Value::List(items) => {
                    assert_eq!(items.len(), 1);
                    match &items[0] {
                        Value::Record(_) => {}
                        other => panic!("expected the surviving child to be a record, got {other:?}"),
                    }
                }
                other => panic!("expected a content list, got {other:?}"),
            }
        }
        other => panic!("expected a record, got {other:?}"),
    }
}

#[test]
fn order_preservation() {
    let doc = Doc {
        nodes: vec![
            element("body", vec![], vec![1, 2, 3]),
            text("a"),
            element("em", vec![], vec![]),
            text("b"),
        ],
    };
    let got = to_value(&doc, 0, NuDataFormat::Html).unwrap();
    let e1 = record(vec![
        ("tag", str_val("em")),
        ("attributes", record(vec![])),
        ("id", Value::Nothing),
        ("classes", Value::List(vec![])),
        ("content", Value::List(vec![])),
    ]);
    let want = record(vec![
        ("tag", str_val("body")),
        ("attributes", record(vec![])),
        ("id", Value::Nothing),
        ("classes", Value::List(vec![])),
        ("content", Value::List(vec![str_val("a"), e1, str_val("b")])),
    ]);
    assert_eq!(got, want);
}

#[test]
fn document_node_descends_into_first_child_only() {
    let doc = Doc {
        nodes: vec![
            Node {
                data: NodeData::Document,
                children: vec![1, 2],
            },
            element("html", vec![], vec![]),
            element("ignored", vec![], vec![]),
        ],
    };
    let got = to_value(&doc, 0, NuDataFormat::Html).unwrap();
    let want = record(vec![
        ("tag", str_val("html")),
        ("attributes", record(vec![])),
        ("id", Value::Nothing),
        ("classes", Value::List(vec![])),
        ("content", Value::List(vec![])),
    ]);
    assert_eq!(got, want);
}

#[test]
fn empty_document_serializes_to_none() {
    let doc = Doc {
        nodes: vec![Node {
            data: NodeData::Document,
            children: vec![],
        }],
    };
    assert_eq!(to_value(&doc, 0, NuDataFormat::Html), None);
}

#[test]
fn classes_split_on_ascii_whitespace_runs() {
    let doc = Doc {
        nodes: vec![element(
            "div",
            vec![attr("class", "  a\t b\nc  ")],
            vec![],
        )],
    };
    let got = to_value(&doc, 0, NuDataFormat::Html).unwrap();
    match got {
        Value::Record(rec) => {
            let classes = rec
                .entries
                .iter()
                .find(|(k, _)| k == "classes")
                .map(|(_, v)| v)
                .unwrap();
            assert_eq!(
                classes,
                &Value::List(vec![str_val("a"), str_val("b"), str_val("c")])
            );
        }
        other => panic!("expected a record, got {other:?}"),
    }
}

#[test]
fn classes_empty_when_class_attribute_absent() {
    let doc = Doc {
        nodes: vec![element("div", vec![attr("a", "1")], vec![])],
    };
    let got = to_value(&doc, 0, NuDataFormat::Html).unwrap();
    match got {
        Value::Record(rec) => {
            let classes = rec
                .entries
                .iter()
                .find(|(k, _)| k == "classes")
                .map(|(_, v)| v)
                .unwrap();
            assert_eq!(classes, &Value::List(vec![]));
            let id = rec
                .entries
                .iter()
                .find(|(k, _)| k == "id")
                .map(|(_, v)| v)
                .unwrap();
            assert_eq!(id, &Value::Nothing);
        }
        other => panic!("expected a record, got {other:?}"),
    }
}

#[test]
fn classes_attribute_name_is_also_excluded_under_html() {
    let doc = Doc {
        nodes: vec![element(
            "div",
            vec![attr("classes", "q"), attr("b", "2")],
            vec![],
        )],
    };
    let got = to_value(&doc, 0, NuDataFormat::Html).unwrap();
    match got {
        Value::Record(rec) => {
            let attrs = rec
                .entries
                .iter()
                .find(|(k, _)| k == "attributes")
                .map(|(_, v)| v)
                .unwrap();
            assert_eq!(attrs, &record(vec![("b", str_val("2"))]));
        }
        other => panic!("expected a record, got {other:?}"),
    }
}

#[test]
fn format_qual_name_with_and_without_prefix() {
    let plain = qn("table");
    assert_eq!(format_qual_name(&plain), "table");
    let prefixed = QName {
        prefix: Some(String::from("furn")),
        local: String::from("table"),
    };
    assert_eq!(format_qual_name(&prefixed), "furn:table");
}

#[test]
fn format_selector_recognizes_all_literals() {
    let cases = [
        ("html", NuDataFormat::Html),
        ("xml", NuDataFormat::Xml),
        ("from xml", NuDataFormat::FromXmlCompat),
        ("inner html", NuDataFormat::InnerHtml),
        ("outer html", NuDataFormat::OuterHtml),
    ];
    for (lit, want) in cases {
        let got = NuDataFormat::parse(
            Some(FlagValue::Str(String::from(lit))),
            NuDataFormat::Html,
        )
        .unwrap();
        assert_eq!(got, want);
    }
}

#[test]
fn format_selector_bogus_fails_with_invalid_format() {
    let got = NuDataFormat::parse(
        Some(FlagValue::Str(String::from("bogus"))),
        NuDataFormat::Html,
    );
    match got {
        Err(Error::InvalidFormat(m)) => assert_eq!(m, "Invalid '--format' argument"),
        other => panic!("expected an invalid-format failure, got {other:?}"),
    }
}

#[test]
fn format_selector_absent_or_null_uses_default() {
    assert_eq!(
        NuDataFormat::parse(None, NuDataFormat::Xml).unwrap(),
        NuDataFormat::Xml
    );
    assert_eq!(
        NuDataFormat::parse(Some(FlagValue::Nothing), NuDataFormat::OuterHtml).unwrap(),
        NuDataFormat::OuterHtml
    );
}

#[test]
fn arena_root_prefers_first_element_child() {
    let doc = Doc {
        nodes: vec![
            Node {
                data: NodeData::Document,
                children: vec![1, 2],
            },
            Node {
                data: NodeData::Comment,
                children: vec![],
            },
            element("html", vec![], vec![]),
        ],
    };
    assert_eq!(arena_root(&doc).unwrap(), 2);
}

#[test]
fn arena_root_fails_only_on_empty_document() {
    let empty = Doc { nodes: vec![] };
    assert!(arena_root(&empty).is_err());
    let no_element = Doc {
        nodes: vec![Node {
            data: NodeData::Document,
            children: vec![],
        }],
    };
    assert_eq!(arena_root(&no_element).unwrap(), 0);
}

#[test]
fn render_args_defaults_and_choices() {
    let cmd = HtmlRenderCommand;
    let got = cmd
        .parse_args(
            Some(FlagValue::Str(String::from("png"))),
            Some(FlagValue::Int(800)),
            None,
            Some(FlagValue::Str(String::from("dark"))),
            None,
        )
        .unwrap();
    assert_eq!(
        got,
        RenderOptions {
            width: 800,
            ppm: 5669,
            color_scheme: ColorSchemeChoice::Dark,
            base_url: None,
        }
    );
}

#[test]
fn render_args_missing_format() {
    let cmd = HtmlRenderCommand;
    match cmd.parse_args(None, None, None, None, None) {
        Err(Error::Argument(m)) => assert_eq!(m, "Missing required argument: `format`"),
        other => panic!("expected an argument failure, got {other:?}"),
    }
}

#[test]
fn render_args_rejects_unknown_colorscheme() {
    let cmd = HtmlRenderCommand;
    let got = cmd.parse_args(
        Some(FlagValue::Str(String::from("png"))),
        None,
        None,
        Some(FlagValue::Str(String::from("sepia"))),
        None,
    );
    match got {
        Err(Error::Argument(m)) => assert_eq!(m, "Invalid argument value for `--colorscheme`"),
        other => panic!("expected an argument failure, got {other:?}"),
    }
}

#[test]
fn plugin_registers_six_commands() {
    let plugin = NuPluginServo;
    let names = plugin.commands();
    assert_eq!(
        names,
        vec![
            String::from("servo html parse"),
            String::from("servo html query"),
            String::from("servo xml parse"),
            String::from("servo xml query"),
            String::from("servo data-url parse"),
            String::from("servo mime parse"),
        ]
    );
}

#[test]
fn error_messages_are_labeled() {
    assert_eq!(
        Error::CarrierType.message(),
        "Input type neither string nor binary"
    );
    assert_eq!(
        Error::Parse(String::from("Failed to parse html: x")).message(),
        "Failed to parse html: x"
    );
}

#[test]
fn format_selector_rejects_non_string_flags() {
    for bad in [FlagValue::Int(3), FlagValue::Other] {
        match NuDataFormat::parse(Some(bad), NuDataFormat::Html) {
            Err(Error::InvalidFormat(m)) => assert_eq!(m, "Invalid '--format' argument"),
            other => panic!("expected an invalid-format failure, got {other:?}"),
        }
    }
}

#[test]
fn render_args_rejects_non_integer_width() {
    let cmd = HtmlRenderCommand;
    let got = cmd.parse_args(
        Some(FlagValue::Str(String::from("png"))),
        Some(FlagValue::Str(String::from("wide"))),
        None,
        None,
        None,
    );
    match got {
        Err(Error::Argument(m)) => assert_eq!(m, "Invalid argument value for `--width`"),
        other => panic!("expected an argument failure, got {other:?}"),
    }
}

#[test]
fn dedup_attrs_keeps_first_of_each_display_name_in_order() {
    let attrs = vec![
        attr("a", "1"),
        attr("b", "2"),
        attr("a", "3"),
        attr("c", "4"),
        attr("b", "5"),
    ];
    let got = dedup_attrs(&attrs);
    assert_eq!(got, vec![attr("a", "1"), attr("b", "2"), attr("c", "4")]);
}
