//! Backend integration tests: the real parsing engines behind the trusted
//! boundary, driven through the public operations.

use nu_plugin_servo::commands::{
    ParseDataUrlCommand, ParseHtmlCommand, ParseMimeCommand, QueryHtmlCommand,
    QueryParseHtmlCommand, QueryXmlCommand,
};
use nu_plugin_servo::dom::NodeData;
use nu_plugin_servo::errors::Error;
use nu_plugin_servo::value::{Record, Value};
use nu_plugin_servo::{
    BlitzBackend, CarrierValue, FlagValue, HtmlBackend, NuDataFormat, ScraperBackend,
};

fn text_input(s: &str) -> CarrierValue {
    CarrierValue::Str(String::from(s))
}

fn str_val(s: &str) -> Value {
    Value::Str(String::from(s))
}

fn record(entries: Vec<(&str, Value)>) -> Value {
    Value::Record(Record {
        entries: entries
            .into_iter()
            .map(|(k, v)| (String::from(k), v))
            .collect(),
    })
}

fn rec_get<'a>(v: &'a Value, key: &str) -> &'a Value {
    match v {
        Value::Record(rec) => rec
            .entries
            .iter()
            .find(|(k, _)| k == key)
            .map(|(_, v)| v)
            .unwrap_or_else(|| panic!("no key {key}")),
        other => panic!("expected a record, got {other:?}"),
    }
}

#[test]
fn scraper_round_trip_through_real_parse() {
    let b = ScraperBackend;
    let doc = b
        .parse(&text_input(
            "<html><body><div a=\"1\" class=\"x y\" id=\"z\"></div></body></html>",
        ))
        .unwrap();
    let hits = b.css_query(&doc, "div").unwrap();
    assert_eq!(hits.len(), 1);
    let got = b.node2nu(&doc, hits[0], NuDataFormat::Html).unwrap();
    let want = record(vec![
        ("tag", str_val("div")),
        ("attributes", record(vec![("a", str_val("1"))])),
        ("id", str_val("z")),
        ("classes", Value::List(vec![str_val("x"), str_val("y")])),
        ("content", Value::List(vec![])),
    ]);
    assert_eq!(got, want);
}

#[test]
fn scraper_comments_are_dropped_not_replaced() {
    let b = ScraperBackend;
    let doc = b
        .parse(&text_input("<body><!--c--><p>x</p><!--d--></body>"))
        .unwrap();
    let hits = b.css_query(&doc, "body").unwrap();
    assert_eq!(hits.len(), 1);
    let got = b.node2nu(&doc, hits[0], NuDataFormat::Html).unwrap();
    match rec_get(&got, "content") {
        Value::List(items) => {
            assert_eq!(items.len(), 1);
            assert_eq!(rec_get(&items[0], "tag"), &str_val("p"));
        }
        other => panic!("expected a content list, got {other:?}"),
    }
}

#[test]
fn scraper_query_dedup_and_preorder() {
    let b = ScraperBackend;
    let doc = b
        .parse(&text_input("<div id=\"1\"><div id=\"2\"></div></div>"))
        .unwrap();
    let hits = b.css_query(&doc, "div").unwrap();
    assert_eq!(hits.len(), 2);
    assert!(hits[0] < hits[1]);
    let outer = b.node2nu(&doc, hits[0], NuDataFormat::Html).unwrap();
    let inner = b.node2nu(&doc, hits[1], NuDataFormat::Html).unwrap();
    assert_eq!(rec_get(&outer, "id"), &str_val("1"));
    assert_eq!(rec_get(&inner, "id"), &str_val("2"));
}

#[test]
fn scraper_inner_and_outer_html() {
    let b = ScraperBackend;
    let doc = b
        .parse(&text_input("<body><p id=\"k\">hi</p></body>"))
        .unwrap();
    let hits = b.css_query(&doc, "p").unwrap();
    let inner = b.inner_html(&doc, hits[0]).unwrap();
    assert_eq!(inner, "hi");
    let outer = b.outer_html(&doc, hits[0]).unwrap();
    assert!(outer.starts_with("<p"));
    assert!(outer.contains("hi"));
    assert!(outer.ends_with("</p>"));
}

#[test]
fn scraper_inner_html_of_text_node_is_its_content() {
    let b = ScraperBackend;
    let doc = b
        .parse(&text_input("<body><p>hi</p></body>"))
        .unwrap();
    let hits = b.css_query(&doc, "p").unwrap();
    let arena = doc.arena_doc();
    let text_idx = arena.nodes[hits[0]].children[0];
    match &arena.nodes[text_idx].data {
        NodeData::Text { content } => assert_eq!(content, "hi"),
        other => panic!("expected a text child, got {other:?}"),
    }
    let got = b.node2nu(&doc, text_idx, NuDataFormat::InnerHtml).unwrap();
    assert_eq!(got, str_val("hi"));
}

#[test]
fn scraper_rejects_bad_selector() {
    let b = ScraperBackend;
    let doc = b.parse(&text_input("<p>x</p>")).unwrap();
    match b.css_query(&doc, "[[[") {
        Err(Error::Selector(m)) => assert!(m.starts_with("Failed to parse CSS")),
        other => panic!("expected a selector failure, got {other:?}"),
    }
}

#[test]
fn scraper_accepts_binary_input() {
    let b = ScraperBackend;
    let doc = b
        .parse(&CarrierValue::Binary(b"<p>x</p>".to_vec()))
        .unwrap();
    let hits = b.css_query(&doc, "p").unwrap();
    assert_eq!(hits.len(), 1);
}

#[test]
fn scraper_rejects_other_carrier() {
    let b = ScraperBackend;
    match b.parse(&CarrierValue::Other) {
        Err(Error::CarrierType) => {}
        Err(other) => panic!("expected a carrier failure, got {other:?}"),
        Ok(_) => panic!("expected a carrier failure, got a document"),
    }
}

#[test]
fn blitz_rejects_binary_and_other_carriers() {
    let b = BlitzBackend;
    match b.parse(&CarrierValue::Binary(b"<p>x</p>".to_vec())) {
        Err(Error::CarrierType) => {}
        Err(other) => panic!("expected a carrier failure, got {other:?}"),
        Ok(_) => panic!("expected a carrier failure, got a document"),
    }
    match b.parse(&CarrierValue::Other) {
        Err(Error::CarrierType) => {}
        Err(other) => panic!("expected a carrier failure, got {other:?}"),
        Ok(_) => panic!("expected a carrier failure, got a document"),
    }
}

#[test]
fn backend_equivalence_on_shared_fixture() {
    let fixture = "<html><head></head><body><p id=\"k\" class=\"a b\" x=\"1\">hi</p></body></html>";
    let s = ScraperBackend;
    let bl = BlitzBackend;
    let sdoc = s.parse(&text_input(fixture)).unwrap();
    let bdoc = bl.parse(&text_input(fixture)).unwrap();
    let shits = s.css_query(&sdoc, "p").unwrap();
    let bhits = bl.css_query(&bdoc, "p").unwrap();
    assert_eq!(shits.len(), 1);
    assert_eq!(bhits.len(), 1);
    for fmt in [
        NuDataFormat::Html,
        NuDataFormat::Xml,
        NuDataFormat::FromXmlCompat,
    ] {
        let sv = s.node2nu(&sdoc, shits[0], fmt).unwrap();
        let bv = bl.node2nu(&bdoc, bhits[0], fmt).unwrap();
        assert_eq!(sv, bv);
    }
}

#[test]
fn parse_html_command_serializes_root() {
    let cmd = ParseHtmlCommand;
    let got = cmd
        .run(&text_input("<html><body>hi</body></html>"), None)
        .unwrap();
    assert_eq!(rec_get(&got, "tag"), &str_val("html"));
}

#[test]
fn parse_html_command_rejects_bogus_format() {
    let cmd = ParseHtmlCommand;
    let got = cmd.run(
        &text_input("<p>x</p>"),
        Some(FlagValue::Str(String::from("bogus"))),
    );
    match got {
        Err(Error::InvalidFormat(m)) => {
            assert_eq!(m, "Invalid '--format' argument - see '--help'")
        }
        other => panic!("expected an invalid-format failure, got {other:?}"),
    }
}

#[test]
fn query_html_command_returns_markup_strings() {
    let cmd = QueryHtmlCommand;
    let got = cmd
        .run(&text_input("<body><p>one</p><p>two</p></body>"), "p", true)
        .unwrap();
    assert_eq!(got, Value::List(vec![str_val("one"), str_val("two")]));
}

#[test]
fn query_parse_html_command_returns_records() {
    let cmd = QueryParseHtmlCommand;
    let got = cmd
        .run(
            &text_input("<body><p id=\"a\">x</p></body>"),
            "p",
            Some(FlagValue::Str(String::from("html"))),
        )
        .unwrap();
    match got {
        Value::List(items) => {
            assert_eq!(items.len(), 1);
            assert_eq!(rec_get(&items[0], "id"), &str_val("a"));
        }
        other => panic!("expected a list, got {other:?}"),
    }
}

#[test]
fn query_xml_command_keeps_xml_attributes() {
    let cmd = QueryXmlCommand;
    let got = cmd
        .run(
            &text_input("<root><item id=\"a\">x</item></root>"),
            "item",
            None,
        )
        .unwrap();
    match got {
        Value::List(items) => {
            assert_eq!(items.len(), 1);
            assert_eq!(
                rec_get(&items[0], "attributes"),
                &record(vec![("id", str_val("a"))])
            );
        }
        other => panic!("expected a list, got {other:?}"),
    }
}

#[test]
fn mime_command_parses_type_subtype_and_parameters() {
    let cmd = ParseMimeCommand;
    let got = cmd
        .run(&text_input("text/html; charset=utf-8"))
        .unwrap();
    let want = record(vec![
        ("type", str_val("text")),
        ("subtype", str_val("html")),
        ("parameters", record(vec![("charset", str_val("utf-8"))])),
    ]);
    assert_eq!(got, want);
}

#[test]
fn mime_command_rejects_malformed_input() {
    let cmd = ParseMimeCommand;
    match cmd.run(&text_input("not a mime")) {
        Err(Error::Parse(m)) => assert!(m.starts_with("Failed to parse mime")),
        other => panic!("expected a parse failure, got {other:?}"),
    }
    match cmd.run(&CarrierValue::Binary(vec![1, 2])) {
        Err(Error::CarrierType) => {}
        other => panic!("expected a carrier failure, got {other:?}"),
    }
}

#[test]
fn data_url_command_decodes_base64_body() {
    let cmd = ParseDataUrlCommand;
    let got = cmd
        .run(&text_input("data:text/plain;base64,SGVsbG8="))
        .unwrap();
    assert_eq!(
        rec_get(rec_get(&got, "mime"), "type"),
        &str_val("text")
    );
    assert_eq!(
        rec_get(rec_get(&got, "mime"), "subtype"),
        &str_val("plain")
    );
    assert_eq!(rec_get(&got, "body"), &Value::Binary(b"Hello".to_vec()));
    assert_eq!(rec_get(&got, "fragment"), &Value::Nothing);
}

#[test]
fn data_url_command_keeps_fragment() {
    let cmd = ParseDataUrlCommand;
    let got = cmd.run(&text_input("data:text/plain,AB#frag")).unwrap();
    assert_eq!(rec_get(&got, "body"), &Value::Binary(b"AB".to_vec()));
    assert_eq!(rec_get(&got, "fragment"), &str_val("frag"));
}

#[test]
fn data_url_command_rejects_malformed_input() {
    let cmd = ParseDataUrlCommand;
    match cmd.run(&text_input("http://not-a-data-url/")) {
        Err(Error::Parse(m)) => assert!(m.starts_with("Failed to parse data-url")),
        other => panic!("expected a parse failure, got {other:?}"),
    }
}

#[test]
fn query_xml_command_from_xml_compat_wraps_text() {
    let cmd = QueryXmlCommand;
    let got = cmd
        .run(
            &text_input("<root><item>hi</item></root>"),
            "item",
            Some(FlagValue::Str(String::from("from xml"))),
        )
        .unwrap();
    match got {
        Value::List(items) => {
            assert_eq!(items.len(), 1);
            match rec_get(&items[0], "content") {
                Value::List(children) => {
                    assert_eq!(
                        children[0],
                        record(vec![
                            ("tag", Value::Nothing),
                            ("attributes", Value::Nothing),
                            ("content", str_val("hi")),
                        ])
                    );
                }
                other => panic!("expected a content list, got {other:?}"),
            }
        }
        other => panic!("expected a list, got {other:?}"),
    }
}

#[test]
fn node2nu_outer_html_format_returns_markup_string() {
    let b = ScraperBackend;
    let doc = b.parse(&text_input("<body><p>hi</p></body>")).unwrap();
    let hits = b.css_query(&doc, "p").unwrap();
    match b.node2nu(&doc, hits[0], NuDataFormat::OuterHtml).unwrap() {
        Value::Str(s) => {
            assert!(s.starts_with("<p"));
            assert!(s.ends_with("</p>"));
        }
        other => panic!("expected a markup string, got {other:?}"),
    }
}

#[test]
fn transparent_nodes_serialize_to_empty_markup() {
    let b = ScraperBackend;
    let doc = b
        .parse(&text_input("<body><!--c--><p>x</p></body>"))
        .unwrap();
    let hits = b.css_query(&doc, "body").unwrap();
    let arena = doc.arena_doc();
    let comment_idx = arena.nodes[hits[0]].children[0];
    match &arena.nodes[comment_idx].data {
        NodeData::Comment => {}
        other => panic!("expected a comment child, got {other:?}"),
    }
    assert_eq!(b.inner_html(&doc, comment_idx).unwrap(), "");
    assert_eq!(b.outer_html(&doc, comment_idx).unwrap(), "");
}

#[test]
fn out_of_range_node_reference_is_a_lookup_failure() {
    let b = ScraperBackend;
    let doc = b.parse(&text_input("<p>x</p>")).unwrap();
    let len = doc.arena_doc().nodes.len();
    match b.inner_html(&doc, len) {
        Err(Error::NodeLookup) => {}
        other => panic!("expected a node-lookup failure, got {other:?}"),
    }
    match b.outer_html(&doc, len) {
        Err(Error::NodeLookup) => {}
        other => panic!("expected a node-lookup failure, got {other:?}"),
    }
}

#[test]
fn malformed_markup_is_recovered_not_rejected() {
    let s = ScraperBackend;
    let doc = s
        .parse(&text_input("<div><p>unclosed <b>nested<"))
        .unwrap();
    assert!(s.css_query(&doc, "p").unwrap().len() >= 1);
    let bl = BlitzBackend;
    let bdoc = bl
        .parse(&text_input("<div><p>unclosed <b>nested<"))
        .unwrap();
    assert!(bl.css_query(&bdoc, "p").unwrap().len() >= 1);
}

#[test]
fn query_with_no_match_yields_empty_list_not_error() {
    let b = ScraperBackend;
    let doc = b
        .parse(&text_input("<div id=\"1\"><div id=\"2\"></div></div>"))
        .unwrap();
    assert_eq!(b.css_query(&doc, "#nope").unwrap(), Vec::<usize>::new());
    let bl = BlitzBackend;
    let bdoc = bl
        .parse(&text_input("<div id=\"1\"><div id=\"2\"></div></div>"))
        .unwrap();
    assert_eq!(bl.css_query(&bdoc, "#nope").unwrap(), Vec::<usize>::new());
}

#[test]
fn blitz_query_returns_exactly_the_matches() {
    let bl = BlitzBackend;
    let doc = bl
        .parse(&text_input("<div id=\"1\"><p>x</p><div id=\"2\"></div></div>"))
        .unwrap();
    let hits = bl.css_query(&doc, "div").unwrap();
    assert_eq!(hits.len(), 2);
    assert!(hits[0] < hits[1]);
    for fmt_hit in &hits {
        let v = bl.node2nu(&doc, *fmt_hit, NuDataFormat::Html).unwrap();
        assert_eq!(rec_get(&v, "tag"), &str_val("div"));
    }
}
