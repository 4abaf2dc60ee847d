//! The decision cores of the plugin commands: flag validation, format
//! selection and dispatch to a backend, on plain values.  The hosting
//! shell's argument decoding and transport stay outside the library.

use vstd::prelude::*;
use vstd::string::StringExecFns;

use crate::dom::{root_of, SpecNodeData};
use crate::errors::Error;
use crate::serialize::{node_val, opt_or_nothing};
use crate::text::str_eq;
use crate::value::{value_view, Record, SpecValue, Value};
use crate::{carrier_bytes, CarrierValue, FlagValue, HtmlBackend, NuDataFormat, ScraperBackend, ScraperDoc};

verus! {

/// The format a document-parsing command accepts: one of the three
/// structured formats by literal, `html` when the flag is absent or null,
/// and nothing for any other flag.
pub open spec fn chosen_doc_format(arg: Option<FlagValue>) -> Option<NuDataFormat> {
    match arg {
        Some(FlagValue::Str(s)) => if s@ == "html"@ {
            Some(NuDataFormat::Html)
        } else if s@ == "xml"@ {
            Some(NuDataFormat::Xml)
        } else if s@ == "from xml"@ {
            Some(NuDataFormat::FromXmlCompat)
        } else {
            None
        },
        Some(FlagValue::Nothing) | None => Some(NuDataFormat::Html),
        _ => None,
    }
}

/// Resolve the `--format` flag of a document-parsing command.
fn doc_format(arg: Option<FlagValue>) -> (r: Result<NuDataFormat, Error>)
    ensures
        match chosen_doc_format(arg) {
            Some(f) => r == Ok::<NuDataFormat, Error>(f),
            None => r matches Err(Error::InvalidFormat(m)) && m@
                == "Invalid '--format' argument - see '--help'"@,
        },
{
    match arg {
        Some(FlagValue::Str(s)) => {
            if str_eq(s.as_str(), "html") {
                Ok(NuDataFormat::Html)
            } else if str_eq(s.as_str(), "xml") {
                Ok(NuDataFormat::Xml)
            } else if str_eq(s.as_str(), "from xml") {
                Ok(NuDataFormat::FromXmlCompat)
            } else {
                Err(
                    Error::InvalidFormat(
                        String::from_str("Invalid '--format' argument - see '--help'"),
                    ),
                )
            }
        },
        Some(FlagValue::Nothing) | None => Ok(NuDataFormat::Html),
        _ => Err(
            Error::InvalidFormat(String::from_str("Invalid '--format' argument - see '--help'")),
        ),
    }
}

/// A witness that a value is the serialization, under one format, of the
/// conceptual root element of a document the lightweight engine parsed
/// from one payload, with the XML or the HTML driver.
pub open spec fn root_value_of(input: CarrierValue, xml: bool, fmt: NuDataFormat, v: Value) -> bool {
    exists|d: ScraperDoc|
        #![trigger d.arena_view()]
        {
            &&& d.wf()
            &&& (carrier_bytes(input) matches Some(bs) && (if xml {
                d.from_xml_input(bs)
            } else {
                d.from_html_input(bs)
            }))
            &&& (root_of(d.arena_view()) matches Some(n) && value_view(v) == opt_or_nothing(
                node_val(d.arena_view(), n, fmt),
            ))
        }
}

/// The markup string a query entry holds for one node: the engine's inner
/// or outer serialization for an element, the raw content for text, and
/// the empty string for the container and the transparent kinds.
pub open spec fn scraper_markup(d: ScraperDoc, n: int, inner: bool) -> Seq<char> {
    match d.arena_view()[n].data {
        SpecNodeData::Text { content } => content,
        SpecNodeData::Element { .. } => if inner {
            d.inner_markup(n)
        } else {
            d.outer_markup(n)
        },
        _ => Seq::empty(),
    }
}

/// A witness that a value is the markup string of the conceptual root
/// element of a document the lightweight engine parsed from one payload.
pub open spec fn root_markup_of(input: CarrierValue, xml: bool, inner: bool, v: Value) -> bool {
    exists|d: ScraperDoc|
        #![trigger d.arena_view()]
        {
            &&& d.wf()
            &&& (carrier_bytes(input) matches Some(bs) && (if xml {
                d.from_xml_input(bs)
            } else {
                d.from_html_input(bs)
            }))
            &&& (root_of(d.arena_view()) matches Some(n) && (v matches Value::Str(s) && s@
                == scraper_markup(d, n, inner)))
        }
}

/// A witness that a list holds, for exactly the nodes matching a selector
/// in a document the lightweight engine parsed from one payload, each
/// node's markup string, in document pre-order.
pub open spec fn query_markup_of(
    input: CarrierValue,
    xml: bool,
    selector: Seq<char>,
    inner: bool,
    items: Seq<Value>,
) -> bool {
    exists|d: ScraperDoc, hits: Seq<usize>|
        #![trigger d.arena_view(), hits.len()]
        {
            &&& d.wf()
            &&& (carrier_bytes(input) matches Some(bs) && (if xml {
                d.from_xml_input(bs)
            } else {
                d.from_html_input(bs)
            }))
            &&& crate::strictly_increasing(hits.map_values(|n: usize| n as int))
            &&& forall|n: int|
                0 <= n < d.arena_view().len() ==> ((#[trigger] hits.contains(n as usize))
                    <==> d.node_selected(selector, n))
            &&& forall|k: int| 0 <= k < hits.len() ==> (#[trigger] hits[k]) < d.arena_view().len()
            &&& items.len() == hits.len()
            &&& forall|k: int|
                0 <= k < hits.len() ==> ((#[trigger] items[k]) matches Value::Str(s) && s@
                    == scraper_markup(d, hits[k] as int, inner))
        }
}

/// A witness that a list holds, for exactly the nodes matching a selector
/// in a document the lightweight engine parsed from one payload, each
/// node's structured serialization, in document pre-order, all under one
/// format.
pub open spec fn query_values_of(
    input: CarrierValue,
    xml: bool,
    selector: Seq<char>,
    fmt: NuDataFormat,
    items: Seq<Value>,
) -> bool {
    exists|d: ScraperDoc, hits: Seq<usize>|
        #![trigger d.arena_view(), hits.len()]
        {
            &&& d.wf()
            &&& (carrier_bytes(input) matches Some(bs) && (if xml {
                d.from_xml_input(bs)
            } else {
                d.from_html_input(bs)
            }))
            &&& crate::strictly_increasing(hits.map_values(|n: usize| n as int))
            &&& forall|n: int|
                0 <= n < d.arena_view().len() ==> ((#[trigger] hits.contains(n as usize))
                    <==> d.node_selected(selector, n))
            &&& forall|k: int| 0 <= k < hits.len() ==> (#[trigger] hits[k]) < d.arena_view().len()
            &&& items.len() == hits.len()
            &&& forall|k: int|
                0 <= k < hits.len() ==> value_view(#[trigger] items[k]) == opt_or_nothing(
                    node_val(d.arena_view(), hits[k] as int, fmt),
                )
        }
}

/// Parse a whole document and serialize its conceptual root element under
/// the chosen structured format.
pub struct ParseHtmlCommand;

impl ParseHtmlCommand {
    /// The name this command is registered under.
    pub fn name(&self) -> (r: String)
        ensures
            r@ == "servo html parse"@,
    {
        String::from_str("servo html parse")
    }

    /// Validate the format flag, parse the input, and serialize from the
    /// document's root element.  With a usable format and carrier, only
    /// the parser's fail-closed size bound can fail.
    pub fn run(&self, input: &CarrierValue, format: Option<FlagValue>) -> (r: Result<Value, Error>)
        ensures
            chosen_doc_format(format) is None ==> (r matches Err(Error::InvalidFormat(m)) && m@
                == "Invalid '--format' argument - see '--help'"@),
            chosen_doc_format(format) is Some ==> (input matches CarrierValue::Other ==> r matches
                Err(Error::CarrierType)),
            chosen_doc_format(format) is Some && !(input matches CarrierValue::Other) ==> (r is Ok
                || (r matches Err(Error::Parse(m)) && m@ == "Failed to parse html: too many nodes"@)),
            chosen_doc_format(format) matches Some(f) ==> (r matches Ok(v) ==> root_value_of(
                *input,
                false,
                f,
                v,
            )),
    {
        let fmt = match doc_format(format) {
            Ok(f) => f,
            Err(e) => {
                return Err(e);
            },
        };
        proof {
            assert(crate::serialize::structured_format(fmt));
        }
        let b = ScraperBackend;
        let doc = match b.parse(input) {
            Ok(d) => d,
            Err(e) => {
                return Err(e);
            },
        };
        proof {
            ScraperBackend::inv_wf(&doc);
        }
        let root = match b.get_root_node(&doc) {
            Ok(n) => n,
            Err(e) => {
                // unreachable: a parsed document always holds its root
                proof {
                    assert(false);
                }
                return Err(e);
            },
        };
        let out = b.node2nu(&doc, root, fmt);
        proof {
            match out {
                Ok(ref v) => {
                    assert(doc.arena_view() == doc.arena_view());
                    assert(root_value_of(*input, false, fmt, *v));
                },
                Err(_) => {},
            }
        }
        out
    }
}

/// Query a document with a CSS selector and hand back the matched nodes'
/// own markup, inner or outer.
pub struct QueryHtmlCommand;

impl QueryHtmlCommand {
    /// The name this command is registered under.
    pub fn name(&self) -> (r: String)
        ensures
            r@ == "servo html query"@,
    {
        String::from_str("servo html query")
    }

    /// Parse the input, query it, and serialize each match to its markup:
    /// the inner markup when `target_inner` is set, the outer otherwise.
    /// With a usable carrier and a compiling selector, only the parser's
    /// fail-closed size bound can fail.
    pub fn run(&self, input: &CarrierValue, css_selector: &str, target_inner: bool) -> (r: Result<
        Value,
        Error,
    >)
        ensures
            input matches CarrierValue::Other ==> r matches Err(Error::CarrierType),
            r matches Ok(v) ==> v is List,
            !(input matches CarrierValue::Other) && crate::css_ok(css_selector@) ==> (r is Ok || (
            r matches Err(Error::Parse(m)) && m@ == "Failed to parse html: too many nodes"@)),
            !(input matches CarrierValue::Other) && !crate::css_ok(css_selector@) ==> (r matches
                Err(Error::Selector(_)) || (r matches Err(Error::Parse(m)) && m@
                == "Failed to parse html: too many nodes"@)),
            r matches Ok(v) ==> (v matches Value::List(items) ==> query_markup_of(
                *input,
                false,
                css_selector@,
                target_inner,
                items@,
            )),
    {
        let b = ScraperBackend;
        let doc = match b.parse(input) {
            Ok(d) => d,
            Err(e) => {
                return Err(e);
            },
        };
        let nodes = match b.css_query(&doc, css_selector) {
            Ok(v) => v,
            Err(e) => {
                return Err(e);
            },
        };
        proof {
            assert forall|n: int| 0 <= n < doc.arena_view().len() implies ((
            #[trigger] nodes@.contains(n as usize)) <==> doc.node_selected(css_selector@, n)) by {
                assert(ScraperBackend::selected(&doc, css_selector@, n) == doc.node_selected(
                    css_selector@,
                    n,
                ));
            }
        }
        let mut out: Vec<Value> = Vec::new();
        let mut i: usize = 0;
        while i < nodes.len()
            invariant
                doc.wf(),
                ScraperBackend::from_source(&doc, *input),
                !(input matches CarrierValue::Other),
                crate::css_ok(css_selector@),
                crate::strictly_increasing(nodes@.map_values(|n: usize| n as int)),
                forall|n: int|
                    0 <= n < doc.arena_view().len() ==> ((#[trigger] nodes@.contains(n as usize))
                        <==> doc.node_selected(css_selector@, n)),
                forall|k: int|
                    0 <= k < nodes@.len() ==> (#[trigger] nodes@[k]) < doc.arena_view().len(),
                i <= nodes@.len(),
                out@.len() == i,
                forall|k: int|
                    0 <= k < i ==> ((#[trigger] out@[k]) matches Value::Str(s) && s@
                        == scraper_markup(doc, nodes@[k] as int, target_inner)),
            decreases nodes@.len() - i,
        {
            let s = if target_inner {
                b.inner_html(&doc, nodes[i])
            } else {
                b.outer_html(&doc, nodes[i])
            };
            match s {
                Ok(s) => {
                    proof {
                        assert(s@ == scraper_markup(doc, nodes@[i as int] as int, target_inner));
                    }
                    out.push(Value::Str(s));
                },
                Err(e) => {
                    // unreachable: serialization succeeds on live nodes
                    proof {
                        assert(false);
                    }
                    return Err(e);
                },
            }
            i = i + 1;
        }
        proof {
            assert(doc.arena_view() == doc.arena_view());
            assert(nodes@.len() == nodes@.len());
            assert(query_markup_of(*input, false, css_selector@, target_inner, out@));
        }
        Ok(Value::List(out))
    }
}

/// Query a document with a CSS selector and serialize each matched node
/// under the chosen structured format.
pub struct QueryParseHtmlCommand;

impl QueryParseHtmlCommand {
    /// The name this command is registered under.
    pub fn name(&self) -> (r: String)
        ensures
            r@ == "servo html query_parse"@,
    {
        String::from_str("servo html query_parse")
    }

    /// Validate the format flag, parse the input, query it, and serialize
    /// each match under the chosen format.
    pub fn run(
        &self,
        input: &CarrierValue,
        css_selector: &str,
        format: Option<FlagValue>,
    ) -> (r: Result<Value, Error>)
        ensures
            chosen_doc_format(format) is None ==> (r matches Err(Error::InvalidFormat(m)) && m@
                == "Invalid '--format' argument - see '--help'"@),
            chosen_doc_format(format) is Some ==> (input matches CarrierValue::Other ==> r matches
                Err(Error::CarrierType)),
            r matches Ok(v) ==> v is List,
            chosen_doc_format(format) is Some && !(input matches CarrierValue::Other)
                && crate::css_ok(css_selector@) ==> (r is Ok || (r matches Err(Error::Parse(m))
                && m@ == "Failed to parse html: too many nodes"@)),
            chosen_doc_format(format) is Some && !(input matches CarrierValue::Other)
                && !crate::css_ok(css_selector@) ==> (r matches Err(Error::Selector(_)) || (
            r matches Err(Error::Parse(m)) && m@ == "Failed to parse html: too many nodes"@)),
            chosen_doc_format(format) matches Some(f) ==> (r matches Ok(v) ==> (v matches
                Value::List(items) ==> query_values_of(*input, false, css_selector@, f, items@))),
    {
        let ghost gformat = format;
        let fmt = match doc_format(format) {
            Ok(f) => f,
            Err(e) => {
                return Err(e);
            },
        };
        proof {
            assert(crate::serialize::structured_format(fmt));
        }
        let b = ScraperBackend;
        let doc = match b.parse(input) {
            Ok(d) => d,
            Err(e) => {
                return Err(e);
            },
        };
        let nodes = match b.css_query(&doc, css_selector) {
            Ok(v) => v,
            Err(e) => {
                return Err(e);
            },
        };
        proof {
            assert forall|n: int| 0 <= n < doc.arena_view().len() implies ((
            #[trigger] nodes@.contains(n as usize)) <==> doc.node_selected(css_selector@, n)) by {
                assert(ScraperBackend::selected(&doc, css_selector@, n) == doc.node_selected(
                    css_selector@,
                    n,
                ));
            }
        }
        let mut out: Vec<Value> = Vec::new();
        let mut i: usize = 0;
        while i < nodes.len()
            invariant
                doc.wf(),
                ScraperBackend::from_source(&doc, *input),
                gformat == format,
                chosen_doc_format(gformat) is Some,
                !(input matches CarrierValue::Other),
                crate::serialize::structured_format(fmt),
                crate::strictly_increasing(nodes@.map_values(|n: usize| n as int)),
                forall|n: int|
                    0 <= n < doc.arena_view().len() ==> ((#[trigger] nodes@.contains(n as usize))
                        <==> doc.node_selected(css_selector@, n)),
                forall|k: int|
                    0 <= k < nodes@.len() ==> (#[trigger] nodes@[k]) < doc.arena_view().len(),
                i <= nodes@.len(),
                out@.len() == i,
                forall|k: int|
                    0 <= k < i ==> value_view(#[trigger] out@[k]) == opt_or_nothing(
                        node_val(doc.arena_view(), nodes@[k] as int, fmt),
                    ),
            decreases nodes@.len() - i,
        {
            match b.node2nu(&doc, nodes[i], fmt) {
                Ok(v) => out.push(v),
                Err(e) => {
                    // unreachable: serialization succeeds on live nodes
                    proof {
                        assert(false);
                    }
                    return Err(e);
                },
            }
            i = i + 1;
        }
        proof {
            assert(doc.arena_view() == doc.arena_view());
            assert(nodes@.len() == nodes@.len());
            assert(query_values_of(*input, false, css_selector@, fmt, out@));
        }
        Ok(Value::List(out))
    }
}

/// Parse a whole XML document and serialize its conceptual root element.
pub struct ParseXmlCommand;

impl ParseXmlCommand {
    /// The name this command is registered under.
    pub fn name(&self) -> (r: String)
        ensures
            r@ == "servo xml parse"@,
    {
        String::from_str("servo xml parse")
    }

    /// Validate the format flag (defaulting to `xml`), parse the input as
    /// XML, and serialize from the document's root element.  With a usable
    /// format and carrier, only the parser's fail-closed size bound can
    /// fail.
    pub fn run(&self, input: &CarrierValue, format: Option<FlagValue>) -> (r: Result<Value, Error>)
        ensures
            NuDataFormat::chosen(format, NuDataFormat::Xml) is None ==> (r matches Err(
                Error::InvalidFormat(m),
            ) && m@ == "Invalid '--format' argument"@),
            NuDataFormat::chosen(format, NuDataFormat::Xml) is Some ==> (input matches
                CarrierValue::Other ==> r matches Err(Error::CarrierType)),
            NuDataFormat::chosen(format, NuDataFormat::Xml) is Some && !(input matches
                CarrierValue::Other) ==> (r is Ok || (r matches Err(Error::Parse(m)) && m@
                == "Failed to parse html: too many nodes"@)),
            NuDataFormat::chosen(format, NuDataFormat::Xml) matches Some(f) ==> (
            crate::serialize::structured_format(f) ==> (r matches Ok(v) ==> root_value_of(
                *input,
                true,
                f,
                v,
            ))),
            NuDataFormat::chosen(format, NuDataFormat::Xml) matches Some(f) ==> ((f
                == NuDataFormat::InnerHtml || f == NuDataFormat::OuterHtml) ==> (r matches Ok(v)
                ==> root_markup_of(*input, true, f == NuDataFormat::InnerHtml, v))),
    {
        let fmt = match NuDataFormat::parse(format, NuDataFormat::Xml) {
            Ok(f) => f,
            Err(e) => {
                return Err(e);
            },
        };
        let b = ScraperBackend;
        let doc = match b.parse_xml(input) {
            Ok(d) => d,
            Err(e) => {
                return Err(e);
            },
        };
        proof {
            ScraperBackend::inv_wf(&doc);
        }
        let root = match b.get_root_node(&doc) {
            Ok(n) => n,
            Err(e) => {
                proof {
                    assert(false);
                }
                return Err(e);
            },
        };
        proof {
            crate::dom::lemma_root_in_range(doc.arena_view());
            assert(crate::serialize::structured_format(fmt) || fmt == NuDataFormat::InnerHtml
                || fmt == NuDataFormat::OuterHtml);
        }
        let out = b.node2nu(&doc, root, fmt);
        proof {
            match out {
                Ok(ref v) => {
                    assert(doc.arena_view() == doc.arena_view());
                    if crate::serialize::structured_format(fmt) {
                        assert(root_value_of(*input, true, fmt, *v));
                    } else {
                        assert(*v matches Value::Str(s) && s@ == scraper_markup(
                            doc,
                            root as int,
                            fmt == NuDataFormat::InnerHtml,
                        ));
                        assert(root_markup_of(
                            *input,
                            true,
                            fmt == NuDataFormat::InnerHtml,
                            *v,
                        ));
                    }
                },
                Err(_) => {},
            }
        }
        out
    }
}

/// Query an XML document with a CSS selector and serialize each matched
/// node under the chosen format.
pub struct QueryXmlCommand;

impl QueryXmlCommand {
    /// The name this command is registered under.
    pub fn name(&self) -> (r: String)
        ensures
            r@ == "servo xml query"@,
    {
        String::from_str("servo xml query")
    }

    /// Validate the format flag (defaulting to `xml`), parse the input as
    /// XML, query it, and serialize each match.
    pub fn run(
        &self,
        input: &CarrierValue,
        css_selector: &str,
        format: Option<FlagValue>,
    ) -> (r: Result<Value, Error>)
        ensures
            NuDataFormat::chosen(format, NuDataFormat::Xml) is None ==> (r matches Err(
                Error::InvalidFormat(m),
            ) && m@ == "Invalid '--format' argument"@),
            NuDataFormat::chosen(format, NuDataFormat::Xml) is Some ==> (input matches
                CarrierValue::Other ==> r matches Err(Error::CarrierType)),
            r matches Ok(v) ==> v is List,
            NuDataFormat::chosen(format, NuDataFormat::Xml) is Some && !(input matches
                CarrierValue::Other) && crate::css_ok(css_selector@) ==> (r is Ok || (r matches
                Err(Error::Parse(m)) && m@ == "Failed to parse html: too many nodes"@)),
            NuDataFormat::chosen(format, NuDataFormat::Xml) is Some && !(input matches
                CarrierValue::Other) && !crate::css_ok(css_selector@) ==> (r matches Err(
                Error::Selector(_),
            ) || (r matches Err(Error::Parse(m)) && m@
                == "Failed to parse html: too many nodes"@)),
            NuDataFormat::chosen(format, NuDataFormat::Xml) matches Some(f) ==> (
            crate::serialize::structured_format(f) ==> (r matches Ok(v) ==> (v matches
                Value::List(items) ==> query_values_of(*input, true, css_selector@, f, items@)))),
            NuDataFormat::chosen(format, NuDataFormat::Xml) matches Some(f) ==> ((f
                == NuDataFormat::InnerHtml || f == NuDataFormat::OuterHtml) ==> (r matches Ok(v)
                ==> (v matches Value::List(items) ==> query_markup_of(
                *input,
                true,
                css_selector@,
                f == NuDataFormat::InnerHtml,
                items@,
            )))),
    {
        let ghost gformat = format;
        let fmt = match NuDataFormat::parse(format, NuDataFormat::Xml) {
            Ok(f) => f,
            Err(e) => {
                return Err(e);
            },
        };
        let b = ScraperBackend;
        let doc = match b.parse_xml(input) {
            Ok(d) => d,
            Err(e) => {
                return Err(e);
            },
        };
        let nodes = match b.css_query(&doc, css_selector) {
            Ok(v) => v,
            Err(e) => {
                return Err(e);
            },
        };
        proof {
            assert forall|n: int| 0 <= n < doc.arena_view().len() implies ((
            #[trigger] nodes@.contains(n as usize)) <==> doc.node_selected(css_selector@, n)) by {
                assert(ScraperBackend::selected(&doc, css_selector@, n) == doc.node_selected(
                    css_selector@,
                    n,
                ));
            }
        }
        let mut out: Vec<Value> = Vec::new();
        let mut i: usize = 0;
        while i < nodes.len()
            invariant
                doc.wf(),
                carrier_bytes(*input) matches Some(bs) && doc.from_xml_input(bs),
                gformat == format,
                NuDataFormat::chosen(gformat, NuDataFormat::Xml) is Some,
                !(input matches CarrierValue::Other),
                crate::strictly_increasing(nodes@.map_values(|n: usize| n as int)),
                forall|n: int|
                    0 <= n < doc.arena_view().len() ==> ((#[trigger] nodes@.contains(n as usize))
                        <==> doc.node_selected(css_selector@, n)),
                forall|k: int|
                    0 <= k < nodes@.len() ==> (#[trigger] nodes@[k]) < doc.arena_view().len(),
                i <= nodes@.len(),
                out@.len() == i,
                crate::serialize::structured_format(fmt) ==> forall|k: int|
                    0 <= k < i ==> value_view(#[trigger] out@[k]) == opt_or_nothing(
                        node_val(doc.arena_view(), nodes@[k] as int, fmt),
                    ),
                !crate::serialize::structured_format(fmt) ==> forall|k: int|
                    0 <= k < i ==> ((#[trigger] out@[k]) matches Value::Str(s) && s@
                        == scraper_markup(doc, nodes@[k] as int, fmt == NuDataFormat::InnerHtml)),
            decreases nodes@.len() - i,
        {
            proof {
                assert(crate::serialize::structured_format(fmt) || fmt == NuDataFormat::InnerHtml
                    || fmt == NuDataFormat::OuterHtml);
            }
            match b.node2nu(&doc, nodes[i], fmt) {
                Ok(v) => {
                    proof {
                        if !crate::serialize::structured_format(fmt) {
                            assert(v matches Value::Str(s) && s@ == scraper_markup(
                                doc,
                                nodes@[i as int] as int,
                                fmt == NuDataFormat::InnerHtml,
                            ));
                        }
                    }
                    out.push(v);
                },
                Err(e) => {
                    // unreachable: serialization succeeds on live nodes
                    proof {
                        assert(false);
                    }
                    return Err(e);
                },
            }
            i = i + 1;
        }
        proof {
            assert(doc.arena_view() == doc.arena_view());
            assert(nodes@.len() == nodes@.len());
            if crate::serialize::structured_format(fmt) {
                assert(query_values_of(*input, true, css_selector@, fmt, out@));
            } else {
                assert(query_markup_of(
                    *input,
                    true,
                    css_selector@,
                    fmt == NuDataFormat::InnerHtml,
                    out@,
                ));
            }
        }
        Ok(Value::List(out))
    }
}

/// How a rendered page resolves its colors.
#[derive(Copy, Clone, Debug, PartialEq, Eq, Structural)]
pub enum ColorSchemeChoice {
    Light,
    Dark,
}

/// The validated arguments of a render call that can be decided on plain
/// values; the floating-point scale flag is resolved by the caller.
#[derive(Debug, PartialEq)]
pub struct RenderOptions {
    pub width: u32,
    pub ppm: u32,
    pub color_scheme: ColorSchemeChoice,
    pub base_url: Option<String>,
}

/// Whether the required positional format argument names the one supported
/// image format.
pub open spec fn render_format_ok(arg: Option<FlagValue>) -> bool {
    arg matches Some(FlagValue::Str(s)) && s@ == "png"@
}

/// Whether an integer flag is usable: an integer or absent.
pub open spec fn int_flag_ok(arg: Option<FlagValue>) -> bool {
    match arg {
        Some(FlagValue::Int(_)) | None => true,
        _ => false,
    }
}

/// The color scheme a `--colorscheme` flag selects, if any; absent selects
/// the light scheme.
pub open spec fn scheme_of(arg: Option<FlagValue>) -> Option<ColorSchemeChoice> {
    match arg {
        Some(FlagValue::Str(s)) => if s@ == "light"@ {
            Some(ColorSchemeChoice::Light)
        } else if s@ == "dark"@ {
            Some(ColorSchemeChoice::Dark)
        } else {
            None
        },
        None => Some(ColorSchemeChoice::Light),
        _ => None,
    }
}

/// The base URL a `--baseurl` flag selects, if the flag is usable.
pub open spec fn baseurl_of(arg: Option<FlagValue>) -> Option<Option<Seq<char>>> {
    match arg {
        Some(FlagValue::Str(s)) => Some(Some(s@)),
        None => Some(None),
        _ => None,
    }
}

/// Render a parsed page to an image.  The library decides the argument
/// validation; layout and painting are the rendering pipeline's.
pub struct HtmlRenderCommand;

impl HtmlRenderCommand {
    /// The name this command is registered under.
    pub fn name(&self) -> (r: String)
        ensures
            r@ == "servo html render_as"@,
    {
        String::from_str("servo html render_as")
    }

    /// Validate the render arguments in their declaration order, supplying
    /// the documented defaults.
    pub fn parse_args(
        &self,
        format: Option<FlagValue>,
        width: Option<FlagValue>,
        ppm: Option<FlagValue>,
        colorscheme: Option<FlagValue>,
        baseurl: Option<FlagValue>,
    ) -> (r: Result<RenderOptions, Error>)
        ensures
            format is None ==> (r matches Err(Error::Argument(m)) && m@
                == "Missing required argument: `format`"@),
            format is Some && !render_format_ok(format) ==> (r matches Err(Error::Argument(m))
                && m@ == "Invalid argument value for `format`"@),
            render_format_ok(format) && !int_flag_ok(width) ==> (r matches Err(Error::Argument(m))
                && m@ == "Invalid argument value for `--width`"@),
            render_format_ok(format) && int_flag_ok(width) && !int_flag_ok(ppm) ==> (r matches Err(
                Error::Argument(m),
            ) && m@ == "Invalid argument value for `--ppm`"@),
            render_format_ok(format) && int_flag_ok(width) && int_flag_ok(ppm) && scheme_of(
                colorscheme,
            ) is None ==> (r matches Err(Error::Argument(m)) && m@
                == "Invalid argument value for `--colorscheme`"@),
            render_format_ok(format) && int_flag_ok(width) && int_flag_ok(ppm) && scheme_of(
                colorscheme,
            ) is Some && baseurl_of(baseurl) is None ==> (r matches Err(Error::Argument(m)) && m@
                == "Invalid argument value for `--baseurl`"@),
            render_format_ok(format) && int_flag_ok(width) && int_flag_ok(ppm) && scheme_of(
                colorscheme,
            ) is Some && baseurl_of(baseurl) is Some ==> (r matches Ok(o) && (match width {
                Some(FlagValue::Int(w)) => 0 <= w <= u32::MAX ==> o.width == w as u32,
                _ => o.width == 1200,
            }) && (match ppm {
                Some(FlagValue::Int(v)) => 0 <= v <= u32::MAX ==> o.ppm == v as u32,
                _ => o.ppm == 5669,
            }) && Some(o.color_scheme) == scheme_of(colorscheme) && (match o.base_url {
                Some(u) => baseurl_of(baseurl) == Some(Some(u@)),
                None => baseurl_of(baseurl) == Some(None::<Seq<char>>),
            })),
    {
        let fmt_s = match format {
            Some(FlagValue::Str(s)) => s,
            None => {
                return Err(Error::Argument(String::from_str("Missing required argument: `format`")));
            },
            _ => {
                return Err(Error::Argument(String::from_str("Invalid argument value for `format`")));
            },
        };
        if !str_eq(fmt_s.as_str(), "png") {
            return Err(Error::Argument(String::from_str("Invalid argument value for `format`")));
        }
        let width_v: u32 = match width {
            Some(FlagValue::Int(w)) => #[verifier::truncate] (w as u32),
            None => 1200,
            _ => {
                return Err(
                    Error::Argument(String::from_str("Invalid argument value for `--width`")),
                );
            },
        };
        // the default density: 144 dots per inch expressed in pixels per metre
        let ppm_v: u32 = match ppm {
            Some(FlagValue::Int(v)) => #[verifier::truncate] (v as u32),
            None => 5669,
            _ => {
                return Err(Error::Argument(String::from_str("Invalid argument value for `--ppm`")));
            },
        };
        let scheme = match colorscheme {
            Some(FlagValue::Str(s)) => {
                if str_eq(s.as_str(), "light") {
                    ColorSchemeChoice::Light
                } else if str_eq(s.as_str(), "dark") {
                    ColorSchemeChoice::Dark
                } else {
                    return Err(
                        Error::Argument(
                            String::from_str("Invalid argument value for `--colorscheme`"),
                        ),
                    );
                }
            },
            None => ColorSchemeChoice::Light,
            _ => {
                return Err(
                    Error::Argument(String::from_str("Invalid argument value for `--colorscheme`")),
                );
            },
        };
        let burl = match baseurl {
            Some(FlagValue::Str(s)) => Some(s),
            None => None,
            _ => {
                return Err(
                    Error::Argument(String::from_str("Invalid argument value for `--baseurl`")),
                );
            },
        };
        Ok(RenderOptions { width: width_v, ppm: ppm_v, color_scheme: scheme, base_url: burl })
    }
}

/// One parsed MIME type as plain values: its type, subtype, and parameters
/// in source order.
pub struct MimeParts {
    pub type_: String,
    pub subtype: String,
    pub params: Vec<(String, String)>,
}

/// The mathematical shape of a [`MimeParts`].
pub struct SpecMimeParts {
    pub type_: Seq<char>,
    pub subtype: Seq<char>,
    pub params: Seq<(Seq<char>, Seq<char>)>,
}

impl View for MimeParts {
    type V = SpecMimeParts;

    open spec fn view(&self) -> SpecMimeParts {
        SpecMimeParts {
            type_: self.type_@,
            subtype: self.subtype@,
            params: self.params@.map_values(|p: (String, String)| (p.0@, p.1@)),
        }
    }
}

/// Relies on `mime::Mime::from_str` and its accessors `type_`, `subtype`
/// and `params`: the parts of a parsed MIME type, copied into plain
/// strings.
#[verifier::external_body]
fn mime_parse(s: &str) -> (r: Result<MimeParts, String>) {
    match <mime::Mime as core::str::FromStr>::from_str(s) {
        Ok(m) => Ok(
            MimeParts {
                type_: m.type_().to_string(),
                subtype: m.subtype().to_string(),
                params: m.params().map(|(k, v)| (k.to_string(), v.to_string())).collect(),
            },
        ),
        Err(err) => Err(format!("Failed to parse mime: {err}")),
    }
}

/// The record entries of the first `k` parameters: each name mapped to its
/// value, in source order.
pub open spec fn param_entries(ps: Seq<(Seq<char>, Seq<char>)>, k: int) -> Seq<
    (Seq<char>, SpecValue),
>
    decreases k,
{
    if k <= 0 || k > ps.len() {
        Seq::empty()
    } else {
        param_entries(ps, k - 1).push((ps[k - 1].0, SpecValue::Str(ps[k - 1].1)))
    }
}

/// The generic value of one parsed MIME type: a record of its type,
/// subtype, and parameter record, in that key order.
pub open spec fn mime_value(p: SpecMimeParts) -> SpecValue {
    SpecValue::Record(
        seq![
            ("type"@, SpecValue::Str(p.type_)),
            ("subtype"@, SpecValue::Str(p.subtype)),
            ("parameters"@, SpecValue::Record(param_entries(p.params, p.params.len() as int))),
        ],
    )
}

/// Build the generic value of one parsed MIME type.
pub fn mime_parts_to_value(parts: &MimeParts) -> (r: Value)
    ensures
        value_view(r) == mime_value(parts@),
{
    let mut ps = Record::new();
    let mut i: usize = 0;
    while i < parts.params.len()
        invariant
            i <= parts.params@.len(),
            ps@ == param_entries(parts@.params, i as int),
        decreases parts.params@.len() - i,
    {
        proof {
            assert(parts@.params[i as int] == (parts.params@[i as int].0@, parts.params@[i as int].1@));
        }
        ps.push(parts.params[i].0.clone(), Value::Str(parts.params[i].1.clone()));
        i = i + 1;
    }
    let mut rec = Record::new();
    rec.push(String::from_str("type"), Value::Str(parts.type_.clone()));
    rec.push(String::from_str("subtype"), Value::Str(parts.subtype.clone()));
    rec.push(String::from_str("parameters"), Value::Record(ps));
    proof {
        assert(rec@ =~= seq![
            ("type"@, SpecValue::Str(parts@.type_)),
            ("subtype"@, SpecValue::Str(parts@.subtype)),
            (
                "parameters"@,
                SpecValue::Record(param_entries(parts@.params, parts@.params.len() as int)),
            ),
        ]);
    }
    Value::Record(rec)
}

/// Parse a MIME type string into its structured parts.
pub struct ParseMimeCommand;

impl ParseMimeCommand {
    /// The name this command is registered under.
    pub fn name(&self) -> (r: String)
        ensures
            r@ == "servo mime parse"@,
    {
        String::from_str("servo mime parse")
    }

    /// Parse the input as a MIME type and hand back its parts as a record.
    pub fn run(&self, input: &CarrierValue) -> (r: Result<Value, Error>)
        ensures
            !(input matches CarrierValue::Str(_)) ==> r matches Err(Error::CarrierType),
            r matches Ok(v) ==> v is Record,
    {
        match input {
            CarrierValue::Str(s) => match mime_parse(s.as_str()) {
                Ok(p) => {
                    let v = mime_parts_to_value(&p);
                    proof {
                        assert(v is Record);
                    }
                    Ok(v)
                },
                Err(m) => Err(Error::Parse(m)),
            },
            _ => Err(Error::CarrierType),
        }
    }
}

/// One parsed data URL as plain values: its MIME type, decoded body, and
/// percent-encoded fragment when one is present.
pub struct DataUrlParts {
    pub mime: MimeParts,
    pub body: Vec<u8>,
    pub fragment: Option<String>,
}

/// The mathematical shape of a [`DataUrlParts`].
pub struct SpecDataUrlParts {
    pub mime: SpecMimeParts,
    pub body: Seq<u8>,
    pub fragment: Option<Seq<char>>,
}

impl View for DataUrlParts {
    type V = SpecDataUrlParts;

    open spec fn view(&self) -> SpecDataUrlParts {
        SpecDataUrlParts {
            mime: self.mime@,
            body: self.body@,
            fragment: match self.fragment {
                Some(f) => Some(f@),
                None => None,
            },
        }
    }
}

/// Relies on `data_url::DataUrl::process`, `decode_to_vec` and
/// `mime_type`: the MIME type, decoded body and percent-encoded fragment
/// of a data URL, copied into plain values.
#[verifier::external_body]
fn data_url_parse(s: &str) -> (r: Result<DataUrlParts, String>) {
    match data_url::DataUrl::process(s) {
        Ok(u) => match u.decode_to_vec() {
            Ok((body, frag)) => {
                let m = u.mime_type();
                let mime = MimeParts { type_: m.type_.clone(), subtype: m.subtype.clone(), params: m.parameters.clone() };
                Ok(DataUrlParts { mime, body, fragment: frag.map(|f| f.to_percent_encoded()) })
            },
            Err(err) => Err(format!("Failed to parse data-url: {err:?}")),
        },
        Err(err) => Err(format!("Failed to parse data-url: {err}")),
    }
}

/// Copy a byte vector.
fn copy_bytes(v: &Vec<u8>) -> (r: Vec<u8>)
    ensures
        r@ == v@,
{
    let mut out: Vec<u8> = Vec::new();
    let mut i: usize = 0;
    while i < v.len()
        invariant
            i <= v@.len(),
            out@ == v@.take(i as int),
        decreases v@.len() - i,
    {
        out.push(v[i]);
        proof {
            assert(v@.take(i as int + 1) =~= v@.take(i as int).push(v@[i as int]));
        }
        i = i + 1;
    }
    proof {
        assert(v@.take(v@.len() as int) =~= v@);
    }
    out
}

/// The fragment field of a data URL record: the percent-encoded fragment,
/// or an explicit nothing when the URL has none.
pub open spec fn fragment_val(f: Option<Seq<char>>) -> SpecValue {
    match f {
        Some(s) => SpecValue::Str(s),
        None => SpecValue::Nothing,
    }
}

/// The generic value of one parsed data URL: a record of its MIME record,
/// its decoded body, and its fragment or an explicit nothing.
pub open spec fn data_url_value(p: SpecDataUrlParts) -> SpecValue {
    SpecValue::Record(
        seq![
            ("mime"@, mime_value(p.mime)),
            ("body"@, SpecValue::Binary(p.body)),
            ("fragment"@, fragment_val(p.fragment)),
        ],
    )
}

/// Build the generic value of one parsed data URL.
pub fn data_url_parts_to_value(parts: &DataUrlParts) -> (r: Value)
    ensures
        value_view(r) == data_url_value(parts@),
{
    let m = mime_parts_to_value(&parts.mime);
    let mut rec = Record::new();
    rec.push(String::from_str("mime"), m);
    rec.push(String::from_str("body"), Value::Binary(copy_bytes(&parts.body)));
    let frag = match &parts.fragment {
        Some(f) => Value::Str(f.clone()),
        None => Value::Nothing,
    };
    rec.push(String::from_str("fragment"), frag);
    proof {
        assert(rec@ =~= seq![
            ("mime"@, mime_value(parts@.mime)),
            ("body"@, SpecValue::Binary(parts@.body)),
            ("fragment"@, fragment_val(parts@.fragment)),
        ]);
    }
    Value::Record(rec)
}

/// Parse a data URL into its MIME type, decoded body and fragment.
pub struct ParseDataUrlCommand;

impl ParseDataUrlCommand {
    /// The name this command is registered under.
    pub fn name(&self) -> (r: String)
        ensures
            r@ == "servo data-url parse"@,
    {
        String::from_str("servo data-url parse")
    }

    /// Parse the input as a data URL and hand back its parts as a record.
    pub fn run(&self, input: &CarrierValue) -> (r: Result<Value, Error>)
        ensures
            !(input matches CarrierValue::Str(_)) ==> r matches Err(Error::CarrierType),
            r matches Ok(v) ==> v is Record,
    {
        match input {
            CarrierValue::Str(s) => match data_url_parse(s.as_str()) {
                Ok(p) => {
                    let v = data_url_parts_to_value(&p);
                    proof {
                        assert(v is Record);
                    }
                    Ok(v)
                },
                Err(m) => Err(Error::Parse(m)),
            },
            _ => Err(Error::CarrierType),
        }
    }
}

} // verus!
