pub mod commands;
pub mod dom;
pub mod errors;
pub mod laws;
pub mod plugin_interface;
mod blitz_backend;
mod scraper_backend;
pub mod serialize;
pub mod text;
pub mod value;
pub use blitz_backend::{BlitzBackend, BlitzDoc};
pub use scraper_backend::{css_ok, ScraperBackend, ScraperDoc};

use vstd::prelude::*;
use vstd::string::StringExecFns;
use vstd::utf8::encode_utf8;

use crate::dom::{
    first_elem_child, qname_display, root_of, wf_dom, Doc, NodeData, QName, SpecNode, SpecNodeData,
};
use crate::errors::Error;
use crate::serialize::{node_val, opt_or_nothing, structured_format};
use crate::text::str_eq;
use crate::value::{value_view, Value};

verus! {

/// One raw input payload handed over by the caller: UTF-8 text, raw bytes,
/// or a carrier of some other kind that no backend can accept.
#[derive(Debug, PartialEq)]
pub enum CarrierValue {
    Str(String),
    Binary(Vec<u8>),
    Other,
}

/// The raw bytes a carrier holds: the UTF-8 encoding of its text, or its
/// binary payload; an unusable carrier holds none.
pub open spec fn carrier_bytes(c: CarrierValue) -> Option<Seq<u8>> {
    match c {
        CarrierValue::Str(s) => Some(encode_utf8(s@)),
        CarrierValue::Binary(b) => Some(b@),
        CarrierValue::Other => None,
    }
}

/// A sequence of indices in strictly increasing order: each index occurs at
/// most once, and the order is the order of the indices themselves.
pub open spec fn strictly_increasing(s: Seq<int>) -> bool {
    forall|a: int, b: int| 0 <= a < b < s.len() ==> s[a] < s[b]
}

/// One evaluated flag argument handed over by the hosting shell: a string,
/// an integer, an explicit null, or a value of some other kind.
#[derive(Debug, PartialEq)]
pub enum FlagValue {
    Str(String),
    Int(i64),
    Nothing,
    Other,
}

/// The output-format selector, chosen once per call and threaded through a
/// whole serialization unchanged.
#[derive(Copy, Clone, Debug, PartialEq, Eq, Structural)]
pub enum NuDataFormat {
    Html,
    Xml,
    FromXmlCompat,
    InnerHtml,
    OuterHtml,
}

impl NuDataFormat {
    /// The format selected by a literal selector string, if any.
    pub open spec fn of_str(s: Seq<char>) -> Option<NuDataFormat> {
        if s == "html"@ {
            Some(NuDataFormat::Html)
        } else if s == "xml"@ {
            Some(NuDataFormat::Xml)
        } else if s == "from xml"@ {
            Some(NuDataFormat::FromXmlCompat)
        } else if s == "inner html"@ {
            Some(NuDataFormat::InnerHtml)
        } else if s == "outer html"@ {
            Some(NuDataFormat::OuterHtml)
        } else {
            None
        }
    }

    /// The format an optional `--format` flag selects: a recognized literal
    /// selects its format, an absent or null flag selects the call-site
    /// default, and any other flag selects nothing.
    pub open spec fn chosen(arg: Option<FlagValue>, default: NuDataFormat) -> Option<
        NuDataFormat,
    > {
        match arg {
            Some(FlagValue::Str(s)) => NuDataFormat::of_str(s@),
            Some(FlagValue::Nothing) | None => Some(default),
            _ => None,
        }
    }

    /// Resolve an optional `--format` flag: a recognized literal selects its
    /// format, an absent or null flag selects the call-site default, and
    /// anything else is an invalid-format failure.
    pub fn parse(arg: Option<FlagValue>, default: NuDataFormat) -> (r: Result<
        NuDataFormat,
        Error,
    >)
        ensures
            match NuDataFormat::chosen(arg, default) {
                Some(f) => r == Ok::<NuDataFormat, Error>(f),
                None => r matches Err(Error::InvalidFormat(m)) && m@
                    == "Invalid '--format' argument"@,
            },
    {
        match arg {
            Some(FlagValue::Str(s)) => {
                if str_eq(s.as_str(), "html") {
                    Ok(NuDataFormat::Html)
                } else if str_eq(s.as_str(), "xml") {
                    Ok(NuDataFormat::Xml)
                } else if str_eq(s.as_str(), "from xml") {
                    Ok(NuDataFormat::FromXmlCompat)
                } else if str_eq(s.as_str(), "inner html") {
                    Ok(NuDataFormat::InnerHtml)
                } else if str_eq(s.as_str(), "outer html") {
                    Ok(NuDataFormat::OuterHtml)
                } else {
                    Err(Error::InvalidFormat(String::from_str("Invalid '--format' argument")))
                }
            },
            Some(FlagValue::Nothing) | None => Ok(default),
            _ => Err(Error::InvalidFormat(String::from_str("Invalid '--format' argument"))),
        }
    }
}

/// The contract one parsing engine must satisfy to back the document
/// operations.  A backend owns its document representation; every parsed
/// document exposes an arena view, node references are indices into that
/// arena assigned in document pre-order, and the structured serializer is
/// pinned to [`node_val`] over the arena — so two backends that parse a
/// fixture into the same arena are observably interchangeable.
pub trait HtmlBackend {
    type Document;

    /// The arena view of a parsed document.
    spec fn arena(doc: &Self::Document) -> Seq<SpecNode>;

    /// The backend's document invariant, established by `parse` and
    /// required by every later operation.
    spec fn inv(doc: &Self::Document) -> bool;

    /// Whether this backend's selector engine accepts a selector string
    /// for this document.
    spec fn selector_ok(doc: &Self::Document, selector: Seq<char>) -> bool;

    /// Whether the node at one arena index matches a selector, as this
    /// backend's engine decides matching.
    spec fn selected(doc: &Self::Document, selector: Seq<char>, node: int) -> bool;

    /// Whether a parsed document came from parsing one raw payload with
    /// this backend's engine.
    spec fn from_source(doc: &Self::Document, source: CarrierValue) -> bool;

    /// The invariant subsumes well-formedness and nonemptiness of the
    /// arena view, so the conceptual document element always exists.
    proof fn inv_wf(doc: &Self::Document)
        requires
            Self::inv(doc),
        ensures
            wf_dom(Self::arena(doc)),
            Self::arena(doc).len() > 0,
    ;

    /// Parse one raw payload into a document.  Parsing is error-tolerant:
    /// an unusable carrier is rejected exactly, and a text payload either
    /// parses or hits the fail-closed document size bound — malformed
    /// markup alone never fails.
    fn parse(&self, document: &CarrierValue) -> (r: Result<Self::Document, Error>)
        ensures
            r matches Ok(d) ==> Self::inv(&d),
            r matches Ok(d) ==> Self::from_source(&d, *document),
            document matches CarrierValue::Other ==> r matches Err(Error::CarrierType),
            document matches CarrierValue::Str(_) ==> (r is Ok || (r matches Err(Error::Parse(m))
                && m@ == "Failed to parse html: too many nodes"@)),
    ;

    /// The conceptual document element; fails only when the document holds
    /// no node at all.
    fn get_root_node(&self, doc: &Self::Document) -> (r: Result<usize, Error>)
        requires
            Self::inv(doc),
        ensures
            match r {
                Ok(n) => root_of(Self::arena(doc)) == Some(n as int),
                Err(_) => root_of(Self::arena(doc)) is None,
            },
    ;

    /// Compile `selector` once and return exactly the matching nodes, in
    /// document pre-order, each at most once.  It fails, with a selector
    /// failure, exactly when the selector is not accepted; an empty result
    /// is not an error.
    fn css_query(&self, doc: &Self::Document, selector: &str) -> (r: Result<Vec<usize>, Error>)
        requires
            Self::inv(doc),
        ensures
            r matches Ok(v) ==> strictly_increasing(v@.map_values(|n: usize| n as int)) && forall|
                k: int,
            |
                0 <= k < v@.len() ==> (#[trigger] v@[k]) < Self::arena(doc).len(),
            r matches Ok(v) ==> forall|n: int|
                0 <= n < Self::arena(doc).len() ==> (v@.contains(n as usize) <==> Self::selected(
                    doc,
                    selector@,
                    n,
                )),
            (r is Err) == !Self::selector_ok(doc, selector@),
            r matches Err(e) ==> e matches Error::Selector(_),
    ;

    /// The concatenation of the outer serializations of the direct children
    /// of `node`; for a text node, its raw content unchanged.  It succeeds
    /// on every live node and fails, with a node-lookup failure, exactly on
    /// a reference past the arena.
    fn inner_html(&self, doc: &Self::Document, node: usize) -> (r: Result<String, Error>)
        requires
            Self::inv(doc),
        ensures
            node < Self::arena(doc).len() ==> r is Ok,
            node >= Self::arena(doc).len() ==> r matches Err(Error::NodeLookup),
            node < Self::arena(doc).len() ==> (Self::arena(doc)[node as int].data matches
                SpecNodeData::Text { content } ==> (r matches Ok(s) && s@ == content)),
    ;

    /// The backend's own canonical markup serialization of the subtree at
    /// `node`; its exact formatting is backend-specific.  It succeeds on
    /// every live node and fails, with a node-lookup failure, exactly on a
    /// reference past the arena.
    fn outer_html(&self, doc: &Self::Document, node: usize) -> (r: Result<String, Error>)
        requires
            Self::inv(doc),
        ensures
            node < Self::arena(doc).len() ==> r is Ok,
            node >= Self::arena(doc).len() ==> r matches Err(Error::NodeLookup),
    ;

    /// Serialize one node under the chosen format.  Under a structured
    /// format this never fails and the value is pinned to [`node_val`],
    /// with an explicit nothing where the node produces no value.
    fn node2nu(&self, doc: &Self::Document, node: usize, format: NuDataFormat) -> (r: Result<
        Value,
        Error,
    >)
        requires
            Self::inv(doc),
        ensures
            structured_format(format) ==> (r matches Ok(v) && value_view(v) == opt_or_nothing(
                node_val(Self::arena(doc), node as int, format),
            )),
            format == NuDataFormat::InnerHtml && node < Self::arena(doc).len() ==> (Self::arena(
                doc,
            )[node as int].data matches SpecNodeData::Text { content } ==> (r matches Ok(
                Value::Str(s),
            ) && s@ == content)),
            (format == NuDataFormat::InnerHtml || format == NuDataFormat::OuterHtml) ==> (
            r matches Ok(v) ==> v is Str),
            (format == NuDataFormat::InnerHtml || format == NuDataFormat::OuterHtml) && node
                < Self::arena(doc).len() ==> r is Ok,
    ;
}

/// Backend equivalence: the structured serialization of a node is a function
/// of the arena alone, so two backends that parse a shared fixture into the
/// same arena produce identical values for every node and every format.
pub proof fn lemma_backend_equivalence(
    a: Seq<SpecNode>,
    b: Seq<SpecNode>,
    i: int,
    fmt: NuDataFormat,
)
    requires
        a == b,
    ensures
        node_val(a, i, fmt) == node_val(b, i, fmt),
{
}

/// Find the conceptual document element of an arena: its root container's
/// first element child, the root container itself when no element child
/// exists, and a failure only when the arena holds no node at all.
pub fn arena_root(doc: &Doc) -> (r: Result<usize, Error>)
    ensures
        match r {
            Ok(n) => root_of(doc@) == Some(n as int),
            Err(_) => root_of(doc@) is None,
        },
{
    if doc.nodes.len() == 0 {
        return Err(Error::NodeLookup);
    }
    let ghost d = doc@;
    proof {
        assert(d[0] == doc.nodes@[0]@);
        assert(d[0].children.skip(0) =~= d[0].children);
    }
    let mut k: usize = 0;
    while k < doc.nodes[0].children.len()
        invariant
            d == doc@,
            0 < d.len(),
            k <= d[0].children.len(),
            d[0].children.len() == doc.nodes@[0].children@.len(),
            first_elem_child(d, d[0].children) == first_elem_child(
                d,
                d[0].children.skip(k as int),
            ),
        decreases d[0].children.len() - k,
    {
        let c = doc.nodes[0].children[k];
        proof {
            assert(d[0].children[k as int] == c as int);
            assert(d[0].children.skip(k as int)[0] == d[0].children[k as int]);
            assert(d[0].children.skip(k as int).drop_first() =~= d[0].children.skip(k as int + 1));
        }
        if c < doc.nodes.len() {
            proof {
                assert(d[c as int] == doc.nodes@[c as int]@);
            }
            let is_elem = match &doc.nodes[c].data {
                NodeData::Element { .. } => true,
                _ => false,
            };
            if is_elem {
                return Ok(c);
            }
        }
        k = k + 1;
    }
    proof {
        assert(d[0].children.skip(d[0].children.len() as int) =~= Seq::<int>::empty());
    }
    Ok(0)
}

/// Render a qualified name for display: `prefix:local` when the name has a
/// prefix, the bare local name otherwise.
pub fn format_qual_name(qn: &QName) -> (r: String)
    ensures
        r@ == qname_display(qn@),
{
    match &qn.prefix {
        Some(p) => {
            let mut out = String::new();
            out.append(p.as_str());
            out.append(":");
            out.append(qn.local.as_str());
            proof {
                reveal_strlit(":");
                assert(out@ =~= qname_display(qn@));
            }
            out
        },
        None => qn.local.clone(),
    }
}

} // verus!
