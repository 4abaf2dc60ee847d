//! The lightweight backend: a parser-only DOM.  Parsing and CSS matching
//! are delegated to the `scraper`/`html5ever` engine; the parsed tree is
//! mirrored into the library's arena, on which every structured operation
//! is verified.

use vstd::prelude::*;

use html5ever::tendril::TendrilSink;

use crate::dom::{
    dedup_attrs, mirrors_node, node_attrs_unique, qname_display, wf_dom, Attr, Doc, Node, NodeData,
    QName, SpecNode, SpecNodeData, MAX_ARENA_NODES,
};
use crate::errors::Error;
use crate::serialize::to_value;
use crate::value::Value;
use crate::{arena_root, CarrierValue, HtmlBackend, NuDataFormat};

verus! {

#[verifier::external_type_specification]
#[verifier::external_body]
pub struct ExHtml(scraper::Html);

#[verifier::external_type_specification]
#[verifier::external_body]
pub struct ExNodeId(ego_tree::NodeId);

#[verifier::external_type_specification]
#[verifier::external_body]
pub struct ExQualName(html5ever::QualName);

/// Relies on the derived `PartialEq` of `ego_tree::NodeId`: structural
/// equality of the wrapped index, which is equality of the values.
pub assume_specification[ <ego_tree::NodeId as PartialEq>::eq ](
    a: &ego_tree::NodeId,
    b: &ego_tree::NodeId,
) -> (r: bool)
    ensures
        r == (a == b),
;

/// Whether a selector string compiles as a CSS selector list; compilation
/// is a function of the selector string alone.
pub uninterp spec fn css_ok(selector: Seq<char>) -> bool;

/// Whether a document is what the HTML driver parses one byte payload
/// into.
pub uninterp spec fn scr_doc_is(bytes: Seq<u8>, doc: scraper::Html) -> bool;

/// Whether a document is what the XML driver parses one byte payload
/// into.
pub uninterp spec fn scr_xml_doc_is(bytes: Seq<u8>, doc: scraper::Html) -> bool;

/// Whether the node `id` of a document matches a compiled selector list,
/// as the engine decides matching; a function of the document value, the
/// selector string and the identifier alone.
pub uninterp spec fn scr_matches(doc: scraper::Html, selector: Seq<char>, id: ego_tree::NodeId) -> bool;

/// Whether an identifier resolves, within a given engine document, to an
/// element node of that document.
pub uninterp spec fn scr_is_elem(doc: scraper::Html, id: ego_tree::NodeId) -> bool;

/// The node at one identifier of a document, read into the library's
/// model: its kind, name, attributes in source order, or text content;
/// nothing when the identifier does not resolve.
pub uninterp spec fn scr_node_of(doc: scraper::Html, id: ego_tree::NodeId) -> Option<SpecNodeData>;

/// The engine's own outer markup serialization of the element `id` of a
/// document; a function of the document value and the identifier alone.
pub uninterp spec fn scr_outer_of(doc: scraper::Html, id: ego_tree::NodeId) -> Seq<char>;

/// The engine's own inner markup serialization of the element `id` of a
/// document; a function of the document value and the identifier alone.
pub uninterp spec fn scr_inner_of(doc: scraper::Html, id: ego_tree::NodeId) -> Seq<char>;

/// Relies on `html5ever::parse_document` driven into `scraper`'s tree sink:
/// error-tolerant HTML parsing of raw bytes, dropping the doctype as the
/// document is built.  It does not fail: the byte-slice reader has no I/O
/// errors and invalid byte sequences are decoded with replacements.
#[verifier::external_body]
fn scr_parse(bytes: &[u8]) -> (r: Result<scraper::Html, String>)
    ensures
        r is Ok,
        r matches Ok(d) ==> scr_doc_is(bytes@, d),
{
    let mut b: &[u8] = bytes;
    html5ever::parse_document(
        scraper::HtmlTreeSink::new(scraper::Html::new_document()),
        html5ever::ParseOpts {
            tree_builder: html5ever::tree_builder::TreeBuilderOpts {
                drop_doctype: true,
                ..Default::default()
            },
            ..Default::default()
        },
    ).from_utf8().read_from(&mut b).map_err(|err| format!("Failed to parse html: {err}"))
}

/// Relies on `xml5ever::driver::parse_document` driven into `scraper`'s
/// tree sink: error-tolerant XML parsing of raw bytes.  It does not fail,
/// for the same reasons as the HTML driver.
#[verifier::external_body]
fn scr_parse_xml(bytes: &[u8]) -> (r: Result<scraper::Html, String>)
    ensures
        r is Ok,
        r matches Ok(d) ==> scr_xml_doc_is(bytes@, d),
{
    let mut b: &[u8] = bytes;
    xml5ever::driver::parse_document(
        scraper::HtmlTreeSink::new(scraper::Html::new_document()),
        xml5ever::driver::XmlParseOpts::default(),
    ).from_utf8().read_from(&mut b).map_err(|err| format!("Failed to parse html: {err}"))
}

/// Relies on `ego_tree::Tree::root`: the identifier of the root node.
#[verifier::external_body]
fn scr_root(doc: &scraper::Html) -> (r: ego_tree::NodeId) {
    doc.tree.root().id()
}

/// Relies on `html5ever::QualName`'s public fields: the prefix and local
/// name of a qualified name, copied into plain strings.
#[verifier::external_body]
fn qname_from(q: &html5ever::QualName) -> (r: QName) {
    QName {
        prefix: q.prefix.as_ref().map(|p| p.to_string()),
        local: q.local.to_string(),
    }
}

/// Relies on `ego_tree::Tree::get` and `scraper::Node`: the kind of one
/// node, with element names, attributes and text content copied into plain
/// values, one arm per variant.  An element comes back exactly when the
/// identifier resolves to an element node.
#[verifier::external_body]
fn scr_node_data(doc: &scraper::Html, id: ego_tree::NodeId) -> (r: Option<NodeData>)
    ensures
        match r {
            Some(d) => (d is Element) == scr_is_elem(*doc, id) && scr_node_of(*doc, id) == Some(
                d@,
            ),
            None => !scr_is_elem(*doc, id) && scr_node_of(*doc, id) is None,
        },
{
    let n = doc.tree.get(id)?;
    Some(match n.value() {
        scraper::Node::Document => NodeData::Document,
        scraper::Node::Fragment => NodeData::Fragment,
        scraper::Node::Doctype(_) => NodeData::Doctype,
        scraper::Node::Comment(_) => NodeData::Comment,
        scraper::Node::ProcessingInstruction(_) => NodeData::ProcessingInstruction,
        scraper::Node::Text(t) => NodeData::Text { content: t.text.to_string() },
        scraper::Node::Element(e) => NodeData::Element {
            name: qname_from(&e.name),
            attrs: e.attrs.iter().map(|a| Attr { name: qname_from(&a.0), value: a.1.to_string() }).collect(),
        },
    })
}

/// Relies on `ego_tree::NodeRef::children`: the identifiers of the direct
/// children of one node, in document order.
#[verifier::external_body]
fn scr_children(doc: &scraper::Html, id: ego_tree::NodeId) -> (r: Vec<ego_tree::NodeId>) {
    match doc.tree.get(id) {
        Some(n) => n.children().map(|c| c.id()).collect(),
        None => Vec::new(),
    }
}

/// Relies on `scraper::Selector::parse` and `scraper::Html::select`: the
/// selector list is compiled once, and exactly the matching elements come
/// back, in document pre-order, each once.  It fails exactly when the
/// selector does not compile.
#[verifier::external_body]
fn scr_select(doc: &scraper::Html, selector: &str) -> (r: Result<Vec<ego_tree::NodeId>, String>)
    ensures
        (r is Ok) == css_ok(selector@),
        r matches Ok(v) ==> forall|k: int|
            0 <= k < v@.len() ==> scr_matches(*doc, selector@, #[trigger] v@[k]),
        r matches Ok(v) ==> forall|id: ego_tree::NodeId|
            #[trigger] scr_matches(*doc, selector@, id) ==> v@.contains(id),
{
    match scraper::Selector::parse(selector) {
        Ok(sel) => Ok(doc.select(&sel).map(|e| e.id()).collect()),
        Err(err) => Err(format!("Failed to parse CSS: {err}")),
    }
}

/// Relies on `scraper::ElementRef::inner_html`: the engine's own markup
/// serialization of an element's children.  It answers exactly when the
/// identifier resolves to an element.
#[verifier::external_body]
fn scr_inner(doc: &scraper::Html, id: ego_tree::NodeId) -> (r: Option<String>)
    ensures
        (r is Some) == scr_is_elem(*doc, id),
        r matches Some(s) ==> s@ == scr_inner_of(*doc, id),
{
    doc.tree.get(id).and_then(scraper::ElementRef::wrap).map(|e| e.inner_html())
}

/// Relies on `scraper::ElementRef::html`: the engine's own markup
/// serialization of an element and its subtree.  It answers exactly when
/// the identifier resolves to an element.
#[verifier::external_body]
fn scr_outer(doc: &scraper::Html, id: ego_tree::NodeId) -> (r: Option<String>)
    ensures
        (r is Some) == scr_is_elem(*doc, id),
        r matches Some(s) ==> s@ == scr_outer_of(*doc, id),
{
    doc.tree.get(id).and_then(scraper::ElementRef::wrap).map(|e| e.html())
}

/// Whether one identifier occurs in a list of identifiers.
fn nid_contains(v: &Vec<ego_tree::NodeId>, x: ego_tree::NodeId) -> (r: bool)
    ensures
        r == exists|k: int| 0 <= k < v@.len() && v@[k] == x,
{
    let mut k: usize = 0;
    let mut found = false;
    while k < v.len()
        invariant
            k <= v@.len(),
            found == exists|l: int| 0 <= l < k && v@[l] == x,
        decreases v@.len() - k,
    {
        if v[k] == x {
            found = true;
        }
        k = k + 1;
    }
    found
}

/// Mirror a parsed engine tree into a fresh arena, walking it depth-first
/// so that arena indices are assigned in document pre-order.  The root
/// container becomes node 0; every child reference points past its parent;
/// repeated attribute display names are dropped after their first
/// occurrence; an engine reference that does not resolve contributes
/// nothing.  The only failure is the fail-closed size cap.
fn build_scraper_arena(raw: &scraper::Html) -> (r: Result<(Doc, Vec<ego_tree::NodeId>), Error>)
    ensures
        r matches Ok(p) ==> wf_dom(p.0@),
        r matches Ok(p) ==> p.1@.len() == p.0@.len(),
        r matches Ok(p) ==> p.0@.len() >= 1,
        r matches Ok(p) ==> forall|n: int|
            0 <= n < p.0@.len() ==> (p.0@[n].data is Element ==> scr_is_elem(
                *raw,
                #[trigger] p.1@[n],
            )),
        r matches Ok(p) ==> p.0@[0].data is Document,
        r matches Ok(p) ==> forall|n: int|
            1 <= n < p.0@.len() ==> mirrors_node(p.0@[n].data, scr_node_of(
                *raw,
                #[trigger] p.1@[n],
            )),
        r matches Err(e) ==> e matches Error::Parse(m) && m@
            == "Failed to parse html: too many nodes"@,
{
    let mut nodes: Vec<Node> = Vec::new();
    let mut ids: Vec<ego_tree::NodeId> = Vec::new();
    let root = scr_root(raw);
    nodes.push(Node { data: NodeData::Document, children: Vec::new() });
    ids.push(root);
    let mut stack: Vec<(ego_tree::NodeId, usize)> = Vec::new();
    let root_kids = scr_children(raw, root);
    let mut k = root_kids.len();
    while k > 0
        invariant
            k <= root_kids@.len(),
            nodes@.len() == 1,
            forall|m: int| 0 <= m < stack@.len() ==> (#[trigger] stack@[m]).1 < nodes@.len(),
        decreases k,
    {
        k = k - 1;
        stack.push((root_kids[k], 0));
    }
    while stack.len() > 0
        invariant
            nodes@.len() == ids@.len(),
            1 <= nodes@.len() <= MAX_ARENA_NODES,
            forall|m: int| 0 <= m < stack@.len() ==> (#[trigger] stack@[m]).1 < nodes@.len(),
            forall|i: int, j: int|
                0 <= i < nodes@.len() && 0 <= j < nodes@[i].children@.len() ==> i < (
                #[trigger] nodes@[i].children@[j]) < nodes@.len(),
            forall|i: int| 0 <= i < nodes@.len() ==> node_attrs_unique(#[trigger] nodes@[i]@),
            forall|i: int|
                0 <= i < nodes@.len() ==> ((#[trigger] nodes@[i]).data is Element ==> scr_is_elem(
                    *raw,
                    ids@[i],
                )),
            nodes@[0].data is Document,
            forall|i: int|
                1 <= i < nodes@.len() ==> mirrors_node((#[trigger] nodes@[i]).data@, scr_node_of(
                    *raw,
                    ids@[i],
                )),
        decreases MAX_ARENA_NODES - nodes@.len(), stack@.len(),
    {
        let top = match stack.pop() {
            Some(t) => t,
            None => {
                // unreachable: the loop condition keeps the stack nonempty
                proof {
                    assert(false);
                }
                return Err(
                    Error::Parse(String::from_str("Failed to parse html: too many nodes")),
                );
            },
        };
        let (id, parent) = top;
        let data = match scr_node_data(raw, id) {
            Some(NodeData::Element { name, attrs }) => {
                let da = dedup_attrs(&attrs);
                proof {
                    let sa = da@.map_values(|a: Attr| a@);
                    assert forall|x: int, y: int| 0 <= x < y < sa.len() implies qname_display(
                        #[trigger] sa[x].name,
                    ) != qname_display(#[trigger] sa[y].name) by {
                        assert(sa[x] == da@[x]@);
                        assert(sa[y] == da@[y]@);
                    }
                    assert(scr_node_of(*raw, id) == Some(
                        SpecNodeData::Element {
                            name: name@,
                            attrs: attrs@.map_values(|a: Attr| a@),
                        },
                    ));
                }
                NodeData::Element { name, attrs: da }
            },
            Some(d) => d,
            None => {
                continue;
            },
        };
        proof {
            assert(data is Element ==> scr_is_elem(*raw, id));
            assert(mirrors_node(data@, scr_node_of(*raw, id)));
        }
        if nodes.len() >= MAX_ARENA_NODES {
            return Err(Error::Parse(String::from_str("Failed to parse html: too many nodes")));
        }
        let n = nodes.len();
        {
            let ghost before = nodes@;
            nodes[parent].children.push(n);
            proof {
                assert forall|i: int| 0 <= i < nodes@.len() implies node_attrs_unique(
                    #[trigger] nodes@[i]@,
                ) by {
                    assert(nodes@[i]@.data == before[i]@.data);
                    assert(node_attrs_unique(before[i]@));
                }
                assert forall|i: int| 0 <= i < nodes@.len() implies ((#[trigger] nodes@[i]).data
                    is Element ==> scr_is_elem(*raw, ids@[i])) by {
                    assert(nodes@[i].data == before[i].data);
                }
                assert forall|i: int| 1 <= i < nodes@.len() implies mirrors_node(
                    (#[trigger] nodes@[i]).data@,
                    scr_node_of(*raw, ids@[i]),
                ) by {
                    assert(nodes@[i].data == before[i].data);
                }
                assert(nodes@[0].data == before[0].data);
            }
        }
        let ghost mid = nodes@;
        let ghost gdata = data;
        nodes.push(Node { data, children: Vec::new() });
        ids.push(id);
        proof {
            assert forall|i: int| 0 <= i < nodes@.len() implies node_attrs_unique(
                #[trigger] nodes@[i]@,
            ) by {
                if i < mid.len() {
                    assert(nodes@[i] == mid[i]);
                    assert(node_attrs_unique(mid[i]@));
                } else {
                    assert(nodes@[i].data == gdata);
                }
            }
            assert forall|i: int| 0 <= i < nodes@.len() implies ((#[trigger] nodes@[i]).data
                is Element ==> scr_is_elem(*raw, ids@[i])) by {
                if i < mid.len() {
                    assert(nodes@[i] == mid[i]);
                } else {
                    assert(nodes@[i].data == gdata);
                    assert(ids@[i] == id);
                }
            }
            assert forall|i: int| 1 <= i < nodes@.len() implies mirrors_node(
                (#[trigger] nodes@[i]).data@,
                scr_node_of(*raw, ids@[i]),
            ) by {
                if i < mid.len() {
                    assert(nodes@[i] == mid[i]);
                } else {
                    assert(nodes@[i].data == gdata);
                    assert(ids@[i] == id);
                }
            }
            assert(nodes@[0] == mid[0]);
        }
        let kids = scr_children(raw, id);
        let mut k = kids.len();
        while k > 0
            invariant
                k <= kids@.len(),
                n < nodes@.len(),
                forall|m: int| 0 <= m < stack@.len() ==> (#[trigger] stack@[m]).1 < nodes@.len(),
            decreases k,
        {
            k = k - 1;
            stack.push((kids[k], n));
        }
    }
    let doc = Doc { nodes };
    proof {
        assert forall|i: int, j: int|
            0 <= i < doc@.len() && 0 <= j < doc@[i].children.len() implies i < #[trigger] doc@[i].children[j] < doc@.len() by {
            assert(doc@[i] == doc.nodes@[i]@);
            assert(doc@[i].children[j] == doc.nodes@[i].children@[j] as int);
        }
        assert forall|i: int| 0 <= i < doc@.len() implies node_attrs_unique(#[trigger] doc@[i]) by {
            assert(doc@[i] == doc.nodes@[i]@);
        }
        assert forall|i: int| 0 <= i < doc@.len() implies (doc@[i].data is Element ==> scr_is_elem(
            *raw,
            #[trigger] ids@[i],
        )) by {
            assert(doc@[i] == doc.nodes@[i]@);
        }
        assert(doc@[0] == doc.nodes@[0]@);
        assert forall|i: int| 1 <= i < doc@.len() implies mirrors_node(
            doc@[i].data,
            scr_node_of(*raw, #[trigger] ids@[i]),
        ) by {
            assert(doc@[i] == doc.nodes@[i]@);
        }
    }
    Ok((doc, ids))
}

/// A document parsed by the lightweight backend: the engine's own parsed
/// tree, the arena mirrored from it, and the engine identifier of each
/// arena node.
pub struct ScraperDoc {
    raw: scraper::Html,
    ids: Vec<ego_tree::NodeId>,
    arena: Doc,
}

impl ScraperDoc {
    /// The arena view of this document.
    pub closed spec fn arena_view(&self) -> Seq<SpecNode> {
        self.arena@
    }

    /// The document invariant: a nonempty, well-formed arena, one engine
    /// identifier per node, and every element node's identifier resolving
    /// to an element of the engine tree.
    pub closed spec fn wf(&self) -> bool {
        &&& wf_dom(self.arena@)
        &&& self.ids@.len() == self.arena@.len()
        &&& self.arena@.len() >= 1
        &&& forall|n: int|
            0 <= n < self.arena@.len() ==> (self.arena@[n].data is Element ==> scr_is_elem(
                self.raw,
                #[trigger] self.ids@[n],
            ))
        &&& self.arena@[0].data is Document
        &&& forall|n: int|
            1 <= n < self.arena@.len() ==> mirrors_node(self.arena@[n].data, scr_node_of(
                self.raw,
                #[trigger] self.ids@[n],
            ))
    }

    /// Whether this document came from parsing one byte payload with the
    /// HTML driver.
    pub closed spec fn from_html_input(&self, bytes: Seq<u8>) -> bool {
        scr_doc_is(bytes, self.raw)
    }

    /// Whether this document came from parsing one byte payload with the
    /// XML driver.
    pub closed spec fn from_xml_input(&self, bytes: Seq<u8>) -> bool {
        scr_xml_doc_is(bytes, self.raw)
    }

    /// Whether the engine's selector matching selects the node at one
    /// arena index.
    pub closed spec fn node_selected(&self, selector: Seq<char>, node: int) -> bool {
        scr_matches(self.raw, selector, self.ids@[node])
    }

    /// The engine's own outer markup serialization of the element at one
    /// arena index.
    pub closed spec fn outer_markup(&self, node: int) -> Seq<char> {
        scr_outer_of(self.raw, self.ids@[node])
    }

    /// The engine's own inner markup serialization of the element at one
    /// arena index.
    pub closed spec fn inner_markup(&self, node: int) -> Seq<char> {
        scr_inner_of(self.raw, self.ids@[node])
    }

    /// The arena this document owns.
    pub fn arena_doc(&self) -> (r: &Doc)
        ensures
            r@ == self.arena_view(),
            self.wf() ==> r.wf(),
    {
        &self.arena
    }
}

/// The lightweight backend, backed by the `scraper` engine.
#[derive(Copy, Clone)]
pub struct ScraperBackend;

impl ScraperBackend {
    /// Parse one raw payload with the chosen engine driver and mirror the
    /// result into a document of this backend.  Parsing itself is
    /// error-tolerant and cannot fail; after the carrier check the only
    /// failure is the fail-closed arena size cap.
    fn parse_bytes(&self, document: &CarrierValue, as_xml: bool) -> (r: Result<ScraperDoc, Error>)
        ensures
            r matches Ok(d) ==> d.wf(),
            r matches Ok(d) ==> (crate::carrier_bytes(*document) matches Some(bs) && (if as_xml {
                d.from_xml_input(bs)
            } else {
                d.from_html_input(bs)
            })),
            document matches CarrierValue::Other ==> r matches Err(Error::CarrierType),
            !(document matches CarrierValue::Other) ==> (r is Ok || (r matches Err(Error::Parse(m))
                && m@ == "Failed to parse html: too many nodes"@)),
    {
        let bytes: &[u8] = match document {
            CarrierValue::Str(s) => {
                let b = s.as_str().as_bytes();
                proof {
                    assert(b@ == vstd::utf8::encode_utf8(s@));
                }
                b
            },
            CarrierValue::Binary(b) => b.as_slice(),
            CarrierValue::Other => {
                return Err(Error::CarrierType);
            },
        };
        let parsed = if as_xml {
            scr_parse_xml(bytes)
        } else {
            scr_parse(bytes)
        };
        let raw = match parsed {
            Ok(h) => h,
            Err(m) => {
                // unreachable: the parse drivers do not fail
                proof {
                    assert(false);
                }
                return Err(Error::Parse(m));
            },
        };
        match build_scraper_arena(&raw) {
            Ok((arena, ids)) => Ok(ScraperDoc { raw, ids, arena }),
            Err(e) => Err(e),
        }
    }

    /// Parse one raw payload as XML into a document of this backend.  The
    /// carrier failure is exact; otherwise only the fail-closed size cap
    /// can fail.
    pub fn parse_xml(&self, document: &CarrierValue) -> (r: Result<ScraperDoc, Error>)
        ensures
            r matches Ok(d) ==> d.wf(),
            r matches Ok(d) ==> (crate::carrier_bytes(*document) matches Some(bs)
                && d.from_xml_input(bs)),
            document matches CarrierValue::Other ==> r matches Err(Error::CarrierType),
            !(document matches CarrierValue::Other) ==> (r is Ok || (r matches Err(Error::Parse(m))
                && m@ == "Failed to parse html: too many nodes"@)),
    {
        self.parse_bytes(document, true)
    }
}

impl HtmlBackend for ScraperBackend {
    type Document = ScraperDoc;

    open spec fn arena(doc: &ScraperDoc) -> Seq<SpecNode> {
        doc.arena_view()
    }

    open spec fn inv(doc: &ScraperDoc) -> bool {
        doc.wf()
    }

    open spec fn selector_ok(doc: &ScraperDoc, selector: Seq<char>) -> bool {
        css_ok(selector)
    }

    open spec fn selected(doc: &ScraperDoc, selector: Seq<char>, node: int) -> bool {
        doc.node_selected(selector, node)
    }

    open spec fn from_source(doc: &ScraperDoc, source: CarrierValue) -> bool {
        crate::carrier_bytes(source) matches Some(bs) && doc.from_html_input(bs)
    }

    proof fn inv_wf(doc: &ScraperDoc) {
    }

    fn parse(&self, document: &CarrierValue) -> (r: Result<ScraperDoc, Error>)
        ensures
            document matches CarrierValue::Other ==> r matches Err(Error::CarrierType),
            !(document matches CarrierValue::Other) ==> (r is Ok || (r matches Err(Error::Parse(m))
                && m@ == "Failed to parse html: too many nodes"@)),
    {
        self.parse_bytes(document, false)
    }

    fn get_root_node(&self, doc: &ScraperDoc) -> (r: Result<usize, Error>) {
        arena_root(&doc.arena)
    }

    fn css_query(&self, doc: &ScraperDoc, selector: &str) -> (r: Result<Vec<usize>, Error>) {
        let sel = match scr_select(&doc.raw, selector) {
            Ok(v) => v,
            Err(m) => {
                return Err(Error::Selector(m));
            },
        };
        let mut out: Vec<usize> = Vec::new();
        let mut i: usize = 0;
        while i < doc.ids.len()
            invariant
                i <= doc.ids@.len(),
                doc.ids@.len() == doc.arena@.len(),
                forall|k: int|
                    0 <= k < sel@.len() ==> scr_matches(doc.raw, selector@, #[trigger] sel@[k]),
                forall|id: ego_tree::NodeId|
                    #[trigger] scr_matches(doc.raw, selector@, id) ==> sel@.contains(id),
                forall|k: int| 0 <= k < out@.len() ==> (#[trigger] out@[k]) < i,
                forall|a: int, b: int| 0 <= a < b < out@.len() ==> out@[a] < out@[b],
                forall|n: int|
                    0 <= n < i ==> (#[trigger] out@.contains(n as usize) <==> scr_matches(
                        doc.raw,
                        selector@,
                        doc.ids@[n],
                    )),
            decreases doc.ids@.len() - i,
        {
            let hit = nid_contains(&sel, doc.ids[i]);
            proof {
                if hit {
                    let k = choose|k: int| 0 <= k < sel@.len() && sel@[k] == doc.ids@[i as int];
                    assert(scr_matches(doc.raw, selector@, sel@[k]));
                } else {
                    if scr_matches(doc.raw, selector@, doc.ids@[i as int]) {
                        assert(sel@.contains(doc.ids@[i as int]));
                    }
                }
                assert(hit == scr_matches(doc.raw, selector@, doc.ids@[i as int]));
            }
            let ghost prev = out@;
            if hit {
                out.push(i);
            }
            proof {
                assert forall|n: int| 0 <= n < i + 1 implies (#[trigger] out@.contains(n as usize)
                    <==> scr_matches(doc.raw, selector@, doc.ids@[n])) by {
                    if n == i {
                        if hit {
                            assert(out@[out@.len() - 1] == i as usize);
                            assert(out@.contains(i as usize));
                        } else {
                            if out@.contains(i as usize) {
                                let k = choose|k: int|
                                    0 <= k < out@.len() && out@[k] == i as usize;
                                assert(out@[k] < i);
                            }
                        }
                    } else {
                        if out@.contains(n as usize) {
                            let k = choose|k: int| 0 <= k < out@.len() && out@[k] == n as usize;
                            if hit && k == out@.len() - 1 {
                                assert(out@[k] == i as usize);
                            } else {
                                assert(prev[k] == n as usize);
                                assert(prev.contains(n as usize));
                            }
                        }
                        if prev.contains(n as usize) {
                            let k = choose|k: int| 0 <= k < prev.len() && prev[k] == n as usize;
                            assert(out@[k] == n as usize);
                            assert(out@.contains(n as usize));
                        }
                    }
                }
            }
            i = i + 1;
        }
        proof {
            let m = out@.map_values(|n: usize| n as int);
            assert forall|a: int, b: int| 0 <= a < b < m.len() implies #[trigger] m[a]
                < #[trigger] m[b] by {
                assert(m[a] == out@[a] as int);
                assert(m[b] == out@[b] as int);
            }
        }
        Ok(out)
    }

    fn inner_html(&self, doc: &ScraperDoc, node: usize) -> (r: Result<String, Error>)
        ensures
            node < Self::arena(doc).len() ==> (Self::arena(doc)[node as int].data is Element
                ==> (r matches Ok(s) && s@ == doc.inner_markup(node as int))),
            node < Self::arena(doc).len() ==> (!(Self::arena(doc)[node as int].data is Element)
                && !(Self::arena(doc)[node as int].data is Text) ==> (r matches Ok(s) && s@
                == Seq::<char>::empty())),
    {
        if node >= doc.arena.nodes.len() {
            return Err(Error::NodeLookup);
        }
        proof {
            assert(doc.arena@[node as int] == doc.arena.nodes@[node as int]@);
        }
        match &doc.arena.nodes[node].data {
            NodeData::Text { content } => Ok(content.clone()),
            NodeData::Element { .. } => {
                match scr_inner(&doc.raw, doc.ids[node]) {
                    Some(s) => Ok(s),
                    None => {
                        // unreachable: an element node's identifier
                        // resolves to an element
                        proof {
                            assert(false);
                        }
                        Err(Error::NodeLookup)
                    },
                }
            },
            // the container and the transparent kinds have no markup
            // serialization of their own in this engine
            _ => Ok(String::new()),
        }
    }

    fn outer_html(&self, doc: &ScraperDoc, node: usize) -> (r: Result<String, Error>)
        ensures
            node < Self::arena(doc).len() ==> (Self::arena(doc)[node as int].data is Element
                ==> (r matches Ok(s) && s@ == doc.outer_markup(node as int))),
            node < Self::arena(doc).len() ==> (Self::arena(doc)[node as int].data matches
                SpecNodeData::Text { content } ==> (r matches Ok(s) && s@ == content)),
            node < Self::arena(doc).len() ==> (!(Self::arena(doc)[node as int].data is Element)
                && !(Self::arena(doc)[node as int].data is Text) ==> (r matches Ok(s) && s@
                == Seq::<char>::empty())),
    {
        if node >= doc.arena.nodes.len() {
            return Err(Error::NodeLookup);
        }
        proof {
            assert(doc.arena@[node as int] == doc.arena.nodes@[node as int]@);
        }
        match &doc.arena.nodes[node].data {
            NodeData::Text { content } => Ok(content.clone()),
            NodeData::Element { .. } => {
                match scr_outer(&doc.raw, doc.ids[node]) {
                    Some(s) => Ok(s),
                    None => {
                        // unreachable: an element node's identifier
                        // resolves to an element
                        proof {
                            assert(false);
                        }
                        Err(Error::NodeLookup)
                    },
                }
            },
            // the container and the transparent kinds have no markup
            // serialization of their own in this engine
            _ => Ok(String::new()),
        }
    }

    fn node2nu(&self, doc: &ScraperDoc, node: usize, format: NuDataFormat) -> (r: Result<
        Value,
        Error,
    >)
        ensures
            format == NuDataFormat::InnerHtml && node < Self::arena(doc).len() ==> (Self::arena(
                doc,
            )[node as int].data is Element ==> (r matches Ok(Value::Str(s)) && s@
                == doc.inner_markup(node as int))),
            format == NuDataFormat::OuterHtml && node < Self::arena(doc).len() ==> (Self::arena(
                doc,
            )[node as int].data is Element ==> (r matches Ok(Value::Str(s)) && s@
                == doc.outer_markup(node as int))),
            format == NuDataFormat::OuterHtml && node < Self::arena(doc).len() ==> (Self::arena(
                doc,
            )[node as int].data matches SpecNodeData::Text { content } ==> (r matches Ok(
                Value::Str(s),
            ) && s@ == content)),
            (format == NuDataFormat::InnerHtml || format == NuDataFormat::OuterHtml) && node
                < Self::arena(doc).len() ==> (!(Self::arena(doc)[node as int].data is Element)
                && !(Self::arena(doc)[node as int].data is Text) ==> (r matches Ok(Value::Str(s))
                && s@ == Seq::<char>::empty())),
    {
        match format {
            NuDataFormat::Html | NuDataFormat::Xml | NuDataFormat::FromXmlCompat => {
                match to_value(&doc.arena, node, format) {
                    Some(v) => Ok(v),
                    None => Ok(Value::Nothing),
                }
            },
            NuDataFormat::InnerHtml => match self.inner_html(doc, node) {
                Ok(s) => Ok(Value::Str(s)),
                Err(e) => Err(e),
            },
            NuDataFormat::OuterHtml => match self.outer_html(doc, node) {
                Ok(s) => Ok(Value::Str(s)),
                Err(e) => Err(e),
            },
        }
    }
}

} // verus!
