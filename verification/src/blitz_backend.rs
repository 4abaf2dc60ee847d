//! The layout-capable backend: a full DOM whose nodes also carry style and
//! layout state.  Parsing and CSS matching are delegated to the `blitz`
//! engine; the parsed node arena is mirrored into the library's own arena,
//! on which every structured operation is verified.  The engine's mutating
//! layout pass belongs to the rendering path and is never invoked here.

use vstd::prelude::*;

use crate::dom::{
    dedup_attrs, mirrors_node, node_attrs_unique, qname_display, wf_dom, Attr, Doc, Node, NodeData,
    QName, SpecNode, SpecNodeData, MAX_ARENA_NODES,
};
use crate::errors::Error;
use crate::serialize::to_value;
use crate::value::Value;
use crate::{arena_root, CarrierValue, HtmlBackend, NuDataFormat};

verus! {

#[verifier::external_type_specification]
#[verifier::external_body]
pub struct ExHtmlDocument(blitz_html::HtmlDocument);

#[verifier::external_type_specification]
#[verifier::external_body]
pub struct ExBlitzQualName(blitz_dom::QualName);

/// Whether this engine's selector parser, which also consults the
/// document's URL data, accepts a selector string for a given document.
pub uninterp spec fn blitz_css_ok(doc: blitz_html::HtmlDocument, selector: Seq<char>) -> bool;

/// Whether a document is what this engine parses one text payload into.
pub uninterp spec fn blitz_doc_is(input: Seq<char>, doc: blitz_html::HtmlDocument) -> bool;

/// Whether an identifier resolves to a live node of a given engine
/// document.
pub uninterp spec fn blitz_resolves(doc: blitz_html::HtmlDocument, id: usize) -> bool;

/// The node at one identifier of a document, read into the library's
/// model: its kind, name, attributes in source order, or text content,
/// with an anonymous block read as an element; nothing when the identifier
/// does not resolve.
pub uninterp spec fn blitz_node_of(doc: blitz_html::HtmlDocument, id: usize) -> Option<SpecNodeData>;

/// Whether the node `id` of a document matches a compiled selector list,
/// as the engine decides matching; a function of the document value, the
/// selector string and the identifier alone.
pub uninterp spec fn blitz_matches(doc: blitz_html::HtmlDocument, selector: Seq<char>, id: usize) -> bool;

/// The engine's own outer markup serialization of the node `id` of a
/// document; a function of the document value and the identifier alone.
pub uninterp spec fn blitz_outer_of(doc: blitz_html::HtmlDocument, id: usize) -> Seq<char>;

/// Relies on `blitz_html::HtmlDocument::from_html`: error-tolerant HTML
/// parsing of text into the engine's document, with its default
/// configuration; it does not fail.
#[verifier::external_body]
fn blitz_parse(html: &str) -> (r: blitz_html::HtmlDocument)
    ensures
        blitz_doc_is(html@, r),
{
    blitz_html::HtmlDocument::from_html(html, blitz_dom::DocumentConfig::default())
}

/// Relies on `blitz_dom::BaseDocument::root_node`: the engine identifier
/// of the root node, which every document holds from construction on.
#[verifier::external_body]
fn blitz_root(doc: &blitz_html::HtmlDocument) -> (r: usize)
    ensures
        blitz_resolves(*doc, r),
{
    doc.root_node().id
}

/// Relies on `blitz_dom::QualName`'s public fields: the prefix and local
/// name of a qualified name, copied into plain strings.
#[verifier::external_body]
fn blitz_qname_from(q: &blitz_dom::QualName) -> (r: QName) {
    QName {
        prefix: q.prefix.as_ref().map(|p| p.to_string()),
        local: q.local.to_string(),
    }
}

/// Relies on `blitz_dom::BaseDocument::get_node` and `blitz_dom::NodeData`:
/// the kind of one node, with element names, attributes and text content
/// copied into plain values, one arm per variant; an anonymous block is an
/// element in all but name.  It answers exactly when the identifier
/// resolves.
#[verifier::external_body]
fn blitz_node_data(doc: &blitz_html::HtmlDocument, id: usize) -> (r: Option<NodeData>)
    ensures
        (r is Some) == blitz_resolves(*doc, id),
        match r {
            Some(d) => blitz_node_of(*doc, id) == Some(d@),
            None => blitz_node_of(*doc, id) is None,
        },
{
    let n = doc.get_node(id)?;
    Some(match &n.data {
        blitz_dom::NodeData::Document => NodeData::Document,
        blitz_dom::NodeData::Comment => NodeData::Comment,
        blitz_dom::NodeData::Text(t) => NodeData::Text { content: t.content.clone() },
        blitz_dom::NodeData::Element(e) | blitz_dom::NodeData::AnonymousBlock(e) => NodeData::Element {
            name: blitz_qname_from(&e.name),
            attrs: e.attrs().iter().map(|a| Attr { name: blitz_qname_from(&a.name), value: a.value.clone() }).collect(),
        },
    })
}

/// Relies on `blitz_dom::Node`'s `children` field: the engine identifiers
/// of the direct children of one node, in document order.
#[verifier::external_body]
fn blitz_children(doc: &blitz_html::HtmlDocument, id: usize) -> (r: Vec<usize>) {
    match doc.get_node(id) {
        Some(n) => n.children.clone(),
        None => Vec::new(),
    }
}

/// Relies on `blitz_dom::BaseDocument::query_selector_all`: the selector
/// list is compiled once, and exactly the identifiers of the matching
/// nodes come back from one traversal from the root.  It fails exactly
/// when the selector is not accepted for this document.
#[verifier::external_body]
fn blitz_select(doc: &blitz_html::HtmlDocument, selector: &str) -> (r: Result<Vec<usize>, String>)
    ensures
        (r is Ok) == blitz_css_ok(*doc, selector@),
        r matches Ok(v) ==> forall|k: int|
            0 <= k < v@.len() ==> blitz_matches(*doc, selector@, #[trigger] v@[k]),
        r matches Ok(v) ==> forall|id: usize|
            #[trigger] blitz_matches(*doc, selector@, id) ==> v@.contains(id),
{
    match doc.query_selector_all(selector) {
        Ok(sv) => Ok(sv.into_vec()),
        Err(err) => Err(format!("Invalid html: {err:?}")),
    }
}

/// Relies on `blitz_dom::Node::outer_html`: the engine's own markup
/// serialization of a node and its subtree.  It answers exactly when the
/// identifier resolves.
#[verifier::external_body]
fn blitz_outer(doc: &blitz_html::HtmlDocument, id: usize) -> (r: Option<String>)
    ensures
        (r is Some) == blitz_resolves(*doc, id),
        r matches Some(s) ==> s@ == blitz_outer_of(*doc, id),
{
    doc.get_node(id).map(|n| n.outer_html())
}

/// Whether one identifier occurs in a list of identifiers.
fn id_contains(v: &Vec<usize>, x: usize) -> (r: bool)
    ensures
        r == exists|k: int| 0 <= k < v@.len() && v@[k] == x,
{
    let mut k: usize = 0;
    let mut found = false;
    while k < v.len()
        invariant
            k <= v@.len(),
            found == exists|l: int| 0 <= l < k && v@[l] == x,
        decreases v@.len() - k,
    {
        if v[k] == x {
            found = true;
        }
        k = k + 1;
    }
    found
}

/// Mirror a parsed engine arena into a fresh arena of the library, walking
/// it depth-first so that arena indices are assigned in document pre-order.
/// The root container becomes node 0; every child reference points past
/// its parent; repeated attribute display names are dropped after their
/// first occurrence; an engine reference that does not resolve contributes
/// nothing.  The only failure is the fail-closed size cap.
fn build_blitz_arena(raw: &blitz_html::HtmlDocument) -> (r: Result<(Doc, Vec<usize>), Error>)
    ensures
        r matches Ok(p) ==> wf_dom(p.0@),
        r matches Ok(p) ==> p.1@.len() == p.0@.len(),
        r matches Ok(p) ==> p.0@.len() >= 1,
        r matches Ok(p) ==> forall|n: int|
            0 <= n < p.0@.len() ==> blitz_resolves(*raw, #[trigger] p.1@[n]),
        r matches Ok(p) ==> p.0@[0].data is Document,
        r matches Ok(p) ==> forall|n: int|
            1 <= n < p.0@.len() ==> mirrors_node(p.0@[n].data, blitz_node_of(
                *raw,
                #[trigger] p.1@[n],
            )),
        r matches Err(e) ==> e matches Error::Parse(m) && m@
            == "Failed to parse html: too many nodes"@,
{
    let mut nodes: Vec<Node> = Vec::new();
    let mut ids: Vec<usize> = Vec::new();
    let root = blitz_root(raw);
    nodes.push(Node { data: NodeData::Document, children: Vec::new() });
    ids.push(root);
    let mut stack: Vec<(usize, usize)> = Vec::new();
    let root_kids = blitz_children(raw, root);
    let mut k = root_kids.len();
    while k > 0
        invariant
            k <= root_kids@.len(),
            nodes@.len() == 1,
            forall|m: int| 0 <= m < stack@.len() ==> (#[trigger] stack@[m]).1 < nodes@.len(),
        decreases k,
    {
        k = k - 1;
        stack.push((root_kids[k], 0));
    }
    while stack.len() > 0
        invariant
            nodes@.len() == ids@.len(),
            1 <= nodes@.len() <= MAX_ARENA_NODES,
            forall|m: int| 0 <= m < stack@.len() ==> (#[trigger] stack@[m]).1 < nodes@.len(),
            forall|i: int, j: int|
                0 <= i < nodes@.len() && 0 <= j < nodes@[i].children@.len() ==> i < (
                #[trigger] nodes@[i].children@[j]) < nodes@.len(),
            forall|i: int| 0 <= i < nodes@.len() ==> node_attrs_unique(#[trigger] nodes@[i]@),
            forall|i: int| 0 <= i < nodes@.len() ==> blitz_resolves(*raw, #[trigger] ids@[i]),
            nodes@[0].data is Document,
            forall|i: int|
                1 <= i < nodes@.len() ==> mirrors_node((#[trigger] nodes@[i]).data@, blitz_node_of(
                    *raw,
                    ids@[i],
                )),
        decreases MAX_ARENA_NODES - nodes@.len(), stack@.len(),
    {
        let top = match stack.pop() {
            Some(t) => t,
            None => {
                // unreachable: the loop condition keeps the stack nonempty
                proof {
                    assert(false);
                }
                return Err(
                    Error::Parse(String::from_str("Failed to parse html: too many nodes")),
                );
            },
        };
        let (id, parent) = top;
        let data = match blitz_node_data(raw, id) {
            Some(NodeData::Element { name, attrs }) => {
                let da = dedup_attrs(&attrs);
                proof {
                    let sa = da@.map_values(|a: Attr| a@);
                    assert forall|x: int, y: int| 0 <= x < y < sa.len() implies qname_display(
                        #[trigger] sa[x].name,
                    ) != qname_display(#[trigger] sa[y].name) by {
                        assert(sa[x] == da@[x]@);
                        assert(sa[y] == da@[y]@);
                    }
                    assert(blitz_node_of(*raw, id) == Some(
                        SpecNodeData::Element {
                            name: name@,
                            attrs: attrs@.map_values(|a: Attr| a@),
                        },
                    ));
                }
                NodeData::Element { name, attrs: da }
            },
            Some(d) => d,
            None => {
                continue;
            },
        };
        proof {
            assert(mirrors_node(data@, blitz_node_of(*raw, id)));
        }
        if nodes.len() >= MAX_ARENA_NODES {
            return Err(Error::Parse(String::from_str("Failed to parse html: too many nodes")));
        }
        let n = nodes.len();
        {
            let ghost before = nodes@;
            nodes[parent].children.push(n);
            proof {
                assert forall|i: int| 0 <= i < nodes@.len() implies node_attrs_unique(
                    #[trigger] nodes@[i]@,
                ) by {
                    assert(nodes@[i]@.data == before[i]@.data);
                    assert(node_attrs_unique(before[i]@));
                }
                assert forall|i: int| 1 <= i < nodes@.len() implies mirrors_node(
                    (#[trigger] nodes@[i]).data@,
                    blitz_node_of(*raw, ids@[i]),
                ) by {
                    assert(nodes@[i].data == before[i].data);
                }
                assert(nodes@[0].data == before[0].data);
            }
        }
        let ghost mid = nodes@;
        let ghost gdata = data;
        nodes.push(Node { data, children: Vec::new() });
        ids.push(id);
        proof {
            assert forall|i: int| 0 <= i < nodes@.len() implies node_attrs_unique(
                #[trigger] nodes@[i]@,
            ) by {
                if i < mid.len() {
                    assert(nodes@[i] == mid[i]);
                    assert(node_attrs_unique(mid[i]@));
                } else {
                    assert(nodes@[i].data == gdata);
                }
            }
            assert forall|i: int| 1 <= i < nodes@.len() implies mirrors_node(
                (#[trigger] nodes@[i]).data@,
                blitz_node_of(*raw, ids@[i]),
            ) by {
                if i < mid.len() {
                    assert(nodes@[i] == mid[i]);
                } else {
                    assert(nodes@[i].data == gdata);
                    assert(ids@[i] == id);
                }
            }
            assert(nodes@[0] == mid[0]);
        }
        let kids = blitz_children(raw, id);
        let mut k = kids.len();
        while k > 0
            invariant
                k <= kids@.len(),
                n < nodes@.len(),
                forall|m: int| 0 <= m < stack@.len() ==> (#[trigger] stack@[m]).1 < nodes@.len(),
            decreases k,
        {
            k = k - 1;
            stack.push((kids[k], n));
        }
    }
    let doc = Doc { nodes };
    proof {
        assert forall|i: int, j: int|
            0 <= i < doc@.len() && 0 <= j < doc@[i].children.len() implies i < #[trigger] doc@[i].children[j] < doc@.len() by {
            assert(doc@[i] == doc.nodes@[i]@);
            assert(doc@[i].children[j] == doc.nodes@[i].children@[j] as int);
        }
        assert forall|i: int| 0 <= i < doc@.len() implies node_attrs_unique(#[trigger] doc@[i]) by {
            assert(doc@[i] == doc.nodes@[i]@);
        }
        assert(doc@[0] == doc.nodes@[0]@);
        assert forall|i: int| 1 <= i < doc@.len() implies mirrors_node(
            doc@[i].data,
            blitz_node_of(*raw, #[trigger] ids@[i]),
        ) by {
            assert(doc@[i] == doc.nodes@[i]@);
        }
    }
    Ok((doc, ids))
}

/// A document parsed by the layout-capable backend: the engine's own
/// document, the arena mirrored from it, and the engine identifier of each
/// arena node.
pub struct BlitzDoc {
    raw: blitz_html::HtmlDocument,
    ids: Vec<usize>,
    arena: Doc,
}

impl BlitzDoc {
    /// The arena view of this document.
    pub closed spec fn arena_view(&self) -> Seq<SpecNode> {
        self.arena@
    }

    /// The document invariant: a nonempty, well-formed arena, one engine
    /// identifier per node, and every node's identifier resolving in the
    /// engine document.
    pub closed spec fn wf(&self) -> bool {
        &&& wf_dom(self.arena@)
        &&& self.ids@.len() == self.arena@.len()
        &&& self.arena@.len() >= 1
        &&& forall|n: int|
            0 <= n < self.arena@.len() ==> blitz_resolves(self.raw, #[trigger] self.ids@[n])
        &&& self.arena@[0].data is Document
        &&& forall|n: int|
            1 <= n < self.arena@.len() ==> mirrors_node(self.arena@[n].data, blitz_node_of(
                self.raw,
                #[trigger] self.ids@[n],
            ))
    }

    /// Whether this document came from parsing one text payload.
    pub closed spec fn from_input(&self, input: Seq<char>) -> bool {
        blitz_doc_is(input, self.raw)
    }

    /// Whether the engine's selector matching selects the node at one
    /// arena index.
    pub closed spec fn node_selected(&self, selector: Seq<char>, node: int) -> bool {
        blitz_matches(self.raw, selector, self.ids@[node])
    }

    /// The engine's own outer markup serialization of the node at one
    /// arena index.
    pub closed spec fn outer_markup(&self, node: int) -> Seq<char> {
        blitz_outer_of(self.raw, self.ids@[node])
    }

    /// The concatenation, in document order, of the engine serializations
    /// of the first `k` children of the node at one arena index.
    pub closed spec fn inner_concat(&self, node: int, k: int) -> Seq<char>
        decreases k,
    {
        if k <= 0 || !(0 <= node < self.arena@.len()) || k > self.arena@[node].children.len() {
            Seq::empty()
        } else {
            self.inner_concat(node, k - 1) + self.outer_markup(self.arena@[node].children[k - 1])
        }
    }

    /// The arena this document owns.
    pub fn arena_doc(&self) -> (r: &Doc)
        ensures
            r@ == self.arena_view(),
            self.wf() ==> r.wf(),
    {
        &self.arena
    }
}

/// The layout-capable backend, backed by the `blitz` engine.
#[derive(Copy, Clone)]
pub struct BlitzBackend;

impl HtmlBackend for BlitzBackend {
    type Document = BlitzDoc;

    open spec fn arena(doc: &BlitzDoc) -> Seq<SpecNode> {
        doc.arena_view()
    }

    open spec fn inv(doc: &BlitzDoc) -> bool {
        doc.wf()
    }

    closed spec fn selector_ok(doc: &BlitzDoc, selector: Seq<char>) -> bool {
        blitz_css_ok(doc.raw, selector)
    }

    open spec fn selected(doc: &BlitzDoc, selector: Seq<char>, node: int) -> bool {
        doc.node_selected(selector, node)
    }

    open spec fn from_source(doc: &BlitzDoc, source: CarrierValue) -> bool {
        source matches CarrierValue::Str(s) && doc.from_input(s@)
    }

    proof fn inv_wf(doc: &BlitzDoc) {
    }

    fn parse(&self, document: &CarrierValue) -> (r: Result<BlitzDoc, Error>)
        ensures
            !(document matches CarrierValue::Str(_)) ==> r matches Err(Error::CarrierType),
    {
        let raw = match document {
            CarrierValue::Str(s) => blitz_parse(s.as_str()),
            _ => {
                return Err(Error::CarrierType);
            },
        };
        match build_blitz_arena(&raw) {
            Ok((arena, ids)) => Ok(BlitzDoc { raw, ids, arena }),
            Err(e) => Err(e),
        }
    }

    fn get_root_node(&self, doc: &BlitzDoc) -> (r: Result<usize, Error>) {
        arena_root(&doc.arena)
    }

    fn css_query(&self, doc: &BlitzDoc, selector: &str) -> (r: Result<Vec<usize>, Error>) {
        let sel = match blitz_select(&doc.raw, selector) {
            Ok(v) => v,
            Err(m) => {
                return Err(Error::Selector(m));
            },
        };
        let mut out: Vec<usize> = Vec::new();
        let mut i: usize = 0;
        while i < doc.ids.len()
            invariant
                i <= doc.ids@.len(),
                doc.ids@.len() == doc.arena@.len(),
                forall|k: int|
                    0 <= k < sel@.len() ==> blitz_matches(doc.raw, selector@, #[trigger] sel@[k]),
                forall|id: usize|
                    #[trigger] blitz_matches(doc.raw, selector@, id) ==> sel@.contains(id),
                forall|k: int| 0 <= k < out@.len() ==> (#[trigger] out@[k]) < i,
                forall|a: int, b: int| 0 <= a < b < out@.len() ==> out@[a] < out@[b],
                forall|n: int|
                    0 <= n < i ==> (#[trigger] out@.contains(n as usize) <==> blitz_matches(
                        doc.raw,
                        selector@,
                        doc.ids@[n],
                    )),
            decreases doc.ids@.len() - i,
        {
            let hit = id_contains(&sel, doc.ids[i]);
            proof {
                if hit {
                    let k = choose|k: int| 0 <= k < sel@.len() && sel@[k] == doc.ids@[i as int];
                    assert(blitz_matches(doc.raw, selector@, sel@[k]));
                } else {
                    if blitz_matches(doc.raw, selector@, doc.ids@[i as int]) {
                        assert(sel@.contains(doc.ids@[i as int]));
                    }
                }
                assert(hit == blitz_matches(doc.raw, selector@, doc.ids@[i as int]));
            }
            let ghost prev = out@;
            if hit {
                out.push(i);
            }
            proof {
                assert forall|n: int| 0 <= n < i + 1 implies (#[trigger] out@.contains(n as usize)
                    <==> blitz_matches(doc.raw, selector@, doc.ids@[n])) by {
                    if n == i {
                        if hit {
                            assert(out@[out@.len() - 1] == i as usize);
                            assert(out@.contains(i as usize));
                        } else {
                            if out@.contains(i as usize) {
                                let k = choose|k: int|
                                    0 <= k < out@.len() && out@[k] == i as usize;
                                assert(out@[k] < i);
                            }
                        }
                    } else {
                        if out@.contains(n as usize) {
                            let k = choose|k: int| 0 <= k < out@.len() && out@[k] == n as usize;
                            if hit && k == out@.len() - 1 {
                                assert(out@[k] == i as usize);
                            } else {
                                assert(prev[k] == n as usize);
                                assert(prev.contains(n as usize));
                            }
                        }
                        if prev.contains(n as usize) {
                            let k = choose|k: int| 0 <= k < prev.len() && prev[k] == n as usize;
                            assert(out@[k] == n as usize);
                            assert(out@.contains(n as usize));
                        }
                    }
                }
            }
            i = i + 1;
        }
        proof {
            let m = out@.map_values(|n: usize| n as int);
            assert forall|a: int, b: int| 0 <= a < b < m.len() implies #[trigger] m[a]
                < #[trigger] m[b] by {
                assert(m[a] == out@[a] as int);
                assert(m[b] == out@[b] as int);
            }
        }
        Ok(out)
    }

    fn inner_html(&self, doc: &BlitzDoc, node: usize) -> (r: Result<String, Error>)
        ensures
            node < Self::arena(doc).len() ==> (!(Self::arena(doc)[node as int].data is Text)
                ==> (r matches Ok(s) && s@ == doc.inner_concat(
                node as int,
                Self::arena(doc)[node as int].children.len() as int,
            ))),
    {
        if node >= doc.arena.nodes.len() {
            return Err(Error::NodeLookup);
        }
        proof {
            assert(doc.arena@[node as int] == doc.arena.nodes@[node as int]@);
        }
        if let NodeData::Text { content } = &doc.arena.nodes[node].data {
            return Ok(content.clone());
        }
        let mut out = String::new();
        let mut j: usize = 0;
        proof {
            assert(doc.inner_concat(node as int, 0) =~= Seq::<char>::empty());
        }
        while j < doc.arena.nodes[node].children.len()
            invariant
                node < doc.arena@.len(),
                doc.wf(),
                !(doc.arena@[node as int].data is Text),
                j <= doc.arena@[node as int].children.len(),
                doc.arena@[node as int].children.len() == doc.arena.nodes@[node as int].children@.len(),
                out@ == doc.inner_concat(node as int, j as int),
            decreases doc.arena.nodes@[node as int].children@.len() - j,
        {
            let c = doc.arena.nodes[node].children[j];
            proof {
                assert(doc.arena@[node as int].children[j as int] == c as int);
                assert((node as int) < doc.arena@[node as int].children[j as int]
                    < doc.arena@.len());
            }
            match blitz_outer(&doc.raw, doc.ids[c]) {
                Some(s) => {
                    out.append(s.as_str());
                },
                None => {
                    // unreachable: every mirrored identifier resolves
                    proof {
                        assert(false);
                    }
                    return Err(Error::NodeLookup);
                },
            }
            j = j + 1;
        }
        Ok(out)
    }

    fn outer_html(&self, doc: &BlitzDoc, node: usize) -> (r: Result<String, Error>)
        ensures
            node < Self::arena(doc).len() ==> (r matches Ok(s) && s@ == doc.outer_markup(
                node as int,
            )),
    {
        if node >= doc.arena.nodes.len() {
            return Err(Error::NodeLookup);
        }
        match blitz_outer(&doc.raw, doc.ids[node]) {
            Some(s) => Ok(s),
            None => {
                // unreachable: every mirrored identifier resolves
                proof {
                    assert(false);
                }
                Err(Error::NodeLookup)
            },
        }
    }

    fn node2nu(&self, doc: &BlitzDoc, node: usize, format: NuDataFormat) -> (r: Result<
        Value,
        Error,
    >)
        ensures
            format == NuDataFormat::OuterHtml && node < Self::arena(doc).len() ==> (r matches Ok(
                Value::Str(s),
            ) && s@ == doc.outer_markup(node as int)),
            format == NuDataFormat::InnerHtml && node < Self::arena(doc).len() ==> (!(Self::arena(
                doc,
            )[node as int].data is Text) ==> (r matches Ok(Value::Str(s)) && s@ == doc.inner_concat(
                node as int,
                Self::arena(doc)[node as int].children.len() as int,
            ))),
    {
        match format {
            NuDataFormat::Html | NuDataFormat::Xml | NuDataFormat::FromXmlCompat => {
                match to_value(&doc.arena, node, format) {
                    Some(v) => Ok(v),
                    None => Ok(Value::Nothing),
                }
            },
            NuDataFormat::InnerHtml => match self.inner_html(doc, node) {
                Ok(s) => Ok(Value::Str(s)),
                Err(e) => Err(e),
            },
            NuDataFormat::OuterHtml => match self.outer_html(doc, node) {
                Ok(s) => Ok(Value::Str(s)),
                Err(e) => Err(e),
            },
        }
    }
}

} // verus!
