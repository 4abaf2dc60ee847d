//! The document model: qualified names, attributes, and the arena of nodes
//! that one parsed document owns.

use vstd::prelude::*;

verus! {

/// A qualified tag or attribute name: an optional namespace prefix and a
/// local name.  The display form (`prefix:local` or bare `local`) is always
/// computed, never stored.
#[derive(Debug, PartialEq)]
pub struct QName {
    pub prefix: Option<String>,
    pub local: String,
}

/// The mathematical shape of a [`QName`].
pub struct SpecQName {
    pub prefix: Option<Seq<char>>,
    pub local: Seq<char>,
}

impl View for QName {
    type V = SpecQName;

    open spec fn view(&self) -> SpecQName {
        SpecQName {
            prefix: match self.prefix {
                Some(p) => Some(p@),
                None => None,
            },
            local: self.local@,
        }
    }
}

/// The display form of a qualified name: `prefix:local` when a prefix is
/// present, the bare local name otherwise.  Deterministic in the pair, so
/// equal pairs display equally whichever backend produced them.
pub open spec fn qname_display(q: SpecQName) -> Seq<char> {
    match q.prefix {
        Some(p) => p + seq![':'] + q.local,
        None => q.local,
    }
}

/// One attribute of an element: a qualified name and a value.
#[derive(Debug, PartialEq)]
pub struct Attr {
    pub name: QName,
    pub value: String,
}

/// The mathematical shape of an [`Attr`].
pub struct SpecAttr {
    pub name: SpecQName,
    pub value: Seq<char>,
}

impl View for Attr {
    type V = SpecAttr;

    open spec fn view(&self) -> SpecAttr {
        SpecAttr { name: self.name@, value: self.value@ }
    }
}

/// What one node of a document is.  Only elements carry names and
/// attributes; only text carries content.  The remaining kinds are
/// structurally present but never contribute to serialized output.
#[derive(Debug, PartialEq)]
pub enum NodeData {
    Document,
    Element { name: QName, attrs: Vec<Attr> },
    Text { content: String },
    Comment,
    Doctype,
    ProcessingInstruction,
    Fragment,
}

/// The mathematical shape of a [`NodeData`].
pub enum SpecNodeData {
    Document,
    Element { name: SpecQName, attrs: Seq<SpecAttr> },
    Text { content: Seq<char> },
    Comment,
    Doctype,
    ProcessingInstruction,
    Fragment,
}

impl View for NodeData {
    type V = SpecNodeData;

    open spec fn view(&self) -> SpecNodeData {
        match self {
            NodeData::Document => SpecNodeData::Document,
            NodeData::Element { name, attrs } => SpecNodeData::Element {
                name: name@,
                attrs: attrs@.map_values(|a: Attr| a@),
            },
            NodeData::Text { content } => SpecNodeData::Text { content: content@ },
            NodeData::Comment => SpecNodeData::Comment,
            NodeData::Doctype => SpecNodeData::Doctype,
            NodeData::ProcessingInstruction => SpecNodeData::ProcessingInstruction,
            NodeData::Fragment => SpecNodeData::Fragment,
        }
    }
}

/// One node of the arena: its kind and the arena indices of its children,
/// in document order.
#[derive(Debug, PartialEq)]
pub struct Node {
    pub data: NodeData,
    pub children: Vec<usize>,
}

/// The mathematical shape of a [`Node`].
pub struct SpecNode {
    pub data: SpecNodeData,
    pub children: Seq<int>,
}

impl View for Node {
    type V = SpecNode;

    open spec fn view(&self) -> SpecNode {
        SpecNode { data: self.data@, children: self.children@.map_values(|c: usize| c as int) }
    }
}

/// One parsed document: an index-addressed arena owning every node.  Node
/// references are indices into this arena and never outlive it.  Indices are
/// assigned in document pre-order, so index order is document order.
#[derive(Debug, PartialEq)]
pub struct Doc {
    pub nodes: Vec<Node>,
}

impl View for Doc {
    type V = Seq<SpecNode>;

    open spec fn view(&self) -> Seq<SpecNode> {
        self.nodes@.map_values(|n: Node| n@)
    }
}

/// The display names of the attributes of one node are pairwise distinct, so
/// a record keyed by them never repeats a key.
pub open spec fn node_attrs_unique(n: SpecNode) -> bool {
    match n.data {
        SpecNodeData::Element { attrs, .. } => forall|i: int, j: int|
            0 <= i < j < attrs.len() ==> qname_display(#[trigger] attrs[i].name) != qname_display(
                #[trigger] attrs[j].name,
            ),
        _ => true,
    }
}

/// A well-formed arena: every child reference points past its parent and
/// into the arena (so the parent-child relation is acyclic and every
/// reference resolves), and no element repeats an attribute display name.
pub open spec fn wf_dom(d: Seq<SpecNode>) -> bool {
    &&& forall|i: int, j: int|
        0 <= i < d.len() && 0 <= j < d[i].children.len() ==> i < #[trigger] d[i].children[j]
            < d.len()
    &&& forall|i: int| 0 <= i < d.len() ==> node_attrs_unique(#[trigger] d[i])
}

/// The largest arena a backend will build; a parse whose node count would
/// pass it fails closed instead of exhausting memory or stack.
pub const MAX_ARENA_NODES: usize = 16777216;

impl Doc {
    /// A well-formed document.
    pub open spec fn wf(&self) -> bool {
        wf_dom(self@)
    }

    /// The number of nodes in the arena.
    pub fn len(&self) -> (r: usize)
        ensures
            r == self@.len(),
    {
        self.nodes.len()
    }
}

/// The first in-range child reference naming an element, if any.
pub open spec fn first_elem_child(d: Seq<SpecNode>, cs: Seq<int>) -> Option<int>
    decreases cs.len(),
{
    if cs.len() == 0 {
        None
    } else if 0 <= cs[0] < d.len() && d[cs[0]].data is Element {
        Some(cs[0])
    } else {
        first_elem_child(d, cs.drop_first())
    }
}

/// The conceptual document element of an arena: the first element child of
/// the root container, the root container itself when it has no element
/// child, and nothing only when the document has no node at all.
pub open spec fn root_of(d: Seq<SpecNode>) -> Option<int> {
    if d.len() == 0 {
        None
    } else {
        match first_elem_child(d, d[0].children) {
            Some(c) => Some(c),
            None => Some(0),
        }
    }
}

/// An in-range child found by [`first_elem_child`] is an element.
pub proof fn lemma_first_elem_child_in_range(d: Seq<SpecNode>, cs: Seq<int>)
    ensures
        first_elem_child(d, cs) matches Some(c) ==> 0 <= c < d.len() && d[c].data is Element,
    decreases cs.len(),
{
    if cs.len() > 0 && !(0 <= cs[0] < d.len() && d[cs[0]].data is Element) {
        lemma_first_elem_child_in_range(d, cs.drop_first());
    }
}

/// The conceptual document element, when there is one, lies in the arena.
pub proof fn lemma_root_in_range(d: Seq<SpecNode>)
    ensures
        root_of(d) matches Some(n) ==> 0 <= n < d.len(),
{
    if d.len() > 0 {
        lemma_first_elem_child_in_range(d, d[0].children);
    }
}

/// Whether the attribute at `m` is the first of its display name.
pub open spec fn first_display_occurrence(s: Seq<SpecAttr>, m: int) -> bool {
    forall|j: int|
        0 <= j < m ==> qname_display(#[trigger] s[j].name) != qname_display(s[m].name)
}

/// The first `k` attributes with every repeated display name dropped after
/// its first occurrence, in source order.
pub open spec fn dedup_by_display(s: Seq<SpecAttr>, k: int) -> Seq<SpecAttr>
    decreases k,
{
    if k <= 0 || k > s.len() {
        Seq::empty()
    } else {
        let prev = dedup_by_display(s, k - 1);
        if first_display_occurrence(s, k - 1) {
            prev.push(s[k - 1])
        } else {
            prev
        }
    }
}

/// How one arena node's data mirrors what the engine holds at its
/// identifier: element attributes keep the first of each display name, in
/// source order; every other kind is carried over unchanged; a node is
/// never mirrored from an unresolvable reference.
pub open spec fn mirrors_node(data: SpecNodeData, engine: Option<SpecNodeData>) -> bool {
    match engine {
        Some(SpecNodeData::Element { name, attrs }) => data == (SpecNodeData::Element {
            name,
            attrs: dedup_by_display(attrs, attrs.len() as int),
        }),
        Some(d) => data == d,
        None => false,
    }
}

/// Copy one attribute; the copy has the same mathematical shape.
pub fn dup_attr(a: &Attr) -> (r: Attr)
    ensures
        r@ == a@,
{
    Attr {
        name: QName {
            prefix: match &a.name.prefix {
                Some(p) => Some(p.clone()),
                None => None,
            },
            local: a.name.local.clone(),
        },
        value: a.value.clone(),
    }
}

/// The display names kept by [`dedup_by_display`] over a prefix are
/// exactly the display names occurring in that prefix.
proof fn lemma_dedup_display_membership(s: Seq<SpecAttr>, m: int, x: Seq<char>)
    requires
        0 <= m <= s.len(),
    ensures
        (exists|l: int|
            0 <= l < dedup_by_display(s, m).len() && qname_display(
                #[trigger] dedup_by_display(s, m)[l].name,
            ) == x) <==> (exists|j: int| 0 <= j < m && qname_display(#[trigger] s[j].name) == x),
    decreases m,
{
    if m > 0 {
        lemma_dedup_display_membership(s, m - 1, x);
        let prev = dedup_by_display(s, m - 1);
        let cur = dedup_by_display(s, m);
        if first_display_occurrence(s, m - 1) {
            assert(cur == prev.push(s[m - 1]));
            if exists|l: int| 0 <= l < cur.len() && qname_display(#[trigger] cur[l].name) == x {
                let l = choose|l: int|
                    0 <= l < cur.len() && qname_display(#[trigger] cur[l].name) == x;
                if l < prev.len() {
                    assert(cur[l] == prev[l]);
                    assert(qname_display(prev[l].name) == x);
                } else {
                    assert(qname_display(s[m - 1].name) == x);
                }
            }
            if exists|j: int| 0 <= j < m && qname_display(#[trigger] s[j].name) == x {
                let j = choose|j: int| 0 <= j < m && qname_display(#[trigger] s[j].name) == x;
                if j < m - 1 {
                    let l = choose|l: int|
                        0 <= l < prev.len() && qname_display(#[trigger] prev[l].name) == x;
                    assert(cur[l] == prev[l]);
                    assert(qname_display(cur[l].name) == x);
                } else {
                    assert(qname_display(cur[cur.len() - 1].name) == x);
                }
            }
        } else {
            assert(cur == prev);
            if exists|j: int| 0 <= j < m && qname_display(#[trigger] s[j].name) == x {
                let j = choose|j: int| 0 <= j < m && qname_display(#[trigger] s[j].name) == x;
                if j == m - 1 {
                    assert(exists|j2: int|
                        0 <= j2 < m - 1 && qname_display(#[trigger] s[j2].name) == qname_display(
                            s[m - 1].name,
                        ));
                    let j2 = choose|j2: int|
                        0 <= j2 < m - 1 && qname_display(#[trigger] s[j2].name) == qname_display(
                            s[m - 1].name,
                        );
                    assert(qname_display(s[j2].name) == x);
                }
            }
        }
    }
}

/// The display names kept by [`dedup_by_display`] are pairwise distinct.
proof fn lemma_dedup_display_unique(s: Seq<SpecAttr>, m: int)
    requires
        0 <= m <= s.len(),
    ensures
        forall|a: int, b: int|
            0 <= a < b < dedup_by_display(s, m).len() ==> qname_display(
                #[trigger] dedup_by_display(s, m)[a].name,
            ) != qname_display(#[trigger] dedup_by_display(s, m)[b].name),
    decreases m,
{
    if m > 0 {
        lemma_dedup_display_unique(s, m - 1);
        let prev = dedup_by_display(s, m - 1);
        let cur = dedup_by_display(s, m);
        if first_display_occurrence(s, m - 1) {
            assert forall|a: int, b: int| 0 <= a < b < cur.len() implies qname_display(
                #[trigger] cur[a].name,
            ) != qname_display(#[trigger] cur[b].name) by {
                if b < prev.len() {
                    assert(cur[a] == prev[a]);
                    assert(cur[b] == prev[b]);
                } else {
                    assert(cur[a] == prev[a]);
                    assert(cur[b] == s[m - 1]);
                    lemma_dedup_display_membership(s, m - 1, qname_display(prev[a].name));
                    let j = choose|j: int|
                        0 <= j < m - 1 && qname_display(#[trigger] s[j].name) == qname_display(
                            prev[a].name,
                        );
                    assert(qname_display(s[j].name) != qname_display(s[m - 1].name));
                }
            }
        }
    }
}

/// Keep the first attribute of each display name, in source order, dropping
/// later repeats, so that a record keyed by display names never repeats a
/// key.
pub fn dedup_attrs(attrs: &Vec<Attr>) -> (r: Vec<Attr>)
    ensures
        r@.map_values(|a: Attr| a@) == dedup_by_display(
            attrs@.map_values(|a: Attr| a@),
            attrs@.len() as int,
        ),
        forall|i: int, j: int|
            0 <= i < j < r@.len() ==> qname_display(#[trigger] r@[i]@.name) != qname_display(
                #[trigger] r@[j]@.name,
            ),
{
    let ghost av = attrs@.map_values(|a: Attr| a@);
    let mut out: Vec<Attr> = Vec::new();
    let mut i: usize = 0;
    while i < attrs.len()
        invariant
            av == attrs@.map_values(|a: Attr| a@),
            i <= attrs.len(),
            out@.map_values(|a: Attr| a@) == dedup_by_display(av, i as int),
        decreases attrs.len() - i,
    {
        let d = crate::format_qual_name(&attrs[i].name);
        proof {
            assert(av[i as int] == attrs@[i as int]@);
        }
        let mut seen = false;
        let mut k: usize = 0;
        while k < out.len()
            invariant
                av == attrs@.map_values(|a: Attr| a@),
                i < attrs.len(),
                d@ == qname_display(av[i as int].name),
                k <= out@.len(),
                seen == exists|l: int|
                    0 <= l < k && qname_display((#[trigger] out@[l])@.name) == d@,
            decreases out@.len() - k,
        {
            let dk = crate::format_qual_name(&out[k].name);
            if crate::text::str_eq(dk.as_str(), d.as_str()) {
                seen = true;
            }
            k = k + 1;
        }
        proof {
            let kept = dedup_by_display(av, i as int);
            lemma_dedup_display_membership(av, i as int, qname_display(av[i as int].name));
            if seen {
                let l = choose|l: int|
                    0 <= l < out@.len() && qname_display((#[trigger] out@[l])@.name) == d@;
                assert(out@.map_values(|a: Attr| a@)[l] == out@[l]@);
                assert(qname_display(kept[l].name) == d@);
                assert(!first_display_occurrence(av, i as int));
            } else {
                assert forall|l: int| 0 <= l < kept.len() implies qname_display(
                    #[trigger] kept[l].name,
                ) != d@ by {
                    assert(out@.map_values(|a: Attr| a@)[l] == out@[l]@);
                }
                assert forall|j: int| 0 <= j < i implies qname_display(#[trigger] av[j].name)
                    != qname_display(av[i as int].name) by {
                    if qname_display(av[j].name) == qname_display(av[i as int].name) {
                        let l = choose|l: int|
                            0 <= l < kept.len() && qname_display(#[trigger] kept[l].name)
                                == qname_display(av[i as int].name);
                    }
                }
                assert(first_display_occurrence(av, i as int));
            }
        }
        if !seen {
            let ghost prev_out = out@;
            out.push(dup_attr(&attrs[i]));
            proof {
                assert(out@.map_values(|a: Attr| a@) =~= prev_out.map_values(|a: Attr| a@).push(
                    av[i as int],
                ));
            }
        }
        i = i + 1;
    }
    proof {
        lemma_dedup_display_unique(av, av.len() as int);
        assert forall|a: int, b: int| 0 <= a < b < out@.len() implies qname_display(
            #[trigger] out@[a]@.name,
        ) != qname_display(#[trigger] out@[b]@.name) by {
            let kept = dedup_by_display(av, av.len() as int);
            assert(out@.map_values(|x: Attr| x@)[a] == out@[a]@);
            assert(out@.map_values(|x: Attr| x@)[b] == out@[b]@);
            assert(qname_display(kept[a].name) != qname_display(kept[b].name));
        }
    }
    out
}

} // verus!
