//! The laws of the structured serializer, stated over the arena model and
//! proved once for every backend: what text leaves, transparent nodes,
//! attribute promotion and child order come out as.

use vstd::prelude::*;

use crate::dom::{node_attrs_unique, qname_display, wf_dom, SpecAttr, SpecNode, SpecNodeData, SpecQName};
use crate::serialize::{
    attrs_entries, children_vals, is_ascii_ws, lemma_tok_end_exact, node_val, split_ws, text_val,
};
use crate::value::{entries_unique, spec_value_wf, SpecValue};
use crate::NuDataFormat;

verus! {

/// Whether a node kind is semantically transparent: structurally present
/// but never part of serialized output.
pub open spec fn transparent_node(data: SpecNodeData) -> bool {
    match data {
        SpecNodeData::Comment => true,
        SpecNodeData::Doctype => true,
        SpecNodeData::ProcessingInstruction => true,
        SpecNodeData::Fragment => true,
        _ => false,
    }
}

/// A text node serializes under `Html` or `Xml` to the bare string of its
/// raw content, and under `FromXmlCompat` to a pseudo-element record with
/// exactly the keys `tag`, `attributes` and `content`, in that order.
pub proof fn lemma_text_leaf(d: Seq<SpecNode>, i: int, content: Seq<char>)
    requires
        0 <= i < d.len(),
        d[i].data == (SpecNodeData::Text { content }),
    ensures
        node_val(d, i, NuDataFormat::Html) == Some(SpecValue::Str(content)),
        node_val(d, i, NuDataFormat::Xml) == Some(SpecValue::Str(content)),
        node_val(d, i, NuDataFormat::FromXmlCompat) == Some(
            SpecValue::Record(
                seq![
                    ("tag"@, SpecValue::Nothing),
                    ("attributes"@, SpecValue::Nothing),
                    ("content"@, SpecValue::Str(content)),
                ],
            ),
        ),
{
    assert(text_val(content, NuDataFormat::Html) == SpecValue::Str(content));
    assert(text_val(content, NuDataFormat::Xml) == SpecValue::Str(content));
}

/// A transparent node serializes to no value, and as a child it
/// contributes nothing to its parent's content list — it is dropped, not
/// replaced by a placeholder.
pub proof fn lemma_transparent_child(d: Seq<SpecNode>, i: int, k: int, fmt: NuDataFormat)
    requires
        0 <= i < d.len(),
        1 <= k <= d[i].children.len(),
        i < d[i].children[k - 1] < d.len(),
        transparent_node(d[d[i].children[k - 1]].data),
    ensures
        node_val(d, d[i].children[k - 1], fmt) is None,
        children_vals(d, i, k, fmt) == children_vals(d, i, k - 1, fmt),
{
}

/// For an element whose children are a text node, an element, and another
/// text node, the content list under `Html` or `Xml` is exactly the first
/// text, the child element's record, and the second text, in that order.
pub proof fn lemma_order_preservation(d: Seq<SpecNode>, i: int, a: Seq<char>, b: Seq<char>, fmt: NuDataFormat)
    requires
        0 <= i < d.len(),
        fmt == NuDataFormat::Html || fmt == NuDataFormat::Xml,
        d[i].children.len() == 3,
        i < d[i].children[0] < d.len(),
        i < d[i].children[1] < d.len(),
        i < d[i].children[2] < d.len(),
        d[d[i].children[0]].data == (SpecNodeData::Text { content: a }),
        d[d[i].children[1]].data is Element,
        d[d[i].children[2]].data == (SpecNodeData::Text { content: b }),
    ensures
        node_val(d, d[i].children[1], fmt) matches Some(ev) && children_vals(d, i, 3, fmt)
            == seq![SpecValue::Str(a), ev, SpecValue::Str(b)],
{
    reveal_with_fuel(children_vals, 5);
    let c2 = d[i].children[1];
    let ev = node_val(d, c2, fmt)->0;
    assert(node_val(d, c2, fmt) is Some);
    assert(children_vals(d, i, 1, fmt) =~= seq![SpecValue::Str(a)]);
    assert(children_vals(d, i, 2, fmt) =~= seq![SpecValue::Str(a), ev]);
    assert(children_vals(d, i, 3, fmt) =~= seq![SpecValue::Str(a), ev, SpecValue::Str(b)]);
}

/// When the display names of an element's attributes are pairwise
/// distinct, its attributes record has pairwise distinct keys, and every
/// entry of it is the string of one attribute's value.
proof fn lemma_attrs_entries_wf(attrs: Seq<SpecAttr>, k: int, fmt: NuDataFormat)
    requires
        forall|x: int, y: int|
            0 <= x < y < attrs.len() ==> qname_display(#[trigger] attrs[x].name) != qname_display(
                #[trigger] attrs[y].name,
            ),
    ensures
        forall|m: int|
            0 <= m < attrs_entries(attrs, k, fmt).len() ==> exists|j: int|
                0 <= j < k && j < attrs.len() && (#[trigger] attrs_entries(attrs, k, fmt)[m]).0
                    == qname_display(attrs[j].name),
        forall|m: int|
            0 <= m < attrs_entries(attrs, k, fmt).len() ==> (#[trigger] attrs_entries(
                attrs,
                k,
                fmt,
            )[m]).1 is Str,
        entries_unique(attrs_entries(attrs, k, fmt)),
    decreases k,
{
    if k <= 0 || k > attrs.len() {
    } else {
        lemma_attrs_entries_wf(attrs, k - 1, fmt);
        let prev = attrs_entries(attrs, k - 1, fmt);
        let es = attrs_entries(attrs, k, fmt);
        if es == prev {
        } else {
            assert(es == prev.push(
                (qname_display(attrs[k - 1].name), SpecValue::Str(attrs[k - 1].value)),
            ));
            assert forall|m: int| 0 <= m < es.len() implies exists|j: int|
                0 <= j < k && j < attrs.len() && (#[trigger] es[m]).0 == qname_display(
                    attrs[j].name,
                ) by {
                if m < prev.len() {
                    assert(es[m] == prev[m]);
                    let j = choose|j: int|
                        0 <= j < k - 1 && j < attrs.len() && prev[m].0 == qname_display(
                            attrs[j].name,
                        );
                    assert(0 <= j < k && j < attrs.len() && es[m].0 == qname_display(
                        attrs[j].name,
                    ));
                } else {
                    assert(es[m].0 == qname_display(attrs[k - 1].name));
                }
            }
            assert forall|a: int, b: int| 0 <= a < b < es.len() implies (#[trigger] es[a]).0 != (
            #[trigger] es[b]).0 by {
                if b < prev.len() {
                    assert(es[a] == prev[a] && es[b] == prev[b]);
                } else {
                    assert(es[a] == prev[a]);
                    let j = choose|j: int|
                        0 <= j < k - 1 && j < attrs.len() && prev[a].0 == qname_display(
                            attrs[j].name,
                        );
                    assert(qname_display(attrs[j].name) != qname_display(attrs[k - 1].name));
                }
            }
        }
    }
}

/// Every record anywhere in a serialized value of a well-formed document
/// has pairwise distinct keys: the generic value model never repeats a key
/// within one record instance.
pub proof fn lemma_node_val_unique_keys(d: Seq<SpecNode>, i: int, fmt: NuDataFormat)
    requires
        wf_dom(d),
    ensures
        node_val(d, i, fmt) matches Some(v) ==> spec_value_wf(v),
    decreases d.len() - i, 1int, 0int,
{
    reveal_strlit("tag");
    reveal_strlit("attributes");
    reveal_strlit("id");
    reveal_strlit("classes");
    reveal_strlit("content");
    if 0 <= i < d.len() {
        match d[i].data {
            SpecNodeData::Document => {
                if d[i].children.len() > 0 && i < d[i].children[0] < d.len() {
                    lemma_node_val_unique_keys(d, d[i].children[0], fmt);
                }
            },
            SpecNodeData::Element { name, attrs } => {
                assert(node_attrs_unique(d[i]));
                let content = children_vals(d, i, d[i].children.len() as int, fmt);
                lemma_children_vals_wf(d, i, d[i].children.len() as int, fmt);
                lemma_attrs_entries_wf(attrs, attrs.len() as int, fmt);
                let ae = attrs_entries(attrs, attrs.len() as int, fmt);
                assert(spec_value_wf(SpecValue::Record(ae))) by {
                    assert forall|m: int| 0 <= m < ae.len() implies spec_value_wf(
                        #[trigger] ae[m].1,
                    ) by {
                        assert(ae[m].1 is Str);
                    }
                }
                let es = crate::serialize::element_entries(name, attrs, content, fmt);
                assert("tag"@.len() == 3);
                assert("attributes"@.len() == 10);
                assert("id"@.len() == 2);
                assert("classes"@.len() == 7);
                assert("content"@.len() == 7);
                assert("classes"@[1] == 'l' && "content"@[1] == 'o');
                assert("tag"@ != "attributes"@ && "tag"@ != "id"@ && "tag"@ != "classes"@
                    && "tag"@ != "content"@);
                assert("attributes"@ != "id"@ && "attributes"@ != "classes"@ && "attributes"@
                    != "content"@);
                assert("id"@ != "classes"@ && "id"@ != "content"@);
                assert("classes"@ != "content"@);
                if fmt == NuDataFormat::Html {
                    assert(es[0].0 == "tag"@);
                    assert(es[1].0 == "attributes"@);
                    assert(es[2].0 == "id"@);
                    assert(es[3].0 == "classes"@);
                    assert(es[4].0 == "content"@);
                } else {
                    assert(es[0].0 == "tag"@);
                    assert(es[1].0 == "attributes"@);
                    assert(es[2].0 == "content"@);
                }
                assert(entries_unique(es));
                assert forall|m: int| 0 <= m < es.len() implies spec_value_wf(
                    #[trigger] es[m].1,
                ) by {
                    if fmt == NuDataFormat::Html && m == 3 {
                        let cl = crate::serialize::classes_val(attrs);
                        assert(spec_value_wf(cl)) by {
                            match crate::serialize::find_attr(attrs, "class"@) {
                                Some(v) => {
                                    let toks = split_ws(v).map_values(
                                        |t: Seq<char>| SpecValue::Str(t),
                                    );
                                    assert forall|q: int| 0 <= q < toks.len() implies
                                        spec_value_wf(#[trigger] toks[q]) by {
                                        assert(toks[q] == SpecValue::Str(split_ws(v)[q]));
                                    }
                                },
                                None => {},
                            }
                        }
                    }
                    if (fmt == NuDataFormat::Html && m == 4) || (fmt != NuDataFormat::Html && m
                        == 2) {
                        assert(es[m].1 == SpecValue::List(content));
                    }
                }
                assert(node_val(d, i, fmt) == Some(SpecValue::Record(es)));
                assert(spec_value_wf(SpecValue::Record(es)));
            },
            SpecNodeData::Text { content } => {
                if fmt == NuDataFormat::FromXmlCompat {
                    let es = seq![
                        ("tag"@, SpecValue::Nothing),
                        ("attributes"@, SpecValue::Nothing),
                        ("content"@, SpecValue::Str(content)),
                    ];
                    assert("tag"@.len() == 3 && "attributes"@.len() == 10 && "content"@.len()
                        == 7);
                    assert("tag"@ != "attributes"@ && "tag"@ != "content"@ && "attributes"@
                        != "content"@);
                    assert(es[0].0 == "tag"@ && es[1].0 == "attributes"@ && es[2].0
                        == "content"@);
                    assert(entries_unique(es));
                    assert forall|m: int| 0 <= m < es.len() implies spec_value_wf(
                        #[trigger] es[m].1,
                    ) by {
                        assert(es[0].1 == SpecValue::Nothing && es[1].1 == SpecValue::Nothing
                            && es[2].1 == SpecValue::Str(content));
                    }
                    assert(node_val(d, i, fmt) == Some(SpecValue::Record(es)));
                    assert(spec_value_wf(SpecValue::Record(es)));
                } else {
                    assert(node_val(d, i, fmt) == Some(SpecValue::Str(content)));
                    assert(spec_value_wf(SpecValue::Str(content)));
                }
            },
            _ => {},
        }
    }
}

/// Every value in a content list of a well-formed document is itself
/// well-formed.
pub proof fn lemma_children_vals_wf(d: Seq<SpecNode>, i: int, k: int, fmt: NuDataFormat)
    requires
        wf_dom(d),
    ensures
        forall|m: int|
            0 <= m < children_vals(d, i, k, fmt).len() ==> spec_value_wf(
                #[trigger] children_vals(d, i, k, fmt)[m],
            ),
    decreases d.len() - i, 0int, k,
{
    if !(0 <= i < d.len()) || k <= 0 || k > d[i].children.len() {
    } else {
        lemma_children_vals_wf(d, i, k - 1, fmt);
        let prev = children_vals(d, i, k - 1, fmt);
        let cv = children_vals(d, i, k, fmt);
        let c = d[i].children[k - 1];
        if i < c < d.len() {
            lemma_node_val_unique_keys(d, c, fmt);
        }
        assert forall|m: int| 0 <= m < cv.len() implies spec_value_wf(#[trigger] cv[m]) by {
            if m < prev.len() {
                assert(cv[m] == prev[m]);
            }
        }
    }
}

/// The whitespace-splitting of `"x y"`: exactly the two tokens `x` and
/// `y`, in source order.
proof fn lemma_split_x_y()
    ensures
        split_ws("x y"@) == seq!["x"@, "y"@],
{
    reveal_strlit("x y");
    reveal_strlit("x");
    reveal_strlit("y");
    let s = "x y"@;
    assert(s.len() == 3);
    assert(!is_ascii_ws(s[0]));
    assert(is_ascii_ws(s[1]));
    lemma_tok_end_exact(s, 1);
    let rest = s.skip(1);
    assert(split_ws(s) == seq![s.take(1)] + split_ws(rest));
    assert(is_ascii_ws(rest[0]));
    assert(split_ws(rest) == split_ws(rest.drop_first()));
    let last = rest.drop_first();
    assert(last =~= s.skip(2));
    assert(last.len() == 1);
    assert(!is_ascii_ws(last[0]));
    lemma_tok_end_exact(last, 1);
    assert(split_ws(last) == seq![last.take(1)] + split_ws(last.skip(1)));
    assert(last.skip(1).len() == 0);
    assert(split_ws(last.skip(1)) =~= Seq::<Seq<char>>::empty());
    assert(last.take(1) =~= "y"@);
    assert(s.take(1) =~= "x"@);
    assert(split_ws(last) =~= seq!["y"@]);
    assert(split_ws(s) =~= seq!["x"@, "y"@]);
}

/// The round-trip shape of an element with attributes `a="1"`,
/// `class="x y"` and `id="z"` and no children.  Under `Html` the
/// identifying and class attributes are promoted to fields of their own
/// and excluded from the attributes record; under `Xml` every attribute
/// stays an ordinary attribute and nothing is promoted.
pub proof fn lemma_round_trip_shape(d: Seq<SpecNode>, i: int, name: SpecQName)
    requires
        0 <= i < d.len(),
        d[i].data == (SpecNodeData::Element {
            name,
            attrs: seq![
                SpecAttr { name: SpecQName { prefix: None, local: "a"@ }, value: "1"@ },
                SpecAttr { name: SpecQName { prefix: None, local: "class"@ }, value: "x y"@ },
                SpecAttr { name: SpecQName { prefix: None, local: "id"@ }, value: "z"@ },
            ],
        }),
        d[i].children.len() == 0,
    ensures
        node_val(d, i, NuDataFormat::Html) == Some(
            SpecValue::Record(
                seq![
                    ("tag"@, SpecValue::Str(qname_display(name))),
                    ("attributes"@, SpecValue::Record(seq![("a"@, SpecValue::Str("1"@))])),
                    ("id"@, SpecValue::Str("z"@)),
                    (
                        "classes"@,
                        SpecValue::List(seq![SpecValue::Str("x"@), SpecValue::Str("y"@)]),
                    ),
                    ("content"@, SpecValue::List(Seq::<SpecValue>::empty())),
                ],
            ),
        ),
        node_val(d, i, NuDataFormat::Xml) == Some(
            SpecValue::Record(
                seq![
                    ("tag"@, SpecValue::Str(qname_display(name))),
                    (
                        "attributes"@,
                        SpecValue::Record(
                            seq![
                                ("a"@, SpecValue::Str("1"@)),
                                ("class"@, SpecValue::Str("x y"@)),
                                ("id"@, SpecValue::Str("z"@)),
                            ],
                        ),
                    ),
                    ("content"@, SpecValue::List(Seq::<SpecValue>::empty())),
                ],
            ),
        ),
{
    reveal_with_fuel(crate::serialize::attrs_entries, 5);
    reveal_with_fuel(crate::serialize::find_attr, 5);
    reveal_with_fuel(children_vals, 2);
    reveal_strlit("a");
    reveal_strlit("1");
    reveal_strlit("class");
    reveal_strlit("classes");
    reveal_strlit("id");
    reveal_strlit("z");
    reveal_strlit("x y");
    let attrs = seq![
        SpecAttr { name: SpecQName { prefix: None, local: "a"@ }, value: "1"@ },
        SpecAttr { name: SpecQName { prefix: None, local: "class"@ }, value: "x y"@ },
        SpecAttr { name: SpecQName { prefix: None, local: "id"@ }, value: "z"@ },
    ];
    assert(qname_display(attrs[0].name) == "a"@);
    assert(qname_display(attrs[1].name) == "class"@);
    assert(qname_display(attrs[2].name) == "id"@);
    assert("a"@ != "id"@ && "a"@ != "class"@ && "a"@ != "classes"@);
    assert("class"@ != "id"@ && "class"@ != "classes"@);
    assert("id"@ != "classes"@);
    // the attributes record, with and without the promoted names
    assert(crate::serialize::attrs_entries(attrs, 3, NuDataFormat::Html) =~= seq![
        ("a"@, SpecValue::Str("1"@)),
    ]);
    assert(crate::serialize::attrs_entries(attrs, 3, NuDataFormat::Xml) =~= seq![
        ("a"@, SpecValue::Str("1"@)),
        ("class"@, SpecValue::Str("x y"@)),
        ("id"@, SpecValue::Str("z"@)),
    ]);
    // the promoted id and classes fields
    assert(attrs.drop_first() =~= attrs.subrange(1, 3));
    assert(attrs.subrange(1, 3).drop_first() =~= attrs.subrange(2, 3));
    assert(crate::serialize::find_attr(attrs, "id"@) == Some("z"@));
    assert(crate::serialize::find_attr(attrs, "class"@) == Some("x y"@));
    lemma_split_x_y();
    assert(split_ws("x y"@).map_values(|t: Seq<char>| SpecValue::Str(t)) =~= seq![
        SpecValue::Str("x"@),
        SpecValue::Str("y"@),
    ]);
    assert(children_vals(d, i, 0, NuDataFormat::Html) =~= Seq::<SpecValue>::empty());
    assert(children_vals(d, i, 0, NuDataFormat::Xml) =~= Seq::<SpecValue>::empty());
    assert(crate::serialize::element_entries(
        name,
        attrs,
        Seq::<SpecValue>::empty(),
        NuDataFormat::Html,
    ) =~= seq![
        ("tag"@, SpecValue::Str(qname_display(name))),
        ("attributes"@, SpecValue::Record(seq![("a"@, SpecValue::Str("1"@))])),
        ("id"@, SpecValue::Str("z"@)),
        ("classes"@, SpecValue::List(seq![SpecValue::Str("x"@), SpecValue::Str("y"@)])),
        ("content"@, SpecValue::List(Seq::<SpecValue>::empty())),
    ]);
    assert(crate::serialize::element_entries(
        name,
        attrs,
        Seq::<SpecValue>::empty(),
        NuDataFormat::Xml,
    ) =~= seq![
        ("tag"@, SpecValue::Str(qname_display(name))),
        (
            "attributes"@,
            SpecValue::Record(
                seq![
                    ("a"@, SpecValue::Str("1"@)),
                    ("class"@, SpecValue::Str("x y"@)),
                    ("id"@, SpecValue::Str("z"@)),
                ],
            ),
        ),
        ("content"@, SpecValue::List(Seq::<SpecValue>::empty())),
    ]);
}

} // verus!
