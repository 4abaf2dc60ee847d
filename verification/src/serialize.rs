//! The recursive structured serializer: one pure, format-parameterized
//! transform from a document subtree to a generic value, shared by every
//! backend.  The spec functions here are the single source of truth for the
//! per-format edge cases; the executable walk is proved equal to them.

use vstd::prelude::*;
use vstd::string::{StrSliceExecFns, StringExecFns};

use crate::dom::{qname_display, Attr, Doc, NodeData, SpecAttr, SpecNodeData};
use crate::format_qual_name;
use crate::text::str_eq;
use crate::value::{lemma_list_view_push, list_view, value_view, Record, SpecValue, Value};
use crate::NuDataFormat;

verus! {

/// ASCII whitespace: space, tab, line feed, form feed, carriage return.
pub open spec fn is_ascii_ws(c: char) -> bool {
    c == ' ' || c == '\t' || c == '\n' || c == '\x0C' || c == '\r'
}

/// The length of the leading run of non-whitespace characters.
pub open spec fn tok_end(s: Seq<char>) -> int
    decreases s.len(),
{
    if s.len() == 0 {
        0
    } else if is_ascii_ws(s[0]) {
        0
    } else {
        1 + tok_end(s.drop_first())
    }
}

pub proof fn lemma_tok_end_bounds(s: Seq<char>)
    ensures
        0 <= tok_end(s) <= s.len(),
        s.len() > 0 && !is_ascii_ws(s[0]) ==> tok_end(s) >= 1,
    decreases s.len(),
{
    if s.len() > 0 && !is_ascii_ws(s[0]) {
        lemma_tok_end_bounds(s.drop_first());
    }
}

/// The value of `tok_end` is the position of the first whitespace character,
/// or the length when there is none.
pub proof fn lemma_tok_end_exact(s: Seq<char>, m: int)
    requires
        0 <= m <= s.len(),
        forall|q: int| 0 <= q < m ==> !is_ascii_ws(#[trigger] s[q]),
        m == s.len() || is_ascii_ws(s[m]),
    ensures
        tok_end(s) == m,
    decreases m,
{
    if m == 0 {
    } else {
        assert(!is_ascii_ws(s[0]));
        let t = s.drop_first();
        assert forall|q: int| 0 <= q < m - 1 implies !is_ascii_ws(#[trigger] t[q]) by {
            assert(t[q] == s[q + 1]);
        }
        if m < s.len() {
            assert(t[m - 1] == s[m]);
        }
        lemma_tok_end_exact(t, m - 1);
    }
}

/// The whitespace-delimited tokens of a character sequence, in source order.
/// Only ASCII whitespace splits; empty tokens never occur.
pub open spec fn split_ws(s: Seq<char>) -> Seq<Seq<char>>
    decreases s.len(),
    via split_ws_decreases
{
    if s.len() == 0 {
        Seq::empty()
    } else if is_ascii_ws(s[0]) {
        split_ws(s.drop_first())
    } else {
        seq![s.take(tok_end(s))] + split_ws(s.skip(tok_end(s)))
    }
}

#[via_fn]
proof fn split_ws_decreases(s: Seq<char>) {
    if s.len() > 0 && !is_ascii_ws(s[0]) {
        lemma_tok_end_bounds(s);
    }
}

/// Split a string into its ASCII-whitespace-delimited tokens.
pub fn split_ascii_ws(s: &str) -> (r: Vec<String>)
    ensures
        r@.map_values(|t: String| t@) == split_ws(s@),
{
    let n = s.unicode_len();
    let mut out: Vec<String> = Vec::new();
    let mut i: usize = 0;
    proof {
        assert(s@.skip(0) =~= s@);
        assert(Seq::<String>::empty().map_values(|t: String| t@) + split_ws(s@) =~= split_ws(s@));
    }
    while i < n
        invariant
            n == s@.len(),
            i <= n,
            split_ws(s@) =~= out@.map_values(|t: String| t@) + split_ws(s@.skip(i as int)),
        decreases n - i,
    {
        let c = s.get_char(i);
        if c == ' ' || c == '\t' || c == '\n' || c == '\x0C' || c == '\r' {
            proof {
                let rest = s@.skip(i as int);
                assert(rest[0] == s@[i as int]);
                assert(rest.drop_first() =~= s@.skip(i as int + 1));
            }
            i = i + 1;
        } else {
            let mut j = i + 1;
            while j < n && !is_ws_char(s.get_char(j))
                invariant
                    n == s@.len(),
                    i < j <= n,
                    forall|m: int| i <= m < j ==> !is_ascii_ws(#[trigger] s@[m]),
                decreases n - j,
            {
                j = j + 1;
            }
            let tok = s.substring_char(i, j).to_owned();
            proof {
                let rest = s@.skip(i as int);
                assert forall|q: int| 0 <= q < j - i implies !is_ascii_ws(#[trigger] rest[q]) by {
                    assert(rest[q] == s@[i + q]);
                }
                if j < n {
                    assert(rest[j - i] == s@[j as int]);
                }
                lemma_tok_end_exact(rest, j - i);
                assert(rest.take(j - i) =~= s@.subrange(i as int, j as int));
                assert(rest.skip(j - i) =~= s@.skip(j as int));
                assert(out@.push(tok).map_values(|t: String| t@) =~= out@.map_values(
                    |t: String| t@,
                ).push(tok@));
                assert(out@.map_values(|t: String| t@).push(tok@) + split_ws(s@.skip(j as int))
                    =~= out@.map_values(|t: String| t@) + (seq![tok@] + split_ws(
                    s@.skip(j as int),
                )));
            }
            out.push(tok);
            i = j;
        }
    }
    proof {
        assert(s@.skip(n as int) =~= Seq::<char>::empty());
        assert(out@.map_values(|t: String| t@) + Seq::<Seq<char>>::empty() =~= out@.map_values(
            |t: String| t@,
        ));
    }
    out
}

/// Whether a character is ASCII whitespace; agrees with [`is_ascii_ws`].
pub fn is_ws_char(c: char) -> (r: bool)
    ensures
        r == is_ascii_ws(c),
{
    c == ' ' || c == '\t' || c == '\n' || c == '\x0C' || c == '\r'
}

/// The value of the first attribute whose display name is `name`, if any.
pub open spec fn find_attr(attrs: Seq<SpecAttr>, name: Seq<char>) -> Option<Seq<char>>
    decreases attrs.len(),
{
    if attrs.len() == 0 {
        None
    } else if qname_display(attrs[0].name) == name {
        Some(attrs[0].value)
    } else {
        find_attr(attrs.drop_first(), name)
    }
}

/// Look up the first attribute with the given display name.
pub fn find_attr_value(attrs: &Vec<Attr>, name: &str) -> (r: Option<String>)
    ensures
        match r {
            Some(v) => find_attr(attrs@.map_values(|a: Attr| a@), name@) == Some(v@),
            None => find_attr(attrs@.map_values(|a: Attr| a@), name@) is None,
        },
{
    let ghost av = attrs@.map_values(|a: Attr| a@);
    let mut i: usize = 0;
    proof {
        assert(av.skip(0) =~= av);
    }
    while i < attrs.len()
        invariant
            av == attrs@.map_values(|a: Attr| a@),
            i <= attrs.len(),
            find_attr(av, name@) == find_attr(av.skip(i as int), name@),
        decreases attrs.len() - i,
    {
        let d = format_qual_name(&attrs[i].name);
        proof {
            assert(av.skip(i as int)[0] == av[i as int]);
            assert(av.skip(i as int).drop_first() =~= av.skip(i as int + 1));
        }
        if str_eq(d.as_str(), name) {
            return Some(attrs[i].value.clone());
        }
        i = i + 1;
    }
    proof {
        assert(av.skip(attrs@.len() as int) =~= Seq::<SpecAttr>::empty());
    }
    None
}

/// Under the `Html` format these attribute display names are excluded from
/// the generic attributes record: the identifying and class attributes are
/// promoted to fields of their own instead of appearing twice.
pub open spec fn is_excluded_html_attr(n: Seq<char>) -> bool {
    n == "id"@ || n == "class"@ || n == "classes"@
}

/// The record entries of the first `k` attributes: each display name mapped
/// to its value, in source order, excluding under `Html` the promoted names.
pub open spec fn attrs_entries(attrs: Seq<SpecAttr>, k: int, fmt: NuDataFormat) -> Seq<
    (Seq<char>, SpecValue),
>
    decreases k,
{
    if k <= 0 || k > attrs.len() {
        Seq::empty()
    } else {
        let prev = attrs_entries(attrs, k - 1, fmt);
        let n = qname_display(attrs[k - 1].name);
        if fmt == NuDataFormat::Html && is_excluded_html_attr(n) {
            prev
        } else {
            prev.push((n, SpecValue::Str(attrs[k - 1].value)))
        }
    }
}

/// The formats that build a generic value tree; the two remaining formats
/// degenerate to a backend's own markup serialization instead.
pub open spec fn structured_format(fmt: NuDataFormat) -> bool {
    fmt == NuDataFormat::Html || fmt == NuDataFormat::Xml || fmt == NuDataFormat::FromXmlCompat
}

/// What a text node serializes to: its raw content as a bare string, except
/// under `FromXmlCompat`, where it becomes a pseudo-element record so that
/// sibling text and element records share one shape.
pub open spec fn text_val(content: Seq<char>, fmt: NuDataFormat) -> SpecValue {
    if fmt == NuDataFormat::FromXmlCompat {
        SpecValue::Record(
            seq![
                ("tag"@, SpecValue::Nothing),
                ("attributes"@, SpecValue::Nothing),
                ("content"@, SpecValue::Str(content)),
            ],
        )
    } else {
        SpecValue::Str(content)
    }
}

/// The promoted `id` field of an element under `Html`: the value of its
/// `id` attribute, or nothing.
pub open spec fn id_val(attrs: Seq<SpecAttr>) -> SpecValue {
    match find_attr(attrs, "id"@) {
        Some(v) => SpecValue::Str(v),
        None => SpecValue::Nothing,
    }
}

/// The promoted `classes` field of an element under `Html`: one string per
/// whitespace-delimited token of the `class` attribute, in source order, an
/// empty list when the attribute is absent.
pub open spec fn classes_val(attrs: Seq<SpecAttr>) -> SpecValue {
    match find_attr(attrs, "class"@) {
        Some(v) => SpecValue::List(split_ws(v).map_values(|t: Seq<char>| SpecValue::Str(t))),
        None => SpecValue::List(Seq::empty()),
    }
}

/// The record entries of one element, in their fixed key order: `tag`,
/// `attributes`, then under `Html` the promoted `id` and `classes` fields,
/// then `content`.
pub open spec fn element_entries(
    name: crate::dom::SpecQName,
    attrs: Seq<SpecAttr>,
    content: Seq<SpecValue>,
    fmt: NuDataFormat,
) -> Seq<(Seq<char>, SpecValue)> {
    let tag_e = ("tag"@, SpecValue::Str(qname_display(name)));
    let attrs_e = ("attributes"@, SpecValue::Record(
        attrs_entries(attrs, attrs.len() as int, fmt),
    ));
    let content_e = ("content"@, SpecValue::List(content));
    if fmt == NuDataFormat::Html {
        seq![
            tag_e,
            attrs_e,
            ("id"@, id_val(attrs)),
            ("classes"@, classes_val(attrs)),
            content_e,
        ]
    } else {
        seq![tag_e, attrs_e, content_e]
    }
}

/// What one node of a well-formed arena serializes to under a structured
/// format, or nothing for the semantically transparent node kinds.  A
/// document descends into its first child only; a dropped child contributes
/// nothing to its parent's content list, not a placeholder.
pub open spec fn node_val(d: Seq<crate::dom::SpecNode>, i: int, fmt: NuDataFormat) -> Option<
    SpecValue,
>
    decreases d.len() - i, 1int, 0int,
{
    if !(0 <= i < d.len()) {
        None
    } else {
        match d[i].data {
            SpecNodeData::Document => {
                if d[i].children.len() > 0 && i < d[i].children[0] < d.len() {
                    node_val(d, d[i].children[0], fmt)
                } else {
                    None
                }
            },
            SpecNodeData::Element { name, attrs } => Some(
                SpecValue::Record(
                    element_entries(
                        name,
                        attrs,
                        children_vals(d, i, d[i].children.len() as int, fmt),
                        fmt,
                    ),
                ),
            ),
            SpecNodeData::Text { content } => Some(text_val(content, fmt)),
            _ => None,
        }
    }
}

/// The serialized values of the first `k` children of node `i`, in document
/// order, with the children that serialize to nothing dropped.
pub open spec fn children_vals(
    d: Seq<crate::dom::SpecNode>,
    i: int,
    k: int,
    fmt: NuDataFormat,
) -> Seq<SpecValue>
    decreases d.len() - i, 0int, k,
{
    if !(0 <= i < d.len()) || k <= 0 || k > d[i].children.len() {
        Seq::empty()
    } else {
        let prev = children_vals(d, i, k - 1, fmt);
        let c = d[i].children[k - 1];
        if i < c < d.len() {
            match node_val(d, c, fmt) {
                Some(v) => prev.push(v),
                None => prev,
            }
        } else {
            prev
        }
    }
}

/// An optional value with absence made explicit.
pub open spec fn opt_or_nothing(o: Option<SpecValue>) -> SpecValue {
    match o {
        Some(v) => v,
        None => SpecValue::Nothing,
    }
}

/// The view of an optional value.
pub open spec fn opt_view(r: Option<Value>) -> Option<SpecValue> {
    match r {
        Some(v) => Some(value_view(v)),
        None => None,
    }
}

/// Build the generic attributes record of an element.
pub fn attrs_record(attrs: &Vec<Attr>, fmt: NuDataFormat) -> (r: Record)
    ensures
        r@ == attrs_entries(attrs@.map_values(|a: Attr| a@), attrs@.len() as int, fmt),
{
    let ghost av = attrs@.map_values(|a: Attr| a@);
    let is_html = match fmt {
        NuDataFormat::Html => true,
        _ => false,
    };
    let mut r = Record::new();
    let mut i: usize = 0;
    while i < attrs.len()
        invariant
            av == attrs@.map_values(|a: Attr| a@),
            i <= attrs.len(),
            is_html == (fmt == NuDataFormat::Html),
            r@ == attrs_entries(av, i as int, fmt),
        decreases attrs.len() - i,
    {
        let d = format_qual_name(&attrs[i].name);
        proof {
            assert(av[i as int] == attrs@[i as int]@);
        }
        let excluded = is_html && (str_eq(d.as_str(), "id") || str_eq(d.as_str(), "class")
            || str_eq(d.as_str(), "classes"));
        if !excluded {
            r.push(d, Value::Str(attrs[i].value.clone()));
        }
        i = i + 1;
    }
    r
}

/// Serialize one node of a well-formed document under a structured format.
/// The result is pinned to [`node_val`], so equal arenas serialize equally
/// whichever backend produced them.
pub fn to_value(doc: &Doc, i: usize, fmt: NuDataFormat) -> (r: Option<Value>)
    requires
        doc.wf(),
        structured_format(fmt),
    ensures
        opt_view(r) == node_val(doc@, i as int, fmt),
    decreases doc@.len() - i,
{
    if i >= doc.nodes.len() {
        return None;
    }
    proof {
        assert(doc@[i as int] == doc.nodes@[i as int]@);
    }
    let is_html = match fmt {
        NuDataFormat::Html => true,
        _ => false,
    };
    let is_compat = match fmt {
        NuDataFormat::FromXmlCompat => true,
        _ => false,
    };
    match &doc.nodes[i].data {
        NodeData::Document => {
            if doc.nodes[i].children.len() == 0 {
                None
            } else {
                let c = doc.nodes[i].children[0];
                proof {
                    assert(doc@[i as int].children[0] == c as int);
                    assert(i < doc@[i as int].children[0] < doc@.len());
                }
                to_value(doc, c, fmt)
            }
        },
        NodeData::Text { content } => {
            if is_compat {
                let mut rec = Record::new();
                rec.push(String::from_str("tag"), Value::Nothing);
                rec.push(String::from_str("attributes"), Value::Nothing);
                rec.push(String::from_str("content"), Value::Str(content.clone()));
                proof {
                    assert(rec@ =~= seq![
                        ("tag"@, SpecValue::Nothing),
                        ("attributes"@, SpecValue::Nothing),
                        ("content"@, SpecValue::Str(content@)),
                    ]);
                }
                Some(Value::Record(rec))
            } else {
                Some(Value::Str(content.clone()))
            }
        },
        NodeData::Element { name, attrs } => {
            let ghost dd = doc@;
            let ghost ii = i as int;
            let ghost sname = name@;
            let ghost sattrs = attrs@.map_values(|a: Attr| a@);
            let tag = format_qual_name(name);
            let ar = attrs_record(attrs, fmt);
            let ghost ar_view = ar@;
            let mut rec = Record::new();
            rec.push(String::from_str("tag"), Value::Str(tag));
            rec.push(String::from_str("attributes"), Value::Record(ar));
            if is_html {
                let idv = match find_attr_value(attrs, "id") {
                    Some(v) => Value::Str(v),
                    None => Value::Nothing,
                };
                proof {
                    assert(value_view(idv) == id_val(sattrs));
                }
                rec.push(String::from_str("id"), idv);
                let clv = match find_attr_value(attrs, "class") {
                    Some(v) => {
                        let toks = split_ascii_ws(v.as_str());
                        let ghost target = split_ws(v@).map_values(
                            |q: Seq<char>| SpecValue::Str(q),
                        );
                        let mut cl: Vec<Value> = Vec::new();
                        let mut t: usize = 0;
                        while t < toks.len()
                            invariant
                                t <= toks.len(),
                                toks@.map_values(|s: String| s@) == split_ws(v@),
                                target == split_ws(v@).map_values(|q: Seq<char>| SpecValue::Str(q)),
                                cl@.len() == t,
                                list_view(cl@, t as int) == target.take(t as int),
                            decreases toks.len() - t,
                        {
                            let ghost prev = cl@;
                            let tokv = toks[t].clone();
                            proof {
                                assert(toks@.map_values(|s: String| s@)[t as int] == toks@[t as int]@);
                            }
                            let ghost tokview = tokv@;
                            cl.push(Value::Str(tokv));
                            proof {
                                lemma_list_view_push(prev, cl@[t as int], t as int);
                                assert(tokview == split_ws(v@)[t as int]);
                                assert(value_view(cl@[t as int]) == SpecValue::Str(tokview));
                                assert(target[t as int] == SpecValue::Str(split_ws(v@)[t as int]));
                                assert(list_view(cl@, t as int + 1) == list_view(
                                    cl@,
                                    t as int,
                                ).push(value_view(cl@[t as int])));
                                assert(target.take(t as int + 1) =~= target.take(t as int).push(
                                    target[t as int],
                                ));
                            }
                            t = t + 1;
                        }
                        proof {
                            assert(target.take(toks@.len() as int) =~= target);
                        }
                        Value::List(cl)
                    },
                    None => Value::List(Vec::new()),
                };
                proof {
                    assert(value_view(clv) == classes_val(sattrs));
                }
                rec.push(String::from_str("classes"), clv);
            }
            let mut content: Vec<Value> = Vec::new();
            let mut j: usize = 0;
            while j < doc.nodes[i].children.len()
                invariant
                    doc.wf(),
                    structured_format(fmt),
                    dd == doc@,
                    ii == i as int,
                    0 <= ii < dd.len(),
                    j <= dd[ii].children.len(),
                    dd[ii].children.len() == doc.nodes@[ii].children@.len(),
                    content@.len() == children_vals(dd, ii, j as int, fmt).len(),
                    list_view(content@, content@.len() as int) == children_vals(
                        dd,
                        ii,
                        j as int,
                        fmt,
                    ),
                decreases dd[ii].children.len() - j,
            {
                let c = doc.nodes[i].children[j];
                proof {
                    assert(dd[ii].children[j as int] == c as int);
                    assert(ii < dd[ii].children[j as int] < dd.len());
                }
                let rv = to_value(doc, c, fmt);
                let ghost prevc = content@;
                match rv {
                    Some(v) => {
                        let ghost gv = v;
                        content.push(v);
                        proof {
                            lemma_list_view_push(prevc, gv, prevc.len() as int);
                        }
                    },
                    None => {},
                }
                j = j + 1;
            }
            let ghost content_view = children_vals(dd, ii, dd[ii].children.len() as int, fmt);
            rec.push(String::from_str("content"), Value::List(content));
            proof {
                assert(rec@ =~= element_entries(sname, sattrs, content_view, fmt));
            }
            Some(Value::Record(rec))
        },
        NodeData::Comment => None,
        NodeData::Doctype => None,
        NodeData::ProcessingInstruction => None,
        NodeData::Fragment => None,
    }
}

} // verus!
