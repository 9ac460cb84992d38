//! The document model and the tree navigator.
//!
//! A parsed document is an owned arena of nodes in document (preorder)
//! order. Each element records where its contiguous subtree span ends, so
//! the strict descendants of the node at `i` are exactly the nodes at
//! `i + 1 .. end_of(i)`. Well-formedness (`wf`) ties the spans to the
//! child lists: a node's children tile its span. The navigator offers the
//! read-only lookups the parsers need: direct children, first or all
//! selector matches among the descendants, a node's verbatim text when it
//! wraps exactly one text node, flattened inner text, and heading labels.
//! All lookups are total: absence is `None`, never a panic.

use vstd::prelude::*;
use crate::strutil::str_eq;
use crate::word::opt_str_view;

verus! {

/// One node: raw text, or an element with its tag name, class list,
/// `src` attribute when present, direct children (arena positions), and
/// the end of its subtree span.
pub enum HtmlNode {
    Text { text: String },
    Elem {
        tag: String,
        classes: Vec<String>,
        src_attr: Option<String>,
        children: Vec<usize>,
        end: usize,
    },
}

/// A parsed document: nodes in document order.
pub struct Doc {
    pub nodes: Vec<HtmlNode>,
}

/// Where the subtree span of the node at `i` ends.
pub open spec fn end_of(doc: Doc, i: int) -> int {
    match doc.nodes@[i] {
        HtmlNode::Text { .. } => i + 1,
        HtmlNode::Elem { end, .. } => end as int,
    }
}

/// The direct children of the node at `i` (empty for text nodes).
pub open spec fn children_of(doc: Doc, i: int) -> Seq<usize> {
    match doc.nodes@[i] {
        HtmlNode::Text { .. } => Seq::empty(),
        HtmlNode::Elem { children, .. } => children@,
    }
}

/// Well-formedness of one node: its span lies inside the arena, starts
/// right after it, and is tiled by the spans of its children in order.
pub open spec fn wf_at(doc: Doc, i: int) -> bool {
    match doc.nodes@[i] {
        HtmlNode::Text { .. } => true,
        HtmlNode::Elem { children, end, .. } => {
            &&& i < end <= doc.nodes@.len()
            &&& children@.len() == 0 ==> end == i + 1
            &&& children@.len() > 0 ==> {
                &&& children@[0] == i + 1
                &&& forall|m: int|
                    0 <= m < children@.len() ==> i < #[trigger] children@[m] < end
                &&& forall|m: int|
                    0 <= m < children@.len() - 1 ==> end_of(
                        doc,
                        (#[trigger] children@[m]) as int,
                    ) == children@[m + 1]
                &&& end_of(doc, children@[children@.len() - 1] as int) == end
            }
        },
    }
}

/// Well-formedness of the whole arena.
pub open spec fn wf(doc: Doc) -> bool {
    forall|i: int| 0 <= i < doc.nodes@.len() ==> #[trigger] wf_at(doc, i)
}

/// The end of the subtree span of the node at `j`.
pub fn node_end(doc: &Doc, j: usize) -> (r: usize)
    requires
        j < doc.nodes@.len(),
    ensures
        r as int == end_of(*doc, j as int),
{
    let n = doc.nodes.len();
    match &doc.nodes[j] {
        HtmlNode::Text { .. } => j + 1,
        HtmlNode::Elem { end, .. } => *end,
    }
}

fn check_wf_at(doc: &Doc, i: usize) -> (r: bool)
    requires
        i < doc.nodes@.len(),
    ensures
        r == wf_at(*doc, i as int),
{
    let n = doc.nodes.len();
    match &doc.nodes[i] {
        HtmlNode::Text { .. } => true,
        HtmlNode::Elem { children, end, .. } => {
            let e = *end;
            if !(i < e && e <= n) {
                return false;
            }
            let cl = children.len();
            if cl == 0 {
                return e == i + 1;
            }
            if children[0] != i + 1 {
                return false;
            }
            let mut m: usize = 0;
            while m < cl
                invariant
                    i < doc.nodes@.len(),
                    doc.nodes@[i as int] matches HtmlNode::Elem { children: c0, end: e0, .. }
                        && c0@ == children@ && e0 == e,
                    cl == children@.len(),
                    m <= cl,
                    i < e <= doc.nodes@.len(),
                    forall|t: int| 0 <= t < m ==> i < #[trigger] children@[t] < e,
                decreases cl - m,
            {
                let c = children[m];
                if !(i < c && c < e) {
                    assert(children@[m as int] == c);
                    assert(!wf_at(*doc, i as int));
                    return false;
                }
                m += 1;
            }
            let mut m2: usize = 0;
            while m2 < cl - 1
                invariant
                    i < doc.nodes@.len(),
                    doc.nodes@[i as int] matches HtmlNode::Elem { children: c0, end: e0, .. }
                        && c0@ == children@ && e0 == e,
                    cl == children@.len(),
                    1 <= cl,
                    m2 <= cl - 1,
                    i < e <= doc.nodes@.len(),
                    forall|t: int| 0 <= t < cl ==> i < #[trigger] children@[t] < e,
                    forall|t: int|
                        0 <= t < m2 ==> end_of(*doc, (#[trigger] children@[t]) as int)
                            == children@[t + 1],
                decreases cl - m2,
            {
                let c = children[m2];
                let nx = children[m2 + 1];
                if node_end(doc, c) != nx {
                    assert(children@[m2 as int] == c);
                    assert(!wf_at(*doc, i as int));
                    return false;
                }
                m2 += 1;
            }
            let lastc = children[cl - 1];
            if node_end(doc, lastc) != e {
                assert(!wf_at(*doc, i as int));
                return false;
            }
            assert(wf_at(*doc, i as int));
            true
        },
    }
}

/// Decides `wf`: whether a document handed in from outside is a sound
/// arena that the navigator may traverse.
pub fn doc_wf(doc: &Doc) -> (r: bool)
    ensures
        r == wf(*doc),
{
    let n = doc.nodes.len();
    let mut i: usize = 0;
    while i < n
        invariant
            n == doc.nodes@.len(),
            i <= n,
            forall|j: int| 0 <= j < i ==> #[trigger] wf_at(*doc, j),
        decreases n - i,
    {
        if !check_wf_at(doc, i) {
            assert(!wf(*doc));
            return false;
        }
        i += 1;
    }
    true
}

/// Whether the node at `j` is an element carrying the tag `t`.
pub open spec fn has_tag(doc: Doc, j: int, t: Seq<char>) -> bool {
    doc.nodes@[j] matches HtmlNode::Elem { tag, .. } && tag@ == t
}

/// Decides `has_tag`.
pub fn node_has_tag(doc: &Doc, j: usize, t: &str) -> (r: bool)
    requires
        j < doc.nodes@.len(),
    ensures
        r == has_tag(*doc, j as int, t@),
{
    match &doc.nodes[j] {
        HtmlNode::Text { .. } => false,
        HtmlNode::Elem { tag, .. } => str_eq(tag.as_str(), t),
    }
}

/// Whether the node at `j` is an element.
pub fn node_is_elem(doc: &Doc, j: usize) -> (r: bool)
    requires
        j < doc.nodes@.len(),
    ensures
        r == (doc.nodes@[j as int] is Elem),
{
    match &doc.nodes[j] {
        HtmlNode::Text { .. } => false,
        HtmlNode::Elem { .. } => true,
    }
}

/// Whether one of `classes` reads `c`.
pub open spec fn class_list_has(classes: Seq<String>, c: Seq<char>) -> bool {
    exists|k: int| 0 <= k < classes.len() && #[trigger] classes[k]@ == c
}

fn has_class(classes: &Vec<String>, c: &str) -> (r: bool)
    ensures
        r == class_list_has(classes@, c@),
{
    let n = classes.len();
    let mut k: usize = 0;
    while k < n
        invariant
            n == classes@.len(),
            k <= n,
            forall|t: int| 0 <= t < k ==> #[trigger] classes@[t]@ != c@,
        decreases n - k,
    {
        if str_eq(classes[k].as_str(), c) {
            assert(classes@[k as int]@ == c@);
            return true;
        }
        k += 1;
    }
    false
}

/// The views of a list of string slices.
pub open spec fn strs_view(ss: Seq<&str>) -> Seq<Seq<char>> {
    ss.map_values(|s: &str| s@)
}

/// Whether the node at `i` is an element with tag `tag` whose class list
/// holds every class in `want` — the selector discipline of the source
/// documents (tag name plus class predicates).
pub open spec fn sel_match(doc: Doc, i: int, tag: Seq<char>, want: Seq<Seq<char>>) -> bool {
    doc.nodes@[i] matches HtmlNode::Elem { tag: t, classes, .. } && t@ == tag && forall|m: int|
        0 <= m < want.len() ==> class_list_has(classes@, #[trigger] want[m])
}

/// Decides `sel_match`.
pub fn node_matches_sel(doc: &Doc, i: usize, tag: &str, want: &Vec<&str>) -> (r: bool)
    requires
        i < doc.nodes@.len(),
    ensures
        r == sel_match(*doc, i as int, tag@, strs_view(want@)),
{
    match &doc.nodes[i] {
        HtmlNode::Text { .. } => false,
        HtmlNode::Elem { tag: t, classes, .. } => {
            if !str_eq(t.as_str(), tag) {
                return false;
            }
            let n = want.len();
            let mut m: usize = 0;
            while m < n
                invariant
                    i < doc.nodes@.len(),
                    n == want@.len(),
                    m <= n,
                    doc.nodes@[i as int] matches HtmlNode::Elem { tag: t2, classes: cl2, .. }
                        && t2@ == tag@ && cl2@ == classes@,
                    forall|u: int|
                        0 <= u < m ==> class_list_has(classes@, #[trigger] strs_view(want@)[u]),
                decreases n - m,
            {
                let w: &str = want[m];
                if !has_class(classes, w) {
                    assert(strs_view(want@)[m as int] == w@);
                    return false;
                }
                assert(strs_view(want@)[m as int] == w@);
                m += 1;
            }
            true
        },
    }
}

/// The first position in `lo .. hi` whose node matches the selector.
pub open spec fn first_match_in(
    doc: Doc,
    lo: int,
    hi: int,
    tag: Seq<char>,
    want: Seq<Seq<char>>,
) -> Option<int>
    decreases hi - lo,
{
    if lo >= hi {
        Option::None
    } else if sel_match(doc, lo, tag, want) {
        Option::Some(lo)
    } else {
        first_match_in(doc, lo + 1, hi, tag, want)
    }
}

/// What `first_match_in` returns: a matching position preceded by no
/// other, or nothing when no position in the range matches.
pub proof fn lemma_first_match_in(doc: Doc, lo: int, hi: int, tag: Seq<char>, want: Seq<Seq<char>>)
    ensures
        match first_match_in(doc, lo, hi, tag, want) {
            Option::Some(j) => lo <= j < hi && sel_match(doc, j, tag, want) && forall|m: int|
                lo <= m < j ==> !sel_match(doc, m, tag, want),
            Option::None => forall|m: int| lo <= m < hi ==> !sel_match(doc, m, tag, want),
        },
    decreases hi - lo,
{
    if lo >= hi {
    } else if sel_match(doc, lo, tag, want) {
    } else {
        lemma_first_match_in(doc, lo + 1, hi, tag, want);
    }
}

/// An option over positions, seen as an option over integers.
pub open spec fn opt_pos(o: Option<usize>) -> Option<int> {
    match o {
        Option::Some(j) => Option::Some(j as int),
        Option::None => Option::None,
    }
}

/// Finds the first node in `lo .. hi` matching the selector.
pub fn query_first_in(doc: &Doc, lo: usize, hi: usize, tag: &str, want: &Vec<&str>) -> (r: Option<
    usize,
>)
    requires
        lo <= hi <= doc.nodes@.len(),
    ensures
        opt_pos(r) == first_match_in(*doc, lo as int, hi as int, tag@, strs_view(want@)),
        r matches Option::Some(j) ==> lo <= j < hi,
{
    let mut j: usize = lo;
    while j < hi
        invariant
            lo <= j <= hi <= doc.nodes@.len(),
            first_match_in(*doc, lo as int, hi as int, tag@, strs_view(want@)) == first_match_in(
                *doc,
                j as int,
                hi as int,
                tag@,
                strs_view(want@),
            ),
        decreases hi - j,
    {
        if node_matches_sel(doc, j, tag, want) {
            return Option::Some(j);
        }
        j += 1;
    }
    Option::None
}

/// The first strict descendant of the node at `i` matching the selector.
pub open spec fn query_first(doc: Doc, i: int, tag: Seq<char>, want: Seq<Seq<char>>) -> Option<
    int,
> {
    first_match_in(doc, i + 1, end_of(doc, i), tag, want)
}

/// Runs a scoped selector: the first matching strict descendant of the
/// node at `i`, or nothing.
pub fn query_select_first(doc: &Doc, i: usize, tag: &str, want: &Vec<&str>) -> (r: Option<usize>)
    requires
        wf(*doc),
        i < doc.nodes@.len(),
    ensures
        opt_pos(r) == query_first(*doc, i as int, tag@, strs_view(want@)),
        r matches Option::Some(j) ==> i < j < doc.nodes@.len(),
{
    assert(wf_at(*doc, i as int));
    let e = node_end(doc, i);
    query_first_in(doc, i + 1, e, tag, want)
}

/// Every position in `lo .. hi` whose node matches the selector, in
/// document order.
pub open spec fn matches_in(doc: Doc, lo: int, hi: int, tag: Seq<char>, want: Seq<Seq<char>>) -> Seq<
    int,
>
    decreases hi - lo,
{
    if lo >= hi {
        Seq::empty()
    } else if sel_match(doc, lo, tag, want) {
        seq![lo] + matches_in(doc, lo + 1, hi, tag, want)
    } else {
        matches_in(doc, lo + 1, hi, tag, want)
    }
}

/// The positions of a list, seen as integers.
pub open spec fn positions(v: Seq<usize>) -> Seq<int> {
    v.map_values(|u: usize| u as int)
}

/// The views of a list of position lists.
pub open spec fn views_of(s: Seq<Vec<usize>>) -> Seq<Seq<usize>> {
    s.map_values(|v: Vec<usize>| v@)
}

/// Collects every node in `lo .. hi` matching the selector.
pub fn query_all_in(doc: &Doc, lo: usize, hi: usize, tag: &str, want: &Vec<&str>) -> (r: Vec<usize>)
    requires
        lo <= hi <= doc.nodes@.len(),
    ensures
        positions(r@) == matches_in(*doc, lo as int, hi as int, tag@, strs_view(want@)),
        forall|k: int| 0 <= k < r@.len() ==> lo <= #[trigger] r@[k] < hi,
{
    let mut acc: Vec<usize> = Vec::new();
    let mut j: usize = lo;
    while j < hi
        invariant
            lo <= j <= hi <= doc.nodes@.len(),
            matches_in(*doc, lo as int, hi as int, tag@, strs_view(want@)) == positions(acc@)
                + matches_in(*doc, j as int, hi as int, tag@, strs_view(want@)),
            forall|k: int| 0 <= k < acc@.len() ==> lo <= #[trigger] acc@[k] < j,
        decreases hi - j,
    {
        if node_matches_sel(doc, j, tag, want) {
            acc.push(j);
            proof {
                assert(positions(acc@) =~= positions(acc@.drop_last()) + seq![j as int]);
                assert(positions(acc@.drop_last()) + (seq![j as int] + matches_in(
                    *doc,
                    j + 1,
                    hi as int,
                    tag@,
                    strs_view(want@),
                )) =~= positions(acc@) + matches_in(*doc, j + 1, hi as int, tag@, strs_view(want@)));
            }
        }
        j += 1;
    }
    proof {
        assert(matches_in(*doc, lo as int, hi as int, tag@, strs_view(want@)) =~= positions(acc@));
    }
    acc
}

/// The direct children of the node at `i`, or nothing for a text node.
pub fn get_children(doc: &Doc, i: usize) -> (r: Option<Vec<usize>>)
    requires
        i < doc.nodes@.len(),
    ensures
        (doc.nodes@[i as int] is Text) <==> r is None,
        r matches Option::Some(v) ==> v@ == children_of(*doc, i as int),
{
    match &doc.nodes[i] {
        HtmlNode::Text { .. } => Option::None,
        HtmlNode::Elem { children, .. } => {
            let n = children.len();
            let mut out: Vec<usize> = Vec::new();
            let mut k: usize = 0;
            while k < n
                invariant
                    i < doc.nodes@.len(),
                    doc.nodes@[i as int] matches HtmlNode::Elem { children: c0, .. } && c0@
                        == children@,
                    n == children@.len(),
                    k <= n,
                    out@ == children@.take(k as int),
                decreases n - k,
            {
                out.push(children[k]);
                proof {
                    assert(out@ =~= children@.take(k + 1));
                }
                k += 1;
            }
            proof {
                assert(out@ =~= children@);
            }
            Option::Some(out)
        },
    }
}

/// The verbatim text of the node at `i`, defined exactly when its child
/// list is one raw-text node — a tag wrapping plain text, as opposed to a
/// tag with nested markup.
pub open spec fn immediate_text(doc: Doc, i: int) -> Option<Seq<char>> {
    if doc.nodes@[i] matches HtmlNode::Elem { children, .. } && children@.len() == 1
        && children@[0] < doc.nodes@.len() && doc.nodes@[children@[0] as int] matches
        HtmlNode::Text { .. } {
        match doc.nodes@[children_of(doc, i)[0] as int] {
            HtmlNode::Text { text } => Option::Some(text@),
            HtmlNode::Elem { .. } => Option::None,
        }
    } else {
        Option::None
    }
}

/// Reads `immediate_text`.
pub fn get_immediate_text(doc: &Doc, i: usize) -> (r: Option<String>)
    requires
        i < doc.nodes@.len(),
    ensures
        opt_str_view(r) == immediate_text(*doc, i as int),
{
    match &doc.nodes[i] {
        HtmlNode::Text { .. } => Option::None,
        HtmlNode::Elem { children, .. } => {
            if children.len() != 1 {
                return Option::None;
            }
            let c = children[0];
            if c >= doc.nodes.len() {
                return Option::None;
            }
            match &doc.nodes[c] {
                HtmlNode::Text { text } => Option::Some(text.clone()),
                HtmlNode::Elem { .. } => Option::None,
            }
        },
    }
}

/// The text of the nodes in `lo .. hi`, concatenated in document order.
pub open spec fn texts_in(doc: Doc, lo: int, hi: int) -> Seq<char>
    decreases hi - lo,
{
    if lo >= hi {
        Seq::empty()
    } else {
        (match doc.nodes@[lo] {
            HtmlNode::Text { text } => text@,
            HtmlNode::Elem { .. } => Seq::empty(),
        }) + texts_in(doc, lo + 1, hi)
    }
}

/// The flattened text of the node at `i`: its own text for a text node,
/// the text of all its descendants for an element.
pub open spec fn inner_text_of(doc: Doc, i: int) -> Seq<char> {
    match doc.nodes@[i] {
        HtmlNode::Text { text } => text@,
        HtmlNode::Elem { .. } => texts_in(doc, i + 1, end_of(doc, i)),
    }
}

/// Flattens the node at `i` to its text content.
pub fn inner_text(doc: &Doc, i: usize) -> (r: String)
    requires
        wf(*doc),
        i < doc.nodes@.len(),
    ensures
        r@ == inner_text_of(*doc, i as int),
{
    assert(wf_at(*doc, i as int));
    match &doc.nodes[i] {
        HtmlNode::Text { text } => text.clone(),
        HtmlNode::Elem { .. } => {
            let hi = node_end(doc, i);
            let mut acc = String::new();
            let mut j: usize = i + 1;
            while j < hi
                invariant
                    i < j <= hi,
                    hi <= doc.nodes@.len(),
                    texts_in(*doc, i + 1, hi as int) =~= acc@ + texts_in(*doc, j as int, hi as int),
                decreases hi - j,
            {
                match &doc.nodes[j] {
                    HtmlNode::Text { text } => {
                        acc.append(text.as_str());
                    },
                    HtmlNode::Elem { .. } => {},
                }
                proof {
                    assert(texts_in(*doc, i + 1, hi as int) =~= acc@ + texts_in(
                        *doc,
                        j + 1,
                        hi as int,
                    ));
                }
                j += 1;
            }
            proof {
                assert(acc@ =~= inner_text_of(*doc, i as int));
            }
            acc
        },
    }
}

/// The label of a heading node: the verbatim text of its first headline
/// span, when that span wraps plain text.
pub open spec fn header_text_of(doc: Doc, i: int) -> Option<Seq<char>> {
    match query_first(doc, i, "span"@, seq!["mw-headline"@]) {
        Option::Some(j) => immediate_text(doc, j),
        Option::None => Option::None,
    }
}

/// Reads the visible label of a heading node.
pub fn get_header_text(doc: &Doc, i: usize) -> (r: Option<String>)
    requires
        wf(*doc),
        i < doc.nodes@.len(),
    ensures
        opt_str_view(r) == header_text_of(*doc, i as int),
{
    let want: Vec<&str> = vec!["mw-headline"];
    proof {
        assert(strs_view(want@) =~= seq!["mw-headline"@]);
    }
    match query_select_first(doc, i, "span", &want) {
        Option::Some(j) => get_immediate_text(doc, j),
        Option::None => Option::None,
    }
}

/// The first entry of `ns` (from position `k` on) whose node carries the
/// tag `t`, as an arena position.
pub open spec fn find_by_tag(doc: Doc, ns: Seq<usize>, k: int, t: Seq<char>) -> Option<int>
    decreases ns.len() - k,
{
    if k < 0 || k >= ns.len() {
        Option::None
    } else if has_tag(doc, ns[k] as int, t) {
        Option::Some(ns[k] as int)
    } else {
        find_by_tag(doc, ns, k + 1, t)
    }
}

/// What `find_by_tag` returns: a node that carries the tag and stands in
/// the list.
pub proof fn lemma_find_by_tag(doc: Doc, ns: Seq<usize>, k: int, t: Seq<char>)
    ensures
        find_by_tag(doc, ns, k, t) matches Option::Some(j) ==> has_tag(doc, j, t) && exists|q: int|
            k <= q < ns.len() && ns[q] == j,
    decreases ns.len() - k,
{
    if k < 0 || k >= ns.len() {
    } else if has_tag(doc, ns[k] as int, t) {
        assert(ns[k] == ns[k] as int);
    } else {
        lemma_find_by_tag(doc, ns, k + 1, t);
    }
}

/// Whether every entry of `ns` lies below `b`.
pub open spec fn all_lt(ns: Seq<usize>, b: int) -> bool {
    forall|k: int| 0 <= k < ns.len() ==> #[trigger] ns[k] < b
}

/// Finds the first node in the list `ns` carrying the tag `t`.
pub fn find_first_node_by_name(doc: &Doc, ns: &Vec<usize>, from: usize, t: &str) -> (r: Option<
    usize,
>)
    requires
        all_lt(ns@, doc.nodes@.len() as int),
    ensures
        opt_pos(r) == find_by_tag(*doc, ns@, from as int, t@),
        r matches Option::Some(j) ==> j < doc.nodes@.len(),
{
    let n = ns.len();
    let mut k: usize = from;
    while k < n
        invariant
            all_lt(ns@, doc.nodes@.len() as int),
            n == ns@.len(),
            find_by_tag(*doc, ns@, from as int, t@) == find_by_tag(*doc, ns@, k as int, t@),
        decreases n - k,
    {
        if node_has_tag(doc, ns[k], t) {
            return Option::Some(ns[k]);
        }
        k += 1;
    }
    Option::None
}

/// The `src` attribute of the node at `i`, when it is an element and
/// carries one.
pub open spec fn src_of(doc: Doc, i: int) -> Option<Seq<char>> {
    match doc.nodes@[i] {
        HtmlNode::Text { .. } => Option::None,
        HtmlNode::Elem { src_attr, .. } => opt_str_view(src_attr),
    }
}

/// Reads the `src` attribute of the node at `i`.
pub fn get_src_attr(doc: &Doc, i: usize) -> (r: Option<String>)
    requires
        i < doc.nodes@.len(),
    ensures
        opt_str_view(r) == src_of(*doc, i as int),
{
    match &doc.nodes[i] {
        HtmlNode::Text { .. } => Option::None,
        HtmlNode::Elem { src_attr, .. } => match src_attr {
            Option::Some(s) => Option::Some(s.clone()),
            Option::None => Option::None,
        },
    }
}

} // verus!
