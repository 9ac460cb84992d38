//! The section segmenter: finds the contiguous run of top-level nodes
//! belonging to the target language's heading group, and splits that
//! region into per-subsection node ranges at sub-heading boundaries.
//!
//! Segmentation is purely structural — by heading tag and visible label,
//! never by content — so the same machinery serves any target language.

use vstd::prelude::*;
use crate::dom::{
    Doc, all_lt, children_of, first_match_in, get_header_text, has_tag, header_text_of,
    node_has_tag, positions, query_first_in, strs_view, views_of, wf, wf_at,
};
use crate::strutil::str_eq;

verus! {

/// The position in `ns` (at or after `k`) of the first heading node at
/// `level` whose visible label reads `label`.
pub open spec fn find_labeled_heading(
    doc: Doc,
    ns: Seq<usize>,
    k: int,
    level: Seq<char>,
    label: Seq<char>,
) -> Option<int>
    decreases ns.len() - k,
{
    if k < 0 || k >= ns.len() {
        Option::None
    } else if has_tag(doc, ns[k] as int, level) && header_text_of(doc, ns[k] as int)
        == Option::Some(label) {
        Option::Some(k)
    } else {
        find_labeled_heading(doc, ns, k + 1, level, label)
    }
}

/// The position in `ns` (at or after `k`) of the first heading node at
/// `level`, whatever its label.
pub open spec fn find_heading(doc: Doc, ns: Seq<usize>, k: int, level: Seq<char>) -> Option<int>
    decreases ns.len() - k,
{
    if k < 0 || k >= ns.len() {
        Option::None
    } else if has_tag(doc, ns[k] as int, level) {
        Option::Some(k)
    } else {
        find_heading(doc, ns, k + 1, level)
    }
}

/// The bounds in `ns` of the language region: from the first heading at
/// `level` labeled `label` up to the next heading at `level`, or to the
/// end of the list when that heading is the last one.
pub open spec fn spec_language_region(
    doc: Doc,
    ns: Seq<usize>,
    level: Seq<char>,
    label: Seq<char>,
) -> Option<(int, int)> {
    match find_labeled_heading(doc, ns, 0, level, label) {
        Option::Some(a) => match find_heading(doc, ns, a + 1, level) {
            Option::Some(b) => Option::Some((a, b)),
            Option::None => Option::Some((a, ns.len() as int)),
        },
        Option::None => Option::None,
    }
}

/// Takes the contiguous sub-list of `ns` belonging to the heading at
/// `level` labeled `label`, or nothing when no heading matches — the
/// signal that the requested word has no entry for the target language.
pub fn split_and_take(doc: &Doc, ns: &Vec<usize>, level: &str, label: &str) -> (r: Option<
    Vec<usize>,
>)
    requires
        wf(*doc),
        all_lt(ns@, doc.nodes@.len() as int),
    ensures
        match spec_language_region(*doc, ns@, level@, label@) {
            Option::Some((a, b)) => r matches Option::Some(v) && v@ == ns@.subrange(a, b),
            Option::None => r is None,
        },
        r matches Option::Some(v) ==> all_lt(v@, doc.nodes@.len() as int),
{
    let n = ns.len();
    let mut k: usize = 0;
    while k < n
        invariant
            wf(*doc),
            all_lt(ns@, doc.nodes@.len() as int),
            n == ns@.len(),
            k <= n,
            find_labeled_heading(*doc, ns@, 0, level@, label@) == find_labeled_heading(
                *doc,
                ns@,
                k as int,
                level@,
                label@,
            ),
        decreases n - k,
    {
        let mut is_hit = false;
        if node_has_tag(doc, ns[k], level) {
            let ht = get_header_text(doc, ns[k]);
            is_hit = match &ht {
                Option::Some(t) => str_eq(t.as_str(), label),
                Option::None => false,
            };
        }
        if is_hit {
            let a = k;
            assert(find_labeled_heading(*doc, ns@, 0, level@, label@) == Option::Some(a as int));
            let mut b: usize = a + 1;
            while b < n && !node_has_tag(doc, ns[b], level)
                invariant
                    wf(*doc),
                    all_lt(ns@, doc.nodes@.len() as int),
                    n == ns@.len(),
                    a < b <= n,
                    find_heading(*doc, ns@, a + 1, level@) == find_heading(
                        *doc,
                        ns@,
                        b as int,
                        level@,
                    ),
                decreases n - b,
            {
                assert(find_heading(*doc, ns@, b as int, level@) == find_heading(
                    *doc,
                    ns@,
                    b + 1,
                    level@,
                ));
                b += 1;
            }
            if b < n {
                assert(find_heading(*doc, ns@, a + 1, level@) == Option::Some(b as int));
            } else {
                assert(find_heading(*doc, ns@, a + 1, level@) is None);
            }
            let mut out: Vec<usize> = Vec::new();
            let mut x: usize = a;
            while x < b
                invariant
                    a <= x <= b <= n,
                    n == ns@.len(),
                    all_lt(ns@, doc.nodes@.len() as int),
                    all_lt(out@, doc.nodes@.len() as int),
                    out@ == ns@.subrange(a as int, x as int),
                decreases b - x,
            {
                out.push(ns[x]);
                proof {
                    assert(out@ =~= ns@.subrange(a as int, x + 1));
                }
                x += 1;
            }
            return Option::Some(out);
        }
        assert(find_labeled_heading(*doc, ns@, k as int, level@, label@) == find_labeled_heading(
            *doc,
            ns@,
            k + 1,
            level@,
            label@,
        ));
        k += 1;
    }
    assert(find_labeled_heading(*doc, ns@, 0, level@, label@) is None);
    Option::None
}

/// Whether the node at `j` is a sub-heading: the documents nest
/// subsections at either of two heading levels, and both are accepted.
pub open spec fn is_subheading(doc: Doc, j: int) -> bool {
    has_tag(doc, j, "h3"@) || has_tag(doc, j, "h4"@)
}

/// The positions in `ns` (from `k` on) of the sub-heading nodes.
pub open spec fn subheading_positions(doc: Doc, ns: Seq<usize>, k: int) -> Seq<int>
    decreases ns.len() - k,
{
    if k < 0 || k >= ns.len() {
        Seq::empty()
    } else if is_subheading(doc, ns[k] as int) {
        seq![k] + subheading_positions(doc, ns, k + 1)
    } else {
        subheading_positions(doc, ns, k + 1)
    }
}

/// Every entry of `subheading_positions` lies in `[k, ns.len())`, and the
/// entries increase strictly.
pub proof fn lemma_subheading_positions(doc: Doc, ns: Seq<usize>, k: int)
    requires
        0 <= k <= ns.len(),
    ensures
        forall|t: int|
            0 <= t < subheading_positions(doc, ns, k).len() ==> k <= #[trigger] subheading_positions(
                doc,
                ns,
                k,
            )[t] < ns.len(),
        forall|t: int|
            0 <= t < subheading_positions(doc, ns, k).len() - 1 ==> #[trigger] subheading_positions(
                doc,
                ns,
                k,
            )[t] < subheading_positions(doc, ns, k)[t + 1],
    decreases ns.len() - k,
{
    if k >= ns.len() {
    } else {
        lemma_subheading_positions(doc, ns, k + 1);
        let tail = subheading_positions(doc, ns, k + 1);
        let whole = subheading_positions(doc, ns, k);
        if is_subheading(doc, ns[k] as int) {
            assert(whole == seq![k] + tail);
            assert forall|t: int| 0 <= t < whole.len() implies k <= #[trigger] whole[t]
                < ns.len() by {
                if t > 0 {
                    assert(whole[t] == tail[t - 1]);
                }
            }
            assert forall|t: int| 0 <= t < whole.len() - 1 implies #[trigger] whole[t] < whole[t
                + 1] by {
                if t == 0 {
                    assert(whole[1] == tail[0]);
                } else {
                    assert(whole[t] == tail[t - 1] && whole[t + 1] == tail[t]);
                }
            }
        } else {
            assert(whole == tail);
            assert forall|t: int| 0 <= t < whole.len() implies k <= #[trigger] whole[t]
                < ns.len() by {
                assert(whole[t] == tail[t]);
            }
            assert forall|t: int| 0 <= t < whole.len() - 1 implies #[trigger] whole[t] < whole[t
                + 1] by {
                assert(whole[t] == tail[t] && whole[t + 1] == tail[t + 1]);
            }
        }
    }
}

/// The subsection node ranges of a region: one contiguous range per
/// consecutive pair of sub-headings. The material before the first
/// sub-heading and after the last is not part of any subsection; fewer
/// than two sub-headings yield no subsections.
pub open spec fn spec_subsections(doc: Doc, ns: Seq<usize>) -> Seq<Seq<usize>> {
    let sp = subheading_positions(doc, ns, 0);
    if sp.len() < 2 {
        Seq::empty()
    } else {
        Seq::new((sp.len() - 1) as nat, |t: int| ns.subrange(sp[t], sp[t + 1]))
    }
}

/// Splits a region into its subsection node ranges.
pub fn split_at_subheadings(doc: &Doc, ns: &Vec<usize>) -> (r: Vec<Vec<usize>>)
    requires
        all_lt(ns@, doc.nodes@.len() as int),
    ensures
        views_of(r@) == spec_subsections(*doc, ns@),
        forall|t: int| 0 <= t < r@.len() ==> all_lt((#[trigger] r@[t])@, doc.nodes@.len() as int),
{
    let n = ns.len();
    let mut sp: Vec<usize> = Vec::new();
    let mut k: usize = 0;
    while k < n
        invariant
            all_lt(ns@, doc.nodes@.len() as int),
            n == ns@.len(),
            k <= n,
            subheading_positions(*doc, ns@, 0) == positions(sp@)
                + subheading_positions(*doc, ns@, k as int),
            forall|t: int| 0 <= t < sp@.len() ==> #[trigger] sp@[t] < k,
        decreases n - k,
    {
        let hit = {
            if node_has_tag(doc, ns[k], "h3") {
                true
            } else {
                node_has_tag(doc, ns[k], "h4")
            }
        };
        if hit {
            let ghost prevsp = sp@;
            sp.push(k);
            proof {
                assert(positions(sp@) =~= positions(prevsp) + seq![k as int]);
                assert(positions(prevsp) + (seq![k as int] + subheading_positions(
                    *doc,
                    ns@,
                    k + 1,
                )) =~= positions(sp@) + subheading_positions(*doc, ns@, k + 1));
            }
        }
        k += 1;
    }
    proof {
        assert(subheading_positions(*doc, ns@, 0) =~= positions(sp@));
    }
    let spn = sp.len();
    let mut out: Vec<Vec<usize>> = Vec::new();
    if spn < 2 {
        proof {
            assert(views_of(out@) =~= spec_subsections(*doc, ns@));
        }
        return out;
    }
    let ghost spg = subheading_positions(*doc, ns@, 0);
    proof {
        lemma_subheading_positions(*doc, ns@, 0);
    }
    let mut t: usize = 0;
    while t < spn - 1
        invariant
            n == ns@.len(),
            spn == sp@.len(),
            2 <= spn,
            t <= spn - 1,
            spg == positions(sp@),
            out@.len() == t as int,
            all_lt(ns@, doc.nodes@.len() as int),
            forall|u: int| 0 <= u < spg.len() ==> 0 <= #[trigger] spg[u] < ns@.len(),
            forall|u: int| 0 <= u < spg.len() - 1 ==> #[trigger] spg[u] < spg[u + 1],
            forall|u: int|
                0 <= u < out@.len() ==> all_lt((#[trigger] out@[u])@, doc.nodes@.len() as int),
            views_of(out@) =~= Seq::new(
                t as nat,
                |u: int| ns@.subrange(spg[u], spg[u + 1]),
            ),
        decreases spn - t,
    {
        let lo = sp[t];
        let hi = sp[t + 1];
        assert(spg[t as int] == lo as int && spg[t + 1] == hi as int);
        assert(lo < hi <= n);
        let mut piece: Vec<usize> = Vec::new();
        let mut x: usize = lo;
        while x < hi
            invariant
                lo <= x <= hi <= n,
                n == ns@.len(),
                all_lt(ns@, doc.nodes@.len() as int),
                all_lt(piece@, doc.nodes@.len() as int),
                piece@ == ns@.subrange(lo as int, x as int),
            decreases hi - x,
        {
            piece.push(ns[x]);
            proof {
                assert(piece@ =~= ns@.subrange(lo as int, x + 1));
            }
            x += 1;
        }
        let ghost prev = out@;
        out.push(piece);
        proof {
            assert(out@ == prev.push(piece));
            assert(prev.len() == t as int);
            assert forall|u: int| 0 <= u < out@.len() implies #[trigger] views_of(out@)[u]
                == Seq::new((t + 1) as nat, |w: int| ns@.subrange(spg[w], spg[w + 1]))[u] by {
                assert(views_of(out@)[u] == out@[u]@);
                if u < t as int {
                    assert(out@[u] == prev[u]);
                    assert(views_of(prev)[u] == prev[u]@);
                } else {
                    assert(out@[u] == piece);
                }
            }
            assert(views_of(out@) =~= Seq::new(
                (t + 1) as nat,
                |w: int| ns@.subrange(spg[w], spg[w + 1]),
            ));
        }
        t += 1;
    }
    proof {
        assert(views_of(out@) =~= spec_subsections(*doc, ns@));
    }
    out
}

/// The language sections of a document: the first content-root element
/// is located, its direct children segmented to the region of `label`,
/// and the region split at sub-headings. Nothing when the document has
/// no content root or no heading labeled `label`.
pub open spec fn spec_language_sections(doc: Doc, label: Seq<char>) -> Option<Seq<Seq<usize>>> {
    match first_match_in(doc, 0, doc.nodes@.len() as int, "div"@, seq!["mw-parser-output"@]) {
        Option::None => Option::None,
        Option::Some(root) => {
            let body = children_of(doc, root);
            match spec_language_region(doc, body, "h2"@, label) {
                Option::None => Option::None,
                Option::Some((a, b)) => Option::Some(
                    spec_subsections(doc, body.subrange(a, b)),
                ),
            }
        },
    }
}

/// Locates the language region of `label` and returns its subsection
/// node ranges, or nothing when the region is absent.
pub fn fetch_language_sections(doc: &Doc, label: &str) -> (r: Option<Vec<Vec<usize>>>)
    requires
        wf(*doc),
    ensures
        match spec_language_sections(*doc, label@) {
            Option::Some(s) => r matches Option::Some(v) && views_of(v@) == s,
            Option::None => r is None,
        },
        r matches Option::Some(v) ==> forall|t: int|
            0 <= t < v@.len() ==> all_lt((#[trigger] v@[t])@, doc.nodes@.len() as int),
{
    let want: Vec<&str> = vec!["mw-parser-output"];
    proof {
        assert(strs_view(want@) =~= seq!["mw-parser-output"@]);
    }
    let n = doc.nodes.len();
    let root = match query_first_in(doc, 0, n, "div", &want) {
        Option::Some(root) => root,
        Option::None => {
            return Option::None;
        },
    };
    proof {
        crate::dom::lemma_first_match_in(
            *doc,
            0,
            doc.nodes@.len() as int,
            "div"@,
            strs_view(want@),
        );
        assert(wf_at(*doc, root as int));
    }
    let body = match crate::dom::get_children(doc, root) {
        Option::Some(v) => v,
        Option::None => {
            // A selector match is always an element, and an element always
            // has a child list.
            assert(false);
            return Option::None;
        },
    };
    assert(all_lt(body@, doc.nodes@.len() as int));
    let region = match split_and_take(doc, &body, "h2", label) {
        Option::Some(v) => v,
        Option::None => {
            return Option::None;
        },
    };
    assert(all_lt(region@, doc.nodes@.len() as int));
    let sections = split_at_subheadings(doc, &region);
    Option::Some(sections)
}

} // verus!
