//! Grammar-attribute extractors: noun gender, pronunciation, and
//! adjective inflected forms, read from inline abbreviation and emphasis
//! annotations. Absence of these attributes is never an error — it
//! surfaces as `None`.

use vstd::prelude::*;
use crate::dom::{
    Doc, all_lt, children_of, end_of, find_by_tag, find_first_node_by_name, get_children,
    get_immediate_text, get_src_attr, has_tag, immediate_text, inner_text, inner_text_of,
    lemma_first_match_in, node_has_tag, node_is_elem, query_first, query_select_first, sel_match,
    src_of, strs_view, wf, wf_at,
};
use crate::strutil::str_eq;
use crate::word::{
    NounGender, PartOfSpeech, PartOfSpeechV, Pronunciation, PronunciationV, opt_pos_view,
    opt_pron_view, opt_str_view,
};

verus! {

/// The gender a noun subsection states: the verbatim text of the first
/// abbreviation element under the subsection's first paragraph, read as
/// `"m"` or `"f"`; anything else is no statement at all.
pub open spec fn spec_gender(doc: Doc, sec: Seq<usize>) -> Option<NounGender> {
    match find_by_tag(doc, sec, 0, "p"@) {
        Option::None => Option::None,
        Option::Some(p) => match query_first(doc, p, "abbr"@, Seq::empty()) {
            Option::None => Option::None,
            Option::Some(ab) => match immediate_text(doc, ab) {
                Option::Some(t) => if t == "m"@ {
                    Option::Some(NounGender::Masculine)
                } else if t == "f"@ {
                    Option::Some(NounGender::Feminine)
                } else {
                    Option::None
                },
                Option::None => Option::None,
            },
        },
    }
}

/// Reads the gender stated in a noun subsection, if any.
pub fn get_gender_from_section(doc: &Doc, sec: &Vec<usize>) -> (r: Option<NounGender>)
    requires
        wf(*doc),
        all_lt(sec@, doc.nodes@.len() as int),
    ensures
        r == spec_gender(*doc, sec@),
{
    let p = match find_first_node_by_name(doc, sec, 0, "p") {
        Option::Some(p) => p,
        Option::None => {
            return Option::None;
        },
    };
    let noclass: Vec<&str> = Vec::new();
    proof {
        assert(strs_view(noclass@) =~= Seq::<Seq<char>>::empty());
    }
    let ab = match query_select_first(doc, p, "abbr", &noclass) {
        Option::Some(a) => a,
        Option::None => {
            return Option::None;
        },
    };
    match get_immediate_text(doc, ab) {
        Option::Some(t) => {
            if str_eq(t.as_str(), "m") {
                Option::Some(NounGender::Masculine)
            } else if str_eq(t.as_str(), "f") {
                Option::Some(NounGender::Feminine)
            } else {
                Option::None
            }
        },
        Option::None => Option::None,
    }
}

/// An extracted gender, when present, is one of exactly the two values.
pub proof fn lemma_gender_two_values(doc: Doc, sec: Seq<usize>)
    ensures
        spec_gender(doc, sec) matches Option::Some(g) ==> g == NounGender::Masculine || g
            == NounGender::Feminine,
{
}

/// A noun subsection whose first paragraph holds no abbreviation element
/// reading `"m"` or `"f"` yields no gender.
pub proof fn lemma_gender_none(doc: Doc, sec: Seq<usize>, p: int)
    requires
        find_by_tag(doc, sec, 0, "p"@) == Option::Some(p),
        forall|j: int|
            p < j < end_of(doc, p) && #[trigger] has_tag(doc, j, "abbr"@) ==> immediate_text(
                doc,
                j,
            ) != Option::Some("m"@) && immediate_text(doc, j) != Option::Some("f"@),
    ensures
        spec_gender(doc, sec) is None,
{
    match query_first(doc, p, "abbr"@, Seq::empty()) {
        Option::Some(ab) => {
            lemma_first_match_in(doc, p + 1, end_of(doc, p), "abbr"@, Seq::empty());
            assert(sel_match(doc, ab, "abbr"@, Seq::empty()));
            assert(has_tag(doc, ab, "abbr"@));
        },
        Option::None => {},
    }
}

/// The pronunciation a subsection publishes: under its first unordered
/// list, the verbatim text of the first IPA span, and the `src` of the
/// first audio source element, with the protocol prefixed onto the
/// protocol-relative resource path. Nothing when either piece is missing
/// — a partial pronunciation is not represented.
pub open spec fn spec_pronunciation(doc: Doc, sec: Seq<usize>) -> Option<PronunciationV> {
    match find_by_tag(doc, sec, 1, "ul"@) {
        Option::None => Option::None,
        Option::Some(ul) => match query_first(doc, ul, "span"@, seq!["IPA"@]) {
            Option::None => Option::None,
            Option::Some(ipa_n) => match immediate_text(doc, ipa_n) {
                Option::None => Option::None,
                Option::Some(ipa) => match query_first(doc, ul, "source"@, Seq::empty()) {
                    Option::None => Option::None,
                    Option::Some(au) => match src_of(doc, au) {
                        Option::None => Option::None,
                        Option::Some(href) => Option::Some(
                            PronunciationV { ipa, audio_url: "https:"@ + href },
                        ),
                    },
                },
            },
        },
    }
}

/// Reads the pronunciation a subsection publishes, if complete.
pub fn get_pr_from_section(doc: &Doc, sec: &Vec<usize>) -> (r: Option<Pronunciation>)
    requires
        wf(*doc),
        all_lt(sec@, doc.nodes@.len() as int),
    ensures
        opt_pron_view(r) == spec_pronunciation(*doc, sec@),
{
    let ul = match find_first_node_by_name(doc, sec, 1, "ul") {
        Option::Some(u) => u,
        Option::None => {
            return Option::None;
        },
    };
    let ipa_want: Vec<&str> = vec!["IPA"];
    proof {
        assert(strs_view(ipa_want@) =~= seq!["IPA"@]);
    }
    let ipa_n = match query_select_first(doc, ul, "span", &ipa_want) {
        Option::Some(j) => j,
        Option::None => {
            return Option::None;
        },
    };
    let ipa = match get_immediate_text(doc, ipa_n) {
        Option::Some(t) => t,
        Option::None => {
            return Option::None;
        },
    };
    let noclass: Vec<&str> = Vec::new();
    proof {
        assert(strs_view(noclass@) =~= Seq::<Seq<char>>::empty());
    }
    let au = match query_select_first(doc, ul, "source", &noclass) {
        Option::Some(j) => j,
        Option::None => {
            return Option::None;
        },
    };
    let href = match get_src_attr(doc, au) {
        Option::Some(h) => h,
        Option::None => {
            return Option::None;
        },
    };
    let audio_url = String::from_str("https:").concat(href.as_str());
    Option::Some(Pronunciation { ipa, audio_url })
}

/// The element children of a node list (text entries dropped), as the
/// adjacent-pair scan sees them.
pub open spec fn elem_children(doc: Doc, ch: Seq<usize>, k: int) -> Seq<usize>
    decreases ch.len() - k,
{
    if k < 0 || k >= ch.len() {
        Seq::empty()
    } else if doc.nodes@[ch[k] as int] is Elem {
        seq![ch[k]] + elem_children(doc, ch, k + 1)
    } else {
        elem_children(doc, ch, k + 1)
    }
}

/// The adjacent-pair scan over the element children of the form
/// paragraph: an italic element immediately followed by a bold element
/// contributes the bold element's text under the label the italic
/// element carries; unrecognized labels are ignored, and a later pair
/// under the same label wins.
pub open spec fn spec_adj_scan(
    doc: Doc,
    elems: Seq<usize>,
    k: int,
    f: Option<Seq<char>>,
    mp: Option<Seq<char>>,
    fp: Option<Seq<char>>,
) -> (Option<Seq<char>>, Option<Seq<char>>, Option<Seq<char>>)
    decreases elems.len() - k,
{
    if k < 0 || k + 1 >= elems.len() {
        (f, mp, fp)
    } else {
        let this = elems[k] as int;
        let next = elems[k + 1] as int;
        if has_tag(doc, this, "i"@) && has_tag(doc, next, "b"@) {
            let label = inner_text_of(doc, this);
            let form = inner_text_of(doc, next);
            if label == "feminine"@ {
                spec_adj_scan(doc, elems, k + 1, Option::Some(form), mp, fp)
            } else if label == "masculine plural"@ {
                spec_adj_scan(doc, elems, k + 1, f, Option::Some(form), fp)
            } else if label == "feminine plural"@ {
                spec_adj_scan(doc, elems, k + 1, f, mp, Option::Some(form))
            } else {
                spec_adj_scan(doc, elems, k + 1, f, mp, fp)
            }
        } else {
            spec_adj_scan(doc, elems, k + 1, f, mp, fp)
        }
    }
}

/// The adjective attributes an adjective subsection states: the
/// adjacent-pair scan over its first paragraph, or nothing when the
/// subsection has no paragraph at all — the form list itself is the
/// required structure.
pub open spec fn spec_adj_forms(doc: Doc, sec: Seq<usize>) -> Option<PartOfSpeechV> {
    match find_by_tag(doc, sec, 0, "p"@) {
        Option::None => Option::None,
        Option::Some(p) => {
            let scan = spec_adj_scan(doc, elem_children(doc, children_of(doc, p), 0), 0,
                Option::None, Option::None, Option::None);
            Option::Some(PartOfSpeechV::Adjective { f: scan.0, mp: scan.1, fp: scan.2 })
        },
    }
}

/// Reads the inflected adjective forms a subsection states.
pub fn get_adj_form_from_section(doc: &Doc, sec: &Vec<usize>) -> (r: Option<PartOfSpeech>)
    requires
        wf(*doc),
        all_lt(sec@, doc.nodes@.len() as int),
    ensures
        opt_pos_view(r) == spec_adj_forms(*doc, sec@),
{
    let p = match find_first_node_by_name(doc, sec, 0, "p") {
        Option::Some(p) => p,
        Option::None => {
            return Option::None;
        },
    };
    assert(wf_at(*doc, p as int));
    proof {
        crate::dom::lemma_find_by_tag(*doc, sec@, 0, "p"@);
    }
    let ch = match get_children(doc, p) {
        Option::Some(v) => v,
        Option::None => {
            // The node carries the paragraph tag, so it is an element and
            // has a child list.
            assert(false);
            return Option::None;
        },
    };
    assert(ch@ == children_of(*doc, p as int));
    assert forall|q: int| 0 <= q < ch@.len() implies #[trigger] ch@[q] < doc.nodes@.len() by {
        assert(children_of(*doc, p as int)[q] == ch@[q]);
    }
    assert(all_lt(ch@, doc.nodes@.len() as int));
    let chn = ch.len();
    let mut elems: Vec<usize> = Vec::new();
    let mut k: usize = 0;
    while k < chn
        invariant
            chn == ch@.len(),
            k <= chn,
            all_lt(ch@, doc.nodes@.len() as int),
            all_lt(elems@, doc.nodes@.len() as int),
            elem_children(*doc, ch@, 0) == elems@ + elem_children(*doc, ch@, k as int),
        decreases chn - k,
    {
        if node_is_elem(doc, ch[k]) {
            let ghost prev = elems@;
            elems.push(ch[k]);
            proof {
                assert(prev + (seq![ch@[k as int]] + elem_children(*doc, ch@, k + 1)) =~= elems@
                    + elem_children(*doc, ch@, k + 1));
            }
        }
        k += 1;
    }
    proof {
        assert(elem_children(*doc, ch@, 0) =~= elems@);
    }
    let n = elems.len();
    let mut f: Option<String> = Option::None;
    let mut mp: Option<String> = Option::None;
    let mut fp: Option<String> = Option::None;
    let mut m: usize = 0;
    while m < n && m + 1 < n
        invariant
            wf(*doc),
            n == elems@.len(),
            all_lt(elems@, doc.nodes@.len() as int),
            m <= n,
            spec_adj_scan(*doc, elems@, 0, Option::None, Option::None, Option::None)
                == spec_adj_scan(
                *doc,
                elems@,
                m as int,
                opt_str_view(f),
                opt_str_view(mp),
                opt_str_view(fp),
            ),
        decreases n - m,
    {
        let this = elems[m];
        let next = elems[m + 1];
        if node_has_tag(doc, this, "i") && node_has_tag(doc, next, "b") {
            let label = inner_text(doc, this);
            let form = inner_text(doc, next);
            if str_eq(label.as_str(), "feminine") {
                f = Option::Some(form);
            } else if str_eq(label.as_str(), "masculine plural") {
                mp = Option::Some(form);
            } else if str_eq(label.as_str(), "feminine plural") {
                fp = Option::Some(form);
            }
        }
        m += 1;
    }
    Option::Some(PartOfSpeech::Adjective { f, mp, fp })
}

} // verus!
