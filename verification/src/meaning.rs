//! The meaning/example parser: the ordered list of definitions inside a
//! part-of-speech subsection becomes typed `Meaning` records, each with
//! the usage examples found under it, in either of the two markup
//! layouts the documents use (inline examples under a definition list,
//! expandable quotations under an unordered list).

use vstd::prelude::*;
use crate::dom::{
    Doc, all_lt, children_of, end_of, find_by_tag, find_first_node_by_name, get_children, has_tag,
    inner_text, inner_text_of, lemma_find_by_tag, matches_in, node_end, node_has_tag, positions,
    query_all_in, query_first, query_select_first, strs_view, wf, wf_at,
};
use crate::shorten::{shorten_meaning, spec_shorten};
use crate::strutil::{first_line, take_first_line, trim, trim_str};
use crate::word::{
    Example, LookupError, Meaning, MeaningV, PartOfSpeech, PartOfSpeechV, copy_pos, example_view,
    examples_view, meanings_view, opt_example_view, opt_meaning_view,
};

verus! {

/// The example a usage-example container yields: the flattened text of
/// the first original-sentence node (an italic, language-tagged example
/// for the inline layout; a quotation span for the expandable layout),
/// and, when a translation span is present, its flattened text.
pub open spec fn spec_example(doc: Doc, cont: int, inline: bool) -> Option<
    (Seq<char>, Option<Seq<char>>),
> {
    let orig_match = if inline {
        query_first(doc, cont, "i"@, seq!["Latn"@, "mention"@, "e-example"@])
    } else {
        query_first(doc, cont, "span"@, seq!["e-quotation"@])
    };
    match orig_match {
        Option::None => Option::None,
        Option::Some(o) => {
            let orig = inner_text_of(doc, o);
            match query_first(doc, cont, "span"@, seq!["e-translation"@]) {
                Option::None => Option::Some((orig, Option::None)),
                Option::Some(t) => Option::Some((orig, Option::Some(inner_text_of(doc, t)))),
            }
        },
    }
}

/// Extracts one example from a container node, or nothing when the
/// container shows no original sentence.
pub fn parse_example(doc: &Doc, cont: usize, inline: bool) -> (r: Option<Example>)
    requires
        wf(*doc),
        cont < doc.nodes@.len(),
    ensures
        opt_example_view(r) == spec_example(*doc, cont as int, inline),
{
    let orig_n = if inline {
        let want: Vec<&str> = vec!["Latn", "mention", "e-example"];
        proof {
            assert(strs_view(want@) =~= seq!["Latn"@, "mention"@, "e-example"@]);
        }
        query_select_first(doc, cont, "i", &want)
    } else {
        let want: Vec<&str> = vec!["e-quotation"];
        proof {
            assert(strs_view(want@) =~= seq!["e-quotation"@]);
        }
        query_select_first(doc, cont, "span", &want)
    };
    let o = match orig_n {
        Option::Some(o) => o,
        Option::None => {
            return Option::None;
        },
    };
    let orig = inner_text(doc, o);
    let twant: Vec<&str> = vec!["e-translation"];
    proof {
        assert(strs_view(twant@) =~= seq!["e-translation"@]);
    }
    let trans = match query_select_first(doc, cont, "span", &twant) {
        Option::Some(t) => Option::Some(inner_text(doc, t)),
        Option::None => Option::None,
    };
    Option::Some((orig, trans))
}

/// The examples the containers at `conts` yield, in document order;
/// containers without an original sentence are skipped.
pub open spec fn examples_from(doc: Doc, conts: Seq<int>, k: int, inline: bool) -> Seq<
    (Seq<char>, Option<Seq<char>>),
>
    decreases conts.len() - k,
{
    if k < 0 || k >= conts.len() {
        Seq::empty()
    } else {
        match spec_example(doc, conts[k], inline) {
            Option::Some(e) => seq![e] + examples_from(doc, conts, k + 1, inline),
            Option::None => examples_from(doc, conts, k + 1, inline),
        }
    }
}

fn collect_examples(doc: &Doc, conts: &Vec<usize>, inline: bool) -> (r: Vec<Example>)
    requires
        wf(*doc),
        all_lt(conts@, doc.nodes@.len() as int),
    ensures
        examples_view(r@) == examples_from(*doc, positions(conts@), 0, inline),
{
    let n = conts.len();
    let mut acc: Vec<Example> = Vec::new();
    let mut k: usize = 0;
    while k < n
        invariant
            wf(*doc),
            all_lt(conts@, doc.nodes@.len() as int),
            n == conts@.len(),
            k <= n,
            examples_from(*doc, positions(conts@), 0, inline) == examples_view(acc@)
                + examples_from(*doc, positions(conts@), k as int, inline),
        decreases n - k,
    {
        assert(positions(conts@)[k as int] == conts@[k as int] as int);
        match parse_example(doc, conts[k], inline) {
            Option::Some(e) => {
                let ghost prev = acc@;
                acc.push(e);
                proof {
                    assert(examples_view(acc@) =~= examples_view(prev) + seq![example_view(e)]);
                    assert(examples_view(prev) + (seq![example_view(e)] + examples_from(
                        *doc,
                        positions(conts@),
                        k + 1,
                        inline,
                    )) =~= examples_view(acc@) + examples_from(
                        *doc,
                        positions(conts@),
                        k + 1,
                        inline,
                    ));
                }
            },
            Option::None => {},
        }
        k += 1;
    }
    proof {
        assert(examples_from(*doc, positions(conts@), 0, inline) =~= examples_view(acc@));
    }
    acc
}

/// The meaning one list item yields: the examples read from its trailing
/// container (inline under a trailing definition list, quotations under
/// a trailing unordered list, none otherwise), and the definition text —
/// the item's flattened text cut at its first line break, trimmed, and
/// run through the shortening heuristic. An item without children yields
/// nothing.
pub open spec fn spec_meaning_item(doc: Doc, li: int, pos: PartOfSpeechV) -> Option<MeaningV> {
    let ch = children_of(doc, li);
    if ch.len() == 0 {
        Option::None
    } else {
        let last = ch[ch.len() - 1] as int;
        let exs = if has_tag(doc, last, "dl"@) {
            examples_from(
                doc,
                matches_in(doc, last + 1, end_of(doc, last), "div"@, seq!["h-usage-example"@]),
                0,
                true,
            )
        } else if has_tag(doc, last, "ul"@) {
            examples_from(
                doc,
                matches_in(doc, last + 1, end_of(doc, last), "li"@, Seq::empty()),
                0,
                false,
            )
        } else {
            Seq::empty()
        };
        Option::Some(
            MeaningV {
                pos,
                meaning: spec_shorten(trim(first_line(inner_text_of(doc, li)))),
                examples: exs,
            },
        )
    }
}

/// Parses one definition list item into a meaning.
pub fn parse_meaning_item(doc: &Doc, li: usize, pos: PartOfSpeech) -> (r: Option<Meaning>)
    requires
        wf(*doc),
        li < doc.nodes@.len(),
    ensures
        opt_meaning_view(r) == spec_meaning_item(*doc, li as int, pos@),
{
    assert(wf_at(*doc, li as int));
    let ch = match get_children(doc, li) {
        Option::Some(v) => v,
        Option::None => {
            assert(children_of(*doc, li as int) =~= Seq::<usize>::empty());
            return Option::None;
        },
    };
    let chn = ch.len();
    if chn == 0 {
        return Option::None;
    }
    let last = ch[chn - 1];
    assert(last == children_of(*doc, li as int)[children_of(*doc, li as int).len() - 1]);
    assert(last < doc.nodes@.len());
    let examples: Vec<Example> = if node_has_tag(doc, last, "dl") {
        let want: Vec<&str> = vec!["h-usage-example"];
        proof {
            assert(strs_view(want@) =~= seq!["h-usage-example"@]);
        }
        assert(wf_at(*doc, last as int));
        let hi = node_end(doc, last);
        let conts = query_all_in(doc, last + 1, hi, "div", &want);
        collect_examples(doc, &conts, true)
    } else if node_has_tag(doc, last, "ul") {
        let want: Vec<&str> = Vec::new();
        proof {
            assert(strs_view(want@) =~= Seq::<Seq<char>>::empty());
        }
        assert(wf_at(*doc, last as int));
        let hi = node_end(doc, last);
        let conts = query_all_in(doc, last + 1, hi, "li", &want);
        collect_examples(doc, &conts, false)
    } else {
        Vec::new()
    };
    proof {
        let ch0 = children_of(*doc, li as int);
        let last0 = ch0[ch0.len() - 1] as int;
        if has_tag(*doc, last0, "dl"@) {
            assert(examples_view(examples@) == examples_from(
                *doc,
                matches_in(*doc, last0 + 1, end_of(*doc, last0), "div"@, seq!["h-usage-example"@]),
                0,
                true,
            ));
        } else if has_tag(*doc, last0, "ul"@) {
            assert(examples_view(examples@) == examples_from(
                *doc,
                matches_in(*doc, last0 + 1, end_of(*doc, last0), "li"@, Seq::empty()),
                0,
                false,
            ));
        } else {
            assert(examples_view(examples@) =~= Seq::<(Seq<char>, Option<Seq<char>>)>::empty());
        }
    }
    let full = inner_text(doc, li);
    let line = take_first_line(full.as_str());
    let trimmed = trim_str(line);
    let meaning = shorten_meaning(trimmed);
    Option::Some(Meaning { pos, meaning, examples })
}

/// The meanings the list items at `items` yield under the given part of
/// speech, in document order; entries that are not list items, and items
/// that yield nothing, are skipped.
pub open spec fn meanings_from(doc: Doc, items: Seq<usize>, k: int, pos: PartOfSpeechV) -> Seq<
    MeaningV,
>
    decreases items.len() - k,
{
    if k < 0 || k >= items.len() {
        Seq::empty()
    } else {
        let rest = meanings_from(doc, items, k + 1, pos);
        if has_tag(doc, items[k] as int, "li"@) {
            match spec_meaning_item(doc, items[k] as int, pos) {
                Option::Some(m) => seq![m] + rest,
                Option::None => rest,
            }
        } else {
            rest
        }
    }
}

/// The meanings of a part-of-speech subsection: nothing when the
/// subsection has no ordered list after its heading — the signal that a
/// recognized subsection carries no definitions at all — and otherwise
/// the meanings its list items yield.
pub open spec fn spec_section_meanings(doc: Doc, sec: Seq<usize>, pos: PartOfSpeechV) -> Option<
    Seq<MeaningV>,
> {
    match find_by_tag(doc, sec, 1, "ol"@) {
        Option::None => Option::None,
        Option::Some(ol) => Option::Some(meanings_from(doc, children_of(doc, ol), 0, pos)),
    }
}

/// Parses a recognized part-of-speech subsection into its meanings, or
/// fails with `NotFound` when the subsection has no definition list.
pub fn get_meanings_from_section(doc: &Doc, sec: &Vec<usize>, pos: &PartOfSpeech) -> (r: Result<
    Vec<Meaning>,
    LookupError,
>)
    requires
        wf(*doc),
        all_lt(sec@, doc.nodes@.len() as int),
    ensures
        match spec_section_meanings(*doc, sec@, pos@) {
            Option::Some(ms) => r matches Result::Ok(v) && meanings_view(v@) == ms,
            Option::None => r matches Result::Err(e) && e == LookupError::NotFound,
        },
{
    let ol = match find_first_node_by_name(doc, sec, 1, "ol") {
        Option::Some(ol) => ol,
        Option::None => {
            return Result::Err(LookupError::NotFound);
        },
    };
    assert(wf_at(*doc, ol as int));
    proof {
        lemma_find_by_tag(*doc, sec@, 1, "ol"@);
    }
    let items = match get_children(doc, ol) {
        Option::Some(v) => v,
        Option::None => {
            // The node carries the list tag, so it is an element and has a
            // child list.
            assert(false);
            return Result::Err(LookupError::NotFound);
        },
    };
    assert(items@ == children_of(*doc, ol as int));
    assert forall|q: int| 0 <= q < items@.len() implies #[trigger] items@[q]
        < doc.nodes@.len() by {
        assert(children_of(*doc, ol as int)[q] == items@[q]);
    }
    assert(all_lt(items@, doc.nodes@.len() as int));
    let n = items.len();
    let mut out: Vec<Meaning> = Vec::new();
    let mut k: usize = 0;
    while k < n
        invariant
            wf(*doc),
            all_lt(items@, doc.nodes@.len() as int),
            n == items@.len(),
            k <= n,
            meanings_from(*doc, items@, 0, pos@) == meanings_view(out@) + meanings_from(
                *doc,
                items@,
                k as int,
                pos@,
            ),
        decreases n - k,
    {
        if node_has_tag(doc, items[k], "li") {
            let m = parse_meaning_item(doc, items[k], copy_pos(pos));
            match m {
                Option::Some(m) => {
                    let ghost prev = out@;
                    let ghost mv = m@;
                    out.push(m);
                    proof {
                        assert(meanings_view(out@) =~= meanings_view(prev) + seq![mv]);
                        assert(meanings_view(prev) + (seq![mv] + meanings_from(
                            *doc,
                            items@,
                            k + 1,
                            pos@,
                        )) =~= meanings_view(out@) + meanings_from(*doc, items@, k + 1, pos@));
                    }
                },
                Option::None => {},
            }
        }
        k += 1;
    }
    proof {
        assert(meanings_from(*doc, items@, 0, pos@) =~= meanings_view(out@));
    }
    Result::Ok(out)
}

} // verus!
