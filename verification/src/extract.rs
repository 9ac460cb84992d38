//! The entry assembler: locates the target language's region, classifies
//! each subsection by its heading label, dispatches it to the matching
//! parser, and folds the results into the final `Word` record.
//!
//! A subsection that cannot be parsed is skipped — one subsection's
//! failure never prevents its siblings from contributing — while a
//! document without the language region fails the whole extraction.

use vstd::prelude::*;
use crate::dom::{Doc, all_lt, header_text_of, get_header_text, views_of, wf};
use crate::grammar::{
    get_adj_form_from_section, get_gender_from_section, get_pr_from_section, spec_adj_forms,
    spec_gender, spec_pronunciation,
};
use crate::meaning::{get_meanings_from_section, spec_section_meanings};
use crate::sections::{fetch_language_sections, spec_language_sections};
use crate::strutil::str_eq;
use crate::word::{
    LookupError, Meaning, MeaningV, PartOfSpeech, PartOfSpeechV, Pronunciation, PronunciationV,
    Word, WordV, meanings_view, opt_pos_view, opt_pron_view,
};

verus! {

/// The language heading label this extractor targets.
pub open spec fn target_language() -> Seq<char> {
    "French"@
}

/// The part of speech a fixed-attribute subsection label names. Labels
/// whose variants carry attributes of their own — nouns and adjectives —
/// are dispatched separately, and any other label carries no lexical
/// data and is ignored.
pub open spec fn pos_for_label(label: Seq<char>) -> Option<PartOfSpeechV> {
    if label == "Verb"@ {
        Option::Some(PartOfSpeechV::Verb)
    } else if label == "Pronoun"@ {
        Option::Some(PartOfSpeechV::Pronoun)
    } else if label == "Adverb"@ {
        Option::Some(PartOfSpeechV::Adverb)
    } else if label == "Numeral"@ {
        Option::Some(PartOfSpeechV::Numeral)
    } else if label == "Determiner"@ {
        Option::Some(PartOfSpeechV::Determiner)
    } else if label == "Preposition"@ {
        Option::Some(PartOfSpeechV::Preposition)
    } else if label == "Interjection"@ {
        Option::Some(PartOfSpeechV::Interjection)
    } else {
        Option::None
    }
}

/// Maps a fixed-attribute subsection label to its part of speech.
pub fn pos_from_label(label: &str) -> (r: Option<PartOfSpeech>)
    ensures
        opt_pos_view(r) == pos_for_label(label@),
{
    if str_eq(label, "Verb") {
        Option::Some(PartOfSpeech::Verb)
    } else if str_eq(label, "Pronoun") {
        Option::Some(PartOfSpeech::Pronoun)
    } else if str_eq(label, "Adverb") {
        Option::Some(PartOfSpeech::Adverb)
    } else if str_eq(label, "Numeral") {
        Option::Some(PartOfSpeech::Numeral)
    } else if str_eq(label, "Determiner") {
        Option::Some(PartOfSpeech::Determiner)
    } else if str_eq(label, "Preposition") {
        Option::Some(PartOfSpeech::Preposition)
    } else if str_eq(label, "Interjection") {
        Option::Some(PartOfSpeech::Interjection)
    } else {
        Option::None
    }
}

/// One step of the assembler's fold, from subsection `k` on: the
/// pronunciation is overwritten by each pronunciation subsection (the
/// last one wins), and each recognized part-of-speech subsection that
/// parses appends its meanings; subsections that fail to parse, and
/// unrecognized ones, contribute nothing.
pub open spec fn spec_fold_sections(
    doc: Doc,
    secs: Seq<Seq<usize>>,
    k: int,
    pron: Option<PronunciationV>,
    ms: Seq<MeaningV>,
) -> (Option<PronunciationV>, Seq<MeaningV>)
    decreases secs.len() - k,
{
    if k < 0 || k >= secs.len() {
        (pron, ms)
    } else {
        let sec = secs[k];
        if sec.len() == 0 {
            spec_fold_sections(doc, secs, k + 1, pron, ms)
        } else {
            match header_text_of(doc, sec[0] as int) {
                Option::None => spec_fold_sections(doc, secs, k + 1, pron, ms),
                Option::Some(label) => {
                    if label == "Pronunciation"@ {
                        spec_fold_sections(doc, secs, k + 1, spec_pronunciation(doc, sec), ms)
                    } else if label == "Noun"@ {
                        match spec_section_meanings(
                            doc,
                            sec,
                            PartOfSpeechV::Noun { gender: spec_gender(doc, sec) },
                        ) {
                            Option::Some(mm) => spec_fold_sections(doc, secs, k + 1, pron, ms + mm),
                            Option::None => spec_fold_sections(doc, secs, k + 1, pron, ms),
                        }
                    } else if label == "Adjective"@ {
                        match spec_adj_forms(doc, sec) {
                            Option::Some(pv) => match spec_section_meanings(doc, sec, pv) {
                                Option::Some(mm) => spec_fold_sections(
                                    doc,
                                    secs,
                                    k + 1,
                                    pron,
                                    ms + mm,
                                ),
                                Option::None => spec_fold_sections(doc, secs, k + 1, pron, ms),
                            },
                            Option::None => spec_fold_sections(doc, secs, k + 1, pron, ms),
                        }
                    } else {
                        match pos_for_label(label) {
                            Option::Some(pv) => match spec_section_meanings(doc, sec, pv) {
                                Option::Some(mm) => spec_fold_sections(
                                    doc,
                                    secs,
                                    k + 1,
                                    pron,
                                    ms + mm,
                                ),
                                Option::None => spec_fold_sections(doc, secs, k + 1, pron, ms),
                            },
                            Option::None => spec_fold_sections(doc, secs, k + 1, pron, ms),
                        }
                    }
                },
            }
        }
    }
}

/// The reference link of an extracted record: the page of the word,
/// anchored to the language section.
pub open spec fn spec_wiki_link(word: Seq<char>) -> Seq<char> {
    "https://en.wiktionary.org/wiki/"@ + word + "#French"@
}

/// The record an extraction yields: nothing when the document has no
/// region for the target language, and otherwise the word, its anchored
/// reference link, the last pronunciation read, and the meanings of the
/// recognized subsections in document order.
pub open spec fn spec_extract(doc: Doc, word: Seq<char>) -> Option<WordV> {
    match spec_language_sections(doc, target_language()) {
        Option::None => Option::None,
        Option::Some(secs) => {
            let folded = spec_fold_sections(doc, secs, 0, Option::None, Seq::empty());
            Option::Some(
                WordV {
                    word: word,
                    wiki_link: spec_wiki_link(word),
                    pronunciation: folded.0,
                    meanings: folded.1,
                },
            )
        },
    }
}

/// Extracts the record of `word` from a parsed document, or fails with
/// `NotFound` when the document has no entry for the target language.
pub fn wiktionary_extract(doc: &Doc, word: &str) -> (r: Result<Word, LookupError>)
    requires
        wf(*doc),
    ensures
        match spec_extract(*doc, word@) {
            Option::Some(wv) => r matches Result::Ok(w) && w@ == wv,
            Option::None => r matches Result::Err(e) && e == LookupError::NotFound,
        },
{
    let sections = match fetch_language_sections(doc, "French") {
        Option::Some(s) => s,
        Option::None => {
            return Result::Err(LookupError::NotFound);
        },
    };
    let ghost secsv = views_of(sections@);
    let n = sections.len();
    let mut pron: Option<Pronunciation> = Option::None;
    let mut meanings: Vec<Meaning> = Vec::new();
    proof {
        assert(meanings_view(meanings@) =~= Seq::<MeaningV>::empty());
    }
    let mut k: usize = 0;
    while k < n
        invariant
            wf(*doc),
            n == sections@.len(),
            secsv == views_of(sections@),
            k <= n,
            forall|t: int|
                0 <= t < sections@.len() ==> all_lt(
                    (#[trigger] sections@[t])@,
                    doc.nodes@.len() as int,
                ),
            spec_fold_sections(*doc, secsv, 0, Option::None, Seq::empty()) == spec_fold_sections(
                *doc,
                secsv,
                k as int,
                opt_pron_view(pron),
                meanings_view(meanings@),
            ),
        decreases n - k,
    {
        let ghost pron0 = opt_pron_view(pron);
        let ghost ms0 = meanings_view(meanings@);
        let sec = &sections[k];
        assert(secsv[k as int] == sec@);
        if sec.len() > 0 {
            let h = get_header_text(doc, sec[0]);
            match h {
                Option::Some(label) => {
                    if str_eq(label.as_str(), "Pronunciation") {
                        pron = get_pr_from_section(doc, sec);
                    } else if str_eq(label.as_str(), "Noun") {
                        let gender = get_gender_from_section(doc, sec);
                        let pos = PartOfSpeech::Noun { gender };
                        match get_meanings_from_section(doc, sec, &pos) {
                            Result::Ok(mut mm) => {
                                let ghost prev = meanings@;
                                let ghost mmv = mm@;
                                meanings.append(&mut mm);
                                proof {
                                    assert(meanings_view(meanings@) =~= meanings_view(prev)
                                        + meanings_view(mmv));
                                }
                            },
                            Result::Err(_) => {},
                        }
                    } else if str_eq(label.as_str(), "Adjective") {
                        match get_adj_form_from_section(doc, sec) {
                            Option::Some(pos) => {
                                match get_meanings_from_section(doc, sec, &pos) {
                                    Result::Ok(mut mm) => {
                                        let ghost prev = meanings@;
                                        let ghost mmv = mm@;
                                        meanings.append(&mut mm);
                                        proof {
                                            assert(meanings_view(meanings@) =~= meanings_view(prev)
                                                + meanings_view(mmv));
                                        }
                                    },
                                    Result::Err(_) => {},
                                }
                            },
                            Option::None => {},
                        }
                    } else {
                        match pos_from_label(label.as_str()) {
                            Option::Some(pos) => {
                                match get_meanings_from_section(doc, sec, &pos) {
                                    Result::Ok(mut mm) => {
                                        let ghost prev = meanings@;
                                        let ghost mmv = mm@;
                                        meanings.append(&mut mm);
                                        proof {
                                            assert(meanings_view(meanings@) =~= meanings_view(prev)
                                                + meanings_view(mmv));
                                        }
                                    },
                                    Result::Err(_) => {},
                                }
                            },
                            Option::None => {},
                        }
                    }
                },
                Option::None => {},
            }
        }
        proof {
            assert(spec_fold_sections(*doc, secsv, k as int, pron0, ms0) == spec_fold_sections(
                *doc,
                secsv,
                k + 1,
                opt_pron_view(pron),
                meanings_view(meanings@),
            ));
        }
        k += 1;
    }
    let url = String::from_str("https://en.wiktionary.org/wiki/").concat(word);
    let wiki_link = url.concat("#French");
    Result::Ok(Word { word: String::from_str(word), wiki_link, pronunciation: pron, meanings })
}

/// The meanings one subsection contributes to the final record.
pub open spec fn section_contribution(doc: Doc, sec: Seq<usize>) -> Seq<MeaningV> {
    if sec.len() == 0 {
        Seq::empty()
    } else {
        match header_text_of(doc, sec[0] as int) {
            Option::None => Seq::empty(),
            Option::Some(label) => {
                if label == "Pronunciation"@ {
                    Seq::empty()
                } else if label == "Noun"@ {
                    match spec_section_meanings(
                        doc,
                        sec,
                        PartOfSpeechV::Noun { gender: spec_gender(doc, sec) },
                    ) {
                        Option::Some(mm) => mm,
                        Option::None => Seq::empty(),
                    }
                } else if label == "Adjective"@ {
                    match spec_adj_forms(doc, sec) {
                        Option::Some(pv) => match spec_section_meanings(doc, sec, pv) {
                            Option::Some(mm) => mm,
                            Option::None => Seq::empty(),
                        },
                        Option::None => Seq::empty(),
                    }
                } else {
                    match pos_for_label(label) {
                        Option::Some(pv) => match spec_section_meanings(doc, sec, pv) {
                            Option::Some(mm) => mm,
                            Option::None => Seq::empty(),
                        },
                        Option::None => Seq::empty(),
                    }
                }
            },
        }
    }
}

/// The contributions of the subsections from `k` on, concatenated in
/// document order.
pub open spec fn concat_contributions(doc: Doc, secs: Seq<Seq<usize>>, k: int) -> Seq<MeaningV>
    decreases secs.len() - k,
{
    if k < 0 || k >= secs.len() {
        Seq::empty()
    } else {
        section_contribution(doc, secs[k]) + concat_contributions(doc, secs, k + 1)
    }
}

/// The fold's meanings are the accumulator followed by the subsections'
/// contributions in document order.
pub proof fn lemma_fold_meanings_structure(
    doc: Doc,
    secs: Seq<Seq<usize>>,
    k: int,
    pron: Option<PronunciationV>,
    ms: Seq<MeaningV>,
)
    requires
        0 <= k <= secs.len(),
    ensures
        spec_fold_sections(doc, secs, k, pron, ms).1 == ms + concat_contributions(doc, secs, k),
    decreases secs.len() - k,
{
    if k >= secs.len() {
        assert(ms + concat_contributions(doc, secs, k) =~= ms);
    } else {
        let sec = secs[k];
        let c = section_contribution(doc, sec);
        if c.len() == 0 {
            assert(ms + c =~= ms);
        }
        lemma_fold_meanings_structure(doc, secs, k + 1, pron, ms + c);
        lemma_fold_meanings_structure(doc, secs, k + 1, spec_pronunciation(doc, sec), ms + c);
        assert((ms + c) + concat_contributions(doc, secs, k + 1) =~= ms + (c
            + concat_contributions(doc, secs, k + 1)));
    }
}

/// A document that lacks the target-language heading yields no record:
/// the extraction fails and nothing partial is produced.
pub proof fn lemma_no_language_region_fails(doc: Doc, word: Seq<char>)
    requires
        spec_language_sections(doc, target_language()) is None,
    ensures
        spec_extract(doc, word) is None,
{
}

/// Where the language region exists, the record's meanings are exactly
/// the subsections' contributions concatenated in document order.
pub proof fn lemma_meanings_follow_document_order(
    doc: Doc,
    word: Seq<char>,
    secs: Seq<Seq<usize>>,
)
    requires
        spec_language_sections(doc, target_language()) == Option::Some(secs),
    ensures
        spec_extract(doc, word) matches Option::Some(wv) && wv.meanings == concat_contributions(
            doc,
            secs,
            0,
        ),
{
    lemma_fold_meanings_structure(doc, secs, 0, Option::None, Seq::empty());
    assert(Seq::<MeaningV>::empty() + concat_contributions(doc, secs, 0) =~= concat_contributions(
        doc,
        secs,
        0,
    ));
}

/// The contributions from `j` on hold at least those of subsection `k`.
pub proof fn lemma_concat_contributions_lower_bound(
    doc: Doc,
    secs: Seq<Seq<usize>>,
    j: int,
    k: int,
)
    requires
        0 <= j <= k < secs.len(),
    ensures
        concat_contributions(doc, secs, j).len() >= section_contribution(doc, secs[k]).len(),
    decreases k - j,
{
    if j == k {
    } else {
        lemma_concat_contributions_lower_bound(doc, secs, j + 1, k);
    }
}

/// A document whose language region holds at least one recognized
/// part-of-speech subsection that parses to at least one meaning yields
/// a record with non-empty meanings.
pub proof fn lemma_recognized_subsection_yields_meanings(
    doc: Doc,
    word: Seq<char>,
    secs: Seq<Seq<usize>>,
    k: int,
)
    requires
        spec_language_sections(doc, target_language()) == Option::Some(secs),
        0 <= k < secs.len(),
        section_contribution(doc, secs[k]).len() > 0,
    ensures
        spec_extract(doc, word) matches Option::Some(wv) && wv.meanings.len() > 0,
{
    lemma_meanings_follow_document_order(doc, word, secs);
    lemma_concat_contributions_lower_bound(doc, secs, 0, k);
}

} // verus!
