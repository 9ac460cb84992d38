//! The typed records that an extraction produces, their spec-level views,
//! and the error taxonomy.

use vstd::prelude::*;

verus! {

/// Grammatical gender of a noun sense, when the entry states it.
#[derive(Debug, Clone, Copy, PartialEq, Eq, Structural)]
pub enum NounGender {
    Masculine,
    Feminine,
}

/// The part of speech of one sense, carrying the attributes specific to it.
/// Attributes default to absent when the document does not state them.
#[derive(Debug, Clone, PartialEq, Eq)]
pub enum PartOfSpeech {
    Noun { gender: Option<NounGender> },
    Verb,
    Adjective { f: Option<String>, mp: Option<String>, fp: Option<String> },
    Pronoun,
    Adverb,
    Numeral,
    Determiner,
    Preposition,
    Interjection,
}

/// A usage example: the original-language sentence and, when the markup
/// exposed a distinct translation node, its translation.
pub type Example = (String, Option<String>);

/// One sense of the word: its part of speech, a single-line definition,
/// and the usage examples found under that definition.
#[derive(Debug, Clone, PartialEq, Eq)]
pub struct Meaning {
    pub pos: PartOfSpeech,
    pub meaning: String,
    pub examples: Vec<Example>,
}

/// Phonetic transcription plus an absolute audio-resource URL. Optional on
/// a `Word` because not every entry publishes pronunciation; a partial
/// pronunciation (one piece missing) is not represented.
#[derive(Debug, Clone, PartialEq, Eq)]
pub struct Pronunciation {
    pub ipa: String,
    pub audio_url: String,
}

/// The output record of one extraction: the target word, a reference link
/// anchored to the language section, the pronunciation if published, and
/// the senses in document order.
#[derive(Debug, Clone, PartialEq, Eq)]
pub struct Word {
    pub word: String,
    pub wiki_link: String,
    pub pronunciation: Option<Pronunciation>,
    pub meanings: Vec<Meaning>,
}

/// Why an operation could not produce a value.
///
/// `NotFound`: a required structure is absent (no language region, no
/// definition list under a recognized subsection, no matching sense).
/// `Malformed`: a value does not have the shape the operation demands.
#[derive(Debug, Clone, Copy, PartialEq, Eq, Structural)]
pub enum LookupError {
    NotFound,
    Malformed,
}

/// Mathematical view of `PartOfSpeech`: inflected forms as char sequences.
pub enum PartOfSpeechV {
    Noun { gender: Option<NounGender> },
    Verb,
    Adjective { f: Option<Seq<char>>, mp: Option<Seq<char>>, fp: Option<Seq<char>> },
    Pronoun,
    Adverb,
    Numeral,
    Determiner,
    Preposition,
    Interjection,
}

/// Mathematical view of `Meaning`.
pub struct MeaningV {
    pub pos: PartOfSpeechV,
    pub meaning: Seq<char>,
    pub examples: Seq<(Seq<char>, Option<Seq<char>>)>,
}

/// Mathematical view of `Pronunciation`.
pub struct PronunciationV {
    pub ipa: Seq<char>,
    pub audio_url: Seq<char>,
}

/// Mathematical view of `Word`.
pub struct WordV {
    pub word: Seq<char>,
    pub wiki_link: Seq<char>,
    pub pronunciation: Option<PronunciationV>,
    pub meanings: Seq<MeaningV>,
}

pub open spec fn opt_str_view(o: Option<String>) -> Option<Seq<char>> {
    match o {
        Option::Some(s) => Option::Some(s@),
        Option::None => Option::None,
    }
}

pub open spec fn example_view(e: Example) -> (Seq<char>, Option<Seq<char>>) {
    (e.0@, opt_str_view(e.1))
}

/// The views of a list of examples.
pub open spec fn examples_view(s: Seq<Example>) -> Seq<(Seq<char>, Option<Seq<char>>)> {
    s.map_values(|e: Example| example_view(e))
}

/// The views of a list of meanings.
pub open spec fn meanings_view(s: Seq<Meaning>) -> Seq<MeaningV> {
    s.map_values(|m: Meaning| m@)
}

impl View for PartOfSpeech {
    type V = PartOfSpeechV;

    open spec fn view(&self) -> PartOfSpeechV {
        match self {
            PartOfSpeech::Noun { gender } => PartOfSpeechV::Noun { gender: *gender },
            PartOfSpeech::Verb => PartOfSpeechV::Verb,
            PartOfSpeech::Adjective { f, mp, fp } => PartOfSpeechV::Adjective {
                f: opt_str_view(*f),
                mp: opt_str_view(*mp),
                fp: opt_str_view(*fp),
            },
            PartOfSpeech::Pronoun => PartOfSpeechV::Pronoun,
            PartOfSpeech::Adverb => PartOfSpeechV::Adverb,
            PartOfSpeech::Numeral => PartOfSpeechV::Numeral,
            PartOfSpeech::Determiner => PartOfSpeechV::Determiner,
            PartOfSpeech::Preposition => PartOfSpeechV::Preposition,
            PartOfSpeech::Interjection => PartOfSpeechV::Interjection,
        }
    }
}

impl View for Meaning {
    type V = MeaningV;

    open spec fn view(&self) -> MeaningV {
        MeaningV {
            pos: self.pos@,
            meaning: self.meaning@,
            examples: examples_view(self.examples@),
        }
    }
}

impl View for Pronunciation {
    type V = PronunciationV;

    open spec fn view(&self) -> PronunciationV {
        PronunciationV { ipa: self.ipa@, audio_url: self.audio_url@ }
    }
}

pub open spec fn opt_pron_view(o: Option<Pronunciation>) -> Option<PronunciationV> {
    match o {
        Option::Some(p) => Option::Some(p@),
        Option::None => Option::None,
    }
}

impl View for Word {
    type V = WordV;

    open spec fn view(&self) -> WordV {
        WordV {
            word: self.word@,
            wiki_link: self.wiki_link@,
            pronunciation: opt_pron_view(self.pronunciation),
            meanings: meanings_view(self.meanings@),
        }
    }
}

/// The view of an optional part of speech.
pub open spec fn opt_pos_view(o: Option<PartOfSpeech>) -> Option<PartOfSpeechV> {
    match o {
        Option::Some(p) => Option::Some(p@),
        Option::None => Option::None,
    }
}

/// The view of an optional example.
pub open spec fn opt_example_view(o: Option<Example>) -> Option<(Seq<char>, Option<Seq<char>>)> {
    match o {
        Option::Some(e) => Option::Some(example_view(e)),
        Option::None => Option::None,
    }
}

/// The view of an optional meaning.
pub open spec fn opt_meaning_view(o: Option<Meaning>) -> Option<MeaningV> {
    match o {
        Option::Some(m) => Option::Some(m@),
        Option::None => Option::None,
    }
}

/// Copies an optional string.
pub fn copy_opt_string(o: &Option<String>) -> (r: Option<String>)
    ensures
        r == *o,
{
    match o {
        Option::Some(s) => Option::Some(s.clone()),
        Option::None => Option::None,
    }
}

/// Copies a part-of-speech value, attributes included.
pub fn copy_pos(p: &PartOfSpeech) -> (r: PartOfSpeech)
    ensures
        r == *p,
{
    match p {
        PartOfSpeech::Noun { gender } => PartOfSpeech::Noun { gender: *gender },
        PartOfSpeech::Verb => PartOfSpeech::Verb,
        PartOfSpeech::Adjective { f, mp, fp } => PartOfSpeech::Adjective {
            f: copy_opt_string(f),
            mp: copy_opt_string(mp),
            fp: copy_opt_string(fp),
        },
        PartOfSpeech::Pronoun => PartOfSpeech::Pronoun,
        PartOfSpeech::Adverb => PartOfSpeech::Adverb,
        PartOfSpeech::Numeral => PartOfSpeech::Numeral,
        PartOfSpeech::Determiner => PartOfSpeech::Determiner,
        PartOfSpeech::Preposition => PartOfSpeech::Preposition,
        PartOfSpeech::Interjection => PartOfSpeech::Interjection,
    }
}

} // verus!
