//! Presentation of a record as flat flashcard-row fields, and the parser
//! for word-list lines of the shape `word [meaning]`.

use vstd::prelude::*;
use crate::strutil::{is_substring, str_contains};
use crate::word::{
    LookupError, MeaningV, NounGender, PartOfSpeech, PartOfSpeechV, Word, WordV,
};

verus! {

/// The views of a list of strings.
pub open spec fn strings_view(s: Seq<String>) -> Seq<Seq<char>> {
    s.map_values(|x: String| x@)
}

/// Whether a word is written with a leading vowel sound, as the article
/// choice sees it (the aspirate-h distinction is not attempted).
pub open spec fn is_vowel_start(c: char) -> bool {
    c == 'a' || c == 'e' || c == 'i' || c == 'o' || c == 'u' || c == 'h'
}

/// The article-prefixed form of the word: elided before a vowel sound,
/// with the gender spelled out; `le`/`la` otherwise. A sense that is not
/// a gendered noun has no article-prefixed form.
pub open spec fn spec_article_form(word: Seq<char>, pos: PartOfSpeechV) -> Seq<char>
    recommends
        word.len() > 0,
{
    match pos {
        PartOfSpeechV::Noun { gender: Option::Some(g) } => {
            if is_vowel_start(word[0]) {
                if g == NounGender::Masculine {
                    "l'"@ + word + " (masc.)"@
                } else {
                    "l'"@ + word + " (fem.)"@
                }
            } else {
                if g == NounGender::Masculine {
                    "le "@ + word
                } else {
                    "la "@ + word
                }
            }
        },
        _ => Seq::empty(),
    }
}

/// The last meaning whose definition text holds `sel` as a substring, or
/// nothing when none matches.
pub open spec fn last_match(ms: Seq<MeaningV>, sel: Seq<char>) -> Option<MeaningV>
    decreases ms.len(),
{
    if ms.len() == 0 {
        Option::None
    } else if is_substring(ms.last().meaning, sel) {
        Option::Some(ms.last())
    } else {
        last_match(ms.drop_last(), sel)
    }
}

/// The flashcard-row fields of a record under a selected meaning: the
/// word, its article-prefixed form, the transcription and sound tag when
/// a pronunciation is present, the selection, the first example with and
/// without translation, and the reference link, in the fixed row layout.
/// A record without meanings is `Malformed`; a selection that matches no
/// meaning is `NotFound`.
pub open spec fn spec_anki_fields(w: WordV, sel: Seq<char>) -> Result<Seq<Seq<char>>, LookupError>
    recommends
        w.word.len() > 0,
{
    if w.meanings.len() == 0 {
        Result::Err(LookupError::Malformed)
    } else {
        match last_match(w.meanings, sel) {
            Option::None => Result::Err(LookupError::NotFound),
            Option::Some(m) => {
                let article = spec_article_form(w.word, m.pos);
                let ex1 = if m.examples.len() > 0 {
                    m.examples[0].0
                } else {
                    Seq::empty()
                };
                let ex2 = if m.examples.len() > 0 {
                    match m.examples[0].1 {
                        Option::Some(t) => t,
                        Option::None => Seq::empty(),
                    }
                } else {
                    Seq::empty()
                };
                let ipa = match w.pronunciation {
                    Option::Some(p) => p.ipa,
                    Option::None => Seq::empty(),
                };
                let audio = match w.pronunciation {
                    Option::Some(p) => "[sound:"@ + w.word + ".mp3]"@,
                    Option::None => Seq::empty(),
                };
                Result::Ok(
                    seq![
                        w.word,
                        article,
                        Seq::empty(),
                        ipa,
                        Seq::empty(),
                        sel,
                        ex1,
                        ex2,
                        w.wiki_link,
                        Seq::empty(),
                        audio,
                    ],
                )
            },
        }
    }
}

fn article_form(word: &str, pos: &PartOfSpeech) -> (r: String)
    requires
        word@.len() > 0,
    ensures
        r@ == spec_article_form(word@, pos@),
{
    let g = match pos {
        PartOfSpeech::Noun { gender: Option::Some(g) } => *g,
        _ => {
            return String::new();
        },
    };
    let c = word.get_char(0);
    let vowel = c == 'a' || c == 'e' || c == 'i' || c == 'o' || c == 'u' || c == 'h';
    if vowel {
        if matches!(g, NounGender::Masculine) {
            String::from_str("l'").concat(word).concat(" (masc.)")
        } else {
            String::from_str("l'").concat(word).concat(" (fem.)")
        }
    } else {
        if matches!(g, NounGender::Masculine) {
            String::from_str("le ").concat(word)
        } else {
            String::from_str("la ").concat(word)
        }
    }
}

/// Maps a record and a caller-selected meaning into the flashcard-row
/// fields. The caller must hand in a record with a non-empty word.
pub fn word_to_anki_fields(record: &Word, select_meaning: &str) -> (r: Result<
    Vec<String>,
    LookupError,
>)
    requires
        record.word@.len() > 0,
    ensures
        match spec_anki_fields(record@, select_meaning@) {
            Result::Ok(fs) => r matches Result::Ok(v) && strings_view(v@) == fs,
            Result::Err(e) => r matches Result::Err(e2) && e2 == e,
        },
{
    let n = record.meanings.len();
    if n == 0 {
        assert(record@.meanings.len() == 0);
        return Result::Err(LookupError::Malformed);
    }
    let mut found: Option<usize> = Option::None;
    let mut k: usize = 0;
    while k < n
        invariant
            n == record.meanings@.len(),
            k <= n,
            record@.meanings.len() == n,
            match found {
                Option::Some(idx) => idx < k && last_match(record@.meanings.take(k as int),
                    select_meaning@) == Option::Some(record@.meanings[idx as int]),
                Option::None => last_match(record@.meanings.take(k as int), select_meaning@)
                    is None,
            },
        decreases n - k,
    {
        proof {
            assert(record@.meanings.take(k + 1).drop_last() =~= record@.meanings.take(k as int));
            assert(record@.meanings.take(k + 1).last() == record@.meanings[k as int]);
            assert(record@.meanings[k as int] == record.meanings@[k as int]@);
        }
        if str_contains(record.meanings[k].meaning.as_str(), select_meaning) {
            found = Option::Some(k);
        }
        k += 1;
    }
    proof {
        assert(record@.meanings.take(n as int) =~= record@.meanings);
    }
    let idx = match found {
        Option::Some(idx) => idx,
        Option::None => {
            return Result::Err(LookupError::NotFound);
        },
    };
    let m = &record.meanings[idx];
    let article = article_form(record.word.as_str(), &m.pos);
    let (ex1, ex2) = if m.examples.len() > 0 {
        let e = &m.examples[0];
        proof {
            assert(record@.meanings[idx as int].examples[0] == crate::word::example_view(
                m.examples@[0],
            ));
        }
        let e2 = match &e.1 {
            Option::Some(t) => t.clone(),
            Option::None => String::new(),
        };
        (e.0.clone(), e2)
    } else {
        (String::new(), String::new())
    };
    let (ipa, audio) = match &record.pronunciation {
        Option::Some(p) => {
            let audio = String::from_str("[sound:").concat(record.word.as_str()).concat(".mp3]");
            proof {
                assert(audio@ =~= "[sound:"@ + record@.word + ".mp3]"@);
            }
            (p.ipa.clone(), audio)
        },
        Option::None => (String::new(), String::new()),
    };
    let mut out: Vec<String> = Vec::new();
    out.push(record.word.clone());
    out.push(article);
    out.push(String::new());
    out.push(ipa);
    out.push(String::new());
    out.push(String::from_str(select_meaning));
    out.push(ex1);
    out.push(ex2);
    out.push(record.wiki_link.clone());
    out.push(String::new());
    out.push(audio);
    proof {
        let fs = match spec_anki_fields(record@, select_meaning@) {
            Result::Ok(fs) => fs,
            Result::Err(_) => Seq::empty(),
        };
        assert forall|q: int| 0 <= q < 11 implies strings_view(out@)[q] == fs[q] by {
            assert(strings_view(out@)[q] == out@[q]@);
        }
        assert(strings_view(out@) =~= fs);
    }
    Result::Ok(out)
}

/// Where the first opening bracket of `s` stands, at or after `i`.
pub open spec fn first_bracket(s: Seq<char>, i: int) -> Option<int>
    decreases s.len() - i,
{
    if i < 0 || i >= s.len() {
        Option::None
    } else if s[i] == '[' {
        Option::Some(i)
    } else {
        first_bracket(s, i + 1)
    }
}

/// What a word-list line yields: lines of the shape `word [meaning]`,
/// where the word runs to the space before the line's first opening
/// bracket and is non-empty, the closing bracket ends the line, and the
/// bracketed part carries no line break. Anything else is malformed.
pub open spec fn spec_word_line(s: Seq<char>) -> Option<(Seq<char>, Seq<char>)> {
    match first_bracket(s, 0) {
        Option::None => Option::None,
        Option::Some(p) => {
            if p >= 2 && s[p - 1] == ' ' && s.len() >= p + 2 && s[s.len() - 1] == ']' && (forall|
                t: int,
            |
                p + 1 <= t < s.len() - 1 ==> s[t] != '\n') {
                Option::Some((s.take(p - 1), s.subrange(p + 1, s.len() - 1)))
            } else {
                Option::None
            }
        },
    }
}

/// Parses one word-list line into the word and its selected meaning.
pub fn parse_word_line(line: &str) -> (r: Option<(String, String)>)
    ensures
        match (r, spec_word_line(line@)) {
            (Option::Some(v), Option::Some(sv)) => v.0@ == sv.0 && v.1@ == sv.1,
            (Option::None, Option::None) => true,
            _ => false,
        },
{
    let n = line.unicode_len();
    let mut k: usize = 0;
    while k < n && line.get_char(k) != '['
        invariant
            n == line@.len(),
            k <= n,
            first_bracket(line@, 0) == first_bracket(line@, k as int),
        decreases n - k,
    {
        assert(first_bracket(line@, k as int) == first_bracket(line@, k + 1));
        k += 1;
    }
    if k >= n {
        assert(first_bracket(line@, 0) is None);
        return Option::None;
    }
    let p = k;
    assert(first_bracket(line@, 0) == Option::Some(p as int));
    if !(p >= 2 && n - p >= 2) {
        return Option::None;
    }
    if line.get_char(p - 1) != ' ' {
        return Option::None;
    }
    if line.get_char(n - 1) != ']' {
        return Option::None;
    }
    let mut t: usize = p + 1;
    while t < n - 1
        invariant
            n == line@.len(),
            p + 1 <= t <= n - 1,
            n >= p + 2,
            p >= 2,
            first_bracket(line@, 0) == Option::Some(p as int),
            forall|q: int| p + 1 <= q < t ==> line@[q] != '\n',
        decreases n - t,
    {
        if line.get_char(t) == '\n' {
            return Option::None;
        }
        t += 1;
    }
    let word = String::from_str(line.substring_char(0, p - 1));
    let meaning = String::from_str(line.substring_char(p + 1, n - 1));
    proof {
        assert(word@ =~= line@.take(p - 1));
        assert(meaning@ =~= line@.subrange(p + 1, line@.len() - 1));
    }
    Option::Some((word, meaning))
}

} // verus!
