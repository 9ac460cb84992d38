//! The interchange codec: serializes a `Word` record to a structured
//! textual format and parses it back. The format mirrors the record
//! one-to-one — objects with fixed field order, strings quoted with
//! backslash escapes, options as `null` or a value — and parsing the
//! serialized form of any record yields an equal record
//! (`lemma_word_round_trip`).

use vstd::prelude::*;
use crate::word::{
    Example, Meaning, MeaningV, NounGender, PartOfSpeech, PartOfSpeechV, Pronunciation,
    PronunciationV, Word, WordV, example_view, examples_view, meanings_view, opt_pron_view,
    opt_str_view,
};
use crate::dom::opt_pos;

verus! {

// --- the encoding ---

/// How one character is written inside a quoted string.
pub open spec fn esc_char(c: char) -> Seq<char> {
    if c == '\\' {
        seq!['\\', '\\']
    } else if c == '"' {
        seq!['\\', '"']
    } else {
        seq![c]
    }
}

/// The body of a quoted string.
pub open spec fn escape(s: Seq<char>) -> Seq<char>
    decreases s.len(),
{
    if s.len() == 0 {
        Seq::empty()
    } else {
        esc_char(s[0]) + escape(s.skip(1))
    }
}

/// A quoted string.
pub open spec fn enc_str(s: Seq<char>) -> Seq<char> {
    seq!['"'] + escape(s) + seq!['"']
}

/// An optional string: `null` or a quoted string.
pub open spec fn enc_opt_str(o: Option<Seq<char>>) -> Seq<char> {
    match o {
        Option::Some(s) => enc_str(s),
        Option::None => "null"@,
    }
}

/// An optional gender, by variant name.
pub open spec fn enc_gender(g: Option<NounGender>) -> Seq<char> {
    match g {
        Option::None => "null"@,
        Option::Some(NounGender::Masculine) => enc_str("Masculine"@),
        Option::Some(NounGender::Feminine) => enc_str("Feminine"@),
    }
}

/// A part of speech: unit variants as their bare name, attribute-carrying
/// variants as an object under the variant name.
pub open spec fn enc_pos(p: PartOfSpeechV) -> Seq<char> {
    match p {
        PartOfSpeechV::Noun { gender } => "{\"Noun\":{\"gender\":"@ + enc_gender(gender) + "}}"@,
        PartOfSpeechV::Adjective { f, mp, fp } => "{\"Adjective\":{\"f\":"@ + enc_opt_str(f)
            + ",\"mp\":"@ + enc_opt_str(mp) + ",\"fp\":"@ + enc_opt_str(fp) + "}}"@,
        PartOfSpeechV::Verb => enc_str("Verb"@),
        PartOfSpeechV::Pronoun => enc_str("Pronoun"@),
        PartOfSpeechV::Adverb => enc_str("Adverb"@),
        PartOfSpeechV::Numeral => enc_str("Numeral"@),
        PartOfSpeechV::Determiner => enc_str("Determiner"@),
        PartOfSpeechV::Preposition => enc_str("Preposition"@),
        PartOfSpeechV::Interjection => enc_str("Interjection"@),
    }
}

/// An example: the sentence and its optional translation, as a pair.
pub open spec fn enc_example(e: (Seq<char>, Option<Seq<char>>)) -> Seq<char> {
    seq!['['] + enc_str(e.0) + seq![','] + enc_opt_str(e.1) + seq![']']
}

/// The examples from `k` on, each preceded by the separator.
pub open spec fn enc_examples_tail(es: Seq<(Seq<char>, Option<Seq<char>>)>, k: int) -> Seq<char>
    decreases es.len() - k,
{
    if k < 0 || k >= es.len() {
        Seq::empty()
    } else {
        seq![','] + enc_example(es[k]) + enc_examples_tail(es, k + 1)
    }
}

/// A list of examples.
pub open spec fn enc_examples(es: Seq<(Seq<char>, Option<Seq<char>>)>) -> Seq<char> {
    if es.len() == 0 {
        seq!['['] + seq![']']
    } else {
        seq!['['] + enc_example(es[0]) + enc_examples_tail(es, 1) + seq![']']
    }
}

/// A meaning: its part of speech, definition text, and examples.
pub open spec fn enc_meaning(m: MeaningV) -> Seq<char> {
    "{\"pos\":"@ + enc_pos(m.pos) + ",\"meaning\":"@ + enc_str(m.meaning) + ",\"examples\":"@
        + enc_examples(m.examples) + seq!['}']
}

/// The meanings from `k` on, each preceded by the separator.
pub open spec fn enc_meanings_tail(ms: Seq<MeaningV>, k: int) -> Seq<char>
    decreases ms.len() - k,
{
    if k < 0 || k >= ms.len() {
        Seq::empty()
    } else {
        seq![','] + enc_meaning(ms[k]) + enc_meanings_tail(ms, k + 1)
    }
}

/// A list of meanings.
pub open spec fn enc_meanings(ms: Seq<MeaningV>) -> Seq<char> {
    if ms.len() == 0 {
        seq!['['] + seq![']']
    } else {
        seq!['['] + enc_meaning(ms[0]) + enc_meanings_tail(ms, 1) + seq![']']
    }
}

/// An optional pronunciation.
pub open spec fn enc_pron(p: Option<PronunciationV>) -> Seq<char> {
    match p {
        Option::None => "null"@,
        Option::Some(pr) => "{\"ipa\":"@ + enc_str(pr.ipa) + ",\"audio_url\":"@ + enc_str(
            pr.audio_url,
        ) + seq!['}'],
    }
}

/// A whole record.
pub open spec fn enc_word(w: WordV) -> Seq<char> {
    "{\"word\":"@ + enc_str(w.word) + ",\"wiki_link\":"@ + enc_str(w.wiki_link)
        + ",\"pronunciation\":"@ + enc_pron(w.pronunciation) + ",\"meanings\":"@ + enc_meanings(
        w.meanings,
    ) + seq!['}']
}

// --- the parse ---

/// What a backslash escape stands for.
pub open spec fn unesc_char(c: char) -> Option<char> {
    if c == '\\' {
        Option::Some('\\')
    } else if c == '"' {
        Option::Some('"')
    } else {
        Option::None
    }
}

/// Reads a quoted string's body up to its closing quote, from `i` on:
/// the characters read and the position after the quote.
pub open spec fn p_str_chars(s: Seq<char>, i: int) -> Option<(Seq<char>, int)>
    decreases s.len() - i,
{
    if i < 0 || i >= s.len() {
        Option::None
    } else if s[i] == '"' {
        Option::Some((Seq::empty(), i + 1))
    } else if s[i] == '\\' {
        if i + 1 >= s.len() {
            Option::None
        } else {
            match unesc_char(s[i + 1]) {
                Option::None => Option::None,
                Option::Some(c) => match p_str_chars(s, i + 2) {
                    Option::Some(r) => Option::Some((seq![c] + r.0, r.1)),
                    Option::None => Option::None,
                },
            }
        }
    } else {
        match p_str_chars(s, i + 1) {
            Option::Some(r) => Option::Some((seq![s[i]] + r.0, r.1)),
            Option::None => Option::None,
        }
    }
}

/// Reads a quoted string at `i`.
pub open spec fn p_string(s: Seq<char>, i: int) -> Option<(Seq<char>, int)> {
    if 0 <= i < s.len() && s[i] == '"' {
        p_str_chars(s, i + 1)
    } else {
        Option::None
    }
}

/// Reads the exact characters of `lit` at `i`.
pub open spec fn p_lit(s: Seq<char>, i: int, lit: Seq<char>) -> Option<int> {
    if 0 <= i && i + lit.len() <= s.len() && s.subrange(i, i + lit.len() as int) == lit {
        Option::Some(i + lit.len() as int)
    } else {
        Option::None
    }
}

/// Reads `null` or a quoted string.
pub open spec fn p_opt_str(s: Seq<char>, i: int) -> Option<(Option<Seq<char>>, int)> {
    if 0 <= i < s.len() && s[i] == 'n' {
        match p_lit(s, i, "null"@) {
            Option::Some(j) => Option::Some((Option::None, j)),
            Option::None => Option::None,
        }
    } else {
        match p_string(s, i) {
            Option::Some(r) => Option::Some((Option::Some(r.0), r.1)),
            Option::None => Option::None,
        }
    }
}

/// Reads an optional gender.
pub open spec fn p_gender(s: Seq<char>, i: int) -> Option<(Option<NounGender>, int)> {
    match p_opt_str(s, i) {
        Option::Some((Option::None, j)) => Option::Some((Option::None, j)),
        Option::Some((Option::Some(x), j)) => if x == "Masculine"@ {
            Option::Some((Option::Some(NounGender::Masculine), j))
        } else if x == "Feminine"@ {
            Option::Some((Option::Some(NounGender::Feminine), j))
        } else {
            Option::None
        },
        Option::None => Option::None,
    }
}

/// The unit part of speech a bare name stands for.
pub open spec fn pos_of_name(x: Seq<char>) -> Option<PartOfSpeechV> {
    if x == "Verb"@ {
        Option::Some(PartOfSpeechV::Verb)
    } else if x == "Pronoun"@ {
        Option::Some(PartOfSpeechV::Pronoun)
    } else if x == "Adverb"@ {
        Option::Some(PartOfSpeechV::Adverb)
    } else if x == "Numeral"@ {
        Option::Some(PartOfSpeechV::Numeral)
    } else if x == "Determiner"@ {
        Option::Some(PartOfSpeechV::Determiner)
    } else if x == "Preposition"@ {
        Option::Some(PartOfSpeechV::Preposition)
    } else if x == "Interjection"@ {
        Option::Some(PartOfSpeechV::Interjection)
    } else {
        Option::None
    }
}

/// Reads a part of speech.
pub open spec fn p_pos(s: Seq<char>, i: int) -> Option<(PartOfSpeechV, int)> {
    if 0 <= i < s.len() && s[i] == '"' {
        match p_string(s, i) {
            Option::Some((x, j)) => match pos_of_name(x) {
                Option::Some(p) => Option::Some((p, j)),
                Option::None => Option::None,
            },
            Option::None => Option::None,
        }
    } else {
        match p_lit(s, i, "{\"Noun\":{\"gender\":"@) {
            Option::Some(j) => match p_gender(s, j) {
                Option::Some((g, j2)) => match p_lit(s, j2, "}}"@) {
                    Option::Some(j3) => Option::Some((PartOfSpeechV::Noun { gender: g }, j3)),
                    Option::None => Option::None,
                },
                Option::None => Option::None,
            },
            Option::None => match p_lit(s, i, "{\"Adjective\":{\"f\":"@) {
                Option::Some(j) => match p_opt_str(s, j) {
                    Option::Some((f, j2)) => match p_lit(s, j2, ",\"mp\":"@) {
                        Option::Some(j3) => match p_opt_str(s, j3) {
                            Option::Some((mp, j4)) => match p_lit(s, j4, ",\"fp\":"@) {
                                Option::Some(j5) => match p_opt_str(s, j5) {
                                    Option::Some((fp, j6)) => match p_lit(s, j6, "}}"@) {
                                        Option::Some(j7) => Option::Some(
                                            (PartOfSpeechV::Adjective { f, mp, fp }, j7),
                                        ),
                                        Option::None => Option::None,
                                    },
                                    Option::None => Option::None,
                                },
                                Option::None => Option::None,
                            },
                            Option::None => Option::None,
                        },
                        Option::None => Option::None,
                    },
                    Option::None => Option::None,
                },
                Option::None => Option::None,
            },
        }
    }
}

/// Reads one example.
pub open spec fn p_example(s: Seq<char>, i: int) -> Option<((Seq<char>, Option<Seq<char>>), int)> {
    match p_lit(s, i, seq!['[']) {
        Option::Some(j) => match p_string(s, j) {
            Option::Some((o, j2)) => match p_lit(s, j2, seq![',']) {
                Option::Some(j3) => match p_opt_str(s, j3) {
                    Option::Some((t, j4)) => match p_lit(s, j4, seq![']']) {
                        Option::Some(j5) => Option::Some(((o, t), j5)),
                        Option::None => Option::None,
                    },
                    Option::None => Option::None,
                },
                Option::None => Option::None,
            },
            Option::None => Option::None,
        },
        Option::None => Option::None,
    }
}

/// Reads the rest of an example list: a separator and an example, again
/// and again, up to the closing bracket.
pub open spec fn p_examples_tail(s: Seq<char>, i: int) -> Option<
    (Seq<(Seq<char>, Option<Seq<char>>)>, int),
>
    decreases s.len() - i,
{
    if i < 0 || i >= s.len() {
        Option::None
    } else if s[i] == ']' {
        Option::Some((Seq::empty(), i + 1))
    } else if s[i] == ',' {
        match p_example(s, i + 1) {
            Option::Some((e, j)) => if i + 1 < j <= s.len() {
                match p_examples_tail(s, j) {
                    Option::Some((rest, j2)) => Option::Some((seq![e] + rest, j2)),
                    Option::None => Option::None,
                }
            } else {
                Option::None
            },
            Option::None => Option::None,
        }
    } else {
        Option::None
    }
}

/// Reads an example list.
pub open spec fn p_examples(s: Seq<char>, i: int) -> Option<
    (Seq<(Seq<char>, Option<Seq<char>>)>, int),
> {
    if !(0 <= i < s.len() && s[i] == '[') {
        Option::None
    } else if i + 1 < s.len() && s[i + 1] == ']' {
        Option::Some((Seq::empty(), i + 2))
    } else {
        match p_example(s, i + 1) {
            Option::Some((e, j)) => if i + 1 < j <= s.len() {
                match p_examples_tail(s, j) {
                    Option::Some((rest, j2)) => Option::Some((seq![e] + rest, j2)),
                    Option::None => Option::None,
                }
            } else {
                Option::None
            },
            Option::None => Option::None,
        }
    }
}

/// Reads one meaning.
pub open spec fn p_meaning(s: Seq<char>, i: int) -> Option<(MeaningV, int)> {
    match p_lit(s, i, "{\"pos\":"@) {
        Option::Some(j) => match p_pos(s, j) {
            Option::Some((pos, j2)) => match p_lit(s, j2, ",\"meaning\":"@) {
                Option::Some(j3) => match p_string(s, j3) {
                    Option::Some((mg, j4)) => match p_lit(s, j4, ",\"examples\":"@) {
                        Option::Some(j5) => match p_examples(s, j5) {
                            Option::Some((es, j6)) => match p_lit(s, j6, seq!['}']) {
                                Option::Some(j7) => Option::Some(
                                    (MeaningV { pos, meaning: mg, examples: es }, j7),
                                ),
                                Option::None => Option::None,
                            },
                            Option::None => Option::None,
                        },
                        Option::None => Option::None,
                    },
                    Option::None => Option::None,
                },
                Option::None => Option::None,
            },
            Option::None => Option::None,
        },
        Option::None => Option::None,
    }
}

/// Reads the rest of a meaning list.
pub open spec fn p_meanings_tail(s: Seq<char>, i: int) -> Option<(Seq<MeaningV>, int)>
    decreases s.len() - i,
{
    if i < 0 || i >= s.len() {
        Option::None
    } else if s[i] == ']' {
        Option::Some((Seq::empty(), i + 1))
    } else if s[i] == ',' {
        match p_meaning(s, i + 1) {
            Option::Some((m, j)) => if i + 1 < j <= s.len() {
                match p_meanings_tail(s, j) {
                    Option::Some((rest, j2)) => Option::Some((seq![m] + rest, j2)),
                    Option::None => Option::None,
                }
            } else {
                Option::None
            },
            Option::None => Option::None,
        }
    } else {
        Option::None
    }
}

/// Reads a meaning list.
pub open spec fn p_meanings(s: Seq<char>, i: int) -> Option<(Seq<MeaningV>, int)> {
    if !(0 <= i < s.len() && s[i] == '[') {
        Option::None
    } else if i + 1 < s.len() && s[i + 1] == ']' {
        Option::Some((Seq::empty(), i + 2))
    } else {
        match p_meaning(s, i + 1) {
            Option::Some((m, j)) => if i + 1 < j <= s.len() {
                match p_meanings_tail(s, j) {
                    Option::Some((rest, j2)) => Option::Some((seq![m] + rest, j2)),
                    Option::None => Option::None,
                }
            } else {
                Option::None
            },
            Option::None => Option::None,
        }
    }
}

/// Reads an optional pronunciation.
pub open spec fn p_pron(s: Seq<char>, i: int) -> Option<(Option<PronunciationV>, int)> {
    if 0 <= i < s.len() && s[i] == 'n' {
        match p_lit(s, i, "null"@) {
            Option::Some(j) => Option::Some((Option::None, j)),
            Option::None => Option::None,
        }
    } else {
        match p_lit(s, i, "{\"ipa\":"@) {
            Option::Some(j) => match p_string(s, j) {
                Option::Some((ipa, j2)) => match p_lit(s, j2, ",\"audio_url\":"@) {
                    Option::Some(j3) => match p_string(s, j3) {
                        Option::Some((au, j4)) => match p_lit(s, j4, seq!['}']) {
                            Option::Some(j5) => Option::Some(
                                (
                                    Option::Some(PronunciationV { ipa, audio_url: au }),
                                    j5,
                                ),
                            ),
                            Option::None => Option::None,
                        },
                        Option::None => Option::None,
                    },
                    Option::None => Option::None,
                },
                Option::None => Option::None,
            },
            Option::None => Option::None,
        }
    }
}

/// Reads a whole record.
pub open spec fn p_word(s: Seq<char>, i: int) -> Option<(WordV, int)> {
    match p_lit(s, i, "{\"word\":"@) {
        Option::Some(j) => match p_string(s, j) {
            Option::Some((word, j2)) => match p_lit(s, j2, ",\"wiki_link\":"@) {
                Option::Some(j3) => match p_string(s, j3) {
                    Option::Some((link, j4)) => match p_lit(s, j4, ",\"pronunciation\":"@) {
                        Option::Some(j5) => match p_pron(s, j5) {
                            Option::Some((pron, j6)) => match p_lit(s, j6, ",\"meanings\":"@) {
                                Option::Some(j7) => match p_meanings(s, j7) {
                                    Option::Some((ms, j8)) => match p_lit(s, j8, seq!['}']) {
                                        Option::Some(j9) => Option::Some(
                                            (
                                                WordV {
                                                    word,
                                                    wiki_link: link,
                                                    pronunciation: pron,
                                                    meanings: ms,
                                                },
                                                j9,
                                            ),
                                        ),
                                        Option::None => Option::None,
                                    },
                                    Option::None => Option::None,
                                },
                                Option::None => Option::None,
                            },
                            Option::None => Option::None,
                        },
                        Option::None => Option::None,
                    },
                    Option::None => Option::None,
                },
                Option::None => Option::None,
            },
            Option::None => Option::None,
        },
        Option::None => Option::None,
    }
}

/// What parsing a complete text yields: the record, when the text is
/// exactly one encoded record.
pub open spec fn spec_parse_word(s: Seq<char>) -> Option<WordV> {
    match p_word(s, 0) {
        Option::Some((w, j)) => if j == s.len() {
            Option::Some(w)
        } else {
            Option::None
        },
        Option::None => Option::None,
    }
}

// --- the round trip ---

proof fn lemma_sub_of_sub(s: Seq<char>, i: int, whole: Seq<char>, off: int, part: Seq<char>)
    requires
        0 <= i,
        i + whole.len() <= s.len(),
        s.subrange(i, i + whole.len() as int) == whole,
        0 <= off,
        off + part.len() <= whole.len(),
        whole.subrange(off, off + part.len() as int) == part,
    ensures
        s.subrange(i + off, i + off + part.len() as int) == part,
{
    assert forall|t: int|
        0 <= t < part.len() implies s.subrange(i + off, i + off + part.len() as int)[t]
        == part[t] by {
        assert(s.subrange(i, i + whole.len() as int)[off + t] == whole[off + t]);
        assert(whole.subrange(off, off + part.len() as int)[t] == part[t]);
    }
    assert(s.subrange(i + off, i + off + part.len() as int) =~= part);
}

proof fn lemma_rt_str_chars(s: Seq<char>, x: Seq<char>, i: int)
    requires
        0 <= i,
        i + escape(x).len() + 1 <= s.len(),
        s.subrange(i, i + escape(x).len() + 1) == escape(x) + seq!['"'],
    ensures
        p_str_chars(s, i) == Option::Some((x, i + escape(x).len() + 1)),
    decreases x.len(),
{
    let whole = escape(x) + seq!['"'];
    if x.len() == 0 {
        assert(escape(x) =~= Seq::<char>::empty());
        assert(s[i] == s.subrange(i, i + 1)[0]);
        assert(whole[0] == '"');
        assert(p_str_chars(s, i) == Option::Some((Seq::<char>::empty(), i + 1)));
        assert(x =~= Seq::<char>::empty());
    } else {
        let c = x[0];
        let e = esc_char(c);
        let rest = escape(x.skip(1));
        assert(escape(x) == e + rest);
        let el = e.len() as int;
        assert(el == 1 || el == 2);
        assert forall|t: int|
            0 <= t < rest.len() + 1 implies #[trigger] s.subrange(
            i + el,
            i + el + rest.len() + 1,
        )[t] == (rest + seq!['"'])[t] by {
            assert(s.subrange(i + el, i + el + rest.len() + 1)[t] == s[i + el + t]);
            assert(s[i + el + t] == s.subrange(i, i + escape(x).len() + 1)[el + t]);
            assert(whole[el + t] == ((e + rest) + seq!['"'])[el + t]);
        }
        assert(s.subrange(i + el, i + el + rest.len() + 1) =~= rest + seq!['"']);
        lemma_rt_str_chars(s, x.skip(1), i + el);
        assert(s[i] == s.subrange(i, i + escape(x).len() + 1)[0]);
        assert(whole[0] == e[0]);
        if c == '\\' || c == '"' {
            assert(e == seq!['\\', c]);
            assert(s[i] == '\\');
            assert(s[i + 1] == s.subrange(i, i + escape(x).len() + 1)[1]);
            assert(whole[1] == e[1]);
            assert(s[i + 1] == c);
            assert(unesc_char(c) == Option::Some(c));
            assert(p_str_chars(s, i + 2) == Option::Some(
                (x.skip(1), i + 2 + rest.len() + 1),
            ));
            assert(seq![c] + x.skip(1) =~= x);
            assert(i + 2 + rest.len() + 1 == i + escape(x).len() + 1);
        } else {
            assert(e == seq![c]);
            assert(s[i] == c);
            assert(p_str_chars(s, i + 1) == Option::Some(
                (x.skip(1), i + 1 + rest.len() + 1),
            ));
            assert(seq![x[0]] + x.skip(1) =~= x);
            assert(i + 1 + rest.len() + 1 == i + escape(x).len() + 1);
        }
    }
}

proof fn lemma_rt_string(s: Seq<char>, x: Seq<char>, i: int)
    requires
        0 <= i,
        i + enc_str(x).len() <= s.len(),
        s.subrange(i, i + enc_str(x).len() as int) == enc_str(x),
    ensures
        p_string(s, i) == Option::Some((x, i + enc_str(x).len())),
{
    let whole = enc_str(x);
    assert(whole.len() == escape(x).len() + 2);
    assert(s[i] == s.subrange(i, i + whole.len() as int)[0]);
    assert(whole[0] == '"');
    assert forall|t: int|
        0 <= t < escape(x).len() + 1 implies #[trigger] s.subrange(
        i + 1,
        i + 1 + escape(x).len() + 1,
    )[t] == (escape(x) + seq!['"'])[t] by {
        assert(s.subrange(i + 1, i + 1 + escape(x).len() + 1)[t] == s[i + 1 + t]);
        assert(s[i + 1 + t] == s.subrange(i, i + whole.len() as int)[1 + t]);
        assert(whole[1 + t] == ((seq!['"'] + escape(x)) + seq!['"'])[1 + t]);
    }
    assert(s.subrange(i + 1, i + 1 + escape(x).len() + 1) =~= escape(x) + seq!['"']);
    lemma_rt_str_chars(s, x, i + 1);
}

proof fn lemma_rt_lit(s: Seq<char>, lit: Seq<char>, i: int)
    requires
        0 <= i,
        i + lit.len() <= s.len(),
        s.subrange(i, i + lit.len() as int) == lit,
    ensures
        p_lit(s, i, lit) == Option::Some(i + lit.len() as int),
{
}

proof fn lemma_rt_opt_str(s: Seq<char>, o: Option<Seq<char>>, i: int)
    requires
        0 <= i,
        i + enc_opt_str(o).len() <= s.len(),
        s.subrange(i, i + enc_opt_str(o).len() as int) == enc_opt_str(o),
    ensures
        p_opt_str(s, i) == Option::Some((o, i + enc_opt_str(o).len())),
{
    reveal_strlit("null");
    match o {
        Option::None => {
            assert(s[i] == s.subrange(i, i + 4)[0]);
            assert(s[i] == 'n');
            lemma_rt_lit(s, "null"@, i);
        },
        Option::Some(x) => {
            assert(s[i] == s.subrange(i, i + enc_str(x).len() as int)[0]);
            assert(s[i] == '"');
            lemma_rt_string(s, x, i);
        },
    }
}

proof fn lemma_rt_gender(s: Seq<char>, g: Option<NounGender>, i: int)
    requires
        0 <= i,
        i + enc_gender(g).len() <= s.len(),
        s.subrange(i, i + enc_gender(g).len() as int) == enc_gender(g),
    ensures
        p_gender(s, i) == Option::Some((g, i + enc_gender(g).len())),
{
    reveal_strlit("Masculine");
    reveal_strlit("Feminine");
    match g {
        Option::None => {
            lemma_rt_opt_str(s, Option::None, i);
        },
        Option::Some(NounGender::Masculine) => {
            lemma_rt_opt_str(s, Option::Some("Masculine"@), i);
        },
        Option::Some(NounGender::Feminine) => {
            lemma_rt_opt_str(s, Option::Some("Feminine"@), i);
            assert("Feminine"@ != "Masculine"@);
        },
    }
}

proof fn lemma_rt_pos(s: Seq<char>, p: PartOfSpeechV, i: int)
    requires
        0 <= i,
        i + enc_pos(p).len() <= s.len(),
        s.subrange(i, i + enc_pos(p).len() as int) == enc_pos(p),
    ensures
        p_pos(s, i) == Option::Some((p, i + enc_pos(p).len())),
{
    reveal_strlit("{\"Noun\":{\"gender\":");
    reveal_strlit("{\"Adjective\":{\"f\":");
    reveal_strlit(",\"mp\":");
    reveal_strlit(",\"fp\":");
    reveal_strlit("}}");
    reveal_strlit("null");
    reveal_strlit("Verb");
    reveal_strlit("Pronoun");
    reveal_strlit("Adverb");
    reveal_strlit("Numeral");
    reveal_strlit("Determiner");
    reveal_strlit("Preposition");
    reveal_strlit("Interjection");
    let w = enc_pos(p);
    match p {
        PartOfSpeechV::Noun { gender } => {
            let pre = "{\"Noun\":{\"gender\":"@;
            let lg = enc_gender(gender).len() as int;
            assert(s[i] == s.subrange(i, i + w.len() as int)[0]);
            assert(w[0] == '{');
            assert(w.subrange(0, 18) =~= pre);
            lemma_sub_of_sub(s, i, w, 0, pre);
            lemma_rt_lit(s, pre, i);
            assert(w.subrange(18, 18 + lg) =~= enc_gender(gender));
            lemma_sub_of_sub(s, i, w, 18, enc_gender(gender));
            lemma_rt_gender(s, gender, i + 18);
            assert(w.subrange(18 + lg, 18 + lg + 2) =~= "}}"@);
            lemma_sub_of_sub(s, i, w, 18 + lg, "}}"@);
            lemma_rt_lit(s, "}}"@, i + 18 + lg);
        },
        PartOfSpeechV::Adjective { f, mp, fp } => {
            let pre = "{\"Adjective\":{\"f\":"@;
            let lf = enc_opt_str(f).len() as int;
            let lmp = enc_opt_str(mp).len() as int;
            let lfp = enc_opt_str(fp).len() as int;
            assert(s[i] == s.subrange(i, i + w.len() as int)[0]);
            assert(w[0] == '{');
            // The object is not a noun object: the fourth character differs.
            if i + 18 <= s.len() {
                assert(s[i + 2] == s.subrange(i, i + w.len() as int)[2]);
                assert(w[2] == 'A');
                assert(s.subrange(i, i + 18)[2] == s[i + 2]);
                assert(s.subrange(i, i + 18) != "{\"Noun\":{\"gender\":"@);
            }
            assert(p_lit(s, i, "{\"Noun\":{\"gender\":"@) is None);
            assert(w.subrange(0, 18) =~= pre);
            lemma_sub_of_sub(s, i, w, 0, pre);
            lemma_rt_lit(s, pre, i);
            assert(w.subrange(18, 18 + lf) =~= enc_opt_str(f));
            lemma_sub_of_sub(s, i, w, 18, enc_opt_str(f));
            lemma_rt_opt_str(s, f, i + 18);
            assert(w.subrange(18 + lf, 18 + lf + 6) =~= ",\"mp\":"@);
            lemma_sub_of_sub(s, i, w, 18 + lf, ",\"mp\":"@);
            lemma_rt_lit(s, ",\"mp\":"@, i + 18 + lf);
            assert(w.subrange(18 + lf + 6, 18 + lf + 6 + lmp) =~= enc_opt_str(mp));
            lemma_sub_of_sub(s, i, w, 18 + lf + 6, enc_opt_str(mp));
            lemma_rt_opt_str(s, mp, i + 18 + lf + 6);
            assert(w.subrange(18 + lf + 6 + lmp, 18 + lf + 6 + lmp + 6) =~= ",\"fp\":"@);
            lemma_sub_of_sub(s, i, w, 18 + lf + 6 + lmp, ",\"fp\":"@);
            lemma_rt_lit(s, ",\"fp\":"@, i + 18 + lf + 6 + lmp);
            assert(w.subrange(18 + lf + 6 + lmp + 6, 18 + lf + 6 + lmp + 6 + lfp) =~= enc_opt_str(
                fp,
            ));
            lemma_sub_of_sub(s, i, w, 18 + lf + 6 + lmp + 6, enc_opt_str(fp));
            lemma_rt_opt_str(s, fp, i + 18 + lf + 6 + lmp + 6);
            assert(w.subrange(18 + lf + 6 + lmp + 6 + lfp, 18 + lf + 6 + lmp + 6 + lfp + 2) =~= "}}"@);
            lemma_sub_of_sub(s, i, w, 18 + lf + 6 + lmp + 6 + lfp, "}}"@);
            lemma_rt_lit(s, "}}"@, i + 18 + lf + 6 + lmp + 6 + lfp);
        },
        PartOfSpeechV::Verb => {
            lemma_rt_unit_pos(s, "Verb", i, p);
        },
        PartOfSpeechV::Pronoun => {
            lemma_rt_unit_pos(s, "Pronoun", i, p);
        },
        PartOfSpeechV::Adverb => {
            lemma_rt_unit_pos(s, "Adverb", i, p);
        },
        PartOfSpeechV::Numeral => {
            lemma_rt_unit_pos(s, "Numeral", i, p);
        },
        PartOfSpeechV::Determiner => {
            lemma_rt_unit_pos(s, "Determiner", i, p);
        },
        PartOfSpeechV::Preposition => {
            lemma_rt_unit_pos(s, "Preposition", i, p);
        },
        PartOfSpeechV::Interjection => {
            lemma_rt_unit_pos(s, "Interjection", i, p);
        },
    }
}

proof fn lemma_rt_unit_pos(s: Seq<char>, name: &str, i: int, p: PartOfSpeechV)
    requires
        0 <= i,
        enc_pos(p) == enc_str(name@),
        pos_of_name(name@) == Option::Some(p),
        i + enc_pos(p).len() <= s.len(),
        s.subrange(i, i + enc_pos(p).len() as int) == enc_pos(p),
    ensures
        p_pos(s, i) == Option::Some((p, i + enc_pos(p).len())),
{
    assert(s[i] == s.subrange(i, i + enc_str(name@).len() as int)[0]);
    assert(enc_str(name@)[0] == '"');
    lemma_rt_string(s, name@, i);
}

proof fn lemma_rt_example(s: Seq<char>, e: (Seq<char>, Option<Seq<char>>), i: int)
    requires
        0 <= i,
        i + enc_example(e).len() <= s.len(),
        s.subrange(i, i + enc_example(e).len() as int) == enc_example(e),
    ensures
        p_example(s, i) == Option::Some((e, i + enc_example(e).len())),
        enc_example(e).len() >= 3,
{
    let w = enc_example(e);
    let ls = enc_str(e.0).len() as int;
    let lo = enc_opt_str(e.1).len() as int;
    assert(w.subrange(0, 1) =~= seq!['[']);
    lemma_sub_of_sub(s, i, w, 0, seq!['[']);
    lemma_rt_lit(s, seq!['['], i);
    assert(w.subrange(1, 1 + ls) =~= enc_str(e.0));
    lemma_sub_of_sub(s, i, w, 1, enc_str(e.0));
    lemma_rt_string(s, e.0, i + 1);
    assert(w.subrange(1 + ls, 1 + ls + 1) =~= seq![',']);
    lemma_sub_of_sub(s, i, w, 1 + ls, seq![',']);
    lemma_rt_lit(s, seq![','], i + 1 + ls);
    assert(w.subrange(1 + ls + 1, 1 + ls + 1 + lo) =~= enc_opt_str(e.1));
    lemma_sub_of_sub(s, i, w, 1 + ls + 1, enc_opt_str(e.1));
    lemma_rt_opt_str(s, e.1, i + 1 + ls + 1);
    assert(w.subrange(1 + ls + 1 + lo, 1 + ls + 1 + lo + 1) =~= seq![']']);
    lemma_sub_of_sub(s, i, w, 1 + ls + 1 + lo, seq![']']);
    lemma_rt_lit(s, seq![']'], i + 1 + ls + 1 + lo);
}

proof fn lemma_rt_examples_tail(s: Seq<char>, es: Seq<(Seq<char>, Option<Seq<char>>)>, k: int, i: int)
    requires
        0 <= k <= es.len(),
        0 <= i,
        i + enc_examples_tail(es, k).len() + 1 <= s.len(),
        s.subrange(i, i + enc_examples_tail(es, k).len() + 1) == enc_examples_tail(es, k)
            + seq![']'],
    ensures
        p_examples_tail(s, i) == Option::Some((es.skip(k), i + enc_examples_tail(es, k).len() + 1)),
    decreases es.len() - k,
{
    let tail = enc_examples_tail(es, k);
    let w = tail + seq![']'];
    if k >= es.len() {
        assert(tail =~= Seq::<char>::empty());
        assert(s[i] == s.subrange(i, i + 1)[0]);
        assert(w[0] == ']');
        assert(es.skip(k) =~= Seq::<(Seq<char>, Option<Seq<char>>)>::empty());
    } else {
        let e = enc_example(es[k]);
        let le = e.len() as int;
        let rest = enc_examples_tail(es, k + 1);
        assert(tail == seq![','] + e + rest);
        assert(s[i] == s.subrange(i, i + w.len() as int)[0]);
        assert(w[0] == ',');
        assert(w.subrange(1, 1 + le) =~= e);
        lemma_sub_of_sub(s, i, w, 1, e);
        lemma_rt_example(s, es[k], i + 1);
        assert(w.subrange(1 + le, 1 + le + rest.len() + 1) =~= rest + seq![']']);
        lemma_sub_of_sub(s, i, w, 1 + le, rest + seq![']']);
        lemma_rt_examples_tail(s, es, k + 1, i + 1 + le);
        assert(seq![es[k]] + es.skip(k + 1) =~= es.skip(k));
    }
}

proof fn lemma_rt_examples(s: Seq<char>, es: Seq<(Seq<char>, Option<Seq<char>>)>, i: int)
    requires
        0 <= i,
        i + enc_examples(es).len() <= s.len(),
        s.subrange(i, i + enc_examples(es).len() as int) == enc_examples(es),
    ensures
        p_examples(s, i) == Option::Some((es, i + enc_examples(es).len())),
{
    let w = enc_examples(es);
    assert(s[i] == s.subrange(i, i + w.len() as int)[0]);
    if es.len() == 0 {
        assert(w[0] == '[');
        assert(s[i + 1] == s.subrange(i, i + w.len() as int)[1]);
        assert(w[1] == ']');
        assert(es =~= Seq::<(Seq<char>, Option<Seq<char>>)>::empty());
    } else {
        let e = enc_example(es[0]);
        let le = e.len() as int;
        let rest = enc_examples_tail(es, 1);
        assert(w[0] == '[');
        assert(w.subrange(1, 1 + le) =~= e);
        lemma_sub_of_sub(s, i, w, 1, e);
        lemma_rt_example(s, es[0], i + 1);
        assert(s[i + 1] == s.subrange(i, i + w.len() as int)[1]);
        assert(w[1] == e[0]);
        assert(e[0] == '[');
        assert(w.subrange(1 + le, 1 + le + rest.len() + 1) =~= rest + seq![']']);
        lemma_sub_of_sub(s, i, w, 1 + le, rest + seq![']']);
        lemma_rt_examples_tail(s, es, 1, i + 1 + le);
        assert(seq![es[0]] + es.skip(1) =~= es);
    }
}

proof fn lemma_rt_meaning(s: Seq<char>, m: MeaningV, i: int)
    requires
        0 <= i,
        i + enc_meaning(m).len() <= s.len(),
        s.subrange(i, i + enc_meaning(m).len() as int) == enc_meaning(m),
    ensures
        p_meaning(s, i) == Option::Some((m, i + enc_meaning(m).len())),
        enc_meaning(m)[0] == '{',
{
    reveal_strlit("{\"pos\":");
    reveal_strlit(",\"meaning\":");
    reveal_strlit(",\"examples\":");
    let w = enc_meaning(m);
    let l1 = "{\"pos\":"@.len() as int;
    let lp = enc_pos(m.pos).len() as int;
    let l2 = ",\"meaning\":"@.len() as int;
    let lm = enc_str(m.meaning).len() as int;
    let l3 = ",\"examples\":"@.len() as int;
    let le = enc_examples(m.examples).len() as int;
    assert(w.subrange(0, l1) =~= "{\"pos\":"@);
    lemma_sub_of_sub(s, i, w, 0, "{\"pos\":"@);
    lemma_rt_lit(s, "{\"pos\":"@, i);
    assert(w.subrange(l1, l1 + lp) =~= enc_pos(m.pos));
    lemma_sub_of_sub(s, i, w, l1, enc_pos(m.pos));
    lemma_rt_pos(s, m.pos, i + l1);
    assert(w.subrange(l1 + lp, l1 + lp + l2) =~= ",\"meaning\":"@);
    lemma_sub_of_sub(s, i, w, l1 + lp, ",\"meaning\":"@);
    lemma_rt_lit(s, ",\"meaning\":"@, i + l1 + lp);
    assert(w.subrange(l1 + lp + l2, l1 + lp + l2 + lm) =~= enc_str(m.meaning));
    lemma_sub_of_sub(s, i, w, l1 + lp + l2, enc_str(m.meaning));
    lemma_rt_string(s, m.meaning, i + l1 + lp + l2);
    assert(w.subrange(l1 + lp + l2 + lm, l1 + lp + l2 + lm + l3) =~= ",\"examples\":"@);
    lemma_sub_of_sub(s, i, w, l1 + lp + l2 + lm, ",\"examples\":"@);
    lemma_rt_lit(s, ",\"examples\":"@, i + l1 + lp + l2 + lm);
    assert(w.subrange(l1 + lp + l2 + lm + l3, l1 + lp + l2 + lm + l3 + le) =~= enc_examples(
        m.examples,
    ));
    lemma_sub_of_sub(s, i, w, l1 + lp + l2 + lm + l3, enc_examples(m.examples));
    lemma_rt_examples(s, m.examples, i + l1 + lp + l2 + lm + l3);
    assert(w.subrange(l1 + lp + l2 + lm + l3 + le, l1 + lp + l2 + lm + l3 + le + 1) =~= seq!['}']);
    lemma_sub_of_sub(s, i, w, l1 + lp + l2 + lm + l3 + le, seq!['}']);
    lemma_rt_lit(s, seq!['}'], i + l1 + lp + l2 + lm + l3 + le);
    assert(w[0] == '{');
}

#[verifier::rlimit(60)]
proof fn lemma_rt_meanings_tail(s: Seq<char>, ms: Seq<MeaningV>, k: int, i: int)
    requires
        0 <= k <= ms.len(),
        0 <= i,
        i + enc_meanings_tail(ms, k).len() + 1 <= s.len(),
        s.subrange(i, i + enc_meanings_tail(ms, k).len() + 1) == enc_meanings_tail(ms, k)
            + seq![']'],
    ensures
        p_meanings_tail(s, i) == Option::Some((ms.skip(k), i + enc_meanings_tail(ms, k).len() + 1)),
    decreases ms.len() - k,
{
    let tail = enc_meanings_tail(ms, k);
    let w = tail + seq![']'];
    if k >= ms.len() {
        assert(tail =~= Seq::<char>::empty());
        assert(s[i] == s.subrange(i, i + 1)[0]);
        assert(w[0] == ']');
        assert(ms.skip(k) =~= Seq::<MeaningV>::empty());
    } else {
        let e = enc_meaning(ms[k]);
        let le = e.len() as int;
        let rest = enc_meanings_tail(ms, k + 1);
        assert(tail == seq![','] + e + rest);
        assert(s[i] == s.subrange(i, i + w.len() as int)[0]);
        assert(w[0] == ',');
        assert(w.subrange(1, 1 + le) =~= e);
        lemma_sub_of_sub(s, i, w, 1, e);
        lemma_rt_meaning(s, ms[k], i + 1);
        assert(w.subrange(1 + le, 1 + le + rest.len() + 1) =~= rest + seq![']']);
        lemma_sub_of_sub(s, i, w, 1 + le, rest + seq![']']);
        lemma_rt_meanings_tail(s, ms, k + 1, i + 1 + le);
        assert(seq![ms[k]] + ms.skip(k + 1) =~= ms.skip(k));
    }
}

#[verifier::rlimit(60)]
proof fn lemma_rt_meanings(s: Seq<char>, ms: Seq<MeaningV>, i: int)
    requires
        0 <= i,
        i + enc_meanings(ms).len() <= s.len(),
        s.subrange(i, i + enc_meanings(ms).len() as int) == enc_meanings(ms),
    ensures
        p_meanings(s, i) == Option::Some((ms, i + enc_meanings(ms).len())),
{
    let w = enc_meanings(ms);
    assert(s[i] == s.subrange(i, i + w.len() as int)[0]);
    if ms.len() == 0 {
        assert(w[0] == '[');
        assert(s[i + 1] == s.subrange(i, i + w.len() as int)[1]);
        assert(w[1] == ']');
        assert(ms =~= Seq::<MeaningV>::empty());
    } else {
        let e = enc_meaning(ms[0]);
        let le = e.len() as int;
        let rest = enc_meanings_tail(ms, 1);
        assert(w[0] == '[');
        assert(w.subrange(1, 1 + le) =~= e);
        lemma_sub_of_sub(s, i, w, 1, e);
        lemma_rt_meaning(s, ms[0], i + 1);
        assert(s[i + 1] == s.subrange(i, i + w.len() as int)[1]);
        assert(w[1] == e[0]);
        assert(w.subrange(1 + le, 1 + le + rest.len() + 1) =~= rest + seq![']']);
        lemma_sub_of_sub(s, i, w, 1 + le, rest + seq![']']);
        lemma_rt_meanings_tail(s, ms, 1, i + 1 + le);
        assert(seq![ms[0]] + ms.skip(1) =~= ms);
    }
}

proof fn lemma_rt_pron(s: Seq<char>, p: Option<PronunciationV>, i: int)
    requires
        0 <= i,
        i + enc_pron(p).len() <= s.len(),
        s.subrange(i, i + enc_pron(p).len() as int) == enc_pron(p),
    ensures
        p_pron(s, i) == Option::Some((p, i + enc_pron(p).len())),
{
    reveal_strlit("null");
    reveal_strlit("{\"ipa\":");
    reveal_strlit(",\"audio_url\":");
    let w = enc_pron(p);
    assert(s[i] == s.subrange(i, i + w.len() as int)[0]);
    match p {
        Option::None => {
            assert(w[0] == 'n');
            lemma_rt_lit(s, "null"@, i);
        },
        Option::Some(pr) => {
            let l1 = "{\"ipa\":"@.len() as int;
            let li = enc_str(pr.ipa).len() as int;
            let l2 = ",\"audio_url\":"@.len() as int;
            let la = enc_str(pr.audio_url).len() as int;
            assert(w[0] == '{');
            assert(w.subrange(0, l1) =~= "{\"ipa\":"@);
            lemma_sub_of_sub(s, i, w, 0, "{\"ipa\":"@);
            lemma_rt_lit(s, "{\"ipa\":"@, i);
            assert(w.subrange(l1, l1 + li) =~= enc_str(pr.ipa));
            lemma_sub_of_sub(s, i, w, l1, enc_str(pr.ipa));
            lemma_rt_string(s, pr.ipa, i + l1);
            assert(w.subrange(l1 + li, l1 + li + l2) =~= ",\"audio_url\":"@);
            lemma_sub_of_sub(s, i, w, l1 + li, ",\"audio_url\":"@);
            lemma_rt_lit(s, ",\"audio_url\":"@, i + l1 + li);
            assert(w.subrange(l1 + li + l2, l1 + li + l2 + la) =~= enc_str(pr.audio_url));
            lemma_sub_of_sub(s, i, w, l1 + li + l2, enc_str(pr.audio_url));
            lemma_rt_string(s, pr.audio_url, i + l1 + li + l2);
            assert(w.subrange(l1 + li + l2 + la, l1 + li + l2 + la + 1) =~= seq!['}']);
            lemma_sub_of_sub(s, i, w, l1 + li + l2 + la, seq!['}']);
            lemma_rt_lit(s, seq!['}'], i + l1 + li + l2 + la);
        },
    }
}

#[verifier::rlimit(60)]
proof fn lemma_rt_word(s: Seq<char>, v: WordV, i: int)
    requires
        0 <= i,
        i + enc_word(v).len() <= s.len(),
        s.subrange(i, i + enc_word(v).len() as int) == enc_word(v),
    ensures
        p_word(s, i) == Option::Some((v, i + enc_word(v).len())),
{
    reveal_strlit("{\"word\":");
    reveal_strlit(",\"wiki_link\":");
    reveal_strlit(",\"pronunciation\":");
    reveal_strlit(",\"meanings\":");
    let w = enc_word(v);
    let l1 = "{\"word\":"@.len() as int;
    let lw = enc_str(v.word).len() as int;
    let l2 = ",\"wiki_link\":"@.len() as int;
    let ll = enc_str(v.wiki_link).len() as int;
    let l3 = ",\"pronunciation\":"@.len() as int;
    let lp = enc_pron(v.pronunciation).len() as int;
    let l4 = ",\"meanings\":"@.len() as int;
    let lm = enc_meanings(v.meanings).len() as int;
    assert(w.subrange(0, l1) =~= "{\"word\":"@);
    lemma_sub_of_sub(s, i, w, 0, "{\"word\":"@);
    lemma_rt_lit(s, "{\"word\":"@, i);
    assert(w.subrange(l1, l1 + lw) =~= enc_str(v.word));
    lemma_sub_of_sub(s, i, w, l1, enc_str(v.word));
    lemma_rt_string(s, v.word, i + l1);
    assert(w.subrange(l1 + lw, l1 + lw + l2) =~= ",\"wiki_link\":"@);
    lemma_sub_of_sub(s, i, w, l1 + lw, ",\"wiki_link\":"@);
    lemma_rt_lit(s, ",\"wiki_link\":"@, i + l1 + lw);
    assert(w.subrange(l1 + lw + l2, l1 + lw + l2 + ll) =~= enc_str(v.wiki_link));
    lemma_sub_of_sub(s, i, w, l1 + lw + l2, enc_str(v.wiki_link));
    lemma_rt_string(s, v.wiki_link, i + l1 + lw + l2);
    assert(w.subrange(l1 + lw + l2 + ll, l1 + lw + l2 + ll + l3) =~= ",\"pronunciation\":"@);
    lemma_sub_of_sub(s, i, w, l1 + lw + l2 + ll, ",\"pronunciation\":"@);
    lemma_rt_lit(s, ",\"pronunciation\":"@, i + l1 + lw + l2 + ll);
    assert(w.subrange(l1 + lw + l2 + ll + l3, l1 + lw + l2 + ll + l3 + lp) =~= enc_pron(
        v.pronunciation,
    ));
    lemma_sub_of_sub(s, i, w, l1 + lw + l2 + ll + l3, enc_pron(v.pronunciation));
    lemma_rt_pron(s, v.pronunciation, i + l1 + lw + l2 + ll + l3);
    assert(w.subrange(l1 + lw + l2 + ll + l3 + lp, l1 + lw + l2 + ll + l3 + lp + l4)
        =~= ",\"meanings\":"@);
    lemma_sub_of_sub(s, i, w, l1 + lw + l2 + ll + l3 + lp, ",\"meanings\":"@);
    lemma_rt_lit(s, ",\"meanings\":"@, i + l1 + lw + l2 + ll + l3 + lp);
    assert(w.subrange(l1 + lw + l2 + ll + l3 + lp + l4, l1 + lw + l2 + ll + l3 + lp + l4 + lm)
        =~= enc_meanings(v.meanings));
    lemma_sub_of_sub(s, i, w, l1 + lw + l2 + ll + l3 + lp + l4, enc_meanings(v.meanings));
    lemma_rt_meanings(s, v.meanings, i + l1 + lw + l2 + ll + l3 + lp + l4);
    assert(w.subrange(
        l1 + lw + l2 + ll + l3 + lp + l4 + lm,
        l1 + lw + l2 + ll + l3 + lp + l4 + lm + 1,
    ) =~= seq!['}']);
    lemma_sub_of_sub(s, i, w, l1 + lw + l2 + ll + l3 + lp + l4 + lm, seq!['}']);
    lemma_rt_lit(s, seq!['}'], i + l1 + lw + l2 + ll + l3 + lp + l4 + lm);
}

// --- the writer ---

proof fn lemma_escape_snoc(a: Seq<char>, c: char)
    ensures
        escape(a.push(c)) == escape(a) + esc_char(c),
    decreases a.len(),
{
    if a.len() == 0 {
        assert(a.push(c) =~= seq![c]);
        assert(seq![c].skip(1) =~= Seq::<char>::empty());
        assert(escape(seq![c]) == esc_char(c) + escape(Seq::<char>::empty()));
        assert(esc_char(c) + Seq::<char>::empty() =~= esc_char(c));
        assert(escape(a) =~= Seq::<char>::empty());
        assert(Seq::<char>::empty() + esc_char(c) =~= esc_char(c));
    } else {
        assert(a.push(c)[0] == a[0]);
        assert(a.push(c).skip(1) =~= a.skip(1).push(c));
        lemma_escape_snoc(a.skip(1), c);
        assert(escape(a.push(c)) == esc_char(a[0]) + (escape(a.skip(1)) + esc_char(c)));
        assert(esc_char(a[0]) + (escape(a.skip(1)) + esc_char(c)) =~= (esc_char(a[0]) + escape(
            a.skip(1),
        )) + esc_char(c));
    }
}

fn append_escaped(out: &mut String, s: &str)
    ensures
        final(out)@ == old(out)@ + escape(s@),
{
    let n = s.unicode_len();
    proof {
        assert(s@.take(0) =~= Seq::<char>::empty());
        assert(old(out)@ + escape(s@.take(0)) =~= old(out)@);
    }
    let mut i: usize = 0;
    while i < n
        invariant
            n == s@.len(),
            i <= n,
            out@ == old(out)@ + escape(s@.take(i as int)),
        decreases n - i,
    {
        let c = s.get_char(i);
        if c == '\\' {
            out.append("\\\\");
            proof {
                reveal_strlit("\\\\");
                assert("\\\\"@ =~= esc_char(c));
            }
        } else if c == '"' {
            out.append("\\\"");
            proof {
                reveal_strlit("\\\"");
                assert("\\\""@ =~= esc_char(c));
            }
        } else {
            let piece = s.substring_char(i, i + 1);
            out.append(piece);
            proof {
                assert(piece@ =~= esc_char(c));
            }
        }
        proof {
            assert(s@.take(i + 1) =~= s@.take(i as int).push(c));
            lemma_escape_snoc(s@.take(i as int), c);
            assert((old(out)@ + escape(s@.take(i as int))) + esc_char(c) =~= old(out)@ + (escape(
                s@.take(i as int),
            ) + esc_char(c)));
        }
        i += 1;
    }
    proof {
        assert(s@.take(n as int) =~= s@);
    }
}

fn append_enc_str(out: &mut String, s: &str)
    ensures
        final(out)@ == old(out)@ + enc_str(s@),
{
    out.append("\"");
    append_escaped(out, s);
    out.append("\"");
    proof {
        reveal_strlit("\"");
        assert("\""@ =~= seq!['"']);
        assert(((old(out)@ + seq!['"']) + escape(s@)) + seq!['"'] =~= old(out)@ + enc_str(s@));
    }
}

fn append_opt_str(out: &mut String, o: &Option<String>)
    ensures
        final(out)@ == old(out)@ + enc_opt_str(opt_str_view(*o)),
{
    match o {
        Option::None => {
            out.append("null");
        },
        Option::Some(s) => {
            append_enc_str(out, s.as_str());
        },
    }
}

fn append_gender(out: &mut String, g: &Option<NounGender>)
    ensures
        final(out)@ == old(out)@ + enc_gender(*g),
{
    match g {
        Option::None => {
            out.append("null");
        },
        Option::Some(NounGender::Masculine) => {
            append_enc_str(out, "Masculine");
        },
        Option::Some(NounGender::Feminine) => {
            append_enc_str(out, "Feminine");
        },
    }
}

fn append_pos(out: &mut String, p: &PartOfSpeech)
    ensures
        final(out)@ == old(out)@ + enc_pos(p@),
{
    match p {
        PartOfSpeech::Noun { gender } => {
            out.append("{\"Noun\":{\"gender\":");
            append_gender(out, gender);
            out.append("}}");
            proof {
                assert(((old(out)@ + "{\"Noun\":{\"gender\":"@) + enc_gender(*gender)) + "}}"@
                    =~= old(out)@ + enc_pos(p@));
            }
        },
        PartOfSpeech::Adjective { f, mp, fp } => {
            out.append("{\"Adjective\":{\"f\":");
            append_opt_str(out, f);
            out.append(",\"mp\":");
            append_opt_str(out, mp);
            out.append(",\"fp\":");
            append_opt_str(out, fp);
            out.append("}}");
            proof {
                assert(((((((old(out)@ + "{\"Adjective\":{\"f\":"@) + enc_opt_str(opt_str_view(*f)))
                    + ",\"mp\":"@) + enc_opt_str(opt_str_view(*mp))) + ",\"fp\":"@) + enc_opt_str(
                    opt_str_view(*fp),
                )) + "}}"@ =~= old(out)@ + enc_pos(p@));
            }
        },
        PartOfSpeech::Verb => {
            append_enc_str(out, "Verb");
        },
        PartOfSpeech::Pronoun => {
            append_enc_str(out, "Pronoun");
        },
        PartOfSpeech::Adverb => {
            append_enc_str(out, "Adverb");
        },
        PartOfSpeech::Numeral => {
            append_enc_str(out, "Numeral");
        },
        PartOfSpeech::Determiner => {
            append_enc_str(out, "Determiner");
        },
        PartOfSpeech::Preposition => {
            append_enc_str(out, "Preposition");
        },
        PartOfSpeech::Interjection => {
            append_enc_str(out, "Interjection");
        },
    }
}

fn append_example(out: &mut String, e: &Example)
    ensures
        final(out)@ == old(out)@ + enc_example(example_view(*e)),
{
    out.append("[");
    append_enc_str(out, e.0.as_str());
    out.append(",");
    append_opt_str(out, &e.1);
    out.append("]");
    proof {
        reveal_strlit("[");
        reveal_strlit(",");
        reveal_strlit("]");
        assert(((((old(out)@ + "["@) + enc_str(e.0@)) + ","@) + enc_opt_str(opt_str_view(e.1)))
            + "]"@ =~= old(out)@ + enc_example(example_view(*e)));
    }
}

fn append_examples(out: &mut String, es: &Vec<Example>)
    ensures
        final(out)@ == old(out)@ + enc_examples(examples_view(es@)),
{
    let ghost esv = examples_view(es@);
    let n = es.len();
    out.append("[");
    proof {
        reveal_strlit("[");
        reveal_strlit("]");
    }
    if n == 0 {
        out.append("]");
        proof {
            assert((old(out)@ + "["@) + "]"@ =~= old(out)@ + enc_examples(esv));
        }
        return ;
    }
    append_example(out, &es[0]);
    proof {
        assert(examples_view(es@)[0] == example_view(es@[0]));
    }
    proof {
        assert((((old(out)@ + "["@) + enc_example(esv[0])) + enc_examples_tail(esv, 1))
            + seq![']'] =~= old(out)@ + enc_examples(esv));
    }
    let mut k: usize = 1;
    while k < n
        invariant
            n == es@.len(),
            1 <= k <= n,
            esv == examples_view(es@),
            esv.len() == n,
            out@ + enc_examples_tail(esv, k as int) + seq![']'] == old(out)@ + enc_examples(esv),
        decreases n - k,
    {
        let ghost before = out@;
        out.append(",");
        append_example(out, &es[k]);
        proof {
            reveal_strlit(",");
            assert(","@ =~= seq![',']);
            assert(examples_view(es@)[k as int] == example_view(es@[k as int]));
            assert(out@ == (before + ","@) + enc_example(esv[k as int]));
            assert(out@ + enc_examples_tail(esv, k + 1) + seq![']'] =~= before + enc_examples_tail(
                esv,
                k as int,
            ) + seq![']']);
        }
        k += 1;
    }
    let ghost before = out@;
    out.append("]");
    proof {
        reveal_strlit("]");
        assert(enc_examples_tail(esv, n as int) =~= Seq::<char>::empty());
        assert(out@ =~= before + enc_examples_tail(esv, n as int) + seq![']']);
    }
}

fn append_meaning(out: &mut String, m: &Meaning)
    ensures
        final(out)@ == old(out)@ + enc_meaning(m@),
{
    out.append("{\"pos\":");
    append_pos(out, &m.pos);
    out.append(",\"meaning\":");
    append_enc_str(out, m.meaning.as_str());
    out.append(",\"examples\":");
    append_examples(out, &m.examples);
    out.append("}");
    proof {
        reveal_strlit("}");
        assert("}"@ =~= seq!['}']);
        assert(((((((old(out)@ + "{\"pos\":"@) + enc_pos(m.pos@)) + ",\"meaning\":"@) + enc_str(
            m.meaning@,
        )) + ",\"examples\":"@) + enc_examples(examples_view(m.examples@))) + seq!['}']
            =~= old(out)@ + enc_meaning(m@));
    }
}

fn append_meanings(out: &mut String, ms: &Vec<Meaning>)
    ensures
        final(out)@ == old(out)@ + enc_meanings(meanings_view(ms@)),
{
    let ghost msv = meanings_view(ms@);
    let n = ms.len();
    out.append("[");
    proof {
        reveal_strlit("[");
        reveal_strlit("]");
    }
    if n == 0 {
        out.append("]");
        proof {
            assert((old(out)@ + "["@) + "]"@ =~= old(out)@ + enc_meanings(msv));
        }
        return ;
    }
    append_meaning(out, &ms[0]);
    proof {
        assert(meanings_view(ms@)[0] == ms@[0]@);
        assert((((old(out)@ + "["@) + enc_meaning(msv[0])) + enc_meanings_tail(msv, 1))
            + seq![']'] =~= old(out)@ + enc_meanings(msv));
    }
    let mut k: usize = 1;
    while k < n
        invariant
            n == ms@.len(),
            1 <= k <= n,
            msv == meanings_view(ms@),
            msv.len() == n,
            out@ + enc_meanings_tail(msv, k as int) + seq![']'] == old(out)@ + enc_meanings(msv),
        decreases n - k,
    {
        let ghost before = out@;
        out.append(",");
        append_meaning(out, &ms[k]);
        proof {
            reveal_strlit(",");
            assert(","@ =~= seq![',']);
            assert(meanings_view(ms@)[k as int] == ms@[k as int]@);
            assert(out@ == (before + ","@) + enc_meaning(msv[k as int]));
            assert(out@ + enc_meanings_tail(msv, k + 1) + seq![']'] =~= before + enc_meanings_tail(
                msv,
                k as int,
            ) + seq![']']);
        }
        k += 1;
    }
    let ghost before = out@;
    out.append("]");
    proof {
        reveal_strlit("]");
        assert(enc_meanings_tail(msv, n as int) =~= Seq::<char>::empty());
        assert(out@ =~= before + enc_meanings_tail(msv, n as int) + seq![']']);
    }
}

fn append_pron(out: &mut String, p: &Option<Pronunciation>)
    ensures
        final(out)@ == old(out)@ + enc_pron(opt_pron_view(*p)),
{
    match p {
        Option::None => {
            out.append("null");
        },
        Option::Some(pr) => {
            out.append("{\"ipa\":");
            append_enc_str(out, pr.ipa.as_str());
            out.append(",\"audio_url\":");
            append_enc_str(out, pr.audio_url.as_str());
            out.append("}");
            proof {
                reveal_strlit("}");
                assert("}"@ =~= seq!['}']);
                assert(((((old(out)@ + "{\"ipa\":"@) + enc_str(pr.ipa@)) + ",\"audio_url\":"@)
                    + enc_str(pr.audio_url@)) + seq!['}'] =~= old(out)@ + enc_pron(
                    opt_pron_view(*p),
                ));
            }
        },
    }
}

/// Serializes a record to the interchange format.
pub fn word_to_json(w: &Word) -> (r: String)
    ensures
        r@ == enc_word(w@),
{
    let mut out = String::new();
    out.append("{\"word\":");
    append_enc_str(&mut out, w.word.as_str());
    out.append(",\"wiki_link\":");
    append_enc_str(&mut out, w.wiki_link.as_str());
    out.append(",\"pronunciation\":");
    append_pron(&mut out, &w.pronunciation);
    out.append(",\"meanings\":");
    append_meanings(&mut out, &w.meanings);
    out.append("}");
    proof {
        reveal_strlit("}");
        assert("}"@ =~= seq!['}']);
        assert(((((((((Seq::<char>::empty() + "{\"word\":"@) + enc_str(w.word@))
            + ",\"wiki_link\":"@) + enc_str(w.wiki_link@)) + ",\"pronunciation\":"@) + enc_pron(
            opt_pron_view(w.pronunciation),
        )) + ",\"meanings\":"@) + enc_meanings(meanings_view(w.meanings@))) + seq!['}']
            =~= enc_word(w@));
    }
    out
}

// --- the reader ---

fn px_lit(s: &str, i: usize, lit: &str) -> (r: Option<usize>)
    ensures
        opt_pos(r) == p_lit(s@, i as int, lit@),
        r matches Option::Some(j) ==> i <= j <= s@.len(),
{
    let n = s.unicode_len();
    let ln = lit.unicode_len();
    if i > n || ln > n - i {
        return Option::None;
    }
    if crate::strutil::matches_at(s, i, lit) {
        Option::Some(i + ln)
    } else {
        Option::None
    }
}

fn px_string(s: &str, i: usize) -> (r: Option<(String, usize)>)
    ensures
        match (r, p_string(s@, i as int)) {
            (Option::Some(v), Option::Some(sv)) => v.0@ == sv.0 && v.1 as int == sv.1 && i < v.1
                <= s@.len(),
            (Option::None, Option::None) => true,
            _ => false,
        },
{
    let n = s.unicode_len();
    if i >= n {
        return Option::None;
    }
    if s.get_char(i) != '"' {
        return Option::None;
    }
    let mut out = String::new();
    let mut cur: usize = i + 1;
    proof {
        match p_str_chars(s@, i + 1) {
            Option::Some(r2) => {
                assert(out@ + r2.0 =~= r2.0);
            },
            Option::None => {},
        }
    }
    while cur < n
        invariant
            n == s@.len(),
            i < n,
            s@[i as int] == '"',
            i + 1 <= cur <= n,
            match p_str_chars(s@, cur as int) {
                Option::Some(r2) => p_str_chars(s@, i + 1) == Option::Some((out@ + r2.0, r2.1)),
                Option::None => p_str_chars(s@, i + 1) is None,
            },
        decreases n - cur,
    {
        let c = s.get_char(cur);
        if c == '"' {
            proof {
                assert(out@ + Seq::<char>::empty() =~= out@);
            }
            return Option::Some((out, cur + 1));
        } else if c == '\\' {
            if cur + 1 >= n {
                return Option::None;
            }
            let c2 = s.get_char(cur + 1);
            let u: char = if c2 == '\\' {
                '\\'
            } else if c2 == '"' {
                '"'
            } else {
                return Option::None;
            };
            let ghost prev = out@;
            if u == '\\' {
                out.append("\\");
                proof {
                    reveal_strlit("\\");
                    assert(out@ =~= prev.push(u));
                }
            } else {
                out.append("\"");
                proof {
                    reveal_strlit("\"");
                    assert(out@ =~= prev.push(u));
                }
            }
            proof {
                assert(unesc_char(c2) == Option::Some(u));
                match p_str_chars(s@, cur + 2) {
                    Option::Some(r2) => {
                        assert(p_str_chars(s@, cur as int) == Option::Some(
                            (seq![u] + r2.0, r2.1),
                        ));
                        assert(prev + (seq![u] + r2.0) =~= out@ + r2.0);
                    },
                    Option::None => {},
                }
            }
            cur += 2;
        } else {
            let piece = s.substring_char(cur, cur + 1);
            let ghost prev = out@;
            out.append(piece);
            proof {
                assert(piece@ =~= seq![s@[cur as int]]);
                match p_str_chars(s@, cur + 1) {
                    Option::Some(r2) => {
                        assert(p_str_chars(s@, cur as int) == Option::Some(
                            (seq![s@[cur as int]] + r2.0, r2.1),
                        ));
                        assert(prev + (seq![s@[cur as int]] + r2.0) =~= out@ + r2.0);
                    },
                    Option::None => {},
                }
            }
            cur += 1;
        }
    }
    Option::None
}

fn px_opt_str(s: &str, i: usize) -> (r: Option<(Option<String>, usize)>)
    ensures
        match (r, p_opt_str(s@, i as int)) {
            (Option::Some(v), Option::Some(sv)) => opt_str_view(v.0) == sv.0 && v.1 as int == sv.1
                && v.1 <= s@.len(),
            (Option::None, Option::None) => true,
            _ => false,
        },
{
    let n = s.unicode_len();
    if i < n && s.get_char(i) == 'n' {
        match px_lit(s, i, "null") {
            Option::Some(j) => Option::Some((Option::None, j)),
            Option::None => Option::None,
        }
    } else {
        match px_string(s, i) {
            Option::Some((x, j)) => Option::Some((Option::Some(x), j)),
            Option::None => Option::None,
        }
    }
}

fn px_gender(s: &str, i: usize) -> (r: Option<(Option<NounGender>, usize)>)
    ensures
        match (r, p_gender(s@, i as int)) {
            (Option::Some(v), Option::Some(sv)) => v.0 == sv.0 && v.1 as int == sv.1 && v.1
                <= s@.len(),
            (Option::None, Option::None) => true,
            _ => false,
        },
{
    match px_opt_str(s, i) {
        Option::Some((Option::None, j)) => Option::Some((Option::None, j)),
        Option::Some((Option::Some(x), j)) => {
            if crate::strutil::str_eq(x.as_str(), "Masculine") {
                Option::Some((Option::Some(NounGender::Masculine), j))
            } else if crate::strutil::str_eq(x.as_str(), "Feminine") {
                Option::Some((Option::Some(NounGender::Feminine), j))
            } else {
                Option::None
            }
        },
        Option::None => Option::None,
    }
}

fn px_pos(s: &str, i: usize) -> (r: Option<(PartOfSpeech, usize)>)
    ensures
        match (r, p_pos(s@, i as int)) {
            (Option::Some(v), Option::Some(sv)) => v.0@ == sv.0 && v.1 as int == sv.1 && v.1
                <= s@.len(),
            (Option::None, Option::None) => true,
            _ => false,
        },
{
    let n = s.unicode_len();
    if i < n && s.get_char(i) == '"' {
        let (x, j) = match px_string(s, i) {
            Option::Some(v) => v,
            Option::None => {
                return Option::None;
            },
        };
        if crate::strutil::str_eq(x.as_str(), "Verb") {
            Option::Some((PartOfSpeech::Verb, j))
        } else if crate::strutil::str_eq(x.as_str(), "Pronoun") {
            Option::Some((PartOfSpeech::Pronoun, j))
        } else if crate::strutil::str_eq(x.as_str(), "Adverb") {
            Option::Some((PartOfSpeech::Adverb, j))
        } else if crate::strutil::str_eq(x.as_str(), "Numeral") {
            Option::Some((PartOfSpeech::Numeral, j))
        } else if crate::strutil::str_eq(x.as_str(), "Determiner") {
            Option::Some((PartOfSpeech::Determiner, j))
        } else if crate::strutil::str_eq(x.as_str(), "Preposition") {
            Option::Some((PartOfSpeech::Preposition, j))
        } else if crate::strutil::str_eq(x.as_str(), "Interjection") {
            Option::Some((PartOfSpeech::Interjection, j))
        } else {
            Option::None
        }
    } else {
        match px_lit(s, i, "{\"Noun\":{\"gender\":") {
            Option::Some(j) => {
                let (g, j2) = match px_gender(s, j) {
                    Option::Some(v) => v,
                    Option::None => {
                        return Option::None;
                    },
                };
                match px_lit(s, j2, "}}") {
                    Option::Some(j3) => Option::Some((PartOfSpeech::Noun { gender: g }, j3)),
                    Option::None => Option::None,
                }
            },
            Option::None => {
                let j = match px_lit(s, i, "{\"Adjective\":{\"f\":") {
                    Option::Some(j) => j,
                    Option::None => {
                        return Option::None;
                    },
                };
                let (f, j2) = match px_opt_str(s, j) {
                    Option::Some(v) => v,
                    Option::None => {
                        return Option::None;
                    },
                };
                let j3 = match px_lit(s, j2, ",\"mp\":") {
                    Option::Some(v) => v,
                    Option::None => {
                        return Option::None;
                    },
                };
                let (mp, j4) = match px_opt_str(s, j3) {
                    Option::Some(v) => v,
                    Option::None => {
                        return Option::None;
                    },
                };
                let j5 = match px_lit(s, j4, ",\"fp\":") {
                    Option::Some(v) => v,
                    Option::None => {
                        return Option::None;
                    },
                };
                let (fp, j6) = match px_opt_str(s, j5) {
                    Option::Some(v) => v,
                    Option::None => {
                        return Option::None;
                    },
                };
                match px_lit(s, j6, "}}") {
                    Option::Some(j7) => Option::Some((PartOfSpeech::Adjective { f, mp, fp }, j7)),
                    Option::None => Option::None,
                }
            },
        }
    }
}

fn px_example(s: &str, i: usize) -> (r: Option<(Example, usize)>)
    ensures
        match (r, p_example(s@, i as int)) {
            (Option::Some(v), Option::Some(sv)) => example_view(v.0) == sv.0 && v.1 as int == sv.1
                && v.1 <= s@.len(),
            (Option::None, Option::None) => true,
            _ => false,
        },
{
    proof {
        reveal_strlit("[");
        reveal_strlit(",");
        reveal_strlit("]");
        assert("["@ =~= seq!['[']);
        assert(","@ =~= seq![',']);
        assert("]"@ =~= seq![']']);
    }
    let j = match px_lit(s, i, "[") {
        Option::Some(j) => j,
        Option::None => {
            return Option::None;
        },
    };
    let (o, j2) = match px_string(s, j) {
        Option::Some(v) => v,
        Option::None => {
            return Option::None;
        },
    };
    let j3 = match px_lit(s, j2, ",") {
        Option::Some(v) => v,
        Option::None => {
            return Option::None;
        },
    };
    let (t, j4) = match px_opt_str(s, j3) {
        Option::Some(v) => v,
        Option::None => {
            return Option::None;
        },
    };
    match px_lit(s, j4, "]") {
        Option::Some(j5) => Option::Some(((o, t), j5)),
        Option::None => Option::None,
    }
}

fn px_examples(s: &str, i: usize) -> (r: Option<(Vec<Example>, usize)>)
    ensures
        match (r, p_examples(s@, i as int)) {
            (Option::Some(v), Option::Some(sv)) => examples_view(v.0@) == sv.0 && v.1 as int
                == sv.1 && v.1 <= s@.len(),
            (Option::None, Option::None) => true,
            _ => false,
        },
{
    let n = s.unicode_len();
    if i >= n || s.get_char(i) != '[' {
        return Option::None;
    }
    if i + 1 < n && s.get_char(i + 1) == ']' {
        proof {
            assert(examples_view(Seq::<Example>::empty()) =~= Seq::<
                (Seq<char>, Option<Seq<char>>),
            >::empty());
        }
        return Option::Some((Vec::new(), i + 2));
    }
    let (e0, j0) = match px_example(s, i + 1) {
        Option::Some(v) => v,
        Option::None => {
            return Option::None;
        },
    };
    if j0 <= i + 1 {
        return Option::None;
    }
    let mut acc: Vec<Example> = Vec::new();
    let ghost e0v = example_view(e0);
    acc.push(e0);
    proof {
        assert(examples_view(acc@) =~= seq![e0v]);
        match p_examples_tail(s@, j0 as int) {
            Option::Some(r2) => {
                assert(examples_view(acc@) + r2.0 =~= seq![e0v] + r2.0);
            },
            Option::None => {},
        }
    }
    let mut cur: usize = j0;
    while cur < n
        invariant
            n == s@.len(),
            cur <= n,
            match p_examples_tail(s@, cur as int) {
                Option::Some(r2) => p_examples(s@, i as int) == Option::Some(
                    (examples_view(acc@) + r2.0, r2.1),
                ),
                Option::None => p_examples(s@, i as int) is None,
            },
        decreases n - cur,
    {
        let c = s.get_char(cur);
        if c == ']' {
            proof {
                assert(examples_view(acc@) + Seq::<(Seq<char>, Option<Seq<char>>)>::empty()
                    =~= examples_view(acc@));
            }
            return Option::Some((acc, cur + 1));
        }
        if c != ',' {
            return Option::None;
        }
        let (e, j) = match px_example(s, cur + 1) {
            Option::Some(v) => v,
            Option::None => {
                return Option::None;
            },
        };
        if j <= cur + 1 {
            return Option::None;
        }
        let ghost prev = acc@;
        let ghost ev = example_view(e);
        acc.push(e);
        proof {
            assert(examples_view(acc@) =~= examples_view(prev) + seq![ev]);
            match p_examples_tail(s@, j as int) {
                Option::Some(r2) => {
                    assert(p_examples_tail(s@, cur as int) == Option::Some(
                        (seq![ev] + r2.0, r2.1),
                    ));
                    assert(examples_view(prev) + (seq![ev] + r2.0) =~= examples_view(acc@) + r2.0);
                },
                Option::None => {},
            }
        }
        cur = j;
    }
    Option::None
}

fn px_meaning(s: &str, i: usize) -> (r: Option<(Meaning, usize)>)
    ensures
        match (r, p_meaning(s@, i as int)) {
            (Option::Some(v), Option::Some(sv)) => v.0@ == sv.0 && v.1 as int == sv.1 && v.1
                <= s@.len(),
            (Option::None, Option::None) => true,
            _ => false,
        },
{
    proof {
        reveal_strlit("}");
        assert("}"@ =~= seq!['}']);
    }
    let j = match px_lit(s, i, "{\"pos\":") {
        Option::Some(j) => j,
        Option::None => {
            return Option::None;
        },
    };
    let (pos, j2) = match px_pos(s, j) {
        Option::Some(v) => v,
        Option::None => {
            return Option::None;
        },
    };
    let j3 = match px_lit(s, j2, ",\"meaning\":") {
        Option::Some(v) => v,
        Option::None => {
            return Option::None;
        },
    };
    let (mg, j4) = match px_string(s, j3) {
        Option::Some(v) => v,
        Option::None => {
            return Option::None;
        },
    };
    let j5 = match px_lit(s, j4, ",\"examples\":") {
        Option::Some(v) => v,
        Option::None => {
            return Option::None;
        },
    };
    let (es, j6) = match px_examples(s, j5) {
        Option::Some(v) => v,
        Option::None => {
            return Option::None;
        },
    };
    match px_lit(s, j6, "}") {
        Option::Some(j7) => Option::Some((Meaning { pos, meaning: mg, examples: es }, j7)),
        Option::None => Option::None,
    }
}

fn px_meanings(s: &str, i: usize) -> (r: Option<(Vec<Meaning>, usize)>)
    ensures
        match (r, p_meanings(s@, i as int)) {
            (Option::Some(v), Option::Some(sv)) => meanings_view(v.0@) == sv.0 && v.1 as int
                == sv.1 && v.1 <= s@.len(),
            (Option::None, Option::None) => true,
            _ => false,
        },
{
    let n = s.unicode_len();
    if i >= n || s.get_char(i) != '[' {
        return Option::None;
    }
    if i + 1 < n && s.get_char(i + 1) == ']' {
        proof {
            assert(meanings_view(Seq::<Meaning>::empty()) =~= Seq::<MeaningV>::empty());
        }
        return Option::Some((Vec::new(), i + 2));
    }
    let (m0, j0) = match px_meaning(s, i + 1) {
        Option::Some(v) => v,
        Option::None => {
            return Option::None;
        },
    };
    if j0 <= i + 1 {
        return Option::None;
    }
    let mut acc: Vec<Meaning> = Vec::new();
    let ghost m0v = m0@;
    acc.push(m0);
    proof {
        assert(meanings_view(acc@) =~= seq![m0v]);
        match p_meanings_tail(s@, j0 as int) {
            Option::Some(r2) => {
                assert(meanings_view(acc@) + r2.0 =~= seq![m0v] + r2.0);
            },
            Option::None => {},
        }
    }
    let mut cur: usize = j0;
    while cur < n
        invariant
            n == s@.len(),
            cur <= n,
            match p_meanings_tail(s@, cur as int) {
                Option::Some(r2) => p_meanings(s@, i as int) == Option::Some(
                    (meanings_view(acc@) + r2.0, r2.1),
                ),
                Option::None => p_meanings(s@, i as int) is None,
            },
        decreases n - cur,
    {
        let c = s.get_char(cur);
        if c == ']' {
            proof {
                assert(meanings_view(acc@) + Seq::<MeaningV>::empty() =~= meanings_view(acc@));
            }
            return Option::Some((acc, cur + 1));
        }
        if c != ',' {
            return Option::None;
        }
        let (m, j) = match px_meaning(s, cur + 1) {
            Option::Some(v) => v,
            Option::None => {
                return Option::None;
            },
        };
        if j <= cur + 1 {
            return Option::None;
        }
        let ghost prev = acc@;
        let ghost mv = m@;
        acc.push(m);
        proof {
            assert(meanings_view(acc@) =~= meanings_view(prev) + seq![mv]);
            match p_meanings_tail(s@, j as int) {
                Option::Some(r2) => {
                    assert(p_meanings_tail(s@, cur as int) == Option::Some(
                        (seq![mv] + r2.0, r2.1),
                    ));
                    assert(meanings_view(prev) + (seq![mv] + r2.0) =~= meanings_view(acc@) + r2.0);
                },
                Option::None => {},
            }
        }
        cur = j;
    }
    Option::None
}

fn px_pron(s: &str, i: usize) -> (r: Option<(Option<Pronunciation>, usize)>)
    ensures
        match (r, p_pron(s@, i as int)) {
            (Option::Some(v), Option::Some(sv)) => opt_pron_view(v.0) == sv.0 && v.1 as int == sv.1
                && v.1 <= s@.len(),
            (Option::None, Option::None) => true,
            _ => false,
        },
{
    proof {
        reveal_strlit("}");
        assert("}"@ =~= seq!['}']);
    }
    let n = s.unicode_len();
    if i < n && s.get_char(i) == 'n' {
        match px_lit(s, i, "null") {
            Option::Some(j) => Option::Some((Option::None, j)),
            Option::None => Option::None,
        }
    } else {
        let j = match px_lit(s, i, "{\"ipa\":") {
            Option::Some(j) => j,
            Option::None => {
                return Option::None;
            },
        };
        let (ipa, j2) = match px_string(s, j) {
            Option::Some(v) => v,
            Option::None => {
                return Option::None;
            },
        };
        let j3 = match px_lit(s, j2, ",\"audio_url\":") {
            Option::Some(v) => v,
            Option::None => {
                return Option::None;
            },
        };
        let (au, j4) = match px_string(s, j3) {
            Option::Some(v) => v,
            Option::None => {
                return Option::None;
            },
        };
        match px_lit(s, j4, "}") {
            Option::Some(j5) => Option::Some(
                (Option::Some(Pronunciation { ipa, audio_url: au }), j5),
            ),
            Option::None => Option::None,
        }
    }
}

/// Parses the interchange format back into a record: the record when the
/// text is exactly one serialized record, nothing otherwise.
pub fn word_from_json(s: &str) -> (r: Option<Word>)
    ensures
        match (r, spec_parse_word(s@)) {
            (Option::Some(w), Option::Some(wv)) => w@ == wv,
            (Option::None, Option::None) => true,
            _ => false,
        },
{
    proof {
        reveal_strlit("}");
        assert("}"@ =~= seq!['}']);
    }
    let j = match px_lit(s, 0, "{\"word\":") {
        Option::Some(j) => j,
        Option::None => {
            return Option::None;
        },
    };
    let (word, j2) = match px_string(s, j) {
        Option::Some(v) => v,
        Option::None => {
            return Option::None;
        },
    };
    let j3 = match px_lit(s, j2, ",\"wiki_link\":") {
        Option::Some(v) => v,
        Option::None => {
            return Option::None;
        },
    };
    let (link, j4) = match px_string(s, j3) {
        Option::Some(v) => v,
        Option::None => {
            return Option::None;
        },
    };
    let j5 = match px_lit(s, j4, ",\"pronunciation\":") {
        Option::Some(v) => v,
        Option::None => {
            return Option::None;
        },
    };
    let (pron, j6) = match px_pron(s, j5) {
        Option::Some(v) => v,
        Option::None => {
            return Option::None;
        },
    };
    let j7 = match px_lit(s, j6, ",\"meanings\":") {
        Option::Some(v) => v,
        Option::None => {
            return Option::None;
        },
    };
    let (ms, j8) = match px_meanings(s, j7) {
        Option::Some(v) => v,
        Option::None => {
            return Option::None;
        },
    };
    let j9 = match px_lit(s, j8, "}") {
        Option::Some(v) => v,
        Option::None => {
            return Option::None;
        },
    };
    if j9 == s.unicode_len() {
        Option::Some(Word { word, wiki_link: link, pronunciation: pron, meanings: ms })
    } else {
        Option::None
    }
}

/// The round trip: parsing the serialized form of any record yields that
/// record, field for field, nested sequences and variant payloads
/// included.
pub proof fn lemma_word_round_trip(v: WordV)
    ensures
        spec_parse_word(enc_word(v)) == Option::Some(v),
{
    let s = enc_word(v);
    assert(s.subrange(0, s.len() as int) =~= s);
    lemma_rt_word(s, v, 0);
}

} // verus!
