use wikt_lookup::codec::{word_from_json, word_to_json};
use wikt_lookup::word::{Meaning, PartOfSpeech, Pronunciation, Word};

fn sample_word() -> Word {
    Word {
        word: "grand".to_string(),
        wiki_link: "https://en.wiktionary.org/wiki/grand#French".to_string(),
        pronunciation: Some(Pronunciation {
            ipa: "/ɡʁɑ̃/".to_string(),
            audio_url: "https://up.example/grand.ogg".to_string(),
        }),
        meanings: vec![
            Meaning {
                pos: PartOfSpeech::Adjective {
                    f: Some("grande".to_string()),
                    mp: Some("grands".to_string()),
                    fp: None,
                },
                meaning: "big, large".to_string(),
                examples: vec![
                    ("un grand arbre".to_string(), Some("a tall tree".to_string())),
                    ("sans traduction".to_string(), None),
                ],
            },
            Meaning {
                pos: PartOfSpeech::Noun { gender: Some(wikt_lookup::word::NounGender::Masculine) },
                meaning: "a grandee".to_string(),
                examples: vec![],
            },
            Meaning { pos: PartOfSpeech::Verb, meaning: "n/a".to_string(), examples: vec![] },
        ],
    }
}

#[test]
fn round_trip_full_record() {
    let w = sample_word();
    let text = word_to_json(&w);
    let back = word_from_json(text.as_str()).unwrap();
    assert_eq!(back, w);
}

#[test]
fn round_trip_minimal_record() {
    let w = Word {
        word: "x".to_string(),
        wiki_link: "".to_string(),
        pronunciation: None,
        meanings: vec![],
    };
    let text = word_to_json(&w);
    assert_eq!(
        text,
        "{\"word\":\"x\",\"wiki_link\":\"\",\"pronunciation\":null,\"meanings\":[]}"
    );
    let back = word_from_json(text.as_str()).unwrap();
    assert_eq!(back, w);
}

#[test]
fn round_trip_escapes_quotes_and_backslashes() {
    let w = Word {
        word: "a\"b\\c".to_string(),
        wiki_link: "l\nine".to_string(),
        pronunciation: None,
        meanings: vec![Meaning {
            pos: PartOfSpeech::Interjection,
            meaning: "say \"oh\"".to_string(),
            examples: vec![("\\\\".to_string(), Some("\"".to_string()))],
        }],
    };
    let text = word_to_json(&w);
    let back = word_from_json(text.as_str()).unwrap();
    assert_eq!(back, w);
}

#[test]
fn gender_variants_survive() {
    for g in [
        None,
        Some(wikt_lookup::word::NounGender::Masculine),
        Some(wikt_lookup::word::NounGender::Feminine),
    ] {
        let w = Word {
            word: "n".to_string(),
            wiki_link: "".to_string(),
            pronunciation: None,
            meanings: vec![Meaning {
                pos: PartOfSpeech::Noun { gender: g },
                meaning: "m".to_string(),
                examples: vec![],
            }],
        };
        let back = word_from_json(word_to_json(&w).as_str()).unwrap();
        assert_eq!(back, w);
    }
}

#[test]
fn malformed_text_is_rejected() {
    assert!(word_from_json("").is_none());
    assert!(word_from_json("{}").is_none());
    assert!(word_from_json("{\"word\":\"x\"").is_none());
    let w = sample_word();
    let mut text = word_to_json(&w);
    text.push('x');
    assert!(word_from_json(text.as_str()).is_none());
}
