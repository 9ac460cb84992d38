use wikt_lookup::fields::{parse_word_line, word_to_anki_fields};
use wikt_lookup::shorten::shorten_meaning;
use wikt_lookup::strutil::{str_contains, str_eq, take_first_line, trim_str};
use wikt_lookup::word::{LookupError, Meaning, NounGender, PartOfSpeech, Pronunciation, Word};

#[test]
fn long_parenthetical_is_dropped() {
    // The parenthetical holds fifteen characters: at the threshold.
    assert_eq!(shorten_meaning("X (123456789012345)".to_string()), "X");
    assert_eq!(
        shorten_meaning("cat (a long explanatory note)".to_string()),
        "cat"
    );
}

#[test]
fn short_parenthetical_is_kept() {
    assert_eq!(
        shorten_meaning("cat (an animal)".to_string()),
        "cat (an animal)"
    );
    assert_eq!(
        shorten_meaning("X (12345678901234)".to_string()),
        "X (12345678901234)"
    );
}

#[test]
fn no_parenthetical_is_unchanged() {
    assert_eq!(shorten_meaning("plain".to_string()), "plain");
    assert_eq!(shorten_meaning("".to_string()), "");
    assert_eq!(shorten_meaning("ends (wrong".to_string()), "ends (wrong");
}

#[test]
fn last_parenthetical_decides() {
    assert_eq!(
        shorten_meaning("a (bb) (cccccccccccccccc)".to_string()),
        "a (bb)"
    );
}

#[test]
fn shortening_twice_equals_once() {
    for s in [
        "cat (an animal)",
        "X (123456789012345)",
        "plain",
        "",
        "a (bb) (cccccccccccccccc)",
    ] {
        let once = shorten_meaning(s.to_string());
        let twice = shorten_meaning(once.clone());
        assert_eq!(twice, once);
    }
}

#[test]
fn string_helpers_behave() {
    assert!(str_eq("abc", "abc"));
    assert!(!str_eq("abc", "abd"));
    assert!(!str_eq("abc", "ab"));
    assert!(str_contains("un grand arbre", "grand"));
    assert!(!str_contains("petit", "grand"));
    assert!(str_contains("anything", ""));
    assert_eq!(take_first_line("a\nb\nc"), "a");
    assert_eq!(take_first_line("abc"), "abc");
    assert_eq!(trim_str("  a b \t\n"), "a b");
    assert_eq!(trim_str(" \t "), "");
}

fn noun_word(gender: Option<NounGender>, word: &str) -> Word {
    Word {
        word: word.to_string(),
        wiki_link: "link".to_string(),
        pronunciation: Some(Pronunciation {
            ipa: "/x/".to_string(),
            audio_url: "https://a/b.ogg".to_string(),
        }),
        meanings: vec![Meaning {
            pos: PartOfSpeech::Noun { gender },
            meaning: "cat".to_string(),
            examples: vec![("J'ai un chat".to_string(), Some("I have a cat".to_string()))],
        }],
    }
}

#[test]
fn anki_fields_for_masculine_noun() {
    let w = noun_word(Some(NounGender::Masculine), "chat");
    let fs = word_to_anki_fields(&w, "cat").unwrap();
    assert_eq!(
        fs,
        vec![
            "chat".to_string(),
            "le chat".to_string(),
            "".to_string(),
            "/x/".to_string(),
            "".to_string(),
            "cat".to_string(),
            "J'ai un chat".to_string(),
            "I have a cat".to_string(),
            "link".to_string(),
            "".to_string(),
            "[sound:chat.mp3]".to_string(),
        ]
    );
}

#[test]
fn anki_fields_elide_before_vowel() {
    let w = noun_word(Some(NounGender::Feminine), "eau");
    let fs = word_to_anki_fields(&w, "cat").unwrap();
    assert_eq!(fs[1], "l'eau (fem.)");
}

#[test]
fn anki_fields_errors() {
    let empty = Word {
        word: "x".to_string(),
        wiki_link: "".to_string(),
        pronunciation: None,
        meanings: vec![],
    };
    assert_eq!(word_to_anki_fields(&empty, "a"), Err(LookupError::Malformed));
    let w = noun_word(None, "chat");
    assert_eq!(word_to_anki_fields(&w, "dog"), Err(LookupError::NotFound));
}

#[test]
fn anki_fields_last_matching_meaning_wins() {
    let mut w = noun_word(None, "chat");
    w.meanings.push(Meaning {
        pos: PartOfSpeech::Verb,
        meaning: "cat around".to_string(),
        examples: vec![],
    });
    let fs = word_to_anki_fields(&w, "cat").unwrap();
    // Both meanings match; the later one decides the article and examples.
    assert_eq!(fs[1], "");
    assert_eq!(fs[6], "");
}

#[test]
fn word_lines_are_parsed() {
    assert_eq!(
        parse_word_line("chat [cat]"),
        Some(("chat".to_string(), "cat".to_string()))
    );
    assert_eq!(
        parse_word_line("bon marché [cheap [sic]]"),
        Some(("bon marché".to_string(), "cheap [sic]".to_string()))
    );
    assert_eq!(parse_word_line("no brackets"), None);
    assert_eq!(parse_word_line("x[a]"), None);
    assert_eq!(parse_word_line("x [a] trailing"), None);
    assert_eq!(parse_word_line(" [a]"), None);
}
