use wikt_lookup::dom::{doc_wf, Doc, HtmlNode};
use wikt_lookup::extract::wiktionary_extract;
use wikt_lookup::grammar::{get_gender_from_section, get_pr_from_section};
use wikt_lookup::word::{LookupError, NounGender, PartOfSpeech};

enum N {
    T(&'static str),
    E(&'static str, Vec<&'static str>, Option<&'static str>, Vec<N>),
}

fn build(nodes: &mut Vec<HtmlNode>, n: &N) -> usize {
    match n {
        N::T(t) => {
            let i = nodes.len();
            nodes.push(HtmlNode::Text { text: t.to_string() });
            i
        }
        N::E(tag, classes, src, kids) => {
            let i = nodes.len();
            nodes.push(HtmlNode::Elem {
                tag: tag.to_string(),
                classes: classes.iter().map(|c| c.to_string()).collect(),
                src_attr: src.map(|s| s.to_string()),
                children: vec![],
                end: 0,
            });
            let mut ch = vec![];
            for k in kids {
                ch.push(build(nodes, k));
            }
            let e = nodes.len();
            match &mut nodes[i] {
                HtmlNode::Elem { children, end, .. } => {
                    *children = ch;
                    *end = e;
                }
                HtmlNode::Text { .. } => unreachable!(),
            }
            i
        }
    }
}

fn doc_of(roots: Vec<N>) -> Doc {
    let mut nodes = vec![];
    for r in &roots {
        build(&mut nodes, r);
    }
    Doc { nodes }
}

fn heading(level: &'static str, label: &'static str) -> N {
    N::E(
        level,
        vec![],
        None,
        vec![N::E("span", vec!["mw-headline"], None, vec![N::T(label)])],
    )
}

fn french_noun_doc(language: &'static str) -> Doc {
    doc_of(vec![N::E(
        "div",
        vec!["mw-parser-output"],
        None,
        vec![
            heading("h2", language),
            heading("h3", "Noun"),
            N::E(
                "ol",
                vec![],
                None,
                vec![N::E(
                    "li",
                    vec![],
                    None,
                    vec![
                        N::T("cat (an animal)\n"),
                        N::E(
                            "dl",
                            vec![],
                            None,
                            vec![N::E(
                                "div",
                                vec!["h-usage-example"],
                                None,
                                vec![
                                    N::E(
                                        "i",
                                        vec!["Latn", "mention", "e-example"],
                                        None,
                                        vec![N::T("J'ai un chat")],
                                    ),
                                    N::E(
                                        "span",
                                        vec!["e-translation"],
                                        None,
                                        vec![N::T("I have a cat")],
                                    ),
                                ],
                            )],
                        ),
                    ],
                )],
            ),
            heading("h4", "Further reading"),
        ],
    )])
}

#[test]
fn built_documents_are_well_formed() {
    assert!(doc_wf(&french_noun_doc("French")));
    assert!(doc_wf(&Doc { nodes: vec![] }));
}

#[test]
fn broken_span_is_rejected() {
    let doc = Doc {
        nodes: vec![HtmlNode::Elem {
            tag: "p".to_string(),
            classes: vec![],
            src_attr: None,
            children: vec![],
            end: 5,
        }],
    };
    assert!(!doc_wf(&doc));
}

#[test]
fn noun_entry_is_extracted() {
    let doc = french_noun_doc("French");
    let w = wiktionary_extract(&doc, "chat").unwrap();
    assert_eq!(w.word, "chat");
    assert_eq!(w.wiki_link, "https://en.wiktionary.org/wiki/chat#French");
    assert!(w.pronunciation.is_none());
    assert_eq!(w.meanings.len(), 1);
    let m = &w.meanings[0];
    assert_eq!(m.pos, PartOfSpeech::Noun { gender: None });
    // The parenthetical is 11 characters: below the threshold, so the
    // definition keeps it.
    assert_eq!(m.meaning, "cat (an animal)");
    assert_eq!(
        m.examples,
        vec![("J'ai un chat".to_string(), Some("I have a cat".to_string()))]
    );
}

#[test]
fn missing_language_heading_fails() {
    let doc = french_noun_doc("Spanish");
    let r = wiktionary_extract(&doc, "chat");
    assert_eq!(r, Err(LookupError::NotFound));
}

#[test]
fn adjective_forms_are_recovered() {
    let doc = doc_of(vec![N::E(
        "div",
        vec!["mw-parser-output"],
        None,
        vec![
            heading("h2", "French"),
            heading("h3", "Adjective"),
            N::E(
                "p",
                vec![],
                None,
                vec![
                    N::E("i", vec![], None, vec![N::T("feminine")]),
                    N::E("b", vec![], None, vec![N::T("grande")]),
                ],
            ),
            N::E(
                "ol",
                vec![],
                None,
                vec![N::E("li", vec![], None, vec![N::T("big\n")])],
            ),
            heading("h4", "Anagrams"),
        ],
    )]);
    let w = wiktionary_extract(&doc, "grand").unwrap();
    assert_eq!(w.meanings.len(), 1);
    assert_eq!(
        w.meanings[0].pos,
        PartOfSpeech::Adjective { f: Some("grande".to_string()), mp: None, fp: None }
    );
    assert_eq!(w.meanings[0].meaning, "big");
}

#[test]
fn meanings_follow_subsection_order() {
    let doc = doc_of(vec![N::E(
        "div",
        vec!["mw-parser-output"],
        None,
        vec![
            heading("h2", "French"),
            heading("h3", "Noun"),
            N::E(
                "ol",
                vec![],
                None,
                vec![N::E("li", vec![], None, vec![N::T("first sense\n")])],
            ),
            heading("h3", "Verb"),
            N::E(
                "ol",
                vec![],
                None,
                vec![N::E("li", vec![], None, vec![N::T("second sense\n")])],
            ),
            heading("h4", "Anagrams"),
        ],
    )]);
    let w = wiktionary_extract(&doc, "x").unwrap();
    assert_eq!(w.meanings.len(), 2);
    assert_eq!(w.meanings[0].meaning, "first sense");
    assert_eq!(w.meanings[0].pos, PartOfSpeech::Noun { gender: None });
    assert_eq!(w.meanings[1].meaning, "second sense");
    assert_eq!(w.meanings[1].pos, PartOfSpeech::Verb);
}

#[test]
fn unparseable_subsection_does_not_abort_siblings() {
    // The noun subsection has no ordered list at all; the verb subsection
    // still contributes its meaning.
    let doc = doc_of(vec![N::E(
        "div",
        vec!["mw-parser-output"],
        None,
        vec![
            heading("h2", "French"),
            heading("h3", "Noun"),
            N::E("p", vec![], None, vec![N::T("no definitions here")]),
            heading("h3", "Verb"),
            N::E(
                "ol",
                vec![],
                None,
                vec![N::E("li", vec![], None, vec![N::T("to work\n")])],
            ),
            heading("h4", "Anagrams"),
        ],
    )]);
    let w = wiktionary_extract(&doc, "x").unwrap();
    assert_eq!(w.meanings.len(), 1);
    assert_eq!(w.meanings[0].meaning, "to work");
}

#[test]
fn expandable_quotations_are_extracted() {
    let doc = doc_of(vec![N::E(
        "div",
        vec!["mw-parser-output"],
        None,
        vec![
            heading("h2", "French"),
            heading("h3", "Verb"),
            N::E(
                "ol",
                vec![],
                None,
                vec![N::E(
                    "li",
                    vec![],
                    None,
                    vec![
                        N::T("to sing\n"),
                        N::E(
                            "ul",
                            vec![],
                            None,
                            vec![N::E(
                                "li",
                                vec![],
                                None,
                                vec![N::E(
                                    "span",
                                    vec!["e-quotation"],
                                    None,
                                    vec![N::T("Il chante bien")],
                                )],
                            )],
                        ),
                    ],
                )],
            ),
            heading("h4", "Anagrams"),
        ],
    )]);
    let w = wiktionary_extract(&doc, "chanter").unwrap();
    assert_eq!(w.meanings.len(), 1);
    assert_eq!(w.meanings[0].meaning, "to sing");
    assert_eq!(w.meanings[0].examples, vec![("Il chante bien".to_string(), None)]);
}

#[test]
fn example_container_without_sentence_is_skipped() {
    let doc = doc_of(vec![N::E(
        "div",
        vec!["mw-parser-output"],
        None,
        vec![
            heading("h2", "French"),
            heading("h3", "Noun"),
            N::E(
                "ol",
                vec![],
                None,
                vec![N::E(
                    "li",
                    vec![],
                    None,
                    vec![
                        N::T("cat\n"),
                        N::E(
                            "dl",
                            vec![],
                            None,
                            vec![N::E(
                                "div",
                                vec!["h-usage-example"],
                                None,
                                // A translation but no original sentence: the
                                // example is dropped, not defaulted.
                                vec![N::E(
                                    "span",
                                    vec!["e-translation"],
                                    None,
                                    vec![N::T("I have a cat")],
                                )],
                            )],
                        ),
                    ],
                )],
            ),
            heading("h4", "Anagrams"),
        ],
    )]);
    let w = wiktionary_extract(&doc, "chat").unwrap();
    assert_eq!(w.meanings.len(), 1);
    assert!(w.meanings[0].examples.is_empty());
}

#[test]
fn long_parenthetical_dropped_during_extraction() {
    let doc = doc_of(vec![N::E(
        "div",
        vec!["mw-parser-output"],
        None,
        vec![
            heading("h2", "French"),
            heading("h3", "Noun"),
            N::E(
                "ol",
                vec![],
                None,
                vec![N::E(
                    "li",
                    vec![],
                    None,
                    vec![N::T("cat (a long cross-reference note)\n")],
                )],
            ),
            heading("h4", "Anagrams"),
        ],
    )]);
    let w = wiktionary_extract(&doc, "chat").unwrap();
    assert_eq!(w.meanings[0].meaning, "cat");
}

#[test]
fn gender_reads_first_abbreviation() {
    let doc = doc_of(vec![N::E(
        "p",
        vec![],
        None,
        vec![N::E("abbr", vec![], None, vec![N::T("f")])],
    )]);
    let sec = vec![0usize];
    assert_eq!(get_gender_from_section(&doc, &sec), Some(NounGender::Feminine));
}

#[test]
fn gender_absent_without_marker() {
    let doc = doc_of(vec![N::E(
        "p",
        vec![],
        None,
        vec![N::E("abbr", vec![], None, vec![N::T("pl")])],
    )]);
    let sec = vec![0usize];
    assert_eq!(get_gender_from_section(&doc, &sec), None);
    let bare = doc_of(vec![N::E("p", vec![], None, vec![N::T("nothing")])]);
    assert_eq!(get_gender_from_section(&bare, &vec![0usize]), None);
}

#[test]
fn pronunciation_needs_both_pieces() {
    let full = doc_of(vec![
        heading("h3", "Pronunciation"),
        N::E(
            "ul",
            vec![],
            None,
            vec![
                N::E("span", vec!["IPA"], None, vec![N::T("/abc/")]),
                N::E("source", vec![], Some("//audio.example/a.ogg"), vec![]),
            ],
        ),
    ]);
    let sec: Vec<usize> = vec![0, 3];
    let pr = get_pr_from_section(&full, &sec).unwrap();
    assert_eq!(pr.ipa, "/abc/");
    assert_eq!(pr.audio_url, "https://audio.example/a.ogg");

    let ipa_only = doc_of(vec![
        heading("h3", "Pronunciation"),
        N::E(
            "ul",
            vec![],
            None,
            vec![N::E("span", vec!["IPA"], None, vec![N::T("/abc/")])],
        ),
    ]);
    assert!(get_pr_from_section(&ipa_only, &vec![0usize, 3]).is_none());
}

#[test]
fn pronunciation_flows_into_record() {
    let doc = doc_of(vec![N::E(
        "div",
        vec!["mw-parser-output"],
        None,
        vec![
            heading("h2", "French"),
            heading("h3", "Pronunciation"),
            N::E(
                "ul",
                vec![],
                None,
                vec![
                    N::E("span", vec!["IPA"], None, vec![N::T("/ʃa/")]),
                    N::E("source", vec![], Some("//up.example/chat.ogg"), vec![]),
                ],
            ),
            heading("h3", "Noun"),
            N::E(
                "ol",
                vec![],
                None,
                vec![N::E("li", vec![], None, vec![N::T("cat\n")])],
            ),
            heading("h4", "Anagrams"),
        ],
    )]);
    let w = wiktionary_extract(&doc, "chat").unwrap();
    let pr = w.pronunciation.unwrap();
    assert_eq!(pr.ipa, "/ʃa/");
    assert_eq!(pr.audio_url, "https://up.example/chat.ogg");
    assert_eq!(w.meanings.len(), 1);
}
