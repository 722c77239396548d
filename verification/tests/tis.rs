//! The layouts Text Input Sources reports, and how the configured tags find theirs.

use moji::macos::tis::{
    enabled_layouts, resolve, select, source_named, InputSource, Layout, LayoutTag, ResolveError,
    TisError,
};
use moji::ordered::OrderedMap;

fn tag(tag: &str) -> LayoutTag {
    LayoutTag(tag.to_string())
}

fn layout(name: &str, id: &str, language: &str) -> Layout {
    Layout {
        name: name.to_string(),
        id: id.to_string(),
        language: Some(language.to_string()),
    }
}

fn universal() -> Vec<Layout> {
    vec![
        layout(
            "English - Universal",
            "me.tonsky.keyboardlayout.universal.keylayout.English-Universal",
            "en",
        ),
        layout(
            "Russian - Universal",
            "me.tonsky.keyboardlayout.universal.keylayout.Russian-Universal",
            "ru",
        ),
        layout("ABC", "com.apple.keylayout.ABC", "en"),
    ]
}

fn names(pairs: &[(&str, &str)]) -> OrderedMap<LayoutTag, String> {
    let mut names = OrderedMap::new();
    for (key, name) in pairs {
        names.insert(tag(key), (*name).to_string());
    }
    names
}

#[test]
fn every_tag_resolves_to_the_layout_it_names() {
    let layouts = universal();
    let names = names(&[("en", "English - Universal"), ("ru", "Russian - Universal")]);

    let Ok(resolved) = resolve(&names, &layouts) else {
        panic!("the sample configuration does not resolve");
    };

    assert_eq!(resolved.len(), 2);
    assert_eq!(
        resolved.get(&tag("en")).map(|layout| layout.id.clone()),
        Some("me.tonsky.keyboardlayout.universal.keylayout.English-Universal".to_string())
    );
    assert_eq!(
        resolved.get(&tag("ru")),
        Some(&layout(
            "Russian - Universal",
            "me.tonsky.keyboardlayout.universal.keylayout.Russian-Universal",
            "ru",
        ))
    );
}

#[test]
fn every_unresolved_tag_is_reported_with_the_enabled_names() {
    let layouts = universal();
    let names = names(&[
        ("de", "German"),
        ("en", "English - Universal"),
        ("fr", "French"),
    ]);

    let Err(error) = resolve(&names, &layouts) else {
        panic!("a configuration naming German and French resolves");
    };

    assert_eq!(
        error,
        ResolveError::Unresolved {
            missing: vec![
                (tag("de"), "German".to_string()),
                (tag("fr"), "French".to_string()),
            ],
            enabled: vec![
                "English - Universal".to_string(),
                "Russian - Universal".to_string(),
                "ABC".to_string(),
            ],
        }
    );

    let reported = error.to_string();
    assert!(reported.contains("de = German"), "{reported}");
    assert!(reported.contains("fr = French"), "{reported}");
    assert!(reported.contains("Russian - Universal"), "{reported}");
}

#[test]
fn two_tags_naming_one_layout_are_rejected() {
    let layouts = universal();
    let names = names(&[("en", "English - Universal"), ("us", "English - Universal")]);

    let Err(error) = resolve(&names, &layouts) else {
        panic!("two tags naming one layout resolve");
    };

    assert_eq!(
        error,
        ResolveError::Duplicate {
            name: "English - Universal".to_string(),
            tags: vec![tag("en"), tag("us")],
        }
    );
    assert!(error.to_string().contains("English - Universal"));
}

#[test]
fn a_layout_sharing_only_the_language_does_not_satisfy_a_tag() {
    let layouts = vec![layout("ABC", "com.apple.keylayout.ABC", "en")];
    let names = names(&[("en", "English - Universal")]);

    let Err(error) = resolve(&names, &layouts) else {
        panic!("ABC satisfies a tag that names English - Universal");
    };

    assert_eq!(
        error,
        ResolveError::Unresolved {
            missing: vec![(tag("en"), "English - Universal".to_string())],
            enabled: vec!["ABC".to_string()],
        }
    );
}

#[test]
fn an_empty_configuration_resolves_to_nothing() {
    let layouts = universal();
    let names = OrderedMap::new();

    let Ok(resolved) = resolve(&names, &layouts) else {
        panic!("an empty configuration does not resolve");
    };

    assert!(resolved.is_empty());
}

#[test]
fn the_first_shared_name_in_dictionary_order_is_reported() {
    let names = names(&[
        ("a", "Zulu"),
        ("b", "Russian - Universal"),
        ("c", "Zulu"),
        ("d", "Russian - Universal"),
    ]);

    let Err(error) = resolve(&names, &universal()) else {
        panic!("two shared names resolve");
    };

    assert_eq!(
        error,
        ResolveError::Duplicate {
            name: "Russian - Universal".to_string(),
            tags: vec![tag("b"), tag("d")],
        }
    );
    assert_eq!(
        error.to_string(),
        "tags b and d both name the layout Russian - Universal"
    );
}

#[test]
fn unresolved_tags_are_described_in_full() {
    let names = names(&[("de", "German"), ("fr", "French")]);

    let Err(error) = resolve(&names, &universal()) else {
        panic!("a configuration naming German and French resolves");
    };

    assert_eq!(
        error.to_string(),
        "no enabled keyboard layout is named de = German, fr = French; enabled: \
         English - Universal, Russian - Universal, ABC"
    );
}

#[test]
fn the_first_layout_under_a_name_is_the_one_it_resolves_to() {
    let layouts = vec![layout("ABC", "first", "en"), layout("ABC", "second", "en")];
    let names = names(&[("en", "ABC")]);

    let Ok(resolved) = resolve(&names, &layouts) else {
        panic!("ABC does not resolve");
    };

    assert_eq!(resolved.get(&tag("en")), Some(&layout("ABC", "first", "en")));
}

const KEYBOARD: &str = "TISCategoryKeyboardInputSource";

fn source(name: &str, id: &str) -> InputSource {
    InputSource {
        category: Some(KEYBOARD.to_string()),
        enabled: true,
        select_capable: true,
        name: Some(name.to_string()),
        id: Some(id.to_string()),
        languages: vec![Some("en".to_string()), Some("fr".to_string())],
    }
}

#[test]
fn only_enabled_selectable_keyboard_sources_with_a_name_and_an_id_are_layouts() {
    let sources = vec![
        source("ABC", "abc"),
        InputSource {
            category: Some("TISCategoryPaletteInputSource".to_string()),
            ..source("Palette", "palette")
        },
        InputSource {
            category: None,
            ..source("Nameless category", "none")
        },
        InputSource {
            enabled: false,
            ..source("Disabled", "disabled")
        },
        InputSource {
            select_capable: false,
            ..source("Unselectable", "unselectable")
        },
        InputSource {
            name: None,
            ..source("", "nameless")
        },
        InputSource {
            id: None,
            ..source("No id", "")
        },
        InputSource {
            languages: Vec::new(),
            ..source("Silent", "silent")
        },
        InputSource {
            languages: vec![None, Some("en".to_string())],
            ..source("Unreadable language", "unreadable")
        },
    ];

    let layouts = enabled_layouts(&sources, KEYBOARD);

    assert_eq!(
        layouts,
        vec![
            layout("ABC", "abc", "en"),
            Layout {
                name: "Silent".to_string(),
                id: "silent".to_string(),
                language: None,
            },
            Layout {
                name: "Unreadable language".to_string(),
                id: "unreadable".to_string(),
                language: None,
            },
        ]
    );
}

#[test]
fn a_source_is_found_by_its_name_among_the_selectable_ones() {
    let sources = vec![
        InputSource {
            enabled: false,
            ..source("ABC", "disabled")
        },
        source("Russian - Universal", "ru"),
        InputSource {
            id: None,
            ..source("ABC", "")
        },
        source("ABC", "later"),
    ];

    assert_eq!(source_named(&sources, KEYBOARD, "ABC"), Some(2));
    assert_eq!(source_named(&sources, KEYBOARD, "Russian - Universal"), Some(1));
    assert_eq!(source_named(&sources, KEYBOARD, "Klingon - Universal"), None);
}

#[test]
fn selecting_reports_what_text_input_sources_said() {
    let abc = layout("ABC", "abc", "en");

    assert_eq!(select(&abc, Some(0)), Ok(()));

    let refused = select(&abc, Some(-50));
    assert_eq!(
        refused,
        Err(TisError::Refused {
            name: "ABC".to_string(),
            status: -50,
        })
    );
    let Err(refused) = refused else {
        panic!("a refused selection succeeds");
    };
    assert_eq!(refused.to_string(), "selecting ABC failed with OSStatus -50");

    let missing = select(&layout("Klingon - Universal", "invalid.klingon", "tlh"), None);
    assert_eq!(
        missing,
        Err(TisError::NotEnabled {
            name: "Klingon - Universal".to_string()
        })
    );
    let Err(missing) = missing else {
        panic!("a missing layout is selected");
    };
    assert_eq!(
        missing.to_string(),
        "no enabled keyboard layout is named Klingon - Universal"
    );
}

#[test]
fn a_tag_prints_as_itself() {
    assert_eq!(tag("ru").to_string(), "ru");
}
