//! What the one-shot commands print and pick.

use moji::cli::{
    check, configured_tag, described, list, set_target, status, toggle_target, NoTarget,
};
use moji::config::Config;
use moji::macos::tis::{Layout, LayoutTag};
use moji::macos::workspace::BundleId;
use moji::ordered::OrderedMap;

fn tag(tag: &str) -> LayoutTag {
    LayoutTag(tag.to_string())
}

fn layout(name: &str, id: &str, language: Option<&str>) -> Layout {
    Layout {
        name: name.to_string(),
        id: id.to_string(),
        language: language.map(|language| language.to_string()),
    }
}

fn english() -> Layout {
    layout("English - Universal", "en.id", Some("en"))
}

fn russian() -> Layout {
    layout("Russian - Universal", "ru.id", None)
}

fn resolved() -> OrderedMap<LayoutTag, Layout> {
    let mut resolved = OrderedMap::new();
    resolved.insert(tag("ru"), russian());
    resolved.insert(tag("en"), english());
    resolved
}

fn named() -> OrderedMap<LayoutTag, String> {
    let mut named = OrderedMap::new();
    named.insert(tag("ru"), "Russian - Universal".to_string());
    named.insert(tag("en"), "English - Universal".to_string());
    named
}

fn config() -> Config {
    let mut apps = OrderedMap::new();
    apps.insert(BundleId("com.brnbw.Tuna".to_string()), tag("en"));
    Config {
        cycle: vec![tag("en"), tag("ru")],
        layouts: named(),
        apps,
    }
}

#[test]
fn every_layout_is_listed_with_its_name_id_and_language() {
    assert_eq!(
        list(&vec![english(), russian()]),
        "English - Universal\ten.id\ten\nRussian - Universal\tru.id\t-\n"
    );
    assert_eq!(list(&Vec::new()), "");
}

#[test]
fn the_status_names_the_layout_its_tag_and_the_application() {
    assert_eq!(
        status(
            &english(),
            Some(&tag("en")),
            Some(&BundleId("com.brnbw.Tuna".to_string()))
        ),
        "layout\tEnglish - Universal\nid\ten.id\nlanguage\ten\ntag\ten\nfrontmost\tcom.brnbw.Tuna\n"
    );
    assert_eq!(
        status(&russian(), None, None),
        "layout\tRussian - Universal\nid\tru.id\nlanguage\t-\ntag\t-\nfrontmost\t-\n"
    );
}

#[test]
fn a_checked_configuration_is_printed_in_full() {
    assert_eq!(
        check(&config(), &resolved()),
        "cycle\ten -> ru\nen\tEnglish - Universal\nru\tRussian - Universal\ncom.brnbw.Tuna\ten\n"
    );
}

#[test]
fn the_layouts_are_described_on_one_line() {
    assert_eq!(
        described(&named()),
        "en = English - Universal, ru = Russian - Universal"
    );
    assert_eq!(described(&OrderedMap::new()), "");
}

#[test]
fn a_name_answers_with_the_first_tag_the_configuration_gives_it() {
    let mut named = named();
    named.insert(tag("us"), "English - Universal".to_string());

    assert_eq!(configured_tag(&named, "English - Universal"), Some(tag("en")));
    assert_eq!(configured_tag(&named, "ABC"), None);
}

#[test]
fn set_selects_the_layout_under_the_tag() {
    assert_eq!(set_target(&resolved(), tag("ru")), Ok(russian()));

    let missing = set_target(&resolved(), tag("de"));
    assert_eq!(missing, Err(NoTarget::NoLayout { tag: tag("de") }));
    let Err(missing) = missing else {
        panic!("a tag without a layout has a target");
    };
    assert_eq!(
        missing.to_string(),
        "the configuration carries no layout under this tag"
    );
}

#[test]
fn toggle_selects_the_layout_after_the_selected_one() {
    let cycle = vec![tag("en"), tag("ru")];

    assert_eq!(toggle_target(&cycle, &resolved(), Some(&english())), Ok(russian()));
    assert_eq!(toggle_target(&cycle, &resolved(), Some(&russian())), Ok(english()));
    assert_eq!(
        toggle_target(&cycle, &resolved(), Some(&layout("ABC", "abc", None))),
        Ok(english())
    );
    assert_eq!(toggle_target(&cycle, &resolved(), None), Ok(english()));
}

#[test]
fn toggle_has_no_target_in_an_empty_cycle_or_without_a_layout() {
    let empty = toggle_target(&Vec::new(), &resolved(), None);
    assert_eq!(empty, Err(NoTarget::EmptyCycle));
    let Err(empty) = empty else {
        panic!("an empty cycle has a target");
    };
    assert_eq!(
        empty.to_string(),
        "the configured cycle is empty, so there is nothing to toggle to"
    );

    assert_eq!(
        toggle_target(&vec![tag("de")], &resolved(), None),
        Err(NoTarget::NoLayout { tag: tag("de") })
    );
}
