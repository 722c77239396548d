//! The configuration file, and what moji makes of it.

use std::collections::BTreeMap;

use moji::config::{load_from, parse, resolve, Config, ConfigError, FileConfig};
use moji::macos::tis::LayoutTag;
use moji::macos::workspace::BundleId;
use moji::ordered::OrderedMap;
use moji::paths::join;
use serde::de::{Deserialize, Deserializer, Error, MapAccess, Visitor};

const FIELDS: &[&str] = &["cycle", "layouts", "apps"];

struct File(FileConfig);

struct FileVisitor;

impl<'de> Deserialize<'de> for File {
    fn deserialize<D: Deserializer<'de>>(deserializer: D) -> Result<File, D::Error> {
        deserializer.deserialize_struct("FileConfig", FIELDS, FileVisitor)
    }
}

impl<'de> Visitor<'de> for FileVisitor {
    type Value = File;

    fn expecting(&self, formatter: &mut std::fmt::Formatter<'_>) -> std::fmt::Result {
        formatter.write_str("struct FileConfig")
    }

    fn visit_map<A: MapAccess<'de>>(self, mut fields: A) -> Result<File, A::Error> {
        let mut cycle: Option<Vec<String>> = None;
        let mut layouts: Option<BTreeMap<String, String>> = None;
        let mut apps: BTreeMap<String, String> = BTreeMap::new();
        while let Some(field) = fields.next_key::<String>()? {
            match field.as_str() {
                "cycle" => cycle = Some(fields.next_value()?),
                "layouts" => layouts = Some(fields.next_value()?),
                "apps" => apps = fields.next_value()?,
                unknown => return Err(A::Error::unknown_field(unknown, FIELDS)),
            }
        }
        let Some(cycle) = cycle else {
            return Err(A::Error::missing_field("cycle"));
        };
        let Some(layouts) = layouts else {
            return Err(A::Error::missing_field("layouts"));
        };
        Ok(File(FileConfig {
            cycle,
            layouts: ordered(layouts),
            apps: ordered(apps),
        }))
    }
}

fn ordered(table: BTreeMap<String, String>) -> OrderedMap<String, String> {
    let mut ordered = OrderedMap::new();
    for (key, value) in table {
        ordered.insert(key, value);
    }
    ordered
}

fn read(text: &str) -> Result<FileConfig, String> {
    match toml::from_str::<File>(text) {
        Ok(File(file)) => Ok(file),
        Err(error) => Err(error.to_string()),
    }
}

const SAMPLE: &str = r#"
cycle = ["en", "ru"]

[layouts]
en = "English - Universal"
ru = "Russian - Universal"

[apps]
"com.brnbw.Tuna" = "en"
"#;

fn tag(tag: &str) -> LayoutTag {
    LayoutTag(tag.to_string())
}

fn bundle(bundle: &str) -> BundleId {
    BundleId(bundle.to_string())
}

fn parsed(text: &str) -> Config {
    let Ok(config) = parse(read(text), "config.toml") else {
        panic!("the configuration does not parse: {text}");
    };
    config
}

fn rejected(text: &str) -> ConfigError {
    let Err(error) = parse(read(text), "config.toml") else {
        panic!("the configuration parses when it should not: {text}");
    };
    error
}

#[test]
fn the_sample_configuration_parses() {
    let Config {
        cycle,
        layouts,
        apps,
    } = parsed(SAMPLE);

    assert_eq!(cycle, vec![tag("en"), tag("ru")]);
    assert_eq!(
        layouts.get(&tag("en")),
        Some(&"English - Universal".to_string())
    );
    assert_eq!(
        layouts.get(&tag("ru")),
        Some(&"Russian - Universal".to_string())
    );
    assert_eq!(apps.get(&bundle("com.brnbw.Tuna")), Some(&tag("en")));
}

#[test]
fn a_configuration_without_apps_pins_nothing() {
    let Config {
        cycle: _,
        layouts: _,
        apps,
    } = parsed(
        r#"
cycle = ["en", "ru"]

[layouts]
en = "English - Universal"
ru = "Russian - Universal"
"#,
    );

    assert!(apps.is_empty());
}

#[test]
fn an_app_pinned_to_a_tag_no_layout_carries_is_rejected() {
    let error = rejected(
        r#"
cycle = ["en", "ru"]

[layouts]
en = "English - Universal"
ru = "Russian - Universal"

[apps]
"com.brnbw.Tuna" = "de"
"#,
    );

    match error {
        ConfigError::UnknownTag { field, tag, known } => {
            assert_eq!(field, "apps.\"com.brnbw.Tuna\"");
            assert_eq!(tag, LayoutTag("de".to_string()));
            assert_eq!(
                known,
                vec![LayoutTag("en".to_string()), LayoutTag("ru".to_string())]
            );
        }
        ConfigError::NoHome
        | ConfigError::Read { .. }
        | ConfigError::Parse { .. }
        | ConfigError::ShortCycle { .. }
        | ConfigError::RepeatedTag { .. } => panic!("the wrong error: {error:?}"),
    }

    let reported = rejected(
        r#"
cycle = ["en", "ru"]

[layouts]
en = "English - Universal"
ru = "Russian - Universal"

[apps]
"com.brnbw.Tuna" = "de"
"#,
    )
    .to_string();
    assert!(reported.contains("com.brnbw.Tuna"), "{reported}");
    assert!(reported.contains("de"), "{reported}");
    assert!(reported.contains("en, ru"), "{reported}");
}

#[test]
fn a_cycle_entry_no_layout_carries_is_rejected() {
    let error = rejected(
        r#"
cycle = ["en", "de"]

[layouts]
en = "English - Universal"
ru = "Russian - Universal"
"#,
    );

    match error {
        ConfigError::UnknownTag {
            field,
            tag,
            known: _,
        } => {
            assert_eq!(field, "cycle[1]");
            assert_eq!(tag, LayoutTag("de".to_string()));
        }
        ConfigError::NoHome
        | ConfigError::Read { .. }
        | ConfigError::Parse { .. }
        | ConfigError::ShortCycle { .. }
        | ConfigError::RepeatedTag { .. } => panic!("the wrong error: {error:?}"),
    }
}

#[test]
fn an_unknown_field_is_rejected() {
    let error = rejected(
        r#"
cycle = ["en", "ru"]
hold_ms = 80

[layouts]
en = "English - Universal"
ru = "Russian - Universal"
"#,
    );

    let reported = error.to_string();
    match error {
        ConfigError::Parse { path, reason: _ } => {
            assert_eq!(path, "config.toml");
        }
        ConfigError::NoHome
        | ConfigError::Read { .. }
        | ConfigError::UnknownTag { .. }
        | ConfigError::ShortCycle { .. }
        | ConfigError::RepeatedTag { .. } => panic!("the wrong error: {reported}"),
    }
    assert!(reported.contains("hold_ms"), "{reported}");
}

#[test]
fn a_cycle_of_one_entry_is_rejected() {
    let error = rejected(
        r#"
cycle = ["en"]

[layouts]
en = "English - Universal"
ru = "Russian - Universal"
"#,
    );

    match error {
        ConfigError::ShortCycle { length } => assert_eq!(length, 1),
        ConfigError::NoHome
        | ConfigError::Read { .. }
        | ConfigError::Parse { .. }
        | ConfigError::UnknownTag { .. }
        | ConfigError::RepeatedTag { .. } => panic!("the wrong error: {error:?}"),
    }
}

#[test]
fn an_empty_cycle_is_rejected() {
    let error = rejected(
        r#"
cycle = []

[layouts]
en = "English - Universal"
ru = "Russian - Universal"
"#,
    );

    match error {
        ConfigError::ShortCycle { length } => assert_eq!(length, 0),
        ConfigError::NoHome
        | ConfigError::Read { .. }
        | ConfigError::Parse { .. }
        | ConfigError::UnknownTag { .. }
        | ConfigError::RepeatedTag { .. } => panic!("the wrong error: {error:?}"),
    }
}

#[test]
fn a_file_without_layouts_is_rejected() {
    let error = rejected("cycle = [\"en\", \"ru\"]\n");

    match error {
        ConfigError::Parse { path: _, reason: _ } => {}
        ConfigError::NoHome
        | ConfigError::Read { .. }
        | ConfigError::UnknownTag { .. }
        | ConfigError::ShortCycle { .. }
        | ConfigError::RepeatedTag { .. } => panic!("the wrong error: {error:?}"),
    }
}

#[test]
fn the_override_wins_over_the_default_path() {
    let Ok(path) = resolve(
        Some("/tmp/moji/acceptance.toml".to_string()),
        Some("/Users/someone".to_string()),
    ) else {
        panic!("the override does not resolve");
    };

    assert_eq!(path, "/tmp/moji/acceptance.toml");
}

#[test]
fn without_the_override_the_path_sits_under_home() {
    let Ok(path) = resolve(None, Some("/Users/someone".to_string())) else {
        panic!("the default path does not resolve");
    };

    assert_eq!(path, "/Users/someone/.config/moji/config.toml");
}

#[test]
fn without_the_override_and_without_home_there_is_no_path() {
    let Err(error) = resolve(None, None) else {
        panic!("a path resolves out of nothing");
    };

    match error {
        ConfigError::NoHome => {}
        ConfigError::Read { .. }
        | ConfigError::Parse { .. }
        | ConfigError::UnknownTag { .. }
        | ConfigError::ShortCycle { .. }
        | ConfigError::RepeatedTag { .. } => panic!("the wrong error: {error:?}"),
    }
}

#[test]
fn a_file_that_is_not_there_is_reported_with_its_path() {
    let Err(error) = load_from(
        "/nowhere/moji/config.toml",
        Err("No such file or directory (os error 2)".to_string()),
    ) else {
        panic!("a configuration loads from a path that does not exist");
    };

    match error {
        ConfigError::Read { path, reason: _ } => {
            assert_eq!(path, "/nowhere/moji/config.toml");
        }
        ConfigError::NoHome
        | ConfigError::Parse { .. }
        | ConfigError::UnknownTag { .. }
        | ConfigError::ShortCycle { .. }
        | ConfigError::RepeatedTag { .. } => panic!("the wrong error: {error:?}"),
    }
}

#[test]
fn a_tag_that_stands_in_the_cycle_twice_is_rejected() {
    let error = rejected(
        r#"
cycle = ["en", "ru", "en", "ru"]

[layouts]
en = "English - Universal"
ru = "Russian - Universal"
"#,
    );

    assert_eq!(
        error,
        ConfigError::RepeatedTag {
            field: "cycle[2]".to_string(),
            tag: tag("en"),
        }
    );
    assert_eq!(
        error.to_string(),
        "cycle[2] names the layout tag en again: selecting the layout that is already selected \
         is confirmed by no notification"
    );
}

#[test]
fn the_first_unknown_tag_of_the_cycle_comes_before_everything_else() {
    let error = rejected(
        r#"
cycle = ["fr"]

[layouts]
en = "English - Universal"

[apps]
"com.brnbw.Tuna" = "de"
"#,
    );

    assert_eq!(
        error,
        ConfigError::UnknownTag {
            field: "cycle[0]".to_string(),
            tag: tag("fr"),
            known: vec![tag("en")],
        }
    );
    assert_eq!(
        error.to_string(),
        "cycle[0] names the layout tag fr, which [layouts] does not carry; it carries en"
    );
}

#[test]
fn a_file_that_carries_no_layout_at_all_says_so() {
    let error = rejected("cycle = [\"en\", \"ru\"]\n\n[layouts]\n");

    assert_eq!(
        error.to_string(),
        "cycle[0] names the layout tag en, which [layouts] does not carry; it carries nothing"
    );
}

#[test]
fn every_other_error_is_said_in_full() {
    assert_eq!(
        rejected("cycle = []\n\n[layouts]\n").to_string(),
        "cycle carries 0 entries, and toggling needs at least 2: selecting the layout that is \
         already selected is confirmed by no notification"
    );
    assert_eq!(
        ConfigError::NoHome.to_string(),
        "neither MOJI_CONFIG nor HOME is set, so the configuration file cannot be found"
    );
    let unread = ConfigError::Read {
        path: "/etc/moji.toml".to_string(),
        reason: "permission denied".to_string(),
    };
    assert_eq!(
        unread.to_string(),
        "the configuration file /etc/moji.toml could not be read: permission denied"
    );
    let invalid = ConfigError::Parse {
        path: "/etc/moji.toml".to_string(),
        reason: "expected `=`".to_string(),
    };
    assert_eq!(
        invalid.to_string(),
        "the configuration file /etc/moji.toml is not valid: expected `=`"
    );
}

#[test]
fn a_file_that_was_read_is_loaded_as_it_parses() {
    let Ok(config) = load_from("config.toml", Ok(read(SAMPLE))) else {
        panic!("the sample configuration does not load");
    };

    assert_eq!(config, parsed(SAMPLE));
}

#[test]
fn what_the_parser_says_is_handed_on_word_for_word() {
    let config = parse(Err("expected `=`, line 3".to_string()), "config.toml");

    assert_eq!(
        config,
        Err(ConfigError::Parse {
            path: "config.toml".to_string(),
            reason: "expected `=`, line 3".to_string(),
        })
    );
}

#[test]
fn a_copied_configuration_is_the_same_configuration() {
    let config = parsed(SAMPLE);

    assert_eq!(config.clone(), config);
}

#[test]
fn a_home_that_ends_in_a_slash_and_an_empty_one_are_joined_as_paths_are() {
    assert_eq!(
        resolve(None, Some("/Users/someone/".to_string())),
        Ok("/Users/someone/.config/moji/config.toml".to_string())
    );
    assert_eq!(
        resolve(None, Some(String::new())),
        Ok(".config/moji/config.toml".to_string())
    );
    assert_eq!(
        resolve(Some(String::new()), Some("/Users/someone".to_string())),
        Ok(String::new())
    );
}

#[test]
fn an_absolute_name_leads_to_itself() {
    assert_eq!(join("/Users/someone", "/etc/moji"), "/etc/moji");
    assert_eq!(join("/Users/someone", "moji"), "/Users/someone/moji");
}
