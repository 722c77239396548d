//! The file that names the layouts, the toggle order and the per-application pins.
//!
//! The file carries localized layout names as plain strings, and matching them against the enabled
//! sources is `tis::resolve`. A tag that the `[layouts]` table does not carry is rejected here, so
//! the barrier never names a layout the daemon cannot select.

use vstd::prelude::*;

use crate::macos::tis::{copies_of, resolved_to, tags, texts, LayoutTag, LayoutView};
use crate::macos::workspace::BundleId;
use crate::ordered::{ascending, carries, keys, lookup, stands_at, OrderedMap};
use crate::paths::{join, joined};
use crate::text::{append_decimal, decimal, list_of, listed, texts_of, Text};

verus! {

/// The fewest entries a cycle can be toggled along.
pub const MINIMUM_CYCLE: usize = 2;

/// The configuration file, field by field.
#[derive(Debug, PartialEq, Eq)]
pub struct FileConfig {
    /// The order the switch key walks.
    pub cycle: Vec<String>,
    /// Every tag with the localized layout name it stands for.
    pub layouts: OrderedMap<String, String>,
    /// The tag each bundle id is pinned to; a file that says nothing pins nothing.
    pub apps: OrderedMap<String, String>,
}

/// Everything moji reads out of the configuration file.
#[derive(Debug, PartialEq, Eq)]
pub struct Config {
    /// The order the switch key and `moji toggle` walk, as tags.
    pub cycle: Vec<LayoutTag>,
    /// Every tag the configuration knows, with the localized layout name it stands for.
    pub layouts: OrderedMap<LayoutTag, String>,
    /// The layout pinned to a bundle id; every other application is remembered instead.
    pub apps: OrderedMap<BundleId, LayoutTag>,
}

impl Clone for Config {
    fn clone(&self) -> (copy: Config)
        ensures
            tags(copy.cycle@) == tags(self.cycle@),
            copy.layouts@ == self.layouts@,
            copy.apps@ == self.apps@,
    {
        Config {
            cycle: copies_of(&self.cycle),
            layouts: self.layouts.clone(),
            apps: self.apps.clone(),
        }
    }
}

/// What can go wrong between the configuration file and a usable [`Config`].
#[derive(Debug, PartialEq, Eq)]
pub enum ConfigError {
    /// Neither the override nor `HOME` says where the file is.
    NoHome,
    /// The file could not be read.
    Read {
        /// The path that was tried.
        path: String,
        /// Why reading it failed.
        reason: String,
    },
    /// The file is not valid TOML, or does not carry the fields moji needs.
    Parse {
        /// The file that was parsed.
        path: String,
        /// What the parser made of it.
        reason: String,
    },
    /// A tag is used somewhere without `[layouts]` giving it a layout.
    UnknownTag {
        /// Where the tag was used, as a path into the file.
        field: String,
        /// The tag that names no layout.
        tag: LayoutTag,
        /// Every tag `[layouts]` does carry, so the file can be fixed.
        known: Vec<LayoutTag>,
    },
    /// The cycle is too short to toggle along.
    ShortCycle {
        /// How many entries the cycle carries.
        length: usize,
    },
    /// A tag stands in the cycle twice.
    RepeatedTag {
        /// Where the tag stands again, as a path into the file.
        field: String,
        /// The tag that stands there again.
        tag: LayoutTag,
    },
}

/// The tags one after another, or that there are none.
pub open spec fn tags_words(known: Seq<Seq<char>>) -> Seq<char> {
    if listed(known, ", "@).len() == 0 {
        "nothing"@
    } else {
        listed(known, ", "@)
    }
}

impl ConfigError {
    /// The error in words.
    pub open spec fn words(self) -> Seq<char> {
        match self {
            ConfigError::NoHome =>
                "neither MOJI_CONFIG nor HOME is set, so the configuration file cannot be found"@,
            ConfigError::Read { path, reason } => "the configuration file "@ + path@
                + " could not be read: "@ + reason@,
            ConfigError::Parse { path, reason } => "the configuration file "@ + path@
                + " is not valid: "@ + reason@,
            ConfigError::UnknownTag { field, tag, known } => field@ + " names the layout tag "@
                + tag@ + ", which [layouts] does not carry; it carries "@ + tags_words(
                tags(known@),
            ),
            ConfigError::ShortCycle { length } => "cycle carries "@ + decimal(length as nat)
                + " entries, and toggling needs at least "@ + decimal(MINIMUM_CYCLE as nat)
                + ": selecting the layout that is already selected is confirmed by no notification"@,
            ConfigError::RepeatedTag { field, tag } => field@ + " names the layout tag "@ + tag@
                + " again: selecting the layout that is already selected is confirmed by no notification"@,
        }
    }

    /// Returns the error in words.
    pub fn to_string(&self) -> (printed: String)
        ensures
            printed@ == self.words(),
    {
        match self {
            ConfigError::NoHome =>
                "neither MOJI_CONFIG nor HOME is set, so the configuration file cannot be found".to_string(),
            ConfigError::Read { path, reason } => {
                let mut printed = "the configuration file ".to_string();
                printed.append(path.as_str());
                printed.append(" could not be read: ");
                printed.append(reason.as_str());
                printed
            },
            ConfigError::Parse { path, reason } => {
                let mut printed = "the configuration file ".to_string();
                printed.append(path.as_str());
                printed.append(" is not valid: ");
                printed.append(reason.as_str());
                printed
            },
            ConfigError::UnknownTag { field, tag, known } => {
                let mut printed = field.clone();
                printed.append(" names the layout tag ");
                printed.append(tag.as_text());
                printed.append(", which [layouts] does not carry; it carries ");
                printed.append(describe(known).as_str());
                printed
            },
            ConfigError::ShortCycle { length } => {
                let mut printed = "cycle carries ".to_string();
                append_decimal(&mut printed, *length as u64);
                printed.append(" entries, and toggling needs at least ");
                append_decimal(&mut printed, MINIMUM_CYCLE as u64);
                printed.append(
                    ": selecting the layout that is already selected is confirmed by no notification",
                );
                printed
            },
            ConfigError::RepeatedTag { field, tag } => {
                let mut printed = field.clone();
                printed.append(" names the layout tag ");
                printed.append(tag.as_text());
                printed.append(
                    " again: selecting the layout that is already selected is confirmed by no notification",
                );
                printed
            },
        }
    }
}

/// Returns the path the configuration is read from, given what the override and `HOME` say.
///
/// # Errors
///
/// Returns [`ConfigError::NoHome`] when `MOJI_CONFIG` is unset and `HOME` is too.
pub fn resolve(configured: Option<String>, home: Option<String>) -> (path: Result<
    String,
    ConfigError,
>)
    ensures
        match path {
            Ok(path) => match (configured, home) {
                (Some(configured), _) => path@ == configured@,
                (None, Some(home)) => path@ == joined(home@, ".config/moji/config.toml"@),
                (None, None) => false,
            },
            Err(error) => configured is None && home is None && error is NoHome,
        },
{
    let Some(configured) = configured else {
        let Some(home) = home else {
            return Err(ConfigError::NoHome);
        };
        return Ok(join(home.as_str(), ".config/moji/config.toml"));
    };
    Ok(configured)
}

/// Whether the tag at `i` is the first that `named` does not carry.
pub open spec fn is_first_unknown(
    used: Seq<Seq<char>>,
    named: Seq<(Seq<char>, Seq<char>)>,
    i: int,
) -> bool {
    &&& 0 <= i < used.len()
    &&& !carries(named, used[i])
    &&& forall|j: int| 0 <= j < i ==> carries(named, #[trigger] used[j])
}

/// Whether `named` carries every one of these tags.
pub open spec fn all_known(used: Seq<Seq<char>>, named: Seq<(Seq<char>, Seq<char>)>) -> bool {
    forall|i: int| 0 <= i < used.len() ==> carries(named, #[trigger] used[i])
}

/// Whether the tag at `i` is the first that stands before it already.
pub open spec fn is_first_repeated(used: Seq<Seq<char>>, i: int) -> bool {
    &&& 0 <= i < used.len()
    &&& used.take(i).no_duplicates()
    &&& used.take(i).contains(used[i])
}

/// The field a cycle entry is reported under.
pub open spec fn cycle_field(i: nat) -> Seq<char> {
    "cycle["@ + decimal(i) + "]"@
}

/// The field a pinned application is reported under.
pub open spec fn app_field(bundle: Seq<char>) -> Seq<char> {
    "apps.\""@ + bundle + "\""@
}

/// The tags a table of pins uses, in its order.
pub open spec fn pins_used(apps: Seq<(Seq<char>, Seq<char>)>) -> Seq<Seq<char>> {
    apps.map_values(|entry: (Seq<char>, Seq<char>)| entry.1)
}

/// Whether a cycle can be walked: every tag has a layout, there are at least two, and no tag
/// stands twice.
pub open spec fn walkable(cycle: Seq<Seq<char>>, named: Seq<(Seq<char>, Seq<char>)>) -> bool {
    &&& all_known(cycle, named)
    &&& cycle.len() >= MINIMUM_CYCLE
    &&& cycle.no_duplicates()
}

/// Whether an error is what a file is rejected with: the first tag of the cycle without a layout,
/// then a cycle that is too short, then the first tag that stands in it again, and then the first
/// pin without a layout.
pub open spec fn rejected_with(
    cycle: Seq<Seq<char>>,
    named: Seq<(Seq<char>, Seq<char>)>,
    apps: Seq<(Seq<char>, Seq<char>)>,
    error: ConfigError,
) -> bool {
    match error {
        ConfigError::UnknownTag { field, tag, known } => {
            &&& tags(known@) == keys(named)
            &&& if all_known(cycle, named) {
                walkable(cycle, named) && exists|i: int| #[trigger]
                    is_first_unknown(pins_used(apps), named, i) && field@ == app_field(apps[i].0)
                        && tag@ == apps[i].1
            } else {
                exists|i: int| #[trigger]
                    is_first_unknown(cycle, named, i) && field@ == cycle_field(i as nat) && tag@
                        == cycle[i]
            }
        },
        ConfigError::ShortCycle { length } => all_known(cycle, named) && cycle.len()
            < MINIMUM_CYCLE && length == cycle.len(),
        ConfigError::RepeatedTag { field, tag } => all_known(cycle, named) && cycle.len()
            >= MINIMUM_CYCLE && exists|i: int| #[trigger]
            is_first_repeated(cycle, i) && field@ == cycle_field(i as nat) && tag@ == cycle[i],
        _ => false,
    }
}

/// Whether this is the configuration a file stands for, or the error it is turned down with, given
/// what the parser made of it.
pub open spec fn stands_for(
    parsed: Result<FileConfig, String>,
    path: Seq<char>,
    config: Result<Config, ConfigError>,
) -> bool {
    match parsed {
        Err(reason) => config matches Err(ConfigError::Parse { path: at, reason: said }) && at@
            == path && said@ == reason@,
        Ok(file) => match config {
            Ok(config) => {
                &&& walkable(texts(file.cycle@), file.layouts@)
                &&& all_known(pins_used(file.apps@), file.layouts@)
                &&& tags(config.cycle@) == texts(file.cycle@)
                &&& config.layouts@ == file.layouts@
                &&& config.apps@ == file.apps@
            },
            Err(error) => rejected_with(texts(file.cycle@), file.layouts@, file.apps@, error),
        },
    }
}

/// Returns the configuration a file stands for, given what the parser made of it.
///
/// # Errors
///
/// Returns [`ConfigError::Parse`] when the file is not the TOML moji expects, and
/// [`ConfigError::UnknownTag`], [`ConfigError::ShortCycle`] or [`ConfigError::RepeatedTag`] when it
/// parses but says something moji cannot act on.
pub fn parse(parsed: Result<FileConfig, String>, path: &str) -> (config: Result<
    Config,
    ConfigError,
>)
    ensures
        stands_for(parsed, path@, config),
{
    let file = match parsed {
        Ok(file) => file,
        Err(reason) => {
            return Err(ConfigError::Parse { path: path.to_string(), reason });
        },
    };
    let named = named_layouts(&file.layouts);
    let cycle = ordered_cycle(&file.cycle, &named)?;
    let pinned = pinned_apps(&file.apps, &named)?;
    Ok(Config { cycle, layouts: named, apps: pinned })
}

/// Returns the configuration the file at `path` stands for, given what reading it and then parsing
/// it came to.
///
/// # Errors
///
/// Returns [`ConfigError::Read`] when the file could not be read, and whatever [`parse`] reports.
pub fn load_from(path: &str, read: Result<Result<FileConfig, String>, String>) -> (config: Result<
    Config,
    ConfigError,
>)
    ensures
        match read {
            Err(reason) => config matches Err(ConfigError::Read { path: at, reason: said }) && at@
                == path@ && said@ == reason@,
            Ok(parsed) => stands_for(parsed, path@, config),
        },
{
    match read {
        Ok(parsed) => parse(parsed, path),
        Err(reason) => Err(ConfigError::Read { path: path.to_string(), reason }),
    }
}

fn named_layouts(layouts: &OrderedMap<String, String>) -> (named: OrderedMap<LayoutTag, String>)
    ensures
        named@ == layouts@,
{
    let mut named: OrderedMap<LayoutTag, String> = OrderedMap::new();
    let len: usize = layouts.len();
    let mut index: usize = 0;
    while index < len
        invariant
            len == layouts@.len(),
            index <= len,
            ascending(layouts@),
            named@ == layouts@.take(index as int),
        decreases len - index,
    {
        named.push(LayoutTag(layouts.key_at(index).clone()), layouts.value_at(index).clone());
        index += 1;
        assert(named@ =~= layouts@.take(index as int));
    }
    assert(layouts@.take(len as int) =~= layouts@);
    named
}

fn ordered_cycle(cycle: &Vec<String>, named: &OrderedMap<LayoutTag, String>) -> (order: Result<
    Vec<LayoutTag>,
    ConfigError,
>)
    ensures
        match order {
            Ok(order) => walkable(texts(cycle@), named@) && tags(order@) == texts(cycle@),
            Err(error) => !walkable(texts(cycle@), named@) && forall|apps: Seq<
                (Seq<char>, Seq<char>),
            >| #[trigger] rejected_with(texts(cycle@), named@, apps, error),
        },
{
    let ghost used = texts(cycle@);
    let mut order: Vec<LayoutTag> = Vec::new();
    let len: usize = cycle.len();
    let mut index: usize = 0;
    while index < len
        invariant
            len == cycle@.len(),
            index <= len,
            used == texts(cycle@),
            tags(order@) == used.take(index as int),
            forall|j: int| 0 <= j < index ==> carries(named@, #[trigger] used[j]),
        decreases len - index,
    {
        let tag = LayoutTag(cycle[index].clone());
        assert(used[index as int] == tag@);
        if !named.contains_key(&tag) {
            assert(is_first_unknown(used, named@, index as int));
            return Err(
                ConfigError::UnknownTag {
                    field: cycle_path(index),
                    tag,
                    known: every_tag(named),
                },
            );
        }
        let ghost so_far = order@;
        order.push(tag);
        assert(tags(order@) =~= tags(so_far).push(tag@));
        index += 1;
        assert(tags(order@) =~= used.take(index as int));
    }
    assert(used.take(len as int) =~= used);
    if order.len() < MINIMUM_CYCLE {
        return Err(ConfigError::ShortCycle { length: order.len() });
    }
    if let Some(again) = first_repeated(&order) {
        return Err(
            ConfigError::RepeatedTag { field: cycle_path(again), tag: order[again].clone() },
        );
    }
    Ok(order)
}

fn first_repeated(order: &Vec<LayoutTag>) -> (again: Option<usize>)
    ensures
        match again {
            Some(again) => is_first_repeated(tags(order@), again as int),
            None => tags(order@).no_duplicates(),
        },
{
    let ghost used = tags(order@);
    let len: usize = order.len();
    let mut index: usize = 0;
    while index < len
        invariant
            len == order@.len(),
            index <= len,
            used == tags(order@),
            used.take(index as int).no_duplicates(),
        decreases len - index,
    {
        let mut earlier: usize = 0;
        while earlier < index
            invariant
                earlier <= index < len,
                len == order@.len(),
                used == tags(order@),
                used.take(index as int).no_duplicates(),
                forall|j: int| 0 <= j < earlier ==> #[trigger] used[j] != used[index as int],
            decreases index - earlier,
        {
            if order[earlier].same(&order[index]) {
                assert(used.take(index as int)[earlier as int] == used[index as int]);
                return Some(index);
            }
            earlier += 1;
        }
        proof {
            let head = used.take(index as int);
            let longer = used.take(index + 1);
            assert forall|i: int, j: int|
                0 <= i < longer.len() && 0 <= j < longer.len() && i != j implies longer[i]
                != longer[j] by {
                if i < index && j < index {
                    assert(head[i] == longer[i] && head[j] == longer[j]);
                } else if i < index {
                    assert(used[i] != used[index as int]);
                } else {
                    assert(used[j] != used[index as int]);
                }
            }
        }
        index += 1;
    }
    assert(used.take(len as int) =~= used);
    None
}

fn pinned_apps(apps: &OrderedMap<String, String>, named: &OrderedMap<LayoutTag, String>) -> (pinned:
    Result<OrderedMap<BundleId, LayoutTag>, ConfigError>)
    ensures
        match pinned {
            Ok(pinned) => all_known(pins_used(apps@), named@) && pinned@ == apps@,
            Err(error) => forall|cycle: Seq<Seq<char>>|
                walkable(cycle, named@) ==> #[trigger] rejected_with(cycle, named@, apps@, error),
        },
{
    let ghost used = pins_used(apps@);
    let mut pinned: OrderedMap<BundleId, LayoutTag> = OrderedMap::new();
    let len: usize = apps.len();
    let mut index: usize = 0;
    while index < len
        invariant
            len == apps@.len(),
            index <= len,
            ascending(apps@),
            used == pins_used(apps@),
            pinned@ == apps@.take(index as int),
            forall|j: int| 0 <= j < index ==> carries(named@, #[trigger] used[j]),
        decreases len - index,
    {
        let bundle = apps.key_at(index);
        let tag = LayoutTag(apps.value_at(index).clone());
        assert(used[index as int] == tag@);
        if !named.contains_key(&tag) {
            assert(is_first_unknown(used, named@, index as int));
            return Err(
                ConfigError::UnknownTag {
                    field: app_path(bundle.as_str()),
                    tag,
                    known: every_tag(named),
                },
            );
        }
        pinned.push(BundleId(bundle.clone()), tag);
        index += 1;
        assert(pinned@ =~= apps@.take(index as int));
    }
    assert(apps@.take(len as int) =~= apps@);
    Ok(pinned)
}

fn cycle_path(index: usize) -> (field: String)
    ensures
        field@ == cycle_field(index as nat),
{
    let mut field = "cycle[".to_string();
    append_decimal(&mut field, index as u64);
    field.append("]");
    field
}

fn app_path(bundle: &str) -> (field: String)
    ensures
        field@ == app_field(bundle@),
{
    let mut field = "apps.\"".to_string();
    field.append(bundle);
    field.append("\"");
    field
}

fn every_tag(layouts: &OrderedMap<LayoutTag, String>) -> (known: Vec<LayoutTag>)
    ensures
        tags(known@) == keys(layouts@),
{
    let mut known: Vec<LayoutTag> = Vec::new();
    let len: usize = layouts.len();
    let mut index: usize = 0;
    while index < len
        invariant
            len == layouts@.len(),
            index <= len,
            tags(known@) == keys(layouts@).take(index as int),
        decreases len - index,
    {
        let tag = layouts.key_at(index).clone();
        let ghost so_far = known@;
        known.push(tag);
        assert(tags(known@) =~= tags(so_far).push(tag@));
        index += 1;
        assert(tags(known@) =~= keys(layouts@).take(index as int));
    }
    assert(keys(layouts@).take(len as int) =~= keys(layouts@));
    known
}

fn describe(known: &Vec<LayoutTag>) -> (described: String)
    ensures
        described@ == tags_words(tags(known@)),
{
    let list = list_of(known, ", ");
    assert(texts_of(known@) =~= tags(known@));
    if list.as_str().is_empty() {
        return "nothing".to_string();
    }
    list
}

/// A file moji can act on is never rejected, and a rejected one is never one moji can act on.
pub proof fn no_usable_file_is_rejected(
    cycle: Seq<Seq<char>>,
    named: Seq<(Seq<char>, Seq<char>)>,
    apps: Seq<(Seq<char>, Seq<char>)>,
    error: ConfigError,
)
    requires
        rejected_with(cycle, named, apps, error),
    ensures
        !(walkable(cycle, named) && all_known(pins_used(apps), named)),
{
    if let ConfigError::RepeatedTag { field, tag } = error {
        let i = choose|i: int| #[trigger]
            is_first_repeated(cycle, i) && field@ == cycle_field(i as nat) && tag@ == cycle[i];
        let j = choose|j: int| 0 <= j < cycle.take(i).len() && cycle.take(i)[j] == cycle[i];
        assert(cycle[j] == cycle[i] && j != i);
    }
}

/// Once a configuration resolved, every tag its cycle walks and every tag it pins has a layout to
/// select, so the barrier and the memory never name one the daemon cannot select.
pub proof fn every_configured_tag_has_a_layout_to_select(
    used: Seq<Seq<char>>,
    named: Seq<(Seq<char>, Seq<char>)>,
    layouts: Seq<LayoutView>,
    tag: Seq<char>,
)
    requires
        all_known(used, named),
        used.contains(tag),
    ensures
        lookup(resolved_to(named, layouts), tag) is Some,
{
    let i = choose|i: int| 0 <= i < used.len() && used[i] == tag;
    assert(carries(named, used[i]));
    let j = choose|j: int| stands_at(named, tag, j);
    assert(stands_at(resolved_to(named, layouts), tag, j));
}

/// A configuration that was accepted is the file word for word: the same cycle, the same layouts
/// and the same pins. Its cycle has at least two entries, none of them twice, and every tag the
/// cycle walks or an application is pinned to has a layout.
pub proof fn an_accepted_configuration_is_the_file_word_for_word(
    file: FileConfig,
    path: Seq<char>,
    config: Config,
)
    requires
        stands_for(Ok(file), path, Ok(config)),
    ensures
        config.cycle@.len() == file.cycle@.len(),
        config.cycle@.len() >= 2,
        forall|i: int|
            0 <= i < config.cycle@.len() ==> (#[trigger] config.cycle@[i]).0@ == file.cycle@[i]@,
        forall|i: int, j: int|
            0 <= i < j < file.cycle@.len() ==> (#[trigger] file.cycle@[i])@ != (
            #[trigger] file.cycle@[j])@,
        config.layouts@ == file.layouts@,
        config.apps@ == file.apps@,
        forall|i: int|
            0 <= i < file.cycle@.len() ==> lookup(
                file.layouts@,
                (#[trigger] file.cycle@[i])@,
            ) is Some,
        forall|i: int|
            0 <= i < file.apps@.len() ==> lookup(
                file.layouts@,
                (#[trigger] file.apps@[i]).1,
            ) is Some,
{
    let cycle = texts(file.cycle@);
    assert(tags(config.cycle@).len() == cycle.len());
    assert forall|i: int| 0 <= i < config.cycle@.len() implies (
    #[trigger] config.cycle@[i]).0@ == file.cycle@[i]@ by {
        assert(tags(config.cycle@)[i] == cycle[i]);
    }
    assert forall|i: int, j: int| 0 <= i < j < file.cycle@.len() implies (
    #[trigger] file.cycle@[i])@ != (#[trigger] file.cycle@[j])@ by {
        assert(cycle[i] != cycle[j]);
    }
    assert forall|i: int| 0 <= i < file.cycle@.len() implies lookup(
        file.layouts@,
        (#[trigger] file.cycle@[i])@,
    ) is Some by {
        assert(carries(file.layouts@, cycle[i]));
    }
    assert forall|i: int| 0 <= i < file.apps@.len() implies lookup(
        file.layouts@,
        (#[trigger] file.apps@[i]).1,
    ) is Some by {
        assert(carries(file.layouts@, pins_used(file.apps@)[i]));
    }
}

/// A file is accepted wherever its cycle has at least two entries, none of them twice, and every
/// tag the cycle walks or an application is pinned to has a layout.
pub proof fn a_file_moji_can_act_on_is_accepted(
    file: FileConfig,
    path: Seq<char>,
    config: Result<Config, ConfigError>,
)
    requires
        stands_for(Ok(file), path, config),
        file.cycle@.len() >= 2,
        forall|i: int, j: int|
            0 <= i < j < file.cycle@.len() ==> (#[trigger] file.cycle@[i])@ != (
            #[trigger] file.cycle@[j])@,
        forall|i: int|
            0 <= i < file.cycle@.len() ==> lookup(
                file.layouts@,
                (#[trigger] file.cycle@[i])@,
            ) is Some,
        forall|i: int|
            0 <= i < file.apps@.len() ==> lookup(
                file.layouts@,
                (#[trigger] file.apps@[i]).1,
            ) is Some,
    ensures
        config is Ok,
{
    let cycle = texts(file.cycle@);
    let used = pins_used(file.apps@);
    assert forall|i: int| 0 <= i < cycle.len() implies carries(
        file.layouts@,
        #[trigger] cycle[i],
    ) by {
        assert(lookup(file.layouts@, file.cycle@[i]@) is Some);
    }
    assert forall|i: int| 0 <= i < used.len() implies carries(
        file.layouts@,
        #[trigger] used[i],
    ) by {
        assert(lookup(file.layouts@, file.apps@[i].1) is Some);
    }
    assert forall|i: int, j: int|
        0 <= i < cycle.len() && 0 <= j < cycle.len() && i != j implies cycle[i] != cycle[j] by {
        if i < j {
            assert(file.cycle@[i]@ != file.cycle@[j]@);
        } else {
            assert(file.cycle@[j]@ != file.cycle@[i]@);
        }
    }
    if let Err(error) = config {
        no_usable_file_is_rejected(cycle, file.layouts@, file.apps@, error);
    }
}

/// Whether a table carries something under a tag.
spec fn is_named(layouts: Seq<(Seq<char>, Seq<char>)>, tag: Seq<char>) -> bool {
    exists|k: int| 0 <= k < layouts.len() && (#[trigger] layouts[k]).0 == tag
}

proof fn lemma_a_carried_tag_is_named(layouts: Seq<(Seq<char>, Seq<char>)>, tag: Seq<char>)
    ensures
        carries(layouts, tag) <==> is_named(layouts, tag),
{
    if carries(layouts, tag) {
        let k = choose|k: int| stands_at(layouts, tag, k);
        assert(layouts[k].0 == tag);
    }
    if is_named(layouts, tag) {
        let k = choose|k: int| 0 <= k < layouts.len() && (#[trigger] layouts[k]).0 == tag;
        assert(stands_at(layouts, tag, k));
    }
}

/// A tag that is reported as unknown has no layout, and the tags that do are all named with it. It
/// is the first such tag of the cycle, under its place there; where the cycle has none, it is the
/// first among the pins, under its application.
pub proof fn an_unknown_tag_is_reported_where_it_stands(
    file: FileConfig,
    path: Seq<char>,
    field: String,
    tag: LayoutTag,
    known: Vec<LayoutTag>,
)
    requires
        stands_for(
            Ok(file),
            path,
            Err(ConfigError::UnknownTag { field, tag, known }),
        ),
    ensures
        forall|k: int|
            0 <= k < file.layouts@.len() ==> (#[trigger] file.layouts@[k]).0 != tag.0@,
        known@.len() == file.layouts@.len(),
        forall|k: int|
            0 <= k < known@.len() ==> (#[trigger] known@[k]).0@ == file.layouts@[k].0,
        (exists|i: int|
            0 <= i < file.cycle@.len() && (#[trigger] file.cycle@[i])@ == tag.0@ && field@
                == "cycle["@ + decimal(i as nat) + "]"@) || (exists|i: int|
            0 <= i < file.apps@.len() && (#[trigger] file.apps@[i]).1 == tag.0@ && field@
                == "apps.\""@ + file.apps@[i].0 + "\""@),
{
    let cycle = texts(file.cycle@);
    let named = file.layouts@;
    lemma_a_carried_tag_is_named(named, tag@);
    assert(tags(known@).len() == keys(named).len());
    assert forall|k: int| 0 <= k < known@.len() implies (#[trigger] known@[k]).0@
        == file.layouts@[k].0 by {
        assert(tags(known@)[k] == keys(named)[k]);
    }
    if all_known(cycle, named) {
        let i = choose|i: int| #[trigger]
            is_first_unknown(pins_used(file.apps@), named, i) && field@ == app_field(
                file.apps@[i].0,
            ) && tag@ == file.apps@[i].1;
        assert(file.apps@[i].1 == tag.0@);
    } else {
        let i = choose|i: int| #[trigger]
            is_first_unknown(cycle, named, i) && field@ == cycle_field(i as nat) && tag@
                == cycle[i];
        assert(file.cycle@[i]@ == tag.0@);
    }
}

/// A cycle is reported as too short with the entries it has, which are fewer than two, and a tag is
/// reported as repeated where it stands again.
pub proof fn a_cycle_is_rejected_for_what_it_is(
    file: FileConfig,
    path: Seq<char>,
    error: ConfigError,
)
    requires
        stands_for(Ok(file), path, Err(error)),
    ensures
        error is UnknownTag || error is ShortCycle || error is RepeatedTag,
        error matches ConfigError::ShortCycle { length } ==> length == file.cycle@.len() && length
            < 2,
        error matches ConfigError::RepeatedTag { field, tag } ==> exists|i: int, j: int|
            0 <= j < i < file.cycle@.len() && (#[trigger] file.cycle@[i])@ == tag.0@ && (
            #[trigger] file.cycle@[j])@ == tag.0@ && field@ == "cycle["@ + decimal(i as nat)
                + "]"@,
{
    let cycle = texts(file.cycle@);
    if let ConfigError::RepeatedTag { field, tag } = error {
        let i = choose|i: int| #[trigger]
            is_first_repeated(cycle, i) && field@ == cycle_field(i as nat) && tag@ == cycle[i];
        let j = choose|j: int| 0 <= j < cycle.take(i).len() && cycle.take(i)[j] == cycle[i];
        assert(file.cycle@[i]@ == tag.0@);
        assert(cycle[j] == file.cycle@[j]@);
        assert(file.cycle@[j]@ == tag.0@);
    }
}

/// What is wrong with a file is told in the order it is read: an unknown tag of the cycle before a
/// cycle that is too short, that one before a repeated tag, and all of them before an unknown tag of
/// a pin. Nothing that stands before what is reported is wrong.
pub proof fn the_first_thing_wrong_is_reported(
    file: FileConfig,
    path: Seq<char>,
    error: ConfigError,
)
    requires
        stands_for(Ok(file), path, Err(error)),
    ensures
        ({
            let cycle = texts(file.cycle@);
            let cycle_known = forall|i: int|
                0 <= i < cycle.len() ==> lookup(file.layouts@, #[trigger] cycle[i]) is Some;
            &&& !cycle_known ==> error is UnknownTag
            &&& cycle_known && cycle.len() < 2 ==> error is ShortCycle
            &&& cycle_known && cycle.len() >= 2 && !cycle.no_duplicates() ==> error is RepeatedTag
            &&& cycle_known && cycle.len() >= 2 && cycle.no_duplicates() ==> error is UnknownTag
            &&& error matches ConfigError::UnknownTag { field, tag, known } ==> {
                ||| exists|i: int|
                    0 <= i < cycle.len() && #[trigger] cycle[i] == tag.0@ && field@ == "cycle["@
                        + decimal(i as nat) + "]"@ && forall|j: int|
                        0 <= j < i ==> lookup(file.layouts@, #[trigger] cycle[j]) is Some
                ||| cycle_known && exists|i: int|
                    0 <= i < file.apps@.len() && (#[trigger] file.apps@[i]).1 == tag.0@ && field@
                        == "apps.\""@ + file.apps@[i].0 + "\""@ && forall|j: int|
                        0 <= j < i ==> lookup(file.layouts@, (#[trigger] file.apps@[j]).1) is Some
            }
            &&& error matches ConfigError::RepeatedTag { field, tag } ==> exists|i: int|
                0 <= i < cycle.len() && #[trigger] cycle[i] == tag.0@ && cycle.take(
                    i,
                ).no_duplicates() && field@ == "cycle["@ + decimal(i as nat) + "]"@
        }),
{
    let cycle = texts(file.cycle@);
    let named = file.layouts@;
    assert forall|tag: Seq<char>| #[trigger] lookup(named, tag) is Some <==> carries(
        named,
        tag,
    ) by {}
    if cycle.no_duplicates() {
        if let ConfigError::RepeatedTag { field, tag } = error {
            let i = choose|i: int| #[trigger]
                is_first_repeated(cycle, i) && field@ == cycle_field(i as nat) && tag@ == cycle[i];
            let j = choose|j: int| 0 <= j < cycle.take(i).len() && cycle.take(i)[j] == cycle[i];
            assert(cycle[j] == cycle[i] && j != i);
        }
    }
    if let ConfigError::RepeatedTag { field, tag } = error {
        let i = choose|i: int| #[trigger]
            is_first_repeated(cycle, i) && field@ == cycle_field(i as nat) && tag@ == cycle[i];
        assert(cycle[i] == tag.0@);
    }
    if let ConfigError::UnknownTag { field, tag, known } = error {
        if all_known(cycle, named) {
            let i = choose|i: int| #[trigger]
                is_first_unknown(pins_used(file.apps@), named, i) && field@ == app_field(
                    file.apps@[i].0,
                ) && tag@ == file.apps@[i].1;
            assert(file.apps@[i].1 == tag.0@);
            assert forall|j: int| 0 <= j < i implies lookup(
                file.layouts@,
                (#[trigger] file.apps@[j]).1,
            ) is Some by {
                assert(carries(named, pins_used(file.apps@)[j]));
            }
        } else {
            let i = choose|i: int| #[trigger]
                is_first_unknown(cycle, named, i) && field@ == cycle_field(i as nat) && tag@
                    == cycle[i];
            assert(cycle[i] == tag.0@);
        }
    }
}

/// A file the parser turned down is turned down with its path and the parser's own words.
pub proof fn a_file_that_does_not_parse_is_turned_down_as_the_parser_says(
    reason: String,
    path: Seq<char>,
    config: Result<Config, ConfigError>,
)
    requires
        stands_for(Err(reason), path, config),
    ensures
        config matches Err(ConfigError::Parse { path: at, reason: said }) && at@ == path && said@
            == reason@,
{
}

/// An error names the field and the tag it is about, and for an unknown tag every tag there is, or
/// that there is none.
pub proof fn an_error_names_the_field_and_the_tag(
    field: String,
    tag: LayoutTag,
    known: Vec<LayoutTag>,
)
    ensures
        ({
            let list = listed(tags(known@), ", "@);
            (ConfigError::UnknownTag { field, tag, known }).words() == field@
                + " names the layout tag "@ + tag.0@
                + ", which [layouts] does not carry; it carries "@ + if list.len() == 0 {
                "nothing"@
            } else {
                list
            }
        }),
        (ConfigError::RepeatedTag { field, tag }).words() == field@ + " names the layout tag "@
            + tag.0@
            + " again: selecting the layout that is already selected is confirmed by no notification"@,
{
}

/// An error about the file names its path and why, and one about the cycle how many entries it has.
pub proof fn an_error_names_the_file_and_the_reason(path: String, reason: String, length: usize)
    ensures
        (ConfigError::Read { path, reason }).words() == "the configuration file "@ + path@
            + " could not be read: "@ + reason@,
        (ConfigError::Parse { path, reason }).words() == "the configuration file "@ + path@
            + " is not valid: "@ + reason@,
        (ConfigError::ShortCycle { length }).words() == "cycle carries "@ + decimal(length as nat)
            + " entries, and toggling needs at least "@ + decimal(2)
            + ": selecting the layout that is already selected is confirmed by no notification"@,
{
}

} // verus!
