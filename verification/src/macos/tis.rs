//! The keyboard layouts Text Input Sources reports, and how the configured tags find theirs.
//!
//! A layout is found by its localized name and by nothing else: the same layout reports two
//! different ids depending on which process asks, and two layouts may share a language.

use vstd::prelude::*;

use crate::ordered::OrderedMap;
use crate::text::{
    append_item, append_signed, appended, before, lemma_before_is_irreflexive,
    lemma_before_is_transitive, lemma_listed_push, list_of, listed, signed_decimal, standing,
    texts_of, Duplicate, Standing, Text,
};

verus! {

/// The short name the configuration gives a layout.
#[derive(Debug, PartialEq, Eq, PartialOrd, Ord, Hash)]
pub struct LayoutTag(pub String);

impl View for LayoutTag {
    type V = Seq<char>;

    open spec fn view(&self) -> Seq<char> {
        self.0@
    }
}

impl Text for LayoutTag {
    open spec fn text(&self) -> Seq<char> {
        self@
    }

    fn as_text(&self) -> (text: &str) {
        self.0.as_str()
    }

    fn copied_key(&self) -> (copy: LayoutTag) {
        self.clone()
    }
}

impl Duplicate for LayoutTag {
    fn duplicate(&self) -> (copy: LayoutTag) {
        self.clone()
    }
}

impl Clone for LayoutTag {
    fn clone(&self) -> (copy: LayoutTag)
        ensures
            copy == *self,
    {
        LayoutTag(self.0.clone())
    }
}

impl LayoutTag {
    /// Returns the tag as it is printed, which is the text it carries.
    pub fn to_string(&self) -> (printed: String)
        ensures
            printed@ == self@,
    {
        self.0.clone()
    }

    /// Returns whether the two spell the same.
    pub fn same(&self, other: &LayoutTag) -> (same: bool)
        ensures
            same <==> self@ == other@,
    {
        self.0 == other.0
    }
}

/// The texts of a sequence of tags.
pub open spec fn tags(sequence: Seq<LayoutTag>) -> Seq<Seq<char>> {
    sequence.map_values(|tag: LayoutTag| tag@)
}

/// Returns the same tags once more, in the same order.
pub fn copies_of(sequence: &Vec<LayoutTag>) -> (copies: Vec<LayoutTag>)
    ensures
        tags(copies@) == tags(sequence@),
{
    let mut copies: Vec<LayoutTag> = Vec::new();
    let len: usize = sequence.len();
    let mut index: usize = 0;
    while index < len
        invariant
            len == sequence@.len(),
            index <= len,
            copies@ == sequence@.take(index as int),
        decreases len - index,
    {
        copies.push(sequence[index].clone());
        index += 1;
        assert(copies@ =~= sequence@.take(index as int));
    }
    assert(copies@ =~= sequence@);
    copies
}

/// An enabled, selectable keyboard layout as Text Input Sources describes it.
#[derive(Debug, PartialEq, Eq)]
pub struct Layout {
    /// The localized name, which is what the configuration matches on.
    pub name: String,
    /// The input source ID, printed by `moji list` and never matched on.
    pub id: String,
    /// The first language the source declares, if it declares any.
    pub language: Option<String>,
}

/// A layout as plain text.
#[verifier::ext_equal]
pub struct LayoutView {
    /// The localized name.
    pub name: Seq<char>,
    /// The input source ID.
    pub id: Seq<char>,
    /// The first language, if there is any.
    pub language: Option<Seq<char>>,
}

/// The text an optional string carries.
pub open spec fn text_of(text: Option<String>) -> Option<Seq<char>> {
    match text {
        Some(text) => Some(text@),
        None => None,
    }
}

impl View for Layout {
    type V = LayoutView;

    open spec fn view(&self) -> LayoutView {
        LayoutView { name: self.name@, id: self.id@, language: text_of(self.language) }
    }
}

impl Clone for Layout {
    fn clone(&self) -> (copy: Layout)
        ensures
            copy == *self,
    {
        let language = match &self.language {
            Some(language) => Some(language.clone()),
            None => None,
        };
        Layout { name: self.name.clone(), id: self.id.clone(), language }
    }
}

impl Duplicate for Layout {
    fn duplicate(&self) -> (copy: Layout) {
        self.clone()
    }
}

/// What a sequence of layouts looks like.
pub open spec fn shown(layouts: Seq<Layout>) -> Seq<LayoutView> {
    layouts.map_values(|layout: Layout| layout@)
}

/// What can go wrong when selecting a layout.
#[derive(Debug, PartialEq, Eq)]
pub enum TisError {
    /// No enabled keyboard layout carries the requested name.
    NotEnabled {
        /// The localized name that was looked for.
        name: String,
    },
    /// Text Input Sources refused the selection.
    Refused {
        /// The localized name of the layout that was requested.
        name: String,
        /// The status the refused selection came back with.
        status: i32,
    },
}

impl TisError {
    /// The error in words.
    pub open spec fn words(self) -> Seq<char> {
        match self {
            TisError::NotEnabled { name } => "no enabled keyboard layout is named "@ + name@,
            TisError::Refused { name, status } => "selecting "@ + name@
                + " failed with OSStatus "@ + signed_decimal(status as int),
        }
    }

    /// Returns the error in words.
    pub fn to_string(&self) -> (printed: String)
        ensures
            printed@ == self.words(),
    {
        match self {
            TisError::NotEnabled { name } => {
                let mut printed = "no enabled keyboard layout is named ".to_string();
                printed.append(name.as_str());
                printed
            },
            TisError::Refused { name, status } => {
                let mut printed = "selecting ".to_string();
                printed.append(name.as_str());
                printed.append(" failed with OSStatus ");
                append_signed(&mut printed, *status);
                printed
            },
        }
    }
}

/// One input source, with what Text Input Sources says about it.
#[derive(Debug, PartialEq, Eq)]
pub struct InputSource {
    /// The category it belongs to, if it says.
    pub category: Option<String>,
    /// Whether it is enabled.
    pub enabled: bool,
    /// Whether it can be selected.
    pub select_capable: bool,
    /// The localized name, if it has one.
    pub name: Option<String>,
    /// The input source ID, if it has one.
    pub id: Option<String>,
    /// The languages it declares, each as text where it is text.
    pub languages: Vec<Option<String>>,
}

impl InputSource {
    /// Whether it is a keyboard layout that is enabled and can be selected.
    pub open spec fn selectable(self, keyboard: Seq<char>) -> bool {
        &&& text_of(self.category) == Some(keyboard)
        &&& self.enabled
        &&& self.select_capable
    }

    /// The layout it describes, where it carries both a name and an ID.
    pub open spec fn described(self) -> Option<LayoutView> {
        match (self.name, self.id) {
            (Some(name), Some(id)) => Some(
                LayoutView {
                    name: name@,
                    id: id@,
                    language: if self.languages@.len() == 0 {
                        None
                    } else {
                        text_of(self.languages@[0])
                    },
                },
            ),
            _ => None,
        }
    }

    /// Returns whether this is a keyboard layout that is enabled and can be selected, where
    /// `keyboard` names the category of keyboard input sources.
    pub fn is_selectable_keyboard_layout(&self, keyboard: &str) -> (selectable: bool)
        ensures
            selectable <==> self.selectable(keyboard@),
    {
        let Some(category) = &self.category else {
            return false;
        };
        let Standing::Same = standing(category.as_str(), keyboard) else {
            return false;
        };
        if !self.enabled {
            return false;
        }
        self.select_capable
    }

    /// Returns the layout this input source describes, unless it lacks a name or an ID.
    pub fn layout(&self) -> (layout: Option<Layout>)
        ensures
            match layout {
                Some(layout) => self.described() == Some(layout@),
                None => self.described() is None,
            },
    {
        let Some(name) = &self.name else {
            return None;
        };
        let Some(id) = &self.id else {
            return None;
        };
        Some(Layout { name: name.clone(), id: id.clone(), language: self.language() })
    }

    fn language(&self) -> (language: Option<String>)
        ensures
            text_of(language) == if self.languages@.len() == 0 {
                None
            } else {
                text_of(self.languages@[0])
            },
    {
        if self.languages.len() == 0 {
            return None;
        }
        match &self.languages[0] {
            Some(language) => Some(language.clone()),
            None => None,
        }
    }
}

/// Whether an input source is one of the layouts moji works with.
pub open spec fn is_layout(keyboard: Seq<char>) -> spec_fn(InputSource) -> bool {
    |source: InputSource| source.selectable(keyboard) && source.described() is Some
}

/// The layouts that are enabled and can be selected, in the order of their input sources.
pub open spec fn enabled_among(sources: Seq<InputSource>, keyboard: Seq<char>) -> Seq<LayoutView> {
    sources.filter(is_layout(keyboard)).map_values(
        |source: InputSource| source.described()->0,
    )
}

proof fn lemma_filter_grows<A>(items: Seq<A>, keep: spec_fn(A) -> bool, i: int)
    requires
        0 <= i < items.len(),
    ensures
        items.take(i + 1).filter(keep) == if keep(items[i]) {
            items.take(i).filter(keep).push(items[i])
        } else {
            items.take(i).filter(keep)
        },
{
    reveal(Seq::filter);
    assert(items.take(i + 1).drop_last() =~= items.take(i));
}

/// Returns every keyboard layout that is enabled and can be selected.
pub fn enabled_layouts(sources: &Vec<InputSource>, keyboard: &str) -> (layouts: Vec<Layout>)
    ensures
        shown(layouts@) == enabled_among(sources@, keyboard@),
{
    let ghost keep = is_layout(keyboard@);
    let mut layouts: Vec<Layout> = Vec::new();
    let len: usize = sources.len();
    let mut index: usize = 0;
    assert(sources@.take(0).filter(keep) =~= Seq::empty()) by {
        reveal(Seq::filter);
    }
    while index < len
        invariant
            len == sources@.len(),
            index <= len,
            keep == is_layout(keyboard@),
            shown(layouts@) == sources@.take(index as int).filter(keep).map_values(
                |source: InputSource| source.described()->0,
            ),
        decreases len - index,
    {
        let source = &sources[index];
        proof {
            lemma_filter_grows(sources@, keep, index as int);
        }
        index += 1;
        if !source.is_selectable_keyboard_layout(keyboard) {
            continue;
        }
        let Some(layout) = source.layout() else {
            continue;
        };
        let ghost so_far = layouts@;
        layouts.push(layout);
        assert(shown(layouts@) =~= shown(so_far).push(layout@));
        assert(shown(layouts@) =~= sources@.take(index as int).filter(keep).map_values(
            |source: InputSource| source.described()->0,
        ));
    }
    assert(sources@.take(len as int) =~= sources@);
    layouts
}

/// Whether the source at `i` is the first selectable one under this name.
pub open spec fn is_source_named(
    sources: Seq<InputSource>,
    keyboard: Seq<char>,
    name: Seq<char>,
    i: int,
) -> bool {
    &&& 0 <= i < sources.len()
    &&& sources[i].selectable(keyboard)
    &&& text_of(sources[i].name) == Some(name)
    &&& forall|j: int|
        0 <= j < i ==> !(#[trigger] sources[j].selectable(keyboard) && text_of(sources[j].name)
            == Some(name))
}

/// Returns where the first selectable source under this name stands.
pub fn source_named(sources: &Vec<InputSource>, keyboard: &str, name: &str) -> (found: Option<
    usize,
>)
    ensures
        match found {
            Some(found) => is_source_named(sources@, keyboard@, name@, found as int),
            None => forall|i: int|
                0 <= i < sources@.len() ==> !(#[trigger] sources@[i].selectable(keyboard@)
                    && text_of(sources@[i].name) == Some(name@)),
        },
{
    let len: usize = sources.len();
    let mut index: usize = 0;
    while index < len
        invariant
            len == sources@.len(),
            index <= len,
            forall|j: int|
                0 <= j < index ==> !(#[trigger] sources@[j].selectable(keyboard@) && text_of(
                    sources@[j].name,
                ) == Some(name@)),
        decreases len - index,
    {
        let source = &sources[index];
        if source.is_selectable_keyboard_layout(keyboard) {
            if let Some(candidate) = &source.name {
                if let Standing::Same = standing(candidate.as_str(), name) {
                    return Some(index);
                }
            }
        }
        index += 1;
    }
    None
}

/// Returns how selecting a layout went, given the status the selection of the input source under
/// its name came back with, or that there is no such source.
///
/// # Errors
///
/// Returns [`TisError::NotEnabled`] when no enabled layout carries the name, and
/// [`TisError::Refused`] when the selection came back with a non-zero status.
pub fn select(layout: &Layout, status: Option<i32>) -> (selected: Result<(), TisError>)
    ensures
        match selected {
            Ok(()) => status == Some(0i32),
            Err(TisError::NotEnabled { name }) => status is None && name@ == layout.name@,
            Err(TisError::Refused { name, status: refused }) => status == Some(refused) && refused
                != 0 && name@ == layout.name@,
        },
{
    let Some(status) = status else {
        return Err(TisError::NotEnabled { name: layout.name.clone() });
    };
    if status != 0 {
        return Err(TisError::Refused { name: layout.name.clone(), status });
    }
    Ok(())
}

/// What can go wrong when matching configured tags against the enabled layouts.
#[derive(Debug, PartialEq, Eq)]
pub enum ResolveError {
    /// At least one tag names a layout that is not enabled.
    Unresolved {
        /// Every tag that found no layout, with the name it asked for.
        missing: Vec<(LayoutTag, String)>,
        /// The localized names that are enabled, so the configuration can be fixed.
        enabled: Vec<String>,
    },
    /// Several tags name the same layout, which would make the cycle ambiguous.
    Duplicate {
        /// The localized name several tags share.
        name: String,
        /// The tags that share it.
        tags: Vec<LayoutTag>,
    },
}

/// The texts of pairs of a tag and a name.
pub open spec fn pairs(missing: Seq<(LayoutTag, String)>) -> Seq<(Seq<char>, Seq<char>)> {
    missing.map_values(|pair: (LayoutTag, String)| (pair.0@, pair.1@))
}

/// The texts of a sequence of strings.
pub open spec fn texts(strings: Seq<String>) -> Seq<Seq<char>> {
    strings.map_values(|string: String| string@)
}

/// The error that names every tag without a layout, in words.
pub open spec fn unresolved_words(
    missing: Seq<(Seq<char>, Seq<char>)>,
    enabled: Seq<Seq<char>>,
) -> Seq<char> {
    "no enabled keyboard layout is named "@ + listed(asked_for(missing), ", "@) + "; enabled: "@
        + listed(enabled, ", "@)
}

/// Each tag with the name it asks for.
pub open spec fn asked_for(missing: Seq<(Seq<char>, Seq<char>)>) -> Seq<Seq<char>> {
    missing.map_values(|pair: (Seq<char>, Seq<char>)| pair.0 + " = "@ + pair.1)
}

/// The error that names the tags that share a layout, in words.
pub open spec fn duplicate_words(name: Seq<char>, sharing: Seq<Seq<char>>) -> Seq<char> {
    "tags "@ + listed(sharing, " and "@) + " both name the layout "@ + name
}

impl ResolveError {
    /// The error in words.
    pub open spec fn words(self) -> Seq<char> {
        match self {
            ResolveError::Unresolved { missing, enabled } => unresolved_words(
                pairs(missing@),
                texts(enabled@),
            ),
            ResolveError::Duplicate { name, tags: sharing } => duplicate_words(
                name@,
                tags(sharing@),
            ),
        }
    }

    /// Returns the error in words.
    pub fn to_string(&self) -> (printed: String)
        ensures
            printed@ == self.words(),
    {
        match self {
            ResolveError::Unresolved { missing, enabled } => describe_unresolved(missing, enabled),
            ResolveError::Duplicate { name, tags } => describe_duplicate(name.as_str(), tags),
        }
    }
}

fn describe_unresolved(missing: &Vec<(LayoutTag, String)>, enabled: &Vec<String>) -> (described:
    String)
    ensures
        described@ == unresolved_words(pairs(missing@), texts(enabled@)),
{
    let ghost asked_items = asked_for(pairs(missing@));
    let mut asked = String::new();
    let len: usize = missing.len();
    let mut index: usize = 0;
    assert(asked_items.take(0) =~= Seq::empty());
    while index < len
        invariant
            len == missing@.len(),
            index <= len,
            asked_items == asked_for(pairs(missing@)),
            asked@ == listed(asked_items.take(index as int), ", "@),
        decreases len - index,
    {
        let mut item = missing[index].0.to_string();
        item.append(" = ");
        item.append(missing[index].1.as_str());
        append_item(&mut asked, ", ", item.as_str());
        proof {
            assert(asked_items[index as int] == item@);
            lemma_listed_push(asked_items.take(index as int), ", "@, item@);
            assert(asked_items.take(index + 1) =~= asked_items.take(index as int).push(item@));
        }
        index += 1;
    }
    assert(asked_items.take(len as int) =~= asked_items);

    let available = list_of(enabled, ", ");
    assert(texts_of(enabled@) =~= texts(enabled@));
    let mut described = "no enabled keyboard layout is named ".to_string();
    described.append(asked.as_str());
    described.append("; enabled: ");
    described.append(available.as_str());
    described
}

fn describe_duplicate(name: &str, sharing: &Vec<LayoutTag>) -> (described: String)
    ensures
        described@ == duplicate_words(name@, tags(sharing@)),
{
    let list = list_of(sharing, " and ");
    assert(texts_of(sharing@) =~= tags(sharing@));
    let mut described = "tags ".to_string();
    described.append(list.as_str());
    described.append(" both name the layout ");
    described.append(name);
    described
}

/// Whether the layout at `i` is the first under this name.
pub open spec fn is_layout_named(layouts: Seq<LayoutView>, name: Seq<char>, i: int) -> bool {
    &&& 0 <= i < layouts.len()
    &&& layouts[i].name == name
    &&& forall|j: int| 0 <= j < i ==> (#[trigger] layouts[j]).name != name
}

/// The first layout under this name, if there is one.
pub open spec fn layout_under(layouts: Seq<LayoutView>, name: Seq<char>) -> Option<LayoutView> {
    if exists|i: int| is_layout_named(layouts, name, i) {
        Some(layouts[choose|i: int| is_layout_named(layouts, name, i)])
    } else {
        None
    }
}

fn layout_named(layouts: &Vec<Layout>, name: &str) -> (found: Option<Layout>)
    ensures
        match found {
            Some(found) => layout_under(shown(layouts@), name@) == Some(found@),
            None => layout_under(shown(layouts@), name@) is None,
        },
{
    let ghost all = shown(layouts@);
    let len: usize = layouts.len();
    let mut index: usize = 0;
    while index < len
        invariant
            len == layouts@.len(),
            index <= len,
            all == shown(layouts@),
            forall|j: int| 0 <= j < index ==> (#[trigger] all[j]).name != name@,
        decreases len - index,
    {
        assert(all[index as int] == layouts@[index as int]@);
        if let Standing::Same = standing(layouts[index].name.as_str(), name) {
            proof {
                assert(is_layout_named(all, name@, index as int));
                let found = choose|i: int| is_layout_named(all, name@, i);
                assert(found == index);
            }
            return Some(layouts[index].clone());
        }
        index += 1;
    }
    None
}

/// Whether an entry of a table names this layout.
pub open spec fn names_layout(name: Seq<char>) -> spec_fn((Seq<char>, Seq<char>)) -> bool {
    |entry: (Seq<char>, Seq<char>)| entry.1 == name
}

/// The tags that name this layout, in the order of the table.
pub open spec fn tags_naming(names: Seq<(Seq<char>, Seq<char>)>, name: Seq<char>) -> Seq<Seq<char>> {
    names.filter(names_layout(name)).map_values(|entry: (Seq<char>, Seq<char>)| entry.0)
}

/// Whether several tags name this layout.
pub open spec fn is_shared(names: Seq<(Seq<char>, Seq<char>)>, name: Seq<char>) -> bool {
    tags_naming(names, name).len() > 1
}

/// Whether this is the first of all shared names in dictionary order.
pub open spec fn is_first_shared(names: Seq<(Seq<char>, Seq<char>)>, name: Seq<char>) -> bool {
    &&& is_shared(names, name)
    &&& forall|other: Seq<char>| #[trigger] is_shared(names, other) ==> !before(other, name)
}

/// Whether an entry of a table names a layout that is not among these.
pub open spec fn names_nothing(layouts: Seq<LayoutView>) -> spec_fn((Seq<char>, Seq<char>)) -> bool {
    |entry: (Seq<char>, Seq<char>)| layout_under(layouts, entry.1) is None
}

/// The entries whose layout is not among these, in the order of the table.
pub open spec fn missing_from(
    names: Seq<(Seq<char>, Seq<char>)>,
    layouts: Seq<LayoutView>,
) -> Seq<(Seq<char>, Seq<char>)> {
    names.filter(names_nothing(layouts))
}

/// Every tag with the layout it names.
pub open spec fn resolved_to(
    names: Seq<(Seq<char>, Seq<char>)>,
    layouts: Seq<LayoutView>,
) -> Seq<(Seq<char>, LayoutView)> {
    names.map_values(
        |entry: (Seq<char>, Seq<char>)| (entry.0, layout_under(layouts, entry.1)->0),
    )
}

/// The names of a sequence of layouts.
pub open spec fn names_of(layouts: Seq<LayoutView>) -> Seq<Seq<char>> {
    layouts.map_values(|layout: LayoutView| layout.name)
}

fn tags_sharing(names: &OrderedMap<LayoutTag, String>, name: &str) -> (sharing: Vec<LayoutTag>)
    ensures
        tags(sharing@) == tags_naming(names@, name@),
{
    let ghost keep = names_layout(name@);
    let mut sharing: Vec<LayoutTag> = Vec::new();
    let len: usize = names.len();
    let mut index: usize = 0;
    assert(names@.take(0).filter(keep) =~= Seq::empty()) by {
        reveal(Seq::filter);
    }
    while index < len
        invariant
            len == names@.len(),
            index <= len,
            keep == names_layout(name@),
            tags(sharing@) == names@.take(index as int).filter(keep).map_values(
                |entry: (Seq<char>, Seq<char>)| entry.0,
            ),
        decreases len - index,
    {
        proof {
            lemma_filter_grows(names@, keep, index as int);
        }
        if let Standing::Same = standing(names.value_at(index).as_str(), name) {
            let tag = names.key_at(index).clone();
            let ghost so_far = sharing@;
            sharing.push(tag);
            assert(tags(sharing@) =~= tags(so_far).push(tag@));
        }
        index += 1;
        assert(tags(sharing@) =~= names@.take(index as int).filter(keep).map_values(
            |entry: (Seq<char>, Seq<char>)| entry.0,
        ));
    }
    assert(names@.take(len as int) =~= names@);
    sharing
}

proof fn lemma_a_shared_name_stands_somewhere(
    names: Seq<(Seq<char>, Seq<char>)>,
    name: Seq<char>,
)
    requires
        is_shared(names, name),
    ensures
        exists|i: int| 0 <= i < names.len() && (#[trigger] names[i]).1 == name,
{
    let kept = names.filter(names_layout(name));
    names.lemma_filter_contains_rev(names_layout(name), kept[0]);
}

/// Two entries that name one layout share it.
pub proof fn lemma_two_entries_share(names: Seq<(Seq<char>, Seq<char>)>, i: int, j: int)
    requires
        0 <= i < names.len(),
        0 <= j < names.len(),
        i != j,
        names[i].1 == names[j].1,
    ensures
        is_shared(names, names[i].1),
    decreases i,
{
    if j < i {
        lemma_two_entries_share(names, j, i);
    } else {
        let keep = names_layout(names[i].1);
        let head = names.take(j);
        assert(head[i] == names[i]);
        head.lemma_filter_contains(keep, i);
        assert(head.filter(keep).len() > 0);
        lemma_filter_grows(names, keep, j);
        assert(names =~= names.take(j + 1) + names.skip(j + 1));
        Seq::filter_distributes_over_add(names.take(j + 1), names.skip(j + 1), keep);
    }
}

fn first_shared(names: &OrderedMap<LayoutTag, String>) -> (shared: Option<String>)
    ensures
        match shared {
            Some(shared) => is_first_shared(names@, shared@),
            None => forall|name: Seq<char>| !is_shared(names@, name),
        },
{
    let mut shared: Option<String> = None;
    let len: usize = names.len();
    let mut index: usize = 0;
    while index < len
        invariant
            len == names@.len(),
            index <= len,
            shared matches Some(name) ==> is_shared(names@, name@),
            forall|j: int|
                0 <= j < index && is_shared(names@, (#[trigger] names@[j]).1) ==> shared is Some
                    && !before(names@[j].1, shared->0@),
        decreases len - index,
    {
        let name = names.value_at(index);
        let sharing = tags_sharing(names, name.as_str());
        if sharing.len() > 1 {
            let first = match &shared {
                None => true,
                Some(so_far) => match standing(name.as_str(), so_far.as_str()) {
                    Standing::Before => true,
                    Standing::Same => false,
                    Standing::After => false,
                },
            };
            assert(is_shared(names@, name@));
            if first {
                proof {
                    lemma_before_is_irreflexive(name@);
                    assert forall|j: int|
                        0 <= j < index && is_shared(names@, (#[trigger] names@[j]).1) implies !before(
                        names@[j].1,
                        name@,
                    ) by {
                        if before(names@[j].1, name@) {
                            lemma_before_is_transitive(names@[j].1, name@, shared->0@);
                        }
                    }
                }
                shared = Some(name.clone());
            }
        }
        index += 1;
    }
    proof {
        assert forall|other: Seq<char>| #[trigger] is_shared(names@, other) implies shared is Some
            && !before(other, shared->0@) by {
            lemma_a_shared_name_stands_somewhere(names@, other);
        }
    }
    shared
}

/// Matches every configured tag against the enabled layouts by localized name.
///
/// # Errors
///
/// Returns [`ResolveError::Duplicate`] when several tags name one layout, and
/// [`ResolveError::Unresolved`] naming every tag whose layout is not enabled.
pub fn resolve(names: &OrderedMap<LayoutTag, String>, layouts: &Vec<Layout>) -> (resolved: Result<
    OrderedMap<LayoutTag, Layout>,
    ResolveError,
>)
    ensures
        match resolved {
            Ok(resolved) => {
                &&& forall|name: Seq<char>| !is_shared(names@, name)
                &&& missing_from(names@, shown(layouts@)).len() == 0
                &&& resolved@ == resolved_to(names@, shown(layouts@))
            },
            Err(ResolveError::Duplicate { name, tags: sharing }) => {
                &&& is_first_shared(names@, name@)
                &&& tags(sharing@) == tags_naming(names@, name@)
            },
            Err(ResolveError::Unresolved { missing, enabled }) => {
                &&& forall|name: Seq<char>| !is_shared(names@, name)
                &&& missing@.len() > 0
                &&& pairs(missing@) == missing_from(names@, shown(layouts@))
                &&& texts(enabled@) == names_of(shown(layouts@))
            },
        },
{
    if let Some(name) = first_shared(names) {
        let sharing = tags_sharing(names, name.as_str());
        return Err(ResolveError::Duplicate { name, tags: sharing });
    }

    let ghost all = shown(layouts@);
    let ghost keep = names_nothing(all);
    let mut resolved: OrderedMap<LayoutTag, Layout> = OrderedMap::new();
    let mut missing: Vec<(LayoutTag, String)> = Vec::new();
    let len: usize = names.len();
    let mut index: usize = 0;
    assert(names@.take(0).filter(keep) =~= Seq::empty()) by {
        reveal(Seq::filter);
    }
    while index < len
        invariant
            len == names@.len(),
            index <= len,
            all == shown(layouts@),
            keep == names_nothing(all),
            crate::ordered::ascending(names@),
            pairs(missing@) == names@.take(index as int).filter(keep),
            missing@.len() == 0 ==> resolved@ == resolved_to(names@, all).take(index as int),
            resolved@.len() > 0 ==> exists|i: int|
                0 <= i < index && (#[trigger] names@[i]).0 == resolved@.last().0,
        decreases len - index,
    {
        proof {
            lemma_filter_grows(names@, keep, index as int);
        }
        let tag = names.key_at(index);
        let name = names.value_at(index);
        match layout_named(layouts, name.as_str()) {
            None => {
                missing.push((tag.clone(), name.clone()));
            },
            Some(layout) => {
                resolved.push(tag.clone(), layout);
                assert(resolved@.last().0 == names@[index as int].0);
            },
        }
        index += 1;
        assert(pairs(missing@) =~= names@.take(index as int).filter(keep));
        assert(missing@.len() == 0 ==> resolved@ =~= resolved_to(names@, all).take(index as int));
    }
    assert(names@.take(len as int) =~= names@);
    assert(resolved_to(names@, all).take(len as int) =~= resolved_to(names@, all));

    if missing.len() > 0 {
        return Err(ResolveError::Unresolved { missing, enabled: enabled_names(layouts) });
    }
    Ok(resolved)
}

fn enabled_names(layouts: &Vec<Layout>) -> (names: Vec<String>)
    ensures
        texts(names@) == names_of(shown(layouts@)),
{
    let mut names: Vec<String> = Vec::new();
    let len: usize = layouts.len();
    let mut index: usize = 0;
    while index < len
        invariant
            len == layouts@.len(),
            index <= len,
            texts(names@) == names_of(shown(layouts@)).take(index as int),
        decreases len - index,
    {
        let ghost so_far = names@;
        let name = layouts[index].name.clone();
        names.push(name);
        assert(texts(names@) =~= texts(so_far).push(name@));
        index += 1;
        assert(texts(names@) =~= names_of(shown(layouts@)).take(index as int));
    }
    names
}

proof fn lemma_a_name_is_found(layouts: Seq<LayoutView>, name: Seq<char>, i: int)
    requires
        0 <= i < layouts.len(),
        layouts[i].name == name,
    ensures
        layout_under(layouts, name) is Some,
    decreases i,
{
    if exists|j: int| 0 <= j < i && (#[trigger] layouts[j]).name == name {
        let j = choose|j: int| 0 <= j < i && (#[trigger] layouts[j]).name == name;
        lemma_a_name_is_found(layouts, name, j);
    } else {
        assert(is_layout_named(layouts, name, i));
    }
}

/// A layout is found exactly where one under the name is there, and what is found carries it.
pub proof fn a_layout_is_found_by_its_name(layouts: Seq<LayoutView>, name: Seq<char>)
    ensures
        layout_under(layouts, name) is Some <==> names_of(layouts).contains(name),
        layout_under(layouts, name) matches Some(found) ==> found.name == name
            && layouts.contains(found),
{
    let named = names_of(layouts);
    if named.contains(name) {
        let i = choose|i: int| 0 <= i < named.len() && named[i] == name;
        lemma_a_name_is_found(layouts, name, i);
    }
    if layout_under(layouts, name) is Some {
        let i = choose|i: int| is_layout_named(layouts, name, i);
        assert(named[i] == name);
    }
}

/// Nothing but the names of the enabled layouts decides which tags resolve: not their ids, and not
/// their languages.
pub proof fn only_the_names_of_the_layouts_count(
    names: Seq<(Seq<char>, Seq<char>)>,
    layouts: Seq<LayoutView>,
    others: Seq<LayoutView>,
)
    requires
        names_of(layouts) == names_of(others),
    ensures
        missing_from(names, layouts) == missing_from(names, others),
{
    assert forall|entry: (Seq<char>, Seq<char>)| #[trigger]
        names_nothing(layouts)(entry) == names_nothing(others)(entry) by {
        a_layout_is_found_by_its_name(layouts, entry.1);
        a_layout_is_found_by_its_name(others, entry.1);
    }
    assert(names_nothing(layouts) =~= names_nothing(others));
}

/// Where every tag resolves, each of them stands for an enabled layout under the very name the
/// configuration gives it, and no tag is lost or added.
pub proof fn every_resolved_tag_carries_the_layout_it_names(
    names: Seq<(Seq<char>, Seq<char>)>,
    layouts: Seq<LayoutView>,
    i: int,
)
    requires
        missing_from(names, layouts).len() == 0,
        0 <= i < names.len(),
    ensures
        resolved_to(names, layouts).len() == names.len(),
        resolved_to(names, layouts)[i].0 == names[i].0,
        resolved_to(names, layouts)[i].1.name == names[i].1,
        layouts.contains(resolved_to(names, layouts)[i].1),
{
    if layout_under(layouts, names[i].1) is None {
        names.lemma_filter_contains(names_nothing(layouts), i);
    }
    a_layout_is_found_by_its_name(layouts, names[i].1);
}

proof fn lemma_a_source_is_found(
    sources: Seq<InputSource>,
    keyboard: Seq<char>,
    name: Seq<char>,
    i: int,
)
    requires
        0 <= i < sources.len(),
        sources[i].selectable(keyboard),
        text_of(sources[i].name) == Some(name),
    ensures
        exists|found: int| is_source_named(sources, keyboard, name, found),
    decreases i,
{
    if exists|j: int|
        0 <= j < i && #[trigger] sources[j].selectable(keyboard) && text_of(sources[j].name) == Some(
            name,
        ) {
        let j = choose|j: int|
            0 <= j < i && #[trigger] sources[j].selectable(keyboard) && text_of(sources[j].name)
                == Some(name);
        lemma_a_source_is_found(sources, keyboard, name, j);
    } else {
        assert(is_source_named(sources, keyboard, name, i));
    }
}

/// Every layout that is listed as enabled has an input source that is found by its name again.
pub proof fn every_enabled_layout_is_found_again(
    sources: Seq<InputSource>,
    keyboard: Seq<char>,
    i: int,
)
    requires
        0 <= i < enabled_among(sources, keyboard).len(),
    ensures
        exists|found: int| #[trigger]
            is_source_named(sources, keyboard, enabled_among(sources, keyboard)[i].name, found),
{
    let keep = is_layout(keyboard);
    let kept = sources.filter(keep);
    let source = kept[i];
    assert(kept.contains(source));
    sources.lemma_filter_contains_rev(keep, source);
    lemma_filter_keeps(sources, keep, i);
    let at = choose|at: int| 0 <= at < sources.len() && sources[at] == source;
    lemma_a_source_is_found(sources, keyboard, enabled_among(sources, keyboard)[i].name, at);
}

proof fn lemma_filter_keeps<A>(items: Seq<A>, keep: spec_fn(A) -> bool, i: int)
    requires
        0 <= i < items.filter(keep).len(),
    ensures
        keep(items.filter(keep)[i]),
    decreases items.len(),
{
    reveal(Seq::filter);
    if items.len() > 0 {
        let shorter = items.drop_last();
        if i < shorter.filter(keep).len() {
            lemma_filter_keeps(shorter, keep, i);
        }
    }
}

/// One more input source adds one more layout, behind all the others, exactly where it is an
/// enabled keyboard layout that can be selected and carries both a name and an ID; no other source
/// adds or takes away anything.
pub proof fn every_usable_source_is_one_layout(
    sources: Seq<InputSource>,
    source: InputSource,
    keyboard: Seq<char>,
)
    ensures
        enabled_among(Seq::empty(), keyboard).len() == 0,
        ({
            let usable = source.enabled && source.select_capable && source.name is Some
                && source.id is Some && (source.category matches Some(category) && category@
                == keyboard);
            enabled_among(sources.push(source), keyboard) == if usable {
                enabled_among(sources, keyboard).push(
                    LayoutView {
                        name: source.name->0@,
                        id: source.id->0@,
                        language: if source.languages@.len() > 0 && source.languages@[0] is Some {
                            Some(source.languages@[0]->0@)
                        } else {
                            None
                        },
                    },
                )
            } else {
                enabled_among(sources, keyboard)
            }
        }),
{
    reveal(Seq::filter);
    let keep = is_layout(keyboard);
    assert(Seq::<InputSource>::empty().filter(keep) =~= Seq::empty());
    assert(sources.push(source).drop_last() =~= sources);
    let kept = sources.filter(keep);
    if keep(source) {
        assert(sources.push(source).filter(keep) == kept.push(source));
        assert(enabled_among(sources.push(source), keyboard) =~= enabled_among(
            sources,
            keyboard,
        ).push(source.described()->0));
    }
}

/// The source a layout is selected through is the first enabled and selectable keyboard source that
/// carries its name; nothing else about the source counts.
pub proof fn a_layout_is_selected_through_the_first_source_of_its_name(
    sources: Seq<InputSource>,
    keyboard: Seq<char>,
    name: Seq<char>,
    i: int,
)
    ensures
        forall|source: InputSource| #[trigger]
            source.selectable(keyboard) <==> source.enabled && source.select_capable && (
            source.category matches Some(category) && category@ == keyboard),
        is_source_named(sources, keyboard, name, i) <==> {
            &&& 0 <= i < sources.len()
            &&& sources[i].selectable(keyboard)
            &&& sources[i].name matches Some(own) && own@ == name
            &&& forall|j: int|
                0 <= j < i && #[trigger] sources[j].selectable(keyboard) ==> !(
                sources[j].name matches Some(own) && own@ == name)
        },
{
}

/// The layout a name stands for is the first one that carries it.
pub proof fn a_name_stands_for_the_first_layout_that_carries_it(
    layouts: Seq<LayoutView>,
    name: Seq<char>,
    i: int,
)
    requires
        0 <= i < layouts.len(),
        layouts[i].name == name,
        forall|j: int| 0 <= j < i ==> (#[trigger] layouts[j]).name != name,
    ensures
        layout_under(layouts, name) == Some(layouts[i]),
{
    assert(is_layout_named(layouts, name, i));
    let found = choose|found: int| is_layout_named(layouts, name, found);
    assert(is_layout_named(layouts, name, found));
    assert(found == i);
}

/// A name no layout carries stands for none.
pub proof fn a_name_no_layout_carries_stands_for_none(layouts: Seq<LayoutView>, name: Seq<char>)
    requires
        forall|i: int| 0 <= i < layouts.len() ==> (#[trigger] layouts[i]).name != name,
    ensures
        layout_under(layouts, name) is None,
{
}

/// A layout is shared exactly where two different entries name it.
pub proof fn a_layout_is_shared_where_two_entries_name_it(
    names: Seq<(Seq<char>, Seq<char>)>,
    name: Seq<char>,
)
    ensures
        is_shared(names, name) <==> exists|i: int, j: int|
            0 <= i < j < names.len() && (#[trigger] names[i]).1 == name && (#[trigger] names[j]).1
                == name,
{
    if exists|i: int, j: int|
        0 <= i < j < names.len() && (#[trigger] names[i]).1 == name && (#[trigger] names[j]).1
            == name {
        let (i, j) = choose|i: int, j: int|
            0 <= i < j < names.len() && (#[trigger] names[i]).1 == name && (#[trigger] names[j]).1
                == name;
        lemma_two_entries_share(names, i, j);
    }
    if is_shared(names, name) {
        lemma_sharing_entries(names, name);
    }
}

proof fn lemma_sharing_entries(names: Seq<(Seq<char>, Seq<char>)>, name: Seq<char>)
    requires
        is_shared(names, name),
    ensures
        exists|i: int, j: int|
            0 <= i < j < names.len() && (#[trigger] names[i]).1 == name && (#[trigger] names[j]).1
                == name,
    decreases names.len(),
{
    reveal(Seq::filter);
    let keep = names_layout(name);
    let shorter = names.drop_last();
    let last = names.len() - 1;
    if is_shared(shorter, name) {
        lemma_sharing_entries(shorter, name);
        let (i, j) = choose|i: int, j: int|
            0 <= i < j < shorter.len() && (#[trigger] shorter[i]).1 == name && (
            #[trigger] shorter[j]).1 == name;
        assert(names[i].1 == name && names[j].1 == name);
    } else {
        assert(keep(names.last()));
        let kept = shorter.filter(keep);
        assert(kept.len() > 0);
        shorter.lemma_filter_contains_rev(keep, kept[0]);
        lemma_filter_keeps(shorter, keep, 0);
        let i = choose|i: int| 0 <= i < shorter.len() && shorter[i] == kept[0];
        assert(names[i].1 == name && names[last].1 == name);
    }
}

/// The tags that share a layout are all those that name it, in the order of the table.
pub proof fn every_tag_that_names_a_layout_is_told(
    names: Seq<(Seq<char>, Seq<char>)>,
    entry: (Seq<char>, Seq<char>),
    name: Seq<char>,
)
    ensures
        tags_naming(Seq::empty(), name).len() == 0,
        tags_naming(names.push(entry), name) == if entry.1 == name {
            tags_naming(names, name).push(entry.0)
        } else {
            tags_naming(names, name)
        },
{
    reveal(Seq::filter);
    let keep = names_layout(name);
    assert(Seq::<(Seq<char>, Seq<char>)>::empty().filter(keep) =~= Seq::empty());
    assert(names.push(entry).drop_last() =~= names);
    if entry.1 == name {
        assert(names.push(entry).filter(keep) == names.filter(keep).push(entry));
        assert(tags_naming(names.push(entry), name) =~= tags_naming(names, name).push(entry.0));
    }
}

/// What is missing is every entry whose layout is not enabled, in the order of the table, and no
/// other.
pub proof fn every_entry_without_its_layout_is_missing(
    names: Seq<(Seq<char>, Seq<char>)>,
    entry: (Seq<char>, Seq<char>),
    layouts: Seq<LayoutView>,
)
    ensures
        missing_from(Seq::empty(), layouts).len() == 0,
        missing_from(names.push(entry), layouts) == if exists|i: int|
            0 <= i < layouts.len() && (#[trigger] layouts[i]).name == entry.1 {
            missing_from(names, layouts)
        } else {
            missing_from(names, layouts).push(entry)
        },
{
    reveal(Seq::filter);
    let keep = names_nothing(layouts);
    assert(Seq::<(Seq<char>, Seq<char>)>::empty().filter(keep) =~= Seq::empty());
    assert(names.push(entry).drop_last() =~= names);
    if exists|i: int| 0 <= i < layouts.len() && (#[trigger] layouts[i]).name == entry.1 {
        let i = choose|i: int| 0 <= i < layouts.len() && (#[trigger] layouts[i]).name == entry.1;
        lemma_a_name_is_found(layouts, entry.1, i);
    } else {
        a_name_no_layout_carries_stands_for_none(layouts, entry.1);
    }
}

/// A tag that resolves stands for the first enabled layout under its name, id and language and all,
/// at the place the tag has in the table.
pub proof fn a_tag_resolves_to_the_first_layout_of_its_name(
    names: Seq<(Seq<char>, Seq<char>)>,
    layouts: Seq<LayoutView>,
    i: int,
    j: int,
)
    requires
        0 <= i < names.len(),
        0 <= j < layouts.len(),
        layouts[j].name == names[i].1,
        forall|k: int| 0 <= k < j ==> (#[trigger] layouts[k]).name != names[i].1,
    ensures
        resolved_to(names, layouts).len() == names.len(),
        resolved_to(names, layouts)[i] == (names[i].0, layouts[j]),
{
    a_name_stands_for_the_first_layout_that_carries_it(layouts, names[i].1, j);
}

/// The shared layout that is reported is shared, and no shared name stands before it.
pub proof fn the_first_shared_layout_is_reported(
    names: Seq<(Seq<char>, Seq<char>)>,
    name: Seq<char>,
    other: Seq<char>,
)
    requires
        is_first_shared(names, name),
    ensures
        is_shared(names, name),
        is_shared(names, other) ==> !before(other, name),
{
}

/// An error about missing layouts names each tag with the layout it asks for, and then every layout
/// that is enabled.
pub proof fn an_error_names_what_is_missing_and_what_there_is(
    missing: Seq<(Seq<char>, Seq<char>)>,
    enabled: Seq<Seq<char>>,
    asked: Seq<Seq<char>>,
)
    requires
        asked.len() == missing.len(),
        forall|i: int|
            0 <= i < missing.len() ==> #[trigger] asked[i] == missing[i].0 + " = "@
                + missing[i].1,
    ensures
        unresolved_words(missing, enabled) == "no enabled keyboard layout is named "@ + listed(
            asked,
            ", "@,
        ) + "; enabled: "@ + listed(enabled, ", "@),
{
    assert(asked_for(missing) =~= asked);
}

/// An error about a shared layout names the tags that share it and the layout.
pub proof fn an_error_names_the_tags_that_share_a_layout(
    name: Seq<char>,
    sharing: Seq<Seq<char>>,
)
    ensures
        duplicate_words(name, sharing) == "tags "@ + listed(sharing, " and "@)
            + " both name the layout "@ + name,
{
}

/// Texts, tags, names and layouts are read one for one.
pub proof fn sequences_are_read_one_for_one(
    sequence: Seq<LayoutTag>,
    strings: Seq<String>,
    layouts: Seq<Layout>,
    views: Seq<LayoutView>,
    missing: Seq<(LayoutTag, String)>,
)
    ensures
        tags(sequence).len() == sequence.len(),
        texts(strings).len() == strings.len(),
        shown(layouts).len() == layouts.len(),
        names_of(views).len() == views.len(),
        pairs(missing).len() == missing.len(),
        forall|i: int| 0 <= i < sequence.len() ==> #[trigger] tags(sequence)[i] == sequence[i].0@,
        forall|i: int| 0 <= i < strings.len() ==> #[trigger] texts(strings)[i] == strings[i]@,
        forall|i: int|
            0 <= i < layouts.len() ==> (#[trigger] shown(layouts)[i]).name == layouts[i].name@
                && shown(layouts)[i].id == layouts[i].id@ && shown(layouts)[i].language
                == text_of(layouts[i].language),
        forall|i: int| 0 <= i < views.len() ==> #[trigger] names_of(views)[i] == views[i].name,
        forall|i: int|
            0 <= i < missing.len() ==> #[trigger] pairs(missing)[i] == (
                missing[i].0.0@,
                missing[i].1@,
            ),
        text_of(None) is None,
        forall|text: String| #[trigger] text_of(Some(text)) == Some(text@),
{
}

/// An error of a selection names the layout, and a refused one the status it came back with; an
/// error of a resolution says what it carries.
pub proof fn a_layout_error_names_what_it_is_about(
    name: String,
    status: i32,
    missing: Vec<(LayoutTag, String)>,
    enabled: Vec<String>,
    sharing: Vec<LayoutTag>,
    tag: LayoutTag,
)
    ensures
        (TisError::NotEnabled { name }).words() == "no enabled keyboard layout is named "@ + name@,
        (TisError::Refused { name, status }).words() == "selecting "@ + name@
            + " failed with OSStatus "@ + signed_decimal(status as int),
        (ResolveError::Unresolved { missing, enabled }).words() == unresolved_words(
            pairs(missing@),
            texts(enabled@),
        ),
        (ResolveError::Duplicate { name, tags: sharing }).words() == duplicate_words(
            name@,
            tags(sharing@),
        ),
        tag.text() == tag.0@,
        tag@ == tag.0@,
{
}

} // verus!
