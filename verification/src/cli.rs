//! What the one-shot commands print and pick.

use vstd::prelude::*;

use crate::config::{every_configured_tag_has_a_layout_to_select, walkable, Config};
use crate::cycle::{
    a_step_always_changes_the_layout, next, next_tag, tag_text,
    the_next_layout_is_one_of_the_cycle,
};
use crate::daemon::{layout_text, tag_named, tag_under};
use crate::macos::tis::{resolved_to, shown, tags, text_of, Layout, LayoutTag, LayoutView};
use crate::macos::workspace::BundleId;
use crate::ordered::{lookup, OrderedMap};
use crate::text::{
    append_item, lemma_listed_push, list_of, listed, standing, texts_of, Standing, Text,
};

verus! {

broadcast use vstd::string::group_string_axioms;

/// What is printed where there is nothing to print.
pub open spec fn or_dash(text: Option<Seq<char>>) -> Seq<char> {
    match text {
        Some(text) => text,
        None => "-"@,
    }
}

/// The line `moji list` prints for a layout: its name, its id and its language.
pub open spec fn list_line(layout: LayoutView) -> Seq<char> {
    layout.name + "\t"@ + layout.id + "\t"@ + or_dash(layout.language) + "\n"@
}

/// Lines, one after another.
pub open spec fn lines(parts: Seq<Seq<char>>) -> Seq<char>
    decreases parts.len(),
{
    if parts.len() == 0 {
        Seq::empty()
    } else {
        lines(parts.drop_last()) + parts.last()
    }
}

/// The lines `moji list` prints.
pub open spec fn list_lines(layouts: Seq<LayoutView>) -> Seq<Seq<char>> {
    layouts.map_values(|layout: LayoutView| list_line(layout))
}

proof fn lemma_lines_grow(parts: Seq<Seq<char>>, i: int)
    requires
        0 <= i < parts.len(),
    ensures
        lines(parts.take(i + 1)) == lines(parts.take(i)) + parts[i],
{
    assert(parts.take(i + 1).drop_last() =~= parts.take(i));
}

fn append_or_dash(text: &mut String, part: &Option<String>)
    ensures
        final(text)@ == old(text)@ + or_dash(text_of(*part)),
{
    match part {
        Some(part) => text.append(part.as_str()),
        None => text.append("-"),
    }
}

/// Returns what `moji list` prints: every layout as name, id and language.
pub fn list(layouts: &Vec<Layout>) -> (printed: String)
    ensures
        printed@ == lines(list_lines(shown(layouts@))),
{
    let ghost parts = list_lines(shown(layouts@));
    let mut printed = String::new();
    let len: usize = layouts.len();
    let mut index: usize = 0;
    assert(parts.take(0) =~= Seq::empty());
    while index < len
        invariant
            len == layouts@.len(),
            index <= len,
            parts == list_lines(shown(layouts@)),
            printed@ == lines(parts.take(index as int)),
        decreases len - index,
    {
        let layout = &layouts[index];
        let ghost so_far = printed@;
        printed.append(layout.name.as_str());
        printed.append("\t");
        printed.append(layout.id.as_str());
        printed.append("\t");
        append_or_dash(&mut printed, &layout.language);
        printed.append("\n");
        proof {
            lemma_lines_grow(parts, index as int);
            assert(parts[index as int] == list_line(layout@));
            assert(printed@ =~= so_far + list_line(layout@));
        }
        index += 1;
    }
    assert(parts.take(len as int) =~= parts);
    printed
}

/// What `moji status` prints.
pub open spec fn status_text(
    layout: LayoutView,
    tag: Option<Seq<char>>,
    focused: Option<Seq<char>>,
) -> Seq<char> {
    "layout\t"@ + layout.name + "\nid\t"@ + layout.id + "\nlanguage\t"@ + or_dash(layout.language)
        + "\ntag\t"@ + or_dash(tag) + "\nfrontmost\t"@ + or_dash(focused) + "\n"@
}

/// Returns what `moji status` prints: the current layout, its id and language, the tag it stands
/// under, and the application the keyboard goes to.
pub fn status(layout: &Layout, tag: Option<&LayoutTag>, focused: Option<&BundleId>) -> (printed:
    String)
    ensures
        printed@ == status_text(
            layout@,
            match tag {
                Some(tag) => Some(tag@),
                None => None,
            },
            match focused {
                Some(focused) => Some(focused@),
                None => None,
            },
        ),
{
    let mut printed = "layout\t".to_string();
    printed.append(layout.name.as_str());
    printed.append("\nid\t");
    printed.append(layout.id.as_str());
    printed.append("\nlanguage\t");
    append_or_dash(&mut printed, &layout.language);
    printed.append("\ntag\t");
    match tag {
        Some(tag) => printed.append(tag.as_text()),
        None => printed.append("-"),
    }
    printed.append("\nfrontmost\t");
    match focused {
        Some(focused) => printed.append(focused.as_text()),
        None => printed.append("-"),
    }
    printed.append("\n");
    printed
}

/// A line of two columns.
pub open spec fn row(left: Seq<char>, right: Seq<char>) -> Seq<char> {
    left + "\t"@ + right + "\n"@
}

/// The lines that show each tag with the name of its layout.
pub open spec fn layout_rows(resolved: Seq<(Seq<char>, LayoutView)>) -> Seq<Seq<char>> {
    resolved.map_values(|entry: (Seq<char>, LayoutView)| row(entry.0, entry.1.name))
}

/// The lines that show each pinned application with its tag.
pub open spec fn pin_rows(apps: Seq<(Seq<char>, Seq<char>)>) -> Seq<Seq<char>> {
    apps.map_values(|entry: (Seq<char>, Seq<char>)| row(entry.0, entry.1))
}

/// What `moji --check-config` prints: the cycle, every layout and every pin.
pub open spec fn check_text(
    cycle: Seq<Seq<char>>,
    resolved: Seq<(Seq<char>, LayoutView)>,
    apps: Seq<(Seq<char>, Seq<char>)>,
) -> Seq<char> {
    row("cycle"@, listed(cycle, " -> "@)) + lines(layout_rows(resolved)) + lines(pin_rows(apps))
}

fn append_row(printed: &mut String, left: &str, right: &str)
    ensures
        final(printed)@ == old(printed)@ + row(left@, right@),
{
    printed.append(left);
    printed.append("\t");
    printed.append(right);
    printed.append("\n");
    assert(printed@ =~= old(printed)@ + row(left@, right@));
}

fn order(cycle: &Vec<LayoutTag>) -> (order: String)
    ensures
        order@ == listed(tags(cycle@), " -> "@),
{
    let order = list_of(cycle, " -> ");
    assert(texts_of(cycle@) =~= tags(cycle@));
    order
}

/// Returns what `moji --check-config` prints about a configuration that resolved.
pub fn check(config: &Config, resolved: &OrderedMap<LayoutTag, Layout>) -> (printed: String)
    ensures
        printed@ == check_text(tags(config.cycle@), resolved@, config.apps@),
{
    let ghost rows = layout_rows(resolved@);
    let ghost pins = pin_rows(config.apps@);
    let mut printed = String::new();
    append_row(&mut printed, "cycle", order(&config.cycle).as_str());
    let ghost head = printed@;
    assert(head =~= row("cycle"@, listed(tags(config.cycle@), " -> "@)));

    let len: usize = resolved.len();
    let mut index: usize = 0;
    assert(rows.take(0) =~= Seq::empty());
    assert(head + lines(rows.take(0)) =~= head);
    while index < len
        invariant
            len == resolved@.len(),
            index <= len,
            rows == layout_rows(resolved@),
            printed@ == head + lines(rows.take(index as int)),
        decreases len - index,
    {
        let ghost so_far = lines(rows.take(index as int));
        append_row(
            &mut printed,
            resolved.key_at(index).as_text(),
            resolved.value_at(index).name.as_str(),
        );
        proof {
            lemma_lines_grow(rows, index as int);
            assert(printed@ =~= head + (so_far + rows[index as int]));
        }
        index += 1;
    }
    assert(rows.take(len as int) =~= rows);

    let ghost middle = printed@;
    let len: usize = config.apps.len();
    let mut index: usize = 0;
    assert(pins.take(0) =~= Seq::empty());
    assert(middle + lines(pins.take(0)) =~= middle);
    while index < len
        invariant
            len == config.apps@.len(),
            index <= len,
            pins == pin_rows(config.apps@),
            printed@ == middle + lines(pins.take(index as int)),
        decreases len - index,
    {
        let ghost so_far = lines(pins.take(index as int));
        append_row(
            &mut printed,
            config.apps.key_at(index).as_text(),
            config.apps.value_at(index).as_text(),
        );
        proof {
            lemma_lines_grow(pins, index as int);
            assert(printed@ =~= middle + (so_far + pins[index as int]));
        }
        index += 1;
    }
    assert(pins.take(len as int) =~= pins);
    printed
}

/// Each tag with the name of its layout.
pub open spec fn assignments(layouts: Seq<(Seq<char>, Seq<char>)>) -> Seq<Seq<char>> {
    layouts.map_values(|entry: (Seq<char>, Seq<char>)| entry.0 + " = "@ + entry.1)
}

/// Returns every tag with the name of its layout, on one line.
pub fn described(layouts: &OrderedMap<LayoutTag, String>) -> (described: String)
    ensures
        described@ == listed(assignments(layouts@), ", "@),
{
    let ghost items = assignments(layouts@);
    let mut described = String::new();
    let len: usize = layouts.len();
    let mut index: usize = 0;
    assert(items.take(0) =~= Seq::empty());
    while index < len
        invariant
            len == layouts@.len(),
            index <= len,
            items == assignments(layouts@),
            described@ == listed(items.take(index as int), ", "@),
        decreases len - index,
    {
        let mut item = layouts.key_at(index).to_string();
        item.append(" = ");
        item.append(layouts.value_at(index).as_str());
        append_item(&mut described, ", ", item.as_str());
        proof {
            assert(items[index as int] == item@);
            lemma_listed_push(items.take(index as int), ", "@, item@);
            assert(items.take(index + 1) =~= items.take(index as int).push(item@));
        }
        index += 1;
    }
    assert(items.take(len as int) =~= items);
    described
}

/// Whether the entry at `i` is the first that gives a tag this name.
pub open spec fn is_first_naming(
    layouts: Seq<(Seq<char>, Seq<char>)>,
    name: Seq<char>,
    i: int,
) -> bool {
    &&& 0 <= i < layouts.len()
    &&& layouts[i].1 == name
    &&& forall|j: int| 0 <= j < i ==> (#[trigger] layouts[j]).1 != name
}

/// The tag a configuration gives the layout with this name, if it gives it one.
pub open spec fn configured_under(layouts: Seq<(Seq<char>, Seq<char>)>, name: Seq<char>) -> Option<
    Seq<char>,
> {
    if exists|i: int| is_first_naming(layouts, name, i) {
        Some(layouts[choose|i: int| is_first_naming(layouts, name, i)].0)
    } else {
        None
    }
}

/// Returns the tag a configuration gives the layout with this name, whether it is enabled or not.
pub fn configured_tag(layouts: &OrderedMap<LayoutTag, String>, name: &str) -> (tag: Option<
    LayoutTag,
>)
    ensures
        match tag {
            Some(tag) => exists|i: int| #[trigger]
                is_first_naming(layouts@, name@, i) && tag@ == layouts@[i].0,
            None => forall|i: int| 0 <= i < layouts@.len() ==> (#[trigger] layouts@[i]).1 != name@,
        },
        tag_text(tag) == configured_under(layouts@, name@),
{
    let len: usize = layouts.len();
    let mut index: usize = 0;
    while index < len
        invariant
            len == layouts@.len(),
            index <= len,
            forall|j: int| 0 <= j < index ==> (#[trigger] layouts@[j]).1 != name@,
        decreases len - index,
    {
        if let Standing::Same = standing(layouts.value_at(index).as_str(), name) {
            proof {
                assert(is_first_naming(layouts@, name@, index as int));
                let found = choose|i: int| is_first_naming(layouts@, name@, i);
                assert(found == index);
            }
            return Some(layouts.key_at(index).clone());
        }
        index += 1;
    }
    None
}

/// Why a command has no layout to select.
#[derive(Debug, PartialEq, Eq)]
pub enum NoTarget {
    /// The cycle is empty.
    EmptyCycle,
    /// No layout stands under the tag.
    NoLayout {
        /// The tag.
        tag: LayoutTag,
    },
}

impl NoTarget {
    /// Returns the reason in words.
    pub fn to_string(&self) -> (printed: String)
        ensures
            printed@ == match *self {
                NoTarget::EmptyCycle =>
                    "the configured cycle is empty, so there is nothing to toggle to"@,
                NoTarget::NoLayout { tag: _ } =>
                    "the configuration carries no layout under this tag"@,
            },
    {
        match self {
            NoTarget::EmptyCycle =>
                "the configured cycle is empty, so there is nothing to toggle to".to_string(),
            NoTarget::NoLayout { tag: _ } =>
                "the configuration carries no layout under this tag".to_string(),
        }
    }
}

/// Returns the layout `moji set` selects.
///
/// # Errors
///
/// Returns [`NoTarget::NoLayout`] when no layout stands under the tag.
pub fn set_target(resolved: &OrderedMap<LayoutTag, Layout>, tag: LayoutTag) -> (target: Result<
    Layout,
    NoTarget,
>)
    ensures
        match target {
            Ok(layout) => lookup(resolved@, tag@) == Some(layout@),
            Err(NoTarget::NoLayout { tag: missing }) => lookup(resolved@, tag@) is None && missing@
                == tag@,
            Err(NoTarget::EmptyCycle) => false,
        },
{
    let Some(layout) = resolved.get(&tag) else {
        return Err(NoTarget::NoLayout { tag });
    };
    Ok(layout.clone())
}

/// The tag `moji toggle` goes to with this layout selected, if the cycle has any.
pub open spec fn toggles_to(
    cycle: Seq<Seq<char>>,
    resolved: Seq<(Seq<char>, LayoutView)>,
    selected: Option<LayoutView>,
) -> Option<Seq<char>> {
    next_tag(
        cycle,
        match selected {
            Some(layout) => tag_under(resolved, layout.name),
            None => None,
        },
    )
}

/// Returns the layout `moji toggle` selects: the one after the selected one in the cycle.
///
/// # Errors
///
/// Returns [`NoTarget::EmptyCycle`] when there is nothing to toggle to, and [`NoTarget::NoLayout`]
/// when no layout stands under the tag that comes next.
pub fn toggle_target(
    cycle: &Vec<LayoutTag>,
    resolved: &OrderedMap<LayoutTag, Layout>,
    selected: Option<&Layout>,
) -> (target: Result<Layout, NoTarget>)
    ensures
        match toggles_to(tags(cycle@), resolved@, layout_text(selected)) {
            None => target matches Err(NoTarget::EmptyCycle),
            Some(tag) => match target {
                Ok(layout) => lookup(resolved@, tag) == Some(layout@),
                Err(NoTarget::NoLayout { tag: missing }) => lookup(resolved@, tag) is None
                    && missing@ == tag,
                Err(NoTarget::EmptyCycle) => false,
            },
        },
{
    let current = match selected {
        Some(layout) => tag_named(resolved, layout.name.as_str()),
        None => None,
    };
    let Some(tag) = next(cycle.as_slice(), current.as_ref()) else {
        return Err(NoTarget::EmptyCycle);
    };
    set_target(resolved, tag)
}

/// Once a configuration resolved, toggling always comes to a layout to select, and never to the
/// one that is selected already.
pub proof fn toggling_always_comes_to_another_layout(
    cycle: Seq<Seq<char>>,
    named: Seq<(Seq<char>, Seq<char>)>,
    layouts: Seq<LayoutView>,
    current: Option<Seq<char>>,
)
    requires
        walkable(cycle, named),
    ensures
        next_tag(cycle, current) matches Some(tag) && lookup(resolved_to(named, layouts), tag)
            is Some && current != Some(tag),
{
    the_next_layout_is_one_of_the_cycle(cycle, current);
    every_configured_tag_has_a_layout_to_select(
        cycle,
        named,
        layouts,
        next_tag(cycle, current)->0,
    );
    if current is Some {
        a_step_always_changes_the_layout(cycle, current->0);
    }
}

/// The status is five lines: the name of the layout, its id, its language, its tag and the
/// application the keyboard goes to, each as it is and a dash where there is none. None of them
/// depends on what the others say.
pub proof fn the_status_says_each_thing_on_its_own_line(
    layout: LayoutView,
    tag: Option<Seq<char>>,
    focused: Option<Seq<char>>,
)
    ensures
        ({
            let language = if layout.language is Some {
                layout.language->0
            } else {
                "-"@
            };
            let tagged = if tag is Some {
                tag->0
            } else {
                "-"@
            };
            let front = if focused is Some {
                focused->0
            } else {
                "-"@
            };
            status_text(layout, tag, focused) == ("layout\t"@ + layout.name + "\n"@) + ("id\t"@
                + layout.id + "\n"@) + ("language\t"@ + language + "\n"@) + ("tag\t"@ + tagged
                + "\n"@) + ("frontmost\t"@ + front + "\n"@)
        }),
{
    reveal_strlit("layout\t");
    reveal_strlit("\nid\t");
    reveal_strlit("id\t");
    reveal_strlit("\nlanguage\t");
    reveal_strlit("language\t");
    reveal_strlit("\ntag\t");
    reveal_strlit("tag\t");
    reveal_strlit("\nfrontmost\t");
    reveal_strlit("frontmost\t");
    reveal_strlit("\n");
    let n = "\n"@;
    assert("\nid\t"@ =~= n + "id\t"@);
    assert("\nlanguage\t"@ =~= n + "language\t"@);
    assert("\ntag\t"@ =~= n + "tag\t"@);
    assert("\nfrontmost\t"@ =~= n + "frontmost\t"@);
    let language = or_dash(layout.language);
    let tagged = or_dash(tag);
    let front = or_dash(focused);
    assert(status_text(layout, tag, focused) =~= ("layout\t"@ + layout.name + n) + ("id\t"@
        + layout.id + n) + ("language\t"@ + language + n) + ("tag\t"@ + tagged + n) + (
    "frontmost\t"@ + front + n));
}

/// The last line of the status names the application that has the keyboard whether or not the
/// layout has a tag: with another application in front, only what that line names changes.
pub proof fn the_status_always_names_the_application_in_front(
    layout: LayoutView,
    tag: Option<Seq<char>>,
    app: Seq<char>,
    start: Seq<char>,
)
    requires
        status_text(layout, tag, None) == start + "frontmost\t-\n"@,
    ensures
        status_text(layout, tag, Some(app)) == start + "frontmost\t"@ + app + "\n"@,
{
    reveal_strlit("frontmost\t-\n");
    reveal_strlit("frontmost\t");
    reveal_strlit("-");
    reveal_strlit("\n");
    the_status_says_each_thing_on_its_own_line(layout, tag, None);
    the_status_says_each_thing_on_its_own_line(layout, tag, Some(app));
    let head = ("layout\t"@ + layout.name + "\n"@) + ("id\t"@ + layout.id + "\n"@) + ("language\t"@
        + or_dash(layout.language) + "\n"@) + ("tag\t"@ + or_dash(tag) + "\n"@);
    assert("frontmost\t-\n"@ =~= "frontmost\t"@ + "-"@ + "\n"@);
    let text = status_text(layout, tag, None);
    assert(text =~= head + "frontmost\t-\n"@);
    assert(start =~= text.take(start.len() as int));
    assert(head =~= text.take(head.len() as int));
    assert(status_text(layout, tag, Some(app)) =~= start + "frontmost\t"@ + app + "\n"@);
}

proof fn lemma_lines_push(parts: Seq<Seq<char>>, part: Seq<char>)
    ensures
        lines(Seq::empty()).len() == 0,
        lines(parts.push(part)) == lines(parts) + part,
{
    assert(parts.push(part).drop_last() =~= parts);
}

/// One more layout is one more line of the list, behind all the others: its name, its id and its
/// language, and a dash where it declares none.
pub proof fn every_layout_is_one_line_of_the_list(layouts: Seq<LayoutView>, layout: LayoutView)
    ensures
        lines(list_lines(Seq::empty())).len() == 0,
        ({
            let language = if layout.language is Some {
                layout.language->0
            } else {
                "-"@
            };
            lines(list_lines(layouts.push(layout))) == lines(list_lines(layouts)) + (layout.name
                + "\t"@ + layout.id + "\t"@ + language + "\n"@)
        }),
{
    assert(list_lines(Seq::empty()) =~= Seq::empty());
    assert(list_lines(layouts.push(layout)) =~= list_lines(layouts).push(list_line(layout)));
    lemma_lines_push(list_lines(layouts), list_line(layout));
}

/// One more pin is one more line at the very end of the check: the application, a tab and the tag.
pub proof fn every_pin_is_one_line_of_the_check(
    cycle: Seq<Seq<char>>,
    resolved: Seq<(Seq<char>, LayoutView)>,
    apps: Seq<(Seq<char>, Seq<char>)>,
    pin: (Seq<char>, Seq<char>),
)
    ensures
        check_text(cycle, resolved, apps.push(pin)) == check_text(cycle, resolved, apps) + (pin.0
            + "\t"@ + pin.1 + "\n"@),
{
    assert(pin_rows(apps.push(pin)) =~= pin_rows(apps).push(row(pin.0, pin.1)));
    lemma_lines_push(pin_rows(apps), row(pin.0, pin.1));
    assert(check_text(cycle, resolved, apps.push(pin)) =~= check_text(cycle, resolved, apps) + (
    pin.0 + "\t"@ + pin.1 + "\n"@));
}

/// One more layout is one more line of the check, behind the other layouts and before the pins: the
/// tag, a tab and the name. With nothing to show but the cycle, the check is one line that lists it
/// in order.
pub proof fn every_tag_is_one_line_of_the_check(
    cycle: Seq<Seq<char>>,
    resolved: Seq<(Seq<char>, LayoutView)>,
    entry: (Seq<char>, LayoutView),
)
    ensures
        check_text(cycle, Seq::empty(), Seq::empty()) == "cycle\t"@ + listed(cycle, " -> "@)
            + "\n"@,
        check_text(cycle, resolved.push(entry), Seq::empty()) == check_text(
            cycle,
            resolved,
            Seq::empty(),
        ) + (entry.0 + "\t"@ + entry.1.name + "\n"@),
{
    reveal_strlit("cycle\t");
    reveal_strlit("cycle");
    reveal_strlit("\t");
    assert("cycle\t"@ =~= "cycle"@ + "\t"@);
    assert(pin_rows(Seq::empty()) =~= Seq::empty());
    assert(layout_rows(Seq::empty()) =~= Seq::empty());
    assert(layout_rows(resolved.push(entry)) =~= layout_rows(resolved).push(
        row(entry.0, entry.1.name),
    ));
    lemma_lines_push(layout_rows(resolved), row(entry.0, entry.1.name));
    assert(check_text(cycle, Seq::empty(), Seq::empty()) =~= "cycle\t"@ + listed(cycle, " -> "@)
        + "\n"@);
    assert(check_text(cycle, resolved.push(entry), Seq::empty()) =~= check_text(
        cycle,
        resolved,
        Seq::empty(),
    ) + (entry.0 + "\t"@ + entry.1.name + "\n"@));
}

/// Every pin has its line in the check, right behind the lines of the pins before it.
pub proof fn every_pin_stands_in_its_place_in_the_check(
    cycle: Seq<Seq<char>>,
    resolved: Seq<(Seq<char>, LayoutView)>,
    apps: Seq<(Seq<char>, Seq<char>)>,
    i: int,
)
    requires
        0 <= i < apps.len(),
    ensures
        (check_text(cycle, resolved, apps.take(i)) + (apps[i].0 + "\t"@ + apps[i].1
            + "\n"@)).is_prefix_of(check_text(cycle, resolved, apps)),
    decreases apps.len(),
{
    let shorter = apps.drop_last();
    assert(shorter.push(apps.last()) =~= apps);
    every_pin_is_one_line_of_the_check(cycle, resolved, shorter, apps.last());
    let so_far = check_text(cycle, resolved, shorter);
    let whole = check_text(cycle, resolved, apps);
    if i < shorter.len() {
        assert(shorter.take(i) =~= apps.take(i));
        every_pin_stands_in_its_place_in_the_check(cycle, resolved, shorter, i);
        let shown = check_text(cycle, resolved, apps.take(i)) + (apps[i].0 + "\t"@ + apps[i].1
            + "\n"@);
        assert(shown =~= so_far.subrange(0, shown.len() as int));
        assert(so_far.subrange(0, shown.len() as int) =~= whole.subrange(0, shown.len() as int));
    } else {
        assert(apps.take(i) =~= shorter);
        assert(whole =~= whole.subrange(0, whole.len() as int));
    }
}

/// How many lines a text ends.
pub open spec fn line_ends(text: Seq<char>) -> nat
    decreases text.len(),
{
    if text.len() == 0 {
        0
    } else {
        line_ends(text.drop_last()) + if text.last() == '\n' {
            1nat
        } else {
            0nat
        }
    }
}

proof fn lemma_line_ends_join(left: Seq<char>, right: Seq<char>)
    ensures
        line_ends(left + right) == line_ends(left) + line_ends(right),
    decreases right.len(),
{
    if right.len() == 0 {
        assert(left + right =~= left);
    } else {
        assert((left + right).drop_last() =~= left + right.drop_last());
        lemma_line_ends_join(left, right.drop_last());
    }
}

proof fn lemma_a_list_ends_no_line(items: Seq<Seq<char>>, separator: Seq<char>)
    requires
        line_ends(separator) == 0,
        forall|i: int| 0 <= i < items.len() ==> line_ends(#[trigger] items[i]) == 0,
    ensures
        line_ends(listed(items, separator)) == 0,
    decreases items.len(),
{
    if items.len() > 0 {
        let shorter = items.drop_last();
        assert forall|i: int| 0 <= i < shorter.len() implies line_ends(#[trigger] shorter[i])
            == 0 by {
            assert(shorter[i] == items[i]);
        }
        lemma_a_list_ends_no_line(shorter, separator);
        assert(shorter.push(items.last()) =~= items);
        assert(line_ends(items[items.len() - 1]) == 0);
        crate::text::a_list_grows_by_its_last_item(shorter, separator, items.last());
        lemma_line_ends_join(listed(shorter, separator), separator);
        lemma_line_ends_join(listed(shorter, separator) + separator, items.last());
    }
}

proof fn lemma_a_row_ends_one_line(left: Seq<char>, right: Seq<char>)
    requires
        line_ends(left) == 0,
        line_ends(right) == 0,
    ensures
        line_ends(left + "\t"@ + right + "\n"@) == 1,
{
    reveal_strlit("\t");
    reveal_strlit("\n");
    reveal_with_fuel(line_ends, 2);
    assert("\t"@.drop_last() =~= Seq::empty());
    assert("\n"@.drop_last() =~= Seq::empty());
    lemma_line_ends_join(left, "\t"@);
    lemma_line_ends_join(left + "\t"@, right);
    lemma_line_ends_join(left + "\t"@ + right, "\n"@);
}

/// The check has exactly one line for the cycle, one for each layout and one for each pin, where no
/// name carries a line end of its own.
pub proof fn the_check_has_a_line_for_everything(
    cycle: Seq<Seq<char>>,
    resolved: Seq<(Seq<char>, LayoutView)>,
    apps: Seq<(Seq<char>, Seq<char>)>,
)
    requires
        forall|i: int| 0 <= i < cycle.len() ==> line_ends(#[trigger] cycle[i]) == 0,
        forall|i: int|
            0 <= i < resolved.len() ==> line_ends((#[trigger] resolved[i]).0) == 0 && line_ends(
                resolved[i].1.name,
            ) == 0,
        forall|i: int|
            0 <= i < apps.len() ==> line_ends((#[trigger] apps[i]).0) == 0 && line_ends(apps[i].1)
                == 0,
    ensures
        line_ends(check_text(cycle, resolved, apps)) == 1 + resolved.len() + apps.len(),
    decreases resolved.len() + apps.len(),
{
    if apps.len() > 0 {
        let shorter = apps.drop_last();
        let pin = apps.last();
        assert(apps[apps.len() - 1] == pin);
        assert(shorter.push(pin) =~= apps);
        assert forall|i: int| 0 <= i < shorter.len() implies line_ends((#[trigger] shorter[i]).0)
            == 0 && line_ends(shorter[i].1) == 0 by {
            assert(shorter[i] == apps[i]);
        }
        the_check_has_a_line_for_everything(cycle, resolved, shorter);
        every_pin_is_one_line_of_the_check(cycle, resolved, shorter, pin);
        lemma_a_row_ends_one_line(pin.0, pin.1);
        lemma_line_ends_join(
            check_text(cycle, resolved, shorter),
            pin.0 + "\t"@ + pin.1 + "\n"@,
        );
    } else if resolved.len() > 0 {
        let shorter = resolved.drop_last();
        let entry = resolved.last();
        assert(apps =~= Seq::empty());
        assert(resolved[resolved.len() - 1] == entry);
        assert(shorter.push(entry) =~= resolved);
        assert forall|i: int| 0 <= i < shorter.len() implies line_ends((#[trigger] shorter[i]).0)
            == 0 && line_ends(shorter[i].1.name) == 0 by {
            assert(shorter[i] == resolved[i]);
        }
        the_check_has_a_line_for_everything(cycle, shorter, apps);
        every_tag_is_one_line_of_the_check(cycle, shorter, entry);
        lemma_a_row_ends_one_line(entry.0, entry.1.name);
        lemma_line_ends_join(
            check_text(cycle, shorter, apps),
            entry.0 + "\t"@ + entry.1.name + "\n"@,
        );
    } else {
        reveal_strlit("cycle\t");
        reveal_strlit("cycle");
        reveal_strlit("\t");
        reveal_strlit(" -> ");
        assert(apps =~= Seq::empty());
        assert(resolved =~= Seq::empty());
        lemma_a_plain_text_ends_no_line(" -> "@);
        lemma_a_plain_text_ends_no_line("cycle"@);
        lemma_a_list_ends_no_line(cycle, " -> "@);
        every_tag_is_one_line_of_the_check(cycle, Seq::empty(), arbitrary());
        assert("cycle\t"@ =~= "cycle"@ + "\t"@);
        lemma_a_row_ends_one_line("cycle"@, listed(cycle, " -> "@));
    }
}

proof fn lemma_a_plain_text_ends_no_line(text: Seq<char>)
    requires
        forall|i: int| 0 <= i < text.len() ==> text[i] != '\n',
    ensures
        line_ends(text) == 0,
    decreases text.len(),
{
    if text.len() > 0 {
        lemma_a_plain_text_ends_no_line(text.drop_last());
    }
}

/// Each tag is described with the name of its own layout, in the order of the table.
pub proof fn every_tag_is_described_with_its_layout(layouts: Seq<(Seq<char>, Seq<char>)>)
    ensures
        assignments(layouts).len() == layouts.len(),
        forall|i: int|
            0 <= i < layouts.len() ==> #[trigger] assignments(layouts)[i] == layouts[i].0 + " = "@
                + layouts[i].1,
{
}

/// Toggling with a layout selected goes to the one behind it in the cycle, wrapping at the end: the
/// layout is known by its name, under the first tag that carries it.
pub proof fn toggling_goes_to_the_layout_behind_the_selected_one(
    cycle: Seq<Seq<char>>,
    resolved: Seq<(Seq<char>, LayoutView)>,
    layout: LayoutView,
    i: int,
    j: int,
)
    requires
        0 <= j < resolved.len(),
        resolved[j].1.name == layout.name,
        forall|k: int| 0 <= k < j ==> (#[trigger] resolved[k]).1.name != layout.name,
        0 <= i < cycle.len(),
        cycle[i] == resolved[j].0,
        forall|k: int| 0 <= k < i ==> #[trigger] cycle[k] != cycle[i],
    ensures
        toggles_to(cycle, resolved, Some(layout)) == Some(cycle[(i + 1) % (cycle.len() as int)]),
{
    assert(crate::daemon::is_tag_named(resolved, layout.name, j));
    let found = choose|found: int| crate::daemon::is_tag_named(resolved, layout.name, found);
    assert(crate::daemon::is_tag_named(resolved, layout.name, found));
    assert(found == j);
    crate::cycle::the_next_layout_stands_right_behind(cycle, i);
}

/// Toggling with no layout selected, with one no tag names or with one the cycle does not carry goes
/// to the first entry, and an empty cycle has nothing to toggle to.
pub proof fn toggling_from_outside_goes_to_the_first_layout(
    cycle: Seq<Seq<char>>,
    resolved: Seq<(Seq<char>, LayoutView)>,
    selected: Option<LayoutView>,
)
    requires
        selected matches Some(layout) ==> forall|i: int, j: int|
            0 <= i < cycle.len() && 0 <= j < resolved.len() && (#[trigger] resolved[j]).1.name
                == layout.name ==> resolved[j].0 != #[trigger] cycle[i],
    ensures
        cycle.len() > 0 ==> toggles_to(cycle, resolved, selected) == Some(cycle[0]),
        cycle.len() == 0 ==> toggles_to(cycle, resolved, selected) is None,
{
    let current = match selected {
        Some(layout) => tag_under(resolved, layout.name),
        None => None,
    };
    if cycle.len() > 0 {
        assert forall|i: int| 0 <= i < cycle.len() implies current != Some(
            #[trigger] cycle[i],
        ) by {
            if let Some(layout) = selected {
                if exists|j: int| crate::daemon::is_tag_named(resolved, layout.name, j) {
                    let j = choose|j: int| crate::daemon::is_tag_named(resolved, layout.name, j);
                    assert(resolved[j].0 != cycle[i]);
                }
            }
        }
        crate::cycle::anything_outside_the_cycle_goes_to_its_first_entry(cycle, current);
    }
}

/// The tag a configuration gives a layout is that of the first entry under its name, and none where
/// no entry carries it.
pub proof fn a_configured_layout_has_the_first_tag_of_its_name(
    layouts: Seq<(Seq<char>, Seq<char>)>,
    name: Seq<char>,
    i: int,
)
    ensures
        (0 <= i < layouts.len() && layouts[i].1 == name && forall|j: int|
            0 <= j < i ==> (#[trigger] layouts[j]).1 != name) ==> configured_under(layouts, name)
            == Some(layouts[i].0),
        (forall|j: int| 0 <= j < layouts.len() ==> (#[trigger] layouts[j]).1 != name)
            ==> configured_under(layouts, name) is None,
{
    if 0 <= i < layouts.len() && layouts[i].1 == name && forall|j: int|
        0 <= j < i ==> (#[trigger] layouts[j]).1 != name {
        assert(is_first_naming(layouts, name, i));
        let found = choose|found: int| is_first_naming(layouts, name, found);
        assert(is_first_naming(layouts, name, found));
        assert(found == i);
    }
}

} // verus!
