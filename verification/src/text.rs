//! The order strings stand in, and the trait a string-like key is read through.
//!
//! Two strings are ordered by their first differing character, and a string that ends first stands
//! before the longer one. For UTF-8 this is the order of the bytes as well, which is how the
//! standard library orders `str`.

use vstd::prelude::*;

verus! {

broadcast use vstd::string::group_string_axioms;

/// Whether `left` stands strictly before `right` in dictionary order.
pub open spec fn before(left: Seq<char>, right: Seq<char>) -> bool
    decreases left.len(),
{
    if right.len() == 0 {
        false
    } else if left.len() == 0 {
        true
    } else if left[0] == right[0] {
        before(left.skip(1), right.skip(1))
    } else {
        (left[0] as int) < (right[0] as int)
    }
}

/// No string stands before itself.
pub proof fn lemma_before_is_irreflexive(text: Seq<char>)
    ensures
        !before(text, text),
    decreases text.len(),
{
    if text.len() > 0 {
        lemma_before_is_irreflexive(text.skip(1));
    }
}

/// A string before one that stands before a third stands before the third too.
pub proof fn lemma_before_is_transitive(first: Seq<char>, second: Seq<char>, third: Seq<char>)
    requires
        before(first, second),
        before(second, third),
    ensures
        before(first, third),
    decreases first.len(),
{
    if first.len() > 0 && first[0] == second[0] && second[0] == third[0] {
        lemma_before_is_transitive(first.skip(1), second.skip(1), third.skip(1));
    }
}

/// Where one string stands against another.
#[derive(Debug, Clone, Copy, PartialEq, Eq)]
pub enum Standing {
    /// It stands strictly before the other.
    Before,
    /// The two are the same string.
    Same,
    /// It stands strictly after the other.
    After,
}

/// Returns where `left` stands against `right` in dictionary order.
pub fn standing(left: &str, right: &str) -> (found: Standing)
    ensures
        found is Before <==> before(left@, right@),
        found is Same <==> left@ == right@,
        found is After <==> before(right@, left@),
{
    proof {
        lemma_before_is_irreflexive(left@);
    }
    let mut lefts = left.chars();
    let mut rights = right.chars();
    let ghost mut read: int = 0;
    assert(left@.skip(0) =~= left@);
    assert(right@.skip(0) =~= right@);
    loop
        invariant
            0 <= read <= left@.len(),
            read <= right@.len(),
            left@.take(read) == right@.take(read),
            vstd::std_specs::iter::IteratorSpec::obeys_prophetic_iter_laws(&lefts),
            vstd::std_specs::iter::IteratorSpec::obeys_prophetic_iter_laws(&rights),
            vstd::std_specs::iter::IteratorSpec::remaining(&lefts) == left@.skip(read),
            vstd::std_specs::iter::IteratorSpec::remaining(&rights) == right@.skip(read),
            before(left@, right@) == before(left@.skip(read), right@.skip(read)),
            before(right@, left@) == before(right@.skip(read), left@.skip(read)),
            !before(left@, left@),
        decreases left@.len() - read,
    {
        let from = lefts.next();
        let to = rights.next();
        match from {
            None => {
                match to {
                    None => {
                        assert(left@.take(read) =~= left@);
                        assert(right@.take(read) =~= right@);
                        return Standing::Same;
                    },
                    Some(_) => {
                        return Standing::Before;
                    },
                }
            },
            Some(from) => {
                match to {
                    None => {
                        return Standing::After;
                    },
                    Some(to) => {
                        assert(from == left@[read] && to == right@[read]);
                        if from < to {
                            return Standing::Before;
                        }
                        if to < from {
                            return Standing::After;
                        }
                        proof {
                            assert(left@.skip(read).skip(1) =~= left@.skip(read + 1));
                            assert(right@.skip(read).skip(1) =~= right@.skip(read + 1));
                            assert(left@.skip(read).drop_first() =~= left@.skip(read + 1));
                            assert(right@.skip(read).drop_first() =~= right@.skip(read + 1));
                            assert(left@.take(read + 1) =~= left@.take(read).push(from));
                            assert(right@.take(read + 1) =~= right@.take(read).push(to));
                            read = read + 1;
                        }
                    },
                }
            },
        }
    }
}

/// Appends one character, as `String::push` documents it.
pub assume_specification[ String::push ](text: &mut String, character: char)
    ensures
        final(text)@ == old(text)@.push(character),
;

/// The items one after another, with `separator` before an item unless nothing stands before it.
pub open spec fn listed(items: Seq<Seq<char>>, separator: Seq<char>) -> Seq<char>
    decreases items.len(),
{
    if items.len() == 0 {
        Seq::empty()
    } else {
        appended(listed(items.drop_last(), separator), separator, items.last())
    }
}

/// `so_far` with one more item, set apart by `separator` unless nothing stands before it.
pub open spec fn appended(so_far: Seq<char>, separator: Seq<char>, item: Seq<char>) -> Seq<char> {
    if so_far.len() == 0 {
        item
    } else {
        so_far + separator + item
    }
}

/// One more item on a list that is read front to back.
pub proof fn lemma_listed_push(items: Seq<Seq<char>>, separator: Seq<char>, item: Seq<char>)
    ensures
        listed(items.push(item), separator) == appended(
            listed(items, separator),
            separator,
            item,
        ),
{
    assert(items.push(item).drop_last() =~= items);
}

/// Appends one item to a list, set apart by `separator` unless nothing stands before it.
pub fn append_item(list: &mut String, separator: &str, item: &str)
    ensures
        final(list)@ == appended(old(list)@, separator@, item@),
{
    if !list.as_str().is_empty() {
        list.append(separator);
        list.append(item);
    } else {
        assert(list@ + item@ =~= item@);
        list.append(item);
    }
}

/// The texts of a sequence of keys.
pub open spec fn texts_of<K: Text>(keys: Seq<K>) -> Seq<Seq<char>> {
    keys.map_values(|key: K| key.text())
}

/// Returns the texts of the keys one after another, set apart by `separator`.
pub fn list_of<K: Text>(keys: &Vec<K>, separator: &str) -> (list: String)
    ensures
        list@ == listed(texts_of(keys@), separator@),
{
    let ghost items = texts_of(keys@);
    let mut list = String::new();
    let len: usize = keys.len();
    let mut index: usize = 0;
    assert(items.take(0) =~= Seq::empty());
    while index < len
        invariant
            len == keys@.len(),
            index <= len,
            items == texts_of(keys@),
            list@ == listed(items.take(index as int), separator@),
        decreases len - index,
    {
        append_item(&mut list, separator, keys[index].as_text());
        proof {
            lemma_listed_push(items.take(index as int), separator@, items[index as int]);
            assert(items.take(index + 1) =~= items.take(index as int).push(items[index as int]));
        }
        index += 1;
    }
    assert(items.take(len as int) =~= items);
    list
}

/// The digit `value` is written as.
pub open spec fn digit(value: nat) -> char
    recommends
        value < 10,
{
    ('0' as u32 + value) as char
}

/// `value` in decimal.
pub open spec fn decimal(value: nat) -> Seq<char>
    decreases value,
{
    if value < 10 {
        seq![digit(value)]
    } else {
        decimal(value / 10).push(digit(value % 10))
    }
}

/// `value` in decimal, behind a minus sign when it is negative.
pub open spec fn signed_decimal(value: int) -> Seq<char> {
    if value < 0 {
        seq!['-'] + decimal((-value) as nat)
    } else {
        decimal(value as nat)
    }
}

fn append_digit(text: &mut String, value: u64)
    requires
        value < 10,
    ensures
        final(text)@ == old(text)@.push(digit(value as nat)),
{
    text.push((48u8 + value as u8) as char);
}

/// Appends `value` in decimal.
pub fn append_decimal(text: &mut String, value: u64)
    ensures
        final(text)@ == old(text)@ + decimal(value as nat),
    decreases value,
{
    if value >= 10 {
        append_decimal(text, value / 10);
        append_digit(text, value % 10);
        assert(text@ =~= old(text)@ + decimal(value as nat));
    } else {
        append_digit(text, value);
        assert(text@ =~= old(text)@ + decimal(value as nat));
    }
}

/// Appends `value` in decimal, behind a minus sign when it is negative.
pub fn append_signed(text: &mut String, value: i32)
    ensures
        final(text)@ == old(text)@ + signed_decimal(value as int),
{
    if value < 0 {
        text.push('-');
        append_decimal(text, (-(value as i64)) as u64);
        assert(text@ =~= old(text)@ + signed_decimal(value as int));
    } else {
        append_decimal(text, value as u64);
    }
}

/// A key that is ordered and compared by the text it carries.
pub trait Text: Sized {
    /// The text the key carries.
    spec fn text(&self) -> Seq<char>;

    /// Returns the text the key carries.
    fn as_text(&self) -> (text: &str)
        ensures
            text@ == self.text(),
    ;

    /// Returns a key that carries the same text.
    fn copied_key(&self) -> (copy: Self)
        ensures
            copy.text() == self.text(),
    ;
}

/// A value that can be had once more.
pub trait Duplicate: View + Sized {
    /// Returns the same value once more.
    fn duplicate(&self) -> (copy: Self)
        ensures
            copy@ == self@,
    ;
}

impl Text for String {
    open spec fn text(&self) -> Seq<char> {
        self@
    }

    fn as_text(&self) -> (text: &str) {
        self.as_str()
    }

    fn copied_key(&self) -> (copy: String) {
        self.clone()
    }
}

impl Duplicate for String {
    fn duplicate(&self) -> (copy: String) {
        self.clone()
    }
}

/// Two strings are ordered by their first difference: the smaller character stands first, and where
/// one of them ends there, the shorter one does.
pub proof fn the_first_difference_decides(left: Seq<char>, right: Seq<char>, same: int)
    requires
        0 <= same <= left.len(),
        same <= right.len(),
        forall|i: int| 0 <= i < same ==> left[i] == right[i],
        same == left.len() || same == right.len() || left[same] != right[same],
    ensures
        before(left, right) <==> same < right.len() && (same == left.len() || (left[same] as int)
            < (right[same] as int)),
    decreases same,
{
    if same > 0 {
        let lefts = left.skip(1);
        let rights = right.skip(1);
        assert(left[0] == right[0]);
        assert forall|i: int| 0 <= i < same - 1 implies lefts[i] == rights[i] by {
            assert(left[i + 1] == right[i + 1]);
        }
        the_first_difference_decides(lefts, rights, same - 1);
    }
}

/// A list of nothing is empty, and one more item stands at the end of what was listed so far, set
/// apart unless nothing stands before it: none is left out, and none changes the ones before.
pub proof fn a_list_grows_by_its_last_item(
    items: Seq<Seq<char>>,
    separator: Seq<char>,
    item: Seq<char>,
)
    ensures
        listed(Seq::empty(), separator).len() == 0,
        listed(items.push(item), separator) == if listed(items, separator).len() == 0 {
            item
        } else {
            listed(items, separator) + separator + item
        },
{
    lemma_listed_push(items, separator, item);
}

/// What a row of decimal digits is worth.
pub open spec fn worth(digits: Seq<char>) -> int
    decreases digits.len(),
{
    if digits.len() == 0 {
        0
    } else {
        worth(digits.drop_last()) * 10 + (digits.last() as int - '0' as int)
    }
}

/// A number is written in digits that are worth it, without a zero in front.
pub proof fn a_number_is_worth_its_digits(value: nat)
    ensures
        worth(decimal(value)) == value,
        decimal(value).len() > 0,
        forall|i: int|
            0 <= i < decimal(value).len() ==> '0' as int <= #[trigger] decimal(value)[i] as int
                <= '9' as int,
        value > 0 ==> decimal(value)[0] != '0',
    decreases value,
{
    if value < 10 {
        let written = seq![digit(value)];
        assert(written.drop_last() =~= Seq::empty());
        assert(worth(written.drop_last()) == 0);
    } else {
        let before = decimal(value / 10);
        a_number_is_worth_its_digits(value / 10);
        assert(decimal(value).drop_last() =~= before);
        assert forall|i: int| 0 <= i < decimal(value).len() implies '0' as int
            <= #[trigger] decimal(value)[i] as int <= '9' as int by {
            if i < before.len() {
                assert(decimal(value)[i] == before[i]);
            }
        }
        assert(decimal(value)[0] == before[0]);
    }
}

/// A negative number is its size behind a minus sign, and any other is its size alone.
pub proof fn a_negative_number_is_its_size_behind_a_minus_sign(value: int)
    ensures
        value >= 0 ==> worth(signed_decimal(value)) == value && signed_decimal(value)[0] != '-',
        value < 0 ==> signed_decimal(value)[0] == '-' && worth(signed_decimal(value).skip(1))
            == -value,
{
    if value >= 0 {
        a_number_is_worth_its_digits(value as nat);
    } else {
        a_number_is_worth_its_digits((-value) as nat);
        assert(signed_decimal(value).skip(1) =~= decimal((-value) as nat));
    }
}

/// The texts of some keys are theirs, one for one.
pub proof fn every_key_gives_its_text<K: Text>(keys: Seq<K>, i: int)
    requires
        0 <= i < keys.len(),
    ensures
        texts_of(keys).len() == keys.len(),
        texts_of(keys)[i] == keys[i].text(),
{
}

} // verus!
