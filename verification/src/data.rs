//! The race state that the stock value is computed from, and the table of
//! the game's items with the value that each is worth to a racer.
use vstd::prelude::*;
use vstd::string::*;
use crate::text::{
    ascii_digits, char_is_ascii_digit, decimal, digit_char, digits_value, is_ascii_digit,
    parse_digits, push_char, push_decimal, push_signed, signed_decimal, str_eq,
};

verus! {

/// The items of the game, each with its worth from 0 (none) to 100.
pub open spec fn item_table() -> Seq<(Seq<char>, i32)> {
    seq![
        ("none"@, 0i32),
        ("blooper"@, 1i32),
        ("blue-shell"@, 2i32),
        ("coin"@, 5i32),
        ("coin-block"@, 5i32),
        ("boomerang"@, 5i32),
        ("hammers"@, 5i32),
        ("kamek"@, 10i32),
        ("ice-flower"@, 10i32),
        ("fire-flower"@, 10i32),
        ("coin-shell"@, 15i32),
        ("banana"@, 15i32),
        ("green-shell"@, 15i32),
        ("feather"@, 20i32),
        ("horn"@, 20i32),
        ("bombomb"@, 20i32),
        ("food"@, 20i32),
        ("red-shell"@, 20i32),
        ("lightning"@, 30i32),
        ("double-banana"@, 35i32),
        ("double-green-shell"@, 35i32),
        ("double-red-shell"@, 40i32),
        ("mushroom"@, 40i32),
        ("triple-banana"@, 45i32),
        ("triple-green-shell"@, 45i32),
        ("triple-red-shell"@, 50i32),
        ("double-mushroom"@, 55i32),
        ("triple-mushroom"@, 70i32),
        ("golden-mushroom"@, 85i32),
        ("mega-mushroom"@, 90i32),
        ("boo"@, 95i32),
        ("star"@, 95i32),
        ("bullet-bill"@, 100i32)
    ]
}

/// The names of the items, in the order of the table.
pub open spec fn item_names() -> Seq<Seq<char>> {
    item_table().map_values(|e: (Seq<char>, i32)| e.0)
}

/// The worth of the first entry of `t` named `name`, if any.
pub open spec fn lookup(t: Seq<(Seq<char>, i32)>, name: Seq<char>) -> Option<i32>
    decreases t.len(),
{
    if t.len() == 0 {
        None
    } else if t[0].0 == name {
        Some(t[0].1)
    } else {
        lookup(t.drop_first(), name)
    }
}

/// The worth of the item named `name`, if it is an item of the game.
pub open spec fn item_value(name: Seq<char>) -> Option<i32> {
    lookup(item_table(), name)
}

fn item_entries() -> (v: Vec<(&'static str, i32)>)
    ensures
        v@.map_values(|e: (&str, i32)| (e.0@, e.1)) == item_table(),
{
    let mut v: Vec<(&'static str, i32)> = Vec::new();
    v.push(("none", 0));
    v.push(("blooper", 1));
    v.push(("blue-shell", 2));
    v.push(("coin", 5));
    v.push(("coin-block", 5));
    v.push(("boomerang", 5));
    v.push(("hammers", 5));
    v.push(("kamek", 10));
    v.push(("ice-flower", 10));
    v.push(("fire-flower", 10));
    v.push(("coin-shell", 15));
    v.push(("banana", 15));
    v.push(("green-shell", 15));
    v.push(("feather", 20));
    v.push(("horn", 20));
    v.push(("bombomb", 20));
    v.push(("food", 20));
    v.push(("red-shell", 20));
    v.push(("lightning", 30));
    v.push(("double-banana", 35));
    v.push(("double-green-shell", 35));
    v.push(("double-red-shell", 40));
    v.push(("mushroom", 40));
    v.push(("triple-banana", 45));
    v.push(("triple-green-shell", 45));
    v.push(("triple-red-shell", 50));
    v.push(("double-mushroom", 55));
    v.push(("triple-mushroom", 70));
    v.push(("golden-mushroom", 85));
    v.push(("mega-mushroom", 90));
    v.push(("boo", 95));
    v.push(("star", 95));
    v.push(("bullet-bill", 100));
    assert(v@.map_values(|e: (&str, i32)| (e.0@, e.1)) =~= item_table());
    v
}

/// The worth of the item named `name`, if it is an item of the game.
pub fn get_item_value(name: &str) -> (r: Option<i32>)
    ensures
        r == item_value(name@),
{
    let entries = item_entries();
    let ghost t = entries@.map_values(|e: (&str, i32)| (e.0@, e.1));
    let n = entries.len();
    let mut i: usize = 0;
    assert(t.skip(0) =~= t);
    while i < n
        invariant
            n == entries@.len(),
            t == entries@.map_values(|e: (&str, i32)| (e.0@, e.1)),
            t == item_table(),
            i <= n,
            lookup(t, name@) == lookup(t.skip(i as int), name@),
        decreases n - i,
    {
        let (key, value) = entries[i];
        assert(t.skip(i as int)[0] == (key@, value));
        assert(t.skip(i as int).drop_first() =~= t.skip(i + 1));
        if str_eq(key, name) {
            return Some(value);
        }
        i = i + 1;
    }
    None
}


proof fn lemma_lookup(t: Seq<(Seq<char>, i32)>, name: Seq<char>)
    ensures
        lookup(t, name) is Some <==> t.map_values(|e: (Seq<char>, i32)| e.0).contains(name),
        lookup(t, name) matches Some(v) ==> exists|i: int| 0 <= i < t.len() && t[i] == (name, v),
    decreases t.len(),
{
    let keys = t.map_values(|e: (Seq<char>, i32)| e.0);
    if t.len() > 0 {
        lemma_lookup(t.drop_first(), name);
        let rest = t.drop_first().map_values(|e: (Seq<char>, i32)| e.0);
        assert(rest =~= keys.drop_first());
        if t[0].0 == name {
            assert(keys[0] == name);
        } else {
            if keys.contains(name) {
                let i = choose|i: int| 0 <= i < keys.len() && keys[i] == name;
                assert(rest[i - 1] == name);
            }
            if rest.contains(name) {
                let i = choose|i: int| 0 <= i < rest.len() && rest[i] == name;
                assert(keys[i + 1] == name);
            }
            if lookup(t, name) is Some {
                let v = lookup(t, name)->0;
                let i = choose|i: int| 0 <= i < t.drop_first().len() && t.drop_first()[i] == (name, v);
                assert(t[i + 1] == (name, v));
            }
        }
    }
}

/// An item name is valid exactly when it is one of the names that
/// `get_items` lists.
pub proof fn lemma_valid_items_are_listed(name: Seq<char>)
    ensures
        item_value(name) is Some <==> item_names().contains(name),
{
    lemma_lookup(item_table(), name);
}

/// Every item is worth between 0 and 100 (the table keeps to that range).
pub proof fn lemma_item_values_in_range(name: Seq<char>)
    ensures
        item_value(name) matches Some(v) ==> 0 <= v <= 100,
{
    lemma_lookup(item_table(), name);
    assert forall|i: int| 0 <= i < item_table().len() implies 0 <= #[trigger] item_table()[i].1 <= 100 by {
    }
}

/// No item name appears twice in the table, so each name has one worth.
pub proof fn lemma_item_names_distinct()
    ensures
        forall|i: int, j: int|
            0 <= i < j < item_names().len() ==> item_names()[i] != item_names()[j],
{
    reveal_strlit("none");
    reveal_strlit("blooper");
    reveal_strlit("blue-shell");
    reveal_strlit("coin");
    reveal_strlit("coin-block");
    reveal_strlit("boomerang");
    reveal_strlit("hammers");
    reveal_strlit("kamek");
    reveal_strlit("ice-flower");
    reveal_strlit("fire-flower");
    reveal_strlit("coin-shell");
    reveal_strlit("banana");
    reveal_strlit("green-shell");
    reveal_strlit("feather");
    reveal_strlit("horn");
    reveal_strlit("bombomb");
    reveal_strlit("food");
    reveal_strlit("red-shell");
    reveal_strlit("lightning");
    reveal_strlit("double-banana");
    reveal_strlit("double-green-shell");
    reveal_strlit("double-red-shell");
    reveal_strlit("mushroom");
    reveal_strlit("triple-banana");
    reveal_strlit("triple-green-shell");
    reveal_strlit("triple-red-shell");
    reveal_strlit("double-mushroom");
    reveal_strlit("triple-mushroom");
    reveal_strlit("golden-mushroom");
    reveal_strlit("mega-mushroom");
    reveal_strlit("boo");
    reveal_strlit("star");
    reveal_strlit("bullet-bill");
    assert(item_names()[0].len() == 4);
    assert(item_names()[1].len() == 7);
    assert(item_names()[2].len() == 10);
    assert(item_names()[3].len() == 4);
    assert(item_names()[4].len() == 10);
    assert(item_names()[5].len() == 9);
    assert(item_names()[6].len() == 7);
    assert(item_names()[7].len() == 5);
    assert(item_names()[8].len() == 10);
    assert(item_names()[9].len() == 11);
    assert(item_names()[10].len() == 10);
    assert(item_names()[11].len() == 6);
    assert(item_names()[12].len() == 11);
    assert(item_names()[13].len() == 7);
    assert(item_names()[14].len() == 4);
    assert(item_names()[15].len() == 7);
    assert(item_names()[16].len() == 4);
    assert(item_names()[17].len() == 9);
    assert(item_names()[18].len() == 9);
    assert(item_names()[19].len() == 13);
    assert(item_names()[20].len() == 18);
    assert(item_names()[21].len() == 16);
    assert(item_names()[22].len() == 8);
    assert(item_names()[23].len() == 13);
    assert(item_names()[24].len() == 18);
    assert(item_names()[25].len() == 16);
    assert(item_names()[26].len() == 15);
    assert(item_names()[27].len() == 15);
    assert(item_names()[28].len() == 15);
    assert(item_names()[29].len() == 13);
    assert(item_names()[30].len() == 3);
    assert(item_names()[31].len() == 4);
    assert(item_names()[32].len() == 11);
    assert(item_names()[0][0] != item_names()[3][0]);
    assert(item_names()[0][0] != item_names()[14][0]);
    assert(item_names()[0][0] != item_names()[16][0]);
    assert(item_names()[0][0] != item_names()[31][0]);
    assert(item_names()[1][0] != item_names()[6][0]);
    assert(item_names()[1][0] != item_names()[13][0]);
    assert(item_names()[1][1] != item_names()[15][1]);
    assert(item_names()[2][0] != item_names()[4][0]);
    assert(item_names()[2][0] != item_names()[8][0]);
    assert(item_names()[2][0] != item_names()[10][0]);
    assert(item_names()[3][0] != item_names()[14][0]);
    assert(item_names()[3][0] != item_names()[16][0]);
    assert(item_names()[3][0] != item_names()[31][0]);
    assert(item_names()[4][0] != item_names()[8][0]);
    assert(item_names()[4][5] != item_names()[10][5]);
    assert(item_names()[5][0] != item_names()[17][0]);
    assert(item_names()[5][0] != item_names()[18][0]);
    assert(item_names()[6][0] != item_names()[13][0]);
    assert(item_names()[6][0] != item_names()[15][0]);
    assert(item_names()[8][0] != item_names()[10][0]);
    assert(item_names()[9][0] != item_names()[12][0]);
    assert(item_names()[9][0] != item_names()[32][0]);
    assert(item_names()[12][0] != item_names()[32][0]);
    assert(item_names()[13][0] != item_names()[15][0]);
    assert(item_names()[14][0] != item_names()[16][0]);
    assert(item_names()[14][0] != item_names()[31][0]);
    assert(item_names()[16][0] != item_names()[31][0]);
    assert(item_names()[17][0] != item_names()[18][0]);
    assert(item_names()[19][0] != item_names()[23][0]);
    assert(item_names()[19][0] != item_names()[29][0]);
    assert(item_names()[20][0] != item_names()[24][0]);
    assert(item_names()[21][0] != item_names()[25][0]);
    assert(item_names()[23][0] != item_names()[29][0]);
    assert(item_names()[26][0] != item_names()[27][0]);
    assert(item_names()[26][0] != item_names()[28][0]);
    assert(item_names()[27][0] != item_names()[28][0]);
    assert forall|i: int, j: int| 0 <= i < j < item_names().len() implies item_names()[i]
        != item_names()[j] by {
        if item_names()[i] == item_names()[j] {
            assert(item_names()[i].len() == item_names()[j].len());
        }
    }
}

/// A character of an item name: a lowercase ASCII letter or '-'.
pub open spec fn is_name_char(c: char) -> bool {
    (97 <= (c as u32) <= 122) || c == '-'
}

/// The shape of every item name: not empty, made of lowercase letters and
/// '-', and neither starting nor ending with '-'.
pub open spec fn name_shaped(k: Seq<char>) -> bool {
    &&& k.len() > 0
    &&& forall|i: int| 0 <= i < k.len() ==> is_name_char(#[trigger] k[i])
    &&& k[0] != '-'
    &&& k.last() != '-'
}

/// Every item name has the shape of `name_shaped`.
pub proof fn lemma_item_names_shaped(k: Seq<char>)
    requires
        item_names().contains(k),
    ensures
        name_shaped(k),
{
    reveal_strlit("none");
    reveal_strlit("blooper");
    reveal_strlit("blue-shell");
    reveal_strlit("coin");
    reveal_strlit("coin-block");
    reveal_strlit("boomerang");
    reveal_strlit("hammers");
    reveal_strlit("kamek");
    reveal_strlit("ice-flower");
    reveal_strlit("fire-flower");
    reveal_strlit("coin-shell");
    reveal_strlit("banana");
    reveal_strlit("green-shell");
    reveal_strlit("feather");
    reveal_strlit("horn");
    reveal_strlit("bombomb");
    reveal_strlit("food");
    reveal_strlit("red-shell");
    reveal_strlit("lightning");
    reveal_strlit("double-banana");
    reveal_strlit("double-green-shell");
    reveal_strlit("double-red-shell");
    reveal_strlit("mushroom");
    reveal_strlit("triple-banana");
    reveal_strlit("triple-green-shell");
    reveal_strlit("triple-red-shell");
    reveal_strlit("double-mushroom");
    reveal_strlit("triple-mushroom");
    reveal_strlit("golden-mushroom");
    reveal_strlit("mega-mushroom");
    reveal_strlit("boo");
    reveal_strlit("star");
    reveal_strlit("bullet-bill");
    assert(name_shaped(item_names()[0]));
    assert(name_shaped(item_names()[1]));
    assert(name_shaped(item_names()[2]));
    assert(name_shaped(item_names()[3]));
    assert(name_shaped(item_names()[4]));
    assert(name_shaped(item_names()[5]));
    assert(name_shaped(item_names()[6]));
    assert(name_shaped(item_names()[7]));
    assert(name_shaped(item_names()[8]));
    assert(name_shaped(item_names()[9]));
    assert(name_shaped(item_names()[10]));
    assert(name_shaped(item_names()[11]));
    assert(name_shaped(item_names()[12]));
    assert(name_shaped(item_names()[13]));
    assert(name_shaped(item_names()[14]));
    assert(name_shaped(item_names()[15]));
    assert(name_shaped(item_names()[16]));
    assert(name_shaped(item_names()[17]));
    assert(name_shaped(item_names()[18]));
    assert(name_shaped(item_names()[19]));
    assert(name_shaped(item_names()[20]));
    assert(name_shaped(item_names()[21]));
    assert(name_shaped(item_names()[22]));
    assert(name_shaped(item_names()[23]));
    assert(name_shaped(item_names()[24]));
    assert(name_shaped(item_names()[25]));
    assert(name_shaped(item_names()[26]));
    assert(name_shaped(item_names()[27]));
    assert(name_shaped(item_names()[28]));
    assert(name_shaped(item_names()[29]));
    assert(name_shaped(item_names()[30]));
    assert(name_shaped(item_names()[31]));
    assert(name_shaped(item_names()[32]));
    let i = choose|i: int| 0 <= i < item_names().len() && item_names()[i] == k;
    assert(name_shaped(item_names()[i]));
}

proof fn lemma_lookup_at(t: Seq<(Seq<char>, i32)>, i: int)
    requires
        0 <= i < t.len(),
        forall|j: int| 0 <= j < i ==> #[trigger] t[j].0 != t[i].0,
    ensures
        lookup(t, t[i].0) == Some(t[i].1),
    decreases i,
{
    if i > 0 {
        let rest = t.drop_first();
        assert forall|j: int| 0 <= j < i - 1 implies #[trigger] rest[j].0 != rest[i - 1].0 by {
            assert(rest[j] == t[j + 1]);
        }
        lemma_lookup_at(rest, i - 1);
        assert(rest[i - 1] == t[i]);
    }
}

/// The worth of every item of the game, as the game prices them.
pub proof fn lemma_item_worths()
    ensures
        item_value("none"@) == Some(0i32),
        item_value("blooper"@) == Some(1i32),
        item_value("blue-shell"@) == Some(2i32),
        item_value("coin"@) == Some(5i32),
        item_value("coin-block"@) == Some(5i32),
        item_value("boomerang"@) == Some(5i32),
        item_value("hammers"@) == Some(5i32),
        item_value("kamek"@) == Some(10i32),
        item_value("ice-flower"@) == Some(10i32),
        item_value("fire-flower"@) == Some(10i32),
        item_value("coin-shell"@) == Some(15i32),
        item_value("banana"@) == Some(15i32),
        item_value("green-shell"@) == Some(15i32),
        item_value("feather"@) == Some(20i32),
        item_value("horn"@) == Some(20i32),
        item_value("bombomb"@) == Some(20i32),
        item_value("food"@) == Some(20i32),
        item_value("red-shell"@) == Some(20i32),
        item_value("lightning"@) == Some(30i32),
        item_value("double-banana"@) == Some(35i32),
        item_value("double-green-shell"@) == Some(35i32),
        item_value("double-red-shell"@) == Some(40i32),
        item_value("mushroom"@) == Some(40i32),
        item_value("triple-banana"@) == Some(45i32),
        item_value("triple-green-shell"@) == Some(45i32),
        item_value("triple-red-shell"@) == Some(50i32),
        item_value("double-mushroom"@) == Some(55i32),
        item_value("triple-mushroom"@) == Some(70i32),
        item_value("golden-mushroom"@) == Some(85i32),
        item_value("mega-mushroom"@) == Some(90i32),
        item_value("boo"@) == Some(95i32),
        item_value("star"@) == Some(95i32),
        item_value("bullet-bill"@) == Some(100i32),
{
    lemma_item_names_distinct();
    assert forall|i: int, j: int| 0 <= j < i < item_table().len() implies #[trigger] item_table()[j].0
        != #[trigger] item_table()[i].0 by {
        assert(item_names()[j] == item_table()[j].0);
        assert(item_names()[i] == item_table()[i].0);
    }
    lemma_lookup_at(item_table(), 0);
    lemma_lookup_at(item_table(), 1);
    lemma_lookup_at(item_table(), 2);
    lemma_lookup_at(item_table(), 3);
    lemma_lookup_at(item_table(), 4);
    lemma_lookup_at(item_table(), 5);
    lemma_lookup_at(item_table(), 6);
    lemma_lookup_at(item_table(), 7);
    lemma_lookup_at(item_table(), 8);
    lemma_lookup_at(item_table(), 9);
    lemma_lookup_at(item_table(), 10);
    lemma_lookup_at(item_table(), 11);
    lemma_lookup_at(item_table(), 12);
    lemma_lookup_at(item_table(), 13);
    lemma_lookup_at(item_table(), 14);
    lemma_lookup_at(item_table(), 15);
    lemma_lookup_at(item_table(), 16);
    lemma_lookup_at(item_table(), 17);
    lemma_lookup_at(item_table(), 18);
    lemma_lookup_at(item_table(), 19);
    lemma_lookup_at(item_table(), 20);
    lemma_lookup_at(item_table(), 21);
    lemma_lookup_at(item_table(), 22);
    lemma_lookup_at(item_table(), 23);
    lemma_lookup_at(item_table(), 24);
    lemma_lookup_at(item_table(), 25);
    lemma_lookup_at(item_table(), 26);
    lemma_lookup_at(item_table(), 27);
    lemma_lookup_at(item_table(), 28);
    lemma_lookup_at(item_table(), 29);
    lemma_lookup_at(item_table(), 30);
    lemma_lookup_at(item_table(), 31);
    lemma_lookup_at(item_table(), 32);
}

/// Whether `item` names an item of the game.
pub fn valid_item(item: &str) -> (b: bool)
    ensures
        b == (item_value(item@) is Some),
{
    get_item_value(item).is_some()
}

/// The names of all the items of the game.
pub fn get_items() -> (v: Vec<String>)
    ensures
        v@.map_values(|s: String| s@) == item_names(),
{
    let entries = item_entries();
    let ghost t = entries@.map_values(|e: (&str, i32)| (e.0@, e.1));
    let n = entries.len();
    let mut names: Vec<String> = Vec::new();
    let mut i: usize = 0;
    while i < n
        invariant
            n == entries@.len(),
            t == entries@.map_values(|e: (&str, i32)| (e.0@, e.1)),
            t == item_table(),
            i <= n,
            names@.map_values(|s: String| s@) =~= item_names().take(i as int),
        decreases n - i,
    {
        let (key, _) = entries[i];
        assert(t[i as int].0 == key@);
        names.push(String::from_str(key));
        assert(item_names().take(i + 1) =~= item_names().take(i as int).push(key@));
        i = i + 1;
    }
    assert(item_names().take(n as int) =~= item_names());
    names
}

/// Reads the number that the ASCII digits of `input` spell, ignoring every
/// other character; `None` when there are no digits or the number does not
/// fit in a `u32`.
pub fn string_to_number(input: &str) -> (r: Option<u32>)
    ensures
        r == parse_digits(ascii_digits(input@)),
{
    let s = input;
    let n = s.unicode_len();
    let mut i: usize = 0;
    let mut count: usize = 0;
    let mut big = false;
    let mut v: u64 = 0;
    while i < n
        invariant
            n == s@.len(),
            i <= n,
            count == ascii_digits(s@.take(i as int)).len(),
            count <= i,
            !big ==> v == digits_value(ascii_digits(s@.take(i as int))) && v <= u32::MAX,
            big ==> digits_value(ascii_digits(s@.take(i as int))) > u32::MAX,
        decreases n - i,
    {
        let c = s.get_char(i);
        let ghost prev = ascii_digits(s@.take(i as int));
        assert(s@.take(i + 1).drop_last() =~= s@.take(i as int));
        assert(s@.take(i + 1).last() == c);
        assert(prev.push(c).drop_last() =~= prev);
        if char_is_ascii_digit(c) {
            assert(ascii_digits(s@.take(i + 1)) == prev.push(c));
            assert(digits_value(prev.push(c)) == digits_value(prev) * 10 + ((c as u32) - 48) as nat);
            let d: u64 = (c as u32 - 48) as u64;
            if !big {
                let nv = v * 10 + d;
                if nv > 4294967295u64 {
                    big = true;
                } else {
                    v = nv;
                }
            }
            count = count + 1;
        } else {
            assert(ascii_digits(s@.take(i + 1)) == prev);
        }
        i = i + 1;
    }
    assert(s@.take(n as int) =~= s@);
    if count == 0 || big {
        None
    } else {
        Some(v as u32)
    }
}


/// The highest coin count a racer can hold; larger readings are misreadings.
pub const MAX_COINS: u32 = 20;

/// The model slot that placement crops are identified in.
pub const PLACEMENT_SLOT: u64 = 0;

/// The model slot that item crops are identified in.
pub const ITEMS_SLOT: u64 = 1;

/// The placement a racer has before a race shows one (last of 24).
pub const LAST_PLACE: u32 = 24;

/// The state of the current race, and the stock value computed from it.
///
/// The clock readings (when the value was last computed and when the race
/// started) stay with the caller, which hands the elapsed race time to
/// `race_inputs`.
pub struct State {
    /// The stock price while no race is running.
    pub initial_price: i32,
    pub running: bool,
    pub racing: bool,
    pub place: u32,
    pub first_item: String,
    pub second_item: String,
    pub coin_count: u32,
    pub value: i32,
    pub recent_buys: Vec<i32>,
    pub recent_sells: Vec<i32>,
}

/// The race readings that the stock equation works on, as whole numbers:
/// places ahead of last, the worth of both held items, coins and seconds raced.
pub struct RaceInputs {
    pub places_ahead: u32,
    pub first_item_value: i32,
    pub second_item_value: i32,
    pub coin_count: u32,
    pub race_secs: u64,
}

impl State {
    /// Both held items are items of the game (the item worth table is read
    /// for them when the value is computed).
    pub open spec fn wf(&self) -> bool {
        &&& item_value(self.first_item@) is Some
        &&& item_value(self.second_item@) is Some
    }

    /// A fresh state: running, not racing, last place, no items, no coins.
    pub fn new(initial_price: i32) -> (s: State)
        ensures
            s.wf(),
            s.initial_price == initial_price,
            s.running,
            !s.racing,
            s.place == LAST_PLACE,
            s.first_item@ == "none"@,
            s.second_item@ == "none"@,
            s.coin_count == 0,
            s.value == 0,
            s.recent_buys@.len() == 0,
            s.recent_sells@.len() == 0,
    {
        proof {
            reveal_strlit("none");
            assert(item_value("none"@) == Some(0i32));
        }
        State {
            initial_price,
            running: true,
            racing: false,
            place: LAST_PLACE,
            first_item: String::from_str("none"),
            second_item: String::from_str("none"),
            coin_count: 0,
            value: 0,
            recent_buys: Vec::new(),
            recent_sells: Vec::new(),
        }
    }

    /// Whether both held items are items of the game (`wf`).
    pub fn is_wf(&self) -> (b: bool)
        ensures
            b == self.wf(),
    {
        valid_item(self.first_item.as_str()) && valid_item(self.second_item.as_str())
    }

    /// The whole-number readings of the race for the stock equation, with
    /// `race_secs` the seconds since the race started.
    pub fn race_inputs(&self, race_secs: u64) -> (r: RaceInputs)
        requires
            self.wf(),
            self.place <= LAST_PLACE,
        ensures
            r.places_ahead == LAST_PLACE - self.place,
            Some(r.first_item_value) == item_value(self.first_item@),
            Some(r.second_item_value) == item_value(self.second_item@),
            r.coin_count == self.coin_count,
            r.race_secs == race_secs,
    {
        let first = get_item_value(self.first_item.as_str());
        let second = get_item_value(self.second_item.as_str());
        RaceInputs {
            places_ahead: LAST_PLACE - self.place,
            first_item_value: first.unwrap(),
            second_item_value: second.unwrap(),
            coin_count: self.coin_count,
            race_secs,
        }
    }

    /// Places ahead of last, which the price paid out when a race ends scales with.
    pub fn places_ahead(&self) -> (r: u32)
        requires
            self.place <= LAST_PLACE,
        ensures
            r == LAST_PLACE - self.place,
    {
        LAST_PLACE - self.place
    }

    /// Sets the stock value: `race_value` (what the equation gave for the
    /// race readings) while racing, the initial price otherwise.
    pub fn update_value(&mut self, race_value: i32)
        ensures
            final(self).value == if old(self).racing {
                race_value
            } else {
                old(self).initial_price
            },
            *final(self) == (State { value: final(self).value, ..*old(self) }),
    {
        if self.racing {
            self.value = race_value;
        } else {
            self.value = self.initial_price;
        }
    }

    /// Whether a cycle of the reading loop reads a frame: only while a race runs.
    pub fn wants_frame(&self) -> (b: bool)
        ensures
            b == self.racing,
    {
        self.racing
    }

    /// Ends a cycle of the reading loop: sets the value (as `update_value`
    /// does with `race_value`), forgets the cycle's buys and sells, and
    /// returns whether the loop goes on, which it does while running.
    pub fn finish_cycle(&mut self, race_value: i32) -> (go_on: bool)
        ensures
            go_on == old(self).running,
            final(self).value == if old(self).racing {
                race_value
            } else {
                old(self).initial_price
            },
            final(self).recent_buys@.len() == 0,
            final(self).recent_sells@.len() == 0,
            *final(self) == (State {
                value: final(self).value,
                recent_buys: final(self).recent_buys,
                recent_sells: final(self).recent_sells,
                ..*old(self)
            }),
    {
        self.update_value(race_value);
        self.clear_recent();
        self.running
    }

    /// Takes in what was read off a frame: a placement when one was read, the
    /// two item names when they are items of the game, and a coin count when
    /// one was read and is at most `MAX_COINS`. Everything else stays.
    pub fn apply_reading(
        &mut self,
        place: Option<u32>,
        first_item: &str,
        second_item: &str,
        coins: Option<u32>,
    )
        ensures
            old(self).wf() ==> final(self).wf(),
            final(self).place == match place {
                Some(p) => p,
                None => old(self).place,
            },
            final(self).first_item@ == if item_value(first_item@) is Some {
                first_item@
            } else {
                old(self).first_item@
            },
            final(self).second_item@ == if item_value(second_item@) is Some {
                second_item@
            } else {
                old(self).second_item@
            },
            final(self).coin_count == match coins {
                Some(c) if c <= MAX_COINS => c,
                _ => old(self).coin_count,
            },
            final(self).initial_price == old(self).initial_price,
            final(self).running == old(self).running,
            final(self).racing == old(self).racing,
            final(self).value == old(self).value,
            final(self).recent_buys == old(self).recent_buys,
            final(self).recent_sells == old(self).recent_sells,
    {
        if let Some(p) = place {
            self.place = p;
        }
        if valid_item(first_item) {
            self.first_item = String::from_str(first_item);
        }
        if valid_item(second_item) {
            self.second_item = String::from_str(second_item);
        }
        if let Some(c) = coins {
            if c <= MAX_COINS {
                self.coin_count = c;
            }
        }
    }

    /// Starts a race when none runs and ends the one that runs; returns
    /// whether a race runs now.
    pub fn toggle_racing(&mut self) -> (racing: bool)
        ensures
            racing == !old(self).racing,
            *final(self) == (State { racing, ..*old(self) }),
    {
        self.racing = !self.racing;
        self.racing
    }

    /// Forgets the buys and sells of the last cycle.
    pub fn clear_recent(&mut self)
        ensures
            final(self).recent_buys@.len() == 0,
            final(self).recent_sells@.len() == 0,
            *final(self) == (State {
                recent_buys: final(self).recent_buys,
                recent_sells: final(self).recent_sells,
                ..*old(self)
            }),
    {
        self.recent_buys = Vec::new();
        self.recent_sells = Vec::new();
    }

    /// A one-line summary for the log:
    /// `<racing> [place, coins¢, first item, second item] -> value`.
    pub fn describe(&self) -> (s: String)
        ensures
            s@ == seq!['<'] + bool_text(self.racing) + seq!['>', ' ', '['] + decimal(
                self.place as nat,
            ) + seq![',', ' '] + decimal(self.coin_count as nat) + seq!['¢', ',', ' ']
                + self.first_item@ + seq![',', ' '] + self.second_item@ + seq![
                ']',
                ' ',
                '-',
                '>',
                ' ',
            ] + signed_decimal(self.value as int),
    {
        let mut s = String::new();
        push_char(&mut s, '<');
        push_bool(&mut s, self.racing);
        push_char(&mut s, '>');
        push_char(&mut s, ' ');
        push_char(&mut s, '[');
        push_decimal(&mut s, self.place as u64);
        push_char(&mut s, ',');
        push_char(&mut s, ' ');
        push_decimal(&mut s, self.coin_count as u64);
        push_char(&mut s, '¢');
        push_char(&mut s, ',');
        push_char(&mut s, ' ');
        s.append(self.first_item.as_str());
        push_char(&mut s, ',');
        push_char(&mut s, ' ');
        s.append(self.second_item.as_str());
        push_char(&mut s, ']');
        push_char(&mut s, ' ');
        push_char(&mut s, '-');
        push_char(&mut s, '>');
        push_char(&mut s, ' ');
        push_signed(&mut s, self.value as i64);
        s
    }
}

/// What the bot says in chat when a race starts.
pub fn race_start_message() -> (s: String)
    ensures
        s@ == "Starting race!"@,
{
    String::from_str("Starting race!")
}

/// What the bot says in chat when a race ends and every share is paid out
/// at `value`.
pub fn sell_all_message(value: i32) -> (s: String)
    ensures
        s@ == "Selling to all investors at $"@ + signed_decimal(value as int) + "."@,
{
    let mut s = String::from_str("Selling to all investors at $");
    push_signed(&mut s, value as i64);
    s.append(".");
    s
}

/// How a `bool` prints: `true` or `false`.
pub open spec fn bool_text(b: bool) -> Seq<char> {
    if b {
        seq!['t', 'r', 'u', 'e']
    } else {
        seq!['f', 'a', 'l', 's', 'e']
    }
}

fn push_bool(s: &mut String, b: bool)
    ensures
        final(s)@ == old(s)@ + bool_text(b),
{
    if b {
        push_char(s, 't');
        push_char(s, 'r');
        push_char(s, 'u');
        push_char(s, 'e');
    } else {
        push_char(s, 'f');
        push_char(s, 'a');
        push_char(s, 'l');
        push_char(s, 's');
        push_char(s, 'e');
    }
}


proof fn lemma_decimal_is_digits(n: nat)
    ensures
        ascii_digits(decimal(n)) == decimal(n),
        digits_value(decimal(n)) == n,
        decimal(n).len() > 0,
    decreases n,
{
    let c = digit_char(n % 10);
    assert((c as u32) == 48 + n % 10);
    assert(is_ascii_digit(c));
    if n < 10 {
        assert(decimal(n) == seq![c]);
        assert(decimal(n).drop_last() =~= Seq::<char>::empty());
        assert(decimal(n).last() == c);
        assert(ascii_digits(Seq::<char>::empty()) == Seq::<char>::empty());
        assert(digits_value(Seq::<char>::empty()) == 0);
        assert(ascii_digits(decimal(n)) == ascii_digits(decimal(n).drop_last()).push(c));
        assert(ascii_digits(decimal(n)) =~= decimal(n));
    } else {
        lemma_decimal_is_digits(n / 10);
        assert(decimal(n) == decimal(n / 10).push(c));
        assert(decimal(n).drop_last() =~= decimal(n / 10));
        assert(decimal(n).last() == c);
        assert((n / 10) * 10 + n % 10 == n);
        assert(ascii_digits(decimal(n)) == ascii_digits(decimal(n).drop_last()).push(c));
    }
}

/// Reading back the decimal text of a number gives the number:
/// `string_to_number` undoes the formatting of any `u32`.
pub proof fn lemma_string_to_number_reads_decimal(n: u32)
    ensures
        parse_digits(ascii_digits(decimal(n as nat))) == Some(n),
{
    lemma_decimal_is_digits(n as nat);
}

} // verus!
