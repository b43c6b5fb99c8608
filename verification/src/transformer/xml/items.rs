//! The items of the build, each as the text that the building tool reads.

use super::skills::{number_in, property_named, read_number};
use super::slot::ItemSet;
use super::{join_parts, join_texts, joined, texts_of, Xml};
use crate::db::{found_last, lookup};
use crate::model;
use crate::model::items::{ItemProperty, ItemRequirement, Socket};
use crate::text::{
    concat, decimal, lines_of, push_decimal, push_decimal_nat, replace, replaced, split_lines,
    str_eq, decimal_nat,
};
use vstd::prelude::*;

verus! {

/// The rarity of an item by the kind of its frame.
pub const RARITY_TABLE: [&'static str; 11] = [
    "NORMAL",
    "MAGIC",
    "RARE",
    "UNIQUE",
    "",
    "",
    "",
    "",
    "",
    "RELIC",
    "RELIC",
];

/// The base type of the Energy Blade as the building tool knows it.
pub const POB_BASE_TYPE_ENERGY_BLADE: &'static str = "Energy Blade One Handed";

/// The name of an item as the building tool writes it: without the marks
/// above its letters.
pub open spec fn pob_item_name(name: Seq<char>) -> Seq<char> {
    if name == "Doppelgänger Guise"@ {
        "Doppelganger Guise"@
    } else if name == "Mjölner"@ {
        "Mjolner"@
    } else {
        name
    }
}

/// The base type that the building tool knows under another name.
pub open spec fn pob_base_type(base_type: Seq<char>) -> Option<Seq<char>> {
    if base_type == "Energy Blade"@ {
        Some(POB_BASE_TYPE_ENERGY_BLADE@)
    } else if base_type == "Maelström Staff"@ {
        Some("Maelstrom Staff"@)
    } else {
        None
    }
}

/// The name of an item as the building tool writes it.
pub fn item_name(name: &str) -> (r: String)
    ensures
        r@ == pob_item_name(name@),
{
    if str_eq(name, "Doppelgänger Guise") {
        "Doppelganger Guise".to_owned()
    } else if str_eq(name, "Mjölner") {
        "Mjolner".to_owned()
    } else {
        name.to_owned()
    }
}

/// The base type that the building tool knows under another name.
pub fn known_base_type(base_type: &str) -> (r: Option<&'static str>)
    ensures
        match r {
            Some(name) => pob_base_type(base_type@) == Some(name@),
            None => pob_base_type(base_type@) is None,
        },
{
    if str_eq(base_type, "Energy Blade") {
        Some(POB_BASE_TYPE_ENERGY_BLADE)
    } else if str_eq(base_type, "Maelström Staff") {
        Some("Maelstrom Staff")
    } else {
        None
    }
}

/// The first value of the last property of a name.
pub open spec fn value_named(props: Option<Vec<ItemProperty>>, name: Seq<char>) -> Option<
    Seq<char>,
> {
    match property_named(props, name) {
        Some(p) => Some(p.values[0].0@),
        None => None,
    }
}

/// Whether the last property of a name, if there is one, has a value.
pub open spec fn has_value(props: Option<Vec<ItemProperty>>, name: Seq<char>) -> bool {
    property_named(props, name) matches Some(p) ==> p.values.len() > 0
}

/// The last requirement of a name among the requirements of an item.
pub open spec fn requirement_named(reqs: Option<Vec<ItemRequirement>>, name: Seq<char>) -> Option<
    ItemRequirement,
> {
    match reqs {
        Some(list) => found_last(list@, name),
        None => None,
    }
}

/// The sockets of an item up to the `n`th: their colours, with a hyphen
/// between two of one group and a blank between two of different groups.
pub open spec fn socket_line(sockets: Seq<Socket>, n: int) -> Seq<char>
    decreases n,
{
    if n <= 0 {
        seq![]
    } else if n == 1 {
        sockets[0].s_colour@
    } else {
        socket_line(sockets, n - 1) + if sockets[n - 1].group == sockets[n - 2].group {
            "-"@
        } else {
            " "@
        } + sockets[n - 1].s_colour@
    }
}

/// How many of the first `n` sockets are abyssal.
pub open spec fn abyssal_count(sockets: Seq<Socket>, n: int) -> nat
    decreases n,
{
    if n <= 0 {
        0
    } else if sockets[n - 1].s_colour@ == "A"@ {
        abyssal_count(sockets, n - 1) + 1
    } else {
        abyssal_count(sockets, n - 1)
    }
}

/// A line without the carriage return at its end.
pub open spec fn without_cr(line: Seq<char>) -> Seq<char> {
    if line.len() > 0 && line.last() == '\r' {
        line.drop_last()
    } else {
        line
    }
}

/// The lines of a text, each without its line feed and without a carriage
/// return before it. A line feed at the end of the text begins no line.
pub open spec fn text_lines(s: Seq<char>) -> Seq<Seq<char>> {
    let pieces = lines_of(s);
    Seq::new(
        if pieces.last().len() == 0 {
            (pieces.len() - 1) as nat
        } else {
            pieces.len()
        },
        |i: int|
            if i < pieces.len() - 1 {
                without_cr(pieces[i])
            } else {
                pieces[i]
            },
    )
}

/// The lines of the first `n` texts, one text after the other.
pub open spec fn all_lines(mods: Seq<Seq<char>>, n: int) -> Seq<Seq<char>>
    decreases n,
{
    if n <= 0 {
        seq![]
    } else {
        all_lines(mods, n - 1) + text_lines(mods[n - 1])
    }
}

/// The lines of some modifiers, none where there are no modifiers.
pub open spec fn mod_lines(mods: Option<Vec<String>>) -> Seq<Seq<char>> {
    match mods {
        Some(list) => all_lines(list.deep_view(), list.len() as int),
        None => seq![],
    }
}

/// Splits a text into its lines.
pub fn split_text_lines(s: &str) -> (r: Vec<String>)
    ensures
        r.deep_view() == text_lines(s@),
{
    let mut pieces = split_lines(s);
    let ghost all = pieces.deep_view();
    let n = pieces.len();
    let mut out: Vec<String> = Vec::new();
    let mut i: usize = 0;
    while i < n
        invariant
            i <= n,
            n == pieces.len(),
            n >= 1,
            all == pieces.deep_view(),
            out.len() == if i == n && all.last().len() == 0 {
                (n - 1) as int
            } else {
                i as int
            },
            forall|j: int|
                0 <= j < out.len() ==> (#[trigger] out.deep_view()[j]) == if j < n - 1 {
                    without_cr(all[j])
                } else {
                    all[j]
                },
        decreases n - i,
    {
        assert(all[i as int] == pieces[i as int]@);
        let chars = crate::text::to_chars(pieces[i].as_str());
        let ghost before = out.deep_view();
        if i + 1 < n {
            let m = chars.len();
            let line = if m > 0 && chars[m - 1] == '\r' {
                crate::text::from_chars(&chars, 0, m - 1)
            } else {
                crate::text::from_chars(&chars, 0, m)
            };
            assert(line@ == without_cr(all[i as int])) by {
                assert(chars@.subrange(0, m as int) =~= chars@);
                if m > 0 {
                    assert(chars@.subrange(0, m - 1) =~= chars@.drop_last());
                }
            }
            let ghost text = line@;
            out.push(line);
            assert(out.deep_view() =~= before.push(text));
        } else if chars.len() > 0 {
            let line = crate::text::from_chars(&chars, 0, chars.len());
            assert(chars@.subrange(0, chars.len() as int) =~= chars@);
            let ghost text = line@;
            out.push(line);
            assert(out.deep_view() =~= before.push(text));
        }
        i += 1;
    }
    assert(out.deep_view() =~= text_lines(s@));
    out
}

/// The lines of some modifiers.
pub fn split_mods(mods: &Option<Vec<String>>) -> (r: Vec<String>)
    ensures
        r.deep_view() == mod_lines(*mods),
{
    let mut out: Vec<String> = Vec::new();
    match mods {
        Some(list) => {
            let ghost all = list.deep_view();
            let mut i: usize = 0;
            assert(out.deep_view() =~= all_lines(all, 0));
            while i < list.len()
                invariant
                    i <= list.len(),
                    all == list.deep_view(),
                    out.deep_view() == all_lines(all, i as int),
                decreases list.len() - i,
            {
                assert(all[i as int] == list[i as int]@);
                let mut lines = split_text_lines(list[i].as_str());
                let ghost before = out.deep_view();
                let ghost more = lines.deep_view();
                out.append(&mut lines);
                assert(out.deep_view() =~= before + more);
                i += 1;
            }
        },
        None => {
            assert(out.deep_view() =~= Seq::<Seq<char>>::empty());
        },
    }
    out
}

/// An item of the build.
#[derive(Debug)]
pub struct Item {
    pub id: usize,
    pub rarity: String,
    pub name: String,
    pub type_line: String,
    pub base_type: String,
    pub evasion: Option<String>,
    pub energy_shield: Option<String>,
    pub armour: Option<String>,
    pub ward: Option<String>,
    pub unique_id: String,
    pub shaper: Option<bool>,
    pub elder: Option<bool>,
    pub warlord: Option<bool>,
    pub hunter: Option<bool>,
    pub crusader: Option<bool>,
    pub redeemer: Option<bool>,
    pub searing: Option<bool>,
    pub tangled: Option<bool>,
    pub ilvl: i32,
    pub quality: Option<i32>,
    pub sockets: Option<String>,
    pub radius: Option<String>,
    pub limited_to: Option<String>,
    pub requires_class: Option<String>,
    pub enchant_mods: Vec<String>,
    pub implicit_mods: Vec<String>,
    pub explicit_mods: Vec<String>,
    pub fractured_mods: Vec<String>,
    pub crafted_mods: Vec<String>,
    pub crucible_mods: Vec<String>,
    pub corrupted: bool,
}

/// The items of the build and the set they form.
#[derive(Debug)]
pub struct Items {
    pub items: Vec<Item>,
    pub item_set: ItemSet,
}

/// The text of an exec value, if there is one.
pub open spec fn text_of(value: Option<String>) -> Option<Seq<char>> {
    match value {
        Some(s) => Some(s@),
        None => None,
    }
}

/// Whether an item of the export can become an item of the build: its
/// frame is of a known kind, and each property and requirement that the
/// build reads has a value.
pub open spec fn convertible(item: model::items::Item) -> bool {
    &&& item.frame_type < 11
    &&& has_value(item.properties, "Evasion Rating"@)
    &&& has_value(item.properties, "Energy Shield"@)
    &&& has_value(item.properties, "Armour"@)
    &&& has_value(item.properties, "Ward"@)
    &&& has_value(item.properties, "Quality"@)
    &&& has_value(item.properties, "Radius"@)
    &&& has_value(item.properties, "Limited to"@)
    &&& requirement_named(item.requirements, "Class:"@) matches Some(r) ==> r.values.len() > 0
}

/// How many of the sockets of an item are abyssal.
pub open spec fn abyssal_sockets(item: model::items::Item) -> nat {
    match item.sockets {
        Some(sockets) => abyssal_count(sockets@, sockets.len() as int),
        None => 0,
    }
}

/// Whether an item is an Energy Blade as the building tool knows it.
pub open spec fn is_energy_blade(item: model::items::Item) -> bool {
    item.base_type@ == POB_BASE_TYPE_ENERGY_BLADE@
}

/// Whether `new` is the item of the build that the item `item` of the
/// export becomes under the number `id`.
pub open spec fn item_converted(id: usize, item: model::items::Item, new: Item) -> bool {
    &&& new.id == id
    &&& new.rarity@ == RARITY_TABLE[item.frame_type as int]@
    &&& new.name@ == pob_item_name(item.name@)
    &&& new.base_type@ == match pob_base_type(item.base_type@) {
        Some(known) => known,
        None => item.base_type@,
    }
    &&& new.type_line@ == match pob_base_type(item.base_type@) {
        Some(known) => replaced(item.type_line@, item.base_type@, known),
        None => item.type_line@,
    }
    &&& text_of(new.evasion) == value_named(item.properties, "Evasion Rating"@)
    &&& text_of(new.energy_shield) == value_named(item.properties, "Energy Shield"@)
    &&& text_of(new.armour) == value_named(item.properties, "Armour"@)
    &&& text_of(new.ward) == value_named(item.properties, "Ward"@)
    &&& new.unique_id@ == item.id@
    &&& new.shaper == match item.influences {
        Some(i) => i.shaper,
        None => None,
    }
    &&& new.elder == match item.influences {
        Some(i) => i.elder,
        None => None,
    }
    &&& new.warlord == match item.influences {
        Some(i) => i.warlord,
        None => None,
    }
    &&& new.hunter == match item.influences {
        Some(i) => i.hunter,
        None => None,
    }
    &&& new.crusader == match item.influences {
        Some(i) => i.crusader,
        None => None,
    }
    &&& new.redeemer == match item.influences {
        Some(i) => i.redeemer,
        None => None,
    }
    &&& new.searing == item.searing
    &&& new.tangled == item.tangled
    &&& new.ilvl == item.ilvl
    &&& new.quality == match property_named(item.properties, "Quality"@) {
        Some(p) => number_in(p),
        None => None,
    }
    &&& text_of(new.sockets) == match item.sockets {
        Some(sockets) => if sockets.len() > 0 {
            Some(socket_line(sockets@, sockets.len() as int))
        } else {
            None
        },
        None => None,
    }
    &&& text_of(new.radius) == value_named(item.properties, "Radius"@)
    &&& text_of(new.limited_to) == value_named(item.properties, "Limited to"@)
    &&& text_of(new.requires_class) == match requirement_named(item.requirements, "Class:"@) {
        Some(r) => Some(r.values[0].0@),
        None => None,
    }
    &&& new.enchant_mods.deep_view() == mod_lines(item.enchant_mods)
    &&& new.implicit_mods.deep_view() == if is_energy_blade(item) {
        Seq::<Seq<char>>::empty()
    } else {
        mod_lines(item.implicit_mods)
    }
    &&& new.explicit_mods.deep_view() == if is_energy_blade(item) && abyssal_sockets(item) > 0 {
        seq!["`Has "@ + decimal_nat(abyssal_sockets(item)) + " Abyssal Sockets`"@]
    } else {
        mod_lines(item.explicit_mods)
    }
    &&& new.fractured_mods.deep_view() == mod_lines(item.fractured_mods)
    &&& new.crafted_mods.deep_view() == mod_lines(item.crafted_mods)
    &&& new.crucible_mods.deep_view() == mod_lines(item.crucible_mods)
    &&& new.corrupted == (item.corrupted == Some(true))
}

fn read_value(props: &Option<Vec<ItemProperty>>, name: &str) -> (r: Option<String>)
    requires
        has_value(*props, name@),
    ensures
        text_of(r) == value_named(*props, name@),
{
    match props {
        Some(list) => match lookup(list, name) {
            Some(prop) => Some(prop.values[0].0.clone()),
            None => None,
        },
        None => None,
    }
}

fn has_first_value(props: &Option<Vec<ItemProperty>>, name: &str) -> (r: bool)
    ensures
        r == has_value(*props, name@),
{
    match props {
        Some(list) => match lookup(list, name) {
            Some(prop) => prop.values.len() > 0,
            None => true,
        },
        None => true,
    }
}

fn write_sockets(sockets: &Vec<Socket>) -> (r: (String, usize))
    ensures
        r.0@ == socket_line(sockets@, sockets.len() as int),
        r.1 == abyssal_count(sockets@, sockets.len() as int),
{
    let mut line = String::new();
    let mut abyssal: usize = 0;
    let mut i: usize = 0;
    while i < sockets.len()
        invariant
            i <= sockets.len(),
            line@ == socket_line(sockets@, i as int),
            abyssal == abyssal_count(sockets@, i as int),
            abyssal <= i,
        decreases sockets.len() - i,
    {
        if i > 0 {
            if sockets[i].group == sockets[i - 1].group {
                line.append("-");
            } else {
                line.append(" ");
            }
        }
        line.append(sockets[i].s_colour.as_str());
        assert(Seq::<char>::empty() + sockets@[i as int].s_colour@
            =~= sockets@[i as int].s_colour@);
        if str_eq("A", sockets[i].s_colour.as_str()) {
            abyssal += 1;
        }
        i += 1;
    }
    (line, abyssal)
}

impl Item {
    /// Whether an item of the export can become an item of the build.
    pub fn can_convert(item: &model::items::Item) -> (r: bool)
        ensures
            r == convertible(*item),
    {
        let class_ok = match &item.requirements {
            Some(list) => match lookup(list, "Class:") {
                Some(req) => req.values.len() > 0,
                None => true,
            },
            None => true,
        };
        item.frame_type < 11 && has_first_value(&item.properties, "Evasion Rating")
            && has_first_value(&item.properties, "Energy Shield") && has_first_value(
            &item.properties,
            "Armour",
        ) && has_first_value(&item.properties, "Ward") && has_first_value(
            &item.properties,
            "Quality",
        ) && has_first_value(&item.properties, "Radius") && has_first_value(
            &item.properties,
            "Limited to",
        ) && class_ok
    }

    /// The item of the build that an item of the export becomes under the
    /// number `id`.
    pub fn new(id: usize, item: &model::items::Item) -> (r: Item)
        requires
            convertible(*item),
        ensures
            item_converted(id, *item, r),
    {
        let name = item_name(item.name.as_str());
        let known = known_base_type(item.base_type.as_str());
        let base_type = match known {
            Some(known) => known.to_owned(),
            None => item.base_type.clone(),
        };
        let type_line = match known {
            Some(known) => replace(item.type_line.as_str(), item.base_type.as_str(), known),
            None => item.type_line.clone(),
        };
        let evasion = read_value(&item.properties, "Evasion Rating");
        let energy_shield = read_value(&item.properties, "Energy Shield");
        let armour = read_value(&item.properties, "Armour");
        let ward = read_value(&item.properties, "Ward");
        let quality = match read_number(&item.properties, "Quality") {
            Some(number) => number,
            None => None,
        };
        let mut shaper: Option<bool> = None;
        let mut elder: Option<bool> = None;
        let mut warlord: Option<bool> = None;
        let mut hunter: Option<bool> = None;
        let mut crusader: Option<bool> = None;
        let mut redeemer: Option<bool> = None;
        match &item.influences {
            Some(influences) => {
                shaper = influences.shaper;
                elder = influences.elder;
                warlord = influences.warlord;
                hunter = influences.hunter;
                crusader = influences.crusader;
                redeemer = influences.redeemer;
            },
            None => {},
        }
        let mut abyssal_socket_count: usize = 0;
        let mut pob_sockets: Option<String> = None;
        match &item.sockets {
            Some(sockets) => {
                let (line, abyssal) = write_sockets(sockets);
                abyssal_socket_count = abyssal;
                if sockets.len() > 0 {
                    pob_sockets = Some(line);
                }
            },
            None => {},
        }
        let radius = read_value(&item.properties, "Radius");
        let limited_to = read_value(&item.properties, "Limited to");
        let requires_class = match &item.requirements {
            Some(list) => match lookup(list, "Class:") {
                Some(req) => Some(req.values[0].0.clone()),
                None => None,
            },
            None => None,
        };
        let enchant_mods = split_mods(&item.enchant_mods);
        let mut implicit_mods = split_mods(&item.implicit_mods);
        let mut explicit_mods = split_mods(&item.explicit_mods);
        let fractured_mods = split_mods(&item.fractured_mods);
        let crafted_mods = split_mods(&item.crafted_mods);
        let crucible_mods = split_mods(&item.crucible_mods);
        if str_eq(item.base_type.as_str(), POB_BASE_TYPE_ENERGY_BLADE) {
            implicit_mods = Vec::new();
            assert(implicit_mods.deep_view() =~= Seq::<Seq<char>>::empty());
            if abyssal_socket_count > 0 {
                let mut line = "`Has ".to_owned();
                push_decimal_nat(&mut line, abyssal_socket_count as u128);
                line.append(" Abyssal Sockets`");
                let ghost text = line@;
                explicit_mods = Vec::new();
                explicit_mods.push(line);
                assert(explicit_mods.deep_view() =~= seq![text]);
            }
        }
        let corrupted = match item.corrupted {
            Some(b) => b,
            None => false,
        };
        Item {
            id,
            rarity: RARITY_TABLE[item.frame_type].to_owned(),
            name,
            type_line,
            base_type,
            evasion,
            energy_shield,
            armour,
            ward,
            unique_id: item.id.clone(),
            shaper,
            elder,
            warlord,
            hunter,
            crusader,
            redeemer,
            searing: item.searing,
            tangled: item.tangled,
            ilvl: item.ilvl,
            quality,
            sockets: pob_sockets,
            radius,
            limited_to,
            requires_class,
            enchant_mods,
            implicit_mods,
            explicit_mods,
            fractured_mods,
            crafted_mods,
            crucible_mods,
            corrupted,
        }
    }
}

/// A list of lines with a line behind it, if a condition holds.
pub open spec fn with(lines: Seq<Seq<char>>, condition: bool, line: Seq<char>) -> Seq<Seq<char>> {
    if condition {
        lines.push(line)
    } else {
        lines
    }
}

/// A list of lines with a labelled text behind it, if there is a text.
pub open spec fn with_text(lines: Seq<Seq<char>>, label: Seq<char>, text: Option<String>) -> Seq<
    Seq<char>,
> {
    match text {
        Some(t) => lines.push(label + t@),
        None => lines,
    }
}

/// A list of lines with some lines behind it, each behind a mark.
pub open spec fn with_each(lines: Seq<Seq<char>>, mark: Seq<char>, more: Seq<Seq<char>>) -> Seq<
    Seq<char>,
> {
    lines + Seq::new(more.len(), |i: int| mark + more[i])
}

impl Item {
    /// The lines of the item as the building tool reads them.
    pub open spec fn lines(&self) -> Seq<Seq<char>> {
        let l = seq!["Rarity: "@ + self.rarity@];
        let l = if self.name@.len() == 0 {
            l.push(self.type_line@)
        } else {
            l.push(self.name@).push(self.base_type@)
        };
        let l = with_text(l, "Evasion: "@, self.evasion);
        let l = with_text(l, "Energy Shield: "@, self.energy_shield);
        let l = with_text(l, "Armour: "@, self.armour);
        let l = with_text(l, "Ward: "@, self.ward);
        let l = l.push("Unique ID: "@ + self.unique_id@);
        let l = with(l, self.shaper == Some(true), "Shaper Item"@);
        let l = with(l, self.elder == Some(true), "Elder Item"@);
        let l = with(l, self.warlord == Some(true), "Warlord Item"@);
        let l = with(l, self.hunter == Some(true), "Hunter Item"@);
        let l = with(l, self.crusader == Some(true), "Crusader Item"@);
        let l = with(l, self.redeemer == Some(true), "Redeemer Item"@);
        let l = with(l, self.searing == Some(true), "Searing Exarch Item"@);
        let l = with(l, self.tangled == Some(true), "Eater of Worlds Item"@);
        let l = l.push("Item Level: "@ + decimal(self.ilvl as int));
        let l = match self.quality {
            Some(q) => l.push("Quality: "@ + decimal(q as int)),
            None => l,
        };
        let l = with_text(l, "Sockets: "@, self.sockets);
        let l = with_text(l, "Radius: "@, self.radius);
        let l = with_text(l, "Limited to: "@, self.limited_to);
        let l = with_text(l, "Requires Class "@, self.requires_class);
        let l = l.push(
            "Implicits: "@ + decimal_nat((self.enchant_mods.len() + self.implicit_mods.len()) as nat),
        );
        let l = with_each(l, "{crafted}"@, self.enchant_mods.deep_view());
        let l = with_each(l, Seq::<char>::empty(), self.implicit_mods.deep_view());
        let l = with_each(l, Seq::<char>::empty(), self.explicit_mods.deep_view());
        let l = with_each(l, "{fractured}"@, self.fractured_mods.deep_view());
        let l = with_each(l, "{crafted}"@, self.crafted_mods.deep_view());
        let l = with_each(l, "{crucible}"@, self.crucible_mods.deep_view());
        with(l, self.corrupted, "Corrupted"@)
    }
}

fn push_line(lines: &mut Vec<String>, label: &str, text: &str)
    ensures
        final(lines).deep_view() == old(lines).deep_view().push(label@ + text@),
{
    let line = concat(label, text);
    let ghost before = lines.deep_view();
    let ghost t = line@;
    lines.push(line);
    assert(lines.deep_view() =~= before.push(t));
}

fn push_text(lines: &mut Vec<String>, label: &str, text: &Option<String>)
    ensures
        final(lines).deep_view() == with_text(old(lines).deep_view(), label@, *text),
{
    match text {
        Some(t) => {
            push_line(lines, label, t.as_str());
        },
        None => {},
    }
}

fn push_if(lines: &mut Vec<String>, flag: Option<bool>, line: &str)
    ensures
        final(lines).deep_view() == with(old(lines).deep_view(), flag == Some(true), line@),
{
    let set = match flag {
        Some(b) => b,
        None => false,
    };
    if set {
        let ghost before = lines.deep_view();
        lines.push(line.to_owned());
        assert(lines.deep_view() =~= before.push(line@));
    }
}

fn push_number(lines: &mut Vec<String>, label: &str, n: i64)
    ensures
        final(lines).deep_view() == old(lines).deep_view().push(label@ + decimal(n as int)),
{
    let mut line = label.to_owned();
    push_decimal(&mut line, n);
    let ghost before = lines.deep_view();
    let ghost t = line@;
    lines.push(line);
    assert(lines.deep_view() =~= before.push(t));
}

fn push_each(lines: &mut Vec<String>, mark: &str, more: &Vec<String>)
    ensures
        final(lines).deep_view() == with_each(old(lines).deep_view(), mark@, more.deep_view()),
{
    let ghost start = lines.deep_view();
    let ghost all = more.deep_view();
    let mut i: usize = 0;
    assert(start + Seq::new(0, |i: int| mark@ + all[i]) =~= start);
    while i < more.len()
        invariant
            i <= more.len(),
            all == more.deep_view(),
            lines.deep_view() == start + Seq::new(i as nat, |i: int| mark@ + all[i]),
        decreases more.len() - i,
    {
        assert(all[i as int] == more[i as int]@);
        push_line(lines, mark, more[i].as_str());
        assert(lines.deep_view() =~= start + Seq::new((i + 1) as nat, |i: int| mark@ + all[i]));
        i += 1;
    }
}

impl Xml for Item {
    open spec fn xml(&self) -> Seq<char> {
        "<Item id=\""@ + decimal_nat(self.id as nat) + "\">\n"@ + joined(
            self.lines(),
            "\n"@,
            self.lines().len() as int,
        ) + "\n</Item>"@
    }

    fn to_string(&self) -> (text: String) {
        let mut lines: Vec<String> = Vec::new();
        assert(lines.deep_view() =~= Seq::<Seq<char>>::empty());
        push_line(&mut lines, "Rarity: ", self.rarity.as_str());
        assert(lines.deep_view() =~= seq!["Rarity: "@ + self.rarity@]);
        if self.name.as_str().is_empty() {
            push_line(&mut lines, "", self.type_line.as_str());
            proof {
                reveal_strlit("");
                assert(""@ + self.type_line@ =~= self.type_line@);
            }
        } else {
            push_line(&mut lines, "", self.name.as_str());
            push_line(&mut lines, "", self.base_type.as_str());
            proof {
                reveal_strlit("");
                assert(""@ + self.name@ =~= self.name@);
                assert(""@ + self.base_type@ =~= self.base_type@);
            }
        }
        push_text(&mut lines, "Evasion: ", &self.evasion);
        push_text(&mut lines, "Energy Shield: ", &self.energy_shield);
        push_text(&mut lines, "Armour: ", &self.armour);
        push_text(&mut lines, "Ward: ", &self.ward);
        push_line(&mut lines, "Unique ID: ", self.unique_id.as_str());
        push_if(&mut lines, self.shaper, "Shaper Item");
        push_if(&mut lines, self.elder, "Elder Item");
        push_if(&mut lines, self.warlord, "Warlord Item");
        push_if(&mut lines, self.hunter, "Hunter Item");
        push_if(&mut lines, self.crusader, "Crusader Item");
        push_if(&mut lines, self.redeemer, "Redeemer Item");
        push_if(&mut lines, self.searing, "Searing Exarch Item");
        push_if(&mut lines, self.tangled, "Eater of Worlds Item");
        push_number(&mut lines, "Item Level: ", self.ilvl as i64);
        match self.quality {
            Some(q) => {
                push_number(&mut lines, "Quality: ", q as i64);
            },
            None => {},
        }
        push_text(&mut lines, "Sockets: ", &self.sockets);
        push_text(&mut lines, "Radius: ", &self.radius);
        push_text(&mut lines, "Limited to: ", &self.limited_to);
        push_text(&mut lines, "Requires Class ", &self.requires_class);
        let mut count = "Implicits: ".to_owned();
        push_decimal_nat(
            &mut count,
            self.enchant_mods.len() as u128 + self.implicit_mods.len() as u128,
        );
        let ghost before = lines.deep_view();
        let ghost t = count@;
        lines.push(count);
        assert(lines.deep_view() =~= before.push(t));
        push_each(&mut lines, "{crafted}", &self.enchant_mods);
        proof {
            reveal_strlit("");
        }
        push_each(&mut lines, "", &self.implicit_mods);
        push_each(&mut lines, "", &self.explicit_mods);
        push_each(&mut lines, "{fractured}", &self.fractured_mods);
        push_each(&mut lines, "{crafted}", &self.crafted_mods);
        push_each(&mut lines, "{crucible}", &self.crucible_mods);
        push_if(&mut lines, Some(self.corrupted), "Corrupted");
        assert(lines.deep_view() == self.lines());
        let mut s = "<Item id=\"".to_owned();
        push_decimal_nat(&mut s, self.id as u128);
        s.append("\">\n");
        let body = join_texts(&lines, "\n");
        s.append(body.as_str());
        s.append("\n</Item>");
        s
    }
}

impl Default for Items {
    fn default() -> (r: Self)
        ensures
            r.items@.len() == 0,
            !r.item_set.use_second_weapon_set,
            r.item_set.id == 1,
            r.item_set.slots@.len() == 0,
    {
        Self { items: Vec::new(), item_set: ItemSet::default() }
    }
}

impl Xml for Items {
    open spec fn xml(&self) -> Seq<char> {
        "<Items>\n"@ + joined(texts_of(self.items@), "\n"@, self.items.len() as int) + "\n"@
            + self.item_set.xml() + "\n</Items>"@
    }

    fn to_string(&self) -> (text: String) {
        let mut s = "<Items>\n".to_owned();
        let body = join_parts(&self.items, "\n");
        s.append(body.as_str());
        s.append("\n");
        let set = self.item_set.to_string();
        s.append(set.as_str());
        s.append("\n</Items>");
        s
    }
}

} // verus!
