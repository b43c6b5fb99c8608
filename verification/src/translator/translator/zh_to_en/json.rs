//! Translation of whole records: the items and the passive skills of a
//! character, in place.

use super::basic::{
    base_type_of_line, en_of, first_base_type, gem_name, gem_prop_translation, mod_translation,
    name_and_base_type, prop_name_translation, prop_translation, req_translation, Basic, Catalog,
};
use crate::db::found_last;
use crate::model::items::{Item, ItemProperty, ItemRequirement, Items};
use crate::model::passive_skills::{
    override_at, override_count, override_entries, override_rename, PassiveSkills, SkillOverride,
};
use crate::pattern::{is_match, regex_found};
use crate::search::{
    all_matches, first_match, lemma_all_matches_step, lemma_first_match_is, lemma_no_match,
};
use crate::text::{concat, contains, ends_with, from_chars, has_infix, str_eq, to_chars};
use crate::transformer::support::{find_name, spells, ASCENDANCIES, PHRECIA_ASCENDANCIES};
use std::sync::Arc;
use vstd::prelude::*;

verus! {

/// The base type of the trinkets that no build takes.
pub const ZH_THIEF_TRINKET: &'static str = "赏金猎人饰品";

/// The name of the jewel Forbidden Flesh.
pub const ZH_FORBIDDEN_FLESH: &'static str = "禁断之肉";

/// The name of the jewel Forbidden Flame.
pub const ZH_FORBIDDEN_FLAME: &'static str = "禁断之火";

/// The name that the export gives both to the Assassin ascendancy node of
/// the Scion and to the Shadow.
pub const ZH_PASSIVE_SKILL_ASCENDANT_ASSASSIN: &'static str = "暗影";

/// The name of the Assassin ascendancy node of the Scion in the catalog.
pub const ZH_PASSIVE_SKILL_ASCENDANT_ASSASSIN_FIXED: &'static str = "暗影（贵族）";

/// The class Scion.
pub const ZH_CLASS_SCION: &'static str = "贵族";

/// The name of the requirement that names a class.
pub const ZH_REQUIREMENT_NAME_CLASS: &'static str = "职业：";

/// An enchantment of elemental damage that the export writes without
/// saying that it is the weapon's.
pub const ZH_ELEMENTAL_DAMAGE: &'static str = r"^元素伤害(提高|降低) \d+%$";

/// Says that a modifier is the weapon's.
pub const ZH_OF_THIS_WEAPON: &'static str = "该武器的";

/// Marks the leagues of the Phrecia event.
pub const ZH_PHRECIA: &'static str = "费西亚";

/// A translation, or the text itself where there is none.
pub open spec fn or_same(translation: Option<Seq<char>>, text: Seq<char>) -> Seq<char> {
    match translation {
        Some(t) => t,
        None => text,
    }
}

/// Whether a build takes an item: it does not lie in the main inventory
/// and is no trinket.
pub open spec fn is_pob(item: Item) -> bool {
    &&& !(item.inventory_id matches Some(id) && (id@ == "MainInventory"@ || id@
        == "ExpandedMainInventory"@))
    &&& item.base_type@ != ZH_THIEF_TRINKET@
}

/// The condition that a build takes an item.
pub open spec fn taken() -> spec_fn(Item) -> bool {
    |item: Item| is_pob(item)
}

/// Whether two items agree in all that no translation touches.
pub open spec fn same_frame(old: Item, new: Item) -> bool {
    &&& new.id == old.id
    &&& new.sockets == old.sockets
    &&& new.influences == old.influences
    &&& new.searing == old.searing
    &&& new.tangled == old.tangled
    &&& new.abyss_jewel == old.abyss_jewel
    &&& new.fractured == old.fractured
    &&& new.rarity == old.rarity
    &&& new.ilvl == old.ilvl
    &&& new.corrupted == old.corrupted
    &&& new.inventory_id == old.inventory_id
    &&& new.duplicated == old.duplicated
    &&& new.synthesised == old.synthesised
    &&& new.frame_type == old.frame_type
    &&& new.x == old.x
}

/// The condition that a requirement names a class.
pub open spec fn names_class() -> spec_fn(ItemRequirement) -> bool {
    |req: ItemRequirement| req.name@ == ZH_REQUIREMENT_NAME_CLASS@
}

/// Whether an item is a Forbidden Flame or Flesh of a class other than the
/// Scion: its first requirement of a class has a value, and the first is
/// not the Scion.
pub open spec fn is_foreign_forbidden(item: Item) -> bool {
    &&& item.name@ == ZH_FORBIDDEN_FLAME@ || item.name@ == ZH_FORBIDDEN_FLESH@
    &&& item.requirements matches Some(reqs)
    &&& first_match(reqs@, names_class()) matches Some(i)
    &&& reqs[i].values.len() > 0
    &&& reqs[i].values[0].0@ != ZH_CLASS_SCION@
}

/// A modifier with the name of the Shadow at its end replaced by the name
/// of the Scion's Assassin node.
pub open spec fn fixed_assassin(text: Seq<char>) -> Seq<char> {
    if ZH_PASSIVE_SKILL_ASCENDANT_ASSASSIN@.is_suffix_of(text) {
        text.take(text.len() - ZH_PASSIVE_SKILL_ASCENDANT_ASSASSIN@.len())
            + ZH_PASSIVE_SKILL_ASCENDANT_ASSASSIN_FIXED@
    } else {
        text
    }
}

/// An enchantment of elemental damage with the words before it that make
/// it the weapon's; any other enchantment as it is.
pub open spec fn weapon_enchant(text: Seq<char>) -> Seq<char> {
    if regex_found(ZH_ELEMENTAL_DAMAGE@, text) == Some(true) {
        ZH_OF_THIS_WEAPON@ + text
    } else {
        text
    }
}

/// Whether `new` is `old` made ready for translation: the explicit
/// modifiers of a foreign Forbidden Flame or Flesh name the Scion's node,
/// and enchantments of elemental damage are the weapon's.
pub open spec fn item_prepared(old: Item, new: Item) -> bool {
    &&& same_frame(old, new)
    &&& new.name == old.name
    &&& new.type_line == old.type_line
    &&& new.base_type == old.base_type
    &&& new.properties == old.properties
    &&& new.requirements == old.requirements
    &&& new.implicit_mods == old.implicit_mods
    &&& new.crafted_mods == old.crafted_mods
    &&& new.utility_mods == old.utility_mods
    &&& new.fractured_mods == old.fractured_mods
    &&& new.scourge_mods == old.scourge_mods
    &&& new.crucible_mods == old.crucible_mods
    &&& new.socketed_items == old.socketed_items
    &&& new.hybrid == old.hybrid
    &&& match old.explicit_mods {
        None => new.explicit_mods is None,
        Some(o) => new.explicit_mods matches Some(n) && n.len() == o.len() && forall|i: int|
            0 <= i < o.len() ==> (#[trigger] n[i])@ == if is_foreign_forbidden(old) {
                fixed_assassin(o[i]@)
            } else {
                o[i]@
            },
    }
    &&& match old.enchant_mods {
        None => new.enchant_mods is None,
        Some(o) => new.enchant_mods matches Some(n) && n.len() == o.len() && forall|i: int|
            0 <= i < o.len() ==> (#[trigger] n[i])@ == weapon_enchant(o[i]@),
    }
}

/// Whether `new` holds the modifier lines of `old`, each in English where
/// the catalog translates it.
pub open spec fn lines_translated(c: Catalog, old: Option<Vec<String>>, new: Option<Vec<String>>) -> bool {
    match old {
        None => new is None,
        Some(o) => new matches Some(n) && n.len() == o.len() && forall|i: int|
            0 <= i < o.len() ==> (#[trigger] n[i])@ == or_same(mod_translation(c, o[i]@), o[i]@),
    }
}

/// Whether `new` is the requirement `old` in English: its name, each of its
/// values and its suffix, where the catalog translates them.
pub open spec fn requirement_translated(c: Catalog, old: ItemRequirement, new: ItemRequirement) -> bool {
    &&& new.name@ == or_same(en_of(found_last(c.requirements, old.name@)), old.name@)
    &&& new.values.len() == old.values.len()
    &&& forall|k: int|
        0 <= k < old.values.len() ==> (#[trigger] new.values[k]).0@ == or_same(
            req_translation(c, old.name@, old.values[k].0@).1,
            old.values[k].0@,
        ) && new.values[k].1 == old.values[k].1
    &&& match old.suffix {
        Some(s) => new.suffix matches Some(t) && t@ == or_same(
            en_of(found_last(c.suffixes, s@)),
            s@,
        ),
        None => new.suffix is None,
    }
}

/// Whether `new` holds the requirements of `old` in English.
pub open spec fn requirements_translated(
    c: Catalog,
    old: Option<Vec<ItemRequirement>>,
    new: Option<Vec<ItemRequirement>>,
) -> bool {
    match old {
        None => new is None,
        Some(o) => new matches Some(n) && n.len() == o.len() && forall|i: int|
            0 <= i < o.len() ==> requirement_translated(c, o[i], #[trigger] n[i]),
    }
}

/// Whether `new` is the property `old` in English: its name and each of
/// its values, where the catalog translates them.
pub open spec fn property_translated(c: Catalog, old: ItemProperty, new: ItemProperty) -> bool {
    &&& new.name@ == or_same(prop_name_translation(c, old.name@), old.name@)
    &&& new.values.len() == old.values.len()
    &&& forall|k: int|
        0 <= k < old.values.len() ==> (#[trigger] new.values[k]).0@ == or_same(
            prop_translation(c, old.name@, old.values[k].0@).1,
            old.values[k].0@,
        ) && new.values[k].1 == old.values[k].1
}

/// Whether `new` holds the properties of `old` in English.
pub open spec fn properties_translated(
    c: Catalog,
    old: Option<Vec<ItemProperty>>,
    new: Option<Vec<ItemProperty>>,
) -> bool {
    match old {
        None => new is None,
        Some(o) => new matches Some(n) && n.len() == o.len() && forall|i: int|
            0 <= i < o.len() ==> property_translated(c, o[i], #[trigger] n[i]),
    }
}

/// Whether `new` holds the properties of the gem `old`, those that a gem
/// has named in English.
pub open spec fn gem_properties_translated(
    old: Option<Vec<ItemProperty>>,
    new: Option<Vec<ItemProperty>>,
) -> bool {
    match old {
        None => new is None,
        Some(o) => new matches Some(n) && n.len() == o.len() && forall|i: int|
            0 <= i < o.len() ==> (#[trigger] n[i]).name@ == or_same(
                gem_prop_translation(o[i].name@),
                o[i].name@,
            ) && n[i].values == o[i].values,
    }
}

/// The English name of a gem.
pub open spec fn gem_translation(c: Catalog, name: Seq<char>) -> Option<Seq<char>> {
    en_of(found_last(c.skills, gem_name(name)))
}

/// Whether `new` is the gem `old` in English: its base type, its type line
/// and the base type of its second skill are names of gems, the type line
/// once more the name of a base type, and its properties those of a gem.
pub open spec fn gem_translated(c: Catalog, old: Item, new: Item) -> bool {
    &&& same_frame(old, new)
    &&& new.name == old.name
    &&& new.base_type@ == or_same(gem_translation(c, old.base_type@), old.base_type@)
    &&& new.type_line@ == or_same(
        en_of(
            base_type_of_line(c, or_same(gem_translation(c, old.type_line@), old.type_line@)),
        ),
        or_same(gem_translation(c, old.type_line@), old.type_line@),
    )
    &&& match old.hybrid {
        None => new.hybrid is None,
        Some(o) => new.hybrid matches Some(n) && n.is_vaal_gem == o.is_vaal_gem
            && n.base_type_name@ == or_same(
            gem_translation(c, o.base_type_name@),
            o.base_type_name@,
        ),
    }
    &&& gem_properties_translated(old.properties, new.properties)
    &&& new.requirements == old.requirements
    &&& new.socketed_items == old.socketed_items
    &&& new.enchant_mods == old.enchant_mods
    &&& new.implicit_mods == old.implicit_mods
    &&& new.explicit_mods == old.explicit_mods
    &&& new.crafted_mods == old.crafted_mods
    &&& new.utility_mods == old.utility_mods
    &&& new.fractured_mods == old.fractured_mods
    &&& new.scourge_mods == old.scourge_mods
    &&& new.crucible_mods == old.crucible_mods
}

/// Whether `new` is the item `old` in English: its name and base type,
/// its type line, requirements, properties and modifier lines, where the
/// catalog translates them, and the items in its sockets, an abyss jewel
/// as an item and anything else as a gem.
pub open spec fn item_translated(c: Catalog, old: Item, new: Item) -> bool
    decreases old,
{
    &&& same_frame(old, new)
    &&& new.hybrid == old.hybrid
    &&& match name_and_base_type(c, old.name@, old.base_type@) {
        Some(names) => new.name@ == names.0 && new.base_type@ == names.1,
        None => new.name == old.name && new.base_type == old.base_type,
    }
    &&& new.type_line@ == or_same(en_of(base_type_of_line(c, old.type_line@)), old.type_line@)
    &&& requirements_translated(c, old.requirements, new.requirements)
    &&& properties_translated(c, old.properties, new.properties)
    &&& match old.socketed_items {
        None => new.socketed_items is None,
        Some(o) => new.socketed_items matches Some(n) && n.len() == o.len() && forall|i: int|
            0 <= i < o.len() ==> if (#[trigger] o[i]).abyss_jewel is Some {
                item_translated(c, *o[i], *n[i])
            } else {
                gem_translated(c, *o[i], *n[i])
            },
    }
    &&& lines_translated(c, old.enchant_mods, new.enchant_mods)
    &&& lines_translated(c, old.implicit_mods, new.implicit_mods)
    &&& lines_translated(c, old.explicit_mods, new.explicit_mods)
    &&& lines_translated(c, old.crafted_mods, new.crafted_mods)
    &&& lines_translated(c, old.utility_mods, new.utility_mods)
    &&& lines_translated(c, old.fractured_mods, new.fractured_mods)
    &&& lines_translated(c, old.scourge_mods, new.scourge_mods)
    &&& lines_translated(c, old.crucible_mods, new.crucible_mods)
}

/// The Phrecia ascendancy that stands at the place of an ascendancy, and
/// any other class name as it is.
pub open spec fn phrecia_class(name: Seq<char>) -> Seq<char> {
    match first_match(ASCENDANCIES@, spells(name)) {
        Some(t) => PHRECIA_ASCENDANCIES[t]@,
        None => name,
    }
}

/// The Phrecia ascendancy that stands at the place of an ascendancy. The
/// export of a Phrecia league names the ascendancy of the main game.
pub fn map_to_phrecia_character_class<'a>(character_class: &'a str) -> (r: &'a str)
    ensures
        r@ == phrecia_class(character_class@),
{
    match find_name(ASCENDANCIES.as_slice(), character_class) {
        Some(t) => PHRECIA_ASCENDANCIES[t],
        None => character_class,
    }
}

/// Whether the first requirement of a class has a value, the first of
/// which is not the Scion.
pub fn of_foreign_class(requirements: &Vec<ItemRequirement>) -> (r: bool)
    ensures
        r == (first_match(requirements@, names_class()) matches Some(t)
            && requirements@[t].values.len() > 0 && requirements@[t].values[0].0@
            != ZH_CLASS_SCION@),
{
    let mut i: usize = 0;
    while i < requirements.len()
        invariant
            i <= requirements.len(),
            forall|j: int| 0 <= j < i ==> !names_class()(#[trigger] requirements@[j]),
        decreases requirements.len() - i,
    {
        if str_eq(requirements[i].name.as_str(), ZH_REQUIREMENT_NAME_CLASS) {
            proof {
                lemma_first_match_is(requirements@, names_class(), i as int);
            }
            return requirements[i].values.len() > 0 && !str_eq(
                requirements[i].values[0].0.as_str(),
                ZH_CLASS_SCION,
            );
        }
        i += 1;
    }
    proof {
        lemma_no_match(requirements@, names_class());
    }
    false
}

/// Translates the modifier lines of a list in place.
pub fn trans_lines(basic: &Basic, mods: &mut Option<Vec<String>>)
    ensures
        lines_translated(basic.catalog(), *old(mods), *final(mods)),
{
    let ghost olds = *old(mods);
    match mods {
        Some(list) => {
            let ghost o = olds->0;
            let mut i: usize = 0;
            while i < list.len()
                invariant
                    i <= list.len(),
                    list.len() == o.len(),
                    forall|j: int|
                        0 <= j < i ==> (#[trigger] list@[j])@ == or_same(
                            mod_translation(basic.catalog(), o[j]@),
                            o[j]@,
                        ),
                    forall|j: int| i <= j < list.len() ==> list@[j] == o[j],
                decreases list.len() - i,
            {
                match basic.trans_mod(list[i].as_str()) {
                    Some(value) => {
                        list[i] = value;
                    },
                    None => {},
                }
                i += 1;
            }
        },
        None => {},
    }
}

/// Translates the requirements of an item in place.
pub fn trans_requirements(basic: &Basic, reqs: &mut Option<Vec<ItemRequirement>>)
    ensures
        requirements_translated(basic.catalog(), *old(reqs), *final(reqs)),
{
    let ghost olds = *old(reqs);
    let ghost c = basic.catalog();
    match reqs {
        Some(list) => {
            let ghost o = olds->0;
            let mut i: usize = 0;
            while i < list.len()
                invariant
                    i <= list.len(),
                    list.len() == o.len(),
                    c == basic.catalog(),
                    forall|j: int| 0 <= j < i ==> requirement_translated(c, o[j], #[trigger] list@[j]),
                    forall|j: int| i <= j < list.len() ==> list@[j] == o[j],
                decreases list.len() - i,
            {
                let ghost before = list@[i as int];
                let zh_name = list[i].name.clone();
                match basic.trans_req_name(zh_name.as_str()) {
                    Some(name) => {
                        list[i].name = name;
                    },
                    None => {},
                }
                let mut k: usize = 0;
                while k < list[i].values.len()
                    invariant
                        i < list.len(),
                        list.len() == o.len(),
                        c == basic.catalog(),
                        zh_name@ == before.name@,
                        before == o[i as int],
                        k <= list@[i as int].values.len(),
                        list@[i as int].values.len() == before.values.len(),
                        list@[i as int].name@ == or_same(
                            en_of(found_last(c.requirements, before.name@)),
                            before.name@,
                        ),
                        list@[i as int].suffix == before.suffix,
                        forall|j: int| 0 <= j < i ==> requirement_translated(c, o[j], #[trigger] list@[j]),
                        forall|j: int| i < j < list.len() ==> list@[j] == o[j],
                        forall|t: int|
                            0 <= t < k ==> (#[trigger] list@[i as int].values[t]).0@ == or_same(
                                req_translation(c, before.name@, before.values[t].0@).1,
                                before.values[t].0@,
                            ) && list@[i as int].values[t].1 == before.values[t].1,
                        forall|t: int|
                            k <= t < before.values.len() ==> list@[i as int].values[t]
                                == before.values[t],
                    decreases list@[i as int].values.len() - k,
                {
                    let (_, result) = basic.trans_req(zh_name.as_str(), list[i].values[k].0.as_str());
                    match result {
                        Some(value) => {
                            list[i].values[k].0 = value;
                        },
                        None => {},
                    }
                    k += 1;
                }
                let translated = match &list[i].suffix {
                    Some(suffix) => basic.trans_req_suffix(suffix.as_str()),
                    None => None,
                };
                match translated {
                    Some(suffix) => {
                        list[i].suffix = Some(suffix);
                    },
                    None => {},
                }
                i += 1;
            }
        },
        None => {},
    }
}

/// Translates the properties of an item in place.
pub fn trans_properties(basic: &Basic, props: &mut Option<Vec<ItemProperty>>)
    ensures
        properties_translated(basic.catalog(), *old(props), *final(props)),
{
    let ghost olds = *old(props);
    let ghost c = basic.catalog();
    match props {
        Some(list) => {
            let ghost o = olds->0;
            let mut i: usize = 0;
            while i < list.len()
                invariant
                    i <= list.len(),
                    list.len() == o.len(),
                    c == basic.catalog(),
                    forall|j: int| 0 <= j < i ==> property_translated(c, o[j], #[trigger] list@[j]),
                    forall|j: int| i <= j < list.len() ==> list@[j] == o[j],
                decreases list.len() - i,
            {
                let ghost before = list@[i as int];
                let zh_name = list[i].name.clone();
                match basic.trans_prop_name(zh_name.as_str()) {
                    Some(name) => {
                        list[i].name = name;
                    },
                    None => {},
                }
                let mut k: usize = 0;
                while k < list[i].values.len()
                    invariant
                        i < list.len(),
                        list.len() == o.len(),
                        c == basic.catalog(),
                        zh_name@ == before.name@,
                        before == o[i as int],
                        k <= list@[i as int].values.len(),
                        list@[i as int].values.len() == before.values.len(),
                        list@[i as int].name@ == or_same(
                            prop_name_translation(c, before.name@),
                            before.name@,
                        ),
                        forall|j: int| 0 <= j < i ==> property_translated(c, o[j], #[trigger] list@[j]),
                        forall|j: int| i < j < list.len() ==> list@[j] == o[j],
                        forall|t: int|
                            0 <= t < k ==> (#[trigger] list@[i as int].values[t]).0@ == or_same(
                                prop_translation(c, before.name@, before.values[t].0@).1,
                                before.values[t].0@,
                            ) && list@[i as int].values[t].1 == before.values[t].1,
                        forall|t: int|
                            k <= t < before.values.len() ==> list@[i as int].values[t]
                                == before.values[t],
                    decreases list@[i as int].values.len() - k,
                {
                    let (_, result) = basic.trans_prop(zh_name.as_str(), list[i].values[k].0.as_str());
                    match result {
                        Some(value) => {
                            list[i].values[k].0 = value;
                        },
                        None => {},
                    }
                    k += 1;
                }
                i += 1;
            }
        },
        None => {},
    }
}

/// A text that the catalog could not translate, and the kind of field it
/// stands in.
#[derive(Debug, Clone, PartialEq, Eq)]
pub struct Untranslated {
    pub field: String,
    pub text: String,
}

/// A text that the catalog could not translate, and the kind of field it
/// stands in, as plain values.
pub struct Notice {
    pub field: Seq<char>,
    pub text: Seq<char>,
}

impl View for Untranslated {
    type V = Notice;

    open spec fn view(&self) -> Notice {
        Notice { field: self.field@, text: self.text@ }
    }
}

/// The notices of a list.
pub open spec fn notices_of(list: Seq<Untranslated>) -> Seq<Notice> {
    Seq::new(list.len(), |i: int| list[i]@)
}

/// The notice of a text without a translation, and none for a text with
/// one.
pub open spec fn missing(field: Seq<char>, translation: Option<Seq<char>>, text: Seq<char>) -> Seq<
    Notice,
> {
    if translation is None {
        seq![Notice { field, text }]
    } else {
        seq![]
    }
}

/// The notices of the first `n` modifier lines of a kind.
pub open spec fn line_notices(c: Catalog, field: Seq<char>, lines: Seq<Seq<char>>, n: int) -> Seq<
    Notice,
>
    decreases n,
{
    if n <= 0 {
        seq![]
    } else {
        line_notices(c, field, lines, n - 1) + missing(
            field,
            mod_translation(c, lines[n - 1]),
            lines[n - 1],
        )
    }
}

/// The texts of some modifier lines, none where there are no lines.
pub open spec fn line_texts(lines: Option<Vec<String>>) -> Seq<Seq<char>> {
    match lines {
        Some(list) => list.deep_view(),
        None => seq![],
    }
}

/// The notices of the modifier lines of a kind.
pub open spec fn lines_notices(c: Catalog, field: Seq<char>, lines: Seq<Seq<char>>) -> Seq<Notice> {
    line_notices(c, field, lines, lines.len() as int)
}

/// The notices of a requirement: of its name and of its suffix.
pub open spec fn requirement_notices(c: Catalog, req: ItemRequirement) -> Seq<Notice> {
    missing("requirement name"@, en_of(found_last(c.requirements, req.name@)), req.name@)
        + suffix_notices(c, req.suffix)
}

/// The notice of the suffix of a requirement.
pub open spec fn suffix_notices(c: Catalog, suffix: Option<String>) -> Seq<Notice> {
    match suffix {
        Some(suffix) => missing(
            "requirement suffix"@,
            en_of(found_last(c.suffixes, suffix@)),
            suffix@,
        ),
        None => seq![],
    }
}

/// The notices of the first `n` requirements.
pub open spec fn requirements_notices(c: Catalog, reqs: Seq<ItemRequirement>, n: int) -> Seq<
    Notice,
>
    decreases n,
{
    if n <= 0 {
        seq![]
    } else {
        requirements_notices(c, reqs, n - 1) + requirement_notices(c, reqs[n - 1])
    }
}

/// The notices of the names of the first `n` properties.
pub open spec fn properties_notices(c: Catalog, props: Seq<ItemProperty>, n: int) -> Seq<Notice>
    decreases n,
{
    if n <= 0 {
        seq![]
    } else {
        properties_notices(c, props, n - 1) + missing(
            "property name"@,
            prop_name_translation(c, props[n - 1].name@),
            props[n - 1].name@,
        )
    }
}

/// The notices of a gem: of its base type, of its type line and of the
/// base type of its second skill.
pub open spec fn gem_notices(c: Catalog, gem: Item) -> Seq<Notice> {
    missing("gem base_type"@, gem_translation(c, gem.base_type@), gem.base_type@) + missing(
        "gem type_line"@,
        gem_translation(c, gem.type_line@),
        gem.type_line@,
    ) + hybrid_notices(c, gem)
}

/// The notice of the base type of the second skill of a gem.
pub open spec fn hybrid_notices(c: Catalog, gem: Item) -> Seq<Notice> {
    match gem.hybrid {
        Some(hybrid) => missing(
            "gem hybrid baseTypeName"@,
            gem_translation(c, hybrid.base_type_name@),
            hybrid.base_type_name@,
        ),
        None => seq![],
    }
}

/// The notices of the name, the requirements and the properties of an
/// item. Where the catalog does not know the base type, both the name and
/// the base type are noted.
pub open spec fn head_notices(c: Catalog, item: Item) -> Seq<Notice> {
    name_notices(c, item) + all_requirements_notices(c, item.requirements)
        + all_properties_notices(c, item.properties)
}

/// The notices of the name and the base type of an item.
pub open spec fn name_notices(c: Catalog, item: Item) -> Seq<Notice> {
    if name_and_base_type(c, item.name@, item.base_type@) is None {
        seq![
            Notice { field: "item name"@, text: item.name@ },
            Notice { field: "item name"@, text: item.base_type@ },
        ]
    } else {
        seq![]
    }
}

/// The notices of the requirements of an item.
pub open spec fn all_requirements_notices(c: Catalog, reqs: Option<Vec<ItemRequirement>>) -> Seq<
    Notice,
> {
    match reqs {
        Some(reqs) => requirements_notices(c, reqs@, reqs.len() as int),
        None => seq![],
    }
}

/// The notices of the names of the properties of an item.
pub open spec fn all_properties_notices(c: Catalog, props: Option<Vec<ItemProperty>>) -> Seq<
    Notice,
> {
    match props {
        Some(props) => properties_notices(c, props@, props.len() as int),
        None => seq![],
    }
}

/// The notices of the modifier lines of an item, for the enchantments and
/// explicit modifiers given.
pub open spec fn mods_notices(
    c: Catalog,
    item: Item,
    enchants: Seq<Seq<char>>,
    explicits: Seq<Seq<char>>,
) -> Seq<Notice> {
    lines_notices(c, "enchant mod"@, enchants) + lines_notices(
        c,
        "implicit mod"@,
        line_texts(item.implicit_mods),
    ) + lines_notices(c, "explicit mod"@, explicits) + lines_notices(
        c,
        "crafted mod"@,
        line_texts(item.crafted_mods),
    ) + lines_notices(c, "utility mod"@, line_texts(item.utility_mods)) + lines_notices(
        c,
        "fractured mod"@,
        line_texts(item.fractured_mods),
    ) + lines_notices(c, "scourge mod"@, line_texts(item.scourge_mods)) + lines_notices(
        c,
        "crucible mod"@,
        line_texts(item.crucible_mods),
    )
}

/// The items in the sockets of an item, none where it has no sockets.
pub open spec fn socketed_of(item: Item) -> Seq<Box<Item>> {
    match item.socketed_items {
        Some(list) => list@,
        None => seq![],
    }
}

/// The notices of the first `n` items in some sockets: those of an abyss
/// jewel as an item, with what sits in its own sockets, and those of
/// anything else as a gem.
pub open spec fn socketed_notices(c: Catalog, socketed: Seq<Box<Item>>, n: int) -> Seq<Notice>
    decreases socketed, n,
{
    if n <= 0 || n > socketed.len() {
        seq![]
    } else {
        socketed_notices(c, socketed, n - 1) + if socketed[n - 1].abyss_jewel is Some {
            head_notices(c, *socketed[n - 1]) + (match socketed[n - 1].socketed_items {
                Some(inner) => socketed_notices(c, inner@, inner.len() as int),
                None => seq![],
            }) + mods_notices(
                c,
                *socketed[n - 1],
                line_texts(socketed[n - 1].enchant_mods),
                line_texts(socketed[n - 1].explicit_mods),
            )
        } else {
            gem_notices(c, *socketed[n - 1])
        }
    }
}

/// The notices of an item, for the enchantments and explicit modifiers
/// given: what the catalog does not translate of it, in the order of its
/// fields.
pub open spec fn item_notices_with(
    c: Catalog,
    item: Item,
    enchants: Seq<Seq<char>>,
    explicits: Seq<Seq<char>>,
) -> Seq<Notice> {
    head_notices(c, item) + (match item.socketed_items {
        Some(inner) => socketed_notices(c, inner@, inner.len() as int),
        None => seq![],
    }) + mods_notices(c, item, enchants, explicits)
}

/// The notices of an item: what the catalog does not translate of it.
pub open spec fn item_notices(c: Catalog, item: Item) -> Seq<Notice> {
    item_notices_with(c, item, line_texts(item.enchant_mods), line_texts(item.explicit_mods))
}

/// The enchantments of an item once it is made ready for translation.
pub open spec fn prepared_enchants(item: Item) -> Seq<Seq<char>> {
    Seq::new(
        line_texts(item.enchant_mods).len(),
        |i: int| weapon_enchant(line_texts(item.enchant_mods)[i]),
    )
}

/// The explicit modifiers of an item once it is made ready for
/// translation.
pub open spec fn prepared_explicits(item: Item) -> Seq<Seq<char>> {
    Seq::new(
        line_texts(item.explicit_mods).len(),
        |i: int|
            if is_foreign_forbidden(item) {
                fixed_assassin(line_texts(item.explicit_mods)[i])
            } else {
                line_texts(item.explicit_mods)[i]
            },
    )
}

/// The notices of those of the first `n` items that a build takes, each
/// made ready for translation.
pub open spec fn taken_notices(c: Catalog, items: Seq<Item>, n: int) -> Seq<Notice>
    decreases n,
{
    if n <= 0 {
        seq![]
    } else if is_pob(items[n - 1]) {
        taken_notices(c, items, n - 1) + item_notices_with(
            c,
            items[n - 1],
            prepared_enchants(items[n - 1]),
            prepared_explicits(items[n - 1]),
        )
    } else {
        taken_notices(c, items, n - 1)
    }
}

/// The notices of the first `n` of some items.
pub open spec fn items_notices(c: Catalog, items: Seq<Item>, n: int) -> Seq<Notice>
    decreases n,
{
    if n <= 0 {
        seq![]
    } else {
        items_notices(c, items, n - 1) + item_notices(c, items[n - 1])
    }
}

/// The notices of the first `n` replaced skills.
pub open spec fn override_notices(c: Catalog, entries: Seq<(i32, SkillOverride)>, n: int) -> Seq<
    Notice,
>
    decreases n,
{
    if n <= 0 {
        seq![]
    } else {
        override_notices(c, entries, n - 1) + if entries[n - 1].1.is_keystone == Some(true) {
            missing(
                "keystone"@,
                en_of(found_last(c.keystones, entries[n - 1].1.name@)),
                entries[n - 1].1.name@,
            )
        } else {
            missing(
                "base_type"@,
                en_of(first_base_type(c, entries[n - 1].1.name@)),
                entries[n - 1].1.name@,
            )
        }
    }
}

/// Notes a text if it has no translation.
pub fn note_missing(out: &mut Vec<Untranslated>, field: &str, translated: bool, text: &str)
    ensures
        notices_of(final(out)@) == notices_of(old(out)@) + if translated {
            Seq::<Notice>::empty()
        } else {
            seq![Notice { field: field@, text: text@ }]
        },
{
    if !translated {
        out.push(Untranslated { field: field.to_owned(), text: text.to_owned() });
    }
    assert(notices_of(out@) =~= notices_of(old(out)@) + if translated {
        Seq::<Notice>::empty()
    } else {
        seq![Notice { field: field@, text: text@ }]
    });
}

/// Notes the modifier lines of a kind that the catalog does not translate.
pub fn note_lines(basic: &Basic, field: &str, lines: &Option<Vec<String>>, out: &mut Vec<Untranslated>)
    ensures
        notices_of(final(out)@) == notices_of(old(out)@) + lines_notices(
            basic.catalog(),
            field@,
            line_texts(*lines),
        ),
{
    let ghost start = notices_of(out@);
    let ghost c = basic.catalog();
    match lines {
        Some(list) => {
            let ghost all = list.deep_view();
            let mut i: usize = 0;
            assert(start + line_notices(c, field@, all, 0) =~= start);
            while i < list.len()
                invariant
                    i <= list.len(),
                    all == list.deep_view(),
                    c == basic.catalog(),
                    notices_of(out@) == start + line_notices(c, field@, all, i as int),
                decreases list.len() - i,
            {
                assert(all[i as int] == list[i as int]@);
                let translated = basic.trans_mod(list[i].as_str()).is_some();
                note_missing(out, field, translated, list[i].as_str());
                assert(notices_of(out@) =~= start + line_notices(c, field@, all, i + 1));
                i += 1;
            }
        },
        None => {
            assert(start + line_notices(c, field@, Seq::<Seq<char>>::empty(), 0) =~= start);
        },
    }
}

/// Notes what the catalog does not translate of the name, the
/// requirements and the properties of an item.
pub fn note_head(basic: &Basic, item: &Item, out: &mut Vec<Untranslated>)
    ensures
        notices_of(final(out)@) == notices_of(old(out)@) + head_notices(basic.catalog(), *item),
{
    let ghost start = notices_of(out@);
    let ghost c = basic.catalog();
    let named = basic.trans_name_and_base_type(item.name.as_str(), item.base_type.as_str()).is_some();
    note_missing(out, "item name", named, item.name.as_str());
    note_missing(out, "item name", named, item.base_type.as_str());
    assert(notices_of(out@) =~= start + name_notices(c, *item));
    let ghost named_at = notices_of(out@);
    match &item.requirements {
        Some(reqs) => {
            let mut i: usize = 0;
            assert(named_at + requirements_notices(c, reqs@, 0) =~= named_at);
            while i < reqs.len()
                invariant
                    i <= reqs.len(),
                    c == basic.catalog(),
                    notices_of(out@) == named_at + requirements_notices(c, reqs@, i as int),
                decreases reqs.len() - i,
            {
                let ghost before = notices_of(out@);
                let known = basic.trans_req_name(reqs[i].name.as_str()).is_some();
                note_missing(out, "requirement name", known, reqs[i].name.as_str());
                match &reqs[i].suffix {
                    Some(suffix) => {
                        let known = basic.trans_req_suffix(suffix.as_str()).is_some();
                        note_missing(out, "requirement suffix", known, suffix.as_str());
                    },
                    None => {},
                }
                assert(notices_of(out@) =~= before + requirement_notices(c, reqs@[i as int]));
                assert(notices_of(out@) =~= named_at + requirements_notices(c, reqs@, i + 1));
                i += 1;
            }
        },
        None => {
            assert(named_at + Seq::<Notice>::empty() =~= named_at);
        },
    }
    let ghost required_at = notices_of(out@);
    match &item.properties {
        Some(props) => {
            let mut i: usize = 0;
            assert(required_at + properties_notices(c, props@, 0) =~= required_at);
            while i < props.len()
                invariant
                    i <= props.len(),
                    c == basic.catalog(),
                    notices_of(out@) == required_at + properties_notices(c, props@, i as int),
                decreases props.len() - i,
            {
                let known = basic.trans_prop_name(props[i].name.as_str()).is_some();
                note_missing(out, "property name", known, props[i].name.as_str());
                assert(notices_of(out@) =~= required_at + properties_notices(c, props@, i + 1));
                i += 1;
            }
        },
        None => {
            assert(required_at + Seq::<Notice>::empty() =~= required_at);
        },
    }
    assert(notices_of(out@) =~= start + head_notices(c, *item));
}

/// Notes what the catalog does not translate of a gem.
pub fn note_gem(basic: &Basic, gem: &Item, out: &mut Vec<Untranslated>)
    ensures
        notices_of(final(out)@) == notices_of(old(out)@) + gem_notices(basic.catalog(), *gem),
{
    let ghost start = notices_of(out@);
    let known = basic.trans_gem(gem.base_type.as_str()).is_some();
    note_missing(out, "gem base_type", known, gem.base_type.as_str());
    let known = basic.trans_gem(gem.type_line.as_str()).is_some();
    note_missing(out, "gem type_line", known, gem.type_line.as_str());
    match &gem.hybrid {
        Some(hybrid) => {
            let known = basic.trans_gem(hybrid.base_type_name.as_str()).is_some();
            note_missing(
                out,
                "gem hybrid baseTypeName",
                known,
                hybrid.base_type_name.as_str(),
            );
        },
        None => {},
    }
    assert(notices_of(out@) =~= start + gem_notices(basic.catalog(), *gem));
}

/// Notes the modifier lines of an item that the catalog does not
/// translate.
pub fn note_mods(basic: &Basic, item: &Item, out: &mut Vec<Untranslated>)
    ensures
        notices_of(final(out)@) == notices_of(old(out)@) + mods_notices(
            basic.catalog(),
            *item,
            line_texts(item.enchant_mods),
            line_texts(item.explicit_mods),
        ),
{
    let ghost start = notices_of(out@);
    note_lines(basic, "enchant mod", &item.enchant_mods, out);
    note_lines(basic, "implicit mod", &item.implicit_mods, out);
    note_lines(basic, "explicit mod", &item.explicit_mods, out);
    note_lines(basic, "crafted mod", &item.crafted_mods, out);
    note_lines(basic, "utility mod", &item.utility_mods, out);
    note_lines(basic, "fractured mod", &item.fractured_mods, out);
    note_lines(basic, "scourge mod", &item.scourge_mods, out);
    note_lines(basic, "crucible mod", &item.crucible_mods, out);
    assert(notices_of(out@) =~= start + mods_notices(
        basic.catalog(),
        *item,
        line_texts(item.enchant_mods),
        line_texts(item.explicit_mods),
    ));
}

/// Notes what the catalog does not translate of the items in some sockets.
pub fn note_socketed(basic: &Basic, socketed: &Vec<Box<Item>>, out: &mut Vec<Untranslated>)
    ensures
        notices_of(final(out)@) == notices_of(old(out)@) + socketed_notices(
            basic.catalog(),
            socketed@,
            socketed.len() as int,
        ),
    decreases socketed@,
{
    let ghost start = notices_of(out@);
    let ghost c = basic.catalog();
    let mut i: usize = 0;
    assert(start + socketed_notices(c, socketed@, 0) =~= start);
    while i < socketed.len()
        invariant
            i <= socketed.len(),
            c == basic.catalog(),
            notices_of(out@) == start + socketed_notices(c, socketed@, i as int),
        decreases socketed.len() - i,
    {
        let inner = &socketed[i];
        if inner.abyss_jewel.is_some() {
            note_head(basic, inner, out);
            let ghost headed = notices_of(out@);
            match &inner.socketed_items {
                Some(list) => {
                    note_socketed(basic, list, out);
                },
                None => {
                    assert(headed + Seq::<Notice>::empty() =~= headed);
                },
            }
            note_mods(basic, inner, out);
        } else {
            note_gem(basic, inner, out);
        }
        assert(notices_of(out@) =~= start + socketed_notices(c, socketed@, i + 1));
        i += 1;
    }
}

/// Notes what the catalog does not translate of an item.
pub fn note_item(basic: &Basic, item: &Item, out: &mut Vec<Untranslated>)
    ensures
        notices_of(final(out)@) == notices_of(old(out)@) + item_notices(basic.catalog(), *item),
{
    let ghost start = notices_of(out@);
    note_head(basic, item, out);
    let ghost headed = notices_of(out@);
    match &item.socketed_items {
        Some(list) => {
            note_socketed(basic, list, out);
        },
        None => {
            assert(headed + Seq::<Notice>::empty() =~= headed);
        },
    }
    note_mods(basic, item, out);
    assert(notices_of(out@) =~= start + item_notices(basic.catalog(), *item));
}

/// Whether `new` is the item `old` made ready and translated.
pub open spec fn item_handled(c: Catalog, old: Item, new: Item) -> bool {
    exists|mid: Item| item_prepared(old, mid) && item_translated(c, mid, new)
}

/// Whether `new` holds the items that a build takes of `old`, in their
/// order, each made ready and translated, and the character of `old`, its
/// class moved to the Phrecia ascendancies in a league of that event.
pub open spec fn items_translated(c: Catalog, old: Items, new: Items) -> bool {
    &&& new.character.league == old.character.league
    &&& new.character.level == old.character.level
    &&& new.character.name == old.character.name
    &&& new.character.realm == old.character.realm
    &&& new.character.class@ == if has_infix(old.character.league@, ZH_PHRECIA@) {
        phrecia_class(old.character.class@)
    } else {
        old.character.class@
    }
    &&& new.items.len() == all_matches(old.items@, taken()).len()
    &&& forall|k: int|
        0 <= k < new.items.len() ==> item_handled(
            c,
            old.items[all_matches(old.items@, taken())[k]],
            #[trigger] new.items[k],
        )
}

/// Whether `new` is the replaced skill `old` in English: a keystone by its
/// name among the keystones, any other by its name among the base types.
pub open spec fn override_translated(c: Catalog, old: SkillOverride, new: SkillOverride) -> bool {
    &&& new.is_keystone == old.is_keystone
    &&& new.name@ == or_same(
        if old.is_keystone == Some(true) {
            en_of(found_last(c.keystones, old.name@))
        } else {
            en_of(first_base_type(c, old.name@))
        },
        old.name@,
    )
}

/// Whether `new` holds the passive skills `old` with their items and
/// replaced skills in English.
pub open spec fn skills_translated(c: Catalog, old: PassiveSkills, new: PassiveSkills) -> bool {
    &&& new.character == old.character
    &&& new.ascendancy == old.ascendancy
    &&& new.alternate_ascendancy == old.alternate_ascendancy
    &&& new.hashes == old.hashes
    &&& new.hashes_ex == old.hashes_ex
    &&& new.mastery_effects == old.mastery_effects
    &&& new.jewel_data == old.jewel_data
    &&& new.items.len() == old.items.len()
    &&& forall|i: int|
        0 <= i < old.items.len() ==> item_translated(c, old.items[i], #[trigger] new.items[i])
    &&& override_entries(new.skill_overrides).len() == override_entries(old.skill_overrides).len()
    &&& forall|i: int|
        0 <= i < override_entries(old.skill_overrides).len() ==> (#[trigger] override_entries(
            new.skill_overrides,
        )[i]).0 == override_entries(old.skill_overrides)[i].0 && override_translated(
            c,
            override_entries(old.skill_overrides)[i].1,
            override_entries(new.skill_overrides)[i].1,
        )
}

/// Translates whole records by the catalog.
pub struct Json {
    basic: Arc<Basic>,
}

impl Json {
    /// What the translator looks names and texts up in.
    pub closed spec fn catalog(&self) -> Catalog {
        self.basic.catalog()
    }

    /// A translator of records that looks up as `basic` does.
    pub fn new(basic: Arc<Basic>) -> (json: Json)
        ensures
            json.catalog() == basic.catalog(),
    {
        Json { basic }
    }

    /// Whether a build takes an item.
    pub fn is_pob_item(&self, item: &Item) -> (r: bool)
        ensures
            r == is_pob(*item),
    {
        match &item.inventory_id {
            Some(inventory_id) => {
                if str_eq(inventory_id.as_str(), "MainInventory") || str_eq(
                    inventory_id.as_str(),
                    "ExpandedMainInventory",
                ) {
                    return false;
                }
            },
            None => {},
        }
        !str_eq(item.base_type.as_str(), ZH_THIEF_TRINKET)
    }

    /// Makes an item ready for translation, where the export writes what
    /// the catalog does not know.
    pub fn pre_handle_item(&self, item: &mut Item)
        ensures
            item_prepared(*old(item), *final(item)),
    {
        let mut matched = false;
        if str_eq(item.name.as_str(), ZH_FORBIDDEN_FLAME) || str_eq(
            item.name.as_str(),
            ZH_FORBIDDEN_FLESH,
        ) {
            match &item.requirements {
                Some(requirements) => {
                    matched = of_foreign_class(requirements);
                },
                None => {},
            }
        }
        assert(matched == is_foreign_forbidden(*old(item)));
        let ghost whole = *old(item);
        if matched {
            match &mut item.explicit_mods {
                Some(list) => {
                    let ghost o = whole.explicit_mods->0;
                    let mut i: usize = 0;
                    while i < list.len()
                        invariant
                            i <= list.len(),
                            list.len() == o.len(),
                            forall|j: int|
                                0 <= j < i ==> (#[trigger] list@[j])@ == fixed_assassin(o[j]@),
                            forall|j: int| i <= j < list.len() ==> list@[j] == o[j],
                        decreases list.len() - i,
                    {
                        if ends_with(list[i].as_str(), ZH_PASSIVE_SKILL_ASCENDANT_ASSASSIN) {
                            let chars = to_chars(list[i].as_str());
                            let tail = to_chars(ZH_PASSIVE_SKILL_ASCENDANT_ASSASSIN);
                            let mut fixed = from_chars(&chars, 0, chars.len() - tail.len());
                            fixed.append(ZH_PASSIVE_SKILL_ASCENDANT_ASSASSIN_FIXED);
                            list[i] = fixed;
                        }
                        i += 1;
                    }
                },
                None => {},
            }
        }
        match &mut item.enchant_mods {
            Some(list) => {
                let ghost o = whole.enchant_mods->0;
                let mut i: usize = 0;
                while i < list.len()
                    invariant
                        i <= list.len(),
                        list.len() == o.len(),
                        forall|j: int|
                            0 <= j < i ==> (#[trigger] list@[j])@ == weapon_enchant(o[j]@),
                        forall|j: int| i <= j < list.len() ==> list@[j] == o[j],
                    decreases list.len() - i,
                {
                    match is_match(ZH_ELEMENTAL_DAMAGE, list[i].as_str()) {
                        Some(true) => {
                            let marked = concat(ZH_OF_THIS_WEAPON, list[i].as_str());
                            list[i] = marked;
                        },
                        _ => {},
                    }
                    i += 1;
                }
            },
            None => {},
        }
    }

    /// Translates an item in place. What the catalog does not know stays as
    /// it is.
    pub fn trans_item(&self, item: &mut Item)
        ensures
            item_translated(self.catalog(), *old(item), *final(item)),
        decreases *old(item),
    {
        let ghost whole = *old(item);
        let ghost c = self.catalog();
        let basic: &Basic = &self.basic;
        match basic.trans_name_and_base_type(item.name.as_str(), item.base_type.as_str()) {
            Some((name, base_type)) => {
                item.name = name;
                item.base_type = base_type;
            },
            None => {},
        }
        match basic.trans_type_line(item.type_line.as_str()) {
            Some(type_line) => {
                item.type_line = type_line;
            },
            None => {},
        }
        trans_requirements(basic, &mut item.requirements);
        trans_properties(basic, &mut item.properties);
        match &mut item.socketed_items {
            Some(list) => {
                let ghost o = whole.socketed_items->0;
                let mut i: usize = 0;
                while i < list.len()
                    invariant
                        i <= list.len(),
                        list.len() == o.len(),
                        whole == *old(item),
                        whole.socketed_items == Some(o),
                        c == self.catalog(),
                        forall|j: int|
                            0 <= j < i ==> if (#[trigger] o[j]).abyss_jewel is Some {
                                item_translated(c, *o[j], *list@[j])
                            } else {
                                gem_translated(c, *o[j], *list@[j])
                            },
                        forall|j: int| i <= j < list.len() ==> list@[j] == o[j],
                    decreases list.len() - i,
                {
                    proof {
                        match whole.socketed_items {
                            Some(v) => {
                                assert(decreases_to!(whole => *v[i as int]));
                            },
                            None => {},
                        }
                    }
                    if list[i].abyss_jewel.is_some() {
                        self.trans_item(&mut list[i]);
                    } else {
                        self.trans_gem(&mut list[i]);
                    }
                    i += 1;
                }
            },
            None => {},
        }
        trans_lines(basic, &mut item.enchant_mods);
        trans_lines(basic, &mut item.implicit_mods);
        trans_lines(basic, &mut item.explicit_mods);
        trans_lines(basic, &mut item.crafted_mods);
        trans_lines(basic, &mut item.utility_mods);
        trans_lines(basic, &mut item.fractured_mods);
        trans_lines(basic, &mut item.scourge_mods);
        trans_lines(basic, &mut item.crucible_mods);
    }

    /// Translates a gem in place.
    pub fn trans_gem(&self, gem: &mut Item)
        ensures
            gem_translated(self.catalog(), *old(gem), *final(gem)),
    {
        let ghost whole = *old(gem);
        let basic: &Basic = &self.basic;
        match basic.trans_gem(gem.base_type.as_str()) {
            Some(base_type) => {
                gem.base_type = base_type;
            },
            None => {},
        }
        match basic.trans_gem(gem.type_line.as_str()) {
            Some(type_line) => {
                gem.type_line = type_line;
            },
            None => {},
        }
        match &mut gem.hybrid {
            Some(hybrid) => {
                match basic.trans_gem(hybrid.base_type_name.as_str()) {
                    Some(name) => {
                        hybrid.base_type_name = name;
                    },
                    None => {},
                }
            },
            None => {},
        }
        match basic.trans_type_line(gem.type_line.as_str()) {
            Some(type_line) => {
                gem.type_line = type_line;
            },
            None => {},
        }
        match &mut gem.properties {
            Some(list) => {
                let ghost o = whole.properties->0;
                let mut i: usize = 0;
                while i < list.len()
                    invariant
                        i <= list.len(),
                        list.len() == o.len(),
                        forall|j: int|
                            0 <= j < i ==> (#[trigger] list@[j]).name@ == or_same(
                                gem_prop_translation(o[j].name@),
                                o[j].name@,
                            ) && list@[j].values == o[j].values,
                        forall|j: int| i <= j < list.len() ==> list@[j] == o[j],
                    decreases list.len() - i,
                {
                    match basic.trans_gem_prop(list[i].name.as_str()) {
                        Some(name) => {
                            list[i].name = name;
                        },
                        None => {},
                    }
                    i += 1;
                }
            },
            None => {},
        }
    }

    /// Moves the class of a character of a Phrecia league to the
    /// ascendancies of that event, which the export does not name.
    pub fn post_handle_items(&self, items: &mut Items)
        ensures
            final(items).items == old(items).items,
            final(items).character.league == old(items).character.league,
            final(items).character.level == old(items).character.level,
            final(items).character.name == old(items).character.name,
            final(items).character.realm == old(items).character.realm,
            final(items).character.class@ == if has_infix(
                old(items).character.league@,
                ZH_PHRECIA@,
            ) {
                phrecia_class(old(items).character.class@)
            } else {
                old(items).character.class@
            },
    {
        if contains(items.character.league.as_str(), ZH_PHRECIA) {
            let class = map_to_phrecia_character_class(items.character.class.as_str()).to_owned();
            items.character.class = class;
        }
    }

    /// Translates the items of a character in place: drops those that no
    /// build takes, makes the others ready and translates them. Returns
    /// what the catalog could not translate, in the order of the items and
    /// of their fields; such a text stays as it is.
    pub fn trans_items(&self, items: &mut Items) -> (notices: Vec<Untranslated>)
        ensures
            items_translated(self.catalog(), *old(items), *final(items)),
            notices_of(notices@) == taken_notices(
                self.catalog(),
                old(items).items@,
                old(items).items.len() as int,
            ),
    {
        let mut notices: Vec<Untranslated> = Vec::new();
        let basic: &Basic = &self.basic;
        assert(notices_of(notices@) =~= Seq::<Notice>::empty());
        let ghost olds = old(items).items@;
        let ghost c = self.catalog();
        let ghost mut q: int = 0;
        let mut i: usize = 0;
        assert(olds.take(0) =~= Seq::<Item>::empty());
        while i < items.items.len()
            invariant
                0 <= q <= olds.len(),
                olds == old(items).items@,
                c == self.catalog(),
                items.character == old(items).character,
                i <= items.items.len(),
                i == all_matches(olds.take(q), taken()).len(),
                items.items.len() - i == olds.len() - q,
                forall|j: int|
                    i <= j < items.items.len() ==> (#[trigger] items.items@[j]) == olds[q + (j
                        - i)],
                forall|k: int|
                    0 <= k < i ==> item_handled(
                        c,
                        olds[all_matches(olds.take(q), taken())[k]],
                        #[trigger] items.items@[k],
                    ),
                c == basic.catalog(),
                notices_of(notices@) == taken_notices(c, olds, q),
            decreases items.items.len() - i,
        {
            let ghost before = items.items@;
            let ghost m0 = all_matches(olds.take(q), taken());
            proof {
                lemma_all_matches_step(olds, taken(), q);
                assert(items.items@[i as int] == olds[q]);
            }
            if self.is_pob_item(&items.items[i]) {
                self.pre_handle_item(&mut items.items[i]);
                let ghost mid = items.items@[i as int];
                note_item(basic, &items.items[i], &mut notices);
                proof {
                    let o = olds[q];
                    assert(line_texts(mid.enchant_mods) =~= prepared_enchants(o));
                    assert(line_texts(mid.explicit_mods) =~= prepared_explicits(o));
                    assert(head_notices(c, mid) == head_notices(c, o));
                    assert(item_notices(c, mid) == item_notices_with(
                        c,
                        o,
                        prepared_enchants(o),
                        prepared_explicits(o),
                    ));
                }
                self.trans_item(&mut items.items[i]);
                proof {
                    let m1 = all_matches(olds.take(q + 1), taken());
                    assert(m1 == m0.push(q));
                    assert forall|k: int| 0 <= k < i + 1 implies item_handled(
                        c,
                        olds[m1[k]],
                        #[trigger] items.items@[k],
                    ) by {
                        if k < i {
                            assert(items.items@[k] == before[k]);
                            assert(m1[k] == m0[k]);
                            assert(item_handled(c, olds[m0[k]], before[k]));
                        } else {
                            assert(m1[k] == q);
                            assert(item_prepared(olds[q], mid) && item_translated(
                                c,
                                mid,
                                items.items@[k],
                            ));
                        }
                    }
                    assert forall|j: int| i + 1 <= j < items.items.len() implies (
                    #[trigger] items.items@[j]) == olds[q + 1 + (j - (i + 1))] by {
                        assert(items.items@[j] == before[j]);
                    }
                    q = q + 1;
                }
                i += 1;
            } else {
                items.items.remove(i);
                proof {
                    let m1 = all_matches(olds.take(q + 1), taken());
                    assert(m1 == m0);
                    assert forall|j: int| i <= j < items.items.len() implies (
                    #[trigger] items.items@[j]) == olds[q + 1 + (j - i)] by {
                        assert(items.items@[j] == before[j + 1]);
                    }
                    assert forall|k: int| 0 <= k < i implies item_handled(
                        c,
                        olds[m1[k]],
                        #[trigger] items.items@[k],
                    ) by {
                        assert(items.items@[k] == before[k]);
                        assert(item_handled(c, olds[m0[k]], before[k]));
                    }
                    q = q + 1;
                }
            }
        }
        assert(olds.take(q) =~= olds);
        self.post_handle_items(items);
        notices
    }

    /// Translates the passive skills of a character in place: the items in
    /// its jewel sockets and the names of its replaced skills. Returns what
    /// the catalog could not translate, first of the items and then of the
    /// replaced skills; such a text stays as it is.
    pub fn trans_passive_skills(&self, passive_skills: &mut PassiveSkills) -> (notices: Vec<
        Untranslated,
    >)
        ensures
            skills_translated(self.catalog(), *old(passive_skills), *final(passive_skills)),
            notices_of(notices@) == items_notices(
                self.catalog(),
                old(passive_skills).items@,
                old(passive_skills).items.len() as int,
            ) + override_notices(
                self.catalog(),
                override_entries(old(passive_skills).skill_overrides),
                override_entries(old(passive_skills).skill_overrides).len() as int,
            ),
    {
        let ghost whole = *old(passive_skills);
        let ghost c = self.catalog();
        let basic: &Basic = &self.basic;
        let mut notices: Vec<Untranslated> = Vec::new();
        assert(notices_of(notices@) =~= items_notices(c, whole.items@, 0));
        let mut i: usize = 0;
        while i < passive_skills.items.len()
            invariant
                i <= passive_skills.items.len(),
                whole == *old(passive_skills),
                c == self.catalog(),
                passive_skills.items.len() == whole.items.len(),
                passive_skills.character == whole.character,
                passive_skills.ascendancy == whole.ascendancy,
                passive_skills.alternate_ascendancy == whole.alternate_ascendancy,
                passive_skills.hashes == whole.hashes,
                passive_skills.hashes_ex == whole.hashes_ex,
                passive_skills.mastery_effects == whole.mastery_effects,
                passive_skills.jewel_data == whole.jewel_data,
                passive_skills.skill_overrides == whole.skill_overrides,
                forall|j: int|
                    0 <= j < i ==> item_translated(
                        c,
                        whole.items[j],
                        #[trigger] passive_skills.items@[j],
                    ),
                forall|j: int|
                    i <= j < whole.items.len() ==> (#[trigger] passive_skills.items@[j])
                        == whole.items[j],
                c == basic.catalog(),
                notices_of(notices@) == items_notices(c, whole.items@, i as int),
            decreases passive_skills.items.len() - i,
        {
            note_item(basic, &passive_skills.items[i], &mut notices);
            self.trans_item(&mut passive_skills.items[i]);
            i += 1;
        }
        let ghost items_noted = notices_of(notices@);
        assert(items_noted + override_notices(
            c,
            override_entries(whole.skill_overrides),
            0,
        ) =~= items_noted);
        let ghost entries = override_entries(whole.skill_overrides);
        let n = override_count(&passive_skills.skill_overrides);
        let mut k: usize = 0;
        while k < n
            invariant
                k <= n,
                n == entries.len(),
                entries == override_entries(whole.skill_overrides),
                whole == *old(passive_skills),
                c == self.catalog(),
                c == basic.catalog(),
                passive_skills.items.len() == whole.items.len(),
                passive_skills.character == whole.character,
                passive_skills.ascendancy == whole.ascendancy,
                passive_skills.alternate_ascendancy == whole.alternate_ascendancy,
                passive_skills.hashes == whole.hashes,
                passive_skills.hashes_ex == whole.hashes_ex,
                passive_skills.mastery_effects == whole.mastery_effects,
                passive_skills.jewel_data == whole.jewel_data,
                forall|j: int|
                    0 <= j < whole.items.len() ==> item_translated(
                        c,
                        whole.items[j],
                        #[trigger] passive_skills.items@[j],
                    ),
                override_entries(passive_skills.skill_overrides).len() == entries.len(),
                forall|j: int|
                    0 <= j < k ==> (#[trigger] override_entries(
                        passive_skills.skill_overrides,
                    )[j]).0 == entries[j].0 && override_translated(
                        c,
                        entries[j].1,
                        override_entries(passive_skills.skill_overrides)[j].1,
                    ),
                forall|j: int|
                    k <= j < entries.len() ==> (#[trigger] override_entries(
                        passive_skills.skill_overrides,
                    )[j]) == entries[j],
                items_noted == items_notices(c, whole.items@, whole.items.len() as int),
                notices_of(notices@) == items_noted + override_notices(c, entries, k as int),
            decreases n - k,
        {
            let (_, entry) = override_at(&passive_skills.skill_overrides, k);
            let keystone = match entry.is_keystone {
                Some(b) => b,
                None => false,
            };
            let name = if keystone {
                basic.trans_keystone(entry.name.as_str())
            } else {
                basic.trans_base_type(entry.name.as_str())
            };
            note_missing(
                &mut notices,
                if keystone {
                    "keystone"
                } else {
                    "base_type"
                },
                name.is_some(),
                entry.name.as_str(),
            );
            assert(notices_of(notices@) =~= items_noted + override_notices(c, entries, k + 1));
            match name {
                Some(name) => {
                    override_rename(&mut passive_skills.skill_overrides, k, name);
                },
                None => {},
            }
            k += 1;
        }
        notices
    }
}

} // verus!
