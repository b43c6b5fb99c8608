//! Translation of single names, values and modifier lines.

use crate::db::{
    found_all, found_first, found_last, lookup_first, Attribute, BaseType, Node, Property,
    Requirement, RequirementSuffix, Skill, Stat,
};
use crate::pattern::{regex_groups, regex_tails, tails};
use crate::search::{first_match, lemma_first_match_is, lemma_no_match};
use crate::text::{
    concat, join_lines, joined_lines, replace, replaced, skip_chars, starts_with, str_eq,
};
use crate::translator::provider::stat::{most_lines, ranked, MultilineStat};
use crate::translator::provider::{
    attribute, base_type, gem, passive_skill, property, requirement, stat,
};
use crate::translator::util::stat::{
    match_outcome, match_pattern, parsed_params, parsed_segments, rendered, texts, Template,
};
use crate::translator::util::{get_zh_body, zh_body};
use vstd::prelude::*;
use vstd::string::StrSliceExecFns;

verus! {

/// Stands before the type of an item of quality.
pub const ZH_SUPERIOR_PREFIX: &'static str = "精良的 ";

/// Stands before the type of a synthesised item.
pub const ZH_SYNTHESISED_PREFIX: &'static str = "忆境 ";

/// The name of an item whose own name is not in the catalog.
pub const EN_DEFAULT_NAME: &'static str = "Item";

/// Matches up to the next particle that ends an affix before a base type.
pub const ZH_AFFIX_END: &'static str = ".+?[之的]";

/// Stands before the notable that an anointed item allocates.
pub const ZH_ANOINTED_MOD_PREFIX: &'static str = "配置 ";

/// Stands before the ascendancy node that is allocated with a matching
/// Forbidden Flame.
pub const ZH_FORBIDDEN_FLAME_MOD_PREFIX: &'static str = "禁断之火上有匹配的词缀则配置 ";

/// Stands before the ascendancy node that is allocated with a matching
/// Forbidden Flesh.
pub const ZH_FORBIDDEN_FLESH_MOD_PREFIX: &'static str = "禁断之肉上有匹配的词缀则配置 ";

/// Stands before a modifier that holds near a unique enemy.
pub const ZH_UNIQUE_ENEMY_IN_YOUR_PRESENCE: &'static str = "有一个传奇怪物出现在你面前：";

/// Stands before a modifier that holds near a unique enemy.
pub const EN_UNIQUE_ENEMY_IN_YOUR_PRESENCE: &'static str = "While a Unique Enemy is in your Presence, ";

/// Stands before a modifier that holds near a pinnacle boss.
pub const ZH_PINNACLE_ATLAS_BOSS_IN_YOUR_PRESENCE: &'static str = "有一个异界图鉴最终首领出现在你面前：";

/// Stands before a modifier that holds near a pinnacle boss.
pub const EN_PINNACLE_ATLAS_BOSS_IN_YOUR_PRESENCE: &'static str =
    "While a Pinnacle Atlas Boss is in your Presence, ";

/// Everything that the translator looks names and texts up in.
pub struct Catalog {
    pub attributes: Seq<Attribute>,
    pub base_types: Seq<BaseType>,
    pub skills: Seq<Skill>,
    pub notables: Seq<Node>,
    pub keystones: Seq<Node>,
    pub ascendants: Seq<Node>,
    pub properties: Seq<Property>,
    pub requirements: Seq<Requirement>,
    pub suffixes: Seq<RequirementSuffix>,
    pub stats: Seq<Stat>,
}

/// The English text of an entry, if there is an entry.
pub open spec fn en_of<T: Named>(entry: Option<T>) -> Option<Seq<char>> {
    match entry {
        Some(e) => Some(e.english()),
        None => None,
    }
}

/// An entry of the catalog with an English text.
pub trait Named {
    /// The English text of the entry.
    spec fn english(&self) -> Seq<char>;
}

impl Named for Skill {
    open spec fn english(&self) -> Seq<char> {
        self.en@
    }
}

impl Named for Node {
    open spec fn english(&self) -> Seq<char> {
        self.en@
    }
}

impl Named for BaseType {
    open spec fn english(&self) -> Seq<char> {
        self.en@
    }
}

impl Named for Attribute {
    open spec fn english(&self) -> Seq<char> {
        self.en@
    }
}

impl Named for Requirement {
    open spec fn english(&self) -> Seq<char> {
        self.en@
    }
}

impl Named for RequirementSuffix {
    open spec fn english(&self) -> Seq<char> {
        self.en@
    }
}

/// The first base type of a Chinese name.
pub open spec fn first_base_type(c: Catalog, name: Seq<char>) -> Option<BaseType> {
    if found_all(c.base_types, name).len() > 0 {
        Some(found_all(c.base_types, name)[0])
    } else {
        None
    }
}

/// Whether a base type has a unique item of a Chinese name.
pub open spec fn has_unique(b: BaseType, name: Seq<char>) -> bool {
    b.uniques matches Some(uniques) && found_first(uniques@, name) is Some
}

/// The condition that a base type has a unique item of the name `name`.
pub open spec fn holds_unique(name: Seq<char>) -> spec_fn(BaseType) -> bool {
    |b: BaseType| has_unique(b, name)
}

/// The first base type of a Chinese name that has a unique item of the
/// name `name`.
pub open spec fn base_type_of_unique(c: Catalog, name: Seq<char>, base_type: Seq<char>) -> Option<
    BaseType,
> {
    match first_match(found_all(c.base_types, base_type), holds_unique(name)) {
        Some(i) => Some(found_all(c.base_types, base_type)[i]),
        None => None,
    }
}

/// A text without a prefix, if it begins with it.
pub open spec fn without_prefix(text: Seq<char>, prefix: Seq<char>) -> Seq<char> {
    if prefix.is_prefix_of(text) {
        text.skip(prefix.len() as int)
    } else {
        text
    }
}

/// The condition that a text is the Chinese name of a base type.
pub open spec fn names_base_type(c: Catalog) -> spec_fn(Seq<char>) -> bool {
    |text: Seq<char>| first_base_type(c, text) is Some
}

/// The base type that a type line ends in. The marks of quality and of
/// synthesis are left out; what is left is the name of a base type, or it
/// is a chain of affixes before one, and the first rest behind an affix
/// that names a base type counts.
pub open spec fn base_type_of_line(c: Catalog, type_line: Seq<char>) -> Option<BaseType> {
    let plain = without_prefix(
        without_prefix(type_line, ZH_SUPERIOR_PREFIX@),
        ZH_SYNTHESISED_PREFIX@,
    );
    match first_base_type(c, plain) {
        Some(b) => Some(b),
        None => match first_match(regex_tails(ZH_AFFIX_END@, plain), names_base_type(c)) {
            Some(i) => first_base_type(c, regex_tails(ZH_AFFIX_END@, plain)[i]),
            None => None,
        },
    }
}

/// The English name and base type of an item. A unique item has the names
/// of the catalog. Any other item of a known base type is called `"Item"`,
/// or keeps its empty name.
pub open spec fn name_and_base_type(c: Catalog, name: Seq<char>, base_type: Seq<char>) -> Option<
    (Seq<char>, Seq<char>),
> {
    if name.len() > 0 && base_type_of_unique(c, name, base_type) is Some {
        Some(
            (
                found_first(base_type_of_unique(c, name, base_type)->0.uniques->0@, name)->0.en@,
                base_type_of_unique(c, name, base_type)->0.en@,
            ),
        )
    } else {
        match first_base_type(c, base_type) {
            Some(b) => Some(
                (
                    if name.len() == 0 {
                        Seq::<char>::empty()
                    } else {
                        EN_DEFAULT_NAME@
                    },
                    b.en@,
                ),
            ),
            None => None,
        }
    }
}

/// The English name of an attribute and of its value. An attribute that
/// lists no values is not translated at all.
pub open spec fn attr_translation(c: Catalog, name: Seq<char>, value: Seq<char>) -> (
    Option<Seq<char>>,
    Option<Seq<char>>,
) {
    match found_last(c.attributes, name) {
        Some(attr) => match attr.values {
            Some(values) => match found_first(values@, value) {
                Some(v) => (Some(attr.en@), Some(v.en@)),
                None => (Some(attr.en@), None),
            },
            None => (None, None),
        },
        None => (None, None),
    }
}

/// The English name of a property and of its value.
pub open spec fn prop_translation(c: Catalog, name: Seq<char>, value: Seq<char>) -> (
    Option<Seq<char>>,
    Option<Seq<char>>,
) {
    match found_last(c.properties, name) {
        Some(prop) => match prop.values {
            Some(values) => match found_first(values@, value) {
                Some(v) => (Some(prop.en@), Some(v.en@)),
                None => (Some(prop.en@), None),
            },
            None => (Some(prop.en@), None),
        },
        None => (None, None),
    }
}

/// The English name of a requirement and of its value.
pub open spec fn req_translation(c: Catalog, name: Seq<char>, value: Seq<char>) -> (
    Option<Seq<char>>,
    Option<Seq<char>>,
) {
    match found_last(c.requirements, name) {
        Some(req) => match req.values {
            Some(values) => match found_first(values@, value) {
                Some(v) => (Some(req.en@), Some(v.en@)),
                None => (Some(req.en@), None),
            },
            None => (Some(req.en@), None),
        },
        None => (None, None),
    }
}

/// The name of a gem as the catalog writes it: with full-width brackets.
pub open spec fn gem_name(zh: Seq<char>) -> Seq<char> {
    replaced(replaced(zh, "("@, "（"@), ")"@, "）"@)
}

/// The English name of a property of a gem.
pub open spec fn gem_prop_translation(zh: Seq<char>) -> Option<Seq<char>> {
    if zh == "等级"@ {
        Some("Level"@)
    } else if zh == "品质"@ {
        Some("Quality"@)
    } else {
        None
    }
}

/// What a candidate is in English by a pair of templates: the candidate
/// must match the Chinese template, and the parameters found in it fill the
/// English one.
pub open spec fn template_translation(zh: Seq<char>, en: Seq<char>, text: Seq<char>) -> Option<
    Seq<char>,
> {
    match match_outcome(parsed_params(zh), regex_groups(match_pattern(parsed_segments(zh)), text)) {
        Some(m) => Some(rendered(parsed_segments(en), parsed_params(en), m)),
        None => None,
    }
}

/// What a text is in English by a modifier of the catalog: the English text
/// of the modifier where the text is its Chinese text, and else what its
/// templates give.
pub open spec fn stat_translation(stat: Stat, text: Seq<char>) -> Option<Seq<char>> {
    if text == stat.zh@ {
        Some(stat.en@)
    } else {
        template_translation(stat.zh@, stat.en@, text)
    }
}

/// The condition that a modifier of the catalog translates `text`.
pub open spec fn translates(text: Seq<char>) -> spec_fn(Stat) -> bool {
    |stat: Stat| stat_translation(stat, text) is Some
}

/// The condition that the templates of a property translate `text`.
pub open spec fn fits_property(text: Seq<char>) -> spec_fn(Property) -> bool {
    |prop: Property| template_translation(prop.zh@, prop.en@, text) is Some
}

/// The English name of a property: that of the property with this name,
/// or what the first property with the same canonical body gives whose
/// template the name matches.
pub open spec fn prop_name_translation(c: Catalog, name: Seq<char>) -> Option<Seq<char>> {
    match found_last(c.properties, name) {
        Some(prop) => Some(prop.en@),
        None => match first_match(
            property::with_body(c.properties, zh_body(name)),
            fits_property(name),
        ) {
            Some(i) => template_translation(
                property::with_body(c.properties, zh_body(name))[i].zh@,
                property::with_body(c.properties, zh_body(name))[i].en@,
                name,
            ),
            None => None,
        },
    }
}

/// What a modifier line is in English by the modifiers of the catalog: the
/// translation by the first modifier with the same canonical body that
/// translates it.
pub open spec fn plain_mod_translation(c: Catalog, text: Seq<char>) -> Option<Seq<char>> {
    match first_match(stat::with_body(c.stats, zh_body(text)), translates(text)) {
        Some(i) => stat_translation(stat::with_body(c.stats, zh_body(text))[i], text),
        None => None,
    }
}

/// Whether a text begins with a prefix that is not empty.
pub open spec fn begins_with(text: Seq<char>, prefix: Seq<char>) -> bool {
    prefix.len() > 0 && prefix.is_prefix_of(text)
}

/// An English text put around another, if there is one.
pub open spec fn wrapped(before: Seq<char>, inner: Option<Seq<char>>, after: Seq<char>) -> Option<
    Seq<char>,
> {
    match inner {
        Some(text) => Some(before + text + after),
        None => None,
    }
}

/// What a modifier line is in English. The known prefixes come first: an
/// anointment names a notable, a line of a Forbidden Flame or Flesh names
/// an ascendancy node, and a line that holds near a boss is the line behind
/// the prefix, translated in turn. Any other line is looked up among the
/// modifiers.
pub open spec fn mod_translation(c: Catalog, text: Seq<char>) -> Option<Seq<char>>
    decreases text.len(),
{
    if begins_with(text, ZH_ANOINTED_MOD_PREFIX@) {
        wrapped(
            "Allocates "@,
            en_of(found_last(c.notables, text.skip(ZH_ANOINTED_MOD_PREFIX@.len() as int))),
            Seq::<char>::empty(),
        )
    } else if begins_with(text, ZH_FORBIDDEN_FLAME_MOD_PREFIX@) {
        wrapped(
            "Allocates "@,
            en_of(
                found_last(c.ascendants, text.skip(ZH_FORBIDDEN_FLAME_MOD_PREFIX@.len() as int)),
            ),
            " if you have the matching modifier on Forbidden Flame"@,
        )
    } else if begins_with(text, ZH_FORBIDDEN_FLESH_MOD_PREFIX@) {
        wrapped(
            "Allocates "@,
            en_of(
                found_last(c.ascendants, text.skip(ZH_FORBIDDEN_FLESH_MOD_PREFIX@.len() as int)),
            ),
            " if you have the matching modifier on Forbidden Flesh"@,
        )
    } else if begins_with(text, ZH_UNIQUE_ENEMY_IN_YOUR_PRESENCE@) {
        wrapped(
            EN_UNIQUE_ENEMY_IN_YOUR_PRESENCE@,
            mod_translation(c, text.skip(ZH_UNIQUE_ENEMY_IN_YOUR_PRESENCE@.len() as int)),
            Seq::<char>::empty(),
        )
    } else if begins_with(text, ZH_PINNACLE_ATLAS_BOSS_IN_YOUR_PRESENCE@) {
        wrapped(
            EN_PINNACLE_ATLAS_BOSS_IN_YOUR_PRESENCE@,
            mod_translation(c, text.skip(ZH_PINNACLE_ATLAS_BOSS_IN_YOUR_PRESENCE@.len() as int)),
            Seq::<char>::empty(),
        )
    } else {
        plain_mod_translation(c, text)
    }
}

/// What the first lines of a block are in English by one modifier of
/// several lines: the block must have as many lines as the modifier, and
/// those lines, joined, must have the canonical body of the modifier.
pub open spec fn block_translation_by(c: Catalog, lines: Seq<Seq<char>>, m: MultilineStat) -> Option<
    Seq<char>,
> {
    if m.line_count <= lines.len() && m.id < c.stats.len() && zh_body(
        joined_lines(lines, m.line_count as int),
    ) == zh_body(c.stats[m.id as int].zh@) {
        stat_translation(c.stats[m.id as int], joined_lines(lines, m.line_count as int))
    } else {
        None
    }
}

/// The condition that a modifier of several lines translates the first
/// lines of a block.
pub open spec fn translates_block(c: Catalog, lines: Seq<Seq<char>>) -> spec_fn(
    MultilineStat,
) -> bool {
    |m: MultilineStat| block_translation_by(c, lines, m) is Some
}

/// What the first lines of a block are in English: the modifiers of
/// several lines whose first line has the canonical body of the block's
/// first line are tried, those of more lines first, and the first that
/// translates its lines counts.
pub open spec fn block_translation(c: Catalog, lines: Seq<Seq<char>>) -> Option<Seq<char>> {
    let candidates = ranked(c.stats, zh_body(lines[0]), c.stats.len() as int);
    match first_match(candidates, translates_block(c, lines)) {
        Some(i) => block_translation_by(c, lines, candidates[i]),
        None => None,
    }
}

/// The text of an exec value, if there is one.
pub open spec fn text_of(value: Option<String>) -> Option<Seq<char>> {
    match value {
        Some(s) => Some(s@),
        None => None,
    }
}

/// Translates names, values and modifier lines by the catalog.
#[derive(Debug)]
pub struct Basic {
    attribute_provider: attribute::Provider,
    basetype_provider: base_type::Provider,
    gem_provider: gem::Provider,
    passive_skill_provider: passive_skill::Provider,
    property_provider: property::Provider,
    requirement_provider: requirement::Provider,
    stat_provider: stat::Provider,
}

impl Basic {
    /// What the translator looks names and texts up in.
    pub closed spec fn catalog(&self) -> Catalog {
        Catalog {
            attributes: self.attribute_provider.entries(),
            base_types: self.basetype_provider.entries(),
            skills: self.gem_provider.entries(),
            notables: self.passive_skill_provider.notables(),
            keystones: self.passive_skill_provider.keystones(),
            ascendants: self.passive_skill_provider.ascendants(),
            properties: self.property_provider.entries(),
            requirements: self.requirement_provider.requirements(),
            suffixes: self.requirement_provider.suffixes(),
            stats: self.stat_provider.entries(),
        }
    }

    /// A translator that looks up in the given providers.
    pub fn new(
        attribute_provider: attribute::Provider,
        basetype_provider: base_type::Provider,
        gem_provider: gem::Provider,
        passive_skill_provider: passive_skill::Provider,
        property_provider: property::Provider,
        requirement_provider: requirement::Provider,
        stat_provider: stat::Provider,
    ) -> (b: Basic)
        ensures
            b.catalog() == (Catalog {
                attributes: attribute_provider.entries(),
                base_types: basetype_provider.entries(),
                skills: gem_provider.entries(),
                notables: passive_skill_provider.notables(),
                keystones: passive_skill_provider.keystones(),
                ascendants: passive_skill_provider.ascendants(),
                properties: property_provider.entries(),
                requirements: requirement_provider.requirements(),
                suffixes: requirement_provider.suffixes(),
                stats: stat_provider.entries(),
            }),
    {
        Basic {
            attribute_provider,
            basetype_provider,
            gem_provider,
            passive_skill_provider,
            property_provider,
            requirement_provider,
            stat_provider,
        }
    }

    /// The first base type of a Chinese name.
    pub fn find_base_type(&self, name: &str) -> (r: Option<&BaseType>)
        ensures
            match r {
                Some(b) => first_base_type(self.catalog(), name@) == Some(*b),
                None => first_base_type(self.catalog(), name@) is None,
            },
    {
        match self.basetype_provider.provide_by_zh(name) {
            Some(list) => Some(list[0]),
            None => None,
        }
    }

    /// The first base type of a Chinese name that has a unique item of the
    /// name `name`.
    pub fn find_base_type_by_unique(&self, name: &str, base_type: &str) -> (r: Option<&BaseType>)
        ensures
            match r {
                Some(b) => base_type_of_unique(self.catalog(), name@, base_type@) == Some(*b),
                None => base_type_of_unique(self.catalog(), name@, base_type@) is None,
            },
    {
        let list = match self.basetype_provider.provide_by_zh(base_type) {
            Some(list) => list,
            None => {
                proof {
                    lemma_no_match(
                        found_all(self.catalog().base_types, base_type@),
                        holds_unique(name@),
                    );
                }
                return None;
            },
        };
        let ghost all = found_all(self.catalog().base_types, base_type@);
        let mut i: usize = 0;
        while i < list.len()
            invariant
                i <= list.len(),
                all == found_all(self.catalog().base_types, base_type@),
                list.len() == all.len(),
                forall|k: int| 0 <= k < list.len() ==> *(#[trigger] list@[k]) == all[k],
                forall|j: int| 0 <= j < i ==> !holds_unique(name@)(#[trigger] all[j]),
            decreases list.len() - i,
        {
            let b = list[i];
            assert(*b == all[i as int]);
            let found = match &b.uniques {
                Some(uniques) => lookup_first(uniques, name).is_some(),
                None => false,
            };
            if found {
                proof {
                    lemma_first_match_is(all, holds_unique(name@), i as int);
                }
                return Some(b);
            }
            i += 1;
        }
        proof {
            lemma_no_match(all, holds_unique(name@));
        }
        None
    }

    /// The base type that a type line ends in.
    pub fn find_base_type_by_type_line(&self, type_line: &str) -> (r: Option<&BaseType>)
        ensures
            match r {
                Some(b) => base_type_of_line(self.catalog(), type_line@) == Some(*b),
                None => base_type_of_line(self.catalog(), type_line@) is None,
            },
    {
        let plain = strip_prefix(type_line, ZH_SUPERIOR_PREFIX);
        let plain = strip_prefix(plain.as_str(), ZH_SYNTHESISED_PREFIX);
        match self.find_base_type(plain.as_str()) {
            Some(b) => {
                return Some(b);
            },
            None => {},
        }
        let rests = tails(ZH_AFFIX_END, plain.as_str());
        let ghost all = regex_tails(ZH_AFFIX_END@, plain@);
        let mut i: usize = 0;
        while i < rests.len()
            invariant
                i <= rests.len(),
                all == rests.deep_view(),
                all == regex_tails(ZH_AFFIX_END@, plain@),
                plain@ == without_prefix(
                    without_prefix(type_line@, ZH_SUPERIOR_PREFIX@),
                    ZH_SYNTHESISED_PREFIX@,
                ),
                first_base_type(self.catalog(), plain@) is None,
                forall|j: int| 0 <= j < i ==> !names_base_type(self.catalog())(#[trigger] all[j]),
            decreases rests.len() - i,
        {
            assert(all[i as int] == rests[i as int]@);
            match self.find_base_type(rests[i].as_str()) {
                Some(b) => {
                    proof {
                        lemma_first_match_is(all, names_base_type(self.catalog()), i as int);
                    }
                    return Some(b);
                },
                None => {},
            }
            i += 1;
        }
        proof {
            lemma_no_match(all, names_base_type(self.catalog()));
        }
        None
    }

    /// The English name and base type of an item, or `None` where the
    /// catalog does not know its base type.
    pub fn trans_name_and_base_type(&self, name: &str, base_type: &str) -> (r: Option<
        (String, String),
    >)
        ensures
            match r {
                Some(names) => name_and_base_type(self.catalog(), name@, base_type@) == Some(
                    (names.0@, names.1@),
                ),
                None => name_and_base_type(self.catalog(), name@, base_type@) is None,
            },
    {
        if !name.is_empty() {
            match self.find_base_type_by_unique(name, base_type) {
                Some(b) => {
                    proof {
                        crate::search::lemma_first_match(
                            found_all(self.catalog().base_types, base_type@),
                            holds_unique(name@),
                        );
                    }
                    match &b.uniques {
                        Some(uniques) => match lookup_first(uniques, name) {
                            Some(unique) => {
                                return Some((unique.en.clone(), b.en.clone()));
                            },
                            None => {},
                        },
                        None => {},
                    }
                },
                None => {},
            }
        }
        match self.find_base_type(base_type) {
            Some(b) => {
                let own = if name.is_empty() {
                    String::new()
                } else {
                    EN_DEFAULT_NAME.to_owned()
                };
                Some((own, b.en.clone()))
            },
            None => None,
        }
    }

    /// The English name of a base type.
    pub fn trans_base_type(&self, base_type: &str) -> (r: Option<String>)
        ensures
            text_of(r) == en_of(first_base_type(self.catalog(), base_type@)),
    {
        match self.find_base_type(base_type) {
            Some(b) => Some(b.en.clone()),
            None => None,
        }
    }

    /// The English name of the base type that a type line ends in.
    pub fn trans_type_line(&self, type_line: &str) -> (r: Option<String>)
        ensures
            text_of(r) == en_of(base_type_of_line(self.catalog(), type_line@)),
    {
        match self.find_base_type_by_type_line(type_line) {
            Some(b) => Some(b.en.clone()),
            None => None,
        }
    }

    /// The English name of an attribute and of its value.
    pub fn trans_attr(&self, name: &str, value: &str) -> (r: (Option<String>, Option<String>))
        ensures
            text_of(r.0) == attr_translation(self.catalog(), name@, value@).0,
            text_of(r.1) == attr_translation(self.catalog(), name@, value@).1,
    {
        match self.attribute_provider.provide_by_zh(name) {
            Some(attr) => match &attr.values {
                Some(values) => match lookup_first(values, value) {
                    Some(v) => (Some(attr.en.clone()), Some(v.en.clone())),
                    None => (Some(attr.en.clone()), None),
                },
                None => (None, None),
            },
            None => (None, None),
        }
    }

    /// The English name of an attribute.
    pub fn trans_attr_name(&self, zh_name: &str) -> (r: Option<String>)
        ensures
            text_of(r) == en_of(found_last(self.catalog().attributes, zh_name@)),
    {
        match self.attribute_provider.provide_by_zh(zh_name) {
            Some(attr) => Some(attr.en.clone()),
            None => None,
        }
    }

    /// The name of a gem as the catalog writes it.
    pub fn fmt_gem_name(zh: &str) -> (r: String)
        ensures
            r@ == gem_name(zh@),
    {
        let opened = replace(zh, "(", "（");
        replace(opened.as_str(), ")", "）")
    }

    /// The English name of a gem.
    pub fn trans_gem(&self, name: &str) -> (r: Option<String>)
        ensures
            text_of(r) == en_of(found_last(self.catalog().skills, gem_name(name@))),
    {
        let name = Self::fmt_gem_name(name);
        match self.gem_provider.provide_by_zh(name.as_str()) {
            Some(gem) => Some(gem.en.clone()),
            None => None,
        }
    }

    /// The English name of a property of a gem.
    pub fn trans_gem_prop(&self, zh: &str) -> (r: Option<String>)
        ensures
            text_of(r) == gem_prop_translation(zh@),
    {
        if str_eq(zh, "等级") {
            Some("Level".to_owned())
        } else if str_eq(zh, "品质") {
            Some("Quality".to_owned())
        } else {
            None
        }
    }

    /// The English name of a notable.
    pub fn trans_notable(&self, zh: &str) -> (r: Option<String>)
        ensures
            text_of(r) == en_of(found_last(self.catalog().notables, zh@)),
    {
        match self.passive_skill_provider.provide_notable_by_zh(zh) {
            Some(node) => Some(node.en.clone()),
            None => None,
        }
    }

    /// The English name of a keystone.
    pub fn trans_keystone(&self, zh: &str) -> (r: Option<String>)
        ensures
            text_of(r) == en_of(found_last(self.catalog().keystones, zh@)),
    {
        match self.passive_skill_provider.provide_keystone_by_zh(zh) {
            Some(node) => Some(node.en.clone()),
            None => None,
        }
    }

    /// The English name of an ascendancy node.
    pub fn trans_ascendant(&self, zh: &str) -> (r: Option<String>)
        ensures
            text_of(r) == en_of(found_last(self.catalog().ascendants, zh@)),
    {
        match self.passive_skill_provider.provide_ascendant_by_zh(zh) {
            Some(node) => Some(node.en.clone()),
            None => None,
        }
    }

    /// The English name of a property and of its value.
    pub fn trans_prop(&self, name: &str, value: &str) -> (r: (Option<String>, Option<String>))
        ensures
            text_of(r.0) == prop_translation(self.catalog(), name@, value@).0,
            text_of(r.1) == prop_translation(self.catalog(), name@, value@).1,
    {
        match self.property_provider.provide_by_zh(name) {
            Some(prop) => match &prop.values {
                Some(values) => match lookup_first(values, value) {
                    Some(v) => (Some(prop.en.clone()), Some(v.en.clone())),
                    None => (Some(prop.en.clone()), None),
                },
                None => (Some(prop.en.clone()), None),
            },
            None => (None, None),
        }
    }

    /// The English name of a property, also of one whose name carries
    /// parameters.
    pub fn trans_prop_name(&self, name: &str) -> (r: Option<String>)
        ensures
            text_of(r) == prop_name_translation(self.catalog(), name@),
    {
        match self.property_provider.provide_by_zh(name) {
            Some(prop) => {
                return Some(prop.en.clone());
            },
            None => {},
        }
        let body = get_zh_body(name);
        let ghost all = property::with_body(self.catalog().properties, zh_body(name@));
        let list = match self.property_provider.provice_by_zh_body(body.as_str()) {
            Some(list) => list,
            None => {
                proof {
                    lemma_no_match(all, fits_property(name@));
                }
                return None;
            },
        };
        let mut i: usize = 0;
        while i < list.len()
            invariant
                i <= list.len(),
                all == property::with_body(self.catalog().properties, zh_body(name@)),
                found_last(self.catalog().properties, name@) is None,
                list.len() == all.len(),
                forall|k: int| 0 <= k < list.len() ==> *(#[trigger] list@[k]) == all[k],
                forall|j: int| 0 <= j < i ==> !fits_property(name@)(#[trigger] all[j]),
            decreases list.len() - i,
        {
            let prop = list[i];
            assert(*prop == all[i as int]);
            match by_templates(prop.zh.as_str(), prop.en.as_str(), name) {
                Some(text) => {
                    proof {
                        lemma_first_match_is(all, fits_property(name@), i as int);
                    }
                    return Some(text);
                },
                None => {},
            }
            i += 1;
        }
        proof {
            lemma_no_match(all, fits_property(name@));
        }
        None
    }

    /// The English name of a requirement and of its value.
    pub fn trans_req(&self, name: &str, value: &str) -> (r: (Option<String>, Option<String>))
        ensures
            text_of(r.0) == req_translation(self.catalog(), name@, value@).0,
            text_of(r.1) == req_translation(self.catalog(), name@, value@).1,
    {
        match self.requirement_provider.provide_by_zh(name) {
            Some(req) => match &req.values {
                Some(values) => match lookup_first(values, value) {
                    Some(v) => (Some(req.en.clone()), Some(v.en.clone())),
                    None => (Some(req.en.clone()), None),
                },
                None => (Some(req.en.clone()), None),
            },
            None => (None, None),
        }
    }

    /// The English name of a requirement.
    pub fn trans_req_name(&self, zh: &str) -> (r: Option<String>)
        ensures
            text_of(r) == en_of(found_last(self.catalog().requirements, zh@)),
    {
        match self.requirement_provider.provide_by_zh(zh) {
            Some(req) => Some(req.en.clone()),
            None => None,
        }
    }

    /// The English text of a requirement suffix.
    pub fn trans_req_suffix(&self, zh: &str) -> (r: Option<String>)
        ensures
            text_of(r) == en_of(found_last(self.catalog().suffixes, zh@)),
    {
        match self.requirement_provider.provide_suffix_by_zh(zh) {
            Some(suffix) => Some(suffix.en.clone()),
            None => None,
        }
    }

    /// Whether a modifier line is an anointment.
    pub fn is_anointed_mod(&self, mod_str: &str) -> (r: bool)
        ensures
            r == ZH_ANOINTED_MOD_PREFIX@.is_prefix_of(mod_str@),
    {
        starts_with(mod_str, ZH_ANOINTED_MOD_PREFIX)
    }

    /// The English line of an anointment.
    pub fn trans_anointed_mod(&self, mod_str: &str) -> (r: Option<String>)
        requires
            ZH_ANOINTED_MOD_PREFIX@.is_prefix_of(mod_str@),
        ensures
            text_of(r) == wrapped(
                "Allocates "@,
                en_of(
                    found_last(
                        self.catalog().notables,
                        mod_str@.skip(ZH_ANOINTED_MOD_PREFIX@.len() as int),
                    ),
                ),
                Seq::<char>::empty(),
            ),
    {
        let notable = skip_chars(mod_str, ZH_ANOINTED_MOD_PREFIX.unicode_len());
        match self.trans_notable(notable.as_str()) {
            Some(en) => Some(lead("Allocates ", en.as_str())),
            None => None,
        }
    }

    /// Whether a modifier line allocates with a matching Forbidden Flame.
    pub fn is_forbidden_flame_mod(&self, mod_str: &str) -> (r: bool)
        ensures
            r == ZH_FORBIDDEN_FLAME_MOD_PREFIX@.is_prefix_of(mod_str@),
    {
        starts_with(mod_str, ZH_FORBIDDEN_FLAME_MOD_PREFIX)
    }

    /// The English line of a modifier that allocates with a matching
    /// Forbidden Flame.
    pub fn trans_forbidden_flame_mod(&self, mod_str: &str) -> (r: Option<String>)
        requires
            ZH_FORBIDDEN_FLAME_MOD_PREFIX@.is_prefix_of(mod_str@),
        ensures
            text_of(r) == wrapped(
                "Allocates "@,
                en_of(
                    found_last(
                        self.catalog().ascendants,
                        mod_str@.skip(ZH_FORBIDDEN_FLAME_MOD_PREFIX@.len() as int),
                    ),
                ),
                " if you have the matching modifier on Forbidden Flame"@,
            ),
    {
        let ascendant = skip_chars(mod_str, ZH_FORBIDDEN_FLAME_MOD_PREFIX.unicode_len());
        match self.trans_ascendant(ascendant.as_str()) {
            Some(en) => Some(
                wrap(
                    "Allocates ",
                    en.as_str(),
                    " if you have the matching modifier on Forbidden Flame",
                ),
            ),
            None => None,
        }
    }

    /// Whether a modifier line allocates with a matching Forbidden Flesh.
    pub fn is_forbidden_flesh_mod(&self, mod_str: &str) -> (r: bool)
        ensures
            r == ZH_FORBIDDEN_FLESH_MOD_PREFIX@.is_prefix_of(mod_str@),
    {
        starts_with(mod_str, ZH_FORBIDDEN_FLESH_MOD_PREFIX)
    }

    /// The English line of a modifier that allocates with a matching
    /// Forbidden Flesh.
    pub fn trans_forbidden_flesh_mod(&self, mod_str: &str) -> (r: Option<String>)
        requires
            ZH_FORBIDDEN_FLESH_MOD_PREFIX@.is_prefix_of(mod_str@),
        ensures
            text_of(r) == wrapped(
                "Allocates "@,
                en_of(
                    found_last(
                        self.catalog().ascendants,
                        mod_str@.skip(ZH_FORBIDDEN_FLESH_MOD_PREFIX@.len() as int),
                    ),
                ),
                " if you have the matching modifier on Forbidden Flesh"@,
            ),
    {
        let ascendant = skip_chars(mod_str, ZH_FORBIDDEN_FLESH_MOD_PREFIX.unicode_len());
        match self.trans_ascendant(ascendant.as_str()) {
            Some(en) => Some(
                wrap(
                    "Allocates ",
                    en.as_str(),
                    " if you have the matching modifier on Forbidden Flesh",
                ),
            ),
            None => None,
        }
    }

    /// Whether a modifier line holds near a boss.
    pub fn is_eldritch_implicit_mod(&self, mod_str: &str) -> (r: bool)
        ensures
            r == (ZH_UNIQUE_ENEMY_IN_YOUR_PRESENCE@.is_prefix_of(mod_str@)
                || ZH_PINNACLE_ATLAS_BOSS_IN_YOUR_PRESENCE@.is_prefix_of(mod_str@)),
    {
        starts_with(mod_str, ZH_UNIQUE_ENEMY_IN_YOUR_PRESENCE) || starts_with(
            mod_str,
            ZH_PINNACLE_ATLAS_BOSS_IN_YOUR_PRESENCE,
        )
    }

    /// The English line of a modifier that holds near a boss: the line
    /// behind the prefix is translated as any modifier line.
    pub fn trans_eldritch_implicit_mod(&self, mod_str: &str) -> (r: Option<String>)
        ensures
            text_of(r) == if begins_with(mod_str@, ZH_UNIQUE_ENEMY_IN_YOUR_PRESENCE@) {
                wrapped(
                    EN_UNIQUE_ENEMY_IN_YOUR_PRESENCE@,
                    mod_translation(
                        self.catalog(),
                        mod_str@.skip(ZH_UNIQUE_ENEMY_IN_YOUR_PRESENCE@.len() as int),
                    ),
                    Seq::<char>::empty(),
                )
            } else if begins_with(mod_str@, ZH_PINNACLE_ATLAS_BOSS_IN_YOUR_PRESENCE@) {
                wrapped(
                    EN_PINNACLE_ATLAS_BOSS_IN_YOUR_PRESENCE@,
                    mod_translation(
                        self.catalog(),
                        mod_str@.skip(ZH_PINNACLE_ATLAS_BOSS_IN_YOUR_PRESENCE@.len() as int),
                    ),
                    Seq::<char>::empty(),
                )
            } else {
                None
            },
        decreases mod_str@.len(), 0int,
    {
        let unique = ZH_UNIQUE_ENEMY_IN_YOUR_PRESENCE.unicode_len();
        if unique > 0 && starts_with(mod_str, ZH_UNIQUE_ENEMY_IN_YOUR_PRESENCE) {
            let sub_mod = skip_chars(mod_str, unique);
            return match self.trans_mod(sub_mod.as_str()) {
                Some(en) => Some(lead(EN_UNIQUE_ENEMY_IN_YOUR_PRESENCE, en.as_str())),
                None => None,
            };
        }
        let pinnacle = ZH_PINNACLE_ATLAS_BOSS_IN_YOUR_PRESENCE.unicode_len();
        if pinnacle > 0 && starts_with(mod_str, ZH_PINNACLE_ATLAS_BOSS_IN_YOUR_PRESENCE) {
            let sub_mod = skip_chars(mod_str, pinnacle);
            return match self.trans_mod(sub_mod.as_str()) {
                Some(en) => Some(lead(EN_PINNACLE_ATLAS_BOSS_IN_YOUR_PRESENCE, en.as_str())),
                None => None,
            };
        }
        None
    }

    /// The English line of a modifier line, or `None` where the catalog has
    /// nothing for it.
    pub fn trans_mod(&self, mod_str: &str) -> (r: Option<String>)
        ensures
            text_of(r) == mod_translation(self.catalog(), mod_str@),
        decreases mod_str@.len(), 1int,
    {
        if ZH_ANOINTED_MOD_PREFIX.unicode_len() > 0 && self.is_anointed_mod(mod_str) {
            return self.trans_anointed_mod(mod_str);
        }
        if ZH_FORBIDDEN_FLAME_MOD_PREFIX.unicode_len() > 0 && self.is_forbidden_flame_mod(
            mod_str,
        ) {
            return self.trans_forbidden_flame_mod(mod_str);
        }
        if ZH_FORBIDDEN_FLESH_MOD_PREFIX.unicode_len() > 0 && self.is_forbidden_flesh_mod(
            mod_str,
        ) {
            return self.trans_forbidden_flesh_mod(mod_str);
        }
        if (ZH_UNIQUE_ENEMY_IN_YOUR_PRESENCE.unicode_len() > 0 && starts_with(
            mod_str,
            ZH_UNIQUE_ENEMY_IN_YOUR_PRESENCE,
        )) || (ZH_PINNACLE_ATLAS_BOSS_IN_YOUR_PRESENCE.unicode_len() > 0 && starts_with(
            mod_str,
            ZH_PINNACLE_ATLAS_BOSS_IN_YOUR_PRESENCE,
        )) {
            return self.trans_eldritch_implicit_mod(mod_str);
        }
        self.trans_mod_inner(mod_str)
    }

    /// The English line of a modifier line by the modifiers of the catalog.
    pub fn trans_mod_inner(&self, mod_str: &str) -> (r: Option<String>)
        ensures
            text_of(r) == plain_mod_translation(self.catalog(), mod_str@),
    {
        let body = get_zh_body(mod_str);
        let ghost all = stat::with_body(self.catalog().stats, zh_body(mod_str@));
        let list = match self.stat_provider.provide_by_zh(body.as_str()) {
            Some(list) => list,
            None => {
                proof {
                    lemma_no_match(all, translates(mod_str@));
                }
                return None;
            },
        };
        let mut i: usize = 0;
        while i < list.len()
            invariant
                i <= list.len(),
                all == stat::with_body(self.catalog().stats, zh_body(mod_str@)),
                list.len() == all.len(),
                forall|k: int| 0 <= k < list.len() ==> *(#[trigger] list@[k]) == all[k],
                forall|j: int| 0 <= j < i ==> !translates(mod_str@)(#[trigger] all[j]),
            decreases list.len() - i,
        {
            let stat = list[i];
            assert(*stat == all[i as int]);
            match self.do_trans_mod(stat, mod_str) {
                Some(text) => {
                    proof {
                        lemma_first_match_is(all, translates(mod_str@), i as int);
                    }
                    return Some(text);
                },
                None => {},
            }
            i += 1;
        }
        proof {
            lemma_no_match(all, translates(mod_str@));
        }
        None
    }

    /// What a modifier line is in English by one modifier of the catalog.
    pub fn do_trans_mod(&self, stat: &Stat, mod_str: &str) -> (r: Option<String>)
        ensures
            text_of(r) == stat_translation(*stat, mod_str@),
    {
        if str_eq(mod_str, stat.zh.as_str()) {
            return Some(stat.en.clone());
        }
        by_templates(stat.zh.as_str(), stat.en.as_str(), mod_str)
    }

    /// The greatest number of lines of the modifiers of several lines that
    /// begin as `first_line` does, 0 where there is none.
    pub fn get_max_lines_of_multiline_mod(&self, first_line: &str) -> (n: usize)
        ensures
            n == most_lines(
                self.catalog().stats,
                zh_body(first_line@),
                self.catalog().stats.len() as int,
            ),
    {
        let body = get_zh_body(first_line);
        match self.stat_provider.provide_by_first_line_zh_body(body.as_str()) {
            Some(entry) => entry.max_lines,
            None => 0,
        }
    }

    /// The English text of the modifier of several lines that a block of
    /// lines begins with, or `None` where the catalog has none for it.
    pub fn trans_multiline_mod(&self, lines: Vec<&str>) -> (r: Option<String>)
        requires
            lines.len() > 0,
        ensures
            text_of(r) == block_translation(self.catalog(), lines@.map_values(|l: &str| l@)),
    {
        let ghost block = lines@.map_values(|l: &str| l@);
        let ghost c = self.catalog();
        assert(block[0] == lines@[0]@);
        let first_line_body = get_zh_body(lines[0]);
        let ghost all = ranked(c.stats, zh_body(block[0]), c.stats.len() as int);
        let entry = match self.stat_provider.provide_by_first_line_zh_body(
            first_line_body.as_str(),
        ) {
            Some(entry) => entry,
            None => {
                proof {
                    lemma_no_match(all, translates_block(c, block));
                }
                return None;
            },
        };
        let mut i: usize = 0;
        while i < entry.stats.len()
            invariant
                i <= entry.stats.len(),
                c == self.catalog(),
                block == lines@.map_values(|l: &str| l@),
                all == entry.stats@,
                all == ranked(c.stats, zh_body(block[0]), c.stats.len() as int),
                forall|k: int|
                    0 <= k < entry.stats.len() ==> (#[trigger] entry.stats[k]).id < c.stats.len(),
                forall|j: int| 0 <= j < i ==> !translates_block(c, block)(#[trigger] all[j]),
            decreases entry.stats.len() - i,
        {
            let m_stat = &entry.stats[i];
            if m_stat.line_count <= lines.len() {
                let mod_str = join_lines(&lines, m_stat.line_count);
                let stat = self.stat_provider.provide(m_stat.id);
                let mine = get_zh_body(mod_str.as_str());
                let theirs = get_zh_body(stat.zh.as_str());
                if str_eq(mine.as_str(), theirs.as_str()) {
                    match self.do_trans_mod(stat, mod_str.as_str()) {
                        Some(text) => {
                            proof {
                                lemma_first_match_is(all, translates_block(c, block), i as int);
                            }
                            return Some(text);
                        },
                        None => {},
                    }
                }
            }
            i += 1;
        }
        proof {
            lemma_no_match(all, translates_block(c, block));
        }
        None
    }
}

/// A text without a prefix, if it begins with it.
pub fn strip_prefix(text: &str, prefix: &str) -> (r: String)
    ensures
        r@ == without_prefix(text@, prefix@),
{
    if starts_with(text, prefix) {
        skip_chars(text, prefix.unicode_len())
    } else {
        text.to_owned()
    }
}

/// An English text with a text before it and a text behind it.
pub fn wrap(before: &str, inner: &str, after: &str) -> (r: String)
    ensures
        r@ == before@ + inner@ + after@,
{
    let mut r = concat(before, inner);
    r.append(after);
    r
}

/// An English text with a text before it.
pub fn lead(before: &str, inner: &str) -> (r: String)
    ensures
        r@ == before@ + inner@ + Seq::<char>::empty(),
{
    let r = concat(before, inner);
    assert(r@ =~= before@ + inner@ + Seq::<char>::empty());
    r
}

/// What a candidate is in English by a pair of templates.
pub fn by_templates(zh: &str, en: &str, text: &str) -> (r: Option<String>)
    ensures
        text_of(r) == template_translation(zh@, en@, text@),
{
    let zh_tmpl = Template::new(zh);
    match zh_tmpl.parse_params(text) {
        Some(params) => {
            let en_tmpl = Template::new(en);
            Some(en_tmpl.render(params))
        },
        None => None,
    }
}

} // verus!
