//! The catalog: what each Chinese name or text is in English.

use crate::search::{
    all_matches, first_match, last_match, lemma_all_matches_step, lemma_first_match_is,
    lemma_last_match_is, lemma_no_match,
};
use crate::text::str_eq;
use vstd::prelude::*;

verus! {

/// An entry that is found by a text: an entry of the catalog by its
/// Chinese text, a line of an item by its name.
pub trait Keyed {
    /// The text by which the entry is found.
    spec fn key(&self) -> Seq<char>;

    /// The text by which the entry is found.
    fn key_str(&self) -> (k: &str)
        ensures
            k@ == self.key(),
    ;
}

/// The condition that an entry is found by the text `zh`.
pub open spec fn spelled<T: Keyed>(zh: Seq<char>) -> spec_fn(T) -> bool {
    |entry: T| entry.key() == zh
}

/// The index of the last entry with the Chinese text `zh`.
pub fn find_last<T: Keyed>(list: &Vec<T>, zh: &str) -> (r: Option<usize>)
    ensures
        match r {
            Some(i) => last_match(list@, spelled::<T>(zh@)) == Some(i as int) && i < list.len(),
            None => last_match(list@, spelled::<T>(zh@)) is None,
        },
{
    let mut i: usize = list.len();
    while i > 0
        invariant
            i <= list.len(),
            forall|j: int| i <= j < list.len() ==> !spelled::<T>(zh@)(#[trigger] list@[j]),
        decreases i,
    {
        i -= 1;
        if str_eq(list[i].key_str(), zh) {
            proof {
                lemma_last_match_is(list@, spelled::<T>(zh@), i as int);
            }
            return Some(i);
        }
    }
    proof {
        lemma_no_match(list@, spelled::<T>(zh@));
    }
    None
}

/// The condition that a text is `zh`.
pub open spec fn is_text(zh: Seq<char>) -> spec_fn(Seq<char>) -> bool {
    |text: Seq<char>| text == zh
}

/// The indices of all texts that are `zh`, in ascending order.
pub fn find_all(texts: &Vec<String>, zh: &str) -> (r: Vec<usize>)
    ensures
        r@.map_values(|i: usize| i as int) == all_matches(texts.deep_view(), is_text(zh@)),
        forall|k: int| 0 <= k < r.len() ==> (#[trigger] r@[k]) < texts.len(),
{
    let ghost all = texts.deep_view();
    let ghost pred = is_text(zh@);
    let mut out: Vec<usize> = Vec::new();
    let mut i: usize = 0;
    assert(all.take(0) =~= Seq::<Seq<char>>::empty());
    while i < texts.len()
        invariant
            i <= texts.len(),
            all == texts.deep_view(),
            pred == is_text(zh@),
            out@.map_values(|i: usize| i as int) == all_matches(all.take(i as int), pred),
            forall|k: int| 0 <= k < out.len() ==> (#[trigger] out@[k]) < i,
        decreases texts.len() - i,
    {
        proof {
            lemma_all_matches_step(all, pred, i as int);
            assert(all[i as int] == texts[i as int]@);
        }
        if str_eq(texts[i].as_str(), zh) {
            let ghost before = out@;
            out.push(i);
            assert(out@.map_values(|i: usize| i as int) =~= before.map_values(
                |i: usize| i as int,
            ).push(i as int));
        }
        i += 1;
    }
    assert(all.take(texts.len() as int) =~= all);
    out
}

/// The first entry with the Chinese text `zh`.
pub open spec fn found_first<T: Keyed>(list: Seq<T>, zh: Seq<char>) -> Option<T> {
    match first_match(list, spelled::<T>(zh)) {
        Some(i) => Some(list[i]),
        None => None,
    }
}

/// The first entry with the Chinese text `zh`.
pub fn lookup_first<'a, T: Keyed>(list: &'a Vec<T>, zh: &str) -> (r: Option<&'a T>)
    ensures
        match r {
            Some(entry) => found_first(list@, zh@) == Some(*entry),
            None => found_first(list@, zh@) is None,
        },
{
    let mut i: usize = 0;
    while i < list.len()
        invariant
            i <= list.len(),
            forall|j: int| 0 <= j < i ==> !spelled::<T>(zh@)(#[trigger] list@[j]),
        decreases list.len() - i,
    {
        if str_eq(list[i].key_str(), zh) {
            proof {
                lemma_first_match_is(list@, spelled::<T>(zh@), i as int);
            }
            return Some(&list[i]);
        }
        i += 1;
    }
    proof {
        lemma_no_match(list@, spelled::<T>(zh@));
    }
    None
}

/// The last entry with the Chinese text `zh`.
pub open spec fn found_last<T: Keyed>(list: Seq<T>, zh: Seq<char>) -> Option<T> {
    match last_match(list, spelled::<T>(zh)) {
        Some(i) => Some(list[i]),
        None => None,
    }
}

/// The entries with the Chinese text `zh`, in their order.
pub open spec fn found_all<T: Keyed>(list: Seq<T>, zh: Seq<char>) -> Seq<T> {
    Seq::new(
        all_matches(list, spelled::<T>(zh)).len(),
        |k: int| list[all_matches(list, spelled::<T>(zh))[k]],
    )
}

/// The last entry with the Chinese text `zh`.
pub fn lookup<'a, T: Keyed>(list: &'a Vec<T>, zh: &str) -> (r: Option<&'a T>)
    ensures
        match r {
            Some(entry) => found_last(list@, zh@) == Some(*entry),
            None => found_last(list@, zh@) is None,
        },
{
    match find_last(list, zh) {
        Some(i) => Some(&list[i]),
        None => None,
    }
}

/// The indices of the entries with the Chinese text `zh`, in ascending
/// order.
pub fn find_each<T: Keyed>(list: &Vec<T>, zh: &str) -> (r: Vec<usize>)
    ensures
        r@.map_values(|i: usize| i as int) == all_matches(list@, spelled::<T>(zh@)),
        forall|k: int| 0 <= k < r.len() ==> (#[trigger] r@[k]) < list.len(),
{
    let ghost pred = spelled::<T>(zh@);
    let mut out: Vec<usize> = Vec::new();
    let mut i: usize = 0;
    assert(list@.take(0) =~= Seq::<T>::empty());
    while i < list.len()
        invariant
            i <= list.len(),
            pred == spelled::<T>(zh@),
            out@.map_values(|i: usize| i as int) == all_matches(list@.take(i as int), pred),
            forall|k: int| 0 <= k < out.len() ==> (#[trigger] out@[k]) < i,
        decreases list.len() - i,
    {
        proof {
            lemma_all_matches_step(list@, pred, i as int);
            assert(pred(list@[i as int]) == (list@[i as int].key() == zh@));
        }
        if str_eq(list[i].key_str(), zh) {
            let ghost before = out@;
            out.push(i);
            assert(out@.map_values(|i: usize| i as int) =~= before.map_values(
                |i: usize| i as int,
            ).push(i as int));
        }
        i += 1;
    }
    assert(list@.take(list.len() as int) =~= list@);
    out
}

/// The entries with the Chinese text `zh`, in their order.
pub fn lookup_all<'a, T: Keyed>(list: &'a Vec<T>, zh: &str) -> (r: Vec<&'a T>)
    ensures
        r@.len() == found_all(list@, zh@).len(),
        forall|k: int| 0 <= k < r.len() ==> *(#[trigger] r@[k]) == found_all(list@, zh@)[k],
{
    let places = find_each(list, zh);
    let r = pick(list, &places);
    proof {
        let ints = places@.map_values(|i: usize| i as int);
        assert(ints.len() == places.len());
        assert forall|k: int| 0 <= k < r.len() implies *(#[trigger] r@[k]) == found_all(
            list@,
            zh@,
        )[k] by {
            assert(ints[k] == places@[k] as int);
        }
    }
    r
}

/// The entries at some places of a list.
pub fn pick<'a, T>(list: &'a Vec<T>, places: &Vec<usize>) -> (r: Vec<&'a T>)
    requires
        forall|k: int| 0 <= k < places.len() ==> (#[trigger] places@[k]) < list.len(),
    ensures
        r.len() == places.len(),
        forall|k: int| 0 <= k < r.len() ==> *(#[trigger] r@[k]) == list@[places@[k] as int],
{
    let mut out: Vec<&'a T> = Vec::new();
    let mut i: usize = 0;
    while i < places.len()
        invariant
            i <= places.len(),
            out.len() == i,
            forall|k: int| 0 <= k < places.len() ==> (#[trigger] places@[k]) < list.len(),
            forall|k: int| 0 <= k < i ==> *(#[trigger] out@[k]) == list@[places@[k] as int],
        decreases places.len() - i,
    {
        out.push(&list[places[i]]);
        i += 1;
    }
    out
}

/// An attribute of an item, with the values it can have.
#[derive(Debug)]
pub struct Attribute {
    pub zh: String,
    pub en: String,
    pub values: Option<Vec<Attribute>>,
}

/// A value of an attribute.
#[derive(Debug)]
pub struct AttributeValue {
    pub zh: String,
    pub en: String,
}

/// A base type of items, with the unique items of that type.
#[derive(Debug)]
pub struct BaseType {
    pub zh: String,
    pub en: String,
    pub uniques: Option<Vec<Unique>>,
}

/// A unique item.
#[derive(Debug)]
pub struct Unique {
    pub zh: String,
    pub en: String,
}

/// A skill gem.
#[derive(Debug)]
pub struct Gem {
    pub zh: String,
    pub en: String,
}

/// A skill.
#[derive(Debug)]
pub struct Skill {
    pub zh: String,
    pub en: String,
}

/// A node of the passive tree.
#[derive(Debug)]
pub struct Node {
    pub id: String,
    pub zh: String,
    pub en: String,
}

/// A property of an item, with the values it can have.
#[derive(Debug)]
pub struct Property {
    pub zh: String,
    pub en: String,
    pub values: Option<Vec<PropertyValue>>,
}

/// A value of a property.
#[derive(Debug)]
pub struct PropertyValue {
    pub zh: String,
    pub en: String,
}

/// A requirement of an item, with the values it can have.
#[derive(Debug)]
pub struct Requirement {
    pub zh: String,
    pub en: String,
    pub values: Option<Vec<RequirementValue>>,
}

/// A value of a requirement.
#[derive(Debug)]
pub struct RequirementValue {
    pub zh: String,
    pub en: String,
}

/// A suffix of a requirement.
#[derive(Debug)]
pub struct RequirementSuffix {
    pub zh: String,
    pub en: String,
}

/// A modifier: a text or a template with numbered slots.
#[derive(Debug)]
pub struct Stat {
    pub zh: String,
    pub en: String,
}

/// The whole catalog.
#[derive(Debug)]
pub struct Assets {
    pub amulets: Vec<BaseType>,
    pub belts: Vec<BaseType>,
    pub rings: Vec<BaseType>,
    pub body_armours: Vec<BaseType>,
    pub boots: Vec<BaseType>,
    pub gloves: Vec<BaseType>,
    pub helmets: Vec<BaseType>,
    pub quivers: Vec<BaseType>,
    pub shields: Vec<BaseType>,
    pub weapons: Vec<BaseType>,
    pub flasks: Vec<BaseType>,
    pub jewels: Vec<BaseType>,
    pub tinctures: Vec<BaseType>,
    pub gems: Vec<Gem>,
    pub hybrid_skills: Vec<Skill>,
    pub attributes: Vec<Attribute>,
    pub properties: Vec<Property>,
    pub requirements: Vec<Requirement>,
    pub requirement_suffixes: Vec<RequirementSuffix>,
    pub ascendant: Vec<Node>,
    pub keystones: Vec<Node>,
    pub notables: Vec<Node>,
    pub stats: Vec<Stat>,
    pub tattoos: Vec<BaseType>,
    pub grafts: Vec<BaseType>,
}

impl Keyed for Attribute {
    open spec fn key(&self) -> Seq<char> {
        self.zh@
    }

    fn key_str(&self) -> (k: &str) {
        self.zh.as_str()
    }
}

impl Keyed for BaseType {
    open spec fn key(&self) -> Seq<char> {
        self.zh@
    }

    fn key_str(&self) -> (k: &str) {
        self.zh.as_str()
    }
}

impl Keyed for Unique {
    open spec fn key(&self) -> Seq<char> {
        self.zh@
    }

    fn key_str(&self) -> (k: &str) {
        self.zh.as_str()
    }
}

impl Keyed for Skill {
    open spec fn key(&self) -> Seq<char> {
        self.zh@
    }

    fn key_str(&self) -> (k: &str) {
        self.zh.as_str()
    }
}

impl Keyed for Node {
    open spec fn key(&self) -> Seq<char> {
        self.zh@
    }

    fn key_str(&self) -> (k: &str) {
        self.zh.as_str()
    }
}

impl Keyed for Property {
    open spec fn key(&self) -> Seq<char> {
        self.zh@
    }

    fn key_str(&self) -> (k: &str) {
        self.zh.as_str()
    }
}

impl Keyed for PropertyValue {
    open spec fn key(&self) -> Seq<char> {
        self.zh@
    }

    fn key_str(&self) -> (k: &str) {
        self.zh.as_str()
    }
}

impl Keyed for Requirement {
    open spec fn key(&self) -> Seq<char> {
        self.zh@
    }

    fn key_str(&self) -> (k: &str) {
        self.zh.as_str()
    }
}

impl Keyed for RequirementValue {
    open spec fn key(&self) -> Seq<char> {
        self.zh@
    }

    fn key_str(&self) -> (k: &str) {
        self.zh.as_str()
    }
}

impl Keyed for RequirementSuffix {
    open spec fn key(&self) -> Seq<char> {
        self.zh@
    }

    fn key_str(&self) -> (k: &str) {
        self.zh.as_str()
    }
}

} // verus!
