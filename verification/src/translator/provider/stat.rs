//! Modifiers by the canonical body of their text, and modifiers of several
//! lines by the canonical body of their first line.

use crate::db::{find_all, is_text, pick, Stat};
use crate::search::all_matches;
use crate::text::{lemma_lines_of, lines_of, split_lines};
use crate::translator::util::{get_zh_body, zh_body};
use vstd::prelude::*;

verus! {

/// A modifier of several lines: where it stands among the modifiers, and
/// how many lines it has.
#[derive(Debug)]
pub struct MultilineStat {
    pub id: usize,
    pub line_count: usize,
}

/// The modifiers of several lines that share the canonical body of their
/// first line, those of more lines first, and the greatest number of lines
/// among them.
#[derive(Debug)]
pub struct MultilineStats {
    pub stats: Vec<MultilineStat>,
    pub max_lines: usize,
}

/// The condition that the text of a modifier has the canonical body
/// `body`.
pub open spec fn has_body(body: Seq<char>) -> spec_fn(Stat) -> bool {
    |stat: Stat| zh_body(stat.zh@) == body
}

/// The modifiers whose text has the canonical body `body`, in their order.
pub open spec fn with_body(list: Seq<Stat>, body: Seq<char>) -> Seq<Stat> {
    Seq::new(
        all_matches(list, has_body(body)).len(),
        |k: int| list[all_matches(list, has_body(body))[k]],
    )
}

/// Whether a modifier has several lines, the first of them with the
/// canonical body `body`.
pub open spec fn begins_with_body(stat: Stat, body: Seq<char>) -> bool {
    lines_of(stat.zh@).len() > 1 && zh_body(lines_of(stat.zh@)[0]) == body
}

/// A modifier put among ranked ones: behind those that have at least as
/// many lines.
pub open spec fn rank_in(list: Seq<MultilineStat>, x: MultilineStat) -> Seq<MultilineStat>
    decreases list.len(),
{
    if list.len() == 0 {
        seq![x]
    } else if list.last().line_count >= x.line_count {
        list.push(x)
    } else {
        rank_in(list.drop_last(), x).push(list.last())
    }
}

/// Those of the first `n` modifiers that have several lines, the first with
/// the canonical body `body`: those of more lines first, and among those of
/// as many lines the earlier first.
pub open spec fn ranked(stats: Seq<Stat>, body: Seq<char>, n: int) -> Seq<MultilineStat>
    decreases n,
{
    if n <= 0 {
        seq![]
    } else if begins_with_body(stats[n - 1], body) {
        rank_in(
            ranked(stats, body, n - 1),
            MultilineStat {
                id: (n - 1) as usize,
                line_count: lines_of(stats[n - 1].zh@).len() as usize,
            },
        )
    } else {
        ranked(stats, body, n - 1)
    }
}

/// The greatest number of lines among those of the first `n` modifiers
/// that have several lines, the first with the canonical body `body`.
pub open spec fn most_lines(stats: Seq<Stat>, body: Seq<char>, n: int) -> int
    decreases n,
{
    if n <= 0 {
        0
    } else if begins_with_body(stats[n - 1], body) && lines_of(stats[n - 1].zh@).len()
        > most_lines(stats, body, n - 1) {
        lines_of(stats[n - 1].zh@).len() as int
    } else {
        most_lines(stats, body, n - 1)
    }
}

/// Putting `x` at `p` is `rank_in` where the entries from `p` on are those
/// of fewer lines.
proof fn lemma_rank_in_at(list: Seq<MultilineStat>, x: MultilineStat, p: int)
    requires
        0 <= p <= list.len(),
        forall|j: int| p <= j < list.len() ==> list[j].line_count < x.line_count,
        p > 0 ==> list[p - 1].line_count >= x.line_count,
    ensures
        rank_in(list, x) == list.insert(p, x),
    decreases list.len() - p,
{
    if p == list.len() {
        assert(list.insert(p, x) =~= list.push(x));
    } else {
        let t = list.drop_last();
        lemma_rank_in_at(t, x, p);
        assert(t.insert(p, x).push(list.last()) =~= list.insert(p, x));
    }
}

/// A ranked list is not empty exactly where a modifier begins with the
/// body, and it holds only modifiers of the list.
proof fn lemma_ranked(stats: Seq<Stat>, body: Seq<char>, n: int)
    requires
        0 <= n <= stats.len(),
    ensures
        ranked(stats, body, n).len() > 0 <==> exists|t: int|
            0 <= t < n && begins_with_body(#[trigger] stats[t], body),
    decreases n,
{
    if n > 0 {
        lemma_ranked(stats, body, n - 1);
        lemma_rank_in_len(
            ranked(stats, body, n - 1),
            MultilineStat {
                id: (n - 1) as usize,
                line_count: lines_of(stats[n - 1].zh@).len() as usize,
            },
        );
        if begins_with_body(stats[n - 1], body) {
            assert(0 <= n - 1 < n && begins_with_body(stats[n - 1], body));
        }
    }
}

/// Ranking adds one entry.
proof fn lemma_rank_in_len(list: Seq<MultilineStat>, x: MultilineStat)
    ensures
        rank_in(list, x).len() == list.len() + 1,
    decreases list.len(),
{
    if list.len() > 0 && list.last().line_count < x.line_count {
        lemma_rank_in_len(list.drop_last(), x);
    }
}

/// Finds modifiers by the canonical body of their text.
#[derive(Debug)]
pub struct Provider {
    stats: Vec<Stat>,
    bodies: Vec<String>,
    first_bodies: Vec<String>,
    multiline: Vec<MultilineStats>,
}

/// Whether an index of modifiers of several lines is that of the first `n`
/// modifiers: one entry for each canonical body of a first line, with the
/// ranked modifiers of that body.
pub open spec fn indexes(
    keys: Seq<Seq<char>>,
    entries: Seq<MultilineStats>,
    stats: Seq<Stat>,
    n: int,
) -> bool {
    &&& keys.len() == entries.len()
    &&& forall|a: int, b: int| 0 <= a < b < keys.len() ==> keys[a] != keys[b]
    &&& forall|j: int|
        0 <= j < keys.len() ==> {
            &&& (#[trigger] entries[j]).stats@ == ranked(stats, keys[j], n)
            &&& entries[j].max_lines == most_lines(stats, keys[j], n)
            &&& entries[j].stats.len() > 0
        }
    &&& forall|j: int, k: int|
        0 <= j < keys.len() && 0 <= k < entries[j].stats.len() ==> (
        #[trigger] entries[j].stats[k]).id < n
    &&& forall|t: int|
        0 <= t < n && lines_of((#[trigger] stats[t]).zh@).len() > 1 ==> keys.contains(
            zh_body(lines_of(stats[t].zh@)[0]),
        )
}

impl Provider {
    #[verifier::type_invariant]
    spec fn well_formed(self) -> bool {
        &&& self.bodies.len() == self.stats.len()
        &&& forall|i: int|
            0 <= i < self.bodies.len() ==> (#[trigger] self.bodies[i])@ == zh_body(
                self.stats[i].zh@,
            )
        &&& indexes(
            self.first_bodies.deep_view(),
            self.multiline@,
            self.stats@,
            self.stats.len() as int,
        )
    }

    /// The modifiers that the provider holds, in the order given.
    pub closed spec fn entries(&self) -> Seq<Stat> {
        self.stats@
    }

    /// A provider of the given modifiers.
    pub fn new(stats: Vec<Stat>) -> (p: Provider)
        ensures
            p.entries() == stats@,
    {
        let mut bodies: Vec<String> = Vec::new();
        let mut first_bodies: Vec<String> = Vec::new();
        let mut multiline: Vec<MultilineStats> = Vec::new();
        let mut id: usize = 0;
        while id < stats.len()
            invariant
                id <= stats.len(),
                bodies.len() == id,
                forall|j: int| 0 <= j < id ==> (#[trigger] bodies[j])@ == zh_body(stats[j].zh@),
                indexes(first_bodies.deep_view(), multiline@, stats@, id as int),
            decreases stats.len() - id,
        {
            bodies.push(get_zh_body(stats[id].zh.as_str()));
            let lines = split_lines(stats[id].zh.as_str());
            let line_count = lines.len();
            let ghost keys = first_bodies.deep_view();
            let ghost old_entries = multiline@;
            if line_count > 1 {
                let first_body = get_zh_body(lines[0].as_str());
                assert(first_body@ == zh_body(lines_of(stats[id as int].zh@)[0])) by {
                    assert(lines.deep_view()[0] == lines[0]@);
                }
                let found = find_all(&first_bodies, first_body.as_str());
                proof {
                    crate::search::lemma_all_matches(keys, is_text(first_body@));
                    let ints = found@.map_values(|i: usize| i as int);
                    assert(ints.len() == found.len());
                    if found.len() > 0 {
                        assert(ints[0] == found@[0] as int);
                    }
                }
                if found.len() > 0 {
                    let j = found[0];
                    assert(keys[j as int] == first_body@);
                    let mut entry = multiline.remove(j);
                    let x = MultilineStat { id, line_count };
                    let mut p: usize = entry.stats.len();
                    while p > 0 && entry.stats[p - 1].line_count < line_count
                        invariant
                            p <= entry.stats.len(),
                            forall|t: int|
                                p <= t < entry.stats.len() ==> entry.stats@[t].line_count
                                    < line_count,
                        decreases p,
                    {
                        p -= 1;
                    }
                    proof {
                        lemma_rank_in_at(entry.stats@, x, p as int);
                    }
                    let ghost old_stats = entry.stats@;
                    entry.stats.insert(p, x);
                    if line_count > entry.max_lines {
                        entry.max_lines = line_count;
                    }
                    multiline.insert(j, entry);
                    proof {
                        let entries = multiline@;
                        assert(entries.len() == keys.len());
                        assert forall|a: int| 0 <= a < keys.len() implies {
                            &&& (#[trigger] entries[a]).stats@ == ranked(stats@, keys[a], id + 1)
                            &&& entries[a].max_lines == most_lines(stats@, keys[a], id + 1)
                            &&& entries[a].stats.len() > 0
                        } by {
                            if a != j {
                                assert(entries[a] == old_entries[a]);
                                assert(keys[a] != first_body@);
                            }
                        }
                        assert forall|a: int, k: int|
                            0 <= a < keys.len() && 0 <= k < entries[a].stats.len() implies (
                        #[trigger] entries[a].stats[k]).id < id + 1 by {
                            if a != j {
                                assert(entries[a] == old_entries[a]);
                                assert(old_entries[a].stats[k].id < id);
                            } else {
                                if k < p {
                                    assert(entries[a].stats[k] == old_stats[k]);
                                    assert(old_entries[a].stats[k].id < id);
                                } else if k > p {
                                    assert(entries[a].stats[k] == old_stats[k - 1]);
                                    assert(old_entries[a].stats[k - 1].id < id);
                                }
                            }
                        }
                        assert forall|t: int|
                            0 <= t < id + 1 && lines_of((#[trigger] stats@[t]).zh@).len()
                                > 1 implies keys.contains(zh_body(lines_of(stats@[t].zh@)[0])) by {
                            if t == id {
                                assert(keys[j as int] == first_body@);
                            }
                        }
                    }
                } else {
                    proof {
                        assert forall|a: int| 0 <= a < keys.len() implies keys[a]
                            != first_body@ by {
                            if keys[a] == first_body@ {
                                assert(is_text(first_body@)(keys[a]));
                                assert(all_matches(keys, is_text(first_body@)).contains(a));
                            }
                        }
                        lemma_ranked(stats@, first_body@, id as int);
                        assert(ranked(stats@, first_body@, id as int).len() == 0) by {
                            if exists|t: int|
                                0 <= t < id && begins_with_body(#[trigger] stats@[t], first_body@) {
                                let t = choose|t: int|
                                    0 <= t < id && begins_with_body(
                                        #[trigger] stats@[t],
                                        first_body@,
                                    );
                                assert(keys.contains(zh_body(lines_of(stats@[t].zh@)[0])));
                            }
                        }
                        lemma_most_lines_none(stats@, first_body@, id as int);
                    }
                    let ghost key_text = first_body@;
                    first_bodies.push(first_body);
                    let mut list: Vec<MultilineStat> = Vec::new();
                    list.push(MultilineStat { id, line_count });
                    multiline.push(MultilineStats { stats: list, max_lines: line_count });
                    proof {
                        let new_keys = first_bodies.deep_view();
                        let entries = multiline@;
                        assert(new_keys =~= keys.push(key_text));
                        assert(entries.last().stats@ =~= seq![MultilineStat { id, line_count }]);
                        assert(ranked(stats@, key_text, id as int) =~= Seq::<
                            MultilineStat,
                        >::empty());
                        assert forall|a: int| 0 <= a < new_keys.len() implies {
                            &&& (#[trigger] entries[a]).stats@ == ranked(
                                stats@,
                                new_keys[a],
                                id + 1,
                            )
                            &&& entries[a].max_lines == most_lines(stats@, new_keys[a], id + 1)
                            &&& entries[a].stats.len() > 0
                        } by {
                            if a < keys.len() {
                                assert(entries[a] == old_entries[a]);
                                assert(new_keys[a] == keys[a]);
                                assert(keys[a] != key_text);
                            }
                        }
                        assert forall|a: int, k: int|
                            0 <= a < new_keys.len() && 0 <= k < entries[a].stats.len() implies (
                        #[trigger] entries[a].stats[k]).id < id + 1 by {
                            if a < keys.len() {
                                assert(entries[a] == old_entries[a]);
                                assert(old_entries[a].stats[k].id < id);
                            }
                        }
                        assert forall|t: int|
                            0 <= t < id + 1 && lines_of((#[trigger] stats@[t]).zh@).len()
                                > 1 implies new_keys.contains(
                            zh_body(lines_of(stats@[t].zh@)[0]),
                        ) by {
                            if t == id {
                                assert(new_keys[keys.len() as int] == key_text);
                            } else {
                                let b = zh_body(lines_of(stats@[t].zh@)[0]);
                                assert(keys.contains(b));
                                let a = choose|a: int| 0 <= a < keys.len() && keys[a] == b;
                                assert(new_keys[a] == b);
                            }
                        }
                    }
                }
            } else {
                proof {
                    lemma_lines_of(stats@[id as int].zh@);
                }
            }
            id += 1;
        }
        Provider { stats, bodies, first_bodies, multiline }
    }

    /// The modifier at a place.
    pub fn provide(&self, id: usize) -> (stat: &Stat)
        requires
            id < self.entries().len(),
        ensures
            *stat == self.entries()[id as int],
    {
        &self.stats[id]
    }

    /// The modifiers whose text has the canonical body `zh`, in their
    /// order, or `None` where there is none.
    pub fn provide_by_zh(&self, zh: &str) -> (r: Option<Vec<&Stat>>)
        ensures
            match r {
                Some(list) => {
                    &&& list.len() > 0
                    &&& list.len() == with_body(self.entries(), zh@).len()
                    &&& forall|k: int|
                        0 <= k < list.len() ==> *(#[trigger] list@[k]) == with_body(
                            self.entries(),
                            zh@,
                        )[k]
                },
                None => with_body(self.entries(), zh@).len() == 0,
            },
    {
        proof {
            use_type_invariant(self);
            lemma_bodies(self.stats@, self.bodies.deep_view(), zh@);
        }
        let places = find_all(&self.bodies, zh);
        let list = pick(&self.stats, &places);
        proof {
            let ints = places@.map_values(|i: usize| i as int);
            assert(ints.len() == places.len());
            assert forall|k: int| 0 <= k < list.len() implies *(#[trigger] list@[k]) == with_body(
                self.entries(),
                zh@,
            )[k] by {
                assert(ints[k] == places@[k] as int);
            }
        }
        if list.len() == 0 {
            None
        } else {
            Some(list)
        }
    }

    /// The modifiers of several lines whose first line has the canonical
    /// body `zh`, or `None` where there is none.
    pub fn provide_by_first_line_zh_body(&self, zh: &str) -> (r: Option<&MultilineStats>)
        ensures
            match r {
                Some(entry) => {
                    &&& entry.stats@ == ranked(
                        self.entries(),
                        zh@,
                        self.entries().len() as int,
                    )
                    &&& entry.max_lines == most_lines(
                        self.entries(),
                        zh@,
                        self.entries().len() as int,
                    )
                    &&& entry.stats.len() > 0
                    &&& forall|k: int|
                        0 <= k < entry.stats.len() ==> (#[trigger] entry.stats[k]).id
                            < self.entries().len()
                },
                None => ranked(self.entries(), zh@, self.entries().len() as int).len() == 0
                    && most_lines(self.entries(), zh@, self.entries().len() as int) == 0,
            },
    {
        proof {
            use_type_invariant(self);
        }
        let ghost keys = self.first_bodies.deep_view();
        let found = find_all(&self.first_bodies, zh);
        proof {
            crate::search::lemma_all_matches(keys, is_text(zh@));
            let ints = found@.map_values(|i: usize| i as int);
            assert(ints.len() == found.len());
            if found.len() > 0 {
                assert(ints[0] == found@[0] as int);
            }
        }
        if found.len() > 0 {
            let j = found[0];
            assert(keys[j as int] == zh@);
            Some(&self.multiline[j])
        } else {
            proof {
                let n = self.stats.len() as int;
                lemma_ranked(self.stats@, zh@, n);
                if exists|t: int| 0 <= t < n && begins_with_body(#[trigger] self.stats@[t], zh@) {
                    let t = choose|t: int|
                        0 <= t < n && begins_with_body(#[trigger] self.stats@[t], zh@);
                    assert(keys.contains(zh@));
                    let a = choose|a: int| 0 <= a < keys.len() && keys[a] == zh@;
                    assert(is_text(zh@)(keys[a]));
                    assert(all_matches(keys, is_text(zh@)).contains(a));
                }
                lemma_most_lines_none(self.stats@, zh@, n);
            }
            None
        }
    }
}

/// Where no modifier begins with the body, the greatest number of lines is
/// zero.
proof fn lemma_most_lines_none(stats: Seq<Stat>, body: Seq<char>, n: int)
    requires
        0 <= n <= stats.len(),
        ranked(stats, body, n).len() == 0,
    ensures
        most_lines(stats, body, n) == 0,
    decreases n,
{
    if n > 0 {
        lemma_rank_in_len(
            ranked(stats, body, n - 1),
            MultilineStat {
                id: (n - 1) as usize,
                line_count: lines_of(stats[n - 1].zh@).len() as usize,
            },
        );
        lemma_most_lines_none(stats, body, n - 1);
    }
}

/// The places of a body among the bodies are the places of the modifiers
/// with that body.
proof fn lemma_bodies(list: Seq<Stat>, bodies: Seq<Seq<char>>, body: Seq<char>)
    requires
        bodies.len() == list.len(),
        forall|i: int| 0 <= i < list.len() ==> #[trigger] bodies[i] == zh_body(list[i].zh@),
    ensures
        all_matches(bodies, is_text(body)) == all_matches(list, has_body(body)),
    decreases list.len(),
{
    if list.len() > 0 {
        assert(bodies.last() == zh_body(list.last().zh@));
        assert forall|i: int| 0 <= i < list.len() - 1 implies #[trigger] bodies.drop_last()[i]
            == zh_body(list.drop_last()[i].zh@) by {
            assert(bodies.drop_last()[i] == bodies[i]);
        }
        lemma_bodies(list.drop_last(), bodies.drop_last(), body);
    }
}

} // verus!
