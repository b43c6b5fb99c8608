//! Parameterised string templates: parsing, matching and rendering.

use crate::pattern::{captures, escape, escaped, regex_groups};
use crate::text::{all_digits, decimal_value, digits_value, from_chars, is_digit, to_chars};
use std::collections::HashMap;
use vstd::prelude::*;

verus! {

/// How many ASCII digits stand directly before index `i` of `s`.
pub open spec fn digits_before(s: Seq<char>, i: int) -> int
    decreases i,
{
    if i <= 0 || i > s.len() || !is_digit(s[i - 1]) {
        0
    } else {
        1 + digits_before(s, i - 1)
    }
}

/// A parameter slot in a source string: where its `{` stands and the
/// parameter number written between the braces.
pub struct Slot {
    pub start: int,
    pub number: i32,
}

/// The slot that closes at index `i` of `s`, if there is one: a `}` at `i`,
/// one or more digits before it whose value fits an `i32`, and a `{` before
/// those.
pub open spec fn slot_ending_at(s: Seq<char>, i: int) -> Option<Slot> {
    let d = digits_before(s, i);
    let k = i - d - 1;
    if 0 <= i < s.len() && s[i] == '}' && d >= 1 && k >= 0 && s[k] == '{' && decimal_value(
        s.subrange(k + 1, i),
    ) <= i32::MAX {
        Some(Slot { start: k, number: decimal_value(s.subrange(k + 1, i)) as i32 })
    } else {
        None
    }
}

/// What has been read of a source string: the segments and parameter numbers
/// that are complete, and where the unfinished segment begins.
pub struct Scan {
    pub segments: Seq<Seq<char>>,
    pub params: Seq<i32>,
    pub rest: int,
}

/// The reading of the first `n` characters of `s`.
pub open spec fn scan(s: Seq<char>, n: int) -> Scan
    decreases n,
{
    if n <= 0 {
        Scan { segments: seq![], params: seq![], rest: 0 }
    } else {
        let before = scan(s, n - 1);
        match slot_ending_at(s, n - 1) {
            Some(slot) => Scan {
                segments: before.segments.push(s.subrange(before.rest, slot.start)),
                params: before.params.push(slot.number),
                rest: n,
            },
            None => before,
        }
    }
}

/// The literal segments of a source string: the text before, between and
/// after its slots. There is always one more segment than there are slots.
pub open spec fn parsed_segments(s: Seq<char>) -> Seq<Seq<char>> {
    let all = scan(s, s.len() as int);
    all.segments.push(s.subrange(all.rest, s.len() as int))
}

/// The parameter numbers of the slots of a source string, in order.
pub open spec fn parsed_params(s: Seq<char>) -> Seq<i32> {
    scan(s, s.len() as int).params
}

/// The group that stands for a slot in a match pattern: one or more
/// characters that are not white space.
pub open spec fn slot_group() -> Seq<char> {
    r"(\S+)"@
}

/// The escaped segments `0..n`, with a slot group between neighbours.
pub open spec fn joined_segments(segments: Seq<Seq<char>>, n: int) -> Seq<char>
    decreases n,
{
    if n <= 0 {
        seq![]
    } else if n == 1 {
        escaped(segments[0])
    } else {
        joined_segments(segments, n - 1) + slot_group() + escaped(segments[n - 1])
    }
}

/// The pattern that a candidate must match from its first character to its
/// last: the literal segments, a slot group between each two.
pub open spec fn match_pattern(segments: Seq<Seq<char>>) -> Seq<char> {
    "^"@ + joined_segments(segments, segments.len() as int) + "$"@
}

/// Whether the groups of a match can be bound to the slots: one group for
/// the whole match and one for each slot, and each slot's group took part.
pub open spec fn bindable(params: Seq<i32>, groups: Seq<Option<Seq<char>>>) -> bool {
    &&& groups.len() == params.len() + 1
    &&& forall|i: int| 1 <= i < groups.len() ==> (#[trigger] groups[i]) is Some
}

/// The parameter map after the first `n` slots are bound, each to the group
/// behind it. A number that occurs again replaces the earlier binding.
pub open spec fn bound_params(params: Seq<i32>, groups: Seq<Option<Seq<char>>>, n: int) -> Map<
    i32,
    Seq<char>,
>
    decreases n,
{
    if n <= 0 {
        Map::empty()
    } else {
        bound_params(params, groups, n - 1).insert(params[n - 1], groups[n]->0)
    }
}

/// The texts that a parameter map holds.
pub open spec fn texts(m: Map<i32, String>) -> Map<i32, Seq<char>> {
    m.map_values(|s: String| s@)
}

/// The first `n` segments, each followed by the text bound to its slot, or
/// by nothing where the map has no such number.
pub open spec fn rendered_slots(
    segments: Seq<Seq<char>>,
    params: Seq<i32>,
    m: Map<i32, Seq<char>>,
    n: int,
) -> Seq<char>
    decreases n,
{
    if n <= 0 {
        seq![]
    } else {
        rendered_slots(segments, params, m, n - 1) + segments[n - 1] + if m.contains_key(
            params[n - 1],
        ) {
            m[params[n - 1]]
        } else {
            seq![]
        }
    }
}

/// A template with its slots filled from a parameter map.
pub open spec fn rendered(segments: Seq<Seq<char>>, params: Seq<i32>, m: Map<i32, Seq<char>>) -> Seq<
    char,
> {
    rendered_slots(segments, params, m, params.len() as int) + segments[params.len() as int]
}

/// What a match of a template against a candidate gives, for the groups
/// that the search returned.
pub open spec fn match_outcome(
    params: Seq<i32>,
    found: Option<Seq<Option<Seq<char>>>>,
) -> Option<Map<i32, Seq<char>>> {
    match found {
        Some(groups) => if bindable(params, groups) {
            Some(bound_params(params, groups, params.len() as int))
        } else {
            None
        },
        None => None,
    }
}

/// A string with numbered parameter slots, split into the literal segments
/// around the slots.
///
/// `"Chain Hook has a {0}% chance to grant +1 Rage"` has the segments
/// `"Chain Hook has a "` and `"% chance to grant +1 Rage"` and the parameter
/// number 0.
pub struct Template {
    segments: Vec<String>,
    param_nums: Vec<i32>,
}

impl Template {
    #[verifier::type_invariant]
    spec fn well_formed(self) -> bool {
        self.segments.len() == self.param_nums.len() + 1
    }

    /// The literal segments.
    pub closed spec fn segments(self) -> Seq<Seq<char>> {
        self.segments.deep_view()
    }

    /// The parameter numbers of the slots.
    pub closed spec fn params(self) -> Seq<i32> {
        self.param_nums@
    }

    /// Parses a source string. A slot is a `{`, one or more ASCII digits with
    /// a value that fits an `i32`, and a `}`; every other brace is text.
    pub fn new(text: &str) -> (t: Template)
        ensures
            t.segments() == parsed_segments(text@),
            t.params() == parsed_params(text@),
            t.segments().len() == t.params().len() + 1,
    {
        let cs = to_chars(text);
        let n = cs.len();
        let mut segments: Vec<String> = Vec::new();
        let mut param_nums: Vec<i32> = Vec::new();
        let mut j: usize = 0;
        let mut k: usize = 0;
        let mut on_param = false;
        let mut i: usize = 0;
        while i < n
            invariant
                i <= n,
                n == cs.len(),
                cs@ == text@,
                j <= i,
                segments.deep_view() == scan(cs@, i as int).segments,
                param_nums@ == scan(cs@, i as int).params,
                j == scan(cs@, i as int).rest,
                segments.len() == param_nums.len(),
                on_param ==> j <= k < i && cs@[k as int] == '{' && k == i - digits_before(
                    cs@,
                    i as int,
                ) - 1,
                !on_param ==> i - digits_before(cs@, i as int) - 1 < 0 || cs@[i - digits_before(
                    cs@,
                    i as int,
                ) - 1] != '{',
            decreases n - i,
        {
            let c = cs[i];
            if c == '{' {
                k = i;
                on_param = true;
            } else if c == '}' {
                if on_param {
                    proof {
                        lemma_digits_before(cs@, i as int);
                        assert(cs@.subrange(k + 1, i as int).len() == i - k - 1);
                    }
                    match digits_value(&cs, k + 1, i, 0x7fff_ffff) {
                        Some(v) => {
                            let seg = from_chars(&cs, j, k);
                            let ghost before = segments.deep_view();
                            let ghost text = seg@;
                            segments.push(seg);
                            assert(segments.deep_view() =~= before.push(text));
                            param_nums.push(v as i32);
                            j = i + 1;
                        },
                        None => {},
                    }
                    on_param = false;
                }
            } else if on_param && !(c >= '0' && c <= '9') {
                on_param = false;
            }
            i += 1;
        }
        let seg = from_chars(&cs, j, n);
        let ghost before = segments.deep_view();
        let ghost text = seg@;
        segments.push(seg);
        assert(segments.deep_view() =~= before.push(text));
        Template { segments, param_nums }
    }

    /// The pattern that `parse_params` searches a candidate with.
    pub fn pattern(&self) -> (p: String)
        ensures
            p@ == match_pattern(self.segments()),
    {
        proof {
            use_type_invariant(self);
        }
        let mut p = String::new();
        p.append("^");
        let mut i: usize = 0;
        while i < self.segments.len()
            invariant
                i <= self.segments.len(),
                p@ == "^"@ + joined_segments(self.segments(), i as int),
            decreases self.segments.len() - i,
        {
            if i > 0 {
                p.append(r"(\S+)");
            }
            let e = escape(self.segments[i].as_str());
            p.append(e.as_str());
            assert(self.segments()[i as int] == self.segments[i as int]@);
            i += 1;
        }
        p.append("$");
        p
    }

    /// Binds the groups of a match to the slots, or `None` when their
    /// number is not that of the slots or a slot's group took no part.
    pub fn bind(&self, groups: &Vec<Option<String>>) -> (r: Option<HashMap<i32, String>>)
        ensures
            r is Some == bindable(self.params(), groups.deep_view()),
            r matches Some(m) ==> texts(m@) == bound_params(
                self.params(),
                groups.deep_view(),
                self.params().len() as int,
            ),
    {
        broadcast use vstd::std_specs::hash::group_hash_axioms;

        proof {
            use_type_invariant(self);
        }
        if groups.len() != self.segments.len() {
            return None;
        }
        let mut m: HashMap<i32, String> = HashMap::new();
        let mut i: usize = 1;
        while i < groups.len()
            invariant
                1 <= i <= groups.len(),
                groups.len() == self.param_nums.len() + 1,
                forall|t: int| 1 <= t < i ==> (#[trigger] groups.deep_view()[t]) is Some,
                texts(m@) == bound_params(self.params(), groups.deep_view(), i - 1),
            decreases groups.len() - i,
        {
            match &groups[i] {
                Some(g) => {
                    let ghost before = m@;
                    m.insert(self.param_nums[i - 1], g.clone());
                    proof {
                        assert(groups.deep_view()[i as int] == Some(g@));
                        assert(texts(m@) =~= texts(before).insert(
                            self.param_nums[i - 1],
                            g@,
                        ));
                    }
                },
                None => {
                    assert(groups.deep_view()[i as int] is None);
                    return None;
                },
            }
            i += 1;
        }
        Some(m)
    }

    /// Matches a candidate against the template and returns the text bound
    /// to each parameter number, or `None` when the candidate does not match
    /// from its first character to its last.
    pub fn parse_params(&self, modifier: &str) -> (r: Option<HashMap<i32, String>>)
        ensures
            match r {
                Some(m) => Some(texts(m@)),
                None => None,
            } == match_outcome(
                self.params(),
                regex_groups(match_pattern(self.segments()), modifier@),
            ),
    {
        let p = self.pattern();
        match captures(p.as_str(), modifier) {
            Some(groups) => self.bind(&groups),
            None => None,
        }
    }

    /// Puts the segments together, each slot replaced by the text that the
    /// map holds for its number, or by nothing where it holds none.
    pub fn render(&self, params_map: HashMap<i32, String>) -> (r: String)
        ensures
            r@ == rendered(self.segments(), self.params(), texts(params_map@)),
    {
        broadcast use vstd::std_specs::hash::group_hash_axioms;

        proof {
            use_type_invariant(self);
        }
        let mut r = String::new();
        let mut i: usize = 0;
        while i < self.param_nums.len()
            invariant
                i <= self.param_nums.len(),
                self.segments.len() == self.param_nums.len() + 1,
                r@ == rendered_slots(
                    self.segments(),
                    self.params(),
                    texts(params_map@),
                    i as int,
                ),
            decreases self.param_nums.len() - i,
        {
            r.append(self.segments[i].as_str());
            assert(self.segments()[i as int] == self.segments[i as int]@);
            match params_map.get(&self.param_nums[i]) {
                Some(p) => {
                    r.append(p.as_str());
                },
                None => {},
            }
            i += 1;
        }
        let last = self.param_nums.len();
        r.append(self.segments[last].as_str());
        assert(self.segments()[last as int] == self.segments[last as int]@);
        r
    }
}

/// A source string has one more segment than it has slots, however far it
/// is read.
pub proof fn lemma_parsed_shape(s: Seq<char>)
    ensures
        parsed_segments(s).len() == parsed_params(s).len() + 1,
{
    lemma_scan_shape(s, s.len() as int);
}

/// What is read of a source string has as many segments as slots.
proof fn lemma_scan_shape(s: Seq<char>, n: int)
    ensures
        scan(s, n).segments.len() == scan(s, n).params.len(),
    decreases n,
{
    if n > 0 {
        lemma_scan_shape(s, n - 1);
    }
}

/// Parsing is a function of the source alone: two templates parsed from
/// one source have the same segments and the same parameter numbers, one
/// segment more than slots.
pub proof fn lemma_parse_is_repeatable(a: Template, b: Template, source: Seq<char>)
    requires
        a.segments() == parsed_segments(source),
        a.params() == parsed_params(source),
        b.segments() == parsed_segments(source),
        b.params() == parsed_params(source),
    ensures
        a.segments() == b.segments(),
        a.params() == b.params(),
        a.segments().len() == a.params().len() + 1,
{
    lemma_parsed_shape(source);
}

/// The parameter map of a match holds exactly the parameter numbers of the
/// first `n` slots.
pub proof fn lemma_bound_params_domain(params: Seq<i32>, groups: Seq<Option<Seq<char>>>, n: int)
    requires
        0 <= n <= params.len(),
    ensures
        forall|k: i32|
            bound_params(params, groups, n).contains_key(k) <==> exists|i: int|
                0 <= i < n && params[i] == k,
    decreases n,
{
    if n > 0 {
        lemma_bound_params_domain(params, groups, n - 1);
        assert forall|k: i32|
            bound_params(params, groups, n).contains_key(k) <==> exists|i: int|
                0 <= i < n && params[i] == k by {
            if bound_params(params, groups, n).contains_key(k) {
                if k == params[n - 1] {
                    assert(0 <= n - 1 < n && params[n - 1] == k);
                } else {
                    assert(bound_params(params, groups, n - 1).contains_key(k));
                    let i = choose|i: int| 0 <= i < n - 1 && params[i] == k;
                    assert(0 <= i < n && params[i] == k);
                }
            }
            if exists|i: int| 0 <= i < n && params[i] == k {
                let i = choose|i: int| 0 <= i < n && params[i] == k;
                if i < n - 1 {
                    assert(0 <= i < n - 1 && params[i] == k);
                    assert(bound_params(params, groups, n - 1).contains_key(k));
                }
            }
        }
    }
}

/// Where the search finds, for each slot, the text that a parameter map
/// holds for the slot's number, the match gives that map again, cut down to
/// the parameter numbers of the template.
pub proof fn lemma_match_restores_params(
    params: Seq<i32>,
    groups: Seq<Option<Seq<char>>>,
    m: Map<i32, Seq<char>>,
)
    requires
        bindable(params, groups),
        forall|i: int|
            0 <= i < params.len() ==> m.contains_key(#[trigger] params[i]) && groups[i + 1]
                == Some(m[params[i]]),
    ensures
        match_outcome(params, Some(groups)) == Some(m.restrict(params.to_set())),
{
    let n = params.len() as int;
    let bound = bound_params(params, groups, n);
    lemma_bound_params_domain(params, groups, n);
    assert(consistent(params, groups));
    assert forall|k: i32| bound.contains_key(k) <==> m.restrict(params.to_set()).contains_key(
        k,
    ) by {
        if bound.contains_key(k) {
            let i = choose|i: int| 0 <= i < n && params[i] == k;
            assert(params.contains(k));
        }
        if m.restrict(params.to_set()).contains_key(k) {
            assert(params.contains(k));
            let i = choose|i: int| 0 <= i < n && params[i] == k;
            assert(0 <= i < n && params[i] == k);
        }
    }
    assert forall|k: i32| bound.contains_key(k) implies bound[k] == m.restrict(
        params.to_set(),
    )[k] by {
        let i = choose|i: int| 0 <= i < n && params[i] == k;
        lemma_bound_params_value(params, groups, n, i);
    }
    assert(bound =~= m.restrict(params.to_set()));
}

/// A template rendered with a parameter map that holds all its parameter
/// numbers is its segments with the texts of the map between them.
pub proof fn lemma_render_interleaves(
    segments: Seq<Seq<char>>,
    params: Seq<i32>,
    m: Map<i32, Seq<char>>,
    groups: Seq<Option<Seq<char>>>,
)
    requires
        segments.len() == params.len() + 1,
        groups.len() == params.len() + 1,
        forall|i: int|
            0 <= i < params.len() ==> m.contains_key(#[trigger] params[i]) && groups[i + 1]
                == Some(m[params[i]]),
    ensures
        rendered(segments, params, m) == interleaved(segments, groups, params.len() as int)
            + segments[params.len() as int],
{
    lemma_rendered_interleaves(segments, params, m, groups, params.len() as int);
}

/// The first `n` slots rendered with a parameter map that holds their
/// numbers.
proof fn lemma_rendered_interleaves(
    segments: Seq<Seq<char>>,
    params: Seq<i32>,
    m: Map<i32, Seq<char>>,
    groups: Seq<Option<Seq<char>>>,
    n: int,
)
    requires
        segments.len() == params.len() + 1,
        groups.len() == params.len() + 1,
        0 <= n <= params.len(),
        forall|i: int|
            0 <= i < params.len() ==> m.contains_key(#[trigger] params[i]) && groups[i + 1]
                == Some(m[params[i]]),
    ensures
        rendered_slots(segments, params, m, n) == interleaved(segments, groups, n),
    decreases n,
{
    if n > 0 {
        lemma_rendered_interleaves(segments, params, m, groups, n - 1);
        assert(m.contains_key(params[n - 1]));
    }
}

/// The segments `0..n`, each followed by the group of its slot.
pub open spec fn interleaved(segments: Seq<Seq<char>>, groups: Seq<Option<Seq<char>>>, n: int) -> Seq<
    char,
>
    decreases n,
{
    if n <= 0 {
        seq![]
    } else {
        interleaved(segments, groups, n - 1) + segments[n - 1] + groups[n]->0
    }
}

/// Whether slots with the same parameter number have the same group.
pub open spec fn consistent(params: Seq<i32>, groups: Seq<Option<Seq<char>>>) -> bool {
    forall|i: int, j: int|
        0 <= i < j < params.len() && params[i] == params[j] ==> groups[i + 1] == groups[j + 1]
}

/// Each of the first `n` parameter numbers is bound to the group of its
/// slot, where slots of one number have one group.
proof fn lemma_bound_params_value(
    params: Seq<i32>,
    groups: Seq<Option<Seq<char>>>,
    n: int,
    i: int,
)
    requires
        0 <= i < n <= params.len(),
        consistent(params, groups),
    ensures
        bound_params(params, groups, n).contains_key(params[i]),
        bound_params(params, groups, n)[params[i]] == groups[i + 1]->0,
    decreases n,
{
    if i < n - 1 {
        lemma_bound_params_value(params, groups, n - 1, i);
    }
}

/// What a match found, rendered by the template that matched, is the
/// candidate's own text: the segments with the groups between them. This
/// holds where slots with the same parameter number matched the same text.
pub proof fn lemma_render_restores_groups(
    segments: Seq<Seq<char>>,
    params: Seq<i32>,
    groups: Seq<Option<Seq<char>>>,
)
    requires
        segments.len() == params.len() + 1,
        bindable(params, groups),
        consistent(params, groups),
    ensures
        rendered(segments, params, bound_params(params, groups, params.len() as int))
            == interleaved(segments, groups, params.len() as int) + segments[params.len() as int],
{
    lemma_rendered_slots(segments, params, groups, params.len() as int);
}

/// The first `n` slots rendered with what a match found.
proof fn lemma_rendered_slots(
    segments: Seq<Seq<char>>,
    params: Seq<i32>,
    groups: Seq<Option<Seq<char>>>,
    n: int,
)
    requires
        segments.len() == params.len() + 1,
        bindable(params, groups),
        consistent(params, groups),
        0 <= n <= params.len(),
    ensures
        rendered_slots(segments, params, bound_params(params, groups, params.len() as int), n)
            == interleaved(segments, groups, n),
    decreases n,
{
    if n > 0 {
        lemma_rendered_slots(segments, params, groups, n - 1);
        lemma_bound_params_value(params, groups, params.len() as int, n - 1);
    }
}

/// The digits before `i` are digits, and the character before them is none.
proof fn lemma_digits_before(s: Seq<char>, i: int)
    requires
        0 <= i <= s.len(),
    ensures
        0 <= digits_before(s, i) <= i,
        all_digits(s.subrange(i - digits_before(s, i), i)),
    decreases i,
{
    if i > 0 && is_digit(s[i - 1]) {
        lemma_digits_before(s, i - 1);
        let d = digits_before(s, i);
        assert forall|t: int| 0 <= t < d implies is_digit(
            #[trigger] s.subrange(i - d, i)[t],
        ) by {
            if t < d - 1 {
                assert(s.subrange(i - d, i)[t] == s.subrange(i - d, i - 1)[t]);
            }
        }
    }
}

} // verus!
