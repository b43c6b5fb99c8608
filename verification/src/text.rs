//! Character-level helpers for `str` and `String`, specified over `Seq<char>`.

use vstd::prelude::*;

verus! {

/// `String::push` of the standard library: the string grows by exactly the
/// given character at its end.
pub assume_specification[ String::push ](s: &mut String, c: char)
    ensures
        final(s)@ == old(s)@.push(c),
;

/// Equality of string slices in the standard library: two slices are equal
/// exactly when they hold the same characters.
pub assume_specification[ <str as PartialEq>::eq ](a: &str, b: &str) -> (r: bool)
    ensures
        r == (a@ == b@),
;

/// The characters of `s`, in order.
pub fn to_chars(s: &str) -> (v: Vec<char>)
    ensures
        v@ == s@,
{
    let mut v: Vec<char> = Vec::new();
    for c in it: s.chars()
        invariant
            it.seq() == s@,
            v@ == s@.take(it.index() as int),
    {
        v.push(c);
    }
    v
}

/// The string made of `v[from..to]`.
pub fn from_chars(v: &Vec<char>, from: usize, to: usize) -> (s: String)
    requires
        from <= to <= v.len(),
    ensures
        s@ == v@.subrange(from as int, to as int),
{
    let mut s = String::new();
    let mut i: usize = from;
    while i < to
        invariant
            from <= i <= to <= v.len(),
            s@ == v@.subrange(from as int, i as int),
        decreases to - i,
    {
        s.push(v[i]);
        i += 1;
    }
    s
}

/// Whether two string slices hold the same characters.
pub fn str_eq(a: &str, b: &str) -> (r: bool)
    ensures
        r == (a@ == b@),
{
    a.eq(b)
}

/// Whether `s[at..]` begins with `p`.
pub open spec fn occurs_at(s: Seq<char>, p: Seq<char>, at: int) -> bool {
    &&& 0 <= at
    &&& at + p.len() <= s.len()
    &&& s.subrange(at, at + p.len()) == p
}

/// Whether `p` occurs in `s` at index `at`.
pub fn chars_occur_at(s: &Vec<char>, p: &Vec<char>, at: usize) -> (r: bool)
    ensures
        r == occurs_at(s@, p@, at as int),
{
    if p.len() > s.len() || at > s.len() - p.len() {
        return false;
    }
    let mut i: usize = 0;
    while i < p.len()
        invariant
            i <= p.len(),
            at + p.len() <= s.len(),
            s@.subrange(at as int, at + i) == p@.take(i as int),
        decreases p.len() - i,
    {
        if s[at + i] != p[i] {
            assert(s@.subrange(at as int, at + p.len())[i as int] != p@[i as int]);
            return false;
        }
        assert(s@.subrange(at as int, at + i + 1) == s@.subrange(at as int, at + i).push(
            s@[at + i],
        ));
        assert(p@.take(i + 1) == p@.take(i as int).push(p@[i as int]));
        i += 1;
    }
    assert(p@.take(p.len() as int) == p@);
    true
}

/// Whether `s` begins with `prefix`.
pub fn starts_with(s: &str, prefix: &str) -> (r: bool)
    ensures
        r == prefix@.is_prefix_of(s@),
{
    let sv = to_chars(s);
    let pv = to_chars(prefix);
    let r = chars_occur_at(&sv, &pv, 0);
    proof {
        if r {
            assert(s@.subrange(0, prefix@.len() as int) == prefix@);
        }
        if prefix@.is_prefix_of(s@) {
            assert(s@.subrange(0, prefix@.len() as int) == prefix@);
        }
    }
    r
}

/// Whether `s` ends with `suffix`.
pub fn ends_with(s: &str, suffix: &str) -> (r: bool)
    ensures
        r == suffix@.is_suffix_of(s@),
{
    let sv = to_chars(s);
    let pv = to_chars(suffix);
    if pv.len() > sv.len() {
        return false;
    }
    let at = sv.len() - pv.len();
    let r = chars_occur_at(&sv, &pv, at);
    proof {
        assert(s@.subrange(at as int, at + suffix@.len()) == s@.skip(at as int));
    }
    r
}

/// Whether `p` occurs somewhere in `s`.
pub open spec fn has_infix(s: Seq<char>, p: Seq<char>) -> bool {
    exists|at: int| occurs_at(s, p, at)
}

/// Whether `s` contains `p`.
pub fn contains(s: &str, p: &str) -> (r: bool)
    ensures
        r == has_infix(s@, p@),
{
    let sv = to_chars(s);
    let pv = to_chars(p);
    if pv.len() == 0 {
        assert(occurs_at(s@, p@, 0)) by {
            assert(s@.subrange(0, 0) == p@);
        }
        return true;
    }
    let mut at: usize = 0;
    while at < sv.len()
        invariant
            at <= sv.len(),
            sv@ == s@,
            pv@ == p@,
            pv.len() > 0,
            forall|j: int| 0 <= j < at ==> !occurs_at(s@, p@, j),
        decreases sv.len() - at,
    {
        if chars_occur_at(&sv, &pv, at) {
            return true;
        }
        at += 1;
    }
    false
}

/// `s` without its first `n` characters.
pub fn skip_chars(s: &str, n: usize) -> (r: String)
    requires
        n <= s@.len(),
    ensures
        r@ == s@.skip(n as int),
{
    let v = to_chars(s);
    from_chars(&v, n, v.len())
}

/// `a` followed by `b`.
pub fn concat(a: &str, b: &str) -> (r: String)
    ensures
        r@ == a@ + b@,
{
    let mut r = a.to_owned();
    r.append(b);
    r
}

/// The character of a decimal digit.
pub open spec fn digit_char(d: int) -> char {
    if d == 0 {
        '0'
    } else if d == 1 {
        '1'
    } else if d == 2 {
        '2'
    } else if d == 3 {
        '3'
    } else if d == 4 {
        '4'
    } else if d == 5 {
        '5'
    } else if d == 6 {
        '6'
    } else if d == 7 {
        '7'
    } else if d == 8 {
        '8'
    } else {
        '9'
    }
}

/// The decimal digits of a natural number, most significant first, without
/// leading zeros.
pub open spec fn decimal_nat(n: nat) -> Seq<char>
    decreases n,
{
    if n < 10 {
        seq![digit_char(n as int)]
    } else {
        decimal_nat(n / 10).push(digit_char((n % 10) as int))
    }
}

/// The decimal text of an integer: a minus sign for a negative one, then its
/// digits.
pub open spec fn decimal(n: int) -> Seq<char> {
    if n < 0 {
        seq!['-'] + decimal_nat((-n) as nat)
    } else {
        decimal_nat(n as nat)
    }
}

fn digit_of(d: u128) -> (c: char)
    requires
        d < 10,
    ensures
        c == digit_char(d as int),
{
    if d == 0 {
        '0'
    } else if d == 1 {
        '1'
    } else if d == 2 {
        '2'
    } else if d == 3 {
        '3'
    } else if d == 4 {
        '4'
    } else if d == 5 {
        '5'
    } else if d == 6 {
        '6'
    } else if d == 7 {
        '7'
    } else if d == 8 {
        '8'
    } else {
        '9'
    }
}

/// Appends the decimal digits of `n` to `out`.
pub fn push_decimal_nat(out: &mut String, n: u128)
    ensures
        final(out)@ == old(out)@ + decimal_nat(n as nat),
    decreases n,
{
    if n >= 10 {
        push_decimal_nat(out, n / 10);
    }
    out.push(digit_of(n % 10));
}

/// Appends the decimal text of `n` to `out`.
pub fn push_decimal(out: &mut String, n: i64)
    ensures
        final(out)@ == old(out)@ + decimal(n as int),
{
    if n < 0 {
        out.push('-');
        let m: u128 = if n == i64::MIN {
            0x8000_0000_0000_0000u128
        } else {
            (-n) as u128
        };
        push_decimal_nat(out, m);
        assert(final(out)@ == old(out)@ + (seq!['-'] + decimal_nat((-n) as nat)));
    } else {
        push_decimal_nat(out, n as u128);
    }
}

/// The decimal text of `n`.
pub fn decimal_string(n: i64) -> (r: String)
    ensures
        r@ == decimal(n as int),
{
    let mut r = String::new();
    push_decimal(&mut r, n);
    r
}

/// Whether `c` is one of the ten ASCII digits.
pub open spec fn is_digit(c: char) -> bool {
    '0' <= c && c <= '9'
}

/// The number that a sequence of decimal digits denotes.
pub open spec fn decimal_value(s: Seq<char>) -> int
    decreases s.len(),
{
    if s.len() == 0 {
        0
    } else {
        10 * decimal_value(s.drop_last()) + (s.last() as int - '0' as int)
    }
}

/// Whether every character of `s` is an ASCII digit.
pub open spec fn all_digits(s: Seq<char>) -> bool {
    forall|i: int| 0 <= i < s.len() ==> is_digit(#[trigger] s[i])
}

/// Whether `c` is an ASCII digit.
pub fn char_is_digit(c: char) -> (r: bool)
    ensures
        r == is_digit(c),
{
    '0' <= c && c <= '9'
}

/// The value of the digits `v[from..to]`, when there is at least one digit
/// and the value is at most `max`.
pub fn digits_value(v: &Vec<char>, from: usize, to: usize, max: u64) -> (r: Option<u64>)
    requires
        from <= to <= v.len(),
        all_digits(v@.subrange(from as int, to as int)),
        max <= 0xffff_ffff,
    ensures
        match r {
            Some(x) => from < to && x == decimal_value(v@.subrange(from as int, to as int)) && x
                <= max,
            None => from == to || decimal_value(v@.subrange(from as int, to as int)) > max,
        },
{
    if from == to {
        return None;
    }
    let mut acc: u64 = 0;
    let mut over = false;
    let mut i: usize = from;
    while i < to
        invariant
            from <= i <= to <= v.len(),
            all_digits(v@.subrange(from as int, to as int)),
            max <= 0xffff_ffff,
            !over ==> acc == decimal_value(v@.subrange(from as int, i as int)),
            !over ==> acc <= max,
            over ==> decimal_value(v@.subrange(from as int, i as int)) > max,
        decreases to - i,
    {
        let c = v[i];
        assert(is_digit(c)) by {
            assert(v@.subrange(from as int, to as int)[i - from] == c);
        }
        let d: u64 = (c as u32 - '0' as u32) as u64;
        proof {
            let cur = v@.subrange(from as int, i + 1);
            assert(cur.drop_last() == v@.subrange(from as int, i as int));
            assert(cur.last() == c);
        }
        if !over {
            let next = acc * 10 + d;
            if next > max {
                over = true;
            } else {
                acc = next;
            }
        }
        i += 1;
    }
    if over {
        None
    } else {
        Some(acc)
    }
}

/// What a text denotes as an `i32`: an optional sign, then one or more ASCII
/// digits, with a value that fits.
pub open spec fn parsed_i32(s: Seq<char>) -> Option<i32> {
    let signed = s.len() > 0 && (s[0] == '-' || s[0] == '+');
    let digits = if signed {
        s.skip(1)
    } else {
        s
    };
    let value = if signed && s[0] == '-' {
        -decimal_value(digits)
    } else {
        decimal_value(digits)
    };
    if digits.len() > 0 && all_digits(digits) && i32::MIN <= value <= i32::MAX {
        Some(value as i32)
    } else {
        None
    }
}

/// Reads a decimal `i32`: an optional sign, then digits. `None` for any other
/// text and for a value that does not fit.
pub fn parse_i32(s: &str) -> (r: Option<i32>)
    ensures
        r == parsed_i32(s@),
{
    let v = to_chars(s);
    let n = v.len();
    if n == 0 {
        return None;
    }
    let negative = v[0] == '-';
    let start: usize = if v[0] == '-' || v[0] == '+' {
        1
    } else {
        0
    };
    let ghost digits = v@.skip(start as int);
    assert(digits == v@.subrange(start as int, n as int));
    assert(v@.skip(0) == v@);
    let mut i: usize = start;
    while i < n
        invariant
            start <= i <= n,
            n == v.len(),
            v@ == s@,
            digits == v@.skip(start as int),
            start == 0 ==> digits == s@,
            s@.len() > 0,
            start == if s@[0] == '-' || s@[0] == '+' { 1usize } else { 0usize },
            forall|j: int| start <= j < i ==> is_digit(#[trigger] v@[j]),
        decreases n - i,
    {
        if !char_is_digit(v[i]) {
            assert(!is_digit(digits[i - start]));
            return None;
        }
        i += 1;
    }
    assert(all_digits(digits)) by {
        assert forall|j: int| 0 <= j < digits.len() implies is_digit(#[trigger] digits[j]) by {
            assert(digits[j] == v@[start + j]);
        }
    }
    let max: u64 = if negative {
        0x8000_0000
    } else {
        0x7fff_ffff
    };
    match digits_value(&v, start, n, max) {
        Some(m) => {
            if negative {
                Some((-(m as i64)) as i32)
            } else {
                Some(m as i32)
            }
        },
        None => None,
    }
}

/// The lines of a text: what stands before, between and behind its line
/// feeds. A text without a line feed is one line.
pub open spec fn lines_of(s: Seq<char>) -> Seq<Seq<char>>
    decreases s.len(),
{
    if s.len() == 0 {
        seq![Seq::<char>::empty()]
    } else if s.last() == '\n' {
        lines_of(s.drop_last()).push(Seq::<char>::empty())
    } else {
        lines_of(s.drop_last()).drop_last().push(lines_of(s.drop_last()).last().push(s.last()))
    }
}

/// A text has at least one line.
pub proof fn lemma_lines_of(s: Seq<char>)
    ensures
        lines_of(s).len() >= 1,
    decreases s.len(),
{
    if s.len() > 0 {
        lemma_lines_of(s.drop_last());
    }
}

/// Splits a text at its line feeds.
pub fn split_lines(s: &str) -> (lines: Vec<String>)
    ensures
        lines.deep_view() == lines_of(s@),
        lines.len() >= 1,
{
    let v = to_chars(s);
    let mut done: Vec<String> = Vec::new();
    let mut line = String::new();
    let mut i: usize = 0;
    assert(v@.take(0) =~= Seq::<char>::empty());
    while i < v.len()
        invariant
            i <= v.len(),
            v@ == s@,
            done.deep_view().push(line@) == lines_of(v@.take(i as int)),
        decreases v.len() - i,
    {
        proof {
            assert(v@.take(i + 1).drop_last() =~= v@.take(i as int));
            assert(v@.take(i + 1).last() == v@[i as int]);
            assert(done.deep_view().push(line@).drop_last() =~= done.deep_view());
        }
        if v[i] == '\n' {
            let ghost before = done.deep_view();
            let ghost text = line@;
            done.push(line);
            assert(done.deep_view() =~= before.push(text));
            line = String::new();
        } else {
            line.push(v[i]);
        }
        i += 1;
    }
    assert(v@.take(v.len() as int) =~= v@);
    let ghost before = done.deep_view();
    let ghost text = line@;
    done.push(line);
    assert(done.deep_view() =~= before.push(text));
    done
}

/// The first `n` texts with a line feed between each two.
pub open spec fn joined_lines(lines: Seq<Seq<char>>, n: int) -> Seq<char>
    decreases n,
{
    if n <= 0 {
        seq![]
    } else if n == 1 {
        lines[0]
    } else {
        joined_lines(lines, n - 1).push('\n') + lines[n - 1]
    }
}

/// Joins the first `n` texts with line feeds.
pub fn join_lines(lines: &Vec<&str>, n: usize) -> (r: String)
    requires
        n <= lines.len(),
    ensures
        r@ == joined_lines(lines@.map_values(|l: &str| l@), n as int),
{
    let ghost all = lines@.map_values(|l: &str| l@);
    let mut r = String::new();
    let mut i: usize = 0;
    while i < n
        invariant
            i <= n <= lines.len(),
            all == lines@.map_values(|l: &str| l@),
            r@ == joined_lines(all, i as int),
        decreases n - i,
    {
        if i > 0 {
            r.push('\n');
        }
        r.append(lines[i]);
        assert(all[i as int] == lines@[i as int]@);
        assert(Seq::<char>::empty() + lines@[i as int]@ =~= lines@[i as int]@);
        i += 1;
    }
    r
}

/// A text with each occurrence of `from` replaced by `to`, read from the
/// left; what one occurrence covers is no part of another.
pub open spec fn replaced(s: Seq<char>, from: Seq<char>, to: Seq<char>) -> Seq<char>
    decreases s.len(),
{
    if from.len() == 0 || s.len() == 0 {
        s
    } else if occurs_at(s, from, 0) {
        to + replaced(s.skip(from.len() as int), from, to)
    } else {
        seq![s[0]] + replaced(s.skip(1), from, to)
    }
}

/// Replaces each occurrence of `from` in `s` by `to`. An empty `from`
/// occurs nowhere.
pub fn replace(s: &str, from: &str, to: &str) -> (r: String)
    ensures
        r@ == replaced(s@, from@, to@),
{
    let v = to_chars(s);
    let p = to_chars(from);
    if p.len() == 0 {
        return s.to_owned();
    }
    let mut r = String::new();
    let mut i: usize = 0;
    assert(v@.skip(0) =~= v@);
    while i < v.len()
        invariant
            i <= v.len(),
            v@ == s@,
            p@ == from@,
            p.len() > 0,
            r@ + replaced(v@.skip(i as int), from@, to@) == replaced(s@, from@, to@),
        decreases v.len() - i,
    {
        let ghost rest = v@.skip(i as int);
        if chars_occur_at(&v, &p, i) {
            proof {
                assert(rest.subrange(0, p.len() as int) =~= v@.subrange(i as int, i + p.len()));
                assert(rest.skip(p.len() as int) =~= v@.skip(i + p.len()));
                assert(r@ + to@ + replaced(v@.skip(i + p.len()), from@, to@) =~= r@ + (to@
                    + replaced(v@.skip(i + p.len()), from@, to@)));
            }
            r.append(to);
            i += p.len();
        } else {
            proof {
                if i + p.len() <= v.len() {
                    assert(rest.subrange(0, p.len() as int) =~= v@.subrange(
                        i as int,
                        i + p.len(),
                    ));
                }
                assert(rest.skip(1) =~= v@.skip(i + 1));
                assert(r@.push(v@[i as int]) + replaced(v@.skip(i + 1), from@, to@) =~= r@ + (
                seq![rest[0]] + replaced(v@.skip(i + 1), from@, to@)));
            }
            r.push(v[i]);
            i += 1;
        }
    }
    assert(v@.skip(v.len() as int) =~= Seq::<char>::empty());
    assert(r@ + Seq::<char>::empty() =~= r@);
    r
}

} // verus!
