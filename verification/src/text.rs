//! Character-level text helpers shared by the read views.

use vstd::prelude::*;
use vstd::std_specs::iter::IteratorSpec;

verus! {

broadcast use {vstd::string::axiom_spec_iter, vstd::string::next_postcondition};

/// The characters of `s`, in order.
pub fn chars_of(s: &str) -> (v: Vec<char>)
    ensures
        v@ == s@,
{
    let mut it = s.chars();
    let mut v: Vec<char> = Vec::new();
    loop
        invariant
            v@ + it.remaining() == s@,
        decreases s@.len() - v@.len(),
    {
        let ghost before = it.remaining();
        match it.next() {
            Some(c) => {
                v.push(c);
                assert(v@ + it.remaining() =~= s@);
            },
            None => {
                assert(v@ =~= s@);
                return v;
            },
        }
    }
}

/// Whether two strings hold the same characters.
pub fn str_eq(a: &str, b: &str) -> (r: bool)
    ensures
        r == (a@ == b@),
{
    let x = chars_of(a);
    let y = chars_of(b);
    if x.len() != y.len() {
        return false;
    }
    let mut i: usize = 0;
    while i < x.len()
        invariant
            x@ == a@,
            y@ == b@,
            x@.len() == y@.len(),
            i <= x@.len(),
            forall|j: int| 0 <= j < i ==> x@[j] == y@[j],
        decreases x@.len() - i,
    {
        if x[i] != y[i] {
            return false;
        }
        i = i + 1;
    }
    assert(x@ =~= y@);
    true
}

/// `String::from_iter` over the characters of `v`. Its contract: the string holds
/// exactly those characters, in order (std documents `FromIterator<&char>`
/// for `String` as pushing each character).
#[verifier::external_body]
pub(crate) fn string_from_chars(v: &Vec<char>) -> (s: String)
    ensures
        s@ == v@,
{
    String::from_iter(v.iter())
}

/// Whether `c` is an ASCII decimal digit.
pub open spec fn is_digit(c: char) -> bool {
    '0' <= c && c <= '9'
}

/// The value of a decimal digit.
pub open spec fn digit_value(c: char) -> int {
    (c as int) - ('0' as int)
}

/// Every character of `s` is a decimal digit.
pub open spec fn all_digits(s: Seq<char>) -> bool {
    forall|i: int| 0 <= i < s.len() ==> is_digit(#[trigger] s[i])
}

/// The number a string of decimal digits spells.
pub open spec fn digits_value(s: Seq<char>) -> int
    decreases s.len(),
{
    if s.len() == 0 {
        0
    } else {
        digits_value(s.drop_last()) * 10 + digit_value(s.last())
    }
}

/// A longer prefix of digits spells no smaller a number.
pub proof fn lemma_digits_prefix_monotone(s: Seq<char>, k: int)
    requires
        all_digits(s),
        0 <= k <= s.len(),
    ensures
        0 <= digits_value(s.take(k)) <= digits_value(s),
    decreases s.len() - k,
{
    if k < s.len() {
        lemma_digits_prefix_monotone(s, k + 1);
        assert(s.take(k + 1).drop_last() =~= s.take(k));
        assert(is_digit(s[k]));
    } else {
        assert(s.take(k) =~= s);
        lemma_digits_nonneg(s);
    }
}

proof fn lemma_digits_nonneg(s: Seq<char>)
    requires
        all_digits(s),
    ensures
        digits_value(s) >= 0,
    decreases s.len(),
{
    if s.len() > 0 {
        assert(is_digit(s.last()));
        lemma_digits_nonneg(s.drop_last());
    }
}

/// How std's `str::parse` reads an integer in `[min, max]`: an optional
/// sign (`-` only where negatives are allowed), then one or more decimal
/// digits, whose value must lie in the range.
pub open spec fn parse_int(s: Seq<char>, min: int, max: int) -> Option<int> {
    if s.len() == 0 {
        None
    } else {
        let (neg, body) = if s[0] == '+' {
            (false, s.drop_first())
        } else if s[0] == '-' && min < 0 {
            (true, s.drop_first())
        } else {
            (false, s)
        };
        signed_digits(neg, body, min, max)
    }
}

/// The value of one or more decimal digits under a sign, if it lies in `[min, max]`.
pub open spec fn signed_digits(neg: bool, body: Seq<char>, min: int, max: int) -> Option<int> {
    if body.len() == 0 || !all_digits(body) {
        None
    } else {
        let v = if neg { -digits_value(body) } else { digits_value(body) };
        if min <= v <= max {
            Some(v)
        } else {
            None
        }
    }
}

/// Parse the characters `s[start..end]` as an integer in `[min, max]`, the
/// way std's `str::parse` reads integers.
pub fn parse_int_in(s: &Vec<char>, start: usize, end: usize, min: i64, max: i64) -> (r: Option<i64>)
    requires
        start <= end <= s@.len(),
        min <= 0 < max,
    ensures
        r matches Some(v) ==> parse_int(s@.subrange(start as int, end as int), min as int, max as int) == Some(v as int),
        r is None ==> parse_int(s@.subrange(start as int, end as int), min as int, max as int) is None,
{
    let ghost w = s@.subrange(start as int, end as int);
    if start == end {
        return None;
    }
    let mut i = start;
    let mut neg = false;
    if s[start] == '+' {
        i = start + 1;
    } else if s[start] == '-' && min < 0 {
        neg = true;
        i = start + 1;
    }
    let ghost body = s@.subrange(i as int, end as int);
    proof {
        assert(w[0] == s@[start as int]);
        if i > start {
            assert(body =~= w.drop_first());
        } else {
            assert(body =~= w);
        }
    }
    if i == end {
        return None;
    }
    // The magnitude may reach |min| when negative, `max` otherwise.
    let bound: i128 = if neg { -(min as i128) } else { max as i128 };
    let mut acc: i128 = 0;
    let mut k = i;
    assert(parse_int(w, min as int, max as int) == signed_digits(neg, body, min as int, max as int));
    while k < end
        invariant
            w == s@.subrange(start as int, end as int),
            parse_int(w, min as int, max as int) == signed_digits(neg, body, min as int, max as int),
            bound == if neg { -(min as int) } else { max as int },
            start <= i < end <= s@.len(),
            i <= k <= end,
            body == s@.subrange(i as int, end as int),
            0 <= bound <= 0x8000_0000_0000_0000,
            all_digits(s@.subrange(i as int, k as int)),
            acc == digits_value(s@.subrange(i as int, k as int)),
            0 <= acc <= bound,
        decreases end - k,
    {
        let c = s[k];
        if !('0' <= c && c <= '9') {
            proof {
                assert(body[k - i] == c);
                assert(!all_digits(body));
            }
            return None;
        }
        let d = (c as u32 - '0' as u32) as i128;
        proof {
            assert(s@.subrange(i as int, k + 1).drop_last() =~= s@.subrange(i as int, k as int));
        }
        acc = acc * 10 + d;
        if acc > bound {
            proof {
                assert(all_digits(s@.subrange(i as int, k + 1)));
                if all_digits(body) {
                    assert(body.take(k + 1 - i) =~= s@.subrange(i as int, k + 1));
                    lemma_digits_prefix_monotone(body, k + 1 - i);
                    assert(digits_value(body) > bound);
                }
            }
            return None;
        }
        k = k + 1;
    }
    proof {
        assert(s@.subrange(i as int, end as int) =~= body);
        assert(digits_value(body) == acc);
    }
    if neg {
        let v: i128 = 0 - acc;
        Some(v as i64)
    } else {
        Some(acc as i64)
    }
}

/// The pieces of `s` between occurrences of `sep`, in order (one empty
/// piece for an empty text), as `str::split` gives them.
pub open spec fn split_on(s: Seq<char>, sep: char) -> Seq<Seq<char>>
    decreases s.len(),
{
    if s.len() == 0 {
        seq![Seq::<char>::empty()]
    } else {
        let prev = split_on(s.drop_last(), sep);
        if s.last() == sep {
            prev.push(Seq::<char>::empty())
        } else {
            prev.update(prev.len() - 1, prev.last().push(s.last()))
        }
    }
}

/// The texts that ranges `[a, b)` of `cs` cut out.
pub open spec fn pieces_of(cs: Seq<char>, ranges: Seq<(usize, usize)>) -> Seq<Seq<char>> {
    Seq::new(ranges.len(), |j: int| cs.subrange(ranges[j].0 as int, ranges[j].1 as int))
}

/// The ranges of the pieces of `cs` between occurrences of `sep`.
pub fn split_ranges(cs: &Vec<char>, sep: char) -> (r: Vec<(usize, usize)>)
    ensures
        forall|j: int| 0 <= j < r@.len() ==> (#[trigger] r@[j]).0 <= r@[j].1 <= cs@.len(),
        pieces_of(cs@, r@) == split_on(cs@, sep),
{
    let n = cs.len();
    let mut pieces: Vec<(usize, usize)> = Vec::new();
    let mut cur: usize = 0;
    let mut k: usize = 0;
    assert(cs@.take(0) =~= Seq::<char>::empty());
    assert(pieces_of(cs@, pieces@).push(cs@.subrange(0, 0)) =~= split_on(cs@.take(0), sep));
    while k < n
        invariant
            n == cs@.len(),
            cur <= k <= n,
            forall|j: int| 0 <= j < pieces@.len() ==> (#[trigger] pieces@[j]).0 <= pieces@[j].1 <= k,
            split_on(cs@.take(k as int), sep) == pieces_of(cs@, pieces@).push(cs@.subrange(cur as int, k as int)),
        decreases n - k,
    {
        let ghost prev = pieces_of(cs@, pieces@);
        assert(cs@.take(k + 1).drop_last() =~= cs@.take(k as int));
        assert(cs@.take(k + 1).last() == cs@[k as int]);
        if cs[k] == sep {
            assert(split_on(cs@.take(k + 1), sep) == split_on(cs@.take(k as int), sep).push(Seq::<char>::empty()));
            assert(cs@.subrange(k + 1, k + 1) =~= Seq::<char>::empty());
            pieces.push((cur, k));
            assert(pieces_of(cs@, pieces@) =~= prev.push(cs@.subrange(cur as int, k as int)));
            cur = k + 1;
            assert(split_on(cs@.take(k + 1), sep) =~= pieces_of(cs@, pieces@).push(cs@.subrange(cur as int, k + 1)));
        } else {
            assert(cs@.subrange(cur as int, k + 1) =~= cs@.subrange(cur as int, k as int).push(cs@[k as int]));
            assert(split_on(cs@.take(k + 1), sep) =~= prev.push(cs@.subrange(cur as int, k + 1)));
        }
        k = k + 1;
    }
    let ghost prev = pieces_of(cs@, pieces@);
    pieces.push((cur, n));
    assert(pieces_of(cs@, pieces@) =~= prev.push(cs@.subrange(cur as int, n as int)));
    assert(cs@.take(n as int) =~= cs@);
    pieces
}

/// The decimal digits of `n`.
pub open spec fn decimal_of(n: nat) -> Seq<char>
    decreases n,
{
    if n < 10 {
        seq![(('0' as u8) + (n as u8)) as char]
    } else {
        decimal_of(n / 10) + seq![(('0' as u8) + ((n % 10) as u8)) as char]
    }
}

pub fn digit_char(d: u64) -> (c: char)
    requires
        d < 10,
    ensures
        c == (('0' as u8) + (d as u8)) as char,
{
    match d {
        0 => '0',
        1 => '1',
        2 => '2',
        3 => '3',
        4 => '4',
        5 => '5',
        6 => '6',
        7 => '7',
        8 => '8',
        _ => '9',
    }
}

/// The decimal digits of `n`, as characters.
pub fn decimal_digits(n: u64) -> (v: Vec<char>)
    ensures
        v@ == decimal_of(n as nat),
    decreases n,
{
    let d = digit_char(n % 10);
    if n < 10 {
        let mut v = Vec::new();
        v.push(d);
        assert(v@ =~= decimal_of(n as nat));
        v
    } else {
        let mut v = decimal_digits(n / 10);
        v.push(d);
        assert(v@ =~= decimal_of(n as nat));
        v
    }
}

/// Splitting never yields fewer than one piece.
proof fn lemma_split_nonempty(s: Seq<char>, sep: char)
    ensures
        split_on(s, sep).len() >= 1,
    decreases s.len(),
{
    if s.len() > 0 {
        lemma_split_nonempty(s.drop_last(), sep);
    }
}

/// Appending text free of the separator extends the last piece.
pub proof fn lemma_split_append_plain(s: Seq<char>, t: Seq<char>, sep: char)
    requires
        forall|i: int| 0 <= i < t.len() ==> #[trigger] t[i] != sep,
    ensures
        split_on(s + t, sep) == split_on(s, sep).update(
            split_on(s, sep).len() - 1,
            split_on(s, sep).last() + t,
        ),
    decreases t.len(),
{
    lemma_split_nonempty(s, sep);
    if t.len() == 0 {
        assert(s + t =~= s);
        assert(split_on(s, sep).last() + t =~= split_on(s, sep).last());
        assert(split_on(s, sep).update(split_on(s, sep).len() - 1, split_on(s, sep).last())
            =~= split_on(s, sep));
    } else {
        let u = t.drop_last();
        assert forall|i: int| 0 <= i < u.len() implies #[trigger] u[i] != sep by {
            assert(u[i] == t[i]);
        }
        lemma_split_append_plain(s, u, sep);
        assert((s + t).drop_last() =~= s + u);
        assert((s + t).last() == t.last());
        assert(t.last() == t[t.len() - 1]);
        let prev = split_on(s + u, sep);
        assert(prev.last() == split_on(s, sep).last() + u);
        assert((split_on(s, sep).last() + u).push(t.last()) =~= split_on(s, sep).last() + t);
        assert(split_on(s + t, sep) =~= split_on(s, sep).update(
            split_on(s, sep).len() - 1,
            split_on(s, sep).last() + t,
        ));
    }
}

/// Appending the separator starts a new, empty piece.
pub proof fn lemma_split_append_sep(s: Seq<char>, sep: char)
    ensures
        split_on(s + seq![sep], sep) == split_on(s, sep).push(Seq::<char>::empty()),
{
    assert((s + seq![sep]).drop_last() =~= s);
    assert((s + seq![sep]).last() == sep);
}

/// The digits of a number are digits, at least one, and spell it.
pub proof fn lemma_decimal_of(n: nat)
    ensures
        all_digits(decimal_of(n)),
        decimal_of(n).len() >= 1,
        digits_value(decimal_of(n)) == n,
    decreases n,
{
    if n < 10 {
        let c = (('0' as u8) + (n as u8)) as char;
        assert(decimal_of(n) == seq![c]);
        assert(c as int == 48 + n);
        assert(seq![c].drop_last() =~= Seq::<char>::empty());
        assert(digits_value(seq![c]) == digits_value(Seq::<char>::empty()) * 10 + digit_value(c));
    } else {
        lemma_decimal_of(n / 10);
        let c = (('0' as u8) + ((n % 10) as u8)) as char;
        assert(c as int == 48 + n % 10);
        let d = decimal_of(n / 10);
        assert((d + seq![c]).drop_last() =~= d);
        assert((d + seq![c]).last() == c);
        assert(digits_value(d + seq![c]) == digits_value(d) * 10 + digit_value(c));
        assert(n == (n / 10) * 10 + n % 10);
        assert forall|i: int| 0 <= i < (d + seq![c]).len() implies is_digit(#[trigger] (d + seq![c])[i]) by {
            if i < d.len() {
                assert((d + seq![c])[i] == d[i]);
            }
        }
    }
}

/// Leading zeros do not change the number digits spell.
pub proof fn lemma_leading_zeros(k: nat, s: Seq<char>)
    ensures
        digits_value(Seq::new(k, |_i: int| '0') + s) == digits_value(s),
    decreases s.len(), k,
{
    let z = Seq::new(k, |_i: int| '0');
    if s.len() == 0 {
        assert(z + s =~= z);
        if k > 0 {
            assert(z.drop_last() =~= Seq::new((k - 1) as nat, |_i: int| '0'));
            lemma_leading_zeros((k - 1) as nat, s);
            assert(Seq::new((k - 1) as nat, |_i: int| '0') + s =~= Seq::new((k - 1) as nat, |_i: int| '0'));
        }
    } else {
        lemma_leading_zeros(k, s.drop_last());
        assert((z + s).drop_last() =~= z + s.drop_last());
        assert((z + s).last() == s.last());
    }
}

} // verus!
