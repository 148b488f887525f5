//! Character-level helpers shared by the readers and writers.
use vstd::prelude::*;

verus! {

/// Relies on str::chars collected into a Vec: the characters of `s` in order.
#[verifier::external_body]
pub(crate) fn chars_of(s: &str) -> (r: Vec<char>)
    ensures
        r@ == s@,
{
    s.chars().collect()
}

/// Relies on String's FromIterator<char>: the string of the characters `cs[from..to]` in order.
#[verifier::external_body]
pub(crate) fn string_of(cs: &Vec<char>, from: usize, to: usize) -> (r: String)
    requires
        from <= to <= cs.len(),
    ensures
        r@ == cs@.subrange(from as int, to as int),
{
    cs[from..to].iter().collect()
}

/// Whether two texts are equal.
pub(crate) fn text_is(a: &str, b: &str) -> (r: bool)
    ensures
        r == (a@ == b@),
{
    String::from_str(a) == String::from_str(b)
}

/// A copy of `s`.
pub(crate) fn text(s: &str) -> (r: String)
    ensures
        r@ == s@,
{
    String::from_str(s)
}

/// Whether `b` stands in `a` at `off`.
pub(crate) fn chars_at(a: &Vec<char>, off: usize, b: &Vec<char>) -> (r: bool)
    ensures
        r == (off + b.len() <= a.len() && a@.subrange(off as int, off + b.len()) == b@),
{
    if b.len() > a.len() || off > a.len() - b.len() {
        return false;
    }
    let mut i: usize = 0;
    while i < b.len()
        invariant
            off + b.len() <= a.len(),
            i <= b.len(),
            a@.subrange(off as int, off + i) == b@.subrange(0, i as int),
        decreases b.len() - i,
    {
        if a[off + i] != b[i] {
            assert(a@.subrange(off as int, off + b.len())[i as int] != b@[i as int]);
            return false;
        }
        assert(a@.subrange(off as int, off + i + 1) =~= a@.subrange(off as int, off + i).push(a@[off + i]));
        assert(b@.subrange(0, i + 1) =~= b@.subrange(0, i as int).push(b@[i as int]));
        i = i + 1;
    }
    assert(b@.subrange(0, b.len() as int) =~= b@);
    true
}

/// Whether `c` has the Unicode White_Space property, which `char::is_whitespace` tests.
pub open spec fn is_unicode_space(c: char) -> bool {
    ('\u{9}' <= c && c <= '\u{d}') || c == ' ' || c == '\u{85}' || c == '\u{a0}' || c == '\u{1680}'
        || ('\u{2000}' <= c && c <= '\u{200a}') || c == '\u{2028}' || c == '\u{2029}' || c == '\u{202f}'
        || c == '\u{205f}' || c == '\u{3000}'
}

/// The maximal runs of non-whitespace characters of `s` from `i` on, after the runs `acc`
/// and the unfinished run `cur`.
pub open spec fn split_words(s: Seq<char>, i: int, cur: Seq<char>, acc: Seq<Seq<char>>) -> Seq<Seq<char>>
    decreases s.len() - i,
{
    if i < 0 || i >= s.len() {
        if cur.len() > 0 { acc.push(cur) } else { acc }
    } else if is_unicode_space(s[i]) {
        split_words(s, i + 1, Seq::empty(), if cur.len() > 0 { acc.push(cur) } else { acc })
    } else {
        split_words(s, i + 1, cur.push(s[i]), acc)
    }
}

/// The words of `s`: its maximal runs of non-whitespace characters, in order.
pub open spec fn whitespace_words(s: Seq<char>) -> Seq<Seq<char>> {
    split_words(s, 0, Seq::empty(), Seq::empty())
}

/// Relies on str::split_whitespace: the pieces of `s` between runs of whitespace, in order.
#[verifier::external_body]
pub(crate) fn split_on_whitespace(s: &str) -> (r: Vec<String>)
    ensures
        r.deep_view() == whitespace_words(s@),
{
    s.split_whitespace().map(String::from).collect()
}

pub open spec fn is_digit(c: char) -> bool {
    '0' <= c && c <= '9'
}

pub open spec fn all_digits(s: Seq<char>) -> bool {
    forall|i: int| 0 <= i < s.len() ==> is_digit(#[trigger] s[i])
}

/// The number written by the decimal digits `s`.
pub open spec fn digits_value(s: Seq<char>) -> nat
    decreases s.len(),
{
    if s.len() == 0 {
        0
    } else {
        digits_value(s.drop_last()) * 10 + ((s.last() as u32 - '0' as u32) as nat)
    }
}

/// What `str::parse::<usize>` gives: an optional `+`, then one or more digits whose
/// value fits.
pub open spec fn parse_usize(s: Seq<char>) -> Option<usize> {
    let d = if s.len() > 0 && s[0] == '+' {
        s.drop_first()
    } else {
        s
    };
    if d.len() > 0 && all_digits(d) && digits_value(d) <= usize::MAX {
        Some(digits_value(d) as usize)
    } else {
        None
    }
}

proof fn lemma_digits_value_monotone(s: Seq<char>, n: int)
    requires
        0 <= n <= s.len(),
        all_digits(s),
    ensures
        digits_value(s.subrange(0, n)) <= digits_value(s),
    decreases s.len() - n,
{
    if n < s.len() {
        lemma_digits_value_monotone(s, n + 1);
        assert(s.subrange(0, n + 1).drop_last() =~= s.subrange(0, n));
    } else {
        assert(s.subrange(0, n) =~= s);
    }
}

/// The value of the digits `cs[from..]`, or None when one is not a digit, there are
/// none, or the value exceeds `bound`.
pub(crate) fn digits_upto(cs: &Vec<char>, from: usize, to: usize, bound: u64) -> (r: Option<u64>)
    requires
        from <= to <= cs.len(),
    ensures
        ({
            let d = cs@.subrange(from as int, to as int);
            r == (if d.len() > 0 && all_digits(d) && digits_value(d) <= bound {
                Some(digits_value(d) as u64)
            } else {
                None
            })
        }),
{
    let ghost d = cs@.subrange(from as int, to as int);
    if from == to {
        return None;
    }
    let mut i = from;
    let mut v: u64 = 0;
    while i < to
        invariant
            from <= i <= to,
            to <= cs.len(),
            d == cs@.subrange(from as int, to as int),
            all_digits(cs@.subrange(from as int, i as int)),
            v as nat == digits_value(cs@.subrange(from as int, i as int)),
            v <= bound,
        decreases to - i,
    {
        let c = cs[i];
        if !('0' <= c && c <= '9') {
            proof {
                assert(d[i - from] == c);
            }
            return None;
        }
        let dv = (c as u32 - '0' as u32) as u64;
        let ghost pre = cs@.subrange(from as int, i as int);
        let ghost next = cs@.subrange(from as int, i + 1);
        assert(next.drop_last() =~= pre);
        if dv > bound || v > (bound - dv) / 10 {
            proof {
                if dv <= bound {
                    assert(v * 10 + dv > bound) by (nonlinear_arith)
                        requires v > (bound - dv) / 10, dv <= 9, dv <= bound;
                }
                assert(all_digits(d) ==> digits_value(next) <= digits_value(d)) by {
                    if all_digits(d) {
                        lemma_digits_value_monotone(d, i + 1 - from);
                        assert(d.subrange(0, i + 1 - from) =~= next);
                    }
                };
            }
            return None;
        }
        assert(v * 10 + dv <= bound) by (nonlinear_arith)
            requires v <= (bound - dv) / 10, dv <= 9, dv <= bound;
        v = v * 10 + dv;
        i = i + 1;
    }
    assert(cs@.subrange(from as int, i as int) =~= d);
    Some(v)
}

/// Reads a count the way `str::parse::<usize>` does.
pub(crate) fn parse_count(s: &str) -> (r: Option<usize>)
    ensures
        r == parse_usize(s@),
{
    let cs = chars_of(s);
    let from: usize = if cs.len() > 0 && cs[0] == '+' { 1 } else { 0 };
    let ghost d = if s@.len() > 0 && s@[0] == '+' { s@.drop_first() } else { s@ };
    assert(cs@.subrange(from as int, cs.len() as int) =~= d);
    match digits_upto(&cs, from, cs.len(), usize::MAX as u64) {
        Some(v) => Some(v as usize),
        None => None,
    }
}


pub open spec fn digit(d: nat) -> char {
    if d == 0 {
        '0'
    } else if d == 1 {
        '1'
    } else if d == 2 {
        '2'
    } else if d == 3 {
        '3'
    } else if d == 4 {
        '4'
    } else if d == 5 {
        '5'
    } else if d == 6 {
        '6'
    } else if d == 7 {
        '7'
    } else if d == 8 {
        '8'
    } else {
        '9'
    }
}

/// The decimal digits of `n`, without leading zeros.
pub open spec fn decimal(n: nat) -> Seq<char>
    decreases n,
{
    if n < 10 {
        seq![digit(n)]
    } else {
        decimal(n / 10).push(digit(n % 10))
    }
}

/// An integer as `to_string` writes it: a minus sign when negative, then its digits.
pub open spec fn int_text(i: int) -> Seq<char> {
    if i < 0 {
        seq!['-'] + decimal((-i) as nat)
    } else {
        decimal(i as nat)
    }
}

fn digit_char(d: u64) -> (c: char)
    requires
        d < 10,
    ensures
        c == digit(d as nat),
{
    if d == 0 {
        '0'
    } else if d == 1 {
        '1'
    } else if d == 2 {
        '2'
    } else if d == 3 {
        '3'
    } else if d == 4 {
        '4'
    } else if d == 5 {
        '5'
    } else if d == 6 {
        '6'
    } else if d == 7 {
        '7'
    } else if d == 8 {
        '8'
    } else {
        '9'
    }
}

fn push_decimal(v: &mut Vec<char>, n: u64)
    ensures
        final(v)@ == old(v)@ + decimal(n as nat),
    decreases n,
{
    if n >= 10 {
        push_decimal(v, n / 10);
    }
    v.push(digit_char(n % 10));
    proof {
        if n >= 10 {
            assert(final(v)@ =~= old(v)@ + decimal(n as nat));
        } else {
            assert(final(v)@ =~= old(v)@ + decimal(n as nat));
        }
    }
}

/// The decimal text of `i`.
pub(crate) fn integer_text(i: i32) -> (r: String)
    ensures
        r@ == int_text(i as int),
{
    let mut v: Vec<char> = Vec::new();
    if i < 0 {
        v.push('-');
        let m: i64 = -(i as i64);
        push_decimal(&mut v, m as u64);
    } else {
        push_decimal(&mut v, i as u64);
    }
    proof {
        if i < 0 {
            assert(v@ =~= int_text(i as int));
        } else {
            assert(v@ =~= int_text(i as int));
        }
    }
    string_of(&v, 0, v.len())
}


/// The index of the first entry of `m` with key `k`.
pub open spec fn key_position<V>(m: Seq<(Seq<char>, V)>, k: Seq<char>) -> Option<int>
    decreases m.len(),
{
    if m.len() == 0 {
        None
    } else if m[0].0 == k {
        Some(0)
    } else {
        match key_position(m.drop_first(), k) {
            Some(i) => Some(i + 1),
            None => None,
        }
    }
}

/// `m` with `k` bound to `v`: the entry of `k` replaced in place, or a new entry at the end.
pub open spec fn assoc_insert<V>(m: Seq<(Seq<char>, V)>, k: Seq<char>, v: V) -> Seq<(Seq<char>, V)> {
    match key_position(m, k) {
        Some(i) => m.update(i, (k, v)),
        None => m.push((k, v)),
    }
}

/// The value bound to `k` in `m`.
pub open spec fn assoc_get<V>(m: Seq<(Seq<char>, V)>, k: Seq<char>) -> Option<V> {
    match key_position(m, k) {
        Some(i) => Some(m[i].1),
        None => None,
    }
}

pub proof fn lemma_key_position<V>(m: Seq<(Seq<char>, V)>, k: Seq<char>)
    ensures
        match key_position(m, k) {
            Some(i) => 0 <= i < m.len() && m[i].0 == k && forall|j: int| 0 <= j < i ==> m[j].0 != k,
            None => forall|j: int| 0 <= j < m.len() ==> m[j].0 != k,
        },
    decreases m.len(),
{
    if m.len() > 0 {
        lemma_key_position(m.drop_first(), k);
        if m[0].0 != k {
            assert forall|j: int| 0 < j < m.len() implies m[j].0 == m.drop_first()[j - 1].0 by {}
        }
    }
}

/// Whether no key stands twice in `m`.
pub open spec fn keys_unique<V>(m: Seq<(Seq<char>, V)>) -> bool {
    forall|i: int, j: int| 0 <= i < j < m.len() ==> m[i].0 != m[j].0
}

pub proof fn lemma_assoc_insert_unique<V>(m: Seq<(Seq<char>, V)>, k: Seq<char>, v: V)
    requires
        keys_unique(m),
    ensures
        keys_unique(assoc_insert(m, k, v)),
{
    lemma_key_position(m, k);
    let r = assoc_insert(m, k, v);
    match key_position(m, k) {
        Some(p) => {
            assert forall|i: int, j: int| 0 <= i < j < r.len() implies r[i].0 != r[j].0 by {
                assert(r[i].0 == m[i].0 && r[j].0 == m[j].0);
            }
        },
        None => {
            assert forall|i: int, j: int| 0 <= i < j < r.len() implies r[i].0 != r[j].0 by {
                if j == m.len() {
                    assert(r[j].0 == k);
                } else {
                    assert(r[j].0 == m[j].0);
                }
            }
        },
    }
}

pub open spec fn entries_view<V: View>(m: Seq<(String, V)>) -> Seq<(Seq<char>, V::V)> {
    m.map_values(|p: (String, V)| (p.0@, p.1@))
}

/// Binds `k` to `v` in the association list `m`.
pub(crate) fn assoc_put<V: View>(m: &mut Vec<(String, V)>, k: String, v: V)
    ensures
        entries_view(final(m)@) == assoc_insert(entries_view(old(m)@), k@, v@),
        keys_unique(entries_view(old(m)@)) ==> keys_unique(entries_view(final(m)@)),
{
    proof {
        if keys_unique(entries_view(old(m)@)) {
            lemma_assoc_insert_unique(entries_view(old(m)@), k@, v@);
        }
    }
    let ghost mv = entries_view(old(m)@);
    let mut i: usize = 0;
    while i < m.len()
        invariant
            i <= m.len(),
            m@ == old(m)@,
            mv == entries_view(old(m)@),
            forall|j: int| 0 <= j < i ==> mv[j].0 != k@,
        decreases m.len() - i,
    {
        if m[i].0 == k {
            proof {
                lemma_key_position(mv, k@);
                assert(mv[i as int].0 == k@);
                match key_position(mv, k@) {
                    Some(q) => {
                        if q > i {
                            assert(mv[i as int].0 == k@);
                        }
                    },
                    None => {},
                }
            }
            let _ = m.remove(i);
            m.insert(i, (k, v));
            proof {
                assert(entries_view(final(m)@) =~= mv.update(i as int, (k@, v@)));
            }
            return;
        }
        i = i + 1;
    }
    m.push((k, v));
    proof {
        lemma_key_position(mv, k@);
        assert(entries_view(final(m)@) =~= mv.push((k@, v@)));
    }
}

} // verus!
