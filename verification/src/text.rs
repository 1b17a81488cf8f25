//! UTF-8 text: what of std's conversions the codecs rely on.
use vstd::prelude::*;
use vstd::utf8::*;

verus! {

#[verifier::external_type_specification]
#[verifier::external_body]
pub struct ExUtf8Error(core::str::Utf8Error);

/// What `String::from_utf8_lossy` makes of octets that need not be UTF-8.
pub uninterp spec fn utf8_lossy(octets: Seq<u8>) -> Seq<char>;

/// `core::str::from_utf8`: succeeds on valid UTF-8 alone, and then gives the
/// characters that the octets encode.
#[verifier::external_body]
pub(crate) fn str_from_utf8(v: &[u8]) -> (r: Result<&str, core::str::Utf8Error>)
    ensures
        r is Ok <==> valid_utf8(v@),
        r is Ok ==> r->Ok_0@ == decode_utf8(v@),
{
    core::str::from_utf8(v)
}

/// `String::from_utf8_lossy`: a function of the octets alone, which are kept as
/// they are when they are valid UTF-8. How invalid octets are replaced is left
/// to the name [`utf8_lossy`].
#[verifier::external_body]
pub(crate) fn string_from_utf8_lossy(v: &[u8]) -> (r: String)
    ensures
        r@ == utf8_lossy(v@),
        valid_utf8(v@) ==> r@ == decode_utf8(v@),
{
    String::from_utf8_lossy(v).into_owned()
}

/// `String::push`: the character goes to the end.
pub assume_specification[ String::push ](s: &mut String, c: char)
    ensures
        final(s)@ == old(s)@.push(c),
;

pub open spec fn digit(d: nat) -> char {
    (48 + d) as char
}

/// A number in decimal, without leading zeros.
pub open spec fn decimal(n: nat) -> Seq<char>
    decreases n,
{
    if n < 10 {
        seq![digit(n)]
    } else {
        decimal(n / 10).push(digit(n % 10))
    }
}

/// Append a number in decimal.
pub fn push_decimal(s: &mut String, n: u64)
    ensures
        final(s)@ == old(s)@ + decimal(n as nat),
    decreases n,
{
    let ghost before = s@;
    if n >= 10 {
        push_decimal(s, n / 10);
    }
    let d: u8 = (n % 10) as u8;
    s.push((d + 48) as char);
    assert(s@ =~= before + decimal(n as nat));
}

/// The characters with the Unicode property White_Space.
pub open spec fn is_white_space(c: char) -> bool {
    let n = c as u32;
    ||| 0x9 <= n <= 0xd
    ||| n == 0x20
    ||| n == 0x85
    ||| n == 0xa0
    ||| n == 0x1680
    ||| 0x2000 <= n <= 0x200a
    ||| n == 0x2028
    ||| n == 0x2029
    ||| n == 0x202f
    ||| n == 0x205f
    ||| n == 0x3000
}

fn white_space(c: char) -> (b: bool)
    ensures
        b == is_white_space(c),
{
    let n: u32 = c as u32;
    (0x9 <= n && n <= 0xd) || n == 0x20 || n == 0x85 || n == 0xa0 || n == 0x1680 || (0x2000 <= n
        && n <= 0x200a) || n == 0x2028 || n == 0x2029 || n == 0x202f || n == 0x205f || n == 0x3000
}

/// `s` without its leading white space.
pub open spec fn without_leading(s: Seq<char>) -> Seq<char>
    decreases s.len(),
{
    if s.len() > 0 && is_white_space(s[0]) {
        without_leading(s.skip(1))
    } else {
        s
    }
}

/// `s` without its trailing white space.
pub open spec fn without_trailing(s: Seq<char>) -> Seq<char>
    decreases s.len(),
{
    if s.len() > 0 && is_white_space(s.last()) {
        without_trailing(s.drop_last())
    } else {
        s
    }
}

/// `s` without the white space at its ends.
pub open spec fn trimmed(s: Seq<char>) -> Seq<char> {
    without_trailing(without_leading(s))
}

/// A string without the white space at its ends.
pub fn trim(s: &str) -> (t: &str)
    ensures
        t@ == trimmed(s@),
{
    let n: usize = s.unicode_len();
    let mut start: usize = 0;
    assert(s@.skip(0) =~= s@);
    while start < n && white_space(s.get_char(start))
        invariant
            n == s@.len(),
            start <= n,
            without_leading(s@) == without_leading(s@.skip(start as int)),
        decreases n - start,
    {
        assert(s@.skip(start as int).skip(1) =~= s@.skip(start + 1));
        start = start + 1;
    }
    let mut end: usize = n;
    assert(without_leading(s@) == s@.subrange(start as int, n as int)) by {
        assert(s@.skip(start as int) =~= s@.subrange(start as int, n as int));
    }
    while start < end && white_space(s.get_char(end - 1))
        invariant
            n == s@.len(),
            start <= end <= n,
            without_trailing(without_leading(s@)) == without_trailing(
                s@.subrange(start as int, end as int),
            ),
        decreases end,
    {
        assert(s@.subrange(start as int, end as int).drop_last() =~= s@.subrange(
            start as int,
            end - 1,
        ));
        end = end - 1;
    }
    s.substring_char(start, end)
}

/// `s` begins with `p`.
pub open spec fn begins(s: Seq<char>, p: Seq<char>) -> bool {
    p.len() <= s.len() && s.take(p.len() as int) == p
}

/// What follows `p` in a string that begins with it.
pub fn strip_prefix<'a>(s: &'a str, p: &str) -> (r: Option<&'a str>)
    ensures
        match r {
            Some(t) => begins(s@, p@) && t@ == s@.skip(p@.len() as int),
            None => !begins(s@, p@),
        },
{
    let n: usize = s.unicode_len();
    let m: usize = p.unicode_len();
    if n < m {
        return None;
    }
    let mut i: usize = 0;
    while i < m
        invariant
            n == s@.len(),
            m == p@.len(),
            i <= m <= n,
            forall|k: int| 0 <= k < i ==> s@[k] == p@[k],
        decreases m - i,
    {
        if s.get_char(i) != p.get_char(i) {
            assert(s@.take(m as int)[i as int] != p@[i as int]);
            return None;
        }
        i = i + 1;
    }
    assert(s@.take(m as int) =~= p@);
    let t = s.substring_char(m, n);
    assert(t@ =~= s@.skip(m as int));
    Some(t)
}

/// What stands behind the last `c` of `s`; all of it where there is none.
pub open spec fn behind_last(s: Seq<char>, c: char) -> Seq<char>
    decreases s.len(),
{
    if s.len() == 0 {
        s
    } else if s.last() == c {
        Seq::empty()
    } else {
        behind_last(s.drop_last(), c).push(s.last())
    }
}

proof fn lemma_behind_last(s: Seq<char>, c: char, from: int)
    requires
        0 <= from <= s.len(),
        from == 0 || s[from - 1] == c,
        forall|k: int| from <= k < s.len() ==> s[k] != c,
    ensures
        behind_last(s, c) == s.skip(from),
    decreases s.len(),
{
    if s.len() == 0 {
        assert(s.skip(from) =~= s);
    } else if from == s.len() {
        assert(s.skip(from) =~= Seq::empty());
    } else {
        lemma_behind_last(s.drop_last(), c, from);
        assert(s.drop_last().skip(from).push(s.last()) =~= s.skip(from));
    }
}

/// The last part of a string that `c` divides.
pub fn after_last(s: &str, c: char) -> (t: &str)
    ensures
        t@ == behind_last(s@, c),
{
    let n: usize = s.unicode_len();
    let mut from: usize = n;
    while from > 0 && s.get_char(from - 1) != c
        invariant
            n == s@.len(),
            from <= n,
            forall|k: int| from <= k < n ==> s@[k] != c,
        decreases from,
    {
        from = from - 1;
    }
    proof {
        lemma_behind_last(s@, c, from as int);
    }
    let t = s.substring_char(from, n);
    assert(t@ =~= s@.skip(from as int));
    t
}

/// The first part of `s` that is not empty, of those that `c` divides it into.
pub open spec fn first_part(s: Seq<char>, c: char) -> Seq<char>
    decreases s.len(),
{
    if s.len() == 0 {
        s
    } else if s[0] == c {
        first_part(s.skip(1), c)
    } else {
        until(s, c)
    }
}

/// `s` up to its first `c`.
pub open spec fn until(s: Seq<char>, c: char) -> Seq<char>
    decreases s.len(),
{
    if s.len() == 0 || s[0] == c {
        Seq::empty()
    } else {
        seq![s[0]] + until(s.skip(1), c)
    }
}

proof fn lemma_until(s: Seq<char>, c: char, n: int)
    requires
        0 <= n <= s.len(),
        forall|k: int| 0 <= k < n ==> s[k] != c,
        n == s.len() || s[n] == c,
    ensures
        until(s, c) == s.take(n),
    decreases s.len(),
{
    if n == 0 {
        assert(s.take(n) =~= Seq::empty());
    } else {
        lemma_until(s.skip(1), c, n - 1);
        assert(seq![s[0]] + s.skip(1).take(n - 1) =~= s.take(n));
    }
}

/// The first part that is not empty; the empty string where there is none.
pub fn first_component(s: &str, c: char) -> (t: &str)
    ensures
        t@ == first_part(s@, c),
{
    let n: usize = s.unicode_len();
    let mut start: usize = 0;
    assert(s@.skip(0) =~= s@);
    while start < n && s.get_char(start) == c
        invariant
            n == s@.len(),
            start <= n,
            first_part(s@, c) == first_part(s@.skip(start as int), c),
        decreases n - start,
    {
        assert(s@.skip(start as int).skip(1) =~= s@.skip(start + 1));
        start = start + 1;
    }
    let mut end: usize = start;
    while end < n && s.get_char(end) != c
        invariant
            n == s@.len(),
            start <= end <= n,
            forall|k: int| start <= k < end ==> s@[k] != c,
        decreases n - end,
    {
        end = end + 1;
    }
    let ghost rest = s@.skip(start as int);
    proof {
        if rest.len() > 0 {
            assert forall|k: int| 0 <= k < end - start implies rest[k] != c by {
                assert(rest[k] == s@[start + k]);
            }
            lemma_until(rest, c, end - start);
        }
    }
    let t = s.substring_char(start, end);
    assert(t@ =~= rest.take(end - start));
    t
}

pub open spec fn is_digit(c: char) -> bool {
    '0' <= c && c <= '9'
}

pub open spec fn is_number(s: Seq<char>) -> bool {
    s.len() > 0 && forall|i: int| 0 <= i < s.len() ==> is_digit(#[trigger] s[i])
}

/// The number that a run of decimal digits stands for.
pub open spec fn number_of(s: Seq<char>) -> nat
    decreases s.len(),
{
    if s.len() == 0 {
        0
    } else {
        10 * number_of(s.drop_last()) + (s.last() as u32 - 48) as nat
    }
}

/// A number of at most `max` in decimal digits, with or without a plus sign
/// ahead of them.
pub open spec fn parsed_number(s: Seq<char>, max: nat) -> Option<nat> {
    let digits = if s.len() > 1 && s[0] == '+' {
        s.skip(1)
    } else {
        s
    };
    if is_number(digits) && number_of(digits) <= max {
        Some(number_of(digits))
    } else {
        None
    }
}

proof fn lemma_number_grows(s: Seq<char>, k: int)
    requires
        is_number(s),
        0 <= k <= s.len(),
    ensures
        number_of(s.take(k)) <= number_of(s),
    decreases s.len(),
{
    if k == s.len() {
        assert(s.take(k) =~= s);
    } else if s.len() == 1 {
        assert(s.take(k) =~= Seq::empty());
    } else {
        let t = s.drop_last();
        assert forall|i: int| 0 <= i < t.len() implies is_digit(#[trigger] t[i]) by {
            assert(is_digit(s[i]));
        }
        assert(is_digit(s[s.len() - 1]));
        lemma_number_grows(t, k);
        assert(t.take(k) =~= s.take(k));
    }
}

/// Read a decimal number that fits in 64 bits.
pub fn parse_number(s: &str) -> (r: Option<u64>)
    ensures
        match r {
            Some(v) => parsed_number(s@, u64::MAX as nat) == Some(v as nat),
            None => parsed_number(s@, u64::MAX as nat) is None,
        },
{
    let n: usize = s.unicode_len();
    let start: usize = if n > 1 && s.get_char(0) == '+' {
        1
    } else {
        0
    };
    let ghost digits = s@.skip(start as int);
    assert(s@.skip(0) =~= s@);
    if n == start {
        return None;
    }
    let mut acc: u64 = 0;
    let mut i: usize = start;
    assert(digits.take(0) =~= Seq::empty());
    while i < n
        invariant
            n == s@.len(),
            start <= i <= n,
            start < n,
            digits == s@.skip(start as int),
            start == 1 <==> (s@.len() > 1 && s@[0] == '+'),
            start == 0 || start == 1,
            start == 0 ==> digits == s@,
            acc == number_of(digits.take(i - start)),
            forall|k: int| 0 <= k < i - start ==> is_digit(#[trigger] digits[k]),
        decreases n - i,
    {
        let c = s.get_char(i);
        let ghost k = i - start;
        assert(c == digits[k]);
        if !('0' <= c && c <= '9') {
            assert(!is_digit(digits[k]));
            return None;
        }
        let d: u64 = (c as u64) - 48;
        assert(digits.take(k + 1).drop_last() =~= digits.take(k));
        assert(digits.take(k + 1).last() == c);
        if acc > (u64::MAX - d) / 10 {
            proof {
                if is_number(digits) {
                    lemma_number_grows(digits, k + 1);
                }
            }
            return None;
        }
        acc = acc * 10 + d;
        i = i + 1;
    }
    assert(digits.take(n - start) =~= digits);
    Some(acc)
}

/// A code point that RFC 8881 section 14.4 excludes from `utf8str_cs`: one of
/// the thirty-two noncharacters at U+FDD0, or the last two of any plane.
pub open spec fn is_noncharacter(c: char) -> bool {
    let cp = c as u32;
    0xFDD0 <= cp <= 0xFDEF || cp % 0x1_0000 == 0xFFFE || cp % 0x1_0000 == 0xFFFF
}

/// A string that `utf8str_cs` admits.
pub open spec fn is_utf8str_cs(s: Seq<char>) -> bool {
    forall|i: int| 0 <= i < s.len() ==> !#[trigger] is_noncharacter(s[i])
}

/// Whether a string is a valid `utf8str_cs`.
pub fn utf8str_cs_ok(s: &str) -> (ok: bool)
    ensures
        ok == is_utf8str_cs(s@),
{
    for c in it: s.chars()
        invariant
            it.seq() == s@,
            forall|j: int| 0 <= j < it.index() ==> !#[trigger] is_noncharacter(s@[j]),
    {
        let cp: u32 = c as u32;
        assert((cp & 0xFFFE == 0xFFFE) == (cp % 0x1_0000 == 0xFFFE || cp % 0x1_0000 == 0xFFFF))
            by (bit_vector);
        if (0xFDD0 <= cp && cp <= 0xFDEF) || (cp & 0xFFFE) == 0xFFFE {
            assert(is_noncharacter(s@[it.index() as int]));
            return false;
        }
    }
    true
}

// ---------------------------------------------------------------------------
// Laws
// ---------------------------------------------------------------------------

/// Law: the ten digits are written as themselves.
pub proof fn a_digit_is_written_as_itself()
    ensures
        decimal(0) == seq!['0'],
        decimal(1) == seq!['1'],
        decimal(2) == seq!['2'],
        decimal(3) == seq!['3'],
        decimal(4) == seq!['4'],
        decimal(5) == seq!['5'],
        decimal(6) == seq!['6'],
        decimal(7) == seq!['7'],
        decimal(8) == seq!['8'],
        decimal(9) == seq!['9'],
{
}

pub proof fn lemma_decimal(n: nat)
    ensures
        is_number(decimal(n)),
        number_of(decimal(n)) == n,
        n > 0 ==> decimal(n)[0] != '0',
        n == 0 ==> decimal(n) == seq!['0'],
    decreases n,
{
    if n < 10 {
        assert(decimal(n).drop_last() =~= Seq::empty());
        assert(number_of(Seq::empty()) == 0);
    } else {
        lemma_decimal(n / 10);
        let front = decimal(n / 10);
        let s = decimal(n);
        assert(s.drop_last() =~= front);
        assert forall|i: int| 0 <= i < s.len() implies is_digit(#[trigger] s[i]) by {
            if i < front.len() {
                assert(is_digit(front[i]));
            }
        }
    }
}

/// Law: a number that was written in decimal is read back, with or without a
/// plus sign, as long as it is within the limit; above the limit it is refused.
/// No number but 0 is written with a zero in front.
pub proof fn a_written_number_is_read_back(n: nat, max: nat)
    ensures
        n <= max ==> parsed_number(decimal(n), max) == Some(n),
        n <= max ==> parsed_number(seq!['+'] + decimal(n), max) == Some(n),
        n > max ==> parsed_number(decimal(n), max) is None,
        n > 0 ==> decimal(n)[0] != '0',
{
    lemma_decimal(n);
    assert(is_digit(decimal(n)[0]));
    assert((seq!['+'] + decimal(n)).skip(1) =~= decimal(n));
}

/// Law: what holds anything but digits, the sign aside, is no number, and
/// neither is a sign alone nor the empty string.
pub proof fn what_is_not_digits_is_no_number(s: Seq<char>, max: nat, i: int)
    ensures
        0 < i < s.len() && !('0' <= s[i] <= '9') ==> parsed_number(s, max) is None,
        s.len() > 0 && !('0' <= s[0] <= '9') && s[0] != '+' ==> parsed_number(s, max) is None,
        s == seq!['+'] ==> parsed_number(s, max) is None,
        s.len() == 0 ==> parsed_number(s, max) is None,
{
    if 0 < i < s.len() && !('0' <= s[i] <= '9') {
        if s.len() > 1 && s[0] == '+' {
            assert(!is_digit(s.skip(1)[i - 1]));
        } else {
            assert(!is_digit(s[i]));
        }
    }
    if s.len() > 0 && !('0' <= s[0] <= '9') && s[0] != '+' {
        assert(!is_digit(s[0]));
    }
    if s == seq!['+'] {
        assert(!is_digit(s[0]));
    }
}

proof fn lemma_leading(w: Seq<char>, s: Seq<char>)
    requires
        forall|k: int| 0 <= k < w.len() ==> is_white_space(#[trigger] w[k]),
        s.len() == 0 || !is_white_space(s[0]),
    ensures
        without_leading(w + s) == s,
    decreases w.len(),
{
    if w.len() == 0 {
        assert(w + s =~= s);
    } else {
        assert(is_white_space((w + s)[0])) by {
            assert(is_white_space(w[0]));
        }
        let v = w.skip(1);
        assert forall|k: int| 0 <= k < v.len() implies is_white_space(#[trigger] v[k]) by {
            assert(is_white_space(w[k + 1]));
        }
        lemma_leading(v, s);
        assert((w + s).skip(1) =~= v + s);
    }
}

proof fn lemma_trailing(s: Seq<char>, w: Seq<char>)
    requires
        forall|k: int| 0 <= k < w.len() ==> is_white_space(#[trigger] w[k]),
        s.len() == 0 || !is_white_space(s.last()),
    ensures
        without_trailing(s + w) == s,
    decreases w.len(),
{
    if w.len() == 0 {
        assert(s + w =~= s);
    } else {
        assert((s + w).last() == w.last());
        assert(is_white_space(w[w.len() - 1]));
        let v = w.drop_last();
        assert forall|k: int| 0 <= k < v.len() implies is_white_space(#[trigger] v[k]) by {
            assert(is_white_space(w[k]));
        }
        lemma_trailing(s, v);
        assert((s + w).drop_last() =~= s + v);
    }
}

/// Law: white space at either end goes, and nothing else does: a text that
/// begins and ends with something else is left as it is, whatever it holds in
/// between.
pub proof fn only_the_white_space_at_the_ends_goes(a: Seq<char>, s: Seq<char>, b: Seq<char>)
    requires
        forall|k: int| 0 <= k < a.len() ==> is_white_space(#[trigger] a[k]),
        forall|k: int| 0 <= k < b.len() ==> is_white_space(#[trigger] b[k]),
        s.len() > 0,
        !is_white_space(s[0]),
        !is_white_space(s.last()),
    ensures
        trimmed(a + (s + b)) == s,
{
    lemma_leading(a, s + b);
    lemma_trailing(s, b);
}

/// Law: the blank, the tab and the ends of lines are white space; digits,
/// letters and punctuation are not.
pub proof fn white_space_is_what_it_looks_like(c: char)
    ensures
        is_white_space(' ') && is_white_space('\t') && is_white_space('\n') && is_white_space(
            '\r',
        ),
        '!' <= c <= '~' ==> !is_white_space(c),
{
}

/// Law: the last part of a divided string is what follows the last divider, and
/// a string that nothing divides is its own last part.
pub proof fn the_last_part_follows_the_last_divider(a: Seq<char>, c: char, b: Seq<char>)
    requires
        forall|k: int| 0 <= k < b.len() ==> b[k] != c,
    ensures
        behind_last(a + (seq![c] + b), c) == b,
        behind_last(b, c) == b,
{
    let s = a + (seq![c] + b);
    lemma_behind_last(s, c, (a.len() + 1) as int);
    assert(s.skip((a.len() + 1) as int) =~= b);
    lemma_behind_last(b, c, 0);
    assert(b.skip(0) =~= b);
}

/// Law: the first part of a divided string is what stands before the first
/// divider; dividers ahead of it are passed over.
pub proof fn the_first_part_stands_before_the_divider(n: nat, a: Seq<char>, c: char, b: Seq<char>)
    requires
        a.len() > 0,
        forall|k: int| 0 <= k < a.len() ==> a[k] != c,
    ensures
        first_part(Seq::new(n, |i: int| c) + (a + (seq![c] + b)), c) == a,
        first_part(Seq::new(n, |i: int| c) + a, c) == a,
    decreases n,
{
    let lead = Seq::new(n, |i: int| c);
    let s = a + (seq![c] + b);
    if n == 0 {
        assert(lead + s =~= s);
        assert(lead + a =~= a);
        lemma_until(s, c, a.len() as int);
        assert(s.take(a.len() as int) =~= a);
        lemma_until(a, c, a.len() as int);
        assert(a.take(a.len() as int) =~= a);
    } else {
        let less = (n - 1) as nat;
        the_first_part_stands_before_the_divider(less, a, c, b);
        assert((lead + s).skip(1) =~= Seq::new(less, |i: int| c) + s);
        assert((lead + a).skip(1) =~= Seq::new(less, |i: int| c) + a);
        assert((lead + s)[0] == c);
        assert((lead + a)[0] == c);
    }
}

} // verus!
