//! Character-level helpers shared by the services: searching for a
//! character, and decimal numerals in both directions.

use vstd::prelude::*;
use vstd::string::*;

verus! {

/// The characters of `s`, in order.
pub fn chars_of(s: &str) -> (v: Vec<char>)
    ensures
        v@ == s@,
{
    let mut v: Vec<char> = Vec::new();
    for c in it: s.chars()
        invariant
            v@ == it.seq().take(it.index() as int),
            it.seq() == s@,
    {
        v.push(c);
    }
    v
}

/// The smallest index `k >= i` at which `s` holds `c`.
pub open spec fn first_index_from(s: Seq<char>, c: char, i: int) -> Option<int>
    decreases s.len() - i,
{
    if i < 0 || i >= s.len() {
        None
    } else if s[i] == c {
        Some(i)
    } else {
        first_index_from(s, c, i + 1)
    }
}

/// The largest index `k < i` at which `s` holds `c`.
pub open spec fn last_index_before(s: Seq<char>, c: char, i: int) -> Option<int>
    decreases i,
{
    if i <= 0 || i > s.len() {
        None
    } else if s[i - 1] == c {
        Some(i - 1)
    } else {
        last_index_before(s, c, i - 1)
    }
}

/// The first index of `c` in `s`, as `str::find` reports it (counted in characters).
pub open spec fn first_index(s: Seq<char>, c: char) -> Option<int> {
    first_index_from(s, c, 0)
}

/// The last index of `c` in `s`, as `str::rfind` reports it (counted in characters).
pub open spec fn last_index(s: Seq<char>, c: char) -> Option<int> {
    last_index_before(s, c, s.len() as int)
}

/// A found index lies in range, holds `c`, and nothing between the start and it holds `c`.
pub proof fn lemma_first_index_from(s: Seq<char>, c: char, i: int)
    requires
        0 <= i,
    ensures
        first_index_from(s, c, i) matches Some(k) ==> i <= k < s.len() && s[k] == c
            && forall|j: int| i <= j < k ==> s[j] != c,
        first_index_from(s, c, i) is None ==> forall|j: int| i <= j < s.len() ==> s[j] != c,
    decreases s.len() - i,
{
    if i < s.len() && s[i] != c {
        lemma_first_index_from(s, c, i + 1);
    }
}

/// A found index lies in range, holds `c`, and nothing after it (below `i`) holds `c`.
pub proof fn lemma_last_index_before(s: Seq<char>, c: char, i: int)
    requires
        i <= s.len(),
    ensures
        last_index_before(s, c, i) matches Some(k) ==> 0 <= k < i && s[k] == c
            && forall|j: int| k < j < i ==> s[j] != c,
        last_index_before(s, c, i) is None ==> forall|j: int| 0 <= j < i ==> s[j] != c,
    decreases i,
{
    if i > 0 && s[i - 1] != c {
        lemma_last_index_before(s, c, i - 1);
    }
}

/// Searches `s` for `c`, starting at `from`.
pub fn find_char_from(s: &Vec<char>, c: char, from: usize) -> (r: Option<usize>)
    ensures
        r matches Some(k) ==> first_index_from(s@, c, from as int) == Some(k as int),
        r is None ==> first_index_from(s@, c, from as int) is None,
{
    let mut i = from;
    while i < s.len()
        invariant
            from <= i,
            first_index_from(s@, c, from as int) == first_index_from(s@, c, i as int),
        decreases s.len() - i,
    {
        if s[i] == c {
            return Some(i);
        }
        i = i + 1;
    }
    None
}

/// Searches `s` backwards for `c`.
pub fn rfind_char(s: &Vec<char>, c: char) -> (r: Option<usize>)
    ensures
        r matches Some(k) ==> last_index(s@, c) == Some(k as int),
        r is None ==> last_index(s@, c) is None,
{
    let mut i = s.len();
    while i > 0
        invariant
            i <= s.len(),
            last_index(s@, c) == last_index_before(s@, c, i as int),
        decreases i,
    {
        if s[i - 1] == c {
            return Some(i - 1);
        }
        i = i - 1;
    }
    None
}

/// The character of the decimal digit `d`.
pub open spec fn digit_char(d: int) -> char {
    seq!['0', '1', '2', '3', '4', '5', '6', '7', '8', '9'][d]
}

/// The decimal numeral of `n`, with no sign and no leading zeros
/// (how `Display` and `Debug` write an unsigned integer).
pub open spec fn decimal(n: nat) -> Seq<char>
    decreases n,
{
    if n < 10 {
        seq![digit_char(n as int)]
    } else {
        decimal(n / 10).push(digit_char((n % 10) as int))
    }
}

fn digit_str(d: u64) -> (s: &'static str)
    requires
        d < 10,
    ensures
        s@ == seq![digit_char(d as int)],
{
    let digits = "0123456789";
    proof {
        reveal_strlit("0123456789");
    }
    let r = digits.substring_char(d as usize, (d + 1) as usize);
    assert(r@ =~= seq![digit_char(d as int)]);
    r
}

/// Writes `n` in decimal.
pub fn decimal_string(n: u64) -> (s: String)
    ensures
        s@ == decimal(n as nat),
    decreases n,
{
    let last = digit_str(n % 10);
    if n < 10 {
        String::from_str(last)
    } else {
        let mut s = decimal_string(n / 10);
        s.append(last);
        s
    }
}

/// `c` is one of the ten decimal digits.
pub open spec fn is_digit(c: char) -> bool {
    '0' <= c <= '9'
}

/// The value of the decimal digit `c`.
pub open spec fn digit_value(c: char) -> int {
    c as int - '0' as int
}

/// The value of a string of decimal digits, most significant first.
pub open spec fn numeral_value(s: Seq<char>) -> int
    decreases s.len(),
{
    if s.len() == 0 {
        0
    } else {
        numeral_value(s.drop_last()) * 10 + digit_value(s.last())
    }
}

/// `s` is a numeral in canonical form: digits only, at least one, and no
/// leading zero unless it is the numeral of zero itself.
pub open spec fn is_canonical_numeral(s: Seq<char>) -> bool {
    &&& s.len() >= 1
    &&& forall|i: int| 0 <= i < s.len() ==> is_digit(#[trigger] s[i])
    &&& s[0] == '0' ==> s.len() == 1
}

proof fn lemma_digit_char(d: int)
    requires
        0 <= d < 10,
    ensures
        is_digit(digit_char(d)),
        digit_value(digit_char(d)) == d,
{
}

proof fn lemma_digit_char_of_value(c: char)
    requires
        is_digit(c),
    ensures
        0 <= digit_value(c) < 10,
        digit_char(digit_value(c)) == c,
{
}

/// The decimal numeral of `n` is canonical, and its value is `n`.
pub proof fn lemma_decimal_canonical(n: nat)
    ensures
        is_canonical_numeral(decimal(n)),
        numeral_value(decimal(n)) == n,
    decreases n,
{
    if n < 10 {
        lemma_digit_char(n as int);
        assert(decimal(n).drop_last() =~= Seq::<char>::empty());
        assert(numeral_value(decimal(n).drop_last()) == 0);
    } else {
        lemma_decimal_canonical(n / 10);
        lemma_digit_char((n % 10) as int);
        let t = decimal(n / 10);
        let s = decimal(n);
        assert(s.drop_last() =~= t);
        assert(s[0] == t[0]);
        assert(s.last() == digit_char((n % 10) as int));
        assert(numeral_value(s) == numeral_value(t) * 10 + (n % 10));
        if t[0] == '0' {
            assert(t.len() == 1);
            assert(t.drop_last() =~= Seq::<char>::empty());
            assert(t.last() == t[0]);
            assert(numeral_value(t.drop_last()) == 0);
            assert(numeral_value(t) == 0);
            assert(n / 10 == 0);
        }
        assert forall|i: int| 0 <= i < s.len() implies is_digit(#[trigger] s[i]) by {
            if i < t.len() {
                assert(s[i] == t[i]);
            }
        }
    }
}

proof fn lemma_value_nonneg(s: Seq<char>)
    requires
        forall|i: int| 0 <= i < s.len() ==> is_digit(#[trigger] s[i]),
    ensures
        numeral_value(s) >= 0,
    decreases s.len(),
{
    if s.len() > 0 {
        let t = s.drop_last();
        assert forall|i: int| 0 <= i < t.len() implies is_digit(#[trigger] t[i]) by {
            assert(t[i] == s[i]);
        }
        lemma_value_nonneg(t);
        assert(is_digit(s[s.len() - 1]));
    }
}

proof fn lemma_value_leading_nonzero(s: Seq<char>)
    requires
        s.len() >= 1,
        forall|i: int| 0 <= i < s.len() ==> is_digit(#[trigger] s[i]),
        s[0] != '0',
    ensures
        numeral_value(s) >= 1,
    decreases s.len(),
{
    let t = s.drop_last();
    assert forall|i: int| 0 <= i < t.len() implies is_digit(#[trigger] t[i]) by {
        assert(t[i] == s[i]);
    }
    assert(is_digit(s[s.len() - 1]));
    if s.len() == 1 {
        assert(t.len() == 0);
        assert(numeral_value(t) == 0);
        assert(s.last() == s[0]);
    } else {
        assert(t[0] == s[0]);
        lemma_value_leading_nonzero(t);
        assert(digit_value(s.last()) >= 0);
    }
}

/// Every value of a digit string is at least the value of any of its prefixes.
proof fn lemma_value_prefix(s: Seq<char>, k: int)
    requires
        0 <= k <= s.len(),
        forall|i: int| 0 <= i < s.len() ==> is_digit(#[trigger] s[i]),
    ensures
        numeral_value(s.take(k)) <= numeral_value(s),
    decreases s.len(),
{
    if k < s.len() {
        let t = s.drop_last();
        assert forall|i: int| 0 <= i < t.len() implies is_digit(#[trigger] t[i]) by {
            assert(t[i] == s[i]);
        }
        lemma_value_prefix(t, k);
        assert(t.take(k) =~= s.take(k));
        lemma_value_nonneg(t);
        assert(is_digit(s[s.len() - 1]));
    } else {
        assert(s.take(k) =~= s);
    }
}

/// A canonical numeral is the decimal numeral of its value.
pub proof fn lemma_canonical_decimal(s: Seq<char>)
    requires
        is_canonical_numeral(s),
    ensures
        numeral_value(s) >= 0,
        decimal(numeral_value(s) as nat) == s,
    decreases s.len(),
{
    lemma_value_nonneg(s);
    let t = s.drop_last();
    let c = s.last();
    assert(is_digit(s[s.len() - 1]));
    lemma_digit_char_of_value(c);
    if s.len() == 1 {
        assert(t.len() == 0);
        assert(decimal(numeral_value(s) as nat) =~= s);
    } else {
        assert(t[0] == s[0]);
        assert forall|i: int| 0 <= i < t.len() implies is_digit(#[trigger] t[i]) by {
            assert(t[i] == s[i]);
        }
        lemma_canonical_decimal(t);
        lemma_value_leading_nonzero(t);
        let v = numeral_value(t);
        let d = digit_value(c);
        assert(numeral_value(s) == v * 10 + d);
        assert((v * 10 + d) / 10 == v);
        assert((v * 10 + d) % 10 == d);
        assert(numeral_value(s) >= 10);
        assert(decimal(numeral_value(s) as nat) =~= t.push(c));
        assert(t.push(c) =~= s);
    }
}

/// Distinct numbers have distinct decimal numerals.
pub proof fn lemma_decimal_injective(a: nat, b: nat)
    ensures
        decimal(a) == decimal(b) ==> a == b,
{
    lemma_decimal_canonical(a);
    lemma_decimal_canonical(b);
}

/// Reads a canonical decimal numeral; `None` when `s` is the numeral of no `u64`.
pub fn parse_decimal(s: &Vec<char>) -> (r: Option<u64>)
    ensures
        r matches Some(n) ==> decimal(n as nat) == s@,
        r is None ==> forall|n: nat| n <= u64::MAX ==> decimal(n) != s@,
{
    if s.len() == 0 {
        proof {
            assert forall|n: nat| n <= u64::MAX implies decimal(n) != s@ by {
                lemma_decimal_canonical(n);
            }
        }
        return None;
    }
    if s[0] == '0' && s.len() > 1 {
        proof {
            assert forall|n: nat| n <= u64::MAX implies decimal(n) != s@ by {
                lemma_decimal_canonical(n);
            }
        }
        return None;
    }
    let mut acc: u64 = 0;
    let mut i: usize = 0;
    while i < s.len()
        invariant
            i <= s.len(),
            s@.len() >= 1,
            s@[0] == '0' ==> s@.len() == 1,
            forall|j: int| 0 <= j < i ==> is_digit(#[trigger] s@[j]),
            acc == numeral_value(s@.take(i as int)),
        decreases s.len() - i,
    {
        let c = s[i];
        if !('0' <= c && c <= '9') {
            proof {
                assert forall|n: nat| n <= u64::MAX implies decimal(n) != s@ by {
                    lemma_decimal_canonical(n);
                    if decimal(n) == s@ {
                        assert(is_digit(s@[i as int]));
                    }
                }
            }
            return None;
        }
        let d = (c as u32 - '0' as u32) as u64;
        assert(s@.take(i + 1).drop_last() =~= s@.take(i as int));
        assert(s@.take(i + 1).last() == c);
        if acc > (u64::MAX - d) / 10 {
            proof {
                assert(numeral_value(s@.take(i + 1)) == acc * 10 + d);
                assert(acc * 10 + d > u64::MAX);
                assert forall|n: nat| n <= u64::MAX implies decimal(n) != s@ by {
                    lemma_decimal_canonical(n);
                    if decimal(n) == s@ {
                        lemma_value_prefix(s@, i + 1);
                    }
                }
            }
            return None;
        }
        acc = acc * 10 + d;
        i = i + 1;
    }
    proof {
        assert(s@.take(s@.len() as int) =~= s@);
        lemma_canonical_decimal(s@);
    }
    Some(acc)
}

} // verus!
