//! Decimal `u64` fields of the shard grammar.
//!
//! A shard pair names its two numbers as plain decimal digit runs. This
//! module gives the mathematical reading of such a run (`decimal_value`), an
//! executable parser proved against it, and a canonical rendering
//! (`decimal_digits`) used to state the parsing round-trip law.

use vstd::arithmetic::div_mod::{lemma_fundamental_div_mod, lemma_mod_bound};
use vstd::prelude::*;
use vstd::string::StrSliceExecFns;

verus! {

/// A decimal digit, `'0'` (code point 48) through `'9'` (code point 57).
pub open spec fn is_digit_char(c: char) -> bool {
    48 <= c as int && c as int <= 57
}

/// The numeric value of a decimal digit.
pub open spec fn digit_value(c: char) -> int {
    c as int - 48
}

/// Every character of `s` is a decimal digit.
pub open spec fn all_digits(s: Seq<char>) -> bool {
    forall|i: int| 0 <= i < s.len() ==> is_digit_char(#[trigger] s[i])
}

/// The number that the digit run `s` denotes, most significant digit first.
pub open spec fn decimal_value(s: Seq<char>) -> int
    decreases s.len(),
{
    if s.len() == 0 {
        0
    } else {
        10 * decimal_value(s.drop_last()) + digit_value(s.last())
    }
}

/// `s` is a well-formed decimal `u64`: non-empty, digits only, in range.
pub open spec fn is_u64_decimal(s: Seq<char>) -> bool {
    s.len() > 0 && all_digits(s) && decimal_value(s) <= u64::MAX
}

/// A digit run denotes a non-negative number.
pub proof fn lemma_decimal_value_nonneg(s: Seq<char>)
    requires
        all_digits(s),
    ensures
        decimal_value(s) >= 0,
    decreases s.len(),
{
    if s.len() > 0 {
        assert(forall|i: int| 0 <= i < s.len() - 1 ==> s.drop_last()[i] == #[trigger] s[i]);
        lemma_decimal_value_nonneg(s.drop_last());
    }
}

/// Extending a digit run to the right never lowers its value: the value of
/// any prefix bounds the value of the whole run from below.
pub proof fn lemma_decimal_prefix_le(s: Seq<char>, i: int)
    requires
        all_digits(s),
        0 <= i <= s.len(),
    ensures
        decimal_value(s.take(i)) <= decimal_value(s),
    decreases s.len() - i,
{
    assert(forall|j: int| 0 <= j < i ==> s.take(i)[j] == #[trigger] s[j]);
    if i == s.len() {
        assert(s.take(i) =~= s);
    } else {
        lemma_decimal_value_nonneg(s.take(i));
        assert(s.take(i + 1).drop_last() =~= s.take(i));
        assert(s.take(i + 1).last() == s[i]);
        lemma_decimal_prefix_le(s, i + 1);
    }
}

/// The digit character for `d` in `0..10`.
pub open spec fn digit_char(d: int) -> char {
    if d == 0 {
        '0'
    } else if d == 1 {
        '1'
    } else if d == 2 {
        '2'
    } else if d == 3 {
        '3'
    } else if d == 4 {
        '4'
    } else if d == 5 {
        '5'
    } else if d == 6 {
        '6'
    } else if d == 7 {
        '7'
    } else if d == 8 {
        '8'
    } else {
        '9'
    }
}

/// The canonical decimal rendering of `n`: no sign, no leading zero except
/// for `n == 0` itself.
pub open spec fn decimal_digits(n: int) -> Seq<char>
    decreases n,
{
    if n < 10 {
        seq![digit_char(n)]
    } else {
        decimal_digits(n / 10).push(digit_char(n % 10))
    }
}

/// The canonical rendering is a digit run that denotes `n` again.
pub proof fn lemma_decimal_digits_value(n: int)
    requires
        n >= 0,
    ensures
        decimal_digits(n).len() >= 1,
        all_digits(decimal_digits(n)),
        decimal_value(decimal_digits(n)) == n,
    decreases n,
{
    if n < 10 {
        let s = decimal_digits(n);
        assert(s.len() == 1);
        assert(s.last() == digit_char(n));
        assert(s.drop_last() =~= Seq::<char>::empty());
        assert(decimal_value(Seq::<char>::empty()) == 0);
        assert(decimal_value(s) == 10 * decimal_value(s.drop_last()) + digit_value(s.last()));
    } else {
        lemma_fundamental_div_mod(n, 10);
        lemma_mod_bound(n, 10);
        lemma_decimal_digits_value(n / 10);
        let p = decimal_digits(n / 10);
        let s = decimal_digits(n);
        let d = n % 10;
        assert(s == p.push(digit_char(d)));
        assert(s.drop_last() =~= p);
        assert(s.last() == digit_char(d));
        assert(digit_value(digit_char(d)) == d);
        assert(forall|i: int| 0 <= i < p.len() ==> s[i] == #[trigger] p[i]);
    }
}

/// Parses a non-empty run of decimal digits as a `u64`, exactly as the shard
/// grammar reads a field: `Some` precisely on well-formed in-range runs.
pub fn parse_u64_decimal(s: &str) -> (r: Option<u64>)
    ensures
        match r {
            Some(v) => is_u64_decimal(s@) && v as int == decimal_value(s@),
            None => !is_u64_decimal(s@),
        },
{
    let n = s.unicode_len();
    if n == 0 {
        return None;
    }
    let mut acc: u64 = 0;
    let mut i: usize = 0;
    while i < n
        invariant
            0 < n,
            n == s@.len(),
            0 <= i <= n,
            forall|j: int| 0 <= j < i ==> is_digit_char(#[trigger] s@[j]),
            acc as int == decimal_value(s@.take(i as int)),
        decreases n - i,
    {
        let c = s.get_char(i);
        let u = c as u32;
        if u < 48 || u > 57 {
            assert(!is_digit_char(s@[i as int]));
            return None;
        }
        let d = (u - 48) as u64;
        proof {
            assert(s@.take(i as int + 1).drop_last() =~= s@.take(i as int));
            assert(s@.take(i as int + 1).last() == s@[i as int]);
            assert(decimal_value(s@.take(i as int + 1)) == 10 * (acc as int) + d as int);
            lemma_fundamental_div_mod((u64::MAX - d) as int, 10);
            lemma_mod_bound((u64::MAX - d) as int, 10);
        }
        if acc > (u64::MAX - d) / 10 {
            proof {
                assert(10 * (acc as int) + d as int > u64::MAX);
                if all_digits(s@) {
                    lemma_decimal_prefix_le(s@, i as int + 1);
                }
            }
            return None;
        }
        proof {
            assert(10 * (acc as int) + d as int <= u64::MAX);
        }
        acc = acc * 10 + d;
        i = i + 1;
    }
    proof {
        assert(s@.take(n as int) =~= s@);
    }
    Some(acc)
}

} // verus!
