//! Parsing of the tab-width setting.
//!
//! The width must be a positive integer. Anything else is a configuration
//! error that the caller is expected to treat as fatal, before any file is
//! touched: a width of zero (or a negative one) would make the transforms
//! loop uselessly or drop whitespace outright.

use vstd::prelude::*;

verus! {

/// A configuration value that cannot be used.
#[derive(Clone, Copy, PartialEq, Eq, Structural, Debug)]
pub enum ConfigError {
    /// The width text did not parse as a positive integer that fits `i32`.
    InvalidWidth,
}

pub open spec fn is_decimal_digit(c: char) -> bool {
    '0' as int <= c as int && c as int <= '9' as int
}

pub open spec fn digit_value(c: char) -> int {
    c as int - '0' as int
}

pub open spec fn all_decimal_digits(s: Seq<char>) -> bool {
    forall|i: int| 0 <= i < s.len() ==> is_decimal_digit(#[trigger] s[i])
}

/// Numeric value of a sequence of decimal digits, most significant first.
pub open spec fn decimal_value(s: Seq<char>) -> int
    decreases s.len(),
{
    if s.len() == 0 {
        0
    } else {
        decimal_value(s.drop_last()) * 10 + digit_value(s.last())
    }
}

pub proof fn lemma_all_digits_take(s: Seq<char>, i: int)
    requires
        all_decimal_digits(s),
        0 <= i <= s.len(),
    ensures
        all_decimal_digits(s.take(i)),
{
    assert forall|j: int| 0 <= j < s.take(i).len() implies is_decimal_digit(
        #[trigger] s.take(i)[j],
    ) by {
        assert(s.take(i)[j] == s[j]);
    }
}

pub proof fn lemma_decimal_value_nonneg(s: Seq<char>)
    requires
        all_decimal_digits(s),
    ensures
        decimal_value(s) >= 0,
    decreases s.len(),
{
    if s.len() > 0 {
        assert forall|j: int| 0 <= j < s.drop_last().len() implies is_decimal_digit(
            #[trigger] s.drop_last()[j],
        ) by {
            assert(s.drop_last()[j] == s[j]);
        }
        lemma_decimal_value_nonneg(s.drop_last());
        assert(is_decimal_digit(s.last()));
    }
}

/// Appending digits never makes the value smaller: the value of a prefix is
/// a lower bound for the value of the whole.
pub proof fn lemma_decimal_value_prefix_le(s: Seq<char>, i: int)
    requires
        all_decimal_digits(s),
        0 <= i <= s.len(),
    ensures
        decimal_value(s.take(i)) <= decimal_value(s),
    decreases s.len() - i,
{
    if i < s.len() {
        lemma_decimal_value_prefix_le(s, i + 1);
        assert(s.take(i + 1).drop_last() =~= s.take(i));
        assert(s.take(i + 1).last() == s[i]);
        lemma_all_digits_take(s, i);
        lemma_decimal_value_nonneg(s.take(i));
        assert(is_decimal_digit(s[i]));
        assert(decimal_value(s.take(i + 1)) == decimal_value(s.take(i)) * 10 + digit_value(s[i]));
    } else {
        assert(s.take(i) =~= s);
    }
}

/// Parse the tab width: a non-empty string of decimal digits whose value is
/// at least 1 and fits `i32`. Exactly the other inputs are rejected.
pub fn parse_width(s: &str) -> (r: Result<i32, ConfigError>)
    ensures
        r is Ok <==> (s@.len() > 0 && all_decimal_digits(s@) && 1 <= decimal_value(s@)
            <= i32::MAX),
        r is Ok ==> r->Ok_0 as int == decimal_value(s@),
{
    let len: usize = s.unicode_len();
    if len == 0 {
        return Err(ConfigError::InvalidWidth);
    }
    let mut acc: u64 = 0;
    let mut i: usize = 0;
    while i < len
        invariant
            i <= len,
            len == s@.len(),
            all_decimal_digits(s@.take(i as int)),
            acc as int == decimal_value(s@.take(i as int)),
            acc <= i32::MAX as u64,
        decreases len - i,
    {
        let c = s.get_char(i);
        let u: u32 = c as u32;
        if u < '0' as u32 || u > '9' as u32 {
            assert(!is_decimal_digit(s@[i as int]));
            return Err(ConfigError::InvalidWidth);
        }
        let d: u64 = (u - '0' as u32) as u64;
        let next: u64 = acc * 10 + d;
        proof {
            assert(s@.take(i + 1 as int).drop_last() =~= s@.take(i as int));
            assert(s@.take(i + 1 as int).last() == s@[i as int]);
            assert(all_decimal_digits(s@.take(i + 1 as int))) by {
                assert forall|j: int| 0 <= j < i + 1 implies is_decimal_digit(
                    #[trigger] s@.take(i + 1 as int)[j],
                ) by {
                    assert(s@.take(i + 1 as int)[j] == s@[j]);
                }
            }
            assert(decimal_value(s@.take(i + 1 as int)) == next as int);
        }
        if next > i32::MAX as u64 {
            proof {
                if all_decimal_digits(s@) {
                    lemma_decimal_value_prefix_le(s@, i + 1 as int);
                }
            }
            return Err(ConfigError::InvalidWidth);
        }
        acc = next;
        i = i + 1;
    }
    proof {
        assert(s@.take(len as int) =~= s@);
    }
    if acc == 0 {
        return Err(ConfigError::InvalidWidth);
    }
    Ok(acc as i32)
}

} // verus!
