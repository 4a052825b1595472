//! Numeric coercion of token text: verified decimal integer and boolean
//! parsing, and the trusted boundary for decimal float parsing.
use vstd::prelude::*;
use vstd::string::StrSliceExecFns;

use crate::text::str_eq;

verus! {

pub open spec fn is_ascii_digit(c: char) -> bool {
    '0' <= c && c <= '9'
}

pub open spec fn digit_val(c: char) -> int {
    c as int - '0' as int
}

pub open spec fn all_digits(s: Seq<char>) -> bool {
    forall|i: int| 0 <= i < s.len() ==> is_ascii_digit(#[trigger] s[i])
}

/// The number denoted by a sequence of decimal digits, most significant
/// first.
pub open spec fn digits_value(s: Seq<char>) -> int
    decreases s.len(),
{
    if s.len() == 0 {
        0
    } else {
        digits_value(s.drop_last()) * 10 + digit_val(s.last())
    }
}

/// What standard decimal integer parsing yields on a text: an optional
/// sign, then one or more digits, and the value must fit the type.
pub open spec fn spec_parse_i32(s: Seq<char>) -> Option<i32> {
    let neg = s.len() > 0 && s[0] == '-';
    let ds = if s.len() > 0 && (s[0] == '-' || s[0] == '+') {
        s.skip(1)
    } else {
        s
    };
    if ds.len() == 0 || !all_digits(ds) {
        None
    } else if neg {
        if digits_value(ds) <= 0x8000_0000 {
            Some((-digits_value(ds)) as i32)
        } else {
            None
        }
    } else {
        if digits_value(ds) <= 0x7fff_ffff {
            Some(digits_value(ds) as i32)
        } else {
            None
        }
    }
}

proof fn lemma_digits_value_nonneg(s: Seq<char>)
    requires
        all_digits(s),
    ensures
        digits_value(s) >= 0,
    decreases s.len(),
{
    if s.len() > 0 {
        assert(all_digits(s.drop_last()));
        lemma_digits_value_nonneg(s.drop_last());
    }
}

proof fn lemma_digits_value_take_step(s: Seq<char>, k: int)
    requires
        0 <= k < s.len(),
    ensures
        digits_value(s.take(k + 1)) == digits_value(s.take(k)) * 10 + digit_val(s[k]),
{
    assert(s.take(k + 1).drop_last() =~= s.take(k));
    assert(s.take(k + 1).last() == s[k]);
}

/// A prefix of a digit string never denotes more than the whole string.
proof fn lemma_digits_value_mono(s: Seq<char>, k: int)
    requires
        all_digits(s),
        0 <= k <= s.len(),
    ensures
        digits_value(s.take(k)) <= digits_value(s),
    decreases s.len() - k,
{
    if k == s.len() {
        assert(s.take(k) =~= s);
    } else {
        lemma_digits_value_take_step(s, k);
        assert(all_digits(s.take(k)));
        lemma_digits_value_nonneg(s.take(k));
        assert(digits_value(s.take(k)) <= digits_value(s.take(k + 1)));
        lemma_digits_value_mono(s, k + 1);
    }
}

/// Standard decimal integer parsing of a string slice.
pub fn parse_i32_str(s: &str) -> (r: Option<i32>)
    ensures
        r == spec_parse_i32(s@),
{
    let n = s.unicode_len();
    let mut start: usize = 0;
    let mut neg = false;
    if n > 0 {
        let c0 = s.get_char(0);
        if c0 == '-' {
            neg = true;
            start = 1;
        } else if c0 == '+' {
            start = 1;
        }
    }
    let ghost ds = if s@.len() > 0 && (s@[0] == '-' || s@[0] == '+') {
        s@.skip(1)
    } else {
        s@
    };
    proof {
        assert(ds =~= s@.subrange(start as int, n as int));
    }
    if start == n {
        return None;
    }
    let mut i: usize = start;
    let mut acc: u64 = 0;
    while i < n
        invariant
            start <= i <= n,
            n == s@.len(),
            start <= 1,
            ds == s@.subrange(start as int, n as int),
            ds == (if s@.len() > 0 && (s@[0] == '-' || s@[0] == '+') {
                s@.skip(1)
            } else {
                s@
            }),
            neg == (s@.len() > 0 && s@[0] == '-'),
            all_digits(s@.subrange(start as int, i as int)),
            acc == digits_value(s@.subrange(start as int, i as int)),
            acc <= 0x8000_0000,
        decreases n - i,
    {
        let c = s.get_char(i);
        let cu = c as u32;
        if cu < 48 || cu > 57 {
            proof {
                assert(ds[i - start] == s@[i as int]);
                assert(!is_ascii_digit(ds[i - start]));
                assert(!all_digits(ds));
                assert(spec_parse_i32(s@) is None);
            }
            return None;
        }
        let d: u64 = (cu - 48) as u64;
        proof {
            assert(is_ascii_digit(s@[i as int]));
            assert(d == digit_val(s@[i as int]));
        }
        let new_acc: u64 = acc * 10 + d;
        proof {
            let pre = s@.subrange(start as int, i as int);
            let post = s@.subrange(start as int, i + 1 as int);
            assert(post.drop_last() =~= pre);
            assert(post.last() == s@[i as int]);
            assert(new_acc == digits_value(post));
        }
        i = i + 1;
        acc = new_acc;
        if acc > 0x8000_0000 {
            // The value can only grow as further digits arrive, so the
            // text either holds a non-digit (invalid) or denotes a value
            // out of range: both give `None`.
            proof {
                if all_digits(ds) {
                    let taken = s@.subrange(start as int, i as int);
                    assert(taken =~= ds.take(i - start));
                    lemma_digits_value_mono(ds, i - start);
                    assert(digits_value(ds) > 0x8000_0000);
                    assert(spec_parse_i32(s@) is None);
                } else {
                    assert(spec_parse_i32(s@) is None);
                }
            }
            return None;
        }
    }
    proof {
        assert(s@.subrange(start as int, n as int) =~= ds);
        assert(acc == digits_value(ds));
        assert(ds.len() > 0);
    }
    if neg {
        if acc == 0x8000_0000 {
            Some(i32::MIN)
        } else {
            Some(-(acc as i32))
        }
    } else {
        if acc <= 0x7fff_ffff {
            Some(acc as i32)
        } else {
            None
        }
    }
}

/// What standard boolean parsing yields: exactly the two canonical
/// literal forms.
pub open spec fn spec_parse_bool(s: Seq<char>) -> Option<bool> {
    if s == "true"@ {
        Some(true)
    } else if s == "false"@ {
        Some(false)
    } else {
        None
    }
}

/// Standard boolean parsing of a string slice.
pub fn parse_bool_str(s: &str) -> (r: Option<bool>)
    ensures
        r == spec_parse_bool(s@),
{
    if str_eq(s, "true") {
        Some(true)
    } else if str_eq(s, "false") {
        Some(false)
    } else {
        None
    }
}

/// What `str::parse` to a 32-bit float returns on a given text, as the
/// value's bit pattern, or `None` when the text is not a valid decimal
/// float. The result is a function of the text alone.
pub uninterp spec fn float_bits_of(s: Seq<char>) -> Option<u32>;

/// Relies on `str::parse` for 32-bit floats: standard decimal float
/// parsing, deterministic in the text; the parsed value is returned as
/// its bit pattern via `to_bits`. `glam::Vec3::splat` only fixes the
/// scalar type of the parse.
#[verifier::external_body]
pub fn parse_float_bits(s: &str) -> (r: Option<u32>)
    ensures
        r == float_bits_of(s@),
{
    match s.parse() {
        Ok(v) => Some(glam::Vec3::splat(v).x.to_bits()),
        Err(_) => None,
    }
}

} // verus!
