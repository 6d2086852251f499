//! Verified parsing of unsigned decimal integers, as `f` indices and `illum`
//! values are written in OBJ/MTL text.

use vstd::prelude::*;

verus! {

/// Whether a byte is a decimal digit.
pub open spec fn is_digit(b: u8) -> bool {
    48 <= b <= 57
}

/// Exec mirror of `is_digit`.
pub fn byte_is_digit(b: u8) -> (r: bool)
    ensures
        r == is_digit(b),
{
    48 <= b && b <= 57
}

/// Whether every byte is a decimal digit.
pub open spec fn all_digits(s: Seq<u8>) -> bool {
    forall|i: int| 0 <= i < s.len() ==> is_digit(#[trigger] s[i])
}

/// The number that a digit run denotes, most significant digit first.
pub open spec fn digits_value(s: Seq<u8>) -> nat
    decreases s.len(),
{
    if s.len() == 0 {
        0
    } else {
        (digits_value(s.take(s.len() - 1)) * 10 + (s.last() - 48)) as nat
    }
}

/// The run of digits denoting a number: the text with one optional leading
/// plus sign stripped, as the standard library's unsigned parsers accept it.
pub open spec fn digit_body(s: Seq<u8>) -> Seq<u8> {
    if s.len() > 0 && s[0] == 43 {
        s.skip(1)
    } else {
        s
    }
}

/// The unsigned number that the text denotes, bounded by `max`; `None` where
/// the text is not one optional plus sign and then one or more digits, or
/// where the number exceeds the bound.
pub open spec fn parsed_uint(s: Seq<u8>, max: nat) -> Option<nat> {
    let body = digit_body(s);
    if body.len() > 0 && all_digits(body) && digits_value(body) <= max {
        Some(digits_value(body))
    } else {
        None
    }
}

/// Parses an unsigned decimal number bounded by `usize::MAX`, exactly as
/// `str::parse::<usize>` reads non-negative decimal text.
pub fn parse_usize(s: &[u8]) -> (r: Option<usize>)
    ensures
        r matches Some(v) ==> parsed_uint(s@, usize::MAX as nat) == Some(v as nat),
        r is None ==> parsed_uint(s@, usize::MAX as nat) is None,
{
    let mut i: usize = 0;
    if s.len() > 0 && s[0] == 43 {
        i = 1;
    }
    let ghost body = digit_body(s@);
    proof {
        assert(body =~= s@.skip(i as int));
    }
    if i >= s.len() {
        return None;
    }
    let start = i;
    let mut acc: usize = 0;
    while i < s.len()
        invariant
            start <= i <= s@.len(),
            start < s@.len(),
            body == s@.skip(start as int),
            body == digit_body(s@),
            forall|j: int| start <= j < i ==> is_digit(#[trigger] s@[j]),
            acc as nat == digits_value(s@.subrange(start as int, i as int)),
        decreases s@.len() - i,
    {
        let b = s[i];
        if !byte_is_digit(b) {
            proof {
                assert(body[i - start] == s@[i as int]);
                assert(!all_digits(body));
            }
            return None;
        }
        let d = (b - 48) as usize;
        let acc10 = match acc.checked_mul(10) {
            Some(v) => v,
            None => {
                proof {
                    lemma_prefix_overflow(body, i + 1 - start, s@, start as int, i as int, acc as nat);
                }
                return None;
            },
        };
        let next = match acc10.checked_add(d) {
            Some(v) => v,
            None => {
                proof {
                    lemma_prefix_overflow(body, i + 1 - start, s@, start as int, i as int, acc as nat);
                }
                return None;
            },
        };
        acc = next;
        i = i + 1;
        proof {
            assert(s@.subrange(start as int, i as int).take(i - 1 - start as int) =~= s@.subrange(
                start as int,
                i - 1,
            ));
            assert(s@.subrange(start as int, i as int).last() == s@[i - 1]);
        }
    }
    proof {
        assert(s@.subrange(start as int, i as int) =~= body);
    }
    Some(acc)
}

/// Where the digits read so far and one more digit already denote more than
/// `usize::MAX`, the whole text denotes no number bounded by `usize::MAX`.
proof fn lemma_prefix_overflow(body: Seq<u8>, k: int, s: Seq<u8>, start: int, i: int, acc: nat)
    requires
        0 <= start <= i < s.len(),
        body == s.skip(start),
        body == digit_body(s),
        k == i + 1 - start,
        forall|j: int| start <= j <= i ==> is_digit(#[trigger] s[j]),
        acc == digits_value(s.subrange(start, i)),
        acc * 10 + (s[i] - 48) > usize::MAX,
    ensures
        parsed_uint(s, usize::MAX as nat) is None,
{
    if all_digits(body) {
        assert forall|j: int| k <= j < body.len() implies is_digit(#[trigger] body[j]) by {
            assert(body[j] == s[start + j]);
        }
        lemma_digits_value_grows(body, k);
        let pre = body.take(k);
        assert(pre.take(k - 1) =~= s.subrange(start, i));
        assert(pre.last() == s[i]);
        assert(digits_value(pre) == (acc * 10 + (s[i] - 48)) as nat);
        assert(digits_value(pre) > usize::MAX);
    }
}

/// Appending digits never shrinks the denoted number.
proof fn lemma_digits_value_grows(s: Seq<u8>, k: int)
    requires
        0 <= k <= s.len(),
        forall|j: int| k <= j < s.len() ==> is_digit(#[trigger] s[j]),
    ensures
        digits_value(s) >= digits_value(s.take(k)),
    decreases s.len() - k,
{
    if k < s.len() {
        lemma_digits_value_grows(s, k + 1);
        assert(s.take(k + 1).take(k) =~= s.take(k));
        assert(s.take(k + 1).last() == s[k]);
        assert(is_digit(s[k]));
        assert(digits_value(s.take(k + 1)) == digits_value(s.take(k)) * 10 + (s[k] - 48));
        assert(digits_value(s.take(k)) * 10 >= digits_value(s.take(k)));
    } else {
        assert(s.take(k) =~= s);
    }
}

/// Parses an unsigned decimal number bounded by `u32::MAX`, exactly as
/// `str::parse::<u32>` reads non-negative decimal text.
pub fn parse_u32(s: &[u8]) -> (r: Option<u32>)
    ensures
        r matches Some(v) ==> parsed_uint(s@, u32::MAX as nat) == Some(v as nat),
        r is None ==> parsed_uint(s@, u32::MAX as nat) is None,
{
    match parse_usize(s) {
        Some(v) => {
            if v <= 0xffff_ffffusize {
                Some(v as u32)
            } else {
                None
            }
        },
        None => {
            proof {
                let body = digit_body(s@);
                if body.len() > 0 && all_digits(body) {
                    assert(digits_value(body) > usize::MAX as nat);
                }
            }
            None
        },
    }
}

} // verus!
