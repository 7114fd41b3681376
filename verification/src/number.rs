use vstd::prelude::*;
use vstd::string::StringSliceAdditionalSpecFns;

verus! {

/// The byte `b'+'`.
pub open spec fn plus_sign() -> u8 {
    43
}

pub open spec fn is_ascii_digit(b: u8) -> bool {
    48 <= b <= 57
}

/// Every byte of `d` is an ASCII digit.
pub open spec fn all_digits(d: Seq<u8>) -> bool {
    forall|i: int| 0 <= i < d.len() ==> is_ascii_digit(#[trigger] d[i])
}

/// The number that the decimal digits `d` write, most significant first.
pub open spec fn decimal_value(d: Seq<u8>) -> int
    decreases d.len(),
{
    if d.len() == 0 {
        0
    } else {
        decimal_value(d.drop_last()) * 10 + (d.last() - 48)
    }
}

/// The digits of an unsigned number as text: what follows one optional leading `+`.
pub open spec fn digits_part(b: Seq<u8>) -> Seq<u8> {
    if b.len() > 0 && b[0] == plus_sign() {
        b.drop_first()
    } else {
        b
    }
}

/// How an unsigned integer type no greater than `max` reads the bytes `b`:
/// an optional `+`, then at least one ASCII digit and nothing else, for a
/// value that fits; anything else is refused.
pub open spec fn spec_parse_unsigned(b: Seq<u8>, max: int) -> Option<int> {
    let d = digits_part(b);
    if d.len() > 0 && all_digits(d) && decimal_value(d) <= max {
        Some(decimal_value(d))
    } else {
        None
    }
}

/// Appending digits never makes a decimal number smaller.
proof fn lemma_decimal_value_grows(d: Seq<u8>, i: int)
    requires
        0 <= i <= d.len(),
        all_digits(d),
    ensures
        0 <= decimal_value(d.take(i)) <= decimal_value(d),
    decreases d.len() - i,
{
    if i < d.len() {
        lemma_decimal_value_grows(d, i + 1);
        assert(d.take(i + 1).drop_last() =~= d.take(i));
        assert(is_ascii_digit(d[i]));
    } else {
        assert(d.take(i) =~= d);
        lemma_decimal_value_nonneg(d);
    }
}

proof fn lemma_decimal_value_nonneg(d: Seq<u8>)
    requires
        all_digits(d),
    ensures
        decimal_value(d) >= 0,
    decreases d.len(),
{
    if d.len() > 0 {
        assert(is_ascii_digit(d[d.len() - 1]));
        assert(all_digits(d.drop_last()));
        lemma_decimal_value_nonneg(d.drop_last());
    }
}

/// Reads an unsigned decimal number no greater than `max`, as `str::parse`
/// does for the unsigned integer types.
fn parse_unsigned(s: &str, max: u64) -> (r: Option<u64>)
    ensures
        match r {
            Some(v) => spec_parse_unsigned(s.spec_bytes(), max as int) == Some(v as int),
            None => spec_parse_unsigned(s.spec_bytes(), max as int) is None,
        },
{
    let bytes = s.as_bytes();
    let ghost b = bytes@;
    let n = bytes.len();
    let mut start: usize = 0;
    if n > 0 && bytes[0] == 43u8 {
        start = 1;
    }
    let ghost d = digits_part(b);
    assert(d =~= b.subrange(start as int, n as int));
    if start == n {
        return None;
    }
    let mut acc: u64 = 0;
    let mut i: usize = start;
    while i < n
        invariant
            bytes@ == b,
            b == s.spec_bytes(),
            d == digits_part(b),
            n == b.len(),
            start <= i <= n,
            d =~= b.subrange(start as int, n as int),
            all_digits(d.take(i - start)),
            acc as int == decimal_value(d.take(i - start)),
            acc <= max,
        decreases n - i,
    {
        let c = bytes[i];
        let ghost k = i - start;
        assert(d[k] == c);
        assert(d.take(k + 1).drop_last() =~= d.take(k));
        if c < 48u8 || c > 57u8 {
            assert(!all_digits(d));
            return None;
        }
        let next = match acc.checked_mul(10) {
            Some(m) => m.checked_add((c - 48u8) as u64),
            None => None,
        };
        match next {
            Some(v) if v <= max => {
                acc = v;
            },
            _ => {
                proof {
                    assert(all_digits(d.take(k + 1)));
                    if all_digits(d) {
                        lemma_decimal_value_grows(d, k + 1);
                    }
                }
                return None;
            },
        }
        i = i + 1;
    }
    assert(d.take(n - start) =~= d);
    Some(acc)
}

/// Reads a port number.
pub fn parse_u16(s: &str) -> (r: Option<u16>)
    ensures
        match r {
            Some(v) => spec_parse_unsigned(s.spec_bytes(), u16::MAX as int) == Some(v as int),
            None => spec_parse_unsigned(s.spec_bytes(), u16::MAX as int) is None,
        },
{
    match parse_unsigned(s, 0xffff) {
        Some(v) => Some(v as u16),
        None => None,
    }
}

/// Reads a 64-bit count of seconds.
pub fn parse_u64(s: &str) -> (r: Option<u64>)
    ensures
        match r {
            Some(v) => spec_parse_unsigned(s.spec_bytes(), u64::MAX as int) == Some(v as int),
            None => spec_parse_unsigned(s.spec_bytes(), u64::MAX as int) is None,
        },
{
    parse_unsigned(s, 0xffff_ffff_ffff_ffff)
}

/// Reads a size.
pub fn parse_usize(s: &str) -> (r: Option<usize>)
    ensures
        match r {
            Some(v) => spec_parse_unsigned(s.spec_bytes(), usize::MAX as int) == Some(v as int),
            None => spec_parse_unsigned(s.spec_bytes(), usize::MAX as int) is None,
        },
{
    match parse_unsigned(s, usize::MAX as u64) {
        Some(v) => Some(v as usize),
        None => None,
    }
}

} // verus!
