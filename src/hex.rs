//! Parsing of hexadecimal numbers as written in device identifiers.
use vstd::prelude::*;
use vstd::string::StringSliceAdditionalSpecFns;

verus! {

pub open spec fn is_hex_digit(b: u8) -> bool {
    (0x30 <= b <= 0x39) || (0x41 <= b <= 0x46) || (0x61 <= b <= 0x66)
}

pub open spec fn hex_digit_value(b: u8) -> nat {
    if 0x30 <= b <= 0x39 {
        (b - 0x30) as nat
    } else if 0x41 <= b <= 0x46 {
        (b - 0x41 + 10) as nat
    } else {
        (b - 0x61 + 10) as nat
    }
}

/// The number that a sequence of hex digits denotes, most significant first.
pub open spec fn hex_value(s: Seq<u8>) -> nat
    decreases s.len(),
{
    if s.len() == 0 {
        0
    } else {
        hex_value(s.drop_last()) * 16 + hex_digit_value(s.last())
    }
}

/// What remains once an optional `0x` is stripped.
pub open spec fn hex_digits_of(s: Seq<u8>) -> Seq<u8> {
    if s.len() >= 2 && s[0] == 0x30 && s[1] == 0x78 {
        s.skip(2)
    } else {
        s
    }
}

/// A 16-bit number in hex: an optional `0x`, then one or more hex digits of
/// either case whose value fits in 16 bits.
pub open spec fn parse_hex_u16(s: Seq<u8>) -> Option<u16> {
    let d = hex_digits_of(s);
    if d.len() > 0 && (forall|i: int| 0 <= i < d.len() ==> is_hex_digit(#[trigger] d[i]))
        && hex_value(d) <= 0xffff {
        Some(hex_value(d) as u16)
    } else {
        None
    }
}

proof fn lemma_hex_value_prefix(s: Seq<u8>, i: int)
    requires
        0 <= i <= s.len(),
    ensures
        hex_value(s.take(i)) <= hex_value(s),
    decreases s.len(),
{
    if i < s.len() {
        assert(s.drop_last().take(i) =~= s.take(i));
        lemma_hex_value_prefix(s.drop_last(), i);
    } else {
        assert(s.take(i) =~= s);
    }
}

fn hex_digit(b: u8) -> (r: Option<u32>)
    ensures
        r is Some <==> is_hex_digit(b),
        r is Some ==> r->0 == hex_digit_value(b),
{
    if 0x30 <= b && b <= 0x39 {
        Some((b - 0x30) as u32)
    } else if 0x41 <= b && b <= 0x46 {
        Some((b - 0x41 + 10) as u32)
    } else if 0x61 <= b && b <= 0x66 {
        Some((b - 0x61 + 10) as u32)
    } else {
        None
    }
}

/// Parses `b[start..end]` as a 16-bit hex number.
pub fn parse_hex_u16_in(b: &[u8], start: usize, end: usize) -> (r: Option<u16>)
    requires
        start <= end <= b@.len(),
    ensures
        r == parse_hex_u16(b@.subrange(start as int, end as int)),
{
    let ghost s = b@.subrange(start as int, end as int);
    let mut i: usize = start;
    if end - start >= 2 && b[start] == 0x30 && b[start + 1] == 0x78 {
        i = start + 2;
    }
    let ghost d = hex_digits_of(s);
    assert(d =~= b@.subrange(i as int, end as int));
    if i == end {
        return None;
    }
    let first: usize = i;
    let mut acc: u32 = 0;
    while i < end
        invariant
            first <= i <= end <= b@.len(),
            start <= end,
            s == b@.subrange(start as int, end as int),
            d == hex_digits_of(s),
            d.len() > 0,
            d =~= b@.subrange(first as int, end as int),
            acc <= 0xffff,
            acc == hex_value(d.take(i - first)),
            forall|j: int| 0 <= j < i - first ==> is_hex_digit(#[trigger] d[j]),
        decreases end - i,
    {
        assert(d[i - first] == b@[i as int]);
        let v = match hex_digit(b[i]) {
            Some(v) => v,
            None => {
                assert(!is_hex_digit(d[i - first]));
                return None;
            },
        };
        assert(d.take(i - first + 1).drop_last() =~= d.take(i - first));
        assert(d.take(i - first + 1).last() == d[i - first]);
        acc = acc * 16 + v;
        i = i + 1;
        if acc > 0xffff {
            proof {
                lemma_hex_value_prefix(d, i - first);
            }
            return None;
        }
    }
    assert(d.take(i - first) =~= d);
    Some(acc as u16)
}

/// Types that can be read from a hexadecimal string.
pub trait FromHex: Sized {
    /// The value that `s` denotes, if it is a valid hex number of the type.
    spec fn spec_from_hex(s: Seq<u8>) -> Option<Self>;

    fn from_hex(hex: &str) -> (r: Option<Self>)
        ensures
            r == Self::spec_from_hex(hex.spec_bytes()),
    ;
}

impl FromHex for u16 {
    open spec fn spec_from_hex(s: Seq<u8>) -> Option<u16> {
        parse_hex_u16(s)
    }

    fn from_hex(hex: &str) -> (r: Option<u16>) {
        let b = hex.as_bytes();
        proof {
            assert(b@.subrange(0, b@.len() as int) =~= b@);
        }
        parse_hex_u16_in(b, 0, b.len())
    }
}

/// `t` is `s` with some lower-case hex letters written in upper case.
pub open spec fn upper_cased(s: Seq<u8>, t: Seq<u8>) -> bool {
    &&& s.len() == t.len()
    &&& forall|i: int|
        0 <= i < s.len() ==> (#[trigger] t[i] == s[i] || (0x61 <= s[i] <= 0x66 && t[i] == s[i]
            - 0x20))
}

proof fn lemma_upper_cased_digits(s: Seq<u8>, t: Seq<u8>)
    requires
        upper_cased(s, t),
    ensures
        (forall|i: int| 0 <= i < s.len() ==> is_hex_digit(#[trigger] s[i])) <==> (forall|i: int|
            0 <= i < t.len() ==> is_hex_digit(#[trigger] t[i])),
        (forall|i: int| 0 <= i < s.len() ==> is_hex_digit(#[trigger] s[i])) ==> hex_value(s)
            == hex_value(t),
    decreases s.len(),
{
    assert forall|i: int| 0 <= i < s.len() implies is_hex_digit(#[trigger] s[i]) == is_hex_digit(
        t[i],
    ) && (is_hex_digit(s[i]) ==> hex_digit_value(s[i]) == hex_digit_value(t[i])) by {
        assert(t[i] == s[i] || (0x61 <= s[i] <= 0x66 && t[i] == s[i] - 0x20));
    }
    if s.len() > 0 {
        let (a, b) = (s.drop_last(), t.drop_last());
        assert(upper_cased(a, b)) by {
            assert forall|i: int| 0 <= i < a.len() implies (#[trigger] b[i] == a[i] || (0x61
                <= a[i] <= 0x66 && b[i] == a[i] - 0x20)) by {
                assert(t[i] == s[i] || (0x61 <= s[i] <= 0x66 && t[i] == s[i] - 0x20));
            }
        }
        lemma_upper_cased_digits(a, b);
        if forall|i: int| 0 <= i < s.len() ==> is_hex_digit(#[trigger] s[i]) {
            assert forall|i: int| 0 <= i < a.len() implies is_hex_digit(#[trigger] a[i]) by {
                assert(is_hex_digit(s[i]));
            }
            assert(is_hex_digit(s[s.len() - 1]));
        }
    }
}

/// Hex digits are read alike in either case: writing lower-case letters in
/// upper case does not change the parsed number, nor whether there is one.
pub proof fn lemma_hex_case_insensitive(s: Seq<u8>, t: Seq<u8>)
    requires
        upper_cased(s, t),
    ensures
        parse_hex_u16(s) == parse_hex_u16(t),
{
    assert forall|i: int| 0 <= i < s.len() implies (s[i] == 0x30 <==> #[trigger] t[i] == 0x30) && (
    s[i] == 0x78 <==> t[i] == 0x78) by {
        assert(t[i] == s[i] || (0x61 <= s[i] <= 0x66 && t[i] == s[i] - 0x20));
    }
    let (ds, dt) = (hex_digits_of(s), hex_digits_of(t));
    let p: int = if s.len() >= 2 && s[0] == 0x30 && s[1] == 0x78 {
        2
    } else {
        0
    };
    if s.len() >= 2 {
        assert(t[0] == 0x30 <==> s[0] == 0x30);
        assert(t[1] == 0x78 <==> s[1] == 0x78);
    }
    let q: int = p;
    assert(ds =~= s.skip(q));
    assert(dt =~= t.skip(q));
    assert(upper_cased(ds, dt)) by {
        assert forall|i: int| 0 <= i < ds.len() implies (#[trigger] dt[i] == ds[i] || (0x61
            <= ds[i] <= 0x66 && dt[i] == ds[i] - 0x20)) by {
            assert(t[i + q] == s[i + q] || (0x61 <= s[i + q] <= 0x66 && t[i + q] == s[i + q]
                - 0x20));
        }
    }
    lemma_upper_cased_digits(ds, dt);
}

/// A leading `0x` is ignored, unless what follows starts with another `0x`.
pub proof fn lemma_hex_prefix_ignored(s: Seq<u8>)
    requires
        !(s.len() >= 2 && s[0] == 0x30 && s[1] == 0x78),
    ensures
        parse_hex_u16(seq![0x30u8, 0x78u8] + s) == parse_hex_u16(s),
{
    let t = seq![0x30u8, 0x78u8] + s;
    assert(t.skip(2) =~= s);
    assert(hex_digits_of(t) =~= hex_digits_of(s));
}

} // verus!
