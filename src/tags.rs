//! The TIFF-domain metadata of a band's tiles: the keys under which each
//! tile's offset and byte count are recorded, and the decimal text of their
//! values.
use vstd::prelude::*;

verus! {

/// The decimal digit characters, by value.
pub open spec fn digit_char(d: nat) -> char {
    seq!['0', '1', '2', '3', '4', '5', '6', '7', '8', '9'][d as int]
}

/// The decimal text of `n`, without leading zeros.
pub open spec fn decimal(n: nat) -> Seq<char>
    decreases n,
{
    if n < 10 {
        seq![digit_char(n)]
    } else {
        decimal(n / 10).push(digit_char(n % 10))
    }
}

/// Appends the decimal text of `n`.
pub fn push_decimal(s: &mut String, n: usize)
    ensures
        final(s)@ == old(s)@ + decimal(n as nat),
    decreases n,
{
    if n >= 10 {
        push_decimal(s, n / 10);
    }
    let digits = "0123456789";
    proof {
        reveal_strlit("0123456789");
    }
    let d = n % 10;
    let one = digits.substring_char(d, d + 1);
    assert(one@ =~= seq![digit_char(d as nat)]);
    s.append(one);
    assert(final(s)@ =~= old(s)@ + decimal(n as nat));
}

/// `prefix` followed by the tile coordinate, as `<prefix><x>_<y>`.
pub open spec fn tile_key(prefix: Seq<char>, x: nat, y: nat) -> Seq<char> {
    prefix + decimal(x) + seq!['_'] + decimal(y)
}

fn key_with(prefix: &str, x: usize, y: usize) -> (r: String)
    ensures
        r@ == tile_key(prefix@, x as nat, y as nat),
{
    let mut s = String::from_str(prefix);
    push_decimal(&mut s, x);
    proof {
        reveal_strlit("_");
    }
    s.append("_");
    push_decimal(&mut s, y);
    assert(s@ =~= tile_key(prefix@, x as nat, y as nat));
    s
}

/// The key of a tile's offset: `BLOCK_OFFSET_<x>_<y>`.
pub open spec fn offset_key(x: nat, y: nat) -> Seq<char> {
    tile_key(seq!['B', 'L', 'O', 'C', 'K', '_', 'O', 'F', 'F', 'S', 'E', 'T', '_'], x, y)
}

/// The key of a tile's byte count: `BLOCK_SIZE_<x>_<y>`.
pub open spec fn size_key(x: nat, y: nat) -> Seq<char> {
    tile_key(seq!['B', 'L', 'O', 'C', 'K', '_', 'S', 'I', 'Z', 'E', '_'], x, y)
}

/// The metadata key that records the offset of tile `(x, y)`.
pub fn block_offset_key(x: usize, y: usize) -> (r: String)
    ensures
        r@ == offset_key(x as nat, y as nat),
{
    proof {
        reveal_strlit("BLOCK_OFFSET_");
    }
    key_with("BLOCK_OFFSET_", x, y)
}

/// The metadata key that records the byte count of tile `(x, y)`.
pub fn block_size_key(x: usize, y: usize) -> (r: String)
    ensures
        r@ == size_key(x as nat, y as nat),
{
    proof {
        reveal_strlit("BLOCK_SIZE_");
    }
    key_with("BLOCK_SIZE_", x, y)
}

/// The metadata domain that holds the tile keys.
pub const TIFF_DOMAIN: &'static str = "TIFF";

pub open spec fn is_digit(c: char) -> bool {
    '0' <= c <= '9'
}

/// The value of a text of decimal digits.
pub open spec fn digits_value(s: Seq<char>) -> nat
    decreases s.len(),
{
    if s.len() == 0 {
        0
    } else {
        digits_value(s.drop_last()) * 10 + (s.last() as nat - '0' as nat) as nat
    }
}

/// The text after an optional leading `+`.
pub open spec fn unsigned_part(s: Seq<char>) -> Seq<char> {
    if s.len() > 0 && s[0] == '+' {
        s.drop_first()
    } else {
        s
    }
}

/// A tag value: an unsigned decimal integer, with an optional `+`, that fits in
/// 64 bits; any other text counts as 0.
pub open spec fn tag_value(s: Seq<char>) -> u64 {
    let d = unsigned_part(s);
    if d.len() > 0 && (forall|i: int| 0 <= i < d.len() ==> is_digit(#[trigger] d[i]))
        && digits_value(d) <= u64::MAX {
        digits_value(d) as u64
    } else {
        0
    }
}

proof fn lemma_digits_value_grows(s: Seq<char>, i: int)
    requires
        0 <= i <= s.len(),
        forall|k: int| 0 <= k < s.len() ==> is_digit(#[trigger] s[k]),
    ensures
        digits_value(s) >= digits_value(s.take(i)),
    decreases s.len(),
{
    if i < s.len() {
        let d = s.drop_last();
        assert(d.take(i) =~= s.take(i));
        assert forall|k: int| 0 <= k < d.len() implies is_digit(#[trigger] d[k]) by {
            assert(d[k] == s[k]);
        }
        lemma_digits_value_grows(d, i);
    } else {
        assert(s.take(i) =~= s);
    }
}

/// The value of a tile tag's text.
pub fn parse_tag_value(text: &str) -> (r: u64)
    ensures
        r == tag_value(text@),
{
    let n = text.unicode_len();
    let mut start: usize = 0;
    if n > 0 && text.get_char(0) == '+' {
        start = 1;
    }
    let ghost d = unsigned_part(text@);
    assert(d =~= text@.subrange(start as int, n as int));
    if start == n {
        return 0;
    }
    let mut value: u64 = 0;
    let mut i: usize = start;
    while i < n
        invariant
            start <= i <= n,
            n == text@.len(),
            d =~= text@.subrange(start as int, n as int),
            d == unsigned_part(text@),
            value == digits_value(d.take(i - start)),
            forall|k: int| 0 <= k < i - start ==> is_digit(#[trigger] d[k]),
        decreases n - i,
    {
        let c = text.get_char(i);
        if !('0' <= c && c <= '9') {
            assert(!is_digit(d[i - start]));
            return 0;
        }
        let digit = (c as u32 - '0' as u32) as u64;
        let ghost t = d.take(i - start + 1);
        assert(t.drop_last() =~= d.take(i - start));
        assert(t.last() == c);
        if value > (u64::MAX - digit) / 10 {
            assert(digits_value(t) > u64::MAX) by (nonlinear_arith)
                requires
                    digits_value(t) == value * 10 + digit,
                    value > (u64::MAX - digit) / 10,
                    digit <= 9,
            ;
            proof {
                if forall|k: int| 0 <= k < d.len() ==> is_digit(#[trigger] d[k]) {
                    lemma_digits_value_grows(d, i - start + 1);
                }
            }
            return 0;
        }
        assert(value * 10 + digit <= u64::MAX) by (nonlinear_arith)
            requires
                value <= (u64::MAX - digit) / 10,
                digit <= 9,
        ;
        value = value * 10 + digit;
        i = i + 1;
    }
    assert(d.take(n - start) =~= d);
    value
}

} // verus!
