//! Big-endian integers on the wire, and the byte-vector helpers that write them.
use vstd::prelude::*;

verus! {

/// The two bytes that carry `n` modulo 65536, most significant first.
pub open spec fn be16(n: nat) -> Seq<u8> {
    seq![(n / 256 % 256) as u8, (n % 256) as u8]
}

/// The number that two bytes carry, most significant first.
pub open spec fn be16_value(high: u8, low: u8) -> nat {
    (high * 256 + low) as nat
}

/// The four bytes of a 32-bit number, most significant first.
pub open spec fn be32(n: u32) -> Seq<u8> {
    seq![
        (n / 16777216) as u8,
        (n / 65536 % 256) as u8,
        (n / 256 % 256) as u8,
        (n % 256) as u8,
    ]
}

/// The number that four bytes carry, most significant first.
pub open spec fn be32_value(b0: u8, b1: u8, b2: u8, b3: u8) -> u32 {
    (b0 * 16777216 + b1 * 65536 + b2 * 256 + b3) as u32
}

/// Reading back the two bytes of a number gives the number modulo 65536.
pub proof fn law_be16_round_trip(n: nat)
    ensures
        be16(n).len() == 2,
        be16_value(be16(n)[0], be16(n)[1]) == n % 65536,
{
    assert(n / 256 % 256 * 256 + n % 256 == n % 65536);
}

/// Reading back the four bytes of a number gives the number.
pub proof fn law_be32_round_trip(n: u32)
    ensures
        be32(n).len() == 4,
        be32_value(be32(n)[0], be32(n)[1], be32(n)[2], be32(n)[3]) == n,
{
}

/// Appends `bytes` to `out`.
pub fn put_bytes(out: &mut Vec<u8>, bytes: &[u8])
    ensures
        final(out)@ == old(out)@ + bytes@,
{
    out.extend_from_slice(bytes);
    assert(out@ =~= old(out)@ + bytes@);
}

/// Appends the low sixteen bits of `n`, most significant byte first.
pub fn put_be16(out: &mut Vec<u8>, n: usize)
    ensures
        final(out)@ == old(out)@ + be16(n as nat),
{
    out.push((n / 256 % 256) as u8);
    out.push((n % 256) as u8);
    assert(out@ =~= old(out)@ + be16(n as nat));
}

/// Appends `n`, most significant byte first.
pub fn put_be32(out: &mut Vec<u8>, n: u32)
    ensures
        final(out)@ == old(out)@ + be32(n),
{
    out.push((n / 16777216) as u8);
    out.push((n / 65536 % 256) as u8);
    out.push((n / 256 % 256) as u8);
    out.push((n % 256) as u8);
    assert(out@ =~= old(out)@ + be32(n));
}

/// The number that two bytes carry, most significant first.
pub fn get_be16(high: u8, low: u8) -> (n: u16)
    ensures
        n as nat == be16_value(high, low),
{
    high as u16 * 256 + low as u16
}

/// The number that four bytes carry, most significant first.
pub fn get_be32(b0: u8, b1: u8, b2: u8, b3: u8) -> (n: u32)
    ensures
        n == be32_value(b0, b1, b2, b3),
{
    b0 as u32 * 16777216 + b1 as u32 * 65536 + b2 as u32 * 256 + b3 as u32
}

/// The more significant byte comes first: the two bytes weigh 256 and 1, and
/// together they make the number modulo 65536. Every pair of bytes is the pair
/// of the number it stands for.
pub proof fn law_be16_is_big_endian(n: nat, high: u8, low: u8)
    ensures
        be16(n).len() == 2,
        256 * be16(n)[0] + be16(n)[1] == n % 65536,
        be16_value(high, low) == 256 * high + low,
        be16(be16_value(high, low)) == seq![high, low],
{
    law_be16_round_trip(n);
    assert(be16(be16_value(high, low)) =~= seq![high, low]);
}

/// The most significant byte comes first: the four bytes weigh 2^24, 2^16, 2^8
/// and 1, and together they make the number. Every four bytes are those of the
/// number they stand for.
pub proof fn law_be32_is_big_endian(n: u32, b0: u8, b1: u8, b2: u8, b3: u8)
    ensures
        be32(n).len() == 4,
        16777216 * be32(n)[0] + 65536 * be32(n)[1] + 256 * be32(n)[2] + be32(n)[3] == n,
        be32_value(b0, b1, b2, b3) == 16777216 * b0 + 65536 * b1 + 256 * b2 + b3,
        be32(be32_value(b0, b1, b2, b3)) == seq![b0, b1, b2, b3],
{
    let value = be32_value(b0, b1, b2, b3);
    assert(value == 16777216 * b0 + 65536 * b1 + 256 * b2 + b3);
    assert(value / 16777216 == b0);
    assert(value / 65536 == 256 * b0 + b1);
    assert(value / 256 == 65536 * b0 + 256 * b1 + b2);
    assert(be32(value) =~= seq![b0, b1, b2, b3]);
}

} // verus!
