//! Base-128 variable-length integers, the scalar encoding of the protobuf
//! wire format used by the RPC meta records.
use vstd::prelude::*;

verus! {

/// Wire bytes of `n` as a base-128 varint, least-significant group first,
/// high bit set on every byte but the last.
pub open spec fn spec_varint(n: nat) -> Seq<u8>
    decreases n,
{
    if n < 128 {
        seq![n as u8]
    } else {
        seq![(n % 128 + 128) as u8] + spec_varint(n / 128)
    }
}

/// Value and consumed length of the varint at the front of `s`, if one is
/// fully present.
pub open spec fn spec_varint_dec(s: Seq<u8>) -> Option<(nat, int)>
    decreases s.len(),
{
    if s.len() == 0 {
        None
    } else if s[0] < 128 {
        Some((s[0] as nat, 1))
    } else {
        match spec_varint_dec(s.drop_first()) {
            None => None,
            Some((v, c)) => Some((((s[0] - 128) + 128 * v) as nat, c + 1)),
        }
    }
}

pub proof fn lemma_varint_len(n: nat)
    ensures
        1 <= spec_varint(n).len(),
        n <= u64::MAX ==> spec_varint(n).len() <= 10,
    decreases n,
{
    if n >= 128 {
        lemma_varint_len(n / 128);
        if spec_varint(n / 128).len() >= 10 {
            lemma_varint_ge(n / 128, 9);
            lemma_pow128_unrolled();
        }
    }
}

/// The first ten powers of 128, written out.
proof fn lemma_pow128_unrolled()
    ensures
        vstd::arithmetic::power::pow(128, 1) == 0x80,
        vstd::arithmetic::power::pow(128, 9) == 0x8000000000000000,
{
    reveal(vstd::arithmetic::power::pow);
    assert(vstd::arithmetic::power::pow(128, 0) == 1);
    assert(vstd::arithmetic::power::pow(128, 1) == 128 * vstd::arithmetic::power::pow(128, 0));
    assert(vstd::arithmetic::power::pow(128, 2) == 128 * vstd::arithmetic::power::pow(128, 1));
    assert(vstd::arithmetic::power::pow(128, 3) == 128 * vstd::arithmetic::power::pow(128, 2));
    assert(vstd::arithmetic::power::pow(128, 4) == 128 * vstd::arithmetic::power::pow(128, 3));
    assert(vstd::arithmetic::power::pow(128, 5) == 128 * vstd::arithmetic::power::pow(128, 4));
    assert(vstd::arithmetic::power::pow(128, 6) == 128 * vstd::arithmetic::power::pow(128, 5));
    assert(vstd::arithmetic::power::pow(128, 7) == 128 * vstd::arithmetic::power::pow(128, 6));
    assert(vstd::arithmetic::power::pow(128, 8) == 128 * vstd::arithmetic::power::pow(128, 7));
    assert(vstd::arithmetic::power::pow(128, 9) == 128 * vstd::arithmetic::power::pow(128, 8));
}

/// A varint of more than `k >= 1` bytes encodes a value of at least 128^k.
proof fn lemma_varint_ge(n: nat, k: nat)
    requires
        1 <= k,
        spec_varint(n).len() > k,
    ensures
        n >= vstd::arithmetic::power::pow(128, k),
    decreases k,
{
    reveal(vstd::arithmetic::power::pow);
    assert(n >= 128);
    vstd::arithmetic::div_mod::lemma_fundamental_div_mod(n as int, 128);
    if k == 1 {
        lemma_pow128_unrolled();
    } else {
        lemma_varint_ge(n / 128, (k - 1) as nat);
        assert(vstd::arithmetic::power::pow(128, k) == 128 * vstd::arithmetic::power::pow(
            128,
            (k - 1) as nat,
        ));
        vstd::arithmetic::mul::lemma_mul_inequality(
            vstd::arithmetic::power::pow(128, (k - 1) as nat),
            (n / 128) as int,
            128,
        );
    }
}

/// A decoded varint consumes between one byte and the whole input.
pub proof fn lemma_varint_dec_consumed(s: Seq<u8>)
    ensures
        spec_varint_dec(s) matches Some((v, c)) ==> 1 <= c <= s.len(),
    decreases s.len(),
{
    if s.len() > 0 && s[0] >= 128 {
        lemma_varint_dec_consumed(s.drop_first());
    }
}

/// Decoding undoes encoding, whatever follows the encoded bytes.
pub proof fn lemma_varint_round_trip(n: nat, rest: Seq<u8>)
    ensures
        spec_varint_dec(spec_varint(n) + rest) == Some((n, spec_varint(n).len() as int)),
    decreases n,
{
    let s = spec_varint(n) + rest;
    if n < 128 {
        assert(s[0] == n as u8);
    } else {
        lemma_varint_round_trip(n / 128, rest);
        assert(s.drop_first() =~= spec_varint(n / 128) + rest);
        assert(s[0] == (n % 128 + 128) as u8);
        assert((s[0] - 128) + 128 * ((n / 128) as int) == n as int) by {
            assert(n % 128 + 128 * (n / 128) == n) by {
                vstd::arithmetic::div_mod::lemma_fundamental_div_mod(n as int, 128);
            }
        }
    }
}

/// Appends the varint encoding of `x` to `out`.
pub fn encode_varint(x: u64, out: &mut Vec<u8>)
    ensures
        final(out)@ == old(out)@ + spec_varint(x as nat),
{
    let ghost base = old(out)@;
    let mut n: u64 = x;
    while n >= 128
        invariant
            base + spec_varint(x as nat) =~= out@ + spec_varint(n as nat),
        decreases n,
    {
        out.push((n % 128 + 128) as u8);
        proof {
            assert(spec_varint(n as nat) == seq![(n % 128 + 128) as u8] + spec_varint(
                (n / 128) as nat,
            ));
            assert(out@ + spec_varint((n / 128) as nat) =~= base + spec_varint(x as nat));
        }
        n = n / 128;
    }
    out.push(n as u8);
    proof {
        assert(spec_varint(n as nat) =~= seq![n as u8]);
        assert(out@ =~= base + spec_varint(x as nat));
    }
}

/// Reads the varint starting at `pos`; `None` when the bytes there are no
/// complete varint or the value does not fit in 64 bits.
pub fn decode_varint(buf: &Vec<u8>, pos: usize) -> (r: Option<(u64, usize)>)
    requires
        pos <= buf@.len(),
    ensures
        match r {
            Some((v, end)) => {
                &&& pos < end <= buf@.len()
                &&& spec_varint_dec(buf@.skip(pos as int)) == Some((v as nat, end - pos))
            },
            None => match spec_varint_dec(buf@.skip(pos as int)) {
                None => true,
                Some((v, _)) => v > u64::MAX,
            },
        },
    decreases buf@.len() - pos,
{
    if pos >= buf.len() {
        assert(buf@.skip(pos as int).len() == 0);
        return None;
    }
    let b = buf[pos];
    let ghost s = buf@.skip(pos as int);
    assert(s[0] == b);
    if b < 128 {
        Some((b as u64, pos + 1))
    } else {
        proof {
            assert(s.drop_first() =~= buf@.skip(pos as int + 1));
        }
        match decode_varint(buf, pos + 1) {
            None => None,
            Some((v, end)) => {
                if v < 0x0200_0000_0000_0000u64 {
                    Some(((b - 128) as u64 + 128 * v, end))
                } else {
                    None
                }
            },
        }
    }
}

/// Big-endian bytes of a 32-bit length or magic word, as the binary frame
/// header carries them.
pub open spec fn spec_u32_be(x: u32) -> Seq<u8> {
    seq![
        (x / 0x1000000) as u8,
        ((x / 0x10000) % 256) as u8,
        ((x / 256) % 256) as u8,
        (x % 256) as u8,
    ]
}

/// Value of four big-endian bytes.
pub open spec fn spec_u32_of_be(b0: u8, b1: u8, b2: u8, b3: u8) -> u32 {
    (b0 * 0x1000000 + b1 * 0x10000 + b2 * 256 + b3) as u32
}

pub proof fn lemma_u32_be_round_trip(x: u32)
    ensures
        spec_u32_of_be(
            spec_u32_be(x)[0],
            spec_u32_be(x)[1],
            spec_u32_be(x)[2],
            spec_u32_be(x)[3],
        ) == x,
{
    assert((x / 0x1000000) * 0x1000000 + ((x / 0x10000) % 256) * 0x10000 + ((x / 256) % 256) * 256
        + x % 256 == x) by (bit_vector);
}

/// Appends the four big-endian bytes of `x` to `out`.
pub fn encode_u32_be(x: u32, out: &mut Vec<u8>)
    ensures
        final(out)@ == old(out)@ + spec_u32_be(x),
{
    out.push((x / 0x1000000) as u8);
    out.push(((x / 0x10000) % 256) as u8);
    out.push(((x / 256) % 256) as u8);
    out.push((x % 256) as u8);
    proof {
        assert(out@ =~= old(out)@ + spec_u32_be(x));
    }
}

/// Reads four big-endian bytes starting at `pos`.
pub fn decode_u32_be(buf: &Vec<u8>, pos: usize) -> (r: u32)
    requires
        pos + 4 <= buf@.len(),
    ensures
        r == spec_u32_of_be(
            buf@[pos as int],
            buf@[pos as int + 1],
            buf@[pos as int + 2],
            buf@[pos as int + 3],
        ),
{
    let len = buf.len();
    let b0 = buf[pos] as u32;
    let b1 = buf[pos + 1] as u32;
    let b2 = buf[pos + 2] as u32;
    let b3 = buf[pos + 3] as u32;
    b0 * 0x1000000 + b1 * 0x10000 + b2 * 256 + b3
}

} // verus!
