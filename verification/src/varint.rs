//! The variable-length integers of the Minecraft protocol: seven bits per byte, least
//! significant group first, the high bit of each byte set when another byte follows.

use vstd::prelude::*;

verus! {

/// `128` to the power `k`.
pub open spec fn pow128(k: nat) -> nat
    decreases k,
{
    if k == 0 {
        1
    } else {
        128 * pow128((k - 1) as nat)
    }
}

/// The bytes that encode `v`.
pub open spec fn varint_bytes(v: nat) -> Seq<u8>
    decreases v,
{
    if v < 128 {
        seq![v as u8]
    } else {
        seq![(v % 128 + 128) as u8] + varint_bytes(v / 128)
    }
}

/// The number that the seven-bit groups of `bytes` add up to.
pub open spec fn varint_value(bytes: Seq<u8>) -> nat
    decreases bytes.len(),
{
    if bytes.len() == 0 {
        0
    } else {
        varint_value(bytes.drop_last()) + (bytes.last() % 128) as nat * pow128(
            (bytes.len() - 1) as nat,
        )
    }
}

/// The length of the varint that starts `bytes`, looking at byte `i` on: one past the first
/// byte below 128 among the first five.
pub open spec fn varint_end(bytes: Seq<u8>, i: nat) -> Option<nat>
    decreases 5 - i,
{
    if i >= bytes.len() || i >= 5 {
        None
    } else if bytes[i as int] < 128 {
        Some(i + 1)
    } else {
        varint_end(bytes, i + 1)
    }
}

/// Why no varint could be read.
#[derive(Debug, PartialEq, Eq, Structural)]
pub enum VarIntError {
    /// The bytes end before the varint does.
    Incomplete,
    /// Five bytes all announce another one: the number is too big for 32 bits.
    TooBig,
}

/// What decoding the varint at the start of `bytes` gives: the number, kept to its low 32 bits
/// and read as an `i32`, and how many bytes it took.
pub open spec fn decode_spec(bytes: Seq<u8>) -> Result<(i32, nat), VarIntError> {
    match varint_end(bytes, 0) {
        Some(n) => Ok(
            (((varint_value(bytes.take(n as int)) % 0x1_0000_0000) as u32) as i32, n),
        ),
        None => if bytes.len() >= 5 {
            Err(VarIntError::TooBig)
        } else {
            Err(VarIntError::Incomplete)
        },
    }
}

/// Encodes an `i32` as its 32 bits read as an unsigned number.
pub fn encode(value: i32) -> (bytes: Vec<u8>)
    ensures
        bytes@ == varint_bytes((value as u32) as nat),
{
    let mut v: u32 = value as u32;
    let mut out: Vec<u8> = Vec::new();
    loop
        invariant
            out@ + varint_bytes(v as nat) == varint_bytes((value as u32) as nat),
        decreases v,
    {
        if v < 128 {
            out.push(v as u8);
            proof {
                assert(out@ =~= varint_bytes((value as u32) as nat));
            }
            return out;
        }
        let ghost before = out@;
        out.push((v % 128 + 128) as u8);
        proof {
            assert(before + varint_bytes(v as nat) =~= out@ + varint_bytes((v / 128) as nat));
        }
        v = v / 128;
    }
}

/// Decodes the varint at the start of `bytes`.
///
/// # Errors
///
/// [`VarIntError::Incomplete`] if the bytes end first, [`VarIntError::TooBig`] if the first five
/// bytes all announce another one.
pub fn decode(bytes: &[u8]) -> (res: Result<(i32, usize), VarIntError>)
    ensures
        match (res, decode_spec(bytes@)) {
            (Ok((v, n)), Ok((w, m))) => v == w && n == m,
            (Err(e), Err(f)) => e == f,
            _ => false,
        },
{
    let mut value: u64 = 0;
    let mut multiplier: u64 = 1;
    let mut i: usize = 0;
    while i < bytes.len() && i < 5
        invariant
            i <= 5,
            i <= bytes@.len(),
            multiplier == pow128(i as nat),
            value == varint_value(bytes@.take(i as int)),
            value < pow128(i as nat),
            varint_end(bytes@, 0) == varint_end(bytes@, i as nat),
        decreases 5 - i,
    {
        let b = bytes[i];
        proof {
            assert(bytes@.take(i as int + 1).drop_last() =~= bytes@.take(i as int));
            assert(pow128(i as nat + 1) == 128 * pow128(i as nat));
            lemma_pow128_bound(i as nat);
            assert((b % 128) as nat * pow128(i as nat) + value < pow128(i as nat + 1)) by (nonlinear_arith)
                requires
                    value < pow128(i as nat),
                    b % 128 < 128,
                    pow128(i as nat + 1) == 128 * pow128(i as nat),
            ;
        }
        value = value + (b % 128) as u64 * multiplier;
        if b < 128 {
            let low = (value % 4294967296) as u32;
            return Ok((low as i32, i + 1));
        }
        multiplier = multiplier * 128;
        i = i + 1;
    }
    if i == 5 {
        Err(VarIntError::TooBig)
    } else {
        Err(VarIntError::Incomplete)
    }
}

/// The value of a byte followed by more bytes.
proof fn lemma_value_cons(b: u8, rest: Seq<u8>)
    ensures
        varint_value(seq![b] + rest) == (b % 128) as nat + 128 * varint_value(rest),
    decreases rest.len(),
{
    let s = seq![b] + rest;
    if rest.len() == 0 {
        assert(s.drop_last() =~= Seq::<u8>::empty());
        assert(s.last() == b);
        assert(varint_value(Seq::<u8>::empty()) == 0);
        assert(pow128(0) == 1);
        assert(varint_value(s) == varint_value(s.drop_last()) + (b % 128) as nat * pow128(0));
    } else {
        assert(s.drop_last() =~= seq![b] + rest.drop_last());
        lemma_value_cons(b, rest.drop_last());
        let d = (rest.last() % 128) as nat;
        let p = pow128((rest.len() - 1) as nat);
        assert(pow128(rest.len() as nat) == 128 * p);
        assert(s.last() == rest.last());
        assert(s.len() - 1 == rest.len());
        assert(varint_value(s) == varint_value(s.drop_last()) + d * pow128(rest.len() as nat));
        assert(varint_value(rest) == varint_value(rest.drop_last()) + d * p);
        assert(d * (128 * p) == 128 * (d * p)) by (nonlinear_arith);
    }
}

/// The shape of an encoding: every byte but the last announces another one, and the groups add
/// up to the number.
proof fn lemma_varint_bytes_shape(v: nat)
    ensures
        varint_bytes(v).len() >= 1,
        forall|i: int| 0 <= i < varint_bytes(v).len() - 1 ==> #[trigger] varint_bytes(v)[i] >= 128,
        varint_bytes(v).last() < 128,
        varint_value(varint_bytes(v)) == v,
    decreases v,
{
    if v < 128 {
        lemma_value_cons(v as u8, Seq::empty());
        assert(seq![v as u8] + Seq::<u8>::empty() =~= varint_bytes(v));
    } else {
        lemma_varint_bytes_shape(v / 128);
        let rest = varint_bytes(v / 128);
        let b = (v % 128 + 128) as u8;
        assert(varint_bytes(v) == seq![b] + rest);
        lemma_value_cons(b, rest);
        assert forall|i: int| 0 <= i < varint_bytes(v).len() - 1 implies #[trigger] varint_bytes(
            v,
        )[i] >= 128 by {
            if i > 0 {
                assert(varint_bytes(v)[i] == rest[i - 1]);
            }
        }
        assert(varint_bytes(v).last() == rest.last());
        assert(b % 128 == v % 128);
    }
}

/// A number below `128` to the power `k` takes at most `k` bytes.
proof fn lemma_varint_len(v: nat, k: nat)
    requires
        1 <= k,
        v < pow128(k),
    ensures
        varint_bytes(v).len() <= k,
    decreases k,
{
    if v >= 128 {
        if k == 1 {
            assert(pow128(1) == 128 * pow128(0));
        } else {
            assert(pow128(k) == 128 * pow128((k - 1) as nat));
            lemma_varint_len(v / 128, (k - 1) as nat);
        }
    }
}

/// Reading the end of a well-shaped encoding from byte `i` on.
proof fn lemma_varint_end_of_shape(bytes: Seq<u8>, i: nat)
    requires
        1 <= bytes.len() <= 5,
        i < bytes.len(),
        forall|k: int| 0 <= k < bytes.len() - 1 ==> #[trigger] bytes[k] >= 128,
        bytes.last() < 128,
    ensures
        varint_end(bytes, i) == Some(bytes.len()),
    decreases bytes.len() - i,
{
    if i + 1 < bytes.len() {
        assert(bytes[i as int] >= 128);
        lemma_varint_end_of_shape(bytes, i + 1);
    }
}

/// An encoding of a 32-bit number takes one to five bytes.
pub proof fn lemma_varint_bytes_len(v: nat)
    requires
        v < 0x1_0000_0000,
    ensures
        1 <= varint_bytes(v).len() <= 5,
{
    lemma_varint_bytes_shape(v);
    lemma_pow128_five();
    lemma_varint_len(v, 5);
}

/// Decoding an encoding gives back the number, and consumes the whole encoding.
pub proof fn law_decode_encode(x: i32)
    ensures
        decode_spec(varint_bytes((x as u32) as nat)) == Ok::<(i32, nat), VarIntError>(
            (x, varint_bytes((x as u32) as nat).len()),
        ),
{
    let v = (x as u32) as nat;
    let bytes = varint_bytes(v);
    lemma_varint_bytes_shape(v);
    lemma_pow128_five();
    lemma_varint_len(v, 5);
    lemma_varint_end_of_shape(bytes, 0);
    assert(bytes.take(bytes.len() as int) =~= bytes);
    assert(v % 0x1_0000_0000 == v);
    assert((x as u32) as i32 == x) by (bit_vector);
}

proof fn lemma_pow128_bound(k: nat)
    requires
        k <= 4,
    ensures
        pow128(k + 1) <= 34359738368,
{
    lemma_pow128_five();
    lemma_pow128_monotonic(k + 1, 5);
}

proof fn lemma_pow128_five()
    ensures
        pow128(5) == 34359738368,
{
    assert(pow128(0) == 1);
    assert(pow128(1) == 128);
    assert(pow128(2) == 16384);
    assert(pow128(3) == 2097152);
    assert(pow128(4) == 268435456);
}

proof fn lemma_pow128_monotonic(a: nat, b: nat)
    requires
        a <= b,
    ensures
        pow128(a) <= pow128(b),
    decreases b,
{
    if a < b {
        lemma_pow128_monotonic(a, (b - 1) as nat);
    }
}

} // verus!

verus! {

/// Bytes that follow a complete varint do not change where it ends.
proof fn lemma_varint_end_prefix(a: Seq<u8>, rest: Seq<u8>, i: nat)
    requires
        varint_end(a, i) is Some,
    ensures
        varint_end(a + rest, i) == varint_end(a, i),
    decreases 5 - i,
{
    let b = a + rest;
    if i < a.len() && i < 5 {
        assert(b[i as int] == a[i as int]);
        if a[i as int] >= 128 {
            lemma_varint_end_prefix(a, rest, i + 1);
        }
    }
}

/// Decoding the varint at the start of an encoding followed by any bytes gives back the
/// number and the length of its encoding: what follows is not read.
pub proof fn law_decode_encode_prefix(x: i32, rest: Seq<u8>)
    ensures
        decode_spec(varint_bytes((x as u32) as nat) + rest) == Ok::<(i32, nat), VarIntError>(
            (x, varint_bytes((x as u32) as nat).len()),
        ),
{
    let v = (x as u32) as nat;
    let bytes = varint_bytes(v);
    law_decode_encode(x);
    lemma_varint_end_prefix(bytes, rest, 0);
    let n = varint_end(bytes, 0)->0;
    assert((bytes + rest).take(n as int) =~= bytes.take(n as int));
}

} // verus!
