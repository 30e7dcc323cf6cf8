//! Little-endian encoding and decoding of machine words, together with the
//! conversions between the unsigned and the signed reading of a bit pattern.

use vstd::prelude::*;
use vstd::arithmetic::div_mod::lemma_fundamental_div_mod;

verus! {

/// `256^n`: the number of values a run of `n` bytes can encode.
pub open spec fn pow256(n: nat) -> nat
    decreases n,
{
    if n == 0 {
        1
    } else {
        256 * pow256((n - 1) as nat)
    }
}

/// The value of `bytes` read as one little-endian unsigned integer.
pub open spec fn le_value(bytes: Seq<u8>) -> nat
    decreases bytes.len(),
{
    if bytes.len() == 0 {
        0
    } else {
        (bytes[0] + 256 * le_value(bytes.skip(1))) as nat
    }
}

/// The signed reading of an `n`-byte little-endian pattern whose unsigned
/// reading is `v`: two's complement over `n` bytes.
pub open spec fn to_signed(v: nat, n: nat) -> int {
    if 2 * v < pow256(n) {
        v as int
    } else {
        v - pow256(n)
    }
}

/// The values of `256^n` for every word width the machine uses.
pub proof fn lemma_pow256_values()
    ensures
        pow256(0) == 1,
        pow256(1) == 0x100,
        pow256(2) == 0x1_0000,
        pow256(4) == 0x1_0000_0000,
        pow256(8) == 0x1_0000_0000_0000_0000,
{
    reveal_with_fuel(pow256, 9);
}

/// `256^n` is positive.
pub proof fn lemma_pow256_positive(n: nat)
    ensures
        pow256(n) >= 1,
    decreases n,
{
    if n > 0 {
        lemma_pow256_positive((n - 1) as nat);
    }
}

/// `pow256` grows with its argument.
pub proof fn lemma_pow256_increases(a: nat, b: nat)
    ensures
        a <= b ==> pow256(a) <= pow256(b),
    decreases b,
{
    if a < b && b > 0 {
        lemma_pow256_increases(a, (b - 1) as nat);
        lemma_pow256_positive((b - 1) as nat);
        assert(pow256((b - 1) as nat) <= 256 * pow256((b - 1) as nat)) by (nonlinear_arith)
            requires
                pow256((b - 1) as nat) >= 1,
        ;
    }
}

/// Appending a byte to a little-endian encoding adds it at the most
/// significant position.
pub proof fn lemma_le_value_push(bytes: Seq<u8>, b: u8)
    ensures
        le_value(bytes.push(b)) == le_value(bytes) + b * pow256(bytes.len()),
    decreases bytes.len(),
{
    if bytes.len() == 0 {
        assert(bytes.push(b).skip(1) =~= Seq::<u8>::empty());
        assert(bytes.push(b)[0] == b);
        assert(le_value(bytes.push(b)) == b + 256 * le_value(Seq::<u8>::empty()));
        assert(pow256(bytes.len()) == 1);
        assert(b * 1 == b);
    } else {
        assert(bytes.push(b).skip(1) =~= bytes.skip(1).push(b));
        lemma_le_value_push(bytes.skip(1), b);
        assert(le_value(bytes.push(b)) == bytes[0] + 256 * (le_value(bytes.skip(1)) + b * pow256(
            (bytes.len() - 1) as nat,
        )));
        assert(256 * (le_value(bytes.skip(1)) + b * pow256((bytes.len() - 1) as nat)) == 256
            * le_value(bytes.skip(1)) + b * (256 * pow256((bytes.len() - 1) as nat)))
            by (nonlinear_arith);
    }
}

/// A run of `n` bytes encodes a value below `256^n`.
pub proof fn lemma_le_value_bound(bytes: Seq<u8>)
    ensures
        le_value(bytes) < pow256(bytes.len()),
    decreases bytes.len(),
{
    if bytes.len() == 0 {
    } else {
        lemma_le_value_bound(bytes.skip(1));
        assert(256 * le_value(bytes.skip(1)) <= 256 * (pow256((bytes.len() - 1) as nat) - 1))
            by (nonlinear_arith)
            requires
                le_value(bytes.skip(1)) <= pow256((bytes.len() - 1) as nat) - 1,
        ;
    }
}

/// Encodes the low `n` bytes of `v` in little-endian order.
pub fn word_to_le_bytes(v: u64, n: usize) -> (r: Vec<u8>)
    requires
        n <= 8,
        v < pow256(n as nat),
    ensures
        r@.len() == n,
        le_value(r@) == v,
{
    let mut r: Vec<u8> = Vec::new();
    let mut cur: u64 = v;
    let mut i: usize = 0;
    proof {
        assert(le_value(r@) == 0);
        assert(pow256(0) == 1);
        assert(cur * 1 == v);
    }
    while i < n
        invariant
            i <= n <= 8,
            r@.len() == i,
            le_value(r@) + cur * pow256(i as nat) == v,
            cur < pow256((n - i) as nat),
        decreases n - i,
    {
        let b: u8 = (cur % 256) as u8;
        proof {
            lemma_le_value_push(r@, b);
            lemma_fundamental_div_mod(cur as int, 256);
            assert((b + 256 * (cur as int / 256)) * pow256(i as nat) == b * pow256(i as nat) + (cur
                as int / 256) * (256 * pow256(i as nat))) by (nonlinear_arith);
            assert(cur as int / 256 < pow256((n - i - 1) as nat)) by (nonlinear_arith)
                requires
                    0 <= cur < 256 * pow256((n - i - 1) as nat),
            ;
        }
        r.push(b);
        cur = cur / 256;
        i = i + 1;
    }
    proof {
        assert(cur * pow256(i as nat) == 0) by (nonlinear_arith)
            requires
                cur == 0,
        ;
    }
    r
}

/// Reinterprets an unsigned byte as a signed one (two's complement).
pub fn u8_as_i8(v: u8) -> (r: i8)
    ensures
        r as int == to_signed(v as nat, 1),
{
    proof {
        lemma_pow256_values();
    }
    if v < 128 {
        v as i8
    } else {
        ((v - 128) as i8) + (-128)
    }
}

/// Reinterprets a signed byte as an unsigned one (two's complement).
pub fn i8_as_u8(v: i8) -> (r: u8)
    ensures
        r as int == if v >= 0 {
            v as int
        } else {
            v + 0x100
        },
        to_signed(r as nat, 1) == v as int,
{
    proof {
        lemma_pow256_values();
    }
    if v >= 0 {
        v as u8
    } else {
        let m = v - (-128);
        (m as u8) + 128
    }
}

/// Reinterprets an unsigned 16-bit word as a signed one (two's complement).
pub fn u16_as_i16(v: u16) -> (r: i16)
    ensures
        r as int == to_signed(v as nat, 2),
{
    proof {
        lemma_pow256_values();
    }
    if v < 0x8000 {
        v as i16
    } else {
        ((v - 0x8000) as i16) + (-0x8000)
    }
}

/// Reinterprets a signed 16-bit word as an unsigned one (two's complement).
pub fn i16_as_u16(v: i16) -> (r: u16)
    ensures
        r as int == if v >= 0 {
            v as int
        } else {
            v + 0x1_0000
        },
        to_signed(r as nat, 2) == v as int,
{
    proof {
        lemma_pow256_values();
    }
    if v >= 0 {
        v as u16
    } else {
        let m = v - (-0x8000);
        (m as u16) + 0x8000
    }
}

/// Reinterprets an unsigned 32-bit word as a signed one (two's complement).
pub fn u32_as_i32(v: u32) -> (r: i32)
    ensures
        r as int == to_signed(v as nat, 4),
{
    proof {
        lemma_pow256_values();
    }
    if v < 0x8000_0000 {
        v as i32
    } else {
        ((v - 0x8000_0000) as i32) + (-0x8000_0000)
    }
}

/// Reinterprets a signed 32-bit word as an unsigned one (two's complement).
pub fn i32_as_u32(v: i32) -> (r: u32)
    ensures
        r as int == if v >= 0 {
            v as int
        } else {
            v + 0x1_0000_0000
        },
        to_signed(r as nat, 4) == v as int,
{
    proof {
        lemma_pow256_values();
    }
    if v >= 0 {
        v as u32
    } else {
        let m = v - (-0x8000_0000);
        (m as u32) + 0x8000_0000
    }
}

/// Reinterprets an unsigned 64-bit word as a signed one (two's complement).
pub fn u64_as_i64(v: u64) -> (r: i64)
    ensures
        r as int == to_signed(v as nat, 8),
{
    proof {
        lemma_pow256_values();
    }
    if v < 0x8000_0000_0000_0000 {
        v as i64
    } else {
        ((v - 0x8000_0000_0000_0000) as i64) + (-0x8000_0000_0000_0000)
    }
}

/// Reinterprets a signed 64-bit word as an unsigned one (two's complement).
pub fn i64_as_u64(v: i64) -> (r: u64)
    ensures
        r as int == if v >= 0 {
            v as int
        } else {
            v + 0x1_0000_0000_0000_0000
        },
        to_signed(r as nat, 8) == v as int,
{
    proof {
        lemma_pow256_values();
    }
    if v >= 0 {
        v as u64
    } else {
        let m = v - (-0x8000_0000_0000_0000);
        (m as u64) + 0x8000_0000_0000_0000
    }
}

/// Byte strings of one length encode distinct values: a value below
/// `256^n` has exactly one `n`-byte little-endian encoding.
pub proof fn lemma_le_value_injective(a: Seq<u8>, b: Seq<u8>)
    requires
        a.len() == b.len(),
        le_value(a) == le_value(b),
    ensures
        a =~= b,
    decreases a.len(),
{
    if a.len() > 0 {
        lemma_le_value_bound(a.skip(1));
        lemma_le_value_bound(b.skip(1));
        vstd::arithmetic::div_mod::lemma_fundamental_div_mod_converse(
            le_value(a) as int,
            256,
            le_value(a.skip(1)) as int,
            a[0] as int,
        );
        vstd::arithmetic::div_mod::lemma_fundamental_div_mod_converse(
            le_value(b) as int,
            256,
            le_value(b.skip(1)) as int,
            b[0] as int,
        );
        lemma_le_value_injective(a.skip(1), b.skip(1));
        assert(forall|i: int| 1 <= i < a.len() ==> #[trigger] a[i] == a.skip(1)[i - 1]);
        assert(forall|i: int| 1 <= i < b.len() ==> #[trigger] b[i] == b.skip(1)[i - 1]);
    }
}

/// Decodes up to eight little-endian bytes into an unsigned word.
pub fn le_bytes_to_word(bytes: &Vec<u8>) -> (r: u64)
    requires
        bytes@.len() <= 8,
    ensures
        r == le_value(bytes@),
        r < pow256(bytes@.len()),
{
    let n = bytes.len();
    let mut cur: u64 = 0;
    let mut i: usize = n;
    proof {
        assert(bytes@.skip(n as int) =~= Seq::<u8>::empty());
    }
    while i > 0
        invariant
            i <= n == bytes@.len() <= 8,
            cur == le_value(bytes@.skip(i as int)),
        decreases i,
    {
        proof {
            lemma_le_value_bound(bytes@.skip(i as int - 1));
            lemma_pow256_increases((n - i + 1) as nat, 8);
            lemma_pow256_values();
            assert(bytes@.skip(i as int - 1).skip(1) =~= bytes@.skip(i as int));
            assert(le_value(bytes@.skip(i as int - 1)) == bytes@[i - 1] + 256 * le_value(
                bytes@.skip(i as int),
            ));
        }
        cur = cur * 256 + (bytes[i - 1] as u64);
        i = i - 1;
    }
    proof {
        assert(bytes@.skip(0) =~= bytes@);
        lemma_le_value_bound(bytes@);
    }
    cur
}

} // verus!
