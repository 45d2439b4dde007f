//! Fixed-width big-endian byte forms of the integer kinds: the 32-bit
//! unsigned kind as 4 bytes, the wide kind as 16 bytes of two's
//! complement. Encoding and decoding are exact inverses: no value, sign
//! or precision is lost.

use vstd::prelude::*;

use vstd::arithmetic::div_mod::{
    lemma_basic_div, lemma_div_denominator, lemma_div_multiples_vanish,
    lemma_fundamental_div_mod,
};

verus! {

/// The number a big-endian byte string denotes.
pub open spec fn be_val(bytes: Seq<u8>) -> nat
    decreases bytes.len(),
{
    if bytes.len() == 0 {
        0
    } else {
        (be_val(bytes.drop_last()) * 256 + bytes.last()) as nat
    }
}

/// 256 raised to the `n`-th power: the count of `n`-byte strings.
pub open spec fn pow256(n: nat) -> nat
    decreases n,
{
    if n == 0 {
        1
    } else {
        256 * pow256((n - 1) as nat)
    }
}

pub proof fn lemma_pow256_pos(n: nat)
    ensures
        pow256(n) >= 1,
    decreases n,
{
    if n > 0 {
        lemma_pow256_pos((n - 1) as nat);
    }
}

pub proof fn lemma_pow256_increases(a: nat, b: nat)
    requires
        a <= b,
    ensures
        pow256(a) <= pow256(b),
    decreases b,
{
    if a < b {
        lemma_pow256_increases(a, (b - 1) as nat);
        lemma_pow256_pos((b - 1) as nat);
    }
}

/// A byte string denotes less than 256 to its length.
pub proof fn lemma_be_val_bound(bytes: Seq<u8>)
    ensures
        be_val(bytes) < pow256(bytes.len()),
    decreases bytes.len(),
{
    if bytes.len() > 0 {
        let rest = be_val(bytes.drop_last());
        let p = pow256((bytes.len() - 1) as nat);
        lemma_be_val_bound(bytes.drop_last());
        assert(rest * 256 <= (p - 1) * 256) by (nonlinear_arith)
            requires
                rest <= p - 1,
        ;
    }
}

/// The big-endian bytes of `u`, exactly `width` of them.
fn be_bytes(u: u128, width: usize) -> (r: Vec<u8>)
    requires
        1 <= width <= 16,
        u < pow256(width as nat),
    ensures
        r@.len() == width,
        be_val(r@) == u,
{
    let mut div: u128 = 1;
    let mut j: usize = 0;
    while j + 1 < width
        invariant
            j <= width - 1,
            div == pow256(j as nat),
            width <= 16,
        decreases width - j,
    {
        proof {
            lemma_pow256_increases(j as nat + 1, 15);
            assert(pow256(15) < pow256(16)) by {
                lemma_pow256_pos(15);
            }
            assert(pow256(16) == 0x100000000000000000000000000000000) by {
                reveal_with_fuel(pow256, 17);
            }
        }
        div = div * 256;
        j += 1;
    }
    proof {
        lemma_basic_div(u as int, pow256(width as nat) as int);
    }
    let mut r: Vec<u8> = Vec::new();
    let mut k: usize = 0;
    while k < width
        invariant
            k <= width,
            width <= 16,
            u < pow256(width as nat),
            r@.len() == k,
            k < width ==> div == pow256((width - 1 - k) as nat),
            be_val(r@) == u as nat / pow256((width - k) as nat),
        decreases width - k,
    {
        proof {
            lemma_pow256_pos((width - 1 - k) as nat);
        }
        let b = ((u / div) % 256) as u8;
        let ghost pre = r@;
        r.push(b);
        proof {
            let a = (width - 1 - k) as nat;
            let q = u as int / pow256(a) as int;
            assert(r@.drop_last() =~= pre);
            lemma_div_denominator(u as int, pow256(a) as int, 256);
            assert(pow256(a) as int * 256 == pow256(a + 1));
            lemma_fundamental_div_mod(q, 256);
            assert(be_val(r@) == be_val(pre) * 256 + b);
            assert(be_val(r@) == u as nat / pow256((width - k - 1) as nat));
        }
        if k + 1 < width {
            proof {
                let a = (width - 1 - k) as nat;
                lemma_pow256_pos((a - 1) as nat);
                lemma_div_multiples_vanish(pow256((a - 1) as nat) as int, 256);
            }
            div = div / 256;
        }
        k += 1;
    }
    proof {
        assert(pow256(0) == 1);
        assert(u as nat / pow256(0) == u);
    }
    r
}

/// The number denoted by a big-endian byte string of at most 16 bytes.
fn be_read(bytes: &Vec<u8>) -> (r: u128)
    requires
        bytes@.len() <= 16,
    ensures
        r == be_val(bytes@),
{
    let n = bytes.len();
    let mut acc: u128 = 0;
    let mut k: usize = 0;
    while k < n
        invariant
            k <= n,
            n == bytes@.len() <= 16,
            acc == be_val(bytes@.take(k as int)),
            acc < pow256(k as nat),
        decreases n - k,
    {
        proof {
            let t = bytes@.take(k as int + 1);
            assert(t.drop_last() =~= bytes@.take(k as int));
            assert(t.last() == bytes@[k as int]);
            assert(acc * 256 + bytes@[k as int] < pow256(k as nat + 1)) by (nonlinear_arith)
                requires
                    acc < pow256(k as nat),
                    bytes@[k as int] < 256,
                    pow256(k as nat + 1) == 256 * pow256(k as nat),
            ;
            lemma_pow256_increases(k as nat + 1, 16);
            assert(pow256(16) == 0x100000000000000000000000000000000) by {
                reveal_with_fuel(pow256, 17);
            }
        }
        acc = acc * 256 + (bytes[k] as u128);
        k += 1;
    }
    proof {
        assert(bytes@.take(n as int) =~= bytes@);
    }
    acc
}

/// The unsigned number whose 16-byte big-endian form is the two's
/// complement of the wide integer `x`.
pub open spec fn wide_unsigned(x: i128) -> nat {
    if x >= 0 {
        x as nat
    } else {
        (x + 0x100000000000000000000000000000000) as nat
    }
}

/// The wide integer whose two's complement denotes the unsigned number
/// `u`: the inverse of `wide_unsigned` below 256 to the 16th.
pub open spec fn wide_signed(u: nat) -> int {
    if u < 0x80000000000000000000000000000000 {
        u as int
    } else {
        u as int - 0x100000000000000000000000000000000
    }
}

/// The 16-byte two's-complement big-endian form of a wide integer.
pub fn wide_to_be_bytes(x: i128) -> (r: Vec<u8>)
    ensures
        r@.len() == 16,
        be_val(r@) == wide_unsigned(x),
{
    proof {
        assert(pow256(16) == 0x100000000000000000000000000000000) by {
            reveal_with_fuel(pow256, 17);
        }
    }
    let u: u128 = if x >= 0 {
        x as u128
    } else {
        let m = -(x + 1);
        0xffffffffffffffffffffffffffffffffu128 - (m as u128)
    };
    be_bytes(u, 16)
}

/// Read a wide integer back from its 16-byte two's-complement form.
pub fn wide_from_be_bytes(bytes: &Vec<u8>) -> (r: i128)
    requires
        bytes@.len() == 16,
    ensures
        r == wide_signed(be_val(bytes@)),
{
    proof {
        lemma_be_val_bound(bytes@);
        assert(pow256(16) == 0x100000000000000000000000000000000) by {
            reveal_with_fuel(pow256, 17);
        }
    }
    let u = be_read(bytes);
    if u < 0x80000000000000000000000000000000u128 {
        u as i128
    } else {
        let m = 0xffffffffffffffffffffffffffffffffu128 - u;
        -(m as i128) - 1
    }
}

/// Two's complement over 16 bytes inverts exactly: every wide integer
/// comes back from its unsigned form, so encoding then decoding loses
/// nothing.
pub proof fn lemma_wide_bytes_round_trip(x: i128)
    ensures
        wide_signed(wide_unsigned(x)) == x,
{
}

/// The 4-byte big-endian form of the 32-bit unsigned kind.
pub fn u32_to_be_bytes(x: u32) -> (r: Vec<u8>)
    ensures
        r@.len() == 4,
        be_val(r@) == x,
{
    proof {
        assert(pow256(4) == 0x100000000) by {
            reveal_with_fuel(pow256, 5);
        }
    }
    be_bytes(x as u128, 4)
}

/// Read the 32-bit unsigned kind back from its 4-byte form.
pub fn u32_from_be_bytes(bytes: &Vec<u8>) -> (r: u32)
    requires
        bytes@.len() == 4,
    ensures
        r == be_val(bytes@),
{
    proof {
        lemma_be_val_bound(bytes@);
        assert(pow256(4) == 0x100000000) by {
            reveal_with_fuel(pow256, 5);
        }
    }
    let u = be_read(bytes);
    u as u32
}

} // verus!
