//! Byte-level model of 128-bit values: the big-endian reading of a byte
//! sequence as an unsigned integer, its inverse, and the executable
//! conversions between integers and byte vectors.

use vstd::prelude::*;
use vstd::arithmetic::div_mod::*;

verus! {

/// 256 raised to `k`.
pub open spec fn pow256(k: nat) -> int
    decreases k,
{
    if k == 0 {
        1
    } else {
        256 * pow256((k - 1) as nat)
    }
}

/// Value of a byte sequence read as a big-endian unsigned integer.
pub open spec fn be_val(s: Seq<u8>) -> int
    decreases s.len(),
{
    if s.len() == 0 {
        0
    } else {
        be_val(s.drop_last()) * 256 + s.last()
    }
}

/// The `len` big-endian base-256 digits of `n`, most significant first.
pub open spec fn be_digits(n: int, len: nat) -> Seq<u8> {
    Seq::new(len, |j: int| ((n / pow256((len - 1 - j) as nat)) % 256) as u8)
}

pub proof fn lemma_pow256_pos(k: nat)
    ensures
        pow256(k) >= 1,
    decreases k,
{
    if k > 0 {
        lemma_pow256_pos((k - 1) as nat);
    }
}

/// The powers of 256 that the fixed 16-byte layout uses.
pub proof fn lemma_pow256_values()
    ensures
        pow256(0) == 1,
        pow256(1) == 0x100,
        pow256(2) == 0x1_0000,
        pow256(3) == 0x100_0000,
        pow256(4) == 0x1_0000_0000,
        pow256(5) == 0x100_0000_0000,
        pow256(6) == 0x1_0000_0000_0000,
        pow256(7) == 0x100_0000_0000_0000,
        pow256(8) == 0x1_0000_0000_0000_0000,
        pow256(10) == 0x1_0000_0000_0000_0000_0000,
        pow256(12) == 0x1_0000_0000_0000_0000_0000_0000,
        pow256(14) == 0x1_0000_0000_0000_0000_0000_0000_0000,
        pow256(15) == 0x100_0000_0000_0000_0000_0000_0000_0000,
        pow256(16) == 0x1_0000_0000_0000_0000_0000_0000_0000_0000,
{
    reveal_with_fuel(pow256, 17);
}

pub proof fn lemma_pow256_mono(a: nat, b: nat)
    requires
        a <= b,
    ensures
        pow256(a) <= pow256(b),
    decreases b,
{
    if a < b {
        lemma_pow256_mono(a, (b - 1) as nat);
        lemma_pow256_pos((b - 1) as nat);
    }
}

/// A big-endian byte sequence of length `len` holds a value in `0 .. 256^len`.
pub proof fn lemma_be_val_bound(s: Seq<u8>)
    ensures
        0 <= be_val(s) < pow256(s.len()),
    decreases s.len(),
{
    if s.len() > 0 {
        lemma_be_val_bound(s.drop_last());
        assert(be_val(s.drop_last()) * 256 + s.last() < 256 * pow256((s.len() - 1) as nat))
            by (nonlinear_arith)
            requires
                0 <= be_val(s.drop_last()) < pow256((s.len() - 1) as nat),
                s.last() < 256,
        ;
        assert(be_val(s.drop_last()) * 256 >= 0) by (nonlinear_arith)
            requires
                be_val(s.drop_last()) >= 0,
        ;
    }
}

/// Reading the digits of `n` back yields `n` modulo `256^len`.
pub proof fn lemma_be_val_of_digits(n: int, len: nat)
    requires
        n >= 0,
    ensures
        be_val(be_digits(n, len)) == n % pow256(len),
    decreases len,
{
    if len == 0 {
        assert(n % 1 == 0) by {
            lemma_mod_self_0(1);
            lemma_mod_multiples_basic(n, 1);
        }
    } else {
        let d = be_digits(n, len);
        let q = n / 256;
        lemma_pow256_pos((len - 1) as nat);
        assert(d.last() == (n % 256) as u8) by {
            lemma_div_basics(n);
        }
        assert(d.drop_last() =~= be_digits(q, (len - 1) as nat)) by {
            assert forall|j: int| 0 <= j < len - 1 implies d.drop_last()[j] == be_digits(
                q,
                (len - 1) as nat,
            )[j] by {
                let p = pow256((len - 2 - j) as nat);
                lemma_pow256_pos((len - 2 - j) as nat);
                lemma_div_denominator(n, 256, p);
                assert(pow256((len - 1 - j) as nat) == 256 * p);
            }
        }
        lemma_be_val_of_digits(q, (len - 1) as nat);
        lemma_div_pos_is_pos(n, 256);
        assert(n % pow256(len) == 256 * ((n / 256) % pow256((len - 1) as nat)) + n % 256) by {
            lemma_breakdown(n, 256, pow256((len - 1) as nat));
        }
        assert(be_val(d) == (q % pow256((len - 1) as nat)) * 256 + n % 256);
    }
}

/// The digits of the value of a byte sequence are that sequence itself.
pub proof fn lemma_be_digits_of_val(s: Seq<u8>)
    ensures
        be_digits(be_val(s), s.len()) == s,
    decreases s.len(),
{
    let len = s.len();
    if len > 0 {
        let n = be_val(s);
        let m = be_val(s.drop_last());
        let b = s.last();
        lemma_be_val_bound(s.drop_last());
        assert(n / 256 == m && n % 256 == b) by {
            lemma_fundamental_div_mod_converse(n, 256, m, b as int);
        }
        lemma_be_digits_of_val(s.drop_last());
        let d = be_digits(n, len);
        assert forall|j: int| 0 <= j < len implies d[j] == s[j] by {
            if j == len - 1 {
                lemma_div_basics(n);
            } else {
                let p = pow256((len - 2 - j) as nat);
                lemma_pow256_pos((len - 2 - j) as nat);
                lemma_div_denominator(n, 256, p);
                assert(pow256((len - 1 - j) as nat) == 256 * p);
                assert(d[j] == be_digits(m, (len - 1) as nat)[j]);
                assert(be_digits(m, (len - 1) as nat)[j] == s.drop_last()[j]);
            }
        }
        assert(d =~= s);
    } else {
        assert(be_digits(0, 0) =~= s);
    }
}

/// Two byte sequences of one length with one value are the same sequence.
pub proof fn lemma_be_val_injective(a: Seq<u8>, b: Seq<u8>)
    requires
        a.len() == b.len(),
        be_val(a) == be_val(b),
    ensures
        a == b,
{
    lemma_be_digits_of_val(a);
    lemma_be_digits_of_val(b);
}

/// Concatenation shifts the left part by `256^len` of the right part.
pub proof fn lemma_be_val_append(x: Seq<u8>, y: Seq<u8>)
    ensures
        be_val(x + y) == be_val(x) * pow256(y.len()) + be_val(y),
    decreases y.len(),
{
    if y.len() == 0 {
        assert(x + y =~= x);
    } else {
        let y0 = y.drop_last();
        assert((x + y).drop_last() =~= x + y0);
        lemma_be_val_append(x, y0);
        assert((be_val(x) * pow256(y0.len()) + be_val(y0)) * 256 + y.last() == be_val(x) * (
        pow256(y0.len()) * 256) + (be_val(y0) * 256 + y.last())) by (nonlinear_arith);
        assert(pow256(y.len()) == pow256(y0.len()) * 256) by {
            reveal_with_fuel(pow256, 2);
            lemma_pow256_unfold_up(y0.len());
        }
    }
}

/// `256^(k+1) == 256^k * 256`.
pub proof fn lemma_pow256_unfold_up(k: nat)
    ensures
        pow256(k + 1) == pow256(k) * 256,
    decreases k,
{
    if k > 0 {
        lemma_pow256_unfold_up((k - 1) as nat);
        assert(pow256(k + 1) == 256 * pow256(k));
    }
}

/// Read bytes `from .. to` of `v` as a big-endian unsigned integer.
pub fn be_value_of(v: &Vec<u8>, from: usize, to: usize) -> (r: u128)
    requires
        from <= to <= v@.len(),
        to - from <= 16,
    ensures
        r == be_val(v@.subrange(from as int, to as int)),
{
    let mut acc: u128 = 0;
    let mut j: usize = from;
    while j < to
        invariant
            from <= j <= to <= v@.len(),
            to - from <= 16,
            acc == be_val(v@.subrange(from as int, j as int)),
        decreases to - j,
    {
        proof {
            let cur = v@.subrange(from as int, j as int);
            lemma_be_val_bound(cur);
            lemma_pow256_mono((j - from) as nat, 15);
            lemma_pow256_values();
            lemma_pow256_unfold_up((j - from) as nat);
            assert(acc * 256 <= (pow256((j - from) as nat) - 1) * 256) by (nonlinear_arith)
                requires
                    acc <= pow256((j - from) as nat) - 1,
            ;
            let next = v@.subrange(from as int, j + 1);
            assert(next.drop_last() =~= cur);
            assert(next.last() == v@[j as int]);
        }
        acc = acc * 256 + (v[j] as u128);
        j += 1;
    }
    acc
}

/// Copy bytes `from .. to` of `v` into a fresh vector.
pub fn bytes_range(v: &Vec<u8>, from: usize, to: usize) -> (r: Vec<u8>)
    requires
        from <= to <= v@.len(),
    ensures
        r@ == v@.subrange(from as int, to as int),
{
    let mut out: Vec<u8> = Vec::new();
    let mut j: usize = from;
    proof {
        assert(out@ =~= v@.subrange(from as int, from as int));
    }
    while j < to
        invariant
            from <= j <= to <= v@.len(),
            out@ == v@.subrange(from as int, j as int),
        decreases to - j,
    {
        proof {
            assert(v@.subrange(from as int, (j + 1) as int) =~= v@.subrange(
                from as int,
                j as int,
            ).push(v@[j as int]));
        }
        out.push(v[j]);
        j += 1;
    }
    out
}

/// Write `n` as its `len` big-endian bytes.
pub fn be_bytes_of(n: u128, len: usize) -> (r: Vec<u8>)
    requires
        len <= 16,
        n < pow256(len as nat),
    ensures
        r@.len() == len,
        r@ == be_digits(n as int, len as nat),
        be_val(r@) == n,
{
    let mut x: u128 = n;
    let mut low: Vec<u8> = Vec::new();
    let mut i: usize = 0;
    while i < len
        invariant
            i <= len <= 16,
            low@.len() == i,
            x as int == n as int / pow256(i as nat),
            forall|j: int|
                0 <= j < i ==> low@[j] == ((n as int / pow256(j as nat)) % 256) as u8,
        decreases len - i,
    {
        proof {
            lemma_pow256_pos(i as nat);
            lemma_div_pos_is_pos(n as int, pow256(i as nat));
            lemma_div_denominator(n as int, pow256(i as nat), 256);
            lemma_pow256_unfold_up(i as nat);
        }
        low.push((x % 256) as u8);
        x = x / 256;
        i += 1;
    }
    let mut out: Vec<u8> = Vec::new();
    let mut j: usize = 0;
    while j < len
        invariant
            j <= len,
            low@.len() == len,
            out@.len() == j,
            forall|k: int| 0 <= k < len ==> low@[k] == ((n as int / pow256(k as nat)) % 256) as u8,
            forall|k: int| 0 <= k < j ==> out@[k] == low@[len - 1 - k],
        decreases len - j,
    {
        out.push(low[len - 1 - j]);
        j += 1;
    }
    proof {
        assert(out@ =~= be_digits(n as int, len as nat));
        lemma_be_val_of_digits(n as int, len as nat);
        lemma_pow256_pos(len as nat);
        lemma_small_mod(n as nat, pow256(len as nat) as nat);
    }
    out
}

} // verus!
