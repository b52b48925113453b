use vstd::prelude::*;

verus! {

/// 256 raised to `n`, the number of values a big-endian byte string of
/// length `n` can take.
pub open spec fn pow256(n: nat) -> nat
    decreases n,
{
    if n == 0 {
        1
    } else {
        256 * pow256((n - 1) as nat)
    }
}

/// The fixed-width big-endian encoding of `v` in `n` bytes (truncating the
/// most significant part if `v >= pow256(n)`).
pub open spec fn be_bytes(v: nat, n: nat) -> Seq<u8>
    decreases n,
{
    if n == 0 {
        Seq::empty()
    } else {
        be_bytes(v / 256, (n - 1) as nat) + seq![(v % 256) as u8]
    }
}

/// The fixed-width little-endian encoding of `v` in `n` bytes.
pub open spec fn le_bytes(v: nat, n: nat) -> Seq<u8>
    decreases n,
{
    if n == 0 {
        Seq::empty()
    } else {
        seq![(v % 256) as u8] + le_bytes(v / 256, (n - 1) as nat)
    }
}

/// The value of a big-endian byte string.
pub open spec fn value_of_be(s: Seq<u8>) -> nat
    decreases s.len(),
{
    if s.len() == 0 {
        0
    } else {
        (value_of_be(s.drop_last()) * 256 + s.last()) as nat
    }
}

/// A sequence of `n` zero bytes.
pub open spec fn zeros(n: nat) -> Seq<u8> {
    Seq::new(n, |i: int| 0u8)
}

pub broadcast proof fn lemma_be_bytes_len(v: nat, n: nat)
    ensures
        (#[trigger] be_bytes(v, n)).len() == n,
    decreases n,
{
    if n > 0 {
        lemma_be_bytes_len(v / 256, (n - 1) as nat);
    }
}

pub broadcast proof fn lemma_le_bytes_len(v: nat, n: nat)
    ensures
        (#[trigger] le_bytes(v, n)).len() == n,
    decreases n,
{
    if n > 0 {
        lemma_le_bytes_len(v / 256, (n - 1) as nat);
    }
}

/// A value below `pow256(n)` is recovered from its `n`-byte big-endian form.
pub proof fn lemma_value_of_be_bytes(v: nat, n: nat)
    requires
        v < pow256(n),
    ensures
        value_of_be(be_bytes(v, n)) == v,
    decreases n,
{
    lemma_be_bytes_len(v, n);
    if n == 0 {
    } else {
        let s = be_bytes(v, n);
        let hd = be_bytes(v / 256, (n - 1) as nat);
        lemma_be_bytes_len(v / 256, (n - 1) as nat);
        assert(s.drop_last() =~= hd);
        assert(v / 256 < pow256((n - 1) as nat)) by {
            vstd::arithmetic::div_mod::lemma_multiply_divide_lt(
                v as int,
                256,
                pow256((n - 1) as nat) as int,
            );
        };
        lemma_value_of_be_bytes(v / 256, (n - 1) as nat);
        vstd::arithmetic::div_mod::lemma_fundamental_div_mod(v as int, 256);
    }
}

/// Every big-endian byte string is the encoding of its value.
pub proof fn lemma_be_bytes_of_value(s: Seq<u8>)
    ensures
        value_of_be(s) < pow256(s.len()),
        be_bytes(value_of_be(s), s.len()) == s,
    decreases s.len(),
{
    if s.len() == 0 {
        assert(be_bytes(value_of_be(s), s.len()) =~= s);
    } else {
        let hd = s.drop_last();
        lemma_be_bytes_of_value(hd);
        let v = value_of_be(s);
        assert(v == value_of_be(hd) * 256 + s.last());
        assert(v / 256 == value_of_be(hd) && v % 256 == s.last()) by {
            vstd::arithmetic::div_mod::lemma_fundamental_div_mod_converse(
                v as int,
                256,
                value_of_be(hd) as int,
                s.last() as int,
            );
        };
        assert(v < pow256(s.len())) by {
            assert(value_of_be(hd) * 256 + 256 <= pow256(hd.len()) * 256) by (nonlinear_arith)
                requires value_of_be(hd) + 1 <= pow256(hd.len());
        };
        assert(be_bytes(v, s.len()) =~= s);
    }
}

/// If the value fits in `k` bytes, the bytes before the last `k` are zero.
pub proof fn lemma_be_bytes_leading_zeros(v: nat, n: nat, k: nat)
    requires
        k <= n,
        v < pow256(k),
    ensures
        forall|i: int| 0 <= i < n - k ==> be_bytes(v, n)[i] == 0,
        be_bytes(v, n).subrange(n - k, n as int) == be_bytes(v, k),
    decreases n,
{
    lemma_be_bytes_len(v, n);
    lemma_be_bytes_len(v, k);
    if n == k {
        assert(be_bytes(v, n).subrange(n - k, n as int) =~= be_bytes(v, n));
    } else {
        let m = (n - 1) as nat;
        lemma_be_bytes_len(v / 256, m);
        assert(v / 256 < pow256(k)) by {
            vstd::arithmetic::div_mod::lemma_div_is_ordered(v as int, v as int * 256, 256);
            assert(v * 256 / 256 == v) by {
                vstd::arithmetic::div_mod::lemma_div_by_multiple(v as int, 256);
            };
            vstd::arithmetic::div_mod::lemma_div_is_ordered_by_denominator(v as int, 1, 256);
        };
        if k == 0 {
            lemma_be_bytes_leading_zeros(v / 256, m, k);
            assert(v == 0);
            assert(be_bytes(v, n).subrange(n - k, n as int) =~= be_bytes(v, k));
        } else {
            let k1 = (k - 1) as nat;
            assert(v / 256 < pow256(k1)) by {
                vstd::arithmetic::div_mod::lemma_multiply_divide_lt(
                    v as int,
                    256,
                    pow256(k1) as int,
                );
            };
            lemma_be_bytes_leading_zeros(v / 256, m, k1);
            lemma_be_bytes_len(v / 256, k1);
            assert(be_bytes(v, k) == be_bytes(v / 256, k1) + seq![(v % 256) as u8]);
            assert(be_bytes(v / 256, m).subrange(m - k1, m as int) == be_bytes(v / 256, k1));
            assert(be_bytes(v, n).subrange(n - k, n as int) =~= be_bytes(v, k));
        }
    }
}

/// A big-endian value is at least its first byte's contribution.
pub proof fn lemma_value_of_be_first_byte(s: Seq<u8>)
    requires
        s.len() >= 1,
    ensures
        value_of_be(s) >= s[0] * pow256((s.len() - 1) as nat),
    decreases s.len(),
{
    if s.len() == 1 {
        assert(s.drop_last() =~= Seq::<u8>::empty());
        assert(value_of_be(Seq::<u8>::empty()) == 0);
        assert(value_of_be(s) == s[0]);
        assert(pow256(0) == 1);
        assert(s[0] * pow256(0) == s[0]) by (nonlinear_arith)
            requires pow256(0) == 1;
    } else {
        let hd = s.drop_last();
        lemma_value_of_be_first_byte(hd);
        assert(hd[0] == s[0]);
        let pw = pow256((hd.len() - 1) as nat);
        assert(value_of_be(s) == value_of_be(hd) * 256 + s.last());
        assert(pow256((s.len() - 1) as nat) == 256 * pw);
        assert(value_of_be(hd) * 256 >= (s[0] * pw) * 256) by (nonlinear_arith)
            requires value_of_be(hd) >= s[0] * pw;
        assert((s[0] * pw) * 256 == s[0] * (256 * pw)) by (nonlinear_arith);
    }
}

/// `pow256` is monotone and positive.
pub proof fn lemma_pow256_increases(a: nat, b: nat)
    requires
        a <= b,
    ensures
        0 < pow256(a) <= pow256(b),
    decreases b,
{
    if b > 0 {
        if a == b {
            lemma_pow256_increases(0, (b - 1) as nat);
        } else {
            lemma_pow256_increases(a, (b - 1) as nat);
        }
    }
}

/// Concrete powers of 256 at the `u128` boundary.
pub proof fn lemma_pow256_u128()
    ensures
        pow256(15) == 0x1_0000_0000_0000_0000_0000_0000_0000_00,
        pow256(16) == 0x1_0000_0000_0000_0000_0000_0000_0000_0000,
{
    reveal_with_fuel(pow256, 18);
}

/// The minimal number of big-endian bytes that hold `v` (one byte for zero).
pub open spec fn min_be_len(v: nat) -> nat
    decreases v,
{
    if v < 256 {
        1
    } else {
        1 + min_be_len(v / 256)
    }
}

pub proof fn lemma_min_be_len_bounds(v: nat)
    ensures
        1 <= min_be_len(v),
        v < pow256(min_be_len(v)),
        v > 0 ==> pow256((min_be_len(v) - 1) as nat) <= v,
    decreases v,
{
    reveal_with_fuel(pow256, 3);
    if v >= 256 {
        lemma_min_be_len_bounds(v / 256);
        let m = min_be_len(v / 256);
        vstd::arithmetic::div_mod::lemma_fundamental_div_mod(v as int, 256);
        assert(v < 256 * pow256(m)) by (nonlinear_arith)
            requires v == 256 * (v / 256) + v % 256, v / 256 < pow256(m), 0 <= v % 256 < 256;
        assert(256 * pow256((m - 1) as nat) <= v) by (nonlinear_arith)
            requires v == 256 * (v / 256) + v % 256, pow256((m - 1) as nat) <= v / 256, v % 256 >= 0;
    }
}

/// A length field in canonical form (first byte nonzero) pins the width.
pub proof fn lemma_min_be_len_of_range(v: nat, n: nat)
    requires
        n >= 1,
        pow256((n - 1) as nat) <= v < pow256(n),
    ensures
        min_be_len(v) == n,
    decreases n,
{
    lemma_pow256_increases(0, (n - 1) as nat);
    if n == 1 {
    } else {
        assert(v >= 256) by {
            lemma_pow256_increases(1, (n - 1) as nat);
        };
        vstd::arithmetic::div_mod::lemma_fundamental_div_mod(v as int, 256);
        assert(pow256((n - 2) as nat) <= v / 256 < pow256((n - 1) as nat)) by (nonlinear_arith)
            requires
                v == 256 * (v / 256) + v % 256,
                0 <= v % 256 < 256,
                256 * pow256((n - 2) as nat) <= v,
                v < 256 * pow256((n - 1) as nat);
        lemma_min_be_len_of_range(v / 256, (n - 1) as nat);
    }
}

/// The first byte of a minimal big-endian encoding of a positive value is nonzero.
pub proof fn lemma_min_be_first_nonzero(v: nat)
    requires
        v > 0,
    ensures
        be_bytes(v, min_be_len(v)).len() == min_be_len(v),
        be_bytes(v, min_be_len(v))[0] != 0,
    decreases v,
{
    let n = min_be_len(v);
    lemma_be_bytes_len(v, n);
    if v < 256 {
        assert(be_bytes(v, 1) =~= seq![(v % 256) as u8]);
        assert(v % 256 == v);
    } else {
        lemma_min_be_first_nonzero(v / 256);
        lemma_be_bytes_len(v / 256, (n - 1) as nat);
    }
}

/// Compares two byte vectors; true exactly when their contents are equal.
pub fn bytes_eq(a: &Vec<u8>, b: &Vec<u8>) -> (r: bool)
    ensures
        r == (a@ == b@),
{
    let r = a == b;
    proof {
        if r {
            assert(a@ =~= b@);
        } else {
            if a@ == b@ {
                assert(forall|i: int| 0 <= i < a@.len() ==> a@[i] == b@[i]);
                assert(false);
            }
        }
    }
    r
}

/// Copies `src[start..end]` into a fresh vector.
pub fn vec_slice(src: &Vec<u8>, start: usize, end: usize) -> (r: Vec<u8>)
    requires
        start <= end <= src@.len(),
    ensures
        r@ == src@.subrange(start as int, end as int),
{
    let mut r: Vec<u8> = Vec::new();
    let mut i: usize = start;
    while i < end
        invariant
            start <= i <= end <= src@.len(),
            r@ == src@.subrange(start as int, i as int),
        decreases end - i,
    {
        r.push(src[i]);
        proof {
            assert(src@.subrange(start as int, (i + 1) as int) =~= src@.subrange(
                start as int,
                i as int,
            ).push(src@[i as int]));
        }
        i = i + 1;
    }
    r
}

/// Appends the contents of `src` to `dst`.
pub fn append_bytes(dst: &mut Vec<u8>, src: &Vec<u8>)
    ensures
        final(dst)@ == old(dst)@ + src@,
{
    let mut i: usize = 0;
    while i < src.len()
        invariant
            i <= src@.len(),
            dst@ == old(dst)@ + src@.subrange(0, i as int),
        decreases src@.len() - i,
    {
        dst.push(src[i]);
        proof {
            assert(old(dst)@ + src@.subrange(0, (i + 1) as int) =~= (old(dst)@ + src@.subrange(
                0,
                i as int,
            )).push(src@[i as int]));
        }
        i = i + 1;
    }
    proof {
        assert(src@.subrange(0, src@.len() as int) =~= src@);
    }
}

/// Appends `n` zero bytes to `dst`.
pub fn append_zeros(dst: &mut Vec<u8>, n: usize)
    requires
        old(dst)@.len() + n <= usize::MAX,
    ensures
        final(dst)@ == old(dst)@ + zeros(n as nat),
{
    let mut i: usize = 0;
    while i < n
        invariant
            i <= n,
            dst@ == old(dst)@ + zeros(i as nat),
        decreases n - i,
    {
        dst.push(0u8);
        proof {
            assert(old(dst)@ + zeros((i + 1) as nat) =~= (old(dst)@ + zeros(i as nat)).push(0u8));
        }
        i = i + 1;
    }
}

/// The fixed-width big-endian bytes of `v`, most significant first.
pub fn u128_to_be_bytes(v: u128, n: usize) -> (r: Vec<u8>)
    ensures
        r@ == be_bytes(v as nat, n as nat),
        r@.len() == n,
    decreases n,
{
    proof {
        lemma_be_bytes_len(v as nat, n as nat);
    }
    if n == 0 {
        Vec::new()
    } else {
        let mut r = u128_to_be_bytes(v / 256, n - 1);
        r.push((v % 256) as u8);
        proof {
            assert(r@ =~= be_bytes(v as nat, n as nat));
        }
        r
    }
}

/// The minimal big-endian bytes of `v` (one byte for zero), most significant
/// first and without leading zeros.
pub fn usize_to_min_be_bytes(v: usize) -> (r: Vec<u8>)
    ensures
        r@ == be_bytes(v as nat, min_be_len(v as nat)),
        r@.len() == min_be_len(v as nat),
    decreases v,
{
    proof {
        lemma_be_bytes_len(v as nat, min_be_len(v as nat));
    }
    if v < 256 {
        let mut r: Vec<u8> = Vec::new();
        r.push((v % 256) as u8);
        proof {
            assert(be_bytes(v as nat, 0nat) =~= Seq::<u8>::empty());
            assert(r@ =~= be_bytes(v as nat, 1nat));
        }
        r
    } else {
        let mut r = usize_to_min_be_bytes(v / 256);
        r.push((v % 256) as u8);
        proof {
            assert(r@ =~= be_bytes(v as nat, min_be_len(v as nat)));
        }
        r
    }
}

/// The fixed-width little-endian bytes of `v`, least significant first.
pub fn u64_to_le_bytes(v: u64, n: usize) -> (r: Vec<u8>)
    ensures
        r@ == le_bytes(v as nat, n as nat),
        r@.len() == n,
    decreases n,
{
    proof {
        lemma_le_bytes_len(v as nat, n as nat);
    }
    if n == 0 {
        Vec::new()
    } else {
        let tail = u64_to_le_bytes(v / 256, n - 1);
        let mut r: Vec<u8> = Vec::new();
        r.push((v % 256) as u8);
        append_bytes(&mut r, &tail);
        proof {
            assert(r@ =~= le_bytes(v as nat, n as nat));
        }
        r
    }
}

/// Concrete powers of 256 at the `u64` boundary.
pub proof fn lemma_pow256_u64()
    ensures
        pow256(7) == 0x100_0000_0000_0000,
        pow256(8) == 0x1_0000_0000_0000_0000,
{
    reveal_with_fuel(pow256, 10);
}

/// Reads the value of `src[start..start+len]` (at most 8 bytes) as a
/// big-endian integer.
pub fn read_be_u64(src: &Vec<u8>, start: usize, len: usize) -> (r: u64)
    requires
        len <= 8,
        start + len <= src@.len(),
    ensures
        r == value_of_be(src@.subrange(start as int, start as int + len as int)),
{
    let mut acc: u64 = 0;
    let mut i: usize = 0;
    let n = src.len();
    proof {
        assert(src@.subrange(start as int, start as int) =~= Seq::<u8>::empty());
    }
    while i < len
        invariant
            i <= len,
            len <= 8,
            n == src@.len(),
            start + len <= n,
            acc == value_of_be(src@.subrange(start as int, start as int + i as int)),
            acc < pow256(i as nat),
        decreases len - i,
    {
        proof {
            lemma_pow256_increases(i as nat, 7);
            lemma_pow256_u64();
            assert(src@.subrange(start as int, start as int + i + 1).drop_last() =~= src@.subrange(
                start as int,
                start as int + i,
            ));
        }
        acc = acc * 256 + (src[start + i] as u64);
        i = i + 1;
    }
    acc
}

/// True exactly when every byte of `src[start..end]` is zero.
pub fn check_zeros(src: &Vec<u8>, start: usize, end: usize) -> (r: bool)
    requires
        start <= end <= src@.len(),
    ensures
        r == (forall|i: int| start <= i < end ==> src@[i] == 0),
{
    let mut i: usize = start;
    while i < end
        invariant
            start <= i <= end <= src@.len(),
            forall|j: int| start <= j < i ==> src@[j] == 0,
        decreases end - i,
    {
        if src[i] != 0 {
            return false;
        }
        i = i + 1;
    }
    true
}

/// Reads the value of `src[start..start+16]` as a big-endian integer.
pub fn read_be_u128_16(src: &Vec<u8>, start: usize) -> (r: u128)
    requires
        start + 16 <= src@.len(),
    ensures
        r == value_of_be(src@.subrange(start as int, start as int + 16)),
{
    let mut acc: u128 = 0;
    let mut i: usize = 0;
    let n = src.len();
    proof {
        assert(src@.subrange(start as int, start as int) =~= Seq::<u8>::empty());
    }
    while i < 16
        invariant
            i <= 16,
            n == src@.len(),
            start + 16 <= n,
            acc == value_of_be(src@.subrange(start as int, start as int + i)),
            acc < pow256(i as nat),
        decreases 16 - i,
    {
        proof {
            lemma_pow256_increases(i as nat, 15);
            lemma_pow256_u128();
            assert(src@.subrange(start as int, start as int + i + 1).drop_last() =~= src@.subrange(
                start as int,
                start as int + i,
            ));
        }
        acc = acc * 256 + (src[start + i] as u128);
        i = i + 1;
    }
    acc
}

} // verus!
