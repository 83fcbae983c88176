//! Unsigned numbers encoded as sequences of bytes, in big- and little-endian order.
use vstd::prelude::*;

verus! {

/// The number whose big-endian encoding is `s`: the first byte is the most significant one.
pub open spec fn be_value(s: Seq<u8>) -> nat
    decreases s.len(),
{
    if s.len() == 0 {
        0
    } else {
        (be_value(s.drop_last()) * 256 + s.last()) as nat
    }
}

/// The number whose little-endian encoding is `s`: the first byte is the least significant one.
pub open spec fn le_value(s: Seq<u8>) -> nat
    decreases s.len(),
{
    if s.len() == 0 {
        0
    } else {
        (s[0] + 256 * le_value(s.drop_first())) as nat
    }
}

/// `256` to the power `n`: one more than the largest number that `n` bytes encode.
pub open spec fn pow256(n: nat) -> nat
    decreases n,
{
    if n == 0 {
        1
    } else {
        256 * pow256((n - 1) as nat)
    }
}

/// The big-endian value of the `n` bytes of `s` that start at offset `i`.
pub open spec fn be_at(s: Seq<u8>, i: int, n: int) -> nat {
    be_value(s.subrange(i, i + n))
}

/// The big-endian 16-bit number at offset `i` of `s`.
pub open spec fn be_u16_at(s: Seq<u8>, i: int) -> u16 {
    be_at(s, i, 2) as u16
}

/// The big-endian 32-bit number at offset `i` of `s`.
pub open spec fn be_u32_at(s: Seq<u8>, i: int) -> u32 {
    be_at(s, i, 4) as u32
}

pub proof fn lemma_pow256_values()
    ensures
        pow256(0) == 1,
        pow256(1) == 0x100,
        pow256(2) == 0x1_0000,
        pow256(4) == 0x1_0000_0000,
        pow256(6) == 0x1_0000_0000_0000,
        pow256(8) == 0x1_0000_0000_0000_0000,
        pow256(15) == 0x1_0000_0000_0000_0000_0000_0000_0000_00,
        pow256(16) == 0x1_0000_0000_0000_0000_0000_0000_0000_0000,
{
    reveal_with_fuel(pow256, 17);
}

pub proof fn lemma_pow256_monotone(a: nat, b: nat)
    requires
        a <= b,
    ensures
        pow256(a) <= pow256(b),
        0 < pow256(a),
    decreases b,
{
    if a < b {
        lemma_pow256_monotone(a, (b - 1) as nat);
    } else if a > 0 {
        lemma_pow256_monotone((a - 1) as nat, (a - 1) as nat);
    }
}

/// `n` bytes hold no number as large as `256^n`.
pub proof fn lemma_be_value_bound(s: Seq<u8>)
    ensures
        be_value(s) < pow256(s.len()),
    decreases s.len(),
{
    if s.len() > 0 {
        lemma_be_value_bound(s.drop_last());
    }
}

/// `n` bytes hold no number as large as `256^n`.
pub proof fn lemma_le_value_bound(s: Seq<u8>)
    ensures
        le_value(s) < pow256(s.len()),
    decreases s.len(),
{
    if s.len() > 0 {
        lemma_le_value_bound(s.drop_first());
    }
}

/// A sub-range of a suffix is a sub-range of the whole.
pub broadcast proof fn lemma_skip_subrange(s: Seq<u8>, p: int, i: int, j: int)
    requires
        0 <= p <= s.len(),
        0 <= i <= j <= s.len() - p,
    ensures
        #[trigger] s.skip(p).subrange(i, j) == s.subrange(p + i, p + j),
{
    assert(s.skip(p).subrange(i, j) =~= s.subrange(p + i, p + j));
}

/// A suffix of a suffix is a suffix of the whole.
pub broadcast proof fn lemma_skip_skip(s: Seq<u8>, p: int, i: int)
    requires
        0 <= p <= s.len(),
        0 <= i <= s.len() - p,
    ensures
        #[trigger] s.skip(p).skip(i) == s.skip(p + i),
{
    assert(s.skip(p).skip(i) =~= s.skip(p + i));
}

/// Two bytes at offset `i`, read big-endian, are `256` times the first plus the second.
pub proof fn lemma_be_at_two(s: Seq<u8>, i: int)
    requires
        0 <= i,
        i + 2 <= s.len(),
    ensures
        be_at(s, i, 2) == 256 * s[i] + s[i + 1],
{
    let t = s.subrange(i, i + 2);
    assert(t.drop_last().drop_last() =~= Seq::<u8>::empty());
    assert(t.drop_last().last() == s[i]);
    assert(t.last() == s[i + 1]);
    reveal_with_fuel(be_value, 3);
}

/// Four bytes at offset `i`, read big-endian, weigh `2^24`, `2^16`, `2^8` and `1`.
pub proof fn lemma_be_at_four(s: Seq<u8>, i: int)
    requires
        0 <= i,
        i + 4 <= s.len(),
    ensures
        be_at(s, i, 4) == 16777216 * s[i] + 65536 * s[i + 1] + 256 * s[i + 2] + s[i + 3],
{
    let t = s.subrange(i, i + 4);
    lemma_be_value_split(t, 2);
    lemma_pow256_values();
    lemma_be_at_two(t, 0);
    lemma_be_at_two(t, 2);
    assert(t.take(2) =~= t.subrange(0, 2));
    assert(t.skip(2) =~= t.subrange(2, 4));
    assert(t.len() == 4 && t[0] == s[i] && t[1] == s[i + 1] && t[2] == s[i + 2] && t[3] == s[i + 3]);
    assert(be_value(t) == be_value(t.take(2)) * 65536 + be_value(t.skip(2)));
}

/// Two bytes read little-endian are the first plus `256` times the second.
pub proof fn lemma_le_two(t: Seq<u8>)
    requires
        t.len() == 2,
    ensures
        le_value(t) == t[0] + 256 * t[1],
{
    assert(t.drop_first().drop_first() =~= Seq::<u8>::empty());
    assert(t.drop_first()[0] == t[1]);
    reveal_with_fuel(le_value, 3);
}

/// Four bytes read little-endian weigh `1`, `2^8`, `2^16` and `2^24`.
pub proof fn lemma_le_four(t: Seq<u8>)
    requires
        t.len() == 4,
    ensures
        le_value(t) == t[0] + 256 * t[1] + 65536 * t[2] + 16777216 * t[3],
{
    let u = t.drop_first().drop_first();
    lemma_le_two(u);
    assert(u[0] == t[2] && u[1] == t[3]);
    assert(t.drop_first()[0] == t[1]);
    assert(le_value(t.drop_first()) == t[1] + 256 * le_value(u));
}

/// Bytes encode 0, in either order, exactly when each of them is 0.
pub proof fn lemma_value_zero(s: Seq<u8>)
    ensures
        be_value(s) == 0 <==> forall|i: int| 0 <= i < s.len() ==> s[i] == 0,
        le_value(s) == 0 <==> forall|i: int| 0 <= i < s.len() ==> s[i] == 0,
    decreases s.len(),
{
    if s.len() > 0 {
        lemma_value_zero(s.drop_last());
        lemma_value_zero(s.drop_first());
        if be_value(s) == 0 {
            assert forall|i: int| 0 <= i < s.len() implies s[i] == 0 by {
                if i < s.len() - 1 {
                    assert(s[i] == s.drop_last()[i]);
                }
            }
        }
        if le_value(s) == 0 {
            assert forall|i: int| 0 <= i < s.len() implies s[i] == 0 by {
                if i > 0 {
                    assert(s[i] == s.drop_first()[i - 1]);
                }
            }
        }
        if forall|i: int| 0 <= i < s.len() ==> s[i] == 0 {
            assert(s.last() == s[s.len() - 1]);
            assert forall|i: int| 0 <= i < s.drop_last().len() implies s.drop_last()[i] == 0 by {
                assert(s.drop_last()[i] == s[i]);
            }
            assert forall|i: int| 0 <= i < s.drop_first().len() implies s.drop_first()[i] == 0 by {
                assert(s.drop_first()[i] == s[i + 1]);
            }
        }
    }
}

/// Little-endian order is big-endian order read backwards: the number that bytes encode
/// little-endian is the number that the same bytes, reversed, encode big-endian.
pub proof fn lemma_le_is_reversed_be(s: Seq<u8>)
    ensures
        le_value(s) == be_value(s.reverse()),
    decreases s.len(),
{
    if s.len() > 0 {
        lemma_le_is_reversed_be(s.drop_first());
        assert(s.reverse().drop_last() =~= s.drop_first().reverse());
        assert(s.reverse().last() == s[0]);
    }
}

/// A big-endian number splits into its leading bytes, worth `256^(rest length)` each
/// unit, and its trailing bytes.
pub proof fn lemma_be_value_split(s: Seq<u8>, k: int)
    requires
        0 <= k <= s.len(),
    ensures
        be_value(s) == be_value(s.take(k)) * pow256((s.len() - k) as nat) + be_value(s.skip(k)),
    decreases s.len(),
{
    if k == s.len() {
        assert(s.take(k) =~= s);
        assert(s.skip(k) =~= Seq::<u8>::empty());
        assert(pow256((s.len() - k) as nat) == 1);
        assert(be_value(s.skip(k)) == 0);
    } else {
        let d = s.drop_last();
        lemma_be_value_split(d, k);
        assert(d.take(k) =~= s.take(k));
        assert(s.skip(k).drop_last() =~= d.skip(k));
        assert(s.skip(k).last() == s.last());
        let x = be_value(s.take(k));
        let p = pow256((d.len() - k) as nat);
        assert(pow256((s.len() - k) as nat) == 256 * p);
        assert((x * p + be_value(d.skip(k))) * 256 + s.last() == x * (256 * p) + (be_value(d.skip(k)) * 256 + s.last()))
            by (nonlinear_arith);
        assert(be_value(s) == be_value(d) * 256 + s.last());
        assert(be_value(s.skip(k)) == be_value(d.skip(k)) * 256 + s.last());
        assert(be_value(d) == x * p + be_value(d.skip(k)));
        assert(be_value(s) == x * pow256((s.len() - k) as nat) + be_value(s.skip(k)));
    }
}

/// `256^n` is `2^(8n)`.
pub proof fn lemma_pow256_is_pow2(n: nat)
    ensures
        pow256(n) == vstd::arithmetic::power2::pow2(8 * n),
    decreases n,
{
    vstd::arithmetic::power2::lemma2_to64();
    if n > 0 {
        lemma_pow256_is_pow2((n - 1) as nat);
        vstd::arithmetic::power2::lemma_pow2_adds(8 * (n - 1) as nat, 8);
        assert(8 * n == 8 * (n - 1) as nat + 8);
    }
}

/// Decodes at most 16 bytes as a big-endian number.
pub fn read_be(b: &[u8]) -> (r: u128)
    requires
        b@.len() <= 16,
    ensures
        r == be_value(b@),
        r < pow256(b@.len()),
{
    let mut acc: u128 = 0;
    let mut i: usize = 0;
    while i < b.len()
        invariant
            0 <= i <= b@.len(),
            b@.len() <= 16,
            acc == be_value(b@.take(i as int)),
        decreases b@.len() - i,
    {
        proof {
            lemma_be_value_bound(b@.take(i as int));
            lemma_pow256_monotone(i as nat, 15);
            lemma_pow256_values();
            assert(b@.take(i + 1).drop_last() =~= b@.take(i as int));
        }
        acc = acc * 256 + b[i] as u128;
        i = i + 1;
    }
    proof {
        assert(b@.take(b@.len() as int) =~= b@);
        lemma_be_value_bound(b@);
    }
    acc
}

/// Decodes at most 16 bytes as a little-endian number.
pub fn read_le(b: &[u8]) -> (r: u128)
    requires
        b@.len() <= 16,
    ensures
        r == le_value(b@),
        r < pow256(b@.len()),
{
    let mut acc: u128 = 0;
    let mut i: usize = b.len();
    proof {
        assert(b@.skip(b@.len() as int) =~= Seq::<u8>::empty());
    }
    while i > 0
        invariant
            0 <= i <= b@.len(),
            b@.len() <= 16,
            acc == le_value(b@.skip(i as int)),
        decreases i,
    {
        proof {
            lemma_le_value_bound(b@.skip(i as int));
            lemma_pow256_monotone((b@.len() - i) as nat, 15);
            lemma_pow256_values();
            assert(b@.skip(i - 1).drop_first() =~= b@.skip(i as int));
        }
        acc = acc * 256 + b[i - 1] as u128;
        i = i - 1;
    }
    proof {
        assert(b@.skip(0) =~= b@);
        lemma_le_value_bound(b@);
    }
    acc
}

} // verus!
