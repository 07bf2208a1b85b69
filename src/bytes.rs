use vstd::prelude::*;

verus! {

/// The `k` least significant base-256 digits of `n`, least significant first.
pub open spec fn digits(n: int, k: int) -> Seq<u8> {
    Seq::new(k as nat, |i: int| ((n / pow256(i)) % 256) as u8)
}

/// Little-endian bytes of a 64-bit counter.
pub open spec fn u64_le(n: u64) -> Seq<u8> {
    digits(n as int, 8)
}

/// Little-endian bytes of a 32-bit length.
pub open spec fn u32_le(n: int) -> Seq<u8> {
    digits(n, 4)
}

pub open spec fn pow256(i: int) -> int
    decreases i,
{
    if i <= 0 { 1 } else { 256 * pow256(i - 1) }
}

pub fn le_bytes(n: u64) -> (r: Vec<u8>)
    ensures
        r@ == u64_le(n),
{
    le_digits(n, 8)
}

/// The `k` least significant bytes of `n`, least significant first.
pub fn le_digits(n: u64, k: usize) -> (r: Vec<u8>)
    requires
        k <= 8,
    ensures
        r@ == digits(n as int, k as int),
{
    let mut r: Vec<u8> = Vec::new();
    let mut rest: u64 = n;
    let mut i: usize = 0;
    while i < k
        invariant
            0 <= i <= k,
            k <= 8,
            r@.len() == i,
            rest as int == n as int / pow256(i as int),
            forall|j: int| 0 <= j < i ==> r@[j] == ((n as int / pow256(j)) % 256) as u8,
        decreases k - i,
    {
        assert(pow256(i as int + 1) == 256 * pow256(i as int));
        assert(pow256(i as int) > 0) by {
            lemma_pow256_positive(i as int);
        }
        assert(n as int / pow256(i as int + 1) == (n as int / pow256(i as int)) / 256) by {
            vstd::arithmetic::div_mod::lemma_div_denominator(n as int, pow256(i as int), 256);
        }
        r.push((rest % 256) as u8);
        rest = rest / 256;
        i = i + 1;
    }
    assert(r@ =~= digits(n as int, k as int));
    r
}

pub proof fn lemma_pow256_positive(i: int)
    ensures
        pow256(i) > 0,
    decreases i,
{
    if i > 0 {
        lemma_pow256_positive(i - 1);
    }
}

/// The number that `s` encodes, least significant byte first.
pub open spec fn le_value(s: Seq<u8>) -> nat
    decreases s.len(),
{
    if s.len() == 0 {
        0
    } else {
        s[0] as nat + 256 * le_value(s.drop_first())
    }
}

pub proof fn lemma_pow256_step(i: int)
    requires
        i >= 0,
    ensures
        pow256(i + 1) == 256 * pow256(i),
{
}

/// Reads the little-endian number of `len` bytes at `start`.
pub fn read_le(data: &Vec<u8>, start: usize, len: usize) -> (r: u64)
    requires
        len <= 8,
        start + len <= data@.len(),
    ensures
        r as nat == le_value(data@.subrange(start as int, start + len)),
        len <= 4 ==> r <= u32::MAX,
        len <= 2 ==> r <= u16::MAX,
{
    let n: usize = data.len();
    let end: usize = start + len;
    let mut acc: u64 = 0;
    let mut i: usize = end;
    assert(pow256(8) == 0x1_0000_0000_0000_0000) by {
        reveal_with_fuel(pow256, 9);
    }
    while i > start
        invariant
            start <= i <= end,
            end == start + len,
            len <= 8,
            end <= data@.len(),
            acc as nat == le_value(data@.subrange(i as int, end as int)),
            (acc as int) < pow256(end - i),
            pow256(8) == 0x1_0000_0000_0000_0000,
        decreases i - start,
    {
        let ghost k: int = end - i;
        proof {
            lemma_pow256_step(k);
            lemma_pow256_monotone(k + 1, 8);
        }
        let b: u8 = data[i - 1];
        assert((acc as int) * 256 + (b as int) < pow256(k + 1)) by (nonlinear_arith)
            requires
                (acc as int) < pow256(k),
                pow256(k + 1) == 256 * pow256(k),
                0 <= b < 256,
        ;
        assert(data@.subrange(i - 1, end as int).drop_first() =~= data@.subrange(i as int, end as int));
        acc = acc * 256 + (b as u64);
        i = i - 1;
    }
    proof {
        if len <= 4 {
            lemma_pow256_monotone(len as int, 4);
            reveal_with_fuel(pow256, 5);
        }
        if len <= 2 {
            lemma_pow256_monotone(len as int, 2);
            reveal_with_fuel(pow256, 3);
        }
    }
    acc
}

pub proof fn lemma_pow256_monotone(a: int, b: int)
    requires
        0 <= a <= b,
    ensures
        pow256(a) <= pow256(b),
    decreases b - a,
{
    if a < b {
        lemma_pow256_monotone(a, b - 1);
        lemma_pow256_positive(b - 1);
    }
}

/// Reading back the digits of a number that fits gives the number.
pub proof fn lemma_le_value_digits(n: int, k: int)
    requires
        0 <= n < pow256(k),
        k >= 0,
    ensures
        le_value(digits(n, k)) == n,
    decreases k,
{
    if k == 0 {
        assert(digits(n, k) =~= Seq::<u8>::empty());
    } else {
        lemma_pow256_step(k - 1);
        assert(n / 256 < pow256(k - 1)) by {
            vstd::arithmetic::div_mod::lemma_div_is_ordered(n, 256 * pow256(k - 1) - 1, 256);
            vstd::arithmetic::div_mod::lemma_div_multiples_vanish_fancy(pow256(k - 1) - 1, 255, 256);
            lemma_pow256_positive(k - 1);
            assert(256 * pow256(k - 1) - 1 == 256 * (pow256(k - 1) - 1) + 255) by (nonlinear_arith);
        }
        vstd::arithmetic::div_mod::lemma_div_pos_is_pos(n, 256);
        lemma_le_value_digits(n / 256, k - 1);
        assert forall|i: int| 0 <= i < k - 1 implies digits(n, k).drop_first()[i] == digits(n / 256, k - 1)[i] by {
            lemma_pow256_positive(i);
            lemma_pow256_step(i);
            vstd::arithmetic::div_mod::lemma_div_denominator(n, 256, pow256(i));
        }
        assert(digits(n, k).drop_first() =~= digits(n / 256, k - 1));
        assert(pow256(0) == 1);
        vstd::arithmetic::div_mod::lemma_fundamental_div_mod(n, 256);
    }
}

/// Writing out the value of a byte string as digits gives the byte string back.
pub proof fn lemma_digits_le_value(x: Seq<u8>)
    ensures
        digits(le_value(x) as int, x.len() as int) == x,
    decreases x.len(),
{
    if x.len() > 0 {
        let v = le_value(x) as int;
        let rest = x.drop_first();
        lemma_digits_le_value(rest);
        assert(v == x[0] as int + 256 * le_value(rest));
        assert(v / 256 == le_value(rest) as int && v % 256 == x[0] as int) by {
            vstd::arithmetic::div_mod::lemma_fundamental_div_mod_converse(v, 256, le_value(rest) as int, x[0] as int);
        }
        assert forall|i: int| 0 <= i < x.len() implies digits(v, x.len() as int)[i] == x[i] by {
            if i > 0 {
                lemma_pow256_positive(i - 1);
                lemma_pow256_step(i - 1);
                vstd::arithmetic::div_mod::lemma_div_denominator(v, 256, pow256(i - 1));
                assert(digits(le_value(rest) as int, rest.len() as int)[i - 1] == rest[i - 1]);
                assert(rest[i - 1] == x[i]);
                assert(v / pow256(i) == (v / 256) / pow256(i - 1));
            } else {
                assert(pow256(0) == 1);
                assert(v / 1 == v);
            }
        }
        assert(digits(v, x.len() as int) =~= x);
    } else {
        assert(digits(le_value(x) as int, x.len() as int) =~= x);
    }
}

/// Appends `tail` to `out`.
pub fn append_bytes(out: &mut Vec<u8>, tail: &[u8])
    ensures
        final(out)@ == old(out)@ + tail@,
{
    let n: usize = tail.len();
    let mut i: usize = 0;
    while i < n
        invariant
            0 <= i <= n,
            n == tail@.len(),
            out@ == old(out)@ + tail@.subrange(0, i as int),
        decreases n - i,
    {
        out.push(tail[i]);
        i = i + 1;
        assert(out@ =~= old(out)@ + tail@.subrange(0, i as int));
    }
    assert(tail@.subrange(0, n as int) =~= tail@);
}

/// Copies the bytes from `start` up to `end`.
pub fn copy_range(data: &Vec<u8>, start: usize, end: usize) -> (r: Vec<u8>)
    requires
        start <= end <= data@.len(),
    ensures
        r@ == data@.subrange(start as int, end as int),
{
    let mut r: Vec<u8> = Vec::new();
    let mut i: usize = start;
    while i < end
        invariant
            start <= i <= end,
            end <= data@.len(),
            r@ == data@.subrange(start as int, i as int),
        decreases end - i,
    {
        r.push(data[i]);
        i = i + 1;
        assert(r@ =~= data@.subrange(start as int, i as int));
    }
    r
}

/// Copies the 32 bytes at `start` into an array.
pub fn read_array32(data: &Vec<u8>, start: usize) -> (r: [u8; 32])
    requires
        start + 32 <= data@.len(),
    ensures
        r@ == data@.subrange(start as int, start + 32),
{
    let n: usize = data.len();
    let mut r: [u8; 32] = [0u8; 32];
    let mut i: usize = 0;
    while i < 32
        invariant
            0 <= i <= 32,
            start + 32 <= data@.len(),
            n == data@.len(),
            r@.len() == 32,
            forall|j: int| 0 <= j < i ==> r@[j] == data@[start + j],
        decreases 32 - i,
    {
        r[i] = data[start + i];
        i = i + 1;
    }
    assert(r@ =~= data@.subrange(start as int, start + 32));
    r
}

} // verus!
