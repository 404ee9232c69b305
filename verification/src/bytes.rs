//! Fixed-width big-endian integers.
use vstd::prelude::*;

verus! {

/// `256` to the power `n`.
pub open spec fn pow256(n: nat) -> nat
    decreases n,
{
    if n == 0 {
        1
    } else {
        256 * pow256((n - 1) as nat)
    }
}

/// The unsigned integer that the bytes of `s` hold, most significant first.
pub open spec fn be_value(s: Seq<u8>) -> nat
    decreases s.len(),
{
    if s.len() == 0 {
        0
    } else {
        be_value(s.drop_last()) * 256 + s.last() as nat
    }
}

/// The `n` bytes, most significant first, of `x` modulo `256^n`.
pub open spec fn be_bytes(x: nat, n: nat) -> Seq<u8>
    decreases n,
{
    if n == 0 {
        Seq::empty()
    } else {
        be_bytes(x / 256, (n - 1) as nat).push((x % 256) as u8)
    }
}

/// The value of `n` big-endian bytes is below `256^n`.
pub proof fn lemma_be_value_bound(s: Seq<u8>)
    ensures
        be_value(s) < pow256(s.len()),
    decreases s.len(),
{
    if s.len() > 0 {
        lemma_be_value_bound(s.drop_last());
        let a = be_value(s.drop_last());
        let p = pow256(s.drop_last().len());
        assert(a * 256 + 255 < 256 * p) by (nonlinear_arith)
            requires
                a < p,
        ;
    }
}

/// Writing `n` bytes of `x` and reading them back gives `x` modulo `256^n`,
/// and the bytes are `n`.
pub proof fn lemma_be_roundtrip(x: nat, n: nat)
    ensures
        be_bytes(x, n).len() == n,
        be_value(be_bytes(x, n)) == x % pow256(n),
    decreases n,
{
    if n > 0 {
        lemma_be_roundtrip(x / 256, (n - 1) as nat);
        let p = pow256((n - 1) as nat);
        assert(be_bytes(x, n).drop_last() =~= be_bytes(x / 256, (n - 1) as nat));
        assert(p > 0) by {
            lemma_pow256_positive((n - 1) as nat);
        }
        vstd::arithmetic::div_mod::lemma_breakdown(x as int, 256, p as int);
    }
}

/// Powers of 256 are positive.
pub proof fn lemma_pow256_positive(n: nat)
    ensures
        pow256(n) > 0,
    decreases n,
{
    if n > 0 {
        lemma_pow256_positive((n - 1) as nat);
    }
}

/// Reads `n` big-endian bytes from the start of `input`.
pub fn read_be(input: &[u8], n: usize) -> (r: u64)
    requires
        n <= 8,
        n <= input@.len(),
    ensures
        r == be_value(input@.take(n as int)),
{
    let mut acc: u64 = 0;
    let mut i: usize = 0;
    proof {
        lemma_pow256_monotone(0, 8);
        assert(pow256(0) == 1);
        assert(input@.take(0) =~= Seq::<u8>::empty());
    }
    while i < n
        invariant
            i <= n <= 8,
            n <= input@.len(),
            acc == be_value(input@.take(i as int)),
            acc < pow256(i as nat),
            pow256(i as nat) <= pow256(8),
        decreases n - i,
    {
        let b = input[i];
        proof {
            assert(input@.take(i as int + 1).drop_last() =~= input@.take(i as int));
            lemma_be_value_bound(input@.take(i as int + 1));
            lemma_pow256_monotone((i + 1) as nat, 8);
            lemma_pow256_8();
        }
        acc = acc * 256 + b as u64;
        i = i + 1;
    }
    acc
}

/// `256^8` is `2^64`.
pub proof fn lemma_pow256_8()
    ensures
        pow256(8) == 0x1_0000_0000_0000_0000,
{
    reveal_with_fuel(pow256, 9);
}

/// Powers of 256 grow with the exponent.
pub proof fn lemma_pow256_monotone(a: nat, b: nat)
    requires
        a <= b,
    ensures
        pow256(a) <= pow256(b),
    decreases b,
{
    if a < b {
        lemma_pow256_monotone(a, (b - 1) as nat);
        lemma_pow256_positive((b - 1) as nat);
    }
}

/// Appends the `n` big-endian bytes of `x` to `out`.
pub fn write_be(out: &mut Vec<u8>, x: u64, n: usize)
    requires
        n <= 8,
    ensures
        final(out)@ == old(out)@ + be_bytes(x as nat, n as nat),
{
    let mut tmp: Vec<u8> = Vec::new();
    let mut v: u64 = x;
    assert(pow256(0) == 1);
    let mut i: usize = 0;
    while i < n
        invariant
            i <= n <= 8,
            tmp@.len() == i,
            forall|k: int| 0 <= k < i ==> tmp@[k] == be_bytes(x as nat, n as nat)[n - 1 - k],
            v as nat == (x as nat) / pow256(i as nat),
        decreases n - i,
    {
        proof {
            lemma_be_bytes_index(x as nat, n as nat, i as nat);
            lemma_pow256_positive(i as nat);
            vstd::arithmetic::div_mod::lemma_div_denominator(x as int, pow256(i as nat) as int, 256);
            assert(pow256(i as nat) * 256 == pow256(i as nat + 1)) by (nonlinear_arith)
                requires
                    pow256(i as nat + 1) == 256 * pow256(i as nat),
            ;
        }
        tmp.push((v % 256) as u8);
        v = v / 256;
        i = i + 1;
    }
    let mut j: usize = n;
    while j > 0
        invariant
            j <= n <= 8,
            tmp@.len() == n,
            forall|k: int| 0 <= k < n ==> tmp@[k] == be_bytes(x as nat, n as nat)[n - 1 - k],
            out@ == old(out)@ + be_bytes(x as nat, n as nat).take(n - j),
        decreases j,
    {
        proof { lemma_be_roundtrip(x as nat, n as nat); }
        let ghost before = out@;
        out.push(tmp[j - 1]);
        assert(be_bytes(x as nat, n as nat).take(n - j + 1) =~= be_bytes(x as nat, n as nat).take(n - j).push(be_bytes(x as nat, n as nat)[n - j]));
        j = j - 1;
    }
    proof { lemma_be_roundtrip(x as nat, n as nat); }
    assert(be_bytes(x as nat, n as nat).take(n as int) =~= be_bytes(x as nat, n as nat));
}

/// Byte `n - 1 - i` of the encoding, counted from the most significant, is
/// the `i`-th least significant byte of `x`.
pub proof fn lemma_be_bytes_index(x: nat, n: nat, i: nat)
    requires
        i < n,
    ensures
        be_bytes(x, n).len() == n,
        be_bytes(x, n)[n - 1 - i] == ((x / pow256(i)) % 256) as u8,
    decreases n,
{
    lemma_be_roundtrip(x, n);
    if i == 0 {
        assert(pow256(0) == 1);
    } else {
        lemma_be_bytes_index(x / 256, (n - 1) as nat, (i - 1) as nat);
        lemma_pow256_positive((i - 1) as nat);
        vstd::arithmetic::div_mod::lemma_div_denominator(x as int, 256, pow256((i - 1) as nat) as int);
        assert(pow256(i) == 256 * pow256((i - 1) as nat));
        assert(x / pow256(i) == (x / 256) / pow256((i - 1) as nat));
        lemma_be_roundtrip(x / 256, (n - 1) as nat);
        assert(be_bytes(x, n)[n - 1 - i] == be_bytes(x / 256, (n - 1) as nat)[n - 1 - i]);
    }
}

} // verus!
