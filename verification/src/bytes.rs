//! Little-endian numbers and regions of a byte buffer.

#[allow(unused_imports)]
use vstd::arithmetic::div_mod::lemma_div_denominator;
#[allow(unused_imports)]
use vstd::arithmetic::power::{lemma_pow_positive, pow};
use vstd::prelude::*;

verus! {

/// The `n` little-endian bytes of `x`.
pub open spec fn le_bytes(x: nat, n: nat) -> Seq<u8>
    decreases n,
{
    if n == 0 {
        seq![]
    } else {
        seq![(x % 256) as u8] + le_bytes(x / 256, (n - 1) as nat)
    }
}

/// The number whose little-endian bytes are `b`.
pub open spec fn le_value(b: Seq<u8>) -> nat
    decreases b.len(),
{
    if b.len() == 0 {
        0
    } else {
        b[0] as nat + 256 * le_value(b.skip(1))
    }
}

/// How many numbers `n` bytes can tell apart.
pub open spec fn byte_span(n: nat) -> nat
    decreases n,
{
    if n == 0 {
        1
    } else {
        256 * byte_span((n - 1) as nat)
    }
}

/// `s` with the bytes from `at` on replaced by `b`.
pub open spec fn splice(s: Seq<u8>, at: int, b: Seq<u8>) -> Seq<u8> {
    s.take(at) + b + s.skip(at + b.len())
}

/// Writes `data` over the bytes of `buf` from `at` on.
pub fn copy_into(buf: &mut [u8], at: usize, data: &[u8])
    requires
        at + data@.len() <= old(buf)@.len(),
    ensures
        final(buf)@ == splice(old(buf)@, at as int, data@),
{
    let n: usize = data.len();
    let total: usize = buf.len();
    let mut j: usize = 0;
    while j < n
        invariant
            j <= n,
            n == data@.len(),
            at + n <= old(buf)@.len(),
            buf@.len() == old(buf)@.len(),
            total == old(buf)@.len(),
            forall|k: int| at <= k < at + j ==> buf@[k] == data@[k - at],
            forall|k: int| 0 <= k < at || at + j <= k < buf@.len() ==> buf@[k] == old(buf)@[k],
        decreases n - j,
    {
        buf[at + j] = data[j];
        j += 1;
    }
    assert(buf@ =~= splice(old(buf)@, at as int, data@));
}

pub proof fn lemma_le_bytes_len(x: nat, n: nat)
    ensures
        le_bytes(x, n).len() == n,
    decreases n,
{
    if n > 0 {
        lemma_le_bytes_len(x / 256, (n - 1) as nat);
    }
}

pub proof fn lemma_le_value_bound(b: Seq<u8>)
    ensures
        le_value(b) < byte_span(b.len()),
    decreases b.len(),
{
    if b.len() > 0 {
        lemma_le_value_bound(b.skip(1));
    }
}

/// Reading back the bytes of a number gives the number.
pub proof fn lemma_le_read_back(x: nat, n: nat)
    requires
        x < byte_span(n),
    ensures
        le_value(le_bytes(x, n)) == x,
    decreases n,
{
    if n > 0 {
        lemma_le_read_back(x / 256, (n - 1) as nat);
        assert(le_bytes(x, n).skip(1) =~= le_bytes(x / 256, (n - 1) as nat));
    }
}

/// Bytes are determined by the number they stand for.
pub proof fn lemma_le_write_back(b: Seq<u8>)
    ensures
        le_bytes(le_value(b), b.len()) == b,
    decreases b.len(),
{
    if b.len() > 0 {
        lemma_le_write_back(b.skip(1));
        let v = le_value(b);
        assert(v % 256 == b[0] && v / 256 == le_value(b.skip(1)));
        assert(le_bytes(v, b.len()) =~= seq![b[0]] + b.skip(1));
        assert(seq![b[0]] + b.skip(1) =~= b);
    } else {
        assert(le_bytes(0, 0) =~= b);
    }
}

/// The `n` little-endian bytes of a number.
pub fn to_le(x: u64, n: usize) -> (r: Vec<u8>)
    ensures
        r@ == le_bytes(x as nat, n as nat),
        r@.len() == n,
{
    let mut out: Vec<u8> = Vec::new();
    let mut left: u64 = x;
    let mut i: usize = 0;
    assert(out@ + le_bytes(x as nat, n as nat) =~= le_bytes(x as nat, n as nat));
    while i < n
        invariant
            i <= n,
            out@.len() == i,
            out@ + le_bytes(left as nat, (n - i) as nat) == le_bytes(x as nat, n as nat),
        decreases n - i,
    {
        let ghost before = out@;
        out.push((left % 256) as u8);
        assert(out@ + le_bytes(left as nat / 256, (n - i - 1) as nat) =~= before + le_bytes(
            left as nat,
            (n - i) as nat,
        ));
        left = left / 256;
        i += 1;
    }
    assert(out@ + le_bytes(left as nat, 0) =~= out@);
    out
}

/// Reads the number whose little-endian bytes are the `n` bytes from `at` on.
pub fn from_le(buf: &[u8], at: usize, n: usize) -> (r: u64)
    requires
        at + n <= buf@.len(),
        n <= 8,
    ensures
        r == le_value(buf@.subrange(at as int, at + n)),
        r < byte_span(n as nat),
{
    let total: usize = buf.len();
    let mut value: u64 = 0;
    let mut i: usize = n;
    assert(buf@.subrange(at + n, at + n) =~= seq![]);
    while i > 0
        invariant
            i <= n <= 8,
            at + n <= buf@.len(),
            total == buf@.len(),
            value == le_value(buf@.subrange(at + i, at + n)),
        decreases i,
    {
        let ghost tail = buf@.subrange(at + i, at + n);
        let ghost longer = buf@.subrange(at + i - 1, at + n);
        proof {
            assert(longer.skip(1) =~= tail);
            lemma_le_value_bound(tail);
            assert(byte_span(tail.len()) <= 0x100_0000_0000_0000) by {
                reveal_with_fuel(byte_span, 9);
            }
        }
        value = buf[at + i - 1] as u64 + 256 * value;
        i -= 1;
    }
    proof {
        lemma_le_value_bound(buf@.subrange(at as int, at + n));
    }
    value
}

/// Byte `k` of a little-endian number counts the units of 256 to the power of
/// `k` in it.
pub proof fn law_little_endian(x: nat, n: nat, k: nat)
    requires
        k < n,
    ensures
        le_bytes(x, n).len() == n,
        le_bytes(x, n)[k as int] == (x as int / pow(256, k)) % 256,
    decreases n,
{
    reveal(pow);
    lemma_le_bytes_len(x, n);
    lemma_le_bytes_len(x / 256, (n - 1) as nat);
    if k > 0 {
        let j = (k - 1) as nat;
        law_little_endian(x / 256, (n - 1) as nat, j);
        lemma_pow_positive(256, j);
        lemma_div_denominator(x as int, 256, pow(256, j));
        assert(le_bytes(x, n)[k as int] == le_bytes(x / 256, (n - 1) as nat)[j as int]);
    }
}

} // verus!
