//! Little-endian integers as sequences of bytes.

use vstd::prelude::*;

verus! {

/// The `n` lowest bytes of `x`, the lowest first.
pub open spec fn le_bytes(x: nat, n: nat) -> Seq<u8>
    decreases n,
{
    if n == 0 {
        Seq::empty()
    } else {
        seq![(x % 256) as u8] + le_bytes(x / 256, (n - 1) as nat)
    }
}

/// The number whose bytes are `s`, the lowest first.
pub open spec fn le_value(s: Seq<u8>) -> nat
    decreases s.len(),
{
    if s.len() == 0 {
        0
    } else {
        s[0] as nat + 256 * le_value(s.skip(1))
    }
}

/// 256 to the power `n`: how many numbers `n` bytes can tell apart.
pub open spec fn byte_span(n: nat) -> nat
    decreases n,
{
    if n == 0 {
        1
    } else {
        256 * byte_span((n - 1) as nat)
    }
}

/// `le_bytes` gives as many bytes as asked for.
pub proof fn lemma_le_bytes_len(x: nat, n: nat)
    ensures
        le_bytes(x, n).len() == n,
    decreases n,
{
    if n > 0 {
        lemma_le_bytes_len(x / 256, (n - 1) as nat);
    }
}

/// Reading back the bytes of a number that fits gives the number.
pub proof fn le_bytes_then_value(x: nat, n: nat)
    requires
        x < byte_span(n),
    ensures
        le_bytes(x, n).len() == n,
        le_value(le_bytes(x, n)) == x,
    decreases n,
{
    if n > 0 {
        let rest = le_bytes(x / 256, (n - 1) as nat);
        assert(x / 256 < byte_span((n - 1) as nat));
        le_bytes_then_value(x / 256, (n - 1) as nat);
        assert(le_bytes(x, n).skip(1) =~= rest);
    }
}

/// Writing the value of some bytes at their length gives the bytes back.
pub proof fn le_value_then_bytes(s: Seq<u8>)
    ensures
        le_bytes(le_value(s), s.len()) == s,
        le_value(s) < byte_span(s.len()),
    decreases s.len(),
{
    if s.len() > 0 {
        le_value_then_bytes(s.skip(1));
        let v = le_value(s.skip(1));
        let x = le_value(s);
        assert(x == s[0] as nat + 256 * v);
        assert(x % 256 == s[0] as nat);
        assert(x / 256 == v);
        assert(le_bytes(x, s.len()) =~= s);
    }
}

/// What a byte, two, four and eight bytes can hold.
pub proof fn lemma_byte_spans()
    ensures
        byte_span(1) == 0x100,
        byte_span(2) == 0x1_0000,
        byte_span(4) == 0x1_0000_0000,
        byte_span(8) == 0x1_0000_0000_0000_0000,
{
    reveal_with_fuel(byte_span, 9);
}

/// Appends the `n` lowest bytes of `x` to `out`, the lowest first.
pub(crate) fn push_le(out: &mut Vec<u8>, x: u64, n: usize)
    ensures
        final(out)@ == old(out)@ + le_bytes(x as nat, n as nat),
{
    let mut v: u64 = x;
    let mut i: usize = 0;
    assert(out@ + le_bytes(v as nat, n as nat) =~= old(out)@ + le_bytes(x as nat, n as nat));
    while i < n
        invariant
            i <= n,
            out@ + le_bytes(v as nat, (n - i) as nat) == old(out)@ + le_bytes(x as nat, n as nat),
        decreases n - i,
    {
        let ghost before = out@;
        let low: u8 = (v % 256) as u8;
        out.push(low);
        proof {
            assert(before + le_bytes(v as nat, (n - i) as nat) =~= out@ + le_bytes(
                (v / 256) as nat,
                (n - i - 1) as nat,
            ));
        }
        v = v / 256;
        i = i + 1;
    }
    assert(out@ + le_bytes(v as nat, 0) =~= out@);
}

/// The number that the `n` bytes of `data` from `at` on stand for.
pub(crate) fn read_le(data: &[u8], at: usize, n: usize) -> (x: u64)
    requires
        n <= 8,
        at + n <= data@.len(),
    ensures
        x as nat == le_value(data@.subrange(at as int, at + n)),
        x < byte_span(n as nat),
{
    let len: usize = data.len();
    let mut x: u64 = 0;
    let mut i: usize = n;
    assert(data@.subrange(at + n, at + n) =~= Seq::empty());
    while i > 0
        invariant
            i <= n <= 8,
            at + n <= len,
            len == data@.len(),
            x as nat == le_value(data@.subrange(at + i, at + n)),
        decreases i,
    {
        let ghost tail = data@.subrange(at + i, at + n);
        let ghost grown = data@.subrange(at + i - 1, at + n);
        proof {
            le_value_then_bytes(tail);
            lemma_span_monotone(tail.len(), 7);
            assert(byte_span(7) == 0x100_0000_0000_0000) by {
                reveal_with_fuel(byte_span, 8);
            }
            assert(grown.skip(1) =~= tail);
        }
        i = i - 1;
        x = x * 256 + data[at + i] as u64;
    }
    proof {
        le_value_then_bytes(data@.subrange(at as int, at + n));
    }
    x
}

proof fn lemma_span_monotone(a: nat, b: nat)
    requires
        a <= b,
    ensures
        byte_span(a) <= byte_span(b),
    decreases b,
{
    if a < b {
        lemma_span_monotone(a, (b - 1) as nat);
    }
}

/// The lowest byte comes first, and counts once; each byte behind it counts 256 times as
/// much as the one before.
pub proof fn lowest_byte_comes_first(x: nat, n: nat, s: Seq<u8>)
    requires
        n > 0,
        s.len() > 0,
    ensures
        le_bytes(x, n)[0] == x % 256,
        le_bytes(x, n).skip(1) == le_bytes(x / 256, (n - 1) as nat),
        le_value(s) == s[0] + 256 * le_value(s.skip(1)),
        le_value(Seq::empty()) == 0,
{
    assert(le_bytes(x, n).skip(1) =~= le_bytes(x / 256, (n - 1) as nat));
}

} // verus!
