//! Big-endian integers on the wire.

use vstd::prelude::*;

verus! {

/// The number that `s` spells in base 256, most significant byte first.
pub open spec fn be_value(s: Seq<u8>) -> nat
    decreases s.len(),
{
    if s.len() == 0 {
        0
    } else {
        be_value(s.drop_last()) * 256 + s.last() as nat
    }
}

/// The `n` low bytes of `v`, most significant byte first.
pub open spec fn be_bytes(v: nat, n: nat) -> Seq<u8>
    decreases n,
{
    if n == 0 {
        Seq::empty()
    } else {
        be_bytes(v / 256, (n - 1) as nat).push((v % 256) as u8)
    }
}

/// How many numbers `n` bytes can spell.
pub open spec fn pow256(n: nat) -> nat
    decreases n,
{
    if n == 0 {
        1
    } else {
        256 * pow256((n - 1) as nat)
    }
}

pub proof fn lemma_be_bytes_len(v: nat, n: nat)
    ensures
        be_bytes(v, n).len() == n,
    decreases n,
{
    if n > 0 {
        lemma_be_bytes_len(v / 256, (n - 1) as nat);
    }
}

pub proof fn lemma_be_value_bound(s: Seq<u8>)
    ensures
        be_value(s) < pow256(s.len()),
    decreases s.len(),
{
    if s.len() > 0 {
        lemma_be_value_bound(s.drop_last());
    }
}

/// Reading `n` bytes gives back the number that was written into them.
pub proof fn law_be_read_write(v: nat, n: nat)
    requires
        v < pow256(n),
    ensures
        be_value(be_bytes(v, n)) == v,
    decreases n,
{
    lemma_be_bytes_len(v, n);
    if n > 0 {
        law_be_read_write(v / 256, (n - 1) as nat);
        assert(be_bytes(v, n).drop_last() =~= be_bytes(v / 256, (n - 1) as nat));
    }
}

/// Writing the number that bytes spell gives back those bytes.
pub proof fn law_be_write_read(s: Seq<u8>)
    ensures
        be_bytes(be_value(s), s.len()) == s,
    decreases s.len(),
{
    if s.len() > 0 {
        law_be_write_read(s.drop_last());
        assert(be_value(s) / 256 == be_value(s.drop_last()));
        assert(be_value(s) % 256 == s.last());
        assert(be_bytes(be_value(s), s.len()) =~= s.drop_last().push(s.last()));
    }
}

pub proof fn lemma_pow256_values()
    ensures
        pow256(4) == 0x1_0000_0000,
        pow256(8) == 0x1_0000_0000_0000_0000,
{
    reveal_with_fuel(pow256, 9);
}

/// Appends the `n` low bytes of `v` to `buf`.
pub fn push_be(buf: &mut Vec<u8>, v: u64, n: usize)
    ensures
        final(buf)@ == old(buf)@ + be_bytes(v as nat, n as nat),
    decreases n,
{
    if n > 0 {
        push_be(buf, v / 256, n - 1);
        buf.push((v % 256) as u8);
        assert(buf@ =~= old(buf)@ + be_bytes(v as nat, n as nat));
    } else {
        assert(buf@ =~= old(buf)@ + be_bytes(v as nat, n as nat));
    }
}

/// Reads `n` bytes of `data`, starting at `from`.
pub fn read_be(data: &[u8], from: usize, n: usize) -> (v: u64)
    requires
        n <= 8,
        from + n <= data@.len(),
    ensures
        v == be_value(data@.subrange(from as int, from + n)),
{
    let len: usize = data.len();
    let mut v: u64 = 0;
    let mut i: usize = 0;
    while i < n
        invariant
            i <= n <= 8,
            from + n <= data@.len() == len,
            v == be_value(data@.subrange(from as int, from + i)),
        decreases n - i,
    {
        let ghost part = data@.subrange(from as int, from + i + 1);
        proof {
            assert(part.drop_last() =~= data@.subrange(from as int, from + i));
            lemma_be_value_bound(part);
            reveal_with_fuel(pow256, 9);
            assert(pow256(part.len()) <= pow256(8));
        }
        v = v * 256 + data[from + i] as u64;
        i = i + 1;
    }
    v
}

/// Four bytes hold the number in the order in which it is written down: the
/// most significant byte comes first.
pub proof fn law_big_endian(v: nat)
    ensures
        be_bytes(v, 4) == seq![
            (v / 0x100_0000 % 256) as u8,
            (v / 0x1_0000 % 256) as u8,
            (v / 0x100 % 256) as u8,
            (v % 256) as u8,
        ],
{
    reveal_with_fuel(be_bytes, 5);
    assert(v / 256 / 256 == v / 0x1_0000);
    assert(v / 256 / 256 / 256 == v / 0x100_0000);
    assert(be_bytes(v, 4) =~= seq![
        (v / 0x100_0000 % 256) as u8,
        (v / 0x1_0000 % 256) as u8,
        (v / 0x100 % 256) as u8,
        (v % 256) as u8,
    ]);
}

/// A wider number is its upper half, then its lower half.
pub proof fn law_upper_half_first(v: nat)
    ensures
        be_bytes(v, 8) == be_bytes(v / 0x1_0000_0000, 4) + be_bytes(v, 4),
{
    law_big_endian(v);
    reveal_with_fuel(be_bytes, 5);
    let w = v / 256 / 256 / 256 / 256;
    assert(w == v / 0x1_0000_0000);
    assert(v / 256 / 256 == v / 0x1_0000);
    assert(v / 256 / 256 / 256 == v / 0x100_0000);
    let a = be_bytes(w, 4);
    assert(be_bytes(v / 256 / 256 / 256, 5) == a.push((v / 256 / 256 / 256 % 256) as u8));
    assert(be_bytes(v / 256 / 256, 6) == be_bytes(v / 256 / 256 / 256, 5).push(
        (v / 256 / 256 % 256) as u8,
    ));
    assert(be_bytes(v / 256, 7) == be_bytes(v / 256 / 256, 6).push((v / 256 % 256) as u8));
    assert(be_bytes(v, 8) == be_bytes(v / 256, 7).push((v % 256) as u8));
    assert(be_bytes(v, 8) =~= a + be_bytes(v, 4));
}

} // verus!
