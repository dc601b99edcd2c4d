//! Integers as bytes, most significant byte first.

use vstd::prelude::*;
use vstd::slice::slice_subrange;

verus! {

/// How many values `width` bytes can hold.
pub open spec fn be_limit(width: nat) -> nat
    decreases width,
{
    if width == 0 {
        1
    } else {
        256 * be_limit((width - 1) as nat)
    }
}

/// The low `width` bytes of `n`, most significant first.
pub open spec fn be_bytes(n: nat, width: nat) -> Seq<u8>
    decreases width,
{
    if width == 0 {
        Seq::empty()
    } else {
        be_bytes(n / 256, (width - 1) as nat).push((n % 256) as u8)
    }
}

/// The number that the bytes make, most significant first.
pub open spec fn be_value(s: Seq<u8>) -> nat
    decreases s.len(),
{
    if s.len() == 0 {
        0
    } else {
        256 * be_value(s.drop_last()) + s.last() as nat
    }
}

pub proof fn lemma_be_bytes_len(n: nat, width: nat)
    ensures
        be_bytes(n, width).len() == width,
    decreases width,
{
    if width > 0 {
        lemma_be_bytes_len(n / 256, (width - 1) as nat);
    }
}

pub proof fn lemma_be_value_bound(s: Seq<u8>)
    ensures
        be_value(s) < be_limit(s.len()),
    decreases s.len(),
{
    if s.len() > 0 {
        lemma_be_value_bound(s.drop_last());
    }
}

pub proof fn lemma_be_limits()
    ensures
        be_limit(2) == 0x1_0000,
        be_limit(4) == 0x1_0000_0000,
        be_limit(8) == 0x1_0000_0000_0000_0000,
        be_limit(16) == 0x1_0000_0000_0000_0000_0000_0000_0000_0000,
{
    reveal_with_fuel(be_limit, 17);
}

proof fn lemma_be_limit_mono(a: nat, b: nat)
    requires
        a <= b,
    ensures
        be_limit(a) <= be_limit(b),
        be_limit(a) >= 1,
    decreases b,
{
    if a < b {
        lemma_be_limit_mono(a, (b - 1) as nat);
    } else if a > 0 {
        lemma_be_limit_mono((a - 1) as nat, (a - 1) as nat);
    }
}

/// Bytes read back as the number that was written, if it fits.
pub proof fn lemma_be_round_trip(n: nat, width: nat)
    requires
        n < be_limit(width),
    ensures
        be_value(be_bytes(n, width)) == n,
    decreases width,
{
    if width > 0 {
        lemma_be_round_trip(n / 256, (width - 1) as nat);
        assert(be_bytes(n, width).drop_last() =~= be_bytes(n / 256, (width - 1) as nat));
    }
}

/// A number writes back as the bytes that it was read from.
pub proof fn lemma_be_read_back(s: Seq<u8>)
    ensures
        be_bytes(be_value(s), s.len()) == s,
    decreases s.len(),
{
    if s.len() > 0 {
        lemma_be_read_back(s.drop_last());
        assert(s.drop_last().push(s.last()) =~= s);
    } else {
        assert(be_bytes(be_value(s), s.len()) =~= s);
    }
}

pub fn push_be(buf: &mut Vec<u8>, n: u128, width: usize)
    ensures
        final(buf)@ == old(buf)@ + be_bytes(n as nat, width as nat),
    decreases width,
{
    if width > 0 {
        push_be(buf, n / 256, width - 1);
        buf.push((n % 256) as u8);
    }
    assert(buf@ =~= old(buf)@ + be_bytes(n as nat, width as nat));
}

pub fn read_be(data: &[u8]) -> (r: u128)
    requires
        data@.len() <= 16,
    ensures
        r == be_value(data@),
        r < be_limit(data@.len()),
    decreases data@.len(),
{
    proof {
        lemma_be_value_bound(data@);
    }
    if data.len() == 0 {
        return 0;
    }
    let n: usize = data.len();
    let front = slice_subrange(data, 0, n - 1);
    let high: u128 = read_be(front);
    assert(front@ =~= data@.drop_last());
    proof {
        lemma_be_limit_mono(n as nat, 16);
        lemma_be_limits();
    }
    256 * high + data[n - 1] as u128
}

pub open spec fn i16_bytes(v: i16) -> Seq<u8> {
    be_bytes((v as u16) as nat, 2)
}

pub open spec fn i32_bytes(v: i32) -> Seq<u8> {
    be_bytes((v as u32) as nat, 4)
}

pub open spec fn i64_bytes(v: i64) -> Seq<u8> {
    be_bytes((v as u64) as nat, 8)
}

pub fn push_i16(buf: &mut Vec<u8>, v: i16)
    ensures
        final(buf)@ == old(buf)@ + i16_bytes(v),
{
    push_be(buf, (v as u16) as u128, 2)
}

pub fn push_i32(buf: &mut Vec<u8>, v: i32)
    ensures
        final(buf)@ == old(buf)@ + i32_bytes(v),
{
    push_be(buf, (v as u32) as u128, 4)
}

pub fn push_i64(buf: &mut Vec<u8>, v: i64)
    ensures
        final(buf)@ == old(buf)@ + i64_bytes(v),
{
    push_be(buf, (v as u64) as u128, 8)
}

/// The first byte counts most: it weighs as much as the bytes behind it can tell
/// apart.
pub proof fn law_first_byte_counts_most(high: u8, low: Seq<u8>)
    ensures
        be_value(seq![high] + low) == high * be_limit(low.len()) + be_value(low),
    decreases low.len(),
{
    let s = seq![high] + low;
    if low.len() == 0 {
        assert(s.drop_last() =~= Seq::<u8>::empty());
        assert(be_value(Seq::<u8>::empty()) == 0 && be_limit(0) == 1);
        assert(be_value(s) == high);
        assert(high as int * 1 == high as int);
    } else {
        law_first_byte_counts_most(high, low.drop_last());
        assert(s.drop_last() =~= seq![high] + low.drop_last());
        assert(s.last() == low.last());
        let (h, l) = (high as int, be_limit((low.len() - 1) as nat) as int);
        assert(be_limit(low.len()) == 256 * l);
        assert(256 * (h * l + be_value(low.drop_last())) == h * (256 * l) + 256 * be_value(
            low.drop_last(),
        )) by (nonlinear_arith);
        assert(be_value(s) == 256 * be_value(seq![high] + low.drop_last()) + low.last());
    }
}

} // verus!
