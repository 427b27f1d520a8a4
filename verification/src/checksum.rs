//! The internet checksum: the ones'-complement of the ones'-complement sum
//! of a byte region taken as 16-bit big-endian words, an odd trailing byte
//! padded with zero. Layers whose headers carry such a field recompute it
//! during reconciliation, after all inner layers are final.

use vstd::prelude::*;

verus! {

use crate::buf::Buf;
use crate::buf::be16;
use crate::buf::set_be16;

/// The plain sum of the 16-bit big-endian words of `b[i..]`, an odd
/// trailing byte taken as the high byte of a final word.
pub open spec fn sum16_from(b: Seq<u8>, i: int) -> int
    decreases b.len() - i,
{
    if i < 0 || i >= b.len() {
        0
    } else if i + 1 == b.len() {
        (b[i] as int) * 0x100
    } else {
        (b[i] as int) * 0x100 + (b[i + 1] as int) + sum16_from(b, i + 2)
    }
}

/// Fold the carries of a word sum back in until it fits 16 bits: the
/// ones'-complement sum.
pub open spec fn fold16(n: int) -> int
    decreases n,
{
    if n < 0x1_0000 {
        n
    } else {
        fold16(n / 0x1_0000 + n % 0x1_0000)
    }
}

/// The internet checksum of `b`.
pub open spec fn checksum16(b: Seq<u8>) -> int {
    0xffff - fold16(sum16_from(b, 0))
}

/// The 16-bit checksum field at `field` is valid for the region
/// `b[start..end)`: it equals the internet checksum of that region
/// computed with the field itself zeroed.
pub open spec fn checksum_field_ok(b: Seq<u8>, field: int, start: int, end: int) -> bool {
    be16(b, field) == checksum16(set_be16(b, field, 0).subrange(start, end))
}

/// A checksum field over a region stays valid when only bytes outside the
/// region change: reconciling an outer layer cannot invalidate an inner
/// layer's already reconciled checksum.
pub proof fn lemma_checksum_field_unaffected(
    b1: Seq<u8>,
    b2: Seq<u8>,
    field: int,
    start: int,
    end: int,
)
    requires
        b1.len() == b2.len(),
        0 <= start <= end <= b1.len(),
        start <= field,
        field + 2 <= end,
        forall|i: int| start <= i < end ==> b1[i] == b2[i],
    ensures
        checksum_field_ok(b1, field, start, end) == checksum_field_ok(b2, field, start, end),
{
    assert(set_be16(b1, field, 0).subrange(start, end) =~= set_be16(b2, field, 0).subrange(
        start,
        end,
    ));
}

/// Compute the internet checksum of `buf[start..end)`.
pub fn compute_checksum(buf: &Buf, start: usize, end: usize) -> (r: u16)
    requires
        start <= end,
        end <= buf@.len(),
        end - start <= 0xffff_ffff,
    ensures
        r as int == checksum16(buf@.subrange(start as int, end as int)),
{
    let ghost region = buf@.subrange(start as int, end as int);
    let n: usize = end - start;
    let mut acc: u64 = 0;
    let mut i: usize = 0;
    while i < n
        invariant
            i <= n,
            i % 2 == 0 || i == n,
            n == end - start,
            start <= end <= buf@.len(),
            n <= 0xffff_ffff,
            region == buf@.subrange(start as int, end as int),
            acc as int + sum16_from(region, i as int) == sum16_from(region, 0),
            acc as int <= (i as int + 1) * 0x1_0000,
        decreases n - i,
    {
        let hi = buf.read_u8(start + i);
        if i + 1 < n {
            let lo = buf.read_u8(start + i + 1);
            acc = acc + (hi as u64) * 0x100 + (lo as u64);
            i = i + 2;
        } else {
            acc = acc + (hi as u64) * 0x100;
            i = i + 1;
        }
    }
    let mut s: u64 = acc;
    while s >= 0x1_0000
        invariant
            fold16(s as int) == fold16(acc as int),
        decreases s,
    {
        s = s / 0x1_0000 + s % 0x1_0000;
    }
    0xffff - (s as u16)
}

} // verus!
