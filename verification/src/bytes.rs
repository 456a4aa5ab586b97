//! Small verified helpers on byte vectors: appending, equality, and the
//! little-endian encoding of a 64-bit integer.

use vstd::prelude::*;

verus! {

/// The eight little-endian bytes of a 64-bit integer.
pub open spec fn le64(v: u64) -> Seq<u8> {
    seq![
        (v % 256) as u8,
        ((v / 256) % 256) as u8,
        ((v / 65536) % 256) as u8,
        ((v / 16777216) % 256) as u8,
        ((v / 4294967296) % 256) as u8,
        ((v / 1099511627776) % 256) as u8,
        ((v / 281474976710656) % 256) as u8,
        ((v / 72057594037927936) % 256) as u8,
    ]
}

/// Two distinct integers never share their little-endian bytes.
pub proof fn lemma_le64_injective(a: u64, b: u64)
    requires
        le64(a) == le64(b),
    ensures
        a == b,
{
    assert(a % 256 == b % 256) by {
        assert(le64(a)[0] == le64(b)[0]);
    };
    assert((a / 256) % 256 == (b / 256) % 256) by {
        assert(le64(a)[1] == le64(b)[1]);
    };
    assert((a / 65536) % 256 == (b / 65536) % 256) by {
        assert(le64(a)[2] == le64(b)[2]);
    };
    assert((a / 16777216) % 256 == (b / 16777216) % 256) by {
        assert(le64(a)[3] == le64(b)[3]);
    };
    assert((a / 4294967296) % 256 == (b / 4294967296) % 256) by {
        assert(le64(a)[4] == le64(b)[4]);
    };
    assert((a / 1099511627776) % 256 == (b / 1099511627776) % 256) by {
        assert(le64(a)[5] == le64(b)[5]);
    };
    assert((a / 281474976710656) % 256 == (b / 281474976710656) % 256) by {
        assert(le64(a)[6] == le64(b)[6]);
    };
    assert((a / 72057594037927936) % 256 == (b / 72057594037927936) % 256) by {
        assert(le64(a)[7] == le64(b)[7]);
    };
    assert(a == b) by (bit_vector)
        requires
            a % 256 == b % 256,
            (a / 256) % 256 == (b / 256) % 256,
            (a / 65536) % 256 == (b / 65536) % 256,
            (a / 16777216) % 256 == (b / 16777216) % 256,
            (a / 4294967296) % 256 == (b / 4294967296) % 256,
            (a / 1099511627776) % 256 == (b / 1099511627776) % 256,
            (a / 281474976710656) % 256 == (b / 281474976710656) % 256,
            (a / 72057594037927936) % 256 == (b / 72057594037927936) % 256,
    ;
}

/// Splitting a concatenation after a prefix of known length recovers both
/// parts: equal concatenations with equally long left parts have equal left
/// parts and equal right parts.
pub proof fn lemma_concat_fixed_split(x1: Seq<u8>, y1: Seq<u8>, x2: Seq<u8>, y2: Seq<u8>)
    requires
        x1.len() == x2.len(),
        x1 + y1 == x2 + y2,
    ensures
        x1 == x2,
        y1 == y2,
{
    let s1 = x1 + y1;
    let s2 = x2 + y2;
    assert(s1.len() == x1.len() + y1.len());
    assert(s2.len() == x2.len() + y2.len());
    assert forall|i: int| 0 <= i < x1.len() implies x1[i] == x2[i] by {
        assert(s1[i] == x1[i]);
        assert(s2[i] == x2[i]);
    }
    assert(x1 =~= x2);
    assert forall|j: int| 0 <= j < y1.len() implies y1[j] == y2[j] by {
        assert(s1[x1.len() + j] == y1[j]);
        assert(s2[x2.len() + j] == y2[j]);
    }
    assert(y1 =~= y2);
}

/// Appends the little-endian bytes of `v` to `out`.
pub fn push_le64(out: &mut Vec<u8>, v: u64)
    ensures
        final(out)@ == old(out)@ + le64(v),
{
    out.push((v % 256) as u8);
    out.push(((v / 256) % 256) as u8);
    out.push(((v / 65536) % 256) as u8);
    out.push(((v / 16777216) % 256) as u8);
    out.push(((v / 4294967296) % 256) as u8);
    out.push(((v / 1099511627776) % 256) as u8);
    out.push(((v / 281474976710656) % 256) as u8);
    out.push(((v / 72057594037927936) % 256) as u8);
    assert(out@ =~= old(out)@ + le64(v));
}

/// Appends all of `data` to `out`.
pub fn append_bytes(out: &mut Vec<u8>, data: &[u8])
    ensures
        final(out)@ == old(out)@ + data@,
{
    let mut i: usize = 0;
    while i < data.len()
        invariant
            i <= data@.len(),
            out@ == old(out)@ + data@.subrange(0, i as int),
        decreases data@.len() - i,
    {
        out.push(data[i]);
        i = i + 1;
        assert(out@ =~= old(out)@ + data@.subrange(0, i as int));
    }
    assert(out@ =~= old(out)@ + data@);
}

/// Whether two byte slices hold the same bytes.
pub fn bytes_eq(a: &[u8], b: &[u8]) -> (r: bool)
    ensures
        r == (a@ == b@),
{
    if a.len() != b.len() {
        assert(a@ != b@);
        return false;
    }
    let mut i: usize = 0;
    while i < a.len()
        invariant
            i <= a@.len(),
            a@.len() == b@.len(),
            forall|j: int| 0 <= j < i ==> a@[j] == b@[j],
        decreases a@.len() - i,
    {
        if a[i] != b[i] {
            return false;
        }
        i = i + 1;
    }
    assert(a@ =~= b@);
    true
}

} // verus!
