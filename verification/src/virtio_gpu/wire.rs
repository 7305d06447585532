//! Little-endian wire helpers shared by every encoder and decoder.
use vstd::bytes::*;
use vstd::prelude::*;
use vstd::slice::slice_subrange;

verus! {

/// The two little-endian bytes of `x`.
pub open spec fn le16(x: u16) -> Seq<u8> {
    seq![(x & 0xff) as u8, ((x >> 8u16) & 0xff) as u8]
}

/// The `u16` whose little-endian bytes are the first two of `b`.
pub open spec fn dec16(b: Seq<u8>) -> u16 {
    (b[0] as u16) | ((b[1] as u16) << 8u16)
}

/// The four little-endian bytes of `x`.
pub open spec fn le32(x: u32) -> Seq<u8> {
    spec_u32_to_le_bytes(x)
}

/// The eight little-endian bytes of `x`.
pub open spec fn le64(x: u64) -> Seq<u8> {
    spec_u64_to_le_bytes(x)
}

/// The `u16` stored little-endian at byte `at` of `s`.
pub open spec fn u16_at(s: Seq<u8>, at: int) -> u16 {
    dec16(s.subrange(at, at + 2))
}

/// The `u32` stored little-endian at byte `at` of `s`.
pub open spec fn u32_at(s: Seq<u8>, at: int) -> u32 {
    spec_u32_from_le_bytes(s.subrange(at, at + 4))
}

/// The `u64` stored little-endian at byte `at` of `s`.
pub open spec fn u64_at(s: Seq<u8>, at: int) -> u64 {
    spec_u64_from_le_bytes(s.subrange(at, at + 8))
}

/// Encoding then decoding an integer gives it back, and the encodings have
/// their fixed lengths.
pub proof fn lemma_le_round_trip()
    ensures
        forall|x: u16| #[trigger] le16(x).len() == 2 && dec16(le16(x)) == x,
        forall|x: u32| #[trigger] le32(x).len() == 4 && spec_u32_from_le_bytes(le32(x)) == x,
        forall|x: u64| #[trigger] le64(x).len() == 8 && spec_u64_from_le_bytes(le64(x)) == x,
        forall|s: Seq<u8>| s.len() == 2 ==> #[trigger] le16(dec16(s)) == s,
        forall|s: Seq<u8>| s.len() == 4 ==> #[trigger] le32(spec_u32_from_le_bytes(s)) == s,
        forall|s: Seq<u8>| s.len() == 8 ==> #[trigger] le64(spec_u64_from_le_bytes(s)) == s,
{
    assert forall|x: u16| #[trigger] le16(x).len() == 2 && dec16(le16(x)) == x by {
        let b = le16(x);
        let lo = b[0];
        let hi = b[1];
        assert(lo == (x & 0xff) as u8 && hi == ((x >> 8u16) & 0xff) as u8);
        assert((lo as u16) | ((hi as u16) << 8u16) == x) by (bit_vector)
            requires
                lo == (x & 0xff) as u8,
                hi == ((x >> 8u16) & 0xff) as u8,
        ;
    }
    assert forall|s: Seq<u8>| s.len() == 2 implies #[trigger] le16(dec16(s)) == s by {
        let lo = s[0];
        let hi = s[1];
        let v = dec16(s);
        assert(v == (lo as u16) | ((hi as u16) << 8u16));
        assert((v & 0xff) as u8 == lo && ((v >> 8u16) & 0xff) as u8 == hi) by (bit_vector)
            requires
                v == (lo as u16) | ((hi as u16) << 8u16),
        ;
        assert(le16(v) =~= s);
    }
    lemma_auto_spec_u32_to_from_le_bytes();
    lemma_auto_spec_u64_to_from_le_bytes();
}

/// Two zero bytes hold the value 0.
pub proof fn lemma_zero_u16(s: Seq<u8>, at: int)
    requires
        0 <= at,
        at + 2 <= s.len(),
        s[at] == 0u8,
        s[at + 1] == 0u8,
    ensures
        u16_at(s, at) == 0,
{
    let b = s.subrange(at, at + 2);
    let lo = b[0];
    let hi = b[1];
    assert((lo as u16) | ((hi as u16) << 8u16) == 0u16) by (bit_vector)
        requires
            lo == 0u8,
            hi == 0u8,
    ;
}

/// Reads the little-endian `u16` at byte `at`.
pub fn read_u16(bytes: &[u8], at: usize) -> (r: u16)
    requires
        at + 2 <= bytes@.len(),
    ensures
        r == u16_at(bytes@, at as int),
{
    (bytes[at] as u16) | ((bytes[at + 1] as u16) << 8u16)
}

/// Reads the little-endian `u32` at byte `at`.
pub fn read_u32(bytes: &[u8], at: usize) -> (r: u32)
    requires
        at + 4 <= bytes@.len(),
    ensures
        r == u32_at(bytes@, at as int),
{
    let _len = bytes.len();
    u32_from_le_bytes(slice_subrange(bytes, at, at + 4))
}

/// Reads the little-endian `u64` at byte `at`.
pub fn read_u64(bytes: &[u8], at: usize) -> (r: u64)
    requires
        at + 8 <= bytes@.len(),
    ensures
        r == u64_at(bytes@, at as int),
{
    let _len = bytes.len();
    u64_from_le_bytes(slice_subrange(bytes, at, at + 8))
}

/// Appends the little-endian bytes of `x`.
pub fn push_u16(out: &mut Vec<u8>, x: u16)
    ensures
        final(out)@ == old(out)@ + le16(x),
{
    let ghost before = out@;
    out.push((x & 0xff) as u8);
    out.push(((x >> 8u16) & 0xff) as u8);
    assert(out@ =~= before + le16(x));
}

/// Appends the little-endian bytes of `x`.
pub fn push_u32(out: &mut Vec<u8>, x: u32)
    ensures
        final(out)@ == old(out)@ + le32(x),
{
    let mut b = u32_to_le_bytes(x);
    out.append(&mut b);
}

/// Appends the little-endian bytes of `x`.
pub fn push_u64(out: &mut Vec<u8>, x: u64)
    ensures
        final(out)@ == old(out)@ + le64(x),
{
    let mut b = u64_to_le_bytes(x);
    out.append(&mut b);
}

/// Appends `src` byte by byte.
pub fn push_bytes(out: &mut Vec<u8>, src: &[u8])
    ensures
        final(out)@ == old(out)@ + src@,
{
    let ghost start = out@;
    let mut i: usize = 0;
    while i < src.len()
        invariant
            i <= src@.len(),
            out@ == start + src@.subrange(0, i as int),
        decreases src@.len() - i,
    {
        out.push(src[i]);
        i += 1;
        assert(out@ =~= start + src@.subrange(0, i as int));
    }
    assert(src@.subrange(0, src@.len() as int) =~= src@);
}

/// Copies `src[start..start + len]` into a new vector.
pub fn copy_range(src: &[u8], start: usize, len: usize) -> (out: Vec<u8>)
    requires
        start + len <= src@.len(),
    ensures
        out@ == src@.subrange(start as int, start + len),
{
    let _len = src.len();
    let mut out: Vec<u8> = Vec::new();
    push_bytes(&mut out, slice_subrange(src, start, start + len));
    out
}

/// Copies a vector of exactly `N` bytes into an array.
pub fn to_array<const N: usize>(v: &Vec<u8>) -> (a: [u8; N])
    requires
        v@.len() == N,
    ensures
        a@ == v@,
{
    let mut a = [0u8; N];
    let mut i: usize = 0;
    while i < N
        invariant
            i <= N,
            v@.len() == N,
            a@.len() == N,
            forall|j: int| 0 <= j < i ==> a@[j] == v@[j],
        decreases N - i,
    {
        a[i] = v[i];
        i += 1;
    }
    assert(a@ =~= v@);
    a
}

/// The `N`-byte array holding `b[o..o + N]`.
pub open spec fn spec_array_at<const N: usize>(b: Seq<u8>, o: int) -> [u8; N] {
    choose|a: [u8; N]| a@ == b.subrange(o, o + N)
}

/// The array holding `b[o..o + N]` is `a` when those bytes are `a`'s.
pub proof fn lemma_spec_array_at<const N: usize>(b: Seq<u8>, o: int, a: [u8; N])
    requires
        b.subrange(o, o + N) == a@,
    ensures
        spec_array_at::<N>(b, o) == a,
{
    let c = spec_array_at::<N>(b, o);
    assert(c@ == a@);
    assert(c =~= a);
}

/// Copies `src[start..start + N]` into an array.
pub fn array_at<const N: usize>(src: &[u8], start: usize) -> (a: [u8; N])
    requires
        start + N <= src@.len(),
    ensures
        a@ == src@.subrange(start as int, start + N),
        a == spec_array_at::<N>(src@, start as int),
{
    let v = copy_range(src, start, N);
    let a = to_array(&v);
    proof {
        lemma_spec_array_at::<N>(src@, start as int, a);
    }
    a
}

/// `s` with the bytes from `at` on replaced by `b`.
pub open spec fn splice(s: Seq<u8>, at: int, b: Seq<u8>) -> Seq<u8> {
    s.subrange(0, at) + b + s.subrange(at + b.len(), s.len() as int)
}

/// Overwrites `dst[at..at + src.len()]` with `src`.
pub fn write_at(dst: &mut Vec<u8>, at: usize, src: &[u8])
    requires
        at + src@.len() <= old(dst)@.len(),
    ensures
        final(dst)@ == splice(old(dst)@, at as int, src@),
{
    let ghost before = dst@;
    let len = src.len();
    let size = dst.len();
    let mut i: usize = 0;
    while i < len
        invariant
            i <= len,
            len == src@.len(),
            size == before.len(),
            at + len <= before.len(),
            dst@.len() == before.len(),
            forall|j: int|
                0 <= j < before.len() ==> #[trigger] dst@[j] == if at <= j < at + i {
                    src@[j - at]
                } else {
                    before[j]
                },
        decreases len - i,
    {
        dst.set(at + i, src[i]);
        i += 1;
    }
    assert(dst@ =~= splice(before, at as int, src@));
}

/// Sets every byte of `v` to zero.
pub fn fill_zero(v: &mut Vec<u8>)
    ensures
        final(v)@ == Seq::new(old(v)@.len(), |i: int| 0u8),
{
    let n = v.len();
    let mut i: usize = 0;
    while i < n
        invariant
            i <= n,
            n == v@.len(),
            forall|j: int| 0 <= j < i ==> v@[j] == 0u8,
        decreases n - i,
    {
        v.set(i, 0u8);
        i += 1;
    }
    assert(v@ =~= Seq::new(n as nat, |i: int| 0u8));
}

} // verus!
