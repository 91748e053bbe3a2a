//! Byte buffers (`bytes::BytesMut`) used to assemble and carry frames, and the
//! byte-level spec functions the codec is stated in.
use bytes::BufMut;
use bytes::BytesMut;
use vstd::prelude::*;

verus! {

/// Declares `bytes::BytesMut`; what a buffer holds is `buf_contents`.
#[verifier::external_type_specification]
#[verifier::external_body]
pub struct ExBytesMut(BytesMut);

/// The bytes held by a buffer, in order.
pub uninterp spec fn buf_contents(b: BytesMut) -> Seq<u8>;

/// Sum of the bytes of `s`.
pub open spec fn byte_sum(s: Seq<u8>) -> nat
    decreases s.len(),
{
    if s.len() == 0 {
        0
    } else {
        byte_sum(s.drop_last()) + s.last() as nat
    }
}

/// The value of `s` read as a big-endian unsigned integer.
pub open spec fn be_value(s: Seq<u8>) -> nat
    decreases s.len(),
{
    if s.len() == 0 {
        0
    } else {
        be_value(s.drop_last()) * 256 + s.last() as nat
    }
}

/// The `n` low-order bytes of `v`, most significant first.
pub open spec fn be_bytes(v: nat, n: nat) -> Seq<u8>
    decreases n,
{
    if n == 0 {
        Seq::empty()
    } else {
        be_bytes(v / 256, (n - 1) as nat).push((v % 256) as u8)
    }
}

pub broadcast proof fn lemma_be_bytes_len(v: nat, n: nat)
    ensures
        #[trigger] be_bytes(v, n).len() == n,
    decreases n,
{
    if n > 0 {
        lemma_be_bytes_len(v / 256, (n - 1) as nat);
    }
}

/// 256 raised to `n`.
pub open spec fn pow256(n: nat) -> nat
    decreases n,
{
    if n == 0 {
        1
    } else {
        pow256((n - 1) as nat) * 256
    }
}

pub proof fn lemma_pow256_mono(a: nat, b: nat)
    requires
        a <= b,
    ensures
        pow256(a) <= pow256(b),
    decreases b,
{
    if a < b {
        lemma_pow256_mono(a, (b - 1) as nat);
    }
}

/// Reading back `n` big-endian bytes of a value that fits gives the value.
pub proof fn lemma_be_value_of_bytes(v: nat, n: nat)
    requires
        v < pow256(n),
    ensures
        be_value(be_bytes(v, n)) == v,
    decreases n,
{
    reveal_with_fuel(pow256, 2);
    if n > 0 {
        assert(v / 256 < pow256((n - 1) as nat)) by (nonlinear_arith)
            requires
                v < pow256((n - 1) as nat) * 256,
        ;
        lemma_be_value_of_bytes(v / 256, (n - 1) as nat);
        let s = be_bytes(v, n);
        assert(s.drop_last() =~= be_bytes(v / 256, (n - 1) as nat));
        assert(v == (v / 256) * 256 + v % 256) by (nonlinear_arith);
    }
}

/// Reads `s[start..end)` as a big-endian unsigned integer of at most eight bytes.
pub fn read_be(s: &[u8], start: usize, end: usize) -> (r: u64)
    requires
        start <= end <= s@.len(),
        end - start <= 8,
    ensures
        r == be_value(s@.subrange(start as int, end as int)),
        (r as nat) < pow256((end - start) as nat),
{
    let mut acc: u64 = 0;
    let mut i: usize = start;
    proof {
        reveal_with_fuel(pow256, 9);
        assert(s@.subrange(start as int, start as int) =~= Seq::<u8>::empty());
    }
    while i < end
        invariant
            start <= i <= end,
            end <= s@.len(),
            end - start <= 8,
            acc == be_value(s@.subrange(start as int, i as int)),
            (acc as nat) < pow256((i - start) as nat),
        decreases end - i,
    {
        let ghost k = (i - start) as nat;
        proof {
            assert(s@.subrange(start as int, i + 1).drop_last() =~= s@.subrange(start as int, i as int));
            lemma_pow256_mono(k + 1, 8);
            reveal_with_fuel(pow256, 9);
            assert(acc * 256 + s@[i as int] < pow256(k) * 256) by (nonlinear_arith)
                requires
                    acc < pow256(k),
                    s@[i as int] < 256,
            ;
        }
        acc = acc * 256 + s[i] as u64;
        i = i + 1;
    }
    acc
}

/// Relies on `BytesMut::with_capacity`: the new buffer holds no bytes.
#[verifier::external_body]
pub(crate) fn buf_with_capacity(capacity: usize) -> (r: BytesMut)
    requires
        capacity <= isize::MAX,
    ensures
        buf_contents(r) == Seq::<u8>::empty(),
{
    BytesMut::with_capacity(capacity)
}

/// Relies on `BytesMut::from(&[u8])`: the buffer holds a copy of the slice.
#[verifier::external_body]
pub(crate) fn buf_from_slice(s: &[u8]) -> (r: BytesMut)
    ensures
        buf_contents(r) == s@,
{
    BytesMut::from(s)
}

/// Relies on `BytesMut`'s `Deref` to `[u8]`: the slice is the buffer's bytes.
#[verifier::external_body]
pub(crate) fn buf_slice(b: &BytesMut) -> (r: &[u8])
    ensures
        r@ == buf_contents(*b),
{
    &b[..]
}

/// Relies on `BufMut::put_u8` for `BytesMut`: appends one byte.
#[verifier::external_body]
pub(crate) fn buf_put_u8(b: &mut BytesMut, v: u8)
    requires
        buf_contents(*old(b)).len() < isize::MAX,
    ensures
        buf_contents(*final(b)) == buf_contents(*old(b)).push(v),
{
    b.put_u8(v)
}

/// Relies on `BufMut::put_u16` for `BytesMut`: appends `v` in big-endian order.
#[verifier::external_body]
pub(crate) fn buf_put_u16(b: &mut BytesMut, v: u16)
    requires
        buf_contents(*old(b)).len() + 2 <= isize::MAX,
    ensures
        buf_contents(*final(b)) == buf_contents(*old(b)) + be_bytes(v as nat, 2),
{
    b.put_u16(v)
}

/// Relies on `BufMut::put_u64` for `BytesMut`: appends `v` in big-endian order.
#[verifier::external_body]
pub(crate) fn buf_put_u64(b: &mut BytesMut, v: u64)
    requires
        buf_contents(*old(b)).len() + 8 <= isize::MAX,
    ensures
        buf_contents(*final(b)) == buf_contents(*old(b)) + be_bytes(v as nat, 8),
{
    b.put_u64(v)
}

/// Relies on `BufMut::put_slice` for `BytesMut`: appends the slice's bytes.
#[verifier::external_body]
pub(crate) fn buf_put_slice(b: &mut BytesMut, s: &[u8])
    requires
        buf_contents(*old(b)).len() + s@.len() <= isize::MAX,
    ensures
        buf_contents(*final(b)) == buf_contents(*old(b)) + s@,
{
    b.put_slice(s)
}

/// Relies on `BytesMut`'s `DerefMut` to `[u8]`: overwrites the byte at `i`.
#[verifier::external_body]
pub(crate) fn buf_set(b: &mut BytesMut, i: usize, v: u8)
    requires
        i < buf_contents(*old(b)).len(),
    ensures
        buf_contents(*final(b)) == buf_contents(*old(b)).update(i as int, v),
{
    b[i] = v;
}

} // verus!
