//! Byte buffers: what `Bytes` and `BytesMut` hold, and the numbers read from and written to them.

use tokio_util::bytes::{Buf, BufMut, Bytes, BytesMut};
use vstd::prelude::*;

verus! {

/// The value of `s` read as a little-endian number.
pub open spec fn le(s: Seq<u8>) -> nat
    decreases s.len(),
{
    if s.len() == 0 {
        0
    } else {
        s.first() as nat + 256 * le(s.drop_first())
    }
}

/// The value of `s` read as a big-endian number.
pub open spec fn be(s: Seq<u8>) -> nat
    decreases s.len(),
{
    if s.len() == 0 {
        0
    } else {
        256 * be(s.drop_last()) + s.last() as nat
    }
}

/// The `n` lowest base-256 digits of `v`, lowest first.
pub open spec fn le_bytes(v: nat, n: nat) -> Seq<u8>
    decreases n,
{
    if n == 0 {
        Seq::empty()
    } else {
        seq![(v % 256) as u8] + le_bytes(v / 256, (n - 1) as nat)
    }
}

/// The `n` lowest base-256 digits of `v`, highest first.
pub open spec fn be_bytes(v: nat, n: nat) -> Seq<u8>
    decreases n,
{
    if n == 0 {
        Seq::empty()
    } else {
        be_bytes(v / 256, (n - 1) as nat).push((v % 256) as u8)
    }
}

/// An immutable, cheaply cloned run of bytes.
#[verifier::external_type_specification]
#[verifier::external_body]
pub struct ExBytes(Bytes);

/// A growable buffer of bytes.
#[verifier::external_type_specification]
#[verifier::external_body]
pub struct ExBytesMut(BytesMut);

/// The bytes that are left in `b`, from its read position to its end.
pub uninterp spec fn held(b: Bytes) -> Seq<u8>;

/// The bytes that are left in `b`, from its read position to its end.
pub uninterp spec fn held_mut(b: BytesMut) -> Seq<u8>;

/// `Bytes::len`: how many bytes are left. They stand in one slice, so there are at most
/// `isize::MAX` of them.
pub assume_specification[ Bytes::len ](b: &Bytes) -> (n: usize)
    ensures
        n == held(*b).len(),
        n <= isize::MAX,
;

/// `Bytes::split_to`: cuts the first `at` bytes off and hands them out; it panics where fewer
/// are left.
pub assume_specification[ Bytes::split_to ](b: &mut Bytes, at: usize) -> (head: Bytes)
    requires
        at <= held(*old(b)).len(),
    ensures
        held(head) == held(*old(b)).take(at as int),
        held(*final(b)) == held(*old(b)).skip(at as int),
;

/// `Bytes::clone`: another handle to the same bytes.
pub assume_specification[ <Bytes as Clone>::clone ](b: &Bytes) -> (c: Bytes)
    ensures
        held(c) == held(*b),
;

/// `<Bytes as AsRef<[u8]>>::as_ref`: the bytes that are left, as a slice.
#[verifier::external_body]
pub(crate) fn as_slice(b: &Bytes) -> (s: &[u8])
    ensures
        s@ == held(*b),
{
    b.as_ref()
}

/// `Buf::get_u8` on `Bytes`: takes the first byte off; it panics where none is left.
#[verifier::external_body]
pub(crate) fn get_u8(b: &mut Bytes) -> (v: u8)
    requires
        held(*old(b)).len() >= 1,
    ensures
        v == held(*old(b))[0],
        held(*final(b)) == held(*old(b)).skip(1),
{
    b.get_u8()
}

/// `Buf::get_u16_le` on `Bytes`: takes a little-endian number of 2 bytes off; it panics where
/// fewer are left.
#[verifier::external_body]
pub(crate) fn get_u16_le(b: &mut Bytes) -> (v: u16)
    requires
        held(*old(b)).len() >= 2,
    ensures
        v as nat == le(held(*old(b)).take(2)),
        held(*final(b)) == held(*old(b)).skip(2),
{
    b.get_u16_le()
}

/// `Buf::get_u32_le` on `Bytes`: takes a little-endian number of 4 bytes off; it panics where
/// fewer are left.
#[verifier::external_body]
pub(crate) fn get_u32_le(b: &mut Bytes) -> (v: u32)
    requires
        held(*old(b)).len() >= 4,
    ensures
        v as nat == le(held(*old(b)).take(4)),
        held(*final(b)) == held(*old(b)).skip(4),
{
    b.get_u32_le()
}

/// `Buf::get_u64_le` on `Bytes`: takes a little-endian number of 8 bytes off; it panics where
/// fewer are left.
#[verifier::external_body]
pub(crate) fn get_u64_le(b: &mut Bytes) -> (v: u64)
    requires
        held(*old(b)).len() >= 8,
    ensures
        v as nat == le(held(*old(b)).take(8)),
        held(*final(b)) == held(*old(b)).skip(8),
{
    b.get_u64_le()
}

/// Whether a buffer of `len` bytes can take `extra` more. It may keep room for bytes that were
/// read off its front, at most as many as it then holds, and it grows by doubling, so that its
/// allocation stays within four times `len + extra` bytes. Where that is more than `isize::MAX`,
/// the methods of `BytesMut` may panic.
pub open spec fn fits(len: nat, extra: nat) -> bool {
    len + extra <= isize::MAX / 4
}

/// `BytesMut::with_capacity`: an empty buffer; it panics where the capacity cannot be allocated.
pub assume_specification[ BytesMut::with_capacity ](capacity: usize) -> (b: BytesMut)
    requires
        fits(0, capacity as nat),
    ensures
        held_mut(b) == Seq::<u8>::empty(),
;

/// `BytesMut::len`: how many bytes are left.
pub assume_specification[ BytesMut::len ](b: &BytesMut) -> (n: usize)
    ensures
        n == held_mut(*b).len(),
;

/// `BytesMut::is_empty`: whether no byte is left.
pub assume_specification[ BytesMut::is_empty ](b: &BytesMut) -> (e: bool)
    ensures
        e == (held_mut(*b).len() == 0),
;

/// `BytesMut::split_to`: cuts the first `at` bytes off and hands them out; it panics where
/// fewer are left.
pub assume_specification[ BytesMut::split_to ](b: &mut BytesMut, at: usize) -> (head: BytesMut)
    requires
        at <= held_mut(*old(b)).len(),
    ensures
        held_mut(head) == held_mut(*old(b)).take(at as int),
        held_mut(*final(b)) == held_mut(*old(b)).skip(at as int),
;

/// `BytesMut::freeze`: the same bytes, immutable from here on.
pub assume_specification[ BytesMut::freeze ](b: BytesMut) -> (f: Bytes)
    ensures
        held(f) == held_mut(b),
;

/// `BytesMut::reserve`: makes room for more bytes and leaves those that are there alone. Asked
/// for none, it does nothing.
pub assume_specification[ BytesMut::reserve ](b: &mut BytesMut, additional: usize)
    requires
        additional == 0 || fits(held_mut(*old(b)).len(), additional as nat),
    ensures
        held_mut(*final(b)) == held_mut(*old(b)),
;

/// `BytesMut::extend_from_slice`: appends the slice.
pub assume_specification[ BytesMut::extend_from_slice ](b: &mut BytesMut, extend: &[u8])
    requires
        fits(held_mut(*old(b)).len(), extend@.len()),
    ensures
        held_mut(*final(b)) == held_mut(*old(b)) + extend@,
;

/// `<BytesMut as AsRef<[u8]>>::as_ref`: the bytes that are left, as a slice.
#[verifier::external_body]
pub(crate) fn as_slice_mut(b: &BytesMut) -> (s: &[u8])
    ensures
        s@ == held_mut(*b),
{
    b.as_ref()
}

/// `Buf::get_u64` on `BytesMut`: takes a big-endian number of 8 bytes off; it panics where
/// fewer are left.
#[verifier::external_body]
pub(crate) fn get_u64(b: &mut BytesMut) -> (v: u64)
    requires
        held_mut(*old(b)).len() >= 8,
    ensures
        v as nat == be(held_mut(*old(b)).take(8)),
        held_mut(*final(b)) == held_mut(*old(b)).skip(8),
{
    b.get_u64()
}

/// `BufMut::put_u64` on `BytesMut`: appends a big-endian number of 8 bytes.
#[verifier::external_body]
pub(crate) fn put_u64(b: &mut BytesMut, v: u64)
    requires
        fits(held_mut(*old(b)).len(), 8),
    ensures
        held_mut(*final(b)) == held_mut(*old(b)) + be_bytes(v as nat, 8),
{
    b.put_u64(v)
}

/// `BufMut::put_u32_le` on `BytesMut`: appends a little-endian number of 4 bytes.
#[verifier::external_body]
pub(crate) fn put_u32_le(b: &mut BytesMut, v: u32)
    requires
        fits(held_mut(*old(b)).len(), 4),
    ensures
        held_mut(*final(b)) == held_mut(*old(b)) + le_bytes(v as nat, 4),
{
    b.put_u32_le(v)
}

/// `BufMut::put_u64_le` on `BytesMut`: appends a little-endian number of 8 bytes.
#[verifier::external_body]
pub(crate) fn put_u64_le(b: &mut BytesMut, v: u64)
    requires
        fits(held_mut(*old(b)).len(), 8),
    ensures
        held_mut(*final(b)) == held_mut(*old(b)) + le_bytes(v as nat, 8),
{
    b.put_u64_le(v)
}

/// `BufMut::put_slice` on `BytesMut`: appends the slice.
#[verifier::external_body]
pub(crate) fn put_slice(b: &mut BytesMut, s: &[u8])
    requires
        fits(held_mut(*old(b)).len(), s@.len()),
    ensures
        held_mut(*final(b)) == held_mut(*old(b)) + s@,
{
    b.put_slice(s)
}

pub proof fn lemma_le_bytes_len(v: nat, n: nat)
    ensures
        le_bytes(v, n).len() == n,
    decreases n,
{
    if n > 0 {
        lemma_le_bytes_len(v / 256, (n - 1) as nat);
    }
}

pub proof fn lemma_be_bytes_len(v: nat, n: nat)
    ensures
        be_bytes(v, n).len() == n,
    decreases n,
{
    if n > 0 {
        lemma_be_bytes_len(v / 256, (n - 1) as nat);
    }
}

/// 256 to the power of `n`: the first number that does not fit in `n` bytes.
pub open spec fn bound(n: nat) -> nat
    decreases n,
{
    if n == 0 {
        1
    } else {
        256 * bound((n - 1) as nat)
    }
}

/// A number of `n` bytes is below the bound for them.
pub proof fn lemma_be_bound(s: Seq<u8>)
    ensures
        be(s) < bound(s.len()),
    decreases s.len(),
{
    if s.len() > 0 {
        lemma_be_bound(s.drop_last());
    }
}

/// The big-endian number in the first 8 bytes of `s`.
pub(crate) fn peek_u64(s: &[u8]) -> (v: u64)
    requires
        s@.len() >= 8,
    ensures
        v as nat == be(s@.take(8)),
{
    let mut v: u64 = 0;
    let mut i: usize = 0;
    while i < 8
        invariant
            i <= 8 <= s@.len(),
            v as nat == be(s@.take(i as int)),
            v < bound(i as nat),
        decreases 8 - i,
    {
        proof {
            reveal_with_fuel(bound, 9);
            lemma_be_bound(s@.take(i + 1));
            assert(s@.take(i + 1).drop_last() =~= s@.take(i as int));
        }
        v = v * 256 + s[i] as u64;
        i = i + 1;
    }
    v
}

/// Writing a number of `n` bytes in little-endian order and reading it back gives the number.
pub proof fn le_roundtrip(v: nat, n: nat)
    requires
        v < bound(n),
    ensures
        le_bytes(v, n).len() == n,
        le(le_bytes(v, n)) == v,
    decreases n,
{
    if n > 0 {
        let rest = le_bytes(v / 256, (n - 1) as nat);
        assert(v / 256 < bound((n - 1) as nat)) by (nonlinear_arith)
            requires
                v < 256 * bound((n - 1) as nat),
        ;
        le_roundtrip(v / 256, (n - 1) as nat);
        assert(le_bytes(v, n).drop_first() =~= rest);
    }
}

/// Writing a number of `n` bytes in big-endian order and reading it back gives the number.
pub proof fn be_roundtrip(v: nat, n: nat)
    requires
        v < bound(n),
    ensures
        be_bytes(v, n).len() == n,
        be(be_bytes(v, n)) == v,
    decreases n,
{
    if n > 0 {
        let rest = be_bytes(v / 256, (n - 1) as nat);
        assert(v / 256 < bound((n - 1) as nat)) by (nonlinear_arith)
            requires
                v < 256 * bound((n - 1) as nat),
        ;
        be_roundtrip(v / 256, (n - 1) as nat);
        assert(be_bytes(v, n).drop_last() =~= rest);
    }
}

} // verus!
