//! Integers stored as raw bytes in a declared byte order.
//!
//! A stored integer is a byte array of its exact width together with a
//! [`ByteOrder`] that says which end is the least significant. It has no
//! alignment of its own, so it can lie anywhere in a byte buffer.

use core::marker::PhantomData;
use vstd::prelude::*;

verus! {

/// `256^width`: the number of values that `width` bytes can spell.
pub open spec fn radix(width: nat) -> nat
    decreases width,
{
    if width == 0 {
        1
    } else {
        256 * radix((width - 1) as nat)
    }
}

/// The number that `bytes` spell when the first byte is the least
/// significant one.
pub open spec fn le_value(bytes: Seq<u8>) -> nat
    decreases bytes.len(),
{
    if bytes.len() == 0 {
        0
    } else {
        bytes[0] as nat + 256 * le_value(bytes.drop_first())
    }
}

/// The `width` bytes that spell `value` modulo `256^width`, least
/// significant byte first.
pub open spec fn le_bytes(value: nat, width: nat) -> Seq<u8>
    decreases width,
{
    if width == 0 {
        Seq::empty()
    } else {
        seq![(value % 256) as u8] + le_bytes(value / 256, (width - 1) as nat)
    }
}

/// The number that `bytes` spell when the first byte is the most
/// significant one.
pub open spec fn be_value(bytes: Seq<u8>) -> nat {
    le_value(bytes.reverse())
}

/// The `width` bytes that spell `value` modulo `256^width`, most significant
/// byte first.
pub open spec fn be_bytes(value: nat, width: nat) -> Seq<u8> {
    le_bytes(value, width).reverse()
}

/// The signed number that `raw` stands for in two's complement of `width`
/// bytes.
pub open spec fn from_twos_complement(raw: nat, width: nat) -> int {
    if 2 * raw >= radix(width) {
        raw - radix(width)
    } else {
        raw as int
    }
}

/// The unsigned number that stands for `value` in two's complement of
/// `width` bytes.
pub open spec fn to_twos_complement(value: int, width: nat) -> nat {
    if value < 0 {
        (value + radix(width)) as nat
    } else {
        value as nat
    }
}

/// The values of `radix` at the widths of the machine integers.
pub proof fn lemma_radix_values()
    ensures
        radix(2) == 0x1_0000,
        radix(4) == 0x1_0000_0000,
        radix(8) == 0x1_0000_0000_0000_0000,
{
    reveal_with_fuel(radix, 9);
}

/// What a run of bytes spells is below `256` to the power of their number.
pub proof fn lemma_le_value_bound(bytes: Seq<u8>)
    ensures
        le_value(bytes) < radix(bytes.len()),
    decreases bytes.len(),
{
    if bytes.len() > 0 {
        lemma_le_value_bound(bytes.drop_first());
    }
}

/// Spelling a number least significant byte first and reading it back gives
/// the number, as long as it fits the width.
pub proof fn lemma_le_round_trip(value: nat, width: nat)
    requires
        value < radix(width),
    ensures
        le_bytes(value, width).len() == width,
        le_value(le_bytes(value, width)) == value,
    decreases width,
{
    if width > 0 {
        lemma_le_round_trip(value / 256, (width - 1) as nat);
        assert(le_bytes(value, width).drop_first() =~= le_bytes(
            value / 256,
            (width - 1) as nat,
        ));
    }
}

/// Spelling a number most significant byte first and reading it back gives
/// the number, as long as it fits the width.
pub proof fn lemma_be_round_trip(value: nat, width: nat)
    requires
        value < radix(width),
    ensures
        be_bytes(value, width).len() == width,
        be_value(be_bytes(value, width)) == value,
{
    lemma_le_round_trip(value, width);
    assert(le_bytes(value, width).reverse().reverse() =~= le_bytes(value, width));
}

/// `byteorder::LittleEndian::read_u16`: the first two bytes of `buf`, least
/// significant first. It panics on a shorter buffer.
#[verifier::external_body]
fn le_read_u16(buf: &[u8]) -> (n: u16)
    requires
        buf@.len() >= 2,
    ensures
        n as nat == le_value(buf@.subrange(0, 2)),
{
    <byteorder::LittleEndian as byteorder::ByteOrder>::read_u16(buf)
}

/// `byteorder::LittleEndian::read_u32`: the first four bytes of `buf`, least
/// significant first. It panics on a shorter buffer.
#[verifier::external_body]
fn le_read_u32(buf: &[u8]) -> (n: u32)
    requires
        buf@.len() >= 4,
    ensures
        n as nat == le_value(buf@.subrange(0, 4)),
{
    <byteorder::LittleEndian as byteorder::ByteOrder>::read_u32(buf)
}

/// `byteorder::LittleEndian::read_u64`: the first eight bytes of `buf`,
/// least significant first. It panics on a shorter buffer.
#[verifier::external_body]
fn le_read_u64(buf: &[u8]) -> (n: u64)
    requires
        buf@.len() >= 8,
    ensures
        n as nat == le_value(buf@.subrange(0, 8)),
{
    <byteorder::LittleEndian as byteorder::ByteOrder>::read_u64(buf)
}

/// `byteorder::LittleEndian::write_u16`: overwrites the first two bytes of
/// `buf` with `n`, least significant first, and leaves the rest. It panics
/// on a shorter buffer.
#[verifier::external_body]
fn le_write_u16(buf: &mut [u8], n: u16)
    requires
        old(buf)@.len() >= 2,
    ensures
        final(buf)@ == le_bytes(n as nat, 2) + old(buf)@.skip(2),
{
    <byteorder::LittleEndian as byteorder::ByteOrder>::write_u16(buf, n)
}

/// `byteorder::LittleEndian::write_u32`: overwrites the first four bytes of
/// `buf` with `n`, least significant first, and leaves the rest. It panics
/// on a shorter buffer.
#[verifier::external_body]
fn le_write_u32(buf: &mut [u8], n: u32)
    requires
        old(buf)@.len() >= 4,
    ensures
        final(buf)@ == le_bytes(n as nat, 4) + old(buf)@.skip(4),
{
    <byteorder::LittleEndian as byteorder::ByteOrder>::write_u32(buf, n)
}

/// `byteorder::LittleEndian::write_u64`: overwrites the first eight bytes of
/// `buf` with `n`, least significant first, and leaves the rest. It panics
/// on a shorter buffer.
#[verifier::external_body]
fn le_write_u64(buf: &mut [u8], n: u64)
    requires
        old(buf)@.len() >= 8,
    ensures
        final(buf)@ == le_bytes(n as nat, 8) + old(buf)@.skip(8),
{
    <byteorder::LittleEndian as byteorder::ByteOrder>::write_u64(buf, n)
}

/// `byteorder::BigEndian::read_u16`: the first two bytes of `buf`, most
/// significant first. It panics on a shorter buffer.
#[verifier::external_body]
fn be_read_u16(buf: &[u8]) -> (n: u16)
    requires
        buf@.len() >= 2,
    ensures
        n as nat == be_value(buf@.subrange(0, 2)),
{
    <byteorder::BigEndian as byteorder::ByteOrder>::read_u16(buf)
}

/// `byteorder::BigEndian::read_u32`: the first four bytes of `buf`, most
/// significant first. It panics on a shorter buffer.
#[verifier::external_body]
fn be_read_u32(buf: &[u8]) -> (n: u32)
    requires
        buf@.len() >= 4,
    ensures
        n as nat == be_value(buf@.subrange(0, 4)),
{
    <byteorder::BigEndian as byteorder::ByteOrder>::read_u32(buf)
}

/// `byteorder::BigEndian::read_u64`: the first eight bytes of `buf`, most
/// significant first. It panics on a shorter buffer.
#[verifier::external_body]
fn be_read_u64(buf: &[u8]) -> (n: u64)
    requires
        buf@.len() >= 8,
    ensures
        n as nat == be_value(buf@.subrange(0, 8)),
{
    <byteorder::BigEndian as byteorder::ByteOrder>::read_u64(buf)
}

/// `byteorder::BigEndian::write_u16`: overwrites the first two bytes of `buf`
/// with `n`, most significant first, and leaves the rest. It panics on a
/// shorter buffer.
#[verifier::external_body]
fn be_write_u16(buf: &mut [u8], n: u16)
    requires
        old(buf)@.len() >= 2,
    ensures
        final(buf)@ == be_bytes(n as nat, 2) + old(buf)@.skip(2),
{
    <byteorder::BigEndian as byteorder::ByteOrder>::write_u16(buf, n)
}

/// `byteorder::BigEndian::write_u32`: overwrites the first four bytes of
/// `buf` with `n`, most significant first, and leaves the rest. It panics on
/// a shorter buffer.
#[verifier::external_body]
fn be_write_u32(buf: &mut [u8], n: u32)
    requires
        old(buf)@.len() >= 4,
    ensures
        final(buf)@ == be_bytes(n as nat, 4) + old(buf)@.skip(4),
{
    <byteorder::BigEndian as byteorder::ByteOrder>::write_u32(buf, n)
}

/// `byteorder::BigEndian::write_u64`: overwrites the first eight bytes of
/// `buf` with `n`, most significant first, and leaves the rest. It panics on
/// a shorter buffer.
#[verifier::external_body]
fn be_write_u64(buf: &mut [u8], n: u64)
    requires
        old(buf)@.len() >= 8,
    ensures
        final(buf)@ == be_bytes(n as nat, 8) + old(buf)@.skip(8),
{
    <byteorder::BigEndian as byteorder::ByteOrder>::write_u64(buf, n)
}

/// A byte order: how a run of bytes spells a number, and back.
///
/// The stored integer types take the order as a type parameter, so the two
/// orders give distinct types with one contract.
pub trait ByteOrder: Sized {
    /// The number that `bytes` spell in this order.
    spec fn value(bytes: Seq<u8>) -> nat;

    /// The `width` bytes that spell `value` in this order.
    spec fn bytes(value: nat, width: nat) -> Seq<u8>;

    /// What was spelled is read back unchanged.
    proof fn lemma_round_trip(value: nat, width: nat)
        requires
            value < radix(width),
        ensures
            Self::bytes(value, width).len() == width,
            Self::value(Self::bytes(value, width)) == value,
    ;

    /// The number in the first two bytes of `buf`.
    fn read_u16(buf: &[u8]) -> (n: u16)
        requires
            buf@.len() >= 2,
        ensures
            n as nat == Self::value(buf@.subrange(0, 2)),
    ;

    /// The number in the first four bytes of `buf`.
    fn read_u32(buf: &[u8]) -> (n: u32)
        requires
            buf@.len() >= 4,
        ensures
            n as nat == Self::value(buf@.subrange(0, 4)),
    ;

    /// The number in the first eight bytes of `buf`.
    fn read_u64(buf: &[u8]) -> (n: u64)
        requires
            buf@.len() >= 8,
        ensures
            n as nat == Self::value(buf@.subrange(0, 8)),
    ;

    /// Stores `n` in the first two bytes of `buf`.
    fn write_u16(buf: &mut [u8], n: u16)
        requires
            old(buf)@.len() >= 2,
        ensures
            final(buf)@ == Self::bytes(n as nat, 2) + old(buf)@.skip(2),
    ;

    /// Stores `n` in the first four bytes of `buf`.
    fn write_u32(buf: &mut [u8], n: u32)
        requires
            old(buf)@.len() >= 4,
        ensures
            final(buf)@ == Self::bytes(n as nat, 4) + old(buf)@.skip(4),
    ;

    /// Stores `n` in the first eight bytes of `buf`.
    fn write_u64(buf: &mut [u8], n: u64)
        requires
            old(buf)@.len() >= 8,
        ensures
            final(buf)@ == Self::bytes(n as nat, 8) + old(buf)@.skip(8),
    ;
}

/// Least significant byte first.
#[derive(Clone, Copy, Debug, Default, PartialEq, Eq, Hash)]
pub struct LittleEndian;

/// Most significant byte first.
#[derive(Clone, Copy, Debug, Default, PartialEq, Eq, Hash)]
pub struct BigEndian;

impl ByteOrder for LittleEndian {
    open spec fn value(bytes: Seq<u8>) -> nat {
        le_value(bytes)
    }

    open spec fn bytes(value: nat, width: nat) -> Seq<u8> {
        le_bytes(value, width)
    }

    proof fn lemma_round_trip(value: nat, width: nat) {
        lemma_le_round_trip(value, width);
    }

    fn read_u16(buf: &[u8]) -> (n: u16) {
        le_read_u16(buf)
    }

    fn read_u32(buf: &[u8]) -> (n: u32) {
        le_read_u32(buf)
    }

    fn read_u64(buf: &[u8]) -> (n: u64) {
        le_read_u64(buf)
    }

    fn write_u16(buf: &mut [u8], n: u16) {
        le_write_u16(buf, n)
    }

    fn write_u32(buf: &mut [u8], n: u32) {
        le_write_u32(buf, n)
    }

    fn write_u64(buf: &mut [u8], n: u64) {
        le_write_u64(buf, n)
    }
}

impl ByteOrder for BigEndian {
    open spec fn value(bytes: Seq<u8>) -> nat {
        be_value(bytes)
    }

    open spec fn bytes(value: nat, width: nat) -> Seq<u8> {
        be_bytes(value, width)
    }

    proof fn lemma_round_trip(value: nat, width: nat) {
        lemma_be_round_trip(value, width);
    }

    fn read_u16(buf: &[u8]) -> (n: u16) {
        be_read_u16(buf)
    }

    fn read_u32(buf: &[u8]) -> (n: u32) {
        be_read_u32(buf)
    }

    fn read_u64(buf: &[u8]) -> (n: u64) {
        be_read_u64(buf)
    }

    fn write_u16(buf: &mut [u8], n: u16) {
        be_write_u16(buf, n)
    }

    fn write_u32(buf: &mut [u8], n: u32) {
        be_write_u32(buf, n)
    }

    fn write_u64(buf: &mut [u8], n: u64) {
        be_write_u64(buf, n)
    }
}

/// An unsigned 16-bit integer stored as two bytes in the order `B`.
#[derive(Debug)]
pub struct U16<B: ByteOrder>(pub [u8; 2], pub PhantomData<B>);

/// An unsigned 32-bit integer stored as four bytes in the order `B`.
#[derive(Debug)]
pub struct U32<B: ByteOrder>(pub [u8; 4], pub PhantomData<B>);

/// An unsigned 64-bit integer stored as eight bytes in the order `B`.
#[derive(Debug)]
pub struct U64<B: ByteOrder>(pub [u8; 8], pub PhantomData<B>);

/// A signed 16-bit integer stored as two bytes in the order `B`, in two's
/// complement.
#[derive(Debug)]
pub struct I16<B: ByteOrder>(pub [u8; 2], pub PhantomData<B>);

/// A signed 32-bit integer stored as four bytes in the order `B`, in two's
/// complement.
#[derive(Debug)]
pub struct I32<B: ByteOrder>(pub [u8; 4], pub PhantomData<B>);

/// A signed 64-bit integer stored as eight bytes in the order `B`, in two's
/// complement.
#[derive(Debug)]
pub struct I64<B: ByteOrder>(pub [u8; 8], pub PhantomData<B>);

impl<B: ByteOrder> Clone for U16<B> {
    fn clone(&self) -> (copy: Self)
        ensures
            copy == *self,
    {
        U16(self.0, PhantomData)
    }
}

impl<B: ByteOrder> Copy for U16<B> {

}

impl<B: ByteOrder> Clone for U32<B> {
    fn clone(&self) -> (copy: Self)
        ensures
            copy == *self,
    {
        U32(self.0, PhantomData)
    }
}

impl<B: ByteOrder> Copy for U32<B> {

}

impl<B: ByteOrder> Clone for U64<B> {
    fn clone(&self) -> (copy: Self)
        ensures
            copy == *self,
    {
        U64(self.0, PhantomData)
    }
}

impl<B: ByteOrder> Copy for U64<B> {

}

impl<B: ByteOrder> Clone for I16<B> {
    fn clone(&self) -> (copy: Self)
        ensures
            copy == *self,
    {
        I16(self.0, PhantomData)
    }
}

impl<B: ByteOrder> Copy for I16<B> {

}

impl<B: ByteOrder> Clone for I32<B> {
    fn clone(&self) -> (copy: Self)
        ensures
            copy == *self,
    {
        I32(self.0, PhantomData)
    }
}

impl<B: ByteOrder> Copy for I32<B> {

}

impl<B: ByteOrder> Clone for I64<B> {
    fn clone(&self) -> (copy: Self)
        ensures
            copy == *self,
    {
        I64(self.0, PhantomData)
    }
}

impl<B: ByteOrder> Copy for I64<B> {

}

impl<B: ByteOrder> U16<B> {
    /// The number that the stored bytes spell.
    pub open spec fn value(self) -> u16 {
        B::value(self.0@) as u16
    }

    /// The stored form of `value`.
    pub fn new(value: u16) -> (stored: Self)
        ensures
            stored.0@ == B::bytes(value as nat, 2),
            stored.value() == value,
    {
        let mut stored = U16([0; 2], PhantomData);
        stored.set(value);
        stored
    }

    /// Decodes the stored bytes.
    pub fn get(self) -> (n: u16)
        ensures
            n == self.value(),
    {
        assert(self.0@.subrange(0, 2) =~= self.0@);
        B::read_u16(&self.0)
    }

    /// Replaces the stored bytes by those of `value`.
    pub fn set(&mut self, value: u16)
        ensures
            final(self).0@ == B::bytes(value as nat, 2),
            final(self).value() == value,
    {
        B::write_u16(&mut self.0, value);
        proof {
            lemma_radix_values();
            B::lemma_round_trip(value as nat, 2);
            assert(self.0@ =~= B::bytes(value as nat, 2));
        }
    }
}

impl<B: ByteOrder> U32<B> {
    /// The number that the stored bytes spell.
    pub open spec fn value(self) -> u32 {
        B::value(self.0@) as u32
    }

    /// The stored form of `value`.
    pub fn new(value: u32) -> (stored: Self)
        ensures
            stored.0@ == B::bytes(value as nat, 4),
            stored.value() == value,
    {
        let mut stored = U32([0; 4], PhantomData);
        stored.set(value);
        stored
    }

    /// Decodes the stored bytes.
    pub fn get(self) -> (n: u32)
        ensures
            n == self.value(),
    {
        assert(self.0@.subrange(0, 4) =~= self.0@);
        B::read_u32(&self.0)
    }

    /// Replaces the stored bytes by those of `value`.
    pub fn set(&mut self, value: u32)
        ensures
            final(self).0@ == B::bytes(value as nat, 4),
            final(self).value() == value,
    {
        B::write_u32(&mut self.0, value);
        proof {
            lemma_radix_values();
            B::lemma_round_trip(value as nat, 4);
            assert(self.0@ =~= B::bytes(value as nat, 4));
        }
    }
}

impl<B: ByteOrder> U64<B> {
    /// The number that the stored bytes spell.
    pub open spec fn value(self) -> u64 {
        B::value(self.0@) as u64
    }

    /// The stored form of `value`.
    pub fn new(value: u64) -> (stored: Self)
        ensures
            stored.0@ == B::bytes(value as nat, 8),
            stored.value() == value,
    {
        let mut stored = U64([0; 8], PhantomData);
        stored.set(value);
        stored
    }

    /// Decodes the stored bytes.
    pub fn get(self) -> (n: u64)
        ensures
            n == self.value(),
    {
        assert(self.0@.subrange(0, 8) =~= self.0@);
        B::read_u64(&self.0)
    }

    /// Replaces the stored bytes by those of `value`.
    pub fn set(&mut self, value: u64)
        ensures
            final(self).0@ == B::bytes(value as nat, 8),
            final(self).value() == value,
    {
        B::write_u64(&mut self.0, value);
        proof {
            lemma_radix_values();
            B::lemma_round_trip(value as nat, 8);
            assert(self.0@ =~= B::bytes(value as nat, 8));
        }
    }
}

impl<B: ByteOrder> I16<B> {
    /// The number that the stored bytes spell.
    pub open spec fn value(self) -> i16 {
        from_twos_complement(B::value(self.0@), 2) as i16
    }

    /// The stored form of `value`.
    pub fn new(value: i16) -> (stored: Self)
        ensures
            stored.0@ == B::bytes(to_twos_complement(value as int, 2), 2),
            stored.value() == value,
    {
        let mut stored = I16([0; 2], PhantomData);
        stored.set(value);
        stored
    }

    /// Decodes the stored bytes.
    pub fn get(self) -> (n: i16)
        ensures
            n == self.value(),
    {
        assert(self.0@.subrange(0, 2) =~= self.0@);
        let raw: u16 = B::read_u16(&self.0);
        let n: i16 = raw as i16;
        proof {
            lemma_radix_values();
            assert(n == if raw >= 0x8000u16 {
                raw - 0x1_0000
            } else {
                raw as int
            }) by (bit_vector)
                requires
                    n == raw as i16,
            ;
        }
        n
    }

    /// Replaces the stored bytes by those of `value`.
    pub fn set(&mut self, value: i16)
        ensures
            final(self).0@ == B::bytes(to_twos_complement(value as int, 2), 2),
            final(self).value() == value,
    {
        let raw: u16 = value as u16;
        proof {
            lemma_radix_values();
            assert(raw == if value < 0i16 {
                value + 0x1_0000
            } else {
                value as int
            }) by (bit_vector)
                requires
                    raw == value as u16,
            ;
        }
        B::write_u16(&mut self.0, raw);
        proof {
            B::lemma_round_trip(raw as nat, 2);
            assert(self.0@ =~= B::bytes(raw as nat, 2));
        }
    }
}

impl<B: ByteOrder> I32<B> {
    /// The number that the stored bytes spell.
    pub open spec fn value(self) -> i32 {
        from_twos_complement(B::value(self.0@), 4) as i32
    }

    /// The stored form of `value`.
    pub fn new(value: i32) -> (stored: Self)
        ensures
            stored.0@ == B::bytes(to_twos_complement(value as int, 4), 4),
            stored.value() == value,
    {
        let mut stored = I32([0; 4], PhantomData);
        stored.set(value);
        stored
    }

    /// Decodes the stored bytes.
    pub fn get(self) -> (n: i32)
        ensures
            n == self.value(),
    {
        assert(self.0@.subrange(0, 4) =~= self.0@);
        let raw: u32 = B::read_u32(&self.0);
        let n: i32 = raw as i32;
        proof {
            lemma_radix_values();
            assert(n == if raw >= 0x8000_0000u32 {
                raw - 0x1_0000_0000
            } else {
                raw as int
            }) by (bit_vector)
                requires
                    n == raw as i32,
            ;
        }
        n
    }

    /// Replaces the stored bytes by those of `value`.
    pub fn set(&mut self, value: i32)
        ensures
            final(self).0@ == B::bytes(to_twos_complement(value as int, 4), 4),
            final(self).value() == value,
    {
        let raw: u32 = value as u32;
        proof {
            lemma_radix_values();
            assert(raw == if value < 0i32 {
                value + 0x1_0000_0000
            } else {
                value as int
            }) by (bit_vector)
                requires
                    raw == value as u32,
            ;
        }
        B::write_u32(&mut self.0, raw);
        proof {
            B::lemma_round_trip(raw as nat, 4);
            assert(self.0@ =~= B::bytes(raw as nat, 4));
        }
    }
}

impl<B: ByteOrder> I64<B> {
    /// The number that the stored bytes spell.
    pub open spec fn value(self) -> i64 {
        from_twos_complement(B::value(self.0@), 8) as i64
    }

    /// The stored form of `value`.
    pub fn new(value: i64) -> (stored: Self)
        ensures
            stored.0@ == B::bytes(to_twos_complement(value as int, 8), 8),
            stored.value() == value,
    {
        let mut stored = I64([0; 8], PhantomData);
        stored.set(value);
        stored
    }

    /// Decodes the stored bytes.
    pub fn get(self) -> (n: i64)
        ensures
            n == self.value(),
    {
        assert(self.0@.subrange(0, 8) =~= self.0@);
        let raw: u64 = B::read_u64(&self.0);
        let n: i64 = raw as i64;
        proof {
            lemma_radix_values();
            assert(n == if raw >= 0x8000_0000_0000_0000u64 {
                raw - 0x1_0000_0000_0000_0000
            } else {
                raw as int
            }) by (bit_vector)
                requires
                    n == raw as i64,
            ;
        }
        n
    }

    /// Replaces the stored bytes by those of `value`.
    pub fn set(&mut self, value: i64)
        ensures
            final(self).0@ == B::bytes(to_twos_complement(value as int, 8), 8),
            final(self).value() == value,
    {
        let raw: u64 = value as u64;
        proof {
            lemma_radix_values();
            assert(raw == if value < 0i64 {
                value + 0x1_0000_0000_0000_0000
            } else {
                value as int
            }) by (bit_vector)
                requires
                    raw == value as u64,
            ;
        }
        B::write_u64(&mut self.0, raw);
        proof {
            B::lemma_round_trip(raw as nat, 8);
            assert(self.0@ =~= B::bytes(raw as nat, 8));
        }
    }
}

/// Decoding what was encoded gives the number back: a `U16` that holds the
/// bytes of `value` in the order `B` has the value `value`.
pub proof fn lemma_u16_round_trip<B: ByteOrder>(stored: U16<B>, value: u16)
    requires
        stored.0@ == B::bytes(value as nat, 2),
    ensures
        stored.value() == value,
{
    lemma_radix_values();
    B::lemma_round_trip(value as nat, 2);
}

/// Decoding what was encoded gives the number back: a `U32` that holds the
/// bytes of `value` in the order `B` has the value `value`.
pub proof fn lemma_u32_round_trip<B: ByteOrder>(stored: U32<B>, value: u32)
    requires
        stored.0@ == B::bytes(value as nat, 4),
    ensures
        stored.value() == value,
{
    lemma_radix_values();
    B::lemma_round_trip(value as nat, 4);
}

/// Decoding what was encoded gives the number back: a `U64` that holds the
/// bytes of `value` in the order `B` has the value `value`.
pub proof fn lemma_u64_round_trip<B: ByteOrder>(stored: U64<B>, value: u64)
    requires
        stored.0@ == B::bytes(value as nat, 8),
    ensures
        stored.value() == value,
{
    lemma_radix_values();
    B::lemma_round_trip(value as nat, 8);
}

/// Decoding what was encoded gives the number back: an `I16` that holds the
/// two's complement bytes of `value` in the order `B` has the value `value`.
pub proof fn lemma_i16_round_trip<B: ByteOrder>(stored: I16<B>, value: i16)
    requires
        stored.0@ == B::bytes(to_twos_complement(value as int, 2), 2),
    ensures
        stored.value() == value,
{
    lemma_radix_values();
    B::lemma_round_trip(to_twos_complement(value as int, 2), 2);
}

/// Decoding what was encoded gives the number back: an `I32` that holds the
/// two's complement bytes of `value` in the order `B` has the value `value`.
pub proof fn lemma_i32_round_trip<B: ByteOrder>(stored: I32<B>, value: i32)
    requires
        stored.0@ == B::bytes(to_twos_complement(value as int, 4), 4),
    ensures
        stored.value() == value,
{
    lemma_radix_values();
    B::lemma_round_trip(to_twos_complement(value as int, 4), 4);
}

/// Decoding what was encoded gives the number back: an `I64` that holds the
/// two's complement bytes of `value` in the order `B` has the value `value`.
pub proof fn lemma_i64_round_trip<B: ByteOrder>(stored: I64<B>, value: i64)
    requires
        stored.0@ == B::bytes(to_twos_complement(value as int, 8), 8),
    ensures
        stored.value() == value,
{
    lemma_radix_values();
    B::lemma_round_trip(to_twos_complement(value as int, 8), 8);
}

} // verus!
