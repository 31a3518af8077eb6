//! Big-endian layouts of the fixed-width integers that travel on the wire.
//!
//! The layouts are stated as spec functions on byte sequences. The bytes
//! themselves are produced and consumed by the `byteorder` crate; the small
//! functions at the top of this file are the only places where that crate is
//! called, and their contracts are taken on trust.

use byteorder::{BigEndian, ByteOrder};
use vstd::prelude::*;

verus! {

/// The two bytes of `v`, most significant first.
pub open spec fn be_u16(v: u16) -> Seq<u8> {
    seq![(v >> 8) as u8, v as u8]
}

/// The four bytes of `v`, most significant first.
pub open spec fn be_u32(v: u32) -> Seq<u8> {
    seq![(v >> 24) as u8, (v >> 16) as u8, (v >> 8) as u8, v as u8]
}

/// The eight bytes of `v`, most significant first.
pub open spec fn be_u64(v: u64) -> Seq<u8> {
    seq![
        (v >> 56) as u8,
        (v >> 48) as u8,
        (v >> 40) as u8,
        (v >> 32) as u8,
        (v >> 24) as u8,
        (v >> 16) as u8,
        (v >> 8) as u8,
        v as u8,
    ]
}

/// The 16-bit word whose big-endian layout is the first two bytes of `s`.
pub open spec fn u16_of(s: Seq<u8>) -> u16
    recommends
        s.len() >= 2,
{
    ((s[0] as u16) << 8) | (s[1] as u16)
}

/// The 32-bit word whose big-endian layout is the first four bytes of `s`.
pub open spec fn u32_of(s: Seq<u8>) -> u32
    recommends
        s.len() >= 4,
{
    ((s[0] as u32) << 24) | ((s[1] as u32) << 16) | ((s[2] as u32) << 8) | (s[3] as u32)
}

/// The 64-bit word whose big-endian layout is the first eight bytes of `s`.
pub open spec fn u64_of(s: Seq<u8>) -> u64
    recommends
        s.len() >= 8,
{
    ((s[0] as u64) << 56) | ((s[1] as u64) << 48) | ((s[2] as u64) << 40) | ((s[3] as u64) << 32)
        | ((s[4] as u64) << 24) | ((s[5] as u64) << 16) | ((s[6] as u64) << 8) | (s[7] as u64)
}

/// Two's complement, big-endian layout of a signed 16-bit integer.
pub open spec fn be_i16(v: i16) -> Seq<u8> {
    be_u16(v as u16)
}

/// Two's complement, big-endian layout of a signed 32-bit integer.
pub open spec fn be_i32(v: i32) -> Seq<u8> {
    be_u32(v as u32)
}

/// Two's complement, big-endian layout of a signed 64-bit integer.
pub open spec fn be_i64(v: i64) -> Seq<u8> {
    be_u64(v as u64)
}

/// The signed 16-bit integer laid out in the first two bytes of `s`.
pub open spec fn i16_of(s: Seq<u8>) -> i16
    recommends
        s.len() >= 2,
{
    u16_of(s) as i16
}

/// The signed 32-bit integer laid out in the first four bytes of `s`.
pub open spec fn i32_of(s: Seq<u8>) -> i32
    recommends
        s.len() >= 4,
{
    u32_of(s) as i32
}

/// The signed 64-bit integer laid out in the first eight bytes of `s`.
pub open spec fn i64_of(s: Seq<u8>) -> i64
    recommends
        s.len() >= 8,
{
    u64_of(s) as i64
}

/// Calls `byteorder::ByteOrder::write_i16` for `BigEndian`. Trusted: the
/// two bytes it leaves in `buf` are the two's complement of `n`, high byte
/// first.
#[verifier::external_body]
fn put_i16(buf: &mut [u8; 2], n: i16)
    ensures
        final(buf)@ == be_i16(n),
{
    BigEndian::write_i16(buf, n);
}

/// Calls `byteorder::ByteOrder::write_i32` for `BigEndian`. Trusted: the
/// four bytes it leaves in `buf` are the two's complement of `n`, high byte
/// first.
#[verifier::external_body]
fn put_i32(buf: &mut [u8; 4], n: i32)
    ensures
        final(buf)@ == be_i32(n),
{
    BigEndian::write_i32(buf, n);
}

/// Calls `byteorder::ByteOrder::write_i64` for `BigEndian`. Trusted: the
/// eight bytes it leaves in `buf` are the two's complement of `n`, high byte
/// first.
#[verifier::external_body]
fn put_i64(buf: &mut [u8; 8], n: i64)
    ensures
        final(buf)@ == be_i64(n),
{
    BigEndian::write_i64(buf, n);
}

/// Calls `byteorder::ByteOrder::write_u32` for `BigEndian`. Trusted: the
/// four bytes it leaves in `buf` are those of `n`, high byte first.
#[verifier::external_body]
fn put_u32(buf: &mut [u8; 4], n: u32)
    ensures
        final(buf)@ == be_u32(n),
{
    BigEndian::write_u32(buf, n);
}

/// Calls `byteorder::ByteOrder::read_i16` for `BigEndian`, which panics on
/// fewer than two bytes. Trusted: it returns the integer laid out in the
/// first two bytes of `buf`.
#[verifier::external_body]
fn get_i16(buf: &[u8]) -> (n: i16)
    requires
        buf@.len() >= 2,
    ensures
        n == i16_of(buf@),
{
    BigEndian::read_i16(buf)
}

/// Calls `byteorder::ByteOrder::read_i32` for `BigEndian`, which panics on
/// fewer than four bytes. Trusted: it returns the integer laid out in the
/// first four bytes of `buf`.
#[verifier::external_body]
fn get_i32(buf: &[u8]) -> (n: i32)
    requires
        buf@.len() >= 4,
    ensures
        n == i32_of(buf@),
{
    BigEndian::read_i32(buf)
}

/// Calls `byteorder::ByteOrder::read_i64` for `BigEndian`, which panics on
/// fewer than eight bytes. Trusted: it returns the integer laid out in the
/// first eight bytes of `buf`.
#[verifier::external_body]
fn get_i64(buf: &[u8]) -> (n: i64)
    requires
        buf@.len() >= 8,
    ensures
        n == i64_of(buf@),
{
    BigEndian::read_i64(buf)
}

/// Calls `byteorder::ByteOrder::read_u32` for `BigEndian`, which panics on
/// fewer than four bytes. Trusted: it returns the word laid out in the first
/// four bytes of `buf`.
#[verifier::external_body]
fn get_u32(buf: &[u8]) -> (n: u32)
    requires
        buf@.len() >= 4,
    ensures
        n == u32_of(buf@),
{
    BigEndian::read_u32(buf)
}

/// Appends the big-endian layout of `v` to `out`.
pub fn push_i16(out: &mut Vec<u8>, v: i16)
    ensures
        final(out)@ == old(out)@ + be_i16(v),
{
    let mut buf: [u8; 2] = [0u8; 2];
    put_i16(&mut buf, v);
    out.extend_from_slice(buf.as_slice());
    assert(out@ =~= old(out)@ + be_i16(v));
}

/// Appends the big-endian layout of `v` to `out`.
pub fn push_i32(out: &mut Vec<u8>, v: i32)
    ensures
        final(out)@ == old(out)@ + be_i32(v),
{
    let mut buf: [u8; 4] = [0u8; 4];
    put_i32(&mut buf, v);
    out.extend_from_slice(buf.as_slice());
    assert(out@ =~= old(out)@ + be_i32(v));
}

/// Appends the big-endian layout of `v` to `out`.
pub fn push_i64(out: &mut Vec<u8>, v: i64)
    ensures
        final(out)@ == old(out)@ + be_i64(v),
{
    let mut buf: [u8; 8] = [0u8; 8];
    put_i64(&mut buf, v);
    out.extend_from_slice(buf.as_slice());
    assert(out@ =~= old(out)@ + be_i64(v));
}

/// Appends the big-endian layout of `v` to `out`.
pub fn push_u32(out: &mut Vec<u8>, v: u32)
    ensures
        final(out)@ == old(out)@ + be_u32(v),
{
    let mut buf: [u8; 4] = [0u8; 4];
    put_u32(&mut buf, v);
    out.extend_from_slice(buf.as_slice());
    assert(out@ =~= old(out)@ + be_u32(v));
}

/// Reads the signed 16-bit integer that starts at `pos`.
pub fn i16_at(src: &[u8], pos: usize) -> (v: i16)
    requires
        pos + 2 <= src@.len(),
    ensures
        v == i16_of(src@.skip(pos as int)),
{
    let len: usize = src.len();
    assert(pos + 2 <= len);
    let v = get_i16(&src[pos..pos + 2]);
    assert(i16_of(src@.subrange(pos as int, pos + 2)) == i16_of(src@.skip(pos as int)));
    v
}

/// Reads the signed 32-bit integer that starts at `pos`.
pub fn i32_at(src: &[u8], pos: usize) -> (v: i32)
    requires
        pos + 4 <= src@.len(),
    ensures
        v == i32_of(src@.skip(pos as int)),
{
    let len: usize = src.len();
    assert(pos + 4 <= len);
    let v = get_i32(&src[pos..pos + 4]);
    assert(i32_of(src@.subrange(pos as int, pos + 4)) == i32_of(src@.skip(pos as int)));
    v
}

/// Reads the signed 64-bit integer that starts at `pos`.
pub fn i64_at(src: &[u8], pos: usize) -> (v: i64)
    requires
        pos + 8 <= src@.len(),
    ensures
        v == i64_of(src@.skip(pos as int)),
{
    let len: usize = src.len();
    assert(pos + 8 <= len);
    let v = get_i64(&src[pos..pos + 8]);
    assert(i64_of(src@.subrange(pos as int, pos + 8)) == i64_of(src@.skip(pos as int)));
    v
}

/// Reads the unsigned 32-bit word that starts at `pos`.
pub fn u32_at(src: &[u8], pos: usize) -> (v: u32)
    requires
        pos + 4 <= src@.len(),
    ensures
        v == u32_of(src@.skip(pos as int)),
{
    let len: usize = src.len();
    assert(pos + 4 <= len);
    let v = get_u32(&src[pos..pos + 4]);
    assert(u32_of(src@.subrange(pos as int, pos + 4)) == u32_of(src@.skip(pos as int)));
    v
}

/// A 16-bit integer is read back from its own layout, whatever follows it.
pub proof fn lemma_i16_round_trip(v: i16, rest: Seq<u8>)
    ensures
        be_i16(v).len() == 2,
        i16_of(be_i16(v) + rest) == v,
{
    let u = v as u16;
    let s = be_i16(v) + rest;
    assert(s[0] == (u >> 8) as u8 && s[1] == u as u8);
    assert(((((u >> 8) as u8) as u16) << 8) | ((u as u8) as u16) == u) by (bit_vector);
    assert((v as u16) as i16 == v) by (bit_vector);
}

/// A 32-bit integer is read back from its own layout, whatever follows it.
pub proof fn lemma_i32_round_trip(v: i32, rest: Seq<u8>)
    ensures
        be_i32(v).len() == 4,
        i32_of(be_i32(v) + rest) == v,
{
    let u = v as u32;
    lemma_u32_round_trip(u, rest);
    assert((v as u32) as i32 == v) by (bit_vector);
}

/// A 32-bit word is read back from its own layout, whatever follows it.
pub proof fn lemma_u32_round_trip(u: u32, rest: Seq<u8>)
    ensures
        be_u32(u).len() == 4,
        u32_of(be_u32(u) + rest) == u,
{
    let s = be_u32(u) + rest;
    assert(s[0] == (u >> 24) as u8 && s[1] == (u >> 16) as u8 && s[2] == (u >> 8) as u8 && s[3]
        == u as u8);
    assert(((((u >> 24) as u8) as u32) << 24) | ((((u >> 16) as u8) as u32) << 16) | ((((u >> 8) as u8) as u32)
        << 8) | ((u as u8) as u32) == u) by (bit_vector);
}

/// A 64-bit integer is read back from its own layout, whatever follows it.
pub proof fn lemma_i64_round_trip(v: i64, rest: Seq<u8>)
    ensures
        be_i64(v).len() == 8,
        i64_of(be_i64(v) + rest) == v,
{
    let u = v as u64;
    let s = be_i64(v) + rest;
    assert(s[0] == (u >> 56) as u8 && s[1] == (u >> 48) as u8 && s[2] == (u >> 40) as u8 && s[3]
        == (u >> 32) as u8 && s[4] == (u >> 24) as u8 && s[5] == (u >> 16) as u8 && s[6] == (u
        >> 8) as u8 && s[7] == u as u8);
    assert(((((u >> 56) as u8) as u64) << 56) | ((((u >> 48) as u8) as u64) << 48) | ((((u >> 40) as u8) as u64)
        << 40) | ((((u >> 32) as u8) as u64) << 32) | ((((u >> 24) as u8) as u64) << 24) | ((((u
        >> 16) as u8) as u64) << 16) | ((((u >> 8) as u8) as u64) << 8) | ((u as u8) as u64)
        == u) by (bit_vector);
    assert((v as u64) as i64 == v) by (bit_vector);
}

/// Four bytes are the layout of the word that they are read as.
pub proof fn lemma_u32_layout_of_bytes(s: Seq<u8>)
    requires
        s.len() == 4,
    ensures
        be_u32(u32_of(s)) == s,
{
    let (a, b, c, d) = (s[0], s[1], s[2], s[3]);
    let u = u32_of(s);
    assert(u == ((a as u32) << 24) | ((b as u32) << 16) | ((c as u32) << 8) | (d as u32));
    assert({
        let u = ((a as u32) << 24) | ((b as u32) << 16) | ((c as u32) << 8) | (d as u32);
        (u >> 24) as u8 == a && (u >> 16) as u8 == b && (u >> 8) as u8 == c && u as u8 == d
    }) by (bit_vector);
    assert(be_u32(u) =~= s);
}

} // verus!
