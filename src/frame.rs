//! Packet framing: a two-byte command header, a little-endian length field
//! spliced in after it, the rest of the payload, and a CRC-16 trailer sent
//! low byte first.

use vstd::prelude::*;
use crate::crc::{crc16, crc16_of};

verus! {

/// The 16-bit value of a byte pair taken as `[low, high]`.
pub open spec fn pair_value(lo: u8, hi: u8) -> u16 {
    (hi as int * 256 + lo as int) as u16
}

/// The length field that a frame of payload length `n` carries: `n + 4`,
/// kept to 16 bits.
pub open spec fn length_field_of(n: nat) -> u16 {
    ((n + 4) % 0x10000) as u16
}

/// The bytes that the checksum covers: the first two payload bytes, the
/// length field low byte first, then the remaining payload bytes.
pub open spec fn frame_body(p: Seq<u8>) -> Seq<u8> {
    p.take(2) + seq![
        (length_field_of(p.len()) % 256) as u8,
        (length_field_of(p.len()) / 256) as u8,
    ] + p.skip(2)
}

/// A whole frame: its body followed by the body's checksum, low byte first.
pub open spec fn frame_of(p: Seq<u8>) -> Seq<u8> {
    frame_body(p) + seq![
        (crc16_of(frame_body(p)) % 256) as u8,
        (crc16_of(frame_body(p)) / 256) as u8,
    ]
}

/// A byte sequence is a well-formed frame when it has a two-byte trailer and
/// the trailer, read low byte first, is the checksum of what precedes it.
pub open spec fn well_formed(f: Seq<u8>) -> bool {
    &&& f.len() >= 2
    &&& pair_value(f[f.len() - 2], f[f.len() - 1]) == crc16_of(f.take(f.len() - 2))
}

/// Reads a byte pair as a 16-bit value: the second byte is the high byte.
pub fn u8asu16be(data: [u8; 2]) -> (r: u16)
    ensures
        r == pair_value(data@[0], data@[1]),
        r as int == data@[1] as int * 256 + data@[0] as int,
{
    let lo: u8 = data[0];
    let hi: u8 = data[1];
    let r: u16 = ((hi as u16) << 8u16) | lo as u16;
    assert(((hi as u16) << 8u16) | lo as u16 == hi as int * 256 + lo as int) by (bit_vector);
    r
}

/// Frames a command payload: splices the length field in after the first
/// two bytes and appends the checksum of the result, low byte first.
pub fn format(data: &Vec<u8>) -> (packet: Vec<u8>)
    requires
        data@.len() >= 2,
        data@.len() + 4 <= usize::MAX,
    ensures
        packet@ == frame_of(data@),
        packet@.len() == data@.len() + 4,
{
    let n = data.len();
    let length: usize = n + 4;
    let lo: u8 = (length % 256) as u8;
    let hi: u8 = ((length / 256) % 256) as u8;
    let ghost field = seq![lo, hi];
    assert(field == seq![
        (length_field_of(n as nat) % 256) as u8,
        (length_field_of(n as nat) / 256) as u8,
    ]) by {
        assert(length_field_of(n as nat) as int == length as int % 0x10000);
        assert((length as int % 0x10000) % 256 == length as int % 256) by (nonlinear_arith);
        assert((length as int % 0x10000) / 256 == (length as int / 256) % 256)
            by (nonlinear_arith);
    }
    let mut packet: Vec<u8> = Vec::with_capacity(n + 2);
    for j in 0..n
        invariant
            n == data@.len(),
            n >= 2,
            field == seq![lo, hi],
            j < 2 ==> packet@ == data@.take(j as int),
            j >= 2 ==> packet@ == data@.take(2) + field + data@.subrange(2, j as int),
    {
        packet.push(data[j]);
        if j == 1 {
            assert(packet@ =~= data@.take(2));
            packet.push(lo);
            packet.push(hi);
            assert(packet@ =~= data@.take(2) + field + data@.subrange(2, 2));
        } else if j == 0 {
            assert(packet@ =~= data@.take(1));
        } else {
            assert(packet@ =~= data@.take(2) + field + data@.subrange(2, j + 1));
        }
    }
    assert(packet@ =~= frame_body(data@));
    let crc: u16 = crc16(&packet);
    packet.push((crc % 256) as u8);
    packet.push((crc / 256) as u8);
    assert(packet@ =~= frame_of(data@));
    packet
}

/// What an inbound notification carries: the value of its two trailing
/// bytes and the checksum recomputed over the bytes before them.
#[derive(Clone, Copy, Debug, PartialEq, Eq, Structural)]
pub struct Notification {
    pub trailer: u16,
    pub body_crc: u16,
}

impl Notification {
    /// Whether the trailer agrees with the recomputed checksum.
    pub fn checksum_matches(&self) -> (r: bool)
        ensures
            r == (self.trailer == self.body_crc),
    {
        self.trailer == self.body_crc
    }
}

/// Decodes a notification: `None` when it is shorter than its two-byte
/// trailer, otherwise the trailer's value and the checksum of the body.
pub fn decode_notification(value: &Vec<u8>) -> (r: Option<Notification>)
    ensures
        value@.len() < 2 <==> r is None,
        r matches Some(m) ==> {
            let n = value@.len();
            &&& m.trailer == pair_value(value@[n - 2], value@[n - 1])
            &&& m.body_crc == crc16_of(value@.take(n - 2))
        },
{
    let n = value.len();
    if n < 2 {
        return None;
    }
    let trailer = u8asu16be([value[n - 2], value[n - 1]]);
    let mut body: Vec<u8> = Vec::with_capacity(n - 2);
    for i in 0..n - 2
        invariant
            n == value@.len(),
            n >= 2,
            body@ == value@.take(i as int),
    {
        body.push(value[i]);
        assert(body@ =~= value@.take(i + 1));
    }
    let body_crc = crc16(&body);
    Some(Notification { trailer, body_crc })
}

/// Whether `f` is a well-formed frame: at least two bytes, and a trailer that
/// matches the checksum of the bytes before it.
pub fn is_well_formed(f: &Vec<u8>) -> (r: bool)
    ensures
        r == well_formed(f@),
{
    match decode_notification(f) {
        None => false,
        Some(m) => m.checksum_matches(),
    }
}

proof fn lemma_pair_of_halves(c: u16)
    ensures
        pair_value((c % 256) as u8, (c / 256) as u8) == c,
{
    assert(pair_value((c % 256) as u8, (c / 256) as u8) == c) by (bit_vector);
}

/// Every frame of a payload of at least two bytes has a body two bytes
/// longer than the payload, a whole length four bytes longer, and a trailer
/// that checks against its body.
pub proof fn lemma_frame_well_formed(p: Seq<u8>)
    requires
        p.len() >= 2,
    ensures
        frame_body(p).len() == p.len() + 2,
        frame_of(p).len() == p.len() + 4,
        frame_of(p).take(p.len() + 2 as int) == frame_body(p),
        well_formed(frame_of(p)),
{
    let f = frame_of(p);
    let b = frame_body(p);
    assert(f.take(f.len() - 2) =~= b);
    lemma_pair_of_halves(crc16_of(b));
}

/// Framing is a function of the payload alone: equal payloads give
/// byte-identical frames.
pub proof fn lemma_frame_deterministic(p: Seq<u8>, q: Seq<u8>)
    requires
        p == q,
    ensures
        frame_of(p) == frame_of(q),
{
}

/// Bytes 2 and 3 of a frame, read low byte first, give the payload length
/// plus four, whenever that sum fits in 16 bits.
pub proof fn lemma_frame_length_field(p: Seq<u8>)
    requires
        p.len() >= 2,
        p.len() + 4 < 0x10000,
    ensures
        pair_value(frame_of(p)[2], frame_of(p)[3]) == p.len() + 4,
{
    let v = length_field_of(p.len());
    assert(v == p.len() + 4);
    lemma_pair_of_halves(v);
}

} // verus!
