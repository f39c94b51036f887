//! What holds of the legacy protocol as a whole.

use crate::legacy::{feature, feature2, Announce, PacketInfo, HEADER_LEN, MAX_PAYLOAD};
use crate::v1::Error;
use crate::wire;
use vstd::prelude::*;

verus! {

/// A packet at the head of a stream: its header parses to its type, subtype and
/// payload length, and that many bytes behind the header are its payload.
pub proof fn header_frames_the_payload(ptype: u8, subtype: u8, payload: Seq<u8>, rest: Seq<u8>)
    requires
        payload.len() <= MAX_PAYLOAD,
    ensures
        ({
            let bytes = crate::legacy::packet_bytes(ptype, subtype, payload);
            &&& bytes.len() == HEADER_LEN + payload.len()
            &&& crate::legacy::parsed_header(bytes + rest) == Ok::<PacketInfo, Error>(
                PacketInfo { ptype, subtype, subtype_b: 0, payload_len: payload.len() as u32 },
            )
            &&& (bytes + rest).subrange(HEADER_LEN as int, HEADER_LEN + payload.len()) == payload
            &&& (bytes + rest).skip(HEADER_LEN + payload.len()) == rest
        }),
{
    let b = crate::legacy::packet_bytes(ptype, subtype, payload) + rest;
    let n = payload.len() as u32;
    assert(b.subrange(4, 8) =~= wire::le32(n));
    wire::u32_at_of_le32(b, 4, n);
    assert(b.subrange(8, 8 + n as int) =~= payload);
    assert(b.skip(8 + n as int) =~= rest);
}

/// A payload above [`MAX_PAYLOAD`] whose length still fits the size field is
/// refused by the header.
pub proof fn oversized_payload_is_refused(ptype: u8, subtype: u8, payload: Seq<u8>, rest: Seq<u8>)
    requires
        MAX_PAYLOAD < payload.len() <= u32::MAX,
    ensures
        crate::legacy::parsed_header(crate::legacy::packet_bytes(ptype, subtype, payload) + rest)
            == Err::<PacketInfo, Error>(Error::PayloadTooLarge(payload.len() as u32)),
{
    let b = crate::legacy::packet_bytes(ptype, subtype, payload) + rest;
    let n = payload.len() as u32;
    assert(b.subrange(4, 8) =~= wire::le32(n));
    wire::u32_at_of_le32(b, 4, n);
}

/// Every setting travels as one 9-byte packet whose last byte is its value.
pub proof fn settings_are_nine_bytes(subtype: u8, value: u8)
    ensures
        crate::legacy::setting_bytes(subtype, value) == seq![
            4u8, subtype, 0u8, 0u8, 1u8, 0u8, 0u8, 0u8, value,
        ],
{
    assert(crate::legacy::setting_bytes(subtype, value) =~= seq![
        4u8, subtype, 0u8, 0u8, 1u8, 0u8, 0u8, 0u8, value,
    ]);
}

/// The flags of an `IMAGE` packet lose nothing of its subtype byte: each bit
/// has exactly one field, and packets that unpack alike have the same subtype.
pub proof fn flags_determine_the_subtype(s1: u8, b1: u8, s2: u8, b2: u8)
    requires
        crate::legacy::unpacked(s1, b1) == crate::legacy::unpacked(s2, b2),
    ensures
        s1 == s2,
{
    let i1 = crate::legacy::unpacked(s1, b1);
    let i2 = crate::legacy::unpacked(s2, b2);
    assert(i1.bottom == i2.bottom && i1.tga == i2.tga && i1.pixfmt == i2.pixfmt && i1.interlaced
        == i2.interlaced && i1.interlace_phase == i2.interlace_phase && i1.downscaled
        == i2.downscaled);
    assert(s1 == s2) by (bit_vector)
        requires
            (s1 & 0x10 != 0) == (s2 & 0x10 != 0),
            (s1 & 0x08 != 0) == (s2 & 0x08 != 0),
            s1 & 0x07 == s2 & 0x07,
            (s1 & 0x20 != 0) == (s2 & 0x20 != 0),
            (s1 & 0x40 != 0) == (s2 & 0x40 != 0),
            (s1 & 0x80 != 0) == (s2 & 0x80 != 0),
    ;
}

/// An Old 3DS chunk index is between 0 and 7, and the sender's `8 + index`
/// unpacks to that index.
pub proof fn chunk_index_range(subtype: u8, subtype_b: u8, index: u8)
    ensures
        crate::legacy::unpacked(subtype, subtype_b).chunk matches Some(i) ==> i <= 7,
        index <= 7 ==> crate::legacy::unpacked(subtype, (8 + index) as u8).chunk == Some(index),
{
    assert(subtype_b & 0x07 <= 7) by (bit_vector);
    if index <= 7 {
        let b = (8 + index) as u8;
        assert(b & 0x08 != 0 && b & 0x07 == index) by (bit_vector)
            requires
                index <= 7,
                b == 8 + index,
        ;
    }
}

/// Bytes behind the second feature byte of an announce change nothing, and an
/// announce without that byte reads it as zero.
pub proof fn announce_ignores_trailing_bytes(p: Seq<u8>, extra: Seq<u8>)
    ensures
        p.len() >= 3 ==> Announce::parsed(p + extra) == Announce::parsed(p),
        p.len() == 2 ==> Announce::parsed(p) == Announce::parsed(p.push(0)),
{
}

/// Where the fields of a header stand: the type, the subtype and the second subtype in the
/// first three bytes, and the payload's length in the last four, low byte first. The fourth
/// byte does not count. More than 448 kilobytes are refused.
pub proof fn header_fields_have_their_places(b: Seq<u8>)
    ensures
        b.len() < 8 ==> crate::legacy::parsed_header(b) == Err::<PacketInfo, Error>(
            Error::Truncated,
        ),
        b.len() >= 8 ==> {
            let n = b[4] + 256 * b[5] + 65536 * b[6] + 16777216 * b[7];
            crate::legacy::parsed_header(b) == if n > 458752 {
                Err::<PacketInfo, Error>(Error::PayloadTooLarge(n as u32))
            } else {
                Ok::<PacketInfo, Error>(
                    PacketInfo {
                        ptype: b[0],
                        subtype: b[1],
                        subtype_b: b[2],
                        payload_len: n as u32,
                    },
                )
            }
        },
{
}

/// Where the fields of a packet are written: its type and subtype, nothing in the next two
/// bytes, the payload's length, low byte first, and the payload.
pub proof fn packet_fields_have_their_places(ptype: u8, subtype: u8, payload: Seq<u8>)
    requires
        payload.len() < 0x1_0000_0000,
    ensures
        ({
            let b = crate::legacy::packet_bytes(ptype, subtype, payload);
            &&& b.len() == 8 + payload.len()
            &&& b[0] == ptype && b[1] == subtype && b[2] == 0 && b[3] == 0
            &&& b[4] + 256 * b[5] + 65536 * b[6] + 16777216 * b[7] == payload.len()
            &&& b.skip(8) == payload
        }),
{
    let b = crate::legacy::packet_bytes(ptype, subtype, payload);
    wire::least_significant_byte_comes_first(0, payload.len() as u32);
    assert(b.skip(8) =~= payload);
}

/// What each bit of an image's subtype says, from the lowest up: three for the pixel format,
/// then whether it is TGA, on the bottom screen, interlaced, of the second field, and
/// downscaled. In the second subtype the fourth bit says that it is a strip, and the three
/// below which.
pub proof fn subtype_bits_have_their_meanings(subtype: u8, subtype_b: u8)
    ensures
        ({
            let img = crate::legacy::unpacked(subtype, subtype_b);
            &&& img.pixfmt == subtype % 8
            &&& img.tga <==> subtype / 8 % 2 == 1
            &&& img.bottom <==> subtype / 16 % 2 == 1
            &&& img.interlaced <==> subtype / 32 % 2 == 1
            &&& img.interlace_phase <==> subtype / 64 % 2 == 1
            &&& img.downscaled <==> subtype / 128 == 1
            &&& img.chunk is Some <==> subtype_b / 8 % 2 == 1
            &&& img.chunk matches Some(i) ==> i == subtype_b % 8
        }),
{
    let (s, t) = (subtype, subtype_b);
    assert(s & 0x07 == s % 8) by (bit_vector);
    assert((s & 0x08 != 0) == (s / 8 % 2 == 1)) by (bit_vector);
    assert((s & 0x10 != 0) == (s / 16 % 2 == 1)) by (bit_vector);
    assert((s & 0x20 != 0) == (s / 32 % 2 == 1)) by (bit_vector);
    assert((s & 0x40 != 0) == (s / 64 % 2 == 1)) by (bit_vector);
    assert((s & 0x80 != 0) == (s / 128 == 1)) by (bit_vector);
    assert((t & 0x08 != 0) == (t / 8 % 2 == 1)) by (bit_vector);
    assert(t & 0x07 == t % 8) by (bit_vector);
}

/// Where the fields of an announce stand, and what each bit of its feature bytes says. A
/// second feature byte that is not there announces nothing.
pub proof fn announced_bits_have_their_meanings(p: Seq<u8>)
    ensures
        Announce::parsed(p) is Err <==> p.len() < 2,
        Announce::parsed(p) matches Err(e) ==> e == Error::Truncated,
        Announce::parsed(p) matches Ok(a) ==> {
            &&& a.revision == p[0]
            &&& a.announces(feature::STRIP_SKIP) <==> p[1] % 2 == 1
            &&& a.announces(feature::FPS_CAP) <==> p[1] / 2 % 2 == 1
            &&& a.announces(feature::OLD3DS_INTERLACE) <==> p[1] / 4 % 2 == 1
            &&& a.announces(feature::CHUNKS) <==> p[1] / 8 % 2 == 1
            &&& a.announces(feature::STRIP_SLEEP) <==> p[1] / 16 % 2 == 1
            &&& a.announces(feature::DOWNSCALE) <==> p[1] / 32 % 2 == 1
            &&& a.announces(feature::STATS_TOGGLE) <==> p[1] / 64 % 2 == 1
            &&& a.announces(feature::V2) <==> p[1] / 128 == 1
            &&& a.announces2(feature2::CELL_GRID) <==> p.len() > 2 && p[2] % 2 == 1
            &&& a.announces2(feature2::CAPTURE) <==> p.len() > 2 && p[2] / 2 % 2 == 1
        },
{
    if p.len() >= 2 {
        let f = p[1];
        assert((f & 0x01 != 0) == (f % 2 == 1)) by (bit_vector);
        assert((f & 0x02 != 0) == (f / 2 % 2 == 1)) by (bit_vector);
        assert((f & 0x04 != 0) == (f / 4 % 2 == 1)) by (bit_vector);
        assert((f & 0x08 != 0) == (f / 8 % 2 == 1)) by (bit_vector);
        assert((f & 0x10 != 0) == (f / 16 % 2 == 1)) by (bit_vector);
        assert((f & 0x20 != 0) == (f / 32 % 2 == 1)) by (bit_vector);
        assert((f & 0x40 != 0) == (f / 64 % 2 == 1)) by (bit_vector);
        assert((f & 0x80 != 0) == (f / 128 == 1)) by (bit_vector);
        let g = if p.len() > 2 {
            p[2]
        } else {
            0
        };
        assert((g & 0x01 != 0) == (g % 2 == 1)) by (bit_vector);
        assert((g & 0x02 != 0) == (g / 2 % 2 == 1)) by (bit_vector);
    }
}

} // verus!
