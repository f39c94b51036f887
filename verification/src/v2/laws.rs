//! What holds of the version 2 codec as a whole.

use crate::v1::Error;
use crate::v2::{
    Codec, PassView, RegionView, SFrameHeader, MAX_PAYLOAD, PASS_HEADER_LEN, REGION_HEADER_LEN,
    SFRAME_HEADER_LEN,
};
use crate::wire;
use vstd::prelude::*;

verus! {

/// Whether a length field can tell how long each region's data is.
pub open spec fn measurable(rs: Seq<RegionView>) -> bool {
    forall|i: int| 0 <= i < rs.len() ==> (#[trigger] rs[i]).data.len() < 0x1_0000_0000
}

/// Where the fields of a region stand in its bytes.
proof fn lemma_region_layout(r: RegionView)
    ensures
        ({
            let b = crate::v2::region_bytes(r);
            &&& b.len() == REGION_HEADER_LEN + r.data.len()
            &&& b.subrange(0, 2) == wire::le16(r.x)
            &&& b.subrange(2, 4) == wire::le16(r.y)
            &&& b.subrange(4, 6) == wire::le16(r.w)
            &&& b.subrange(6, 8) == wire::le16(r.h)
            &&& b[8] == r.codec.code()
            &&& b[9] == r.flags
            &&& b.subrange(10, 14) == wire::le32((r.data.len() % 0x1_0000_0000) as u32)
            &&& b.skip(REGION_HEADER_LEN as int) == r.data
        }),
{
    reveal(crate::v2::region_bytes);
    let b = crate::v2::region_bytes(r);
    assert(b.subrange(0, 2) =~= wire::le16(r.x));
    assert(b.subrange(2, 4) =~= wire::le16(r.y));
    assert(b.subrange(4, 6) =~= wire::le16(r.w));
    assert(b.subrange(6, 8) =~= wire::le16(r.h));
    assert(b.subrange(10, 14) =~= wire::le32((r.data.len() % 0x1_0000_0000) as u32));
    assert(b.skip(14) =~= r.data);
}

/// The header of the region that stands at `off` reads back.
proof fn lemma_region_reads_back(b: Seq<u8>, off: int, r: RegionView)
    requires
        0 <= off,
        r.data.len() < 0x1_0000_0000,
        off + REGION_HEADER_LEN <= b.len(),
        b.subrange(off, off + REGION_HEADER_LEN) == crate::v2::region_bytes(r).take(
            REGION_HEADER_LEN as int,
        ),
    ensures
        Codec::of_code(b[off + 8]) == Some(r.codec),
        wire::u32_at(b, off + 10) == r.data.len(),
        wire::u16_at(b, off) == r.x,
        wire::u16_at(b, off + 2) == r.y,
        wire::u16_at(b, off + 4) == r.w,
        wire::u16_at(b, off + 6) == r.h,
        b[off + 9] == r.flags,
{
    let bytes = crate::v2::region_bytes(r);
    let head = b.subrange(off, off + 14);
    lemma_region_layout(r);
    assert(b.subrange(off, off + 2) =~= head.subrange(0, 2));
    assert(bytes.subrange(0, 2) =~= head.subrange(0, 2));
    assert(b.subrange(off + 2, off + 4) =~= head.subrange(2, 4));
    assert(bytes.subrange(2, 4) =~= head.subrange(2, 4));
    assert(b.subrange(off + 4, off + 6) =~= head.subrange(4, 6));
    assert(bytes.subrange(4, 6) =~= head.subrange(4, 6));
    assert(b.subrange(off + 6, off + 8) =~= head.subrange(6, 8));
    assert(bytes.subrange(6, 8) =~= head.subrange(6, 8));
    assert(b.subrange(off + 10, off + 14) =~= head.subrange(10, 14));
    assert(bytes.subrange(10, 14) =~= head.subrange(10, 14));
    wire::u16_at_of_le16(b, off, r.x);
    wire::u16_at_of_le16(b, off + 2, r.y);
    wire::u16_at_of_le16(b, off + 4, r.w);
    wire::u16_at_of_le16(b, off + 6, r.h);
    wire::u32_at_of_le32(b, off + 10, r.data.len() as u32);
    assert(b[off + 8] == head[8] && head[8] == bytes[8]);
    assert(b[off + 9] == head[9] && head[9] == bytes[9]);
}

/// Regions parse back from wherever their bytes stand.
proof fn lemma_regions_roundtrip(pre: Seq<u8>, rs: Seq<RegionView>, post: Seq<u8>)
    requires
        measurable(rs),
    ensures
        crate::v2::parsed_regions(
            pre + crate::v2::regions_bytes(rs) + post,
            pre.len() as int,
            rs.len(),
        ) == Ok::<Seq<RegionView>, Error>(rs),
    decreases rs.len(),
{
    let b = pre + crate::v2::regions_bytes(rs) + post;
    let off = pre.len() as int;
    if rs.len() == 0 {
        assert(rs =~= Seq::empty());
    } else {
        let r = rs[0];
        let bytes = crate::v2::region_bytes(r);
        let rest = rs.skip(1);
        let n = r.data.len() as int;
        lemma_region_layout(r);
        assert(b =~= (pre + bytes) + crate::v2::regions_bytes(rest) + post);
        assert(b.subrange(off, off + 14) =~= bytes.take(14));
        lemma_region_reads_back(b, off, r);
        assert(b.subrange(off + 14, off + 14 + n) =~= bytes.skip(14));
        assert(crate::v2::region_at(b, off, r.codec, n) =~= r);
        lemma_regions_roundtrip(pre + bytes, rest, post);
        assert(seq![r] + rest =~= rs);
    }
}

/// Parsing undoes encoding: the payload of an encoded `SFRAME` parses to its flags
/// and regions, whatever follows it in the buffer. A pass without regions is
/// legal.
pub proof fn parse_undoes_encode(pass: PassView, post: Seq<u8>)
    requires
        pass.regions.len() <= 255,
        measurable(pass.regions),
    ensures
        crate::v2::parsed_payload(crate::v2::payload_bytes(pass) + post) == Ok::<PassView, Error>(
            pass,
        ),
{
    let pre = seq![pass.pass_flags, (pass.regions.len() % 256) as u8, 0u8, 0u8];
    let b = crate::v2::payload_bytes(pass) + post;
    assert(b =~= pre + crate::v2::regions_bytes(pass.regions) + post);
    lemma_regions_roundtrip(pre, pass.regions, post);
}

/// An `SFRAME` at the head of a stream: its header parses to the screen, the
/// sequence number and the payload's length, and that many bytes behind the
/// header are its payload.
pub proof fn header_frames_the_payload(screen: u8, seq: u16, pass: PassView, rest: Seq<u8>)
    requires
        crate::v2::payload_bytes(pass).len() <= MAX_PAYLOAD,
    ensures
        ({
            let payload = crate::v2::payload_bytes(pass);
            let bytes = crate::v2::sframe_bytes(screen, seq, pass);
            &&& bytes.len() == SFRAME_HEADER_LEN + payload.len()
            &&& crate::v2::parsed_sframe_header(bytes + rest) == Ok::<SFrameHeader, Error>(
                SFrameHeader { screen, seq, payload_len: payload.len() as u32 },
            )
            &&& (bytes + rest).subrange(
                SFRAME_HEADER_LEN as int,
                SFRAME_HEADER_LEN + payload.len(),
            ) == payload
        }),
{
    let payload = crate::v2::payload_bytes(pass);
    let b = crate::v2::sframe_bytes(screen, seq, pass) + rest;
    let n = payload.len() as u32;
    assert(b.subrange(2, 4) =~= wire::le16(seq));
    assert(b.subrange(4, 8) =~= wire::le32(n));
    wire::u16_at_of_le16(b, 2, seq);
    wire::u32_at_of_le32(b, 4, n);
    assert(b.subrange(8, 8 + n as int) =~= payload);
}

/// A pass that outgrows [`MAX_PAYLOAD`] is refused by whoever receives it, as far
/// as the length field can tell its size.
pub proof fn oversized_pass_is_refused(screen: u8, seq: u16, pass: PassView, rest: Seq<u8>)
    requires
        MAX_PAYLOAD < crate::v2::payload_bytes(pass).len() < 0x1_0000_0000,
    ensures
        crate::v2::parsed_sframe_header(crate::v2::sframe_bytes(screen, seq, pass) + rest) == Err::<
            SFrameHeader,
            Error,
        >(Error::PayloadTooLarge(crate::v2::payload_bytes(pass).len() as u32)),
{
    let b = crate::v2::sframe_bytes(screen, seq, pass) + rest;
    let n = crate::v2::payload_bytes(pass).len() as u32;
    assert(b.subrange(4, 8) =~= wire::le32(n));
    wire::u32_at_of_le32(b, 4, n);
}

/// Regions cut short anywhere do not parse.
proof fn lemma_regions_cut(pre: Seq<u8>, rs: Seq<RegionView>, k: int)
    requires
        measurable(rs),
        pre.len() <= k < pre.len() + crate::v2::regions_bytes(rs).len(),
    ensures
        crate::v2::parsed_regions(
            (pre + crate::v2::regions_bytes(rs)).take(k),
            pre.len() as int,
            rs.len(),
        ) == Err::<Seq<RegionView>, Error>(Error::Truncated),
    decreases rs.len(),
{
    let whole = pre + crate::v2::regions_bytes(rs);
    let b = whole.take(k);
    let off = pre.len() as int;
    assert(rs.len() > 0);
    let r = rs[0];
    let bytes = crate::v2::region_bytes(r);
    let rest = rs.skip(1);
    let n = r.data.len() as int;
    lemma_region_layout(r);
    if k >= off + 14 {
        assert(b.subrange(off, off + 14) =~= bytes.take(14));
        lemma_region_reads_back(b, off, r);
        if k >= off + 14 + n {
            assert(whole =~= (pre + bytes) + crate::v2::regions_bytes(rest));
            lemma_regions_cut(pre + bytes, rest, k);
        }
    }
}

/// Truncation is always noticed: every proper prefix of an encoded payload is
/// rejected as truncated.
pub proof fn truncated_payload_is_rejected(pass: PassView, k: int)
    requires
        pass.regions.len() <= 255,
        measurable(pass.regions),
        0 <= k < crate::v2::payload_bytes(pass).len(),
    ensures
        crate::v2::parsed_payload(crate::v2::payload_bytes(pass).take(k)) == Err::<PassView, Error>(
            Error::Truncated,
        ),
{
    let pre = seq![pass.pass_flags, (pass.regions.len() % 256) as u8, 0u8, 0u8];
    let b = crate::v2::payload_bytes(pass).take(k);
    if k >= PASS_HEADER_LEN {
        assert(b[1] == pass.regions.len());
        lemma_regions_cut(pre, pass.regions, k);
    }
}

/// A 16-bit value has the bytes it was read from.
proof fn lemma_bytes_of_u16(b: Seq<u8>, at: int)
    requires
        0 <= at,
        at + 2 <= b.len(),
    ensures
        b.subrange(at, at + 2) == wire::le16(wire::u16_at(b, at)),
{
    let x = wire::u16_at(b, at);
    assert(x % 256 == b[at]);
    assert(b.subrange(at, at + 2) =~= wire::le16(x));
}

/// A 32-bit value has the bytes it was read from.
proof fn lemma_bytes_of_u32(b: Seq<u8>, at: int)
    requires
        0 <= at,
        at + 4 <= b.len(),
    ensures
        b.subrange(at, at + 4) == wire::le32(wire::u32_at(b, at)),
{
    let x = wire::u32_at(b, at);
    let (b0, b1, b2, b3) = (b[at], b[at + 1], b[at + 2], b[at + 3]);
    assert(x % 256 == b0 && x / 256 % 256 == b1 && x / 65536 % 256 == b2 && x / 16777216 == b3)
        by (bit_vector)
        requires
            x == b0 + 256 * b1 + 65536 * b2 + 16777216 * b3,
    ;
    assert(b.subrange(at, at + 4) =~= wire::le32(x));
}

/// The bytes of the region that was read at `off`.
proof fn lemma_region_encodes_back(b: Seq<u8>, off: int, codec: Codec, n: int)
    requires
        0 <= off,
        n == wire::u32_at(b, off + 10),
        off + REGION_HEADER_LEN + n <= b.len(),
        Codec::of_code(b[off + 8]) == Some(codec),
    ensures
        crate::v2::region_bytes(crate::v2::region_at(b, off, codec, n)) == b.subrange(
            off,
            off + REGION_HEADER_LEN + n,
        ),
{
    reveal(crate::v2::region_bytes);
    let r = crate::v2::region_at(b, off, codec, n);
    let cut = b.subrange(off, off + 14 + n);
    lemma_bytes_of_u16(b, off);
    lemma_bytes_of_u16(b, off + 2);
    lemma_bytes_of_u16(b, off + 4);
    lemma_bytes_of_u16(b, off + 6);
    lemma_bytes_of_u32(b, off + 10);
    assert(r.data.len() == n);
    assert(cut.subrange(0, 8) =~= wire::le16(r.x) + wire::le16(r.y) + wire::le16(r.w) + wire::le16(
        r.h,
    )) by {
        assert(cut.subrange(0, 8) =~= b.subrange(off, off + 2) + b.subrange(off + 2, off + 4)
            + b.subrange(off + 4, off + 6) + b.subrange(off + 6, off + 8));
    }
    assert(cut.subrange(10, 14) =~= b.subrange(off + 10, off + 14));
    assert(cut.subrange(14, 14 + n) =~= r.data);
    assert(cut.subrange(8, 10) =~= seq![codec.code(), r.flags]);
    assert(cut =~= cut.subrange(0, 8) + cut.subrange(8, 10) + cut.subrange(10, 14) + cut.subrange(
        14,
        14 + n,
    ));
}

/// What was parsed encodes to the bytes it was parsed from.
proof fn lemma_regions_encode_back(b: Seq<u8>, off: int, count: nat, rs: Seq<RegionView>)
    requires
        0 <= off <= b.len(),
        crate::v2::parsed_regions(b, off, count) == Ok::<Seq<RegionView>, Error>(rs),
    ensures
        rs.len() == count,
        measurable(rs),
        off + crate::v2::regions_bytes(rs).len() <= b.len(),
        b.subrange(off, off + crate::v2::regions_bytes(rs).len()) == crate::v2::regions_bytes(rs),
    decreases count,
{
    if count == 0 {
        assert(b.subrange(off, off) =~= Seq::empty());
    } else {
        let codec = Codec::of_code(b[off + 8])->0;
        let n = wire::u32_at(b, off + 10) as int;
        let r = crate::v2::region_at(b, off, codec, n);
        let next = off + 14 + n;
        let rest = crate::v2::parsed_regions(b, next, (count - 1) as nat)->Ok_0;
        assert(rs =~= seq![r] + rest);
        lemma_regions_encode_back(b, next, (count - 1) as nat, rest);
        assert(rs.skip(1) =~= rest);
        assert(rs[0] == r);
        assert forall|i: int| 0 <= i < rs.len() implies (#[trigger] rs[i]).data.len()
            < 0x1_0000_0000 by {
            if i > 0 {
                assert(rs[i] == rest[i - 1]);
            }
        }
        lemma_region_encodes_back(b, off, codec, n);
        let end = next + crate::v2::regions_bytes(rest).len();
        assert(b.subrange(off, end) =~= b.subrange(off, next) + b.subrange(next, end));
    }
}

/// Encoding undoes parsing: a payload that parses is, but for the two reserved
/// bytes and what follows the last region, the encoding of what it parsed to.
pub proof fn encode_undoes_parse(b: Seq<u8>, pass: PassView)
    requires
        crate::v2::parsed_payload(b) == Ok::<PassView, Error>(pass),
    ensures
        pass.regions.len() <= 255,
        measurable(pass.regions),
        crate::v2::payload_bytes(pass).len() <= b.len(),
        b.take(crate::v2::payload_bytes(pass).len() as int).update(2, 0).update(3, 0)
            == crate::v2::payload_bytes(pass),
{
    let rs = pass.regions;
    lemma_regions_encode_back(b, 4, b[1] as nat, rs);
    let body = crate::v2::regions_bytes(rs);
    let n = crate::v2::payload_bytes(pass).len() as int;
    let cut = b.take(n).update(2, 0).update(3, 0);
    assert(cut.subrange(4, n) =~= b.subrange(4, 4 + body.len() as int));
    assert(cut =~= cut.subrange(0, 4) + cut.subrange(4, n));
    assert(cut.subrange(0, 4) =~= seq![pass.pass_flags, (rs.len() % 256) as u8, 0u8, 0u8]);
}

/// Where the fields of an `SFRAME` header stand: its type, the screen, the pass's number and
/// the payload's length, both low byte first. Other types are none of these, and more than
/// 448 kilobytes are refused.
pub proof fn sframe_fields_have_their_places(b: Seq<u8>, screen: u8, number: u16, pass: PassView)
    ensures
        b.len() < 8 ==> crate::v2::parsed_sframe_header(b) == Err::<SFrameHeader, Error>(
            Error::Truncated,
        ),
        b.len() >= 8 && b[0] != 0x90 ==> crate::v2::parsed_sframe_header(b) == Err::<
            SFrameHeader,
            Error,
        >(Error::UnknownType(b[0])),
        b.len() >= 8 && b[0] == 0x90 ==> {
            let n = b[4] + 256 * b[5] + 65536 * b[6] + 16777216 * b[7];
            crate::v2::parsed_sframe_header(b) == if n > 458752 {
                Err::<SFrameHeader, Error>(Error::PayloadTooLarge(n as u32))
            } else {
                Ok::<SFrameHeader, Error>(
                    SFrameHeader {
                        screen: b[1],
                        seq: (b[2] + 256 * b[3]) as u16,
                        payload_len: n as u32,
                    },
                )
            }
        },
        crate::v2::payload_bytes(pass).len() < 0x1_0000_0000 ==> {
            let f = crate::v2::sframe_bytes(screen, number, pass);
            &&& f.len() == 8 + crate::v2::payload_bytes(pass).len()
            &&& f[0] == 0x90 && f[1] == screen
            &&& f[2] + 256 * f[3] == number
            &&& f[4] + 256 * f[5] + 65536 * f[6] + 16777216 * f[7] == crate::v2::payload_bytes(
                pass,
            ).len()
            &&& f.skip(8) == crate::v2::payload_bytes(pass)
        },
{
    let f = crate::v2::sframe_bytes(screen, number, pass);
    let n = crate::v2::payload_bytes(pass).len();
    if n < 0x1_0000_0000 {
        wire::least_significant_byte_comes_first(number, n as u32);
        assert(f.skip(8) =~= crate::v2::payload_bytes(pass));
    }
}

/// Where the fields of a region stand that is parsed at `off`: its column, row, width and
/// height, two bytes each, low byte first, its codec and its flags, the length of its data,
/// and the data, behind which the next one begins. A codec that is none is reported, and so
/// is data that is not all there.
pub proof fn region_fields_are_read_in_their_places(p: Seq<u8>, off: int, count: nat)
    requires
        0 <= off,
        count > 0,
    ensures
        p.len() < off + 14 ==> crate::v2::parsed_regions(p, off, count) == Err::<
            Seq<RegionView>,
            Error,
        >(Error::Truncated),
        p.len() >= off + 14 ==> {
            let n = p[off + 10] + 256 * p[off + 11] + 65536 * p[off + 12] + 16777216 * p[off + 13];
            &&& p[off + 8] > 3 ==> crate::v2::parsed_regions(p, off, count) == Err::<
                Seq<RegionView>,
                Error,
            >(Error::BadValue { field: "codec", value: p[off + 8] })
            &&& p[off + 8] <= 3 && p.len() < off + 14 + n ==> crate::v2::parsed_regions(
                p,
                off,
                count,
            ) == Err::<Seq<RegionView>, Error>(Error::Truncated)
            &&& p[off + 8] <= 3 && p.len() >= off + 14 + n ==> {
                let rest = crate::v2::parsed_regions(p, off + 14 + n, (count - 1) as nat);
                let res = crate::v2::parsed_regions(p, off, count);
                &&& rest matches Err(e) ==> res == Err::<Seq<RegionView>, Error>(e)
                &&& rest matches Ok(others) ==> (res matches Ok(all) && {
                    &&& all.len() == 1 + others.len()
                    &&& all.skip(1) == others
                    &&& all[0].x == p[off] + 256 * p[off + 1]
                    &&& all[0].y == p[off + 2] + 256 * p[off + 3]
                    &&& all[0].w == p[off + 4] + 256 * p[off + 5]
                    &&& all[0].h == p[off + 6] + 256 * p[off + 7]
                    &&& (all[0].codec is Raw565 <==> p[off + 8] == 0)
                    &&& (all[0].codec is Jpeg <==> p[off + 8] == 1)
                    &&& (all[0].codec is Raw565Half <==> p[off + 8] == 2)
                    &&& (all[0].codec is RawBgr8 <==> p[off + 8] == 3)
                    &&& all[0].flags == p[off + 9]
                    &&& all[0].data == p.subrange(off + 14, off + 14 + n)
                })
            }
        },
{
    if p.len() >= off + 14 {
        let n = p[off + 10] + 256 * p[off + 11] + 65536 * p[off + 12] + 16777216 * p[off + 13];
        if p[off + 8] <= 3 && p.len() >= off + 14 + n {
            let rest = crate::v2::parsed_regions(p, off + 14 + n, (count - 1) as nat);
            if let Ok(others) = rest {
                let all = crate::v2::parsed_regions(p, off, count)->Ok_0;
                assert(all.skip(1) =~= others);
            }
        }
    }
}

/// A payload is the pass's flags, the number of its regions, two unused bytes, and the
/// regions.
pub proof fn pass_fields_have_their_places(p: Seq<u8>, pass: PassView)
    ensures
        p.len() < 4 ==> crate::v2::parsed_payload(p) == Err::<PassView, Error>(Error::Truncated),
        p.len() >= 4 ==> crate::v2::parsed_payload(p) == match crate::v2::parsed_regions(
            p,
            4,
            p[1] as nat,
        ) {
            Ok(regions) => Ok::<PassView, Error>(PassView { pass_flags: p[0], regions }),
            Err(e) => Err::<PassView, Error>(e),
        },
        crate::v2::parsed_regions(p, 4, 0) == Ok::<Seq<RegionView>, Error>(Seq::empty()),
        pass.regions.len() < 256 ==> {
            let b = crate::v2::payload_bytes(pass);
            &&& b.len() >= 4
            &&& b[0] == pass.pass_flags
            &&& b[1] == pass.regions.len()
            &&& b[2] == 0 && b[3] == 0
            &&& b.skip(4) == crate::v2::regions_bytes(pass.regions)
        },
{
    assert(crate::v2::payload_bytes(pass).skip(4) =~= crate::v2::regions_bytes(pass.regions));
}

/// Where the fields of a region are written.
pub proof fn region_fields_are_written_in_their_places(r: RegionView)
    requires
        r.data.len() < 0x1_0000_0000,
    ensures
        ({
            let b = crate::v2::region_bytes(r);
            &&& b.len() == 14 + r.data.len()
            &&& b[0] + 256 * b[1] == r.x
            &&& b[2] + 256 * b[3] == r.y
            &&& b[4] + 256 * b[5] == r.w
            &&& b[6] + 256 * b[7] == r.h
            &&& b[8] == (match r.codec {
                Codec::Raw565 => 0u8,
                Codec::Jpeg => 1,
                Codec::Raw565Half => 2,
                Codec::RawBgr8 => 3,
            })
            &&& b[9] == r.flags
            &&& b[10] + 256 * b[11] + 65536 * b[12] + 16777216 * b[13] == r.data.len()
            &&& b.skip(14) == r.data
        }),
{
    let b = crate::v2::region_bytes(r);
    lemma_region_layout(r);
    wire::least_significant_byte_comes_first(r.x, r.data.len() as u32);
    wire::least_significant_byte_comes_first(r.y, 0);
    wire::least_significant_byte_comes_first(r.w, 0);
    wire::least_significant_byte_comes_first(r.h, 0);
    let (x, y, w, h) = (b.subrange(0, 2), b.subrange(2, 4), b.subrange(4, 6), b.subrange(6, 8));
    let n = b.subrange(10, 14);
    assert(x[0] == b[0] && x[1] == b[1] && y[0] == b[2] && y[1] == b[3]);
    assert(w[0] == b[4] && w[1] == b[5] && h[0] == b[6] && h[1] == b[7]);
    assert(n[0] == b[10] && n[1] == b[11] && n[2] == b[12] && n[3] == b[13]);
}

/// Regions are written one behind the other.
pub proof fn regions_are_written_in_turn(a: Seq<RegionView>, b: Seq<RegionView>)
    ensures
        crate::v2::regions_bytes(Seq::<RegionView>::empty()).len() == 0,
        crate::v2::regions_bytes(a + b) == crate::v2::regions_bytes(a)
            + crate::v2::regions_bytes(b),
        a.len() == 1 ==> crate::v2::regions_bytes(a) == crate::v2::region_bytes(a[0]),
    decreases a.len(),
{
    let x = crate::v2::regions_bytes(a);
    let y = crate::v2::regions_bytes(b);
    if a.len() == 0 {
        assert(a + b =~= b);
        assert(x + y =~= y);
    } else {
        regions_are_written_in_turn(a.skip(1), b);
        assert((a + b).skip(1) =~= a.skip(1) + b);
        assert(crate::v2::regions_bytes(a + b) =~= x + y);
        if a.len() == 1 {
            assert(x =~= crate::v2::region_bytes(a[0]));
        }
    }
}

/// As many regions are parsed as there are.
pub(crate) proof fn lemma_region_count(p: Seq<u8>, off: int, count: nat)
    requires
        0 <= off,
    ensures
        crate::v2::parsed_regions(p, off, count) matches Ok(all) ==> all.len() == count,
    decreases count,
{
    if count > 0 {
        region_fields_are_read_in_their_places(p, off, count);
        if p.len() >= off + 14 {
            let n = p[off + 10] + 256 * p[off + 11] + 65536 * p[off + 12] + 16777216 * p[off + 13];
            lemma_region_count(p, off + 14 + n, (count - 1) as nat);
        }
    }
}

} // verus!
