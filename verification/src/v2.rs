//! Protocol version 2: batched region streaming.
//!
//! One `SFRAME` per capture pass per screen carries every changed region in a
//! single packet (a socket send costs about 3 ms of 3DS time, nearly whatever
//! its size, so batching is the transport win). Regions are addressed in screen
//! coordinates; their pixel data stays in framebuffer order.
//!
//! # Region data layout
//!
//! The 3DS framebuffer is column-major relative to the screen: one framebuffer
//! row is one screen column, bottom to top. For a region (x, y, w, h) in screen
//! space (origin top left) the data holds `w` columns from left to right; each
//! column holds `h` pixels from the bottom of the screen to its top. Decoded as
//! an image it is `h` wide and `w` high.
//!
//! JPEG regions decode to that same raster. Half-resolution raw regions have
//! both axes halved on the wire; the client paints each pixel as a 2 by 2 block.

pub mod laws;
pub mod region_flags;

use crate::v1::{Error, Result};
use crate::wire;
use vstd::prelude::*;

verus! {

/// `SFRAME` packet type byte (outside the types of the legacy protocol).
pub const SFRAME: u8 = 0x90;

/// `SFRAME` fixed header size on the wire.
pub const SFRAME_HEADER_LEN: usize = 8;

/// Header size of one region.
pub const REGION_HEADER_LEN: usize = 14;

/// Payload prefix ahead of the first region.
pub const PASS_HEADER_LEN: usize = 4;

/// Largest `SFRAME` payload either side may send (the New 3DS socket buffer);
/// anything larger means a desynced stream.
pub const MAX_PAYLOAD: u32 = 448 * 1024;

#[derive(Debug, Clone, Copy, PartialEq, Eq, Structural)]
pub enum Codec {
    /// Raw RGB565, little-endian, framebuffer order.
    Raw565,
    /// Standard JPEG of the raster.
    Jpeg,
    /// Raw RGB565, both axes halved; the client paints 2 by 2 per pixel.
    Raw565Half,
    /// Raw 24-bit BGR, framebuffer order, for 24-bit and 32-bit sources.
    RawBgr8,
}

impl Codec {
    /// The byte that stands for this codec.
    pub open spec fn code(self) -> u8 {
        match self {
            Codec::Raw565 => 0,
            Codec::Jpeg => 1,
            Codec::Raw565Half => 2,
            Codec::RawBgr8 => 3,
        }
    }

    /// The codec that `b` stands for.
    pub open spec fn of_code(b: u8) -> Option<Codec> {
        if b == 0 {
            Some(Codec::Raw565)
        } else if b == 1 {
            Some(Codec::Jpeg)
        } else if b == 2 {
            Some(Codec::Raw565Half)
        } else if b == 3 {
            Some(Codec::RawBgr8)
        } else {
            None
        }
    }

    /// The byte that stands for this codec.
    pub fn to_byte(self) -> (b: u8)
        ensures
            b == self.code(),
    {
        match self {
            Codec::Raw565 => 0,
            Codec::Jpeg => 1,
            Codec::Raw565Half => 2,
            Codec::RawBgr8 => 3,
        }
    }

    /// The codec that `b` stands for.
    pub fn from_byte(b: u8) -> (c: Option<Codec>)
        ensures
            c == Codec::of_code(b),
    {
        match b {
            0 => Some(Codec::Raw565),
            1 => Some(Codec::Jpeg),
            2 => Some(Codec::Raw565Half),
            3 => Some(Codec::RawBgr8),
            _ => None,
        }
    }
}

#[derive(Debug, Clone, Copy, PartialEq, Eq, Structural)]
pub struct SFrameHeader {
    pub screen: u8,
    /// Increments per capture pass; receiver reports refer to it.
    pub seq: u16,
    pub payload_len: u32,
}

/// What an `SFRAME` header parses to.
pub open spec fn parsed_sframe_header(b: Seq<u8>) -> std::result::Result<SFrameHeader, Error> {
    if b.len() < SFRAME_HEADER_LEN {
        Err(Error::Truncated)
    } else if b[0] != SFRAME {
        Err(Error::UnknownType(b[0]))
    } else if wire::u32_at(b, 4) > MAX_PAYLOAD {
        Err(Error::PayloadTooLarge(wire::u32_at(b, 4)))
    } else {
        Ok(
            SFrameHeader {
                screen: b[1],
                seq: wire::u16_at(b, 2),
                payload_len: wire::u32_at(b, 4),
            },
        )
    }
}

/// Parses the 8-byte header: `[0x90][screen][seq: 2 bytes][length: 4 bytes]`.
pub fn parse_sframe_header(buf: &[u8]) -> (res: Result<SFrameHeader>)
    ensures
        res == parsed_sframe_header(buf@),
{
    if buf.len() < SFRAME_HEADER_LEN {
        return Err(Error::Truncated);
    }
    if buf[0] != SFRAME {
        return Err(Error::UnknownType(buf[0]));
    }
    let payload_len = wire::get_u32(buf, 4);
    if payload_len > MAX_PAYLOAD {
        return Err(Error::PayloadTooLarge(payload_len));
    }
    Ok(SFrameHeader { screen: buf[1], seq: wire::get_u16(buf, 2), payload_len })
}

/// One changed rectangle of a screen.
#[derive(Debug, Clone, Copy, PartialEq, Eq)]
pub struct Region<'a> {
    /// Screen-space rectangle, origin top left.
    pub x: u16,
    pub y: u16,
    pub w: u16,
    pub h: u16,
    pub codec: Codec,
    pub flags: u8,
    pub data: &'a [u8],
}

/// A region's contents.
#[verifier::ext_equal]
pub struct RegionView {
    pub x: u16,
    pub y: u16,
    pub w: u16,
    pub h: u16,
    pub codec: Codec,
    pub flags: u8,
    pub data: Seq<u8>,
}

impl<'a> View for Region<'a> {
    type V = RegionView;

    open spec fn view(&self) -> RegionView {
        RegionView {
            x: self.x,
            y: self.y,
            w: self.w,
            h: self.h,
            codec: self.codec,
            flags: self.flags,
            data: self.data@,
        }
    }
}

/// The contents of a run of regions.
pub open spec fn region_views(regions: Seq<Region<'_>>) -> Seq<RegionView> {
    Seq::new(regions.len(), |i: int| regions[i]@)
}

/// Parsed `SFRAME` payload.
#[derive(Debug, Clone, PartialEq, Eq)]
pub struct SFramePayload<'a> {
    pub pass_flags: u8,
    pub regions: Vec<Region<'a>>,
}

/// The contents of an `SFRAME` payload.
#[verifier::ext_equal]
pub struct PassView {
    pub pass_flags: u8,
    pub regions: Seq<RegionView>,
}

impl<'a> View for SFramePayload<'a> {
    type V = PassView;

    open spec fn view(&self) -> PassView {
        PassView { pass_flags: self.pass_flags, regions: region_views(self.regions@) }
    }
}

/// The region whose header stands at `off`, with `n` data bytes behind it.
pub open spec fn region_at(p: Seq<u8>, off: int, codec: Codec, n: int) -> RegionView {
    RegionView {
        x: wire::u16_at(p, off),
        y: wire::u16_at(p, off + 2),
        w: wire::u16_at(p, off + 4),
        h: wire::u16_at(p, off + 6),
        codec,
        flags: p[off + 9],
        data: p.subrange(off + REGION_HEADER_LEN, off + REGION_HEADER_LEN + n),
    }
}

/// What the `count` regions from `off` on parse to.
pub open spec fn parsed_regions(p: Seq<u8>, off: int, count: nat) -> std::result::Result<
    Seq<RegionView>,
    Error,
>
    decreases count,
{
    if count == 0 {
        Ok(Seq::empty())
    } else if p.len() < off + REGION_HEADER_LEN {
        Err(Error::Truncated)
    } else {
        match Codec::of_code(p[off + 8]) {
            None => Err(Error::BadValue { field: "codec", value: p[off + 8] }),
            Some(codec) => {
                let n = wire::u32_at(p, off + 10) as int;
                if p.len() < off + REGION_HEADER_LEN + n {
                    Err(Error::Truncated)
                } else {
                    preceded(
                        seq![region_at(p, off, codec, n)],
                        parsed_regions(p, off + REGION_HEADER_LEN + n, (count - 1) as nat),
                    )
                }
            },
        }
    }
}

/// `first`, then what `rest` holds; its error where it has one.
pub open spec fn preceded(
    first: Seq<RegionView>,
    rest: std::result::Result<Seq<RegionView>, Error>,
) -> std::result::Result<Seq<RegionView>, Error> {
    match rest {
        Ok(s) => Ok(first + s),
        Err(e) => Err(e),
    }
}

/// What an `SFRAME` payload parses to.
pub open spec fn parsed_payload(p: Seq<u8>) -> std::result::Result<PassView, Error> {
    if p.len() < PASS_HEADER_LEN {
        Err(Error::Truncated)
    } else {
        match parsed_regions(p, PASS_HEADER_LEN as int, p[1] as nat) {
            Ok(regions) => Ok(PassView { pass_flags: p[0], regions }),
            Err(e) => Err(e),
        }
    }
}

/// Parses an `SFRAME` payload: `[pass flags][region count][0][0]`, then that many
/// regions of `[x][y][w][h][codec][flags][length: 4 bytes][data]`, with two bytes
/// for each coordinate. Bytes behind the last region are ignored.
pub fn parse_sframe_payload(payload: &[u8]) -> (res: Result<SFramePayload<'_>>)
    ensures
        match res {
            Ok(pass) => parsed_payload(payload@) == Ok::<PassView, Error>(pass@),
            Err(e) => parsed_payload(payload@) == Err::<PassView, Error>(e),
        },
{
    if payload.len() < PASS_HEADER_LEN {
        return Err(Error::Truncated);
    }
    let pass_flags = payload[0];
    let count: u8 = payload[1];
    let mut regions: Vec<Region<'_>> = Vec::new();
    let mut off: usize = PASS_HEADER_LEN;
    let mut left: u8 = count;
    proof {
        assert(region_views(regions@) =~= Seq::empty());
        let whole = parsed_regions(payload@, off as int, count as nat);
        if let Ok(s) = whole {
            assert(region_views(regions@) + s =~= s);
        }
    }
    while left > 0
        invariant
            payload@.len() >= PASS_HEADER_LEN,
            count == payload@[1],
            off <= payload@.len(),
            parsed_regions(payload@, PASS_HEADER_LEN as int, count as nat) == preceded(
                region_views(regions@),
                parsed_regions(payload@, off as int, left as nat),
            ),
        decreases left,
    {
        if payload.len() - off < REGION_HEADER_LEN {
            return Err(Error::Truncated);
        }
        let codec = match Codec::from_byte(payload[off + 8]) {
            Some(codec) => codec,
            None => {
                return Err(Error::BadValue { field: "codec", value: payload[off + 8] });
            },
        };
        let n: usize = wire::get_u32(payload, off + 10) as usize;
        let start: usize = off + REGION_HEADER_LEN;
        if payload.len() - start < n {
            return Err(Error::Truncated);
        }
        let region = Region {
            x: wire::get_u16(payload, off),
            y: wire::get_u16(payload, off + 2),
            w: wire::get_u16(payload, off + 4),
            h: wire::get_u16(payload, off + 6),
            codec,
            flags: payload[off + 9],
            data: vstd::slice::slice_subrange(payload, start, start + n),
        };
        let ghost before = region_views(regions@);
        regions.push(region);
        proof {
            assert(region@ =~= region_at(payload@, off as int, codec, n as int));
            assert(region_views(regions@) =~= before + seq![region@]);
            let rest = parsed_regions(payload@, start + n, (left - 1) as nat);
            if let Ok(s) = rest {
                assert(before + (seq![region@] + s) =~= region_views(regions@) + s);
            }
        }
        off = start + n;
        left = left - 1;
    }
    proof {
        assert(region_views(regions@) + Seq::empty() =~= region_views(regions@));
    }
    Ok(SFramePayload { pass_flags, regions })
}

/// The bytes of one region. The length field holds the low 32 bits of the data's
/// length.
#[verifier::opaque]
pub open spec fn region_bytes(r: RegionView) -> Seq<u8> {
    wire::le16(r.x) + wire::le16(r.y) + wire::le16(r.w) + wire::le16(r.h) + seq![
        r.codec.code(),
        r.flags,
    ] + wire::le32((r.data.len() % 0x1_0000_0000) as u32) + r.data
}

/// The bytes of a run of regions, one behind the other.
pub open spec fn regions_bytes(rs: Seq<RegionView>) -> Seq<u8>
    decreases rs.len(),
{
    if rs.len() == 0 {
        Seq::empty()
    } else {
        region_bytes(rs[0]) + regions_bytes(rs.skip(1))
    }
}

/// An `SFRAME` payload. The count field holds the low 8 bits of the number of
/// regions.
pub open spec fn payload_bytes(pass: PassView) -> Seq<u8> {
    seq![pass.pass_flags, (pass.regions.len() % 256) as u8, 0u8, 0u8] + regions_bytes(pass.regions)
}

/// An `SFRAME` header in front of a payload of `n` bytes. The length field holds
/// the low 32 bits of `n`.
pub open spec fn header_bytes(screen: u8, seq: u16, n: nat) -> Seq<u8> {
    seq![SFRAME, screen] + wire::le16(seq) + wire::le32((n % 0x1_0000_0000) as u32)
}

/// A whole `SFRAME`: header, then payload.
pub open spec fn sframe_bytes(screen: u8, seq: u16, pass: PassView) -> Seq<u8> {
    header_bytes(screen, seq, payload_bytes(pass).len()) + payload_bytes(pass)
}

/// Unrolls one step of the bytes of what is left from `i` on.
proof fn lemma_regions_step(rs: Seq<RegionView>, i: int)
    requires
        0 <= i < rs.len(),
    ensures
        regions_bytes(rs.skip(i)) == region_bytes(rs[i]) + regions_bytes(rs.skip(i + 1)),
{
    assert(rs.skip(i)[0] == rs[i]);
    assert(rs.skip(i).skip(1) =~= rs.skip(i + 1));
}

/// The low 32 bits of the length of a payload that holds `regions`.
fn payload_len(regions: &[Region<'_>]) -> (n: u32)
    ensures
        n == (PASS_HEADER_LEN + regions_bytes(region_views(regions@)).len()) % 0x1_0000_0000,
{
    let ghost rs = region_views(regions@);
    let mut n: u32 = 4;
    let mut i: usize = 0;
    proof {
        assert(rs.skip(0) =~= rs);
    }
    while i < regions.len()
        invariant
            i <= regions@.len(),
            rs == region_views(regions@),
            (n + regions_bytes(rs.skip(i as int)).len()) % 0x1_0000_0000 == (PASS_HEADER_LEN
                + regions_bytes(rs).len()) % 0x1_0000_0000,
        decreases regions@.len() - i,
    {
        let step: u32 = wire::low_u32(regions[i].data.len());
        n = n.wrapping_add(14).wrapping_add(step);
        proof {
            lemma_regions_step(rs, i as int);
            reveal(region_bytes);
            assert(region_bytes(rs[i as int]).len() == 14 + regions@[i as int].data@.len());
        }
        i = i + 1;
    }
    proof {
        assert(rs.skip(i as int).len() == 0);
    }
    n
}

/// The low 8 bits of a count.
fn low_u8(n: usize) -> (x: u8)
    ensures
        x == n as nat % 256,
{
    (n % 256) as u8
}

/// Encodes a whole `SFRAME` (header and payload).
pub fn encode_sframe(screen: u8, seq: u16, pass_flags: u8, regions: &[Region<'_>]) -> (out: Vec<u8>)
    ensures
        out@ == sframe_bytes(
            screen,
            seq,
            (PassView { pass_flags, regions: region_views(regions@) }),
        ),
{
    let ghost rs = region_views(regions@);
    let ghost all = sframe_bytes(screen, seq, PassView { pass_flags, regions: rs });
    let mut out: Vec<u8> = Vec::new();
    out.push(SFRAME);
    out.push(screen);
    wire::put_u16(&mut out, seq);
    wire::put_u32(&mut out, payload_len(regions));
    out.push(pass_flags);
    out.push(low_u8(regions.len()));
    out.push(0);
    out.push(0);
    proof {
        assert(rs.skip(0) =~= rs);
        assert(out@ + regions_bytes(rs) =~= all);
    }
    let mut i: usize = 0;
    while i < regions.len()
        invariant
            i <= regions@.len(),
            rs == region_views(regions@),
            out@ + regions_bytes(rs.skip(i as int)) == all,
        decreases regions@.len() - i,
    {
        let r = &regions[i];
        let ghost before = out@;
        wire::put_u16(&mut out, r.x);
        wire::put_u16(&mut out, r.y);
        wire::put_u16(&mut out, r.w);
        wire::put_u16(&mut out, r.h);
        out.push(r.codec.to_byte());
        out.push(r.flags);
        wire::put_u32(&mut out, wire::low_u32(r.data.len()));
        wire::put_bytes(&mut out, r.data);
        proof {
            lemma_regions_step(rs, i as int);
            assert(out@ =~= before + region_bytes(rs[i as int])) by {
                reveal(region_bytes);
            }
            assert(before + (region_bytes(rs[i as int]) + regions_bytes(rs.skip(i + 1))) =~= out@
                + regions_bytes(rs.skip(i + 1)));
        }
        i = i + 1;
    }
    proof {
        assert(rs.skip(i as int).len() == 0);
        assert(out@ =~= all);
    }
    out
}

} // verus!
