//! What holds of the worker's packets and events.

use crate::jpeg::DecodedView;
use crate::legacy::{
    laws, meta, pkt, Announce, ImageInfo, PacketInfo, ScreenSet, HEADER_LEN, MAX_PAYLOAD,
};
use crate::picture::Pixel;
use crate::text;
use crate::wire;
use crate::worker::{Cmd, EventView, LinkView, ReaderView, Stage, StepView};
use vstd::prelude::*;

verus! {

/// Whatever packet comes, both screens keep their sizes.
pub proof fn screens_keep_their_sizes(s: ReaderView, info: PacketInfo, payload: Seq<u8>)
    requires
        s.wf(),
    ensures
        crate::worker::handled(s, info, payload).0.wf(),
{
}

/// An image for one screen leaves the other as it is, whatever the decoder
/// answered.
pub proof fn other_screen_is_untouched(
    s: ReaderView,
    img: ImageInfo,
    bytes: nat,
    answer: Result<DecodedView, Seq<char>>,
)
    ensures
        crate::worker::image_applied(s, img, bytes, answer).0.screen(!img.bottom) == s.screen(
            !img.bottom,
        ),
        crate::worker::image_applied(s, img, bytes, answer).0.warned_tga == s.warned_tga,
{
}

/// The screen that an event shows is the one the reader holds afterwards.
pub proof fn shown_screen_is_kept(s: ReaderView, info: PacketInfo, payload: Seq<u8>)
    ensures
        crate::worker::handled(s, info, payload).1 matches Some(
            EventView::Screen { bottom, image, .. },
        ) ==> crate::worker::handled(s, info, payload).0.screen(bottom) == image,
{
}

/// Packets of unknown type change nothing and tell nothing.
pub proof fn unknown_packets_are_skipped(s: ReaderView, info: PacketInfo, payload: Seq<u8>)
    requires
        info.ptype != pkt::IMAGE,
        info.ptype != pkt::META,
    ensures
        crate::worker::handled(s, info, payload) == (s, None::<EventView>),
{
}

/// The notice on TGA frames is given at most once: after a TGA frame no packet
/// brings it back, and further TGA frames tell nothing.
pub proof fn tga_notice_is_given_once(
    s: ReaderView,
    tga: PacketInfo,
    first: Seq<u8>,
    between: PacketInfo,
    payload: Seq<u8>,
    again: PacketInfo,
    second: Seq<u8>,
)
    requires
        tga.ptype == pkt::IMAGE,
        crate::legacy::unpacked(tga.subtype, tga.subtype_b).tga,
        again.ptype == pkt::IMAGE,
        crate::legacy::unpacked(again.subtype, again.subtype_b).tga,
    ensures
        ({
            let s1 = crate::worker::handled(s, tga, first).0;
            let s2 = crate::worker::handled(s1, between, payload).0;
            &&& s1.warned_tga
            &&& s2.warned_tga
            &&& crate::worker::handled(s2, again, second) == (s2, None::<EventView>)
        }),
{
}

/// A JPEG packet whose payload decodes to a whole image updates its screen, and that
/// screen is shown.
pub proof fn decoded_images_are_shown(s: ReaderView, info: PacketInfo, payload: Seq<u8>)
    requires
        info.ptype == pkt::IMAGE,
        !crate::legacy::unpacked(info.subtype, info.subtype_b).tga,
        crate::jpeg::decoded_file(payload) matches Ok(d) && d.is_whole(),
    ensures
        ({
            let img = crate::legacy::unpacked(info.subtype, info.subtype_b);
            let d = crate::jpeg::decoded_file(payload)->Ok_0;
            let size = d.size->Some_0;
            let image = crate::picture::pasted(
                s.screen(img.bottom),
                d.rgb,
                size.0 as int,
                size.1 as int,
                crate::worker::column_offset(img, size.1 as int),
                img.interlaced,
                img.downscaled,
            );
            crate::worker::handled(s, info, payload) == (
                s.with_screen(img.bottom, image),
                Some(
                    EventView::Screen {
                        bottom: img.bottom,
                        image,
                        bytes: (HEADER_LEN + payload.len()) as nat,
                        chunk: img.chunk,
                    },
                ),
            )
        }),
{
    let size = (crate::jpeg::decoded_file(payload)->Ok_0).size->Some_0;
    assert(size.0 * size.1 * 3 == 3 * (size.0 * size.1));
}

/// Text that the 3DS sends as UTF-8 arrives as it was written.
pub proof fn text_arrives_as_written(subtype: u8, chars: Seq<char>)
    requires
        subtype != meta::ANNOUNCE,
    ensures
        crate::worker::meta_event(subtype, vstd::utf8::encode_utf8(chars)) == Some(
            if subtype == meta::STATS {
                EventView::Stats(chars)
            } else {
                EventView::Info("3DS: "@ + chars)
            },
        ),
{
    text::text_of_encoded(chars);
}

/// A packet that is read in two parts, first its header and then as many bytes as
/// are then wanted, is handled as a whole, and a header is waited for again.
pub proof fn packet_goes_through(
    link: LinkView,
    ptype: u8,
    subtype: u8,
    subtype_b: u8,
    unused: u8,
    payload: Seq<u8>,
)
    requires
        link.stage == Stage::Header,
        payload.len() <= MAX_PAYLOAD,
    ensures
        ({
            let head = seq![ptype, subtype, subtype_b, unused] + wire::le32(payload.len() as u32);
            let info = PacketInfo {
                ptype,
                subtype,
                subtype_b,
                payload_len: payload.len() as u32,
            };
            let (mid, told) = crate::worker::advanced(link, head);
            let (reader, event) = crate::worker::handled(link.reader, info, payload);
            &&& head.len() == link.stage.wanted()
            &&& told == StepView::Continue(None)
            &&& mid.stage.wanted() == payload.len()
            &&& crate::worker::advanced(mid, payload) == (
                LinkView { reader, stage: Stage::Header },
                StepView::Continue(event),
            )
        }),
{
    let n = payload.len() as u32;
    let head = seq![ptype, subtype, subtype_b, unused] + wire::le32(n);
    assert(head.subrange(4, 8) =~= wire::le32(n));
    wire::u32_at_of_le32(head, 4, n);
}

/// Every command is one whole packet: its header parses, whatever follows, to a
/// payload that ends where the packet ends. Only the last command is not a
/// setting.
pub proof fn commands_are_packets(cmd: Cmd, rest: Seq<u8>)
    ensures
        crate::legacy::parsed_header(cmd.packet() + rest) matches Ok(info) && {
            &&& HEADER_LEN + info.payload_len == cmd.packet().len()
            &&& info.ptype == (if cmd is Disconnect {
                pkt::DISCONNECT
            } else {
                pkt::SETTING
            })
        },
{
    match cmd {
        Cmd::Disconnect => {
            laws::header_frames_the_payload(pkt::DISCONNECT, 0, Seq::empty(), rest);
        },
        _ => {
            let p = cmd.packet();
            laws::settings_are_nine_bytes(p[1], p[8]);
            assert(p =~= crate::legacy::setting_bytes(p[1], p[8]));
            laws::header_frames_the_payload(pkt::SETTING, p[1], seq![p[8]], rest);
        },
    }
}

/// Different commands are different packets, but for qualities beyond the range,
/// which stand for its ends.
pub proof fn commands_are_told_apart(a: Cmd, b: Cmd)
    requires
        a.packet() == b.packet(),
    ensures
        a == b || (a matches Cmd::SetQuality(p) && b matches Cmd::SetQuality(q)
            && crate::v1::clamped_quality(p) == crate::v1::clamped_quality(q)),
{
    lemma_command_bytes(a);
    lemma_command_bytes(b);
}

/// What tells commands apart.
proof fn lemma_command_bytes(c: Cmd)
    ensures
        c is Disconnect ==> c.packet().len() == 8,
        !(c is Disconnect) ==> c.packet().len() == 9,
        match c {
            Cmd::SetQuality(q) => c.packet()[1] == 1 && c.packet()[8]
                == crate::v1::clamped_quality(q),
            Cmd::SetScreen(s) => c.packet()[1] == 3 && c.packet()[8] == s.code(),
            Cmd::SetInterlace(on) => c.packet()[1] == 5 && c.packet()[8]
                == crate::legacy::flag(on),
            Cmd::SetStripSkip(on) => c.packet()[1] == 6 && c.packet()[8]
                == crate::legacy::flag(on),
            Cmd::SetRefreshInterval(n) => c.packet()[1] == 7 && c.packet()[8] == n,
            Cmd::SetFpsCap(n) => c.packet()[1] == 8 && c.packet()[8] == n,
            Cmd::SetChunks(n) => c.packet()[1] == 9 && c.packet()[8] == n,
            Cmd::SetStripSleep(n) => c.packet()[1] == 10 && c.packet()[8] == n,
            Cmd::Disconnect => true,
        },
{
    match c {
        Cmd::Disconnect => {},
        _ => {
            let p = c.packet();
            assert(p.len() == 9);
        },
    }
}

/// The first thing sent is four settings and the start packet, which comes last.
pub proof fn handshake_is_five_packets(
    quality: u8,
    screen: ScreenSet,
    interlace: bool,
)
    ensures
        ({
            let h = crate::worker::handshake_bytes(quality, screen, interlace);
            &&& h.len() == 44
            &&& h.subrange(0, 9) == Cmd::SetQuality(quality).packet()
            &&& h.subrange(9, 18) == Cmd::SetScreen(screen).packet()
            &&& h.subrange(18, 27) == seq![4u8, 4u8, 0u8, 0u8, 1u8, 0u8, 0u8, 0u8, 0u8]
            &&& h.subrange(27, 36) == Cmd::SetInterlace(interlace).packet()
            &&& h.subrange(36, 44) == seq![2u8, 0u8, 0u8, 0u8, 0u8, 0u8, 0u8, 0u8]
        }),
{
    let h = crate::worker::handshake_bytes(quality, screen, interlace);
    let q = Cmd::SetQuality(quality);
    let s = Cmd::SetScreen(screen);
    let i = Cmd::SetInterlace(interlace);
    lemma_command_bytes(q);
    lemma_command_bytes(s);
    lemma_command_bytes(i);
    laws::settings_are_nine_bytes(4, 0);
    assert(h.subrange(0, 9) =~= q.packet());
    assert(h.subrange(9, 18) =~= s.packet());
    assert(h.subrange(18, 27) =~= crate::legacy::setting_bytes(4, 0));
    assert(h.subrange(27, 36) =~= i.packet());
    assert(h.subrange(36, 44) =~= seq![2u8, 0u8, 0u8, 0u8, 0u8, 0u8, 0u8, 0u8]);
}

/// An address with a port is used as it is, and adding the port twice adds it
/// once.
pub proof fn target_has_a_port(addr: Seq<char>)
    ensures
        crate::worker::target(addr).contains(':'),
        crate::worker::target(crate::worker::target(addr)) == crate::worker::target(addr),
        addr.contains(':') ==> crate::worker::target(addr) == addr,
{
    if !addr.contains(':') {
        reveal_strlit(":");
        assert(crate::worker::target(addr)[addr.len() as int] == ':');
    }
}

/// Where the pixels of a piece land. The piece has `ih` rows of `iw` pixels. Strip `i` takes
/// as many screen columns as it has rows, or twice as many where it is downscaled, and those
/// of the strips before it lie to its left; a full frame begins at the left edge. One row is
/// one column, its first pixel at the bottom; an interlaced piece gives each pixel two rows,
/// and a downscaled one two columns and two rows as well. What does not fit lies on the top
/// row, its last pixel uppermost. Blue comes first in a piece. All other pixels stay as they
/// are.
pub proof fn pieces_land_in_their_places(
    s: ReaderView,
    img: ImageInfo,
    bytes: nat,
    d: DecodedView,
    iw: usize,
    ih: usize,
    x: int,
    y: int,
)
    requires
        s.wf(),
        d.size == Some((iw, ih)),
        d.rgb.len() >= 3 * (iw * ih),
        0 <= x < (if img.bottom {
            320
        } else {
            400int
        }),
        0 <= y < 240,
    ensures
        ({
            let after = crate::worker::image_applied(s, img, bytes, Ok(d)).0;
            let place = if img.bottom {
                y * 320 + x
            } else {
                y * 400 + x
            };
            let (old, new) = if img.bottom {
                (s.bottom.pixels[place], after.bottom.pixels[place])
            } else {
                (s.top.pixels[place], after.top.pixels[place])
            };
            let (wide, high) = if img.downscaled {
                (2 * ih, 2 * iw)
            } else {
                (ih as int, iw as int)
            };
            let left = match img.chunk {
                Some(i) => i * wide,
                None => 0int,
            };
            let up = if img.interlaced {
                (239 - y) / 2
            } else {
                239 - y
            };
            let full = if img.interlaced {
                120int
            } else {
                240
            };
            let (r, c) = if img.downscaled {
                ((x - left) / 2, up / 2)
            } else {
                (x - left, up)
            };
            let mine = (r * iw + c) * 3;
            let last = (r * iw + iw - 1) * 3;
            &&& !(left <= x < left + wide) ==> new == old
            &&& left <= x < left + wide && up >= high ==> new == old
            &&& left <= x < left + wide && up < high && (y > 0 || high <= full) ==> {
                &&& new.b == d.rgb[mine]
                &&& new.g == d.rgb[mine + 1]
                &&& new.r == d.rgb[mine + 2]
            }
            &&& left <= x < left + wide && y == 0 && high > full ==> {
                &&& new.b == d.rgb[last]
                &&& new.g == d.rgb[last + 1]
                &&& new.r == d.rgb[last + 2]
            }
        }),
{
    let before = s.screen(img.bottom);
    let left = crate::worker::column_offset(img, ih as int);
    assert(iw * ih * 3 == 3 * (iw * ih));
    crate::picture::pasted_place_by_place(
        before,
        d.rgb,
        iw as int,
        ih as int,
        left,
        img.interlaced,
        img.downscaled,
        x,
        y,
    );
}

/// A strip changes no column but its own: those of its index, counted in strips from the
/// left edge. So strips of one size with different indices have no column in common.
pub proof fn strips_keep_to_their_columns(
    s: ReaderView,
    img: ImageInfo,
    bytes: nat,
    d: DecodedView,
    iw: usize,
    ih: usize,
    i: u8,
    x: int,
    y: int,
)
    requires
        s.wf(),
        d.size == Some((iw, ih)),
        d.rgb.len() >= 3 * (iw * ih),
        img.chunk == Some(i),
        0 <= x < (if img.bottom {
            320
        } else {
            400int
        }),
        0 <= y < 240,
    ensures
        ({
            let after = crate::worker::image_applied(s, img, bytes, Ok(d)).0;
            let changed = if img.bottom {
                s.bottom.pixels[y * 320 + x] != after.bottom.pixels[y * 320 + x]
            } else {
                s.top.pixels[y * 400 + x] != after.top.pixels[y * 400 + x]
            };
            let wide = if img.downscaled {
                2 * ih
            } else {
                ih as int
            };
            changed ==> wide > 0 && x / wide == i
        }),
{
    let wide = if img.downscaled {
        2 * ih
    } else {
        ih as int
    };
    pieces_land_in_their_places(s, img, bytes, d, iw, ih, x, y);
    if i * wide <= x < i * wide + wide {
        vstd::arithmetic::div_mod::lemma_fundamental_div_mod_converse(
            x,
            wide,
            i as int,
            x - i * wide,
        );
    }
}

/// A reader once strips came, one for each index from 0 on.
pub open spec fn with_strips(
    s: ReaderView,
    img: ImageInfo,
    strips: Seq<DecodedView>,
) -> ReaderView
    decreases strips.len(),
{
    if strips.len() == 0 {
        s
    } else {
        crate::worker::image_applied(
            with_strips(s, img, strips.drop_last()),
            ImageInfo { chunk: Some((strips.len() - 1) as u8), ..img },
            0,
            Ok(strips.last()),
        ).0
    }
}

/// The strips so far have filled the columns so far, each its own, and no other column has
/// changed.
proof fn lemma_strips(
    s: ReaderView,
    img: ImageInfo,
    strips: Seq<DecodedView>,
    iw: usize,
    ih: usize,
    x: int,
    y: int,
)
    requires
        s.wf(),
        strips.len() <= 8,
        ih > 0,
        forall|k: int|
            0 <= k < strips.len() ==> (#[trigger] strips[k]).size == Some((iw, ih))
                && strips[k].rgb.len() >= 3 * (iw * ih),
        (if img.downscaled {
            2 * iw
        } else {
            iw as int
        }) == (if img.interlaced {
            120int
        } else {
            240
        }),
        0 <= x < (if img.bottom {
            320
        } else {
            400int
        }),
        0 <= y < 240,
    ensures
        with_strips(s, img, strips).wf(),
        ({
            let after = with_strips(s, img, strips);
            let (old, new) = if img.bottom {
                (s.bottom.pixels[y * 320 + x], after.bottom.pixels[y * 320 + x])
            } else {
                (s.top.pixels[y * 400 + x], after.top.pixels[y * 400 + x])
            };
            let wide = if img.downscaled {
                2 * ih
            } else {
                ih as int
            };
            let up = if img.interlaced {
                (239 - y) / 2
            } else {
                239 - y
            };
            let at = (if img.downscaled {
                x % wide / 2 * iw + up / 2
            } else {
                x % wide * iw + up
            }) * 3;
            let k = x / wide;
            &&& x >= strips.len() * wide ==> new == old
            &&& x < strips.len() * wide ==> {
                &&& 0 <= k < strips.len()
                &&& new.b == strips[k].rgb[at]
                &&& new.g == strips[k].rgb[at + 1]
                &&& new.r == strips[k].rgb[at + 2]
            }
        }),
    decreases strips.len(),
{
    let n = strips.len();
    let wide = if img.downscaled {
        2 * ih
    } else {
        ih as int
    };
    if n == 0 {
        assert(n * wide == 0) by (nonlinear_arith)
            requires
                n == 0,
        ;
    } else {
        let rest = strips.drop_last();
        let mid = with_strips(s, img, rest);
        let one = ImageInfo { chunk: Some((n - 1) as u8), ..img };
        lemma_strips(s, img, rest, iw, ih, x, y);
        pieces_land_in_their_places(mid, one, 0, strips.last(), iw, ih, x, y);
        assert(n * wide == (n - 1) * wide + wide) by (nonlinear_arith);
        if (n - 1) * wide <= x < n * wide {
            vstd::arithmetic::div_mod::lemma_fundamental_div_mod_converse(
                x,
                wide,
                n - 1,
                x - (n - 1) * wide,
            );
        } else if x < (n - 1) * wide {
            assert(rest[x / wide] == strips[x / wide]);
        }
    }
}

/// Strips of one size that are wide enough together fill the whole screen, and each column
/// is that of the strip whose turn it is there: nothing of what was on the screen before is
/// left, and no strip covers another.
pub proof fn strips_fill_the_screen(
    s: ReaderView,
    img: ImageInfo,
    strips: Seq<DecodedView>,
    iw: usize,
    ih: usize,
    x: int,
    y: int,
)
    requires
        s.wf(),
        strips.len() <= 8,
        ih > 0,
        forall|k: int|
            0 <= k < strips.len() ==> (#[trigger] strips[k]).size == Some((iw, ih))
                && strips[k].rgb.len() >= 3 * (iw * ih),
        (if img.downscaled {
            2 * iw
        } else {
            iw as int
        }) == (if img.interlaced {
            120int
        } else {
            240
        }),
        strips.len() * (if img.downscaled {
            2 * ih
        } else {
            ih as int
        }) >= (if img.bottom {
            320
        } else {
            400int
        }),
        0 <= x < (if img.bottom {
            320
        } else {
            400int
        }),
        0 <= y < 240,
    ensures
        ({
            let after = with_strips(s, img, strips);
            let new = if img.bottom {
                after.bottom.pixels[y * 320 + x]
            } else {
                after.top.pixels[y * 400 + x]
            };
            let wide = if img.downscaled {
                2 * ih
            } else {
                ih as int
            };
            let up = if img.interlaced {
                (239 - y) / 2
            } else {
                239 - y
            };
            let at = (if img.downscaled {
                x % wide / 2 * iw + up / 2
            } else {
                x % wide * iw + up
            }) * 3;
            let k = x / wide;
            &&& 0 <= k < strips.len()
            &&& new.b == strips[k].rgb[at]
            &&& new.g == strips[k].rgb[at + 1]
            &&& new.r == strips[k].rgb[at + 2]
        }),
{
    lemma_strips(s, img, strips, iw, ih, x, y);
}

/// Before the first packet both screens have their sizes and are the same dark gray all
/// over.
pub proof fn first_screens_are_blank(i: int)
    ensures
        ({
            let s = crate::worker::fresh_reader();
            &&& s.wf()
            &&& !s.warned_tga
            &&& s.top.width == 400 && s.top.height == 240 && s.top.pixels.len() == 96000
            &&& s.bottom.width == 320 && s.bottom.height == 240 && s.bottom.pixels.len() == 76800
            &&& 0 <= i < 96000 ==> s.top.pixels[i] == (Pixel { r: 20, g: 20, b: 20 })
            &&& 0 <= i < 76800 ==> s.bottom.pixels[i] == (Pixel { r: 20, g: 20, b: 20 })
        }),
{
}

/// What cannot be shown changes no screen: a failed decoding is reported with the decoder's
/// words, an image of unknown size is passed over, and one with fewer than three bytes for
/// each pixel is reported with its size.
pub proof fn unusable_images_change_nothing(
    s: ReaderView,
    img: ImageInfo,
    bytes: nat,
    why: Seq<char>,
    d: DecodedView,
)
    ensures
        crate::worker::image_applied(s, img, bytes, Err(why)) == (
            s,
            Some(EventView::Info("JPEG decode failed: "@ + why)),
        ),
        d.size is None ==> crate::worker::image_applied(s, img, bytes, Ok(d)) == (
            s,
            None::<EventView>,
        ),
        d.size matches Some(size) ==> {
            let told = crate::worker::image_applied(s, img, bytes, Ok(d)).1;
            &&& told is Some
            &&& told->Some_0 is Screen <==> d.rgb.len() >= 3 * (size.0 * size.1)
            &&& d.rgb.len() < 3 * (size.0 * size.1) ==> crate::worker::image_applied(
                s,
                img,
                bytes,
                Ok(d),
            ) == (
                s,
                Some(
                    EventView::Info(
                        "unexpected decode output: "@ + text::decimal(size.0 as nat) + "x"@
                            + text::decimal(size.1 as nat) + " but "@ + text::decimal(d.rgb.len())
                            + " bytes"@,
                    ),
                ),
            )
        },
{
    if let Some(size) = d.size {
        assert(size.0 * size.1 * 3 == 3 * (size.0 * size.1));
    }
}

/// What a packet is about: type 1 is an image, and type 255 a text, a report or an
/// announcement, as its subtype says. An image may be for either screen, and counts with its
/// header.
pub proof fn packets_are_told_apart(s: ReaderView, info: PacketInfo, payload: Seq<u8>)
    ensures
        info.ptype != 1 && info.ptype != 0xFF ==> crate::worker::handled(s, info, payload) == (
            s,
            None::<EventView>,
        ),
        info.ptype == 0xFF ==> crate::worker::handled(s, info, payload).0 == s,
        info.ptype == 0xFF && info.subtype == 3 ==> crate::worker::handled(s, info, payload).1
            == Some(EventView::Stats(text::text_of(payload))),
        info.ptype == 0xFF && info.subtype == 4 && payload.len() < 2 ==> crate::worker::handled(
            s,
            info,
            payload,
        ).1 is None,
        info.ptype == 0xFF && info.subtype == 4 && payload.len() >= 2 ==> crate::worker::handled(
            s,
            info,
            payload,
        ).1 == Some(
            EventView::Capabilities(
                Announce {
                    revision: payload[0],
                    features: payload[1],
                    features2: if payload.len() > 2 {
                        payload[2]
                    } else {
                        0
                    },
                },
            ),
        ),
        info.ptype == 0xFF && info.subtype != 3 && info.subtype != 4 ==> crate::worker::handled(
            s,
            info,
            payload,
        ).1 == Some(EventView::Info("3DS: "@ + text::text_of(payload))),
        info.ptype == 1 ==> (crate::worker::handled(s, info, payload).1 matches Some(
            EventView::Screen { bottom, bytes, chunk, .. },
        ) ==> {
            &&& info.subtype / 8 % 2 == 0
            &&& bottom <==> info.subtype / 16 % 2 == 1
            &&& bytes == 8 + payload.len()
            &&& chunk is Some <==> info.subtype_b / 8 % 2 == 1
            &&& chunk matches Some(i) ==> i == info.subtype_b % 8
        }),
{
    laws::subtype_bits_have_their_meanings(info.subtype, info.subtype_b);
}

/// The bytes of every command.
pub proof fn commands_have_their_bytes(cmd: Cmd)
    ensures
        cmd.packet() == (match cmd {
            Cmd::SetQuality(q) => seq![
                4u8, 1u8, 0u8, 0u8, 1u8, 0u8, 0u8, 0u8, if q < 1 {
                    1u8
                } else if q > 100 {
                    100u8
                } else {
                    q
                },
            ],
            Cmd::SetScreen(set) => seq![
                4u8, 3u8, 0u8, 0u8, 1u8, 0u8, 0u8, 0u8, match set {
                    ScreenSet::Top => 1u8,
                    ScreenSet::Bottom => 2u8,
                    ScreenSet::Both => 3u8,
                },
            ],
            Cmd::SetInterlace(on) => seq![
                4u8, 5u8, 0u8, 0u8, 1u8, 0u8, 0u8, 0u8, if on {
                    1u8
                } else {
                    0u8
                },
            ],
            Cmd::SetStripSkip(on) => seq![
                4u8, 6u8, 0u8, 0u8, 1u8, 0u8, 0u8, 0u8, if on {
                    1u8
                } else {
                    0u8
                },
            ],
            Cmd::SetRefreshInterval(n) => seq![4u8, 7u8, 0u8, 0u8, 1u8, 0u8, 0u8, 0u8, n],
            Cmd::SetFpsCap(n) => seq![4u8, 8u8, 0u8, 0u8, 1u8, 0u8, 0u8, 0u8, n],
            Cmd::SetChunks(n) => seq![4u8, 9u8, 0u8, 0u8, 1u8, 0u8, 0u8, 0u8, n],
            Cmd::SetStripSleep(n) => seq![4u8, 10u8, 0u8, 0u8, 1u8, 0u8, 0u8, 0u8, n],
            Cmd::Disconnect => seq![3u8, 0u8, 0u8, 0u8, 0u8, 0u8, 0u8, 0u8],
        }),
{
    match cmd {
        Cmd::Disconnect => {
            assert(cmd.packet() =~= seq![3u8, 0u8, 0u8, 0u8, 0u8, 0u8, 0u8, 0u8]);
        },
        _ => {
            let p = cmd.packet();
            laws::settings_are_nine_bytes(p[1], p[8]);
            assert(p =~= crate::legacy::setting_bytes(p[1], p[8]));
        },
    }
}

/// An address that names no port gets port 6464.
pub proof fn default_port_is_added(addr: Seq<char>)
    ensures
        !addr.contains(':') ==> crate::worker::target(addr) == addr + ":6464"@,
{
    if !addr.contains(':') {
        reveal_strlit(":");
        reveal_strlit(":6464");
        reveal_with_fuel(text::decimal, 5);
        assert(crate::worker::target(addr) =~= addr + ":6464"@);
    }
}

/// What does not parse as a header ends the stream and changes nothing; a header that does
/// is followed by as many bytes as it says, and tells nothing by itself.
pub proof fn headers_announce_payloads(link: LinkView, bytes: Seq<u8>)
    requires
        link.stage == Stage::Header,
        bytes.len() == 8,
    ensures
        ({
            let n = bytes[4] + 256 * bytes[5] + 65536 * bytes[6] + 16777216 * bytes[7];
            let (next, step) = crate::worker::advanced(link, bytes);
            &&& link.stage.wanted() == 8
            &&& next.reader == link.reader
            &&& n > 458752 ==> next == link && step is Stop
            &&& n <= 458752 ==> step == StepView::Continue(None) && next.stage.wanted() == n
        }),
{
}

/// The first TGA frame is answered with a notice, and no such frame is shown.
pub proof fn tga_frames_are_not_shown(s: ReaderView, info: PacketInfo, payload: Seq<u8>)
    requires
        info.ptype == 1,
        info.subtype / 8 % 2 == 1,
    ensures
        ({
            let (after, told) = crate::worker::handled(s, info, payload);
            &&& after.top == s.top && after.bottom == s.bottom && after.warned_tga
            &&& s.warned_tga ==> told is None
            &&& !s.warned_tga ==> told == Some(
                EventView::Info("TGA frames not supported yet \u{2014} switch format to JPEG"@),
            )
        }),
{
    laws::subtype_bits_have_their_meanings(info.subtype, info.subtype_b);
}

} // verus!
