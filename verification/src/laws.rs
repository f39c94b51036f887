//! What calls of the library promise, each over what it is given and what it gives back.

use crate::bench::{
    Bench, BenchResult, BenchView, Options, Outcome, Phase, Rate, Sample, Tick,
};
use crate::client::{Client, ClientView, Conn, Shown, ShownView};
use crate::jpeg::{Decoded, DecodedView};
use crate::legacy::{Announce, ImageInfo, PacketInfo, ScreenSet};
use crate::meter::Meter;
use crate::picture::{Image, Pixel, ScreenBuf};
use crate::profile::{Profile, Store};
use crate::quality::Measured;
use crate::settings::Settings;
use crate::single::Single;
use crate::v1::{
    Config, Device, Error, FrameInfo, Hello, ImageFormat, Interlace, Message, PixFmt, Screen,
    ScreenSelect,
};
use crate::v2::{Codec, PassView, Region, SFrameHeader, SFramePayload};
use crate::worker::{Attempt, Cmd, Event, EventView, Link, Reader, Stage, Step};
use std::collections::VecDeque;
use vstd::prelude::*;

verus! {

/// The rates of samples in order are those of the last second: what is a second old still
/// counts, what is older is forgotten, and what is left is what was there.
pub proof fn rates_look_back_a_second(m: &mut Meter, now: u64, res: (usize, u128), i: int)
    requires
        call_ensures(Meter::rates, (m, now), res),
        crate::meter::in_order(old(m)@),
        0 <= i < old(m)@.len(),
    ensures
        res.0 == final(m)@.len() <= old(m)@.len(),
        now - old(m)@[i].0 <= 1_000_000_000 <==> i >= old(m)@.len() - res.0,
        i >= old(m)@.len() - res.0 ==> final(m)@[i - (old(m)@.len() - res.0)] == old(m)@[i],
{
    crate::meter::updates_count_for_a_second(old(m)@, now, i);
}

/// How the rates of two calls relate: where one more update was left the second time, it
/// counts for one, and for just its own bytes. No updates have no bytes.
pub proof fn one_more_update_adds_its_bytes(
    m: &mut Meter,
    now: u64,
    res: (usize, u128),
    more: &mut Meter,
    later: u64,
    sum: (usize, u128),
    x: (u64, usize),
)
    requires
        call_ensures(Meter::rates, (m, now), res),
        call_ensures(Meter::rates, (more, later), sum),
        final(more)@ == final(m)@.push(x),
    ensures
        sum.0 == res.0 + 1,
        sum.1 == res.1 + x.1,
        res.0 == 0 ==> res.1 == 0,
{
    crate::meter::bytes_add_up(final(m)@, Seq::empty(), x);
}

/// A noted update is the last one, and the others stay.
pub proof fn updates_are_noted(m: &mut Meter, now: u64, bytes: usize, i: int)
    requires
        call_ensures(Meter::push, (m, now, bytes), ()),
    ensures
        final(m)@.len() == old(m)@.len() + 1,
        final(m)@.last() == (now, bytes),
        0 <= i < old(m)@.len() ==> final(m)@[i] == old(m)@[i],
{
}

/// Where the pixels of an image packet land. Type 1 is an image. The bits of its subtype say
/// from 8 up whether it is TGA, for the bottom screen, interlaced, and, at 128, downscaled;
/// those of the second subtype whether it is a strip, and which. A decoded image has `ih`
/// rows of `iw` pixels. Strip `i` takes as many screen columns as it has rows, or twice as
/// many where it is downscaled, and those of the strips before it lie to its left. One row is
/// one column, its first pixel at the bottom; an interlaced piece gives each pixel two rows,
/// and a downscaled one two columns and two rows as well. What does not fit lies on the top
/// row. Blue comes first. All other pixels stay as they are. The screen is then shown.
pub proof fn packets_paint_their_places(
    r: &mut Reader,
    info: &PacketInfo,
    payload: &[u8],
    event: Option<Event>,
    d: DecodedView,
    iw: usize,
    ih: usize,
    x: int,
    y: int,
)
    requires
        call_ensures(Reader::handle_packet, (r, info, payload), event),
        old(r)@.wf(),
        info.ptype == 1,
        info.subtype / 8 % 2 == 0,
        crate::jpeg::decoded_file(payload@) == Ok::<DecodedView, Seq<char>>(d),
        d.size == Some((iw, ih)),
        d.rgb.len() >= 3 * (iw * ih),
        0 <= x < (if info.subtype / 16 % 2 == 1 {
            320
        } else {
            400int
        }),
        0 <= y < 240,
    ensures
        ({
            let low = info.subtype / 16 % 2 == 1;
            let interlaced = info.subtype / 32 % 2 == 1;
            let downscaled = info.subtype / 128 == 1;
            let strip = info.subtype_b / 8 % 2 == 1;
            let place = if low {
                y * 320 + x
            } else {
                y * 400 + x
            };
            let (was, is) = if low {
                (old(r)@.bottom.pixels[place], final(r)@.bottom.pixels[place])
            } else {
                (old(r)@.top.pixels[place], final(r)@.top.pixels[place])
            };
            let (wide, high) = if downscaled {
                (2 * ih, 2 * iw)
            } else {
                (ih as int, iw as int)
            };
            let left = if strip {
                (info.subtype_b % 8) * wide
            } else {
                0
            };
            let (up, full) = if interlaced {
                ((239 - y) / 2, 120int)
            } else {
                (239 - y, 240int)
            };
            let (row, column) = if downscaled {
                ((x - left) / 2, up / 2)
            } else {
                (x - left, up)
            };
            let mine = (row * iw + column) * 3;
            let last = (row * iw + iw - 1) * 3;
            let inside = left <= x < left + wide && up < high;
            &&& !inside && !(left <= x < left + wide && y == 0 && high > full) ==> is == was
            &&& inside && (y > 0 || high <= full) ==> {
                &&& is.b == d.rgb[mine]
                &&& is.g == d.rgb[mine + 1]
                &&& is.r == d.rgb[mine + 2]
            }
            &&& left <= x < left + wide && y == 0 && high > full ==> {
                &&& is.b == d.rgb[last]
                &&& is.g == d.rgb[last + 1]
                &&& is.r == d.rgb[last + 2]
            }
            &&& low ==> final(r)@.top == old(r)@.top
            &&& !low ==> final(r)@.bottom == old(r)@.bottom
            &&& event matches Some(Event::Screen { bottom, image, bytes, chunk }) && {
                &&& bottom == low
                &&& image@ == (if low {
                    final(r)@.bottom
                } else {
                    final(r)@.top
                })
                &&& bytes == 8 + payload@.len()
                &&& chunk == (if strip {
                    Some((info.subtype_b % 8) as u8)
                } else {
                    None
                })
            }
        }),
{
    crate::legacy::laws::subtype_bits_have_their_meanings(info.subtype, info.subtype_b);
    let img = crate::legacy::unpacked(info.subtype, info.subtype_b);
    let n = (8 + payload@.len()) as nat;
    assert(iw * ih * 3 == 3 * (iw * ih));
    crate::worker::laws::pieces_land_in_their_places(old(r)@, img, n, d, iw, ih, x, y);
    crate::worker::laws::other_screen_is_untouched(old(r)@, img, n, Ok(d));
    let (after, told) = crate::worker::image_applied(old(r)@, img, n, Ok(d));
    assert(crate::worker::handled(old(r)@, *info, payload@) == (after, told));
    assert(final(r)@ == after);
    assert(crate::worker::event_view(event) == told);
}

/// Strips that are painted one after the other, each with its own index, lie side by side
/// and do not disturb one another: what the first painted is still there after the second.
pub proof fn strips_do_not_disturb_one_another(
    r: &mut Reader,
    img: ImageInfo,
    bytes: usize,
    d: Decoded,
    event: Option<Event>,
    i: u8,
    x: int,
    y: int,
)
    requires
        call_ensures(Reader::apply_image, (r, img, bytes, Ok(d)), event),
        old(r)@.wf(),
        d.size matches Some(size) && d.rgb@.len() >= 3 * (size.0 * size.1),
        img.chunk matches Some(j) && i != j,
        !img.bottom,
        0 <= y < 240,
        ({
            let ih = d.size->Some_0.1;
            let wide = if img.downscaled {
                2 * ih
            } else {
                ih as int
            };
            i * wide <= x < i * wide + wide && 0 <= x < 400
        }),
    ensures
        final(r)@.top.pixels[y * 400 + x] == old(r)@.top.pixels[y * 400 + x],
{
    let (iw, ih) = d.size->Some_0;
    let j = img.chunk->Some_0;
    let wide = if img.downscaled {
        2 * ih
    } else {
        ih as int
    };
    crate::worker::laws::pieces_land_in_their_places(
        old(r)@,
        img,
        bytes as nat,
        d@,
        iw,
        ih,
        x,
        y,
    );
    assert(!(j * wide <= x < j * wide + wide)) by (nonlinear_arith)
        requires
            i * wide <= x < i * wide + wide,
            i != j,
    ;
}

/// What is not shown changes no screen, and what is wrong is said.
pub proof fn unusable_answers_are_reported(
    r: &mut Reader,
    img: ImageInfo,
    bytes: usize,
    answer: std::result::Result<Decoded, String>,
    event: Option<Event>,
)
    requires
        call_ensures(Reader::apply_image, (r, img, bytes, answer), event),
        old(r)@.wf(),
    ensures
        answer matches Err(why) ==> final(r)@ == old(r)@ && (event matches Some(Event::Info(s))
            && s@ == "JPEG decode failed: "@ + why@),
        answer matches Ok(d) ==> {
            &&& d.size is None ==> final(r)@ == old(r)@ && event is None
            &&& d.size matches Some(size) ==> {
                &&& d.rgb@.len() < 3 * (size.0 * size.1) ==> final(r)@ == old(r)@ && (event matches
                    Some(Event::Info(_)))
                &&& d.rgb@.len() >= 3 * (size.0 * size.1) ==> (event matches Some(
                    Event::Screen { .. },
                ))
            }
        },
{
    if let Ok(d) = answer {
        if let Some(size) = d.size {
            assert(size.0 * size.1 * 3 == 3 * (size.0 * size.1));
        }
    }
}

/// A sweep has just the configurations that belong to it, none of which depends on what the
/// user decimates, on the user's quality, cap or screens: it begins with the whole picture at
/// qualities 90 and 70, and two users whose settings differ only in what a sweep sets anyway
/// get the same sweep.
pub proof fn sweeps_do_not_depend_on_what_they_set(
    depth: u8,
    current: Settings,
    caps: Option<Announce>,
    plan: Vec<Settings>,
    other: Settings,
    same: Vec<Settings>,
    c: Settings,
)
    requires
        call_ensures(crate::bench::plan_configs, (depth, current, caps), plan),
        call_ensures(crate::bench::plan_configs, (depth, other, caps), same),
        other == (Settings {
            interlace: other.interlace,
            downscale: other.downscale,
            fps_cap: other.fps_cap,
            screen: other.screen,
            quality: other.quality,
            ..current
        }),
    ensures
        plan@ == same@,
        plan@.contains(c) <==> crate::bench::laws::belongs(c, depth, current, caps),
        plan@.len() >= 2,
        plan@[0].quality == 90 && !plan@[0].interlace && !plan@[0].downscale,
        plan@[1].quality == 70 && !plan@[1].interlace && !plan@[1].downscale,
{
    crate::bench::laws::sweeps_ignore_what_they_set(depth, current, other, caps);
    crate::bench::laws::sweeps_measure_just_these(depth, current, caps, c);
    crate::bench::laws::sweeps_begin_with_the_whole_picture(depth, current, caps);
}

/// A finished run has a row for every configuration, each with all that was measured of it:
/// every setting but the screens, which are the user's. The rows are ranked by their scores,
/// and where one is above the least finite number, what is given back are the settings of
/// one that no other outdoes.
pub proof fn finished_runs_tell_what_was_measured(
    b: &mut Bench,
    scores: &[Single],
    rate_text: &str,
    score_text: &str,
    won: Settings,
    k: int,
    j: int,
)
    requires
        call_ensures(Bench::finish, (b, scores, rate_text, score_text), won),
        old(b)@.wf(),
        old(b)@.phase is Done,
        scores@.len() == old(b)@.plan.len(),
        forall|i: int| 0 <= i < scores@.len() ==> !(#[trigger] scores@[i]).nan(),
        0 <= k < scores@.len(),
        0 <= j < scores@.len(),
    ensures
        final(b)@ == (BenchView {
            table: final(b)@.table,
            summary: final(b)@.summary,
            ..old(b)@
        }),
        final(b)@.table.len() == scores@.len(),
        exists|i: int|
            #[trigger] crate::bench::laws::tells_of(final(b)@.table[k], old(b)@, scores@, i),
        exists|r: int|
            0 <= r < final(b)@.table.len() && crate::bench::laws::tells_of(
                #[trigger] final(b)@.table[r],
                old(b)@,
                scores@,
                k,
            ),
        k < j ==> !final(b)@.table[k].score.lt(final(b)@.table[j].score),
        final(b)@.summary == Some(
            "Top result: "@ + crate::bench::config_label(won) + " \u{2014} "@ + rate_text@
                + " fps (score "@ + score_text@ + "). Select a row to try it live."@,
        ),
        (Single { bits: 0xFF7F_FFFF }).lt(scores@[j]) ==> exists|i: int|
            0 <= i < scores@.len() && !(#[trigger] scores@[i]).lt(scores@[k]) && won == (Settings {
                screen: old(b)@.restore.screen,
                ..old(b)@.plan[i]
            }),
{
    let (rt, st) = (rate_text@, score_text@);
    let n = scores@.len();
    crate::bench::laws::rows_tell_what_was_measured(old(b)@, scores@, rt, st, k);
    crate::bench::laws::winning_settings_were_measured(old(b)@, scores@, rt, st);
    crate::order::greatest_is_first_maximum(scores@, n);
    crate::order::order_is_a_rearrangement(scores@, n, true);
    crate::order::order_is_sorted(scores@, n, true);
    let (at, best) = crate::order::greatest(scores@, n);
    assert(!best.lt(scores@[k]));
    let order = crate::order::ordered(scores@, n, true);
    if k < j {
        assert(!crate::order::goes_before(scores@[order[j]], scores@[order[k]], true));
    }
    assert(won == old(b)@.applicable(at));
    if (Single { bits: 0xFF7F_FFFF }).lt(scores@[j]) {
        assert(!scores@[at].lt(scores@[k]));
    }
}

/// A `FRAME` is read byte by byte: the screen, the format, the pixel format and the interlace
/// mode, the chunk's index, the number of chunks, where none is one, the frame's number, low
/// byte first, and the image.
pub proof fn frames_are_read_byte_by_byte(payload: &[u8], res: std::result::Result<Message, Error>)
    requires
        call_ensures(Message::decode, (0x81u8, payload), res),
    ensures
        res is Ok <==> payload@.len() >= 8 && payload@[0] <= 1 && payload@[1] <= 1 && payload@[2]
            <= 4 && payload@[3] <= 2,
        res matches Ok(m) ==> (m matches Message::Frame { header, image } && {
            let p = payload@;
            &&& header.screen is Bottom <==> p[0] == 1
            &&& header.format is Tga <==> p[1] == 1
            &&& header.pixfmt is Rgba8 <==> p[2] == 0
            &&& header.pixfmt is Rgb8 <==> p[2] == 1
            &&& header.pixfmt is Rgb565 <==> p[2] == 2
            &&& header.pixfmt is Rgb5a1 <==> p[2] == 3
            &&& header.interlace is FieldA <==> p[3] == 1
            &&& header.interlace is FieldB <==> p[3] == 2
            &&& header.chunk_index == p[4]
            &&& p[5] > 0 ==> header.chunk_count == p[5]
            &&& p[5] == 0 ==> header.chunk_count == 1
            &&& header.frame_id == p[6] + 256 * p[7]
            &&& image@ == p.skip(8)
        }),
{
    crate::v1::laws::frame_fields_are_read_in_their_places(payload@);
    if let Ok(Message::Frame { image, .. }) = res {
        assert(image@ =~= payload@.skip(8));
    }
}

/// A `FRAME` is written byte by byte, behind a header with its type and its length.
pub proof fn frames_are_written_byte_by_byte(m: &Message, out: Vec<u8>)
    requires
        call_ensures(Message::encode, (m,), out),
    ensures
        *m matches Message::Frame { header, image } ==> image@.len() < 0x1_0000_0000 - 8 ==> {
            let f = out@;
            &&& f.len() == 16 + image@.len()
            &&& f[0] == 0x81 && f[1] == 0 && f[2] == 0 && f[3] == 0
            &&& f[4] + 256 * f[5] + 65536 * f[6] + 16777216 * f[7] == 8 + image@.len()
            &&& f[8] == (if header.screen is Bottom {
                1u8
            } else {
                0
            })
            &&& f[9] == (if header.format is Tga {
                1u8
            } else {
                0
            })
            &&& f[10] <= 4
            &&& f[10] == 0 <==> header.pixfmt is Rgba8
            &&& f[10] == 1 <==> header.pixfmt is Rgb8
            &&& f[10] == 2 <==> header.pixfmt is Rgb565
            &&& f[10] == 3 <==> header.pixfmt is Rgb5a1
            &&& f[11] <= 2
            &&& f[11] == 1 <==> header.interlace is FieldA
            &&& f[11] == 2 <==> header.interlace is FieldB
            &&& f[12] == header.chunk_index
            &&& f[13] == header.chunk_count
            &&& f[14] + 256 * f[15] == header.frame_id
            &&& f.skip(16) == image@
        },
{
    if let Message::Frame { header, image } = *m {
        let p = m@.payload();
        crate::v1::laws::frame_fields_are_written_in_their_places(header, image@);
        crate::v1::laws::framing_has_its_places(m@, out@);
        if image@.len() < 0x1_0000_0000 - 8 {
            let f = out@;
            assert(f.skip(8) == p);
            assert forall|i: int| 0 <= i < p.len() implies #[trigger] p[i] == f[8 + i] by {
                assert(f.skip(8)[i] == f[8 + i]);
            }
            assert(p[0] == f[8] && p[1] == f[9] && p[2] == f[10] && p[3] == f[11]);
            assert(p[4] == f[12] && p[5] == f[13] && p[6] == f[14] && p[7] == f[15]);
            assert forall|i: int| 0 <= i < image@.len() implies #[trigger] f.skip(16)[i]
                == image@[i] by {
                assert(p[8 + i] == image@[i]);
            }
            assert(f.skip(16) =~= image@);
        }
    }
}

/// What was encoded is decoded to the same message, where its fields are in range.
pub proof fn messages_come_back(
    m: &Message,
    payload: Vec<u8>,
    bytes: &[u8],
    kind: u8,
    res: std::result::Result<Message, Error>,
)
    requires
        call_ensures(Message::encode_payload, (m,), payload),
        call_ensures(Message::msg_type, (m,), kind),
        call_ensures(Message::decode, (kind, bytes), res),
        bytes@ == payload@,
        m@.in_range(),
    ensures
        res matches Ok(n) && n@ == m@,
{
    crate::v1::laws::decode_undoes_encode(m@);
}

/// A header is read byte by byte: the type, and the payload's length, low byte first, of at
/// most 448 kilobytes.
pub proof fn headers_are_read_byte_by_byte(
    buf: &[u8],
    new: std::result::Result<FrameInfo, Error>,
    old_style: std::result::Result<PacketInfo, Error>,
)
    requires
        call_ensures(crate::v1::parse_header, (buf,), new),
        call_ensures(crate::legacy::parse_header, (buf,), old_style),
        buf@.len() >= 8,
    ensures
        ({
            let b = buf@;
            let n = b[4] + 256 * b[5] + 65536 * b[6] + 16777216 * b[7];
            &&& n <= 458752 ==> {
                &&& new matches Ok(i) && i.msg_type == b[0] && i.payload_len == n
                &&& old_style matches Ok(i) && i.ptype == b[0] && i.subtype == b[1] && i.subtype_b
                    == b[2] && i.payload_len == n
            }
            &&& n > 458752 ==> {
                &&& new matches Err(Error::PayloadTooLarge(k)) && k == n
                &&& old_style matches Err(Error::PayloadTooLarge(k)) && k == n
            }
        }),
{
    crate::legacy::laws::header_fields_have_their_places(buf@);
}

/// What each bit of an image's subtype says.
pub proof fn image_bits_are_read(info: &PacketInfo, img: ImageInfo)
    requires
        call_ensures(ImageInfo::from_packet, (info,), img),
    ensures
        img.pixfmt == info.subtype % 8,
        img.tga <==> info.subtype / 8 % 2 == 1,
        img.bottom <==> info.subtype / 16 % 2 == 1,
        img.interlaced <==> info.subtype / 32 % 2 == 1,
        img.interlace_phase <==> info.subtype / 64 % 2 == 1,
        img.downscaled <==> info.subtype / 128 == 1,
        img.chunk is Some <==> info.subtype_b / 8 % 2 == 1,
        img.chunk matches Some(i) ==> i == info.subtype_b % 8,
{
    crate::legacy::laws::subtype_bits_have_their_meanings(info.subtype, info.subtype_b);
}

/// What is wrong with a message, in words.
pub proof fn errors_say_what_is_wrong(e: &Error, s: String)
    requires
        call_ensures(Error::message, (e,), s),
    ensures
        match *e {
            Error::Truncated => s@ == "message truncated"@,
            Error::PayloadTooLarge(n) => s@ == "payload length "@ + crate::text::decimal(n as nat)
                + " exceeds maximum"@,
            Error::BadMagic(m) => s@ == "bad HELLO magic ["@ + crate::text::hex2(m[0]) + ", "@
                + crate::text::hex2(m[1]) + ", "@ + crate::text::hex2(m[2]) + ", "@
                + crate::text::hex2(m[3]) + "]"@,
            Error::BadValue { field, value } => s@ == "invalid value "@ + crate::text::decimal(
                value as nat,
            ) + " for "@ + field@,
            Error::UnknownType(t) => s@ == "unknown message type 0x"@ + crate::text::hex2(t),
        },
{
}

/// Why there is no connection, in words: what failed, and why.
pub proof fn failures_are_told(attempt: Attempt, target: &str, why: &str, event: Event)
    requires
        call_ensures(crate::worker::attempt_failed, (attempt, target, why), event),
    ensures
        event matches Event::Disconnected(s) && s@ == (match attempt {
            Attempt::Connect => "connect to "@ + target@ + " failed: "@ + why@,
            Attempt::CloneSocket => "socket clone failed: "@ + why@,
            Attempt::Handshake => "handshake write failed: "@ + why@,
        }),
{
}

/// A connection that is lost is said to be lost in the middle of a packet exactly while its
/// payload is waited for.
pub proof fn losses_are_told(link: &Link, why: &str, s: String, n: usize)
    requires
        call_ensures(Link::lost, (link, why), s),
        call_ensures(Link::wanted, (link,), n),
    ensures
        link@.stage is Header ==> s@ == "connection closed: "@ + why@ && n == 8,
        link@.stage matches Stage::Payload(info) ==> s@ == "connection closed mid-packet: "@
            + why@ && n == info.payload_len,
{
}

/// A link reads headers and payloads in turn, and a bad header ends it with what is wrong.
pub proof fn headers_and_payloads_alternate(link: &mut Link, bytes: &[u8], step: Step)
    requires
        call_ensures(Link::received, (link, bytes), step),
        bytes@.len() == old(link)@.stage.wanted(),
    ensures
        old(link)@.stage is Payload ==> final(link)@.stage is Header && step is Continue,
        old(link)@.stage is Header ==> {
            let b = bytes@;
            let n = b[4] + 256 * b[5] + 65536 * b[6] + 16777216 * b[7];
            &&& final(link)@.reader == old(link)@.reader
            &&& n <= 458752 ==> {
                &&& step matches Step::Continue(None)
                &&& final(link)@.stage matches Stage::Payload(i) && i.ptype == b[0] && i.subtype
                    == b[1] && i.subtype_b == b[2] && i.payload_len == n
            }
            &&& n > 458752 ==> {
                &&& final(link)@.stage is Header
                &&& step matches Step::Stop(s) && s@ == "protocol error: payload length "@
                    + crate::text::decimal(n as nat) + " exceeds maximum"@
            }
        },
{
    if old(link)@.stage is Header {
        let b = bytes@;
        crate::legacy::laws::header_fields_have_their_places(b);
        reveal_strlit("protocol error: ");
        reveal_strlit("payload length ");
        reveal_strlit("protocol error: payload length ");
        let n = b[4] + 256 * b[5] + 65536 * b[6] + 16777216 * b[7];
        let word = "protocol error: payload length "@;
        assert(word =~= "protocol error: "@ + "payload length "@);
        assert("protocol error: "@ + ("payload length "@ + crate::text::decimal(n as nat)
            + " exceeds maximum"@) =~= word + crate::text::decimal(n as nat) + " exceeds maximum"@);
    }
}

/// Every command is one packet, and only the last ends the connection.
pub proof fn commands_are_sent_as_packets(cmd: Cmd, res: (Vec<u8>, bool))
    requires
        call_ensures(Cmd::encode, (cmd,), res),
    ensures
        res.1 <==> cmd is Disconnect,
        res.1 ==> res.0@ == seq![3u8, 0u8, 0u8, 0u8, 0u8, 0u8, 0u8, 0u8],
        !res.1 ==> {
            let p = res.0@;
            &&& p.len() == 9 && p[0] == 4 && p[2] == 0 && p[3] == 0 && p[4] == 1 && p[5] == 0
            &&& p[6] == 0 && p[7] == 0
            &&& match cmd {
                Cmd::SetQuality(q) => p[1] == 1 && (1 <= q <= 100 ==> p[8] == q) && (q == 0
                    ==> p[8] == 1) && (q > 100 ==> p[8] == 100),
                Cmd::SetScreen(set) => p[1] == 3 && 1 <= p[8] <= 3 && (set is Top <==> p[8] == 1)
                    && (set is Bottom <==> p[8] == 2),
                Cmd::SetInterlace(on) => p[1] == 5 && p[8] <= 1 && (on <==> p[8] == 1),
                Cmd::SetStripSkip(on) => p[1] == 6 && p[8] <= 1 && (on <==> p[8] == 1),
                Cmd::SetRefreshInterval(n) => p[1] == 7 && p[8] == n,
                Cmd::SetFpsCap(n) => p[1] == 8 && p[8] == n,
                Cmd::SetChunks(n) => p[1] == 9 && p[8] == n,
                Cmd::SetStripSleep(n) => p[1] == 10 && p[8] == n,
                Cmd::Disconnect => false,
            }
        },
{
    crate::worker::laws::commands_have_their_bytes(cmd);
}

/// How a run goes on. A configuration settles for 1.2 seconds and is then measured for 2.5;
/// a sample is taken when a fifth of a second has gone by; when the time is up all samples
/// are handed out, and the frame rates of the two screens without their extremes.
pub proof fn windows_hand_out_their_samples(b: &mut Bench, now: u64, sample: Sample, tick: Tick)
    requires
        call_ensures(Bench::tick, (b, now, sample), tick),
        old(b)@.wf(),
    ensures
        old(b)@.phase matches Phase::Settle(since) ==> {
            &&& tick is Waiting
            &&& now - since < 1_200_000_000 ==> final(b)@ == old(b)@
            &&& now - since >= 1_200_000_000 ==> final(b)@.phase == Phase::Measure(now)
                && final(b)@.samples.len() == 0
        },
        old(b)@.phase matches Phase::Measure(since) ==> {
            let all = if now - old(b)@.last_sample >= 200_000_000 {
                old(b)@.samples.push(sample)
            } else {
                old(b)@.samples
            };
            &&& now - since < 2_500_000_000 ==> tick is Waiting && final(b)@.samples == all
                && final(b)@.phase == old(b)@.phase
            &&& now - since >= 2_500_000_000 ==> final(b)@.phase is Average && (tick matches
                Tick::Close(w) && w.samples@ == all)
        },
        old(b)@.phase is Average || old(b)@.phase is Done ==> tick is Waiting && final(b)@
            == old(b)@,
        final(b)@.plan == old(b)@.plan,
        final(b)@.results == old(b)@.results,
        final(b)@.restore == old(b)@.restore,
{
    crate::bench::laws::samples_are_taken_every_fifth_of_a_second(old(b)@, now, sample);
}

/// What is left of the frame rates of a window is of the samples' own screens: of one or two
/// samples all of them, in ascending order, and of more those in the middle.
pub proof fn windows_keep_the_screens_apart(
    b: &mut Bench,
    now: u64,
    sample: Sample,
    tick: Tick,
    i: int,
)
    requires
        call_ensures(Bench::tick, (b, now, sample), tick),
        old(b)@.wf(),
    ensures
        tick matches Tick::Close(w) ==> {
            let n = w.samples@.len();
            &&& w.top@ == crate::bench::middle(crate::bench::tops(w.samples@))
            &&& w.bottom@ == crate::bench::middle(crate::bench::bottoms(w.samples@))
            &&& w.top@.len() == w.bottom@.len()
            &&& n < 3 ==> w.top@.len() == n
            &&& n >= 3 ==> w.top@.len() < n
            &&& 0 <= i < w.top@.len() ==> exists|k: int|
                0 <= k < n && w.top@[i] == (#[trigger] w.samples@[k]).top
            &&& 0 <= i < w.bottom@.len() ==> exists|k: int|
                0 <= k < n && w.bottom@[i] == (#[trigger] w.samples@[k]).bottom
        },
{
    if let Tick::Close(w) = tick {
        let s = w.samples@;
        let (t, u) = (crate::bench::tops(s), crate::bench::bottoms(s));
        crate::bench::laws::a_fifth_goes_at_either_end(t);
        crate::bench::laws::a_fifth_goes_at_either_end(u);
        crate::order::order_is_a_rearrangement(t, t.len(), false);
        crate::order::order_is_a_rearrangement(u, u.len(), false);
        let c = crate::bench::cut(s.len());
        if 0 <= i < w.top@.len() {
            let k = crate::order::ordered(t, t.len(), false)[c + i];
            assert(w.top@[i] == s[k].top);
        }
        if 0 <= i < w.bottom@.len() {
            let k = crate::order::ordered(u, u.len(), false)[c + i];
            assert(w.bottom@[i] == s[k].bottom);
        }
    }
}

/// The configurations of a run come in turn: the user's own first, each until its averages
/// are recorded, and the run is done when all are.
pub proof fn configurations_come_in_turn(
    b: &mut Bench,
    now: u64,
    outcome: Outcome,
    done: bool,
    next: &Bench,
    cfg: Settings,
)
    requires
        call_ensures(Bench::record, (b, now, outcome), done),
        old(b)@.wf(),
        old(b)@.phase is Average,
        next@ == final(b)@,
        call_ensures(Bench::current_config, (next,), cfg),
    ensures
        final(b)@.results == old(b)@.results.push(outcome),
        final(b)@.plan == old(b)@.plan,
        final(b)@.restore == old(b)@.restore,
        done <==> old(b)@.results.len() + 1 == old(b)@.plan.len(),
        done ==> final(b)@.phase is Done,
        !done ==> final(b)@.phase == Phase::Settle(now),
        !done ==> cfg == old(b)@.plan[old(b)@.results.len() as int + 1],
{
}

/// A run begins with the user's own settings, but for both screens streaming, and goes on
/// with those of its depth. Ending it early gives the user's settings back.
pub proof fn runs_begin_with_the_users_settings(
    opts: Options,
    current: Settings,
    caps: Option<Announce>,
    now: u64,
    b: Bench,
    first: Settings,
    back: Settings,
    c: Settings,
)
    requires
        call_ensures(Bench::start, (opts, current, caps, now), b),
        call_ensures(Bench::current_config, (&b,), first),
        call_ensures(Bench::cancel, (&b,), back),
    ensures
        first == (Settings { screen: 3, ..current }),
        back == current,
        b@.phase == Phase::Settle(now),
        b@.results.len() == 0,
        b@.plan.skip(1).contains(c) <==> crate::bench::laws::belongs(c, opts.depth, current, caps),
{
    crate::bench::laws::runs_begin_by_settling(opts, current, caps, now);
    crate::bench::laws::sweeps_measure_just_these(opts.depth, current, caps, c);
}

/// The frame rate that counts is that of the screen that moves, or of both.
pub proof fn the_moving_screen_is_scored(b: &Bench, i: usize, rate: Rate)
    requires
        call_ensures(Bench::scored, (b, i), rate),
        i < b@.results.len(),
    ensures
        b@.opts.motion is TopMoves ==> rate == Rate::One(b@.results[i as int].fps),
        b@.opts.motion is BottomMoves ==> rate == Rate::One(b@.results[i as int].bot),
        b@.opts.motion is BothMove ==> rate == Rate::Sum(
            b@.results[i as int].fps,
            b@.results[i as int].bot,
        ),
{
}

/// How a configuration decimates the picture: a quarter of it is worth 45 hundredths, half of
/// it 70, and all of it 100. A quarter it is wherever it is downscaled.
pub proof fn decimation_is_weighed(s: &Settings, weight: u8, name: &'static str)
    requires
        call_ensures(crate::bench::mode_weight, (s,), weight),
        call_ensures(crate::bench::mode_name, (s,), name),
    ensures
        s.downscale ==> weight == 45 && name@ == "quarter-res"@,
        !s.downscale && s.interlace ==> weight == 70 && name@ == "interlace"@,
        !s.downscale && !s.interlace ==> weight == 100 && name@ == "progressive"@,
{
}

/// Two configurations have the same label exactly if they decimate alike and have the same
/// quality, grid and number of strips.
pub proof fn labels_are_of_what_varies(s: &Settings, t: &Settings, a: String, b: String)
    requires
        call_ensures(crate::bench::cfg_label, (s,), a),
        call_ensures(crate::bench::cfg_label, (t,), b),
    ensures
        a@ == crate::bench::config_label(*s),
        a@ == b@ <==> {
            &&& s.downscale == t.downscale
            &&& s.downscale || s.interlace == t.interlace
            &&& s.quality == t.quality
            &&& s.grid_rows == t.grid_rows
            &&& s.grid_cols == t.grid_cols
            &&& s.chunks == t.chunks
        },
{
    if a@ == b@ {
        crate::bench::laws::labels_tell_configurations_apart(*s, *t);
    }
}

/// What is left of samples without their extremes: all of one or two, and of more those in the
/// middle, in ascending order where all are numbers.
pub proof fn extremes_are_trimmed(v: &[Single], mid: Vec<Single>, i: int, j: int)
    requires
        call_ensures(crate::bench::trim_extremes, (v,), mid),
        forall|k: int| 0 <= k < v@.len() ==> !(#[trigger] v@[k]).nan(),
        0 <= i < j < mid@.len(),
    ensures
        v@.len() < 3 ==> mid@.len() == v@.len(),
        3 <= v@.len() < 5 ==> mid@.len() == v@.len() - 2,
        v@.len() >= 5 ==> mid@.len() == v@.len() - 2 * (v@.len() / 5),
        !mid@[j].lt(mid@[i]),
        exists|k: int| 0 <= k < v@.len() && #[trigger] v@[k] == mid@[i],
{
    let n = v@.len();
    let c = crate::bench::cut(n) as int;
    let order = crate::order::ordered(v@, n, false);
    crate::bench::laws::a_fifth_goes_at_either_end(v@);
    crate::order::order_is_a_rearrangement(v@, n, false);
    crate::order::order_is_sorted(v@, n, false);
    assert(!crate::order::goes_before(v@[order[c + j]], v@[order[c + i]], false));
    assert(mid@[i] == v@[order[c + i]]);
}

/// The greatest sharpness is that of one configuration, or zero, and no other is greater.
pub proof fn the_sharpest_is_a_bound(b: &Bench, most: Single, i: int)
    requires
        call_ensures(Bench::max_sharp, (b,), most),
        0 <= i < b@.results.len(),
    ensures
        !most.lt(b@.results[i].sharp),
        most.bits == 0 || exists|k: int|
            0 <= k < b@.results.len() && most == (#[trigger] b@.results[k]).sharp,
{
    crate::bench::laws::greatest_sharpness_is_a_bound(b@.results, b@.results.len(), i);
}

/// An order of numbers has every place once and runs up, or down where that is asked for;
/// equal numbers stay in their order.
pub proof fn orders_run_up_or_down(
    keys: &[Single],
    descending: bool,
    order: Vec<usize>,
    i: int,
    j: int,
)
    requires
        call_ensures(crate::order::order_of, (keys, descending), order),
        forall|k: int| 0 <= k < keys@.len() ==> !(#[trigger] keys@[k]).nan(),
        0 <= i < j < keys@.len(),
    ensures
        order@.len() == keys@.len(),
        order@[i] < keys@.len() && order@[j] < keys@.len() && order@[i] != order@[j],
        ({
            let (a, b) = (keys@[order@[i] as int], keys@[order@[j] as int]);
            &&& !descending ==> !b.lt(a)
            &&& descending ==> !a.lt(b)
            &&& a.same(b) ==> order@[i] < order@[j]
        }),
{
    let n = keys@.len();
    let all = crate::order::ordered(keys@, n, descending);
    crate::order::order_is_a_rearrangement(keys@, n, descending);
    crate::order::order_is_sorted(keys@, n, descending);
    assert(crate::order::indices(order@)[i] == order@[i]);
    assert(crate::order::indices(order@)[j] == order@[j]);
    assert(all[i] == order@[i] && all[j] == order@[j]);
    assert(!crate::order::goes_before(keys@[all[j]], keys@[all[i]], descending));
}

/// The greatest of keys is a number that no key exceeds, and the first of its kind.
pub proof fn the_greatest_is_a_bound(keys: &[Single], res: (usize, Single), i: int)
    requires
        call_ensures(crate::order::greatest_of, (keys,), res),
        0 <= i < keys@.len(),
    ensures
        !res.1.nan(),
        !res.1.lt(keys@[i]),
        i < res.0 ==> !res.1.same(keys@[i]),
        res.1.bits == 0xFF7F_FFFF && res.0 == 0 || res.0 < keys@.len() && res.1
            == keys@[res.0 as int],
{
    crate::order::only_numbers_win(keys@, keys@.len(), i);
}

/// What is saved under a name is what that name gives, and no other name gives anything else
/// than before. The saved profile is selected.
pub proof fn saved_profiles_are_found(
    s: &mut Store,
    p: Profile,
    name: &str,
    before: &Store,
    was: Option<&Profile>,
    after: &Store,
    is: Option<&Profile>,
)
    requires
        call_ensures(Store::upsert, (s, p), ()),
        before@ == old(s)@,
        after@ == final(s)@,
        call_ensures(Store::get, (before, name), was),
        call_ensures(Store::get, (after, name), is),
    ensures
        name@ == p.name@ ==> (is matches Some(q) && q@ == p@),
        name@ != p.name@ ==> {
            &&& was matches Some(x) ==> (is matches Some(y) && x@ == y@)
            &&& was is None ==> is is None
        },
        final(s)@.last == Some(p.name@),
{
    crate::profile::laws::saved_profile_is_found(old(s)@, p@, name@);
}

/// What is deleted is gone, under however many places it stood, and every other name gives
/// what it gave before. Only what is deleted is no longer selected.
pub proof fn deleted_profiles_are_gone(
    s: &mut Store,
    gone: &str,
    name: &str,
    before: &Store,
    was: Option<&Profile>,
    after: &Store,
    is: Option<&Profile>,
)
    requires
        call_ensures(Store::delete, (s, gone), ()),
        before@ == old(s)@,
        after@ == final(s)@,
        call_ensures(Store::get, (before, name), was),
        call_ensures(Store::get, (after, name), is),
    ensures
        name@ == gone@ ==> is is None,
        name@ != gone@ ==> {
            &&& was matches Some(x) ==> (is matches Some(y) && x@ == y@)
            &&& was is None ==> is is None
        },
        final(s)@.last == (if old(s)@.last == Some(gone@) {
            None
        } else {
            old(s)@.last
        }),
{
    crate::profile::laws::deleted_profile_is_gone(old(s)@, gone@, name@);
}

/// The master balance moves what it drives and nothing else.
pub proof fn the_master_drives_its_knobs(s: &mut Settings, quality: u8)
    requires
        call_ensures(Settings::apply_master, (s, quality), ()),
    ensures
        ({
            let b = old(s).master.bits;
            let low = b < 0x3F00_0000 || 0x8000_0000 <= b <= 0xFF80_0000;
            let uncapped = b < 0x3F40_0000 || 0x8000_0000 <= b <= 0xFF80_0000;
            *final(s) == (Settings {
                quality,
                interlace: low,
                refresh_interval: if low {
                    64
                } else {
                    32
                },
                fps_cap: if uncapped {
                    0
                } else {
                    24
                },
                strip_skip: true,
                ..*old(s)
            })
        }),
{
    crate::settings::master_drives_the_knobs(*old(s), quality);
    crate::settings::master_settles(*old(s), quality);
}

/// The master balance moves no knob once the user has touched one.
pub proof fn touched_knobs_are_left_alone(c: &mut Client, quality: u8)
    requires
        call_ensures(Client::master_changed, (c, quality), ()),
    ensures
        old(c)@.settings.custom ==> final(c)@ == old(c)@,
        !old(c)@.settings.custom ==> {
            &&& final(c)@.settings.quality == quality
            &&& final(c)@.settings.strip_skip
            &&& !final(c)@.settings.custom
        },
        final(c)@.settings.screen == old(c)@.settings.screen,
        final(c)@.conn == old(c)@.conn && final(c)@.status == old(c)@.status,
        final(c)@.store == old(c)@.store && final(c)@.address == old(c)@.address,
{
}

/// Knobs count as touched from the moment that any setting is another, and no knob is moved
/// by that.
pub proof fn edited_knobs_count_as_touched(c: &mut Client, before: Settings)
    requires
        call_ensures(Client::knobs_edited, (c, before), ()),
        !before.master.nan(),
    ensures
        final(c)@ == (ClientView { settings: final(c)@.settings, ..old(c)@ }),
        final(c)@.settings == (Settings {
            custom: final(c)@.settings.custom,
            ..old(c)@.settings
        }),
        ({
            let (now, after) = (old(c)@.settings, final(c)@.settings);
            &&& now == before ==> after.custom == before.custom
            &&& now.quality != before.quality ==> after.custom
            &&& now.screen != before.screen ==> after.custom
            &&& now.interlace != before.interlace ==> after.custom
            &&& now.downscale != before.downscale ==> after.custom
            &&& now.strip_skip != before.strip_skip ==> after.custom
            &&& now.refresh_interval != before.refresh_interval ==> after.custom
            &&& now.fps_cap != before.fps_cap ==> after.custom
            &&& now.strip_sleep != before.strip_sleep ==> after.custom
            &&& now.chunks != before.chunks ==> after.custom
            &&& now.grid_cols != before.grid_cols ==> after.custom
            &&& now.grid_rows != before.grid_rows ==> after.custom
        }),
{
}

/// At least one screen is shown, and both are unless one alone is selected.
pub proof fn some_screen_is_shown(c: &Client, top: bool, bottom: bool)
    requires
        call_ensures(Client::show_top, (c,), top),
        call_ensures(Client::show_bottom, (c,), bottom),
    ensures
        top || bottom,
        !top <==> c.settings.screen == 2,
        !bottom <==> c.settings.screen == 1,
{
}

/// A knob can be moved without a connection, and with one exactly if its feature was
/// announced; its label says so where it was not.
pub proof fn knobs_need_their_features(
    c: &Client,
    bit: u8,
    supported: bool,
    enabled: bool,
    suffix: &'static str,
)
    requires
        call_ensures(Client::supports, (c, bit), supported),
        call_ensures(Client::knob_enabled, (c, bit), enabled),
        call_ensures(Client::knob_suffix, (c, bit), suffix),
    ensures
        supported <==> (c.conn matches Conn::Active { caps: Some(a), .. } && a.features & bit
            != 0),
        c.conn is Idle ==> enabled && !supported,
        c.conn is Active ==> (enabled <==> supported),
        supported ==> suffix@ == ""@,
        !supported ==> suffix@ == " (needs extended sysmodule)"@,
{
}

/// What the client says while nothing is shown.
pub proof fn placeholders_follow_the_connection(c: &Client, s: &'static str, cmd: Option<Cmd>)
    requires
        call_ensures(Client::placeholder, (c,), s),
        call_ensures(Client::disconnect, (c,), cmd),
    ensures
        c.conn is Idle ==> s@ == "Not connected"@ && cmd is None,
        c.conn matches Conn::Active { connected, .. } ==> {
            &&& cmd == Some(Cmd::Disconnect)
            &&& connected ==> s@ == "Connected \u{2014} waiting for frames\u{2026}"@
            &&& !connected ==> s@ == "Connecting\u{2026}"@
        },
{
}

/// Connecting takes an idle client and an address that is not all white space, and what is
/// connected to is that address without the white space around it.
pub proof fn connecting_takes_an_address(c: &mut Client, address: Option<String>)
    requires
        call_ensures(Client::connect, (c,), address),
    ensures
        address is Some <==> old(c)@.conn is Idle && exists|i: int|
            0 <= i < old(c)@.address.len() && !crate::text::is_white(
                #[trigger] old(c)@.address[i],
            ),
        address is None ==> final(c)@ == old(c)@,
        address matches Some(a) ==> {
            &&& a@ == crate::text::trimmed(old(c)@.address)
            &&& final(c)@ == (ClientView {
                conn: final(c)@.conn,
                status: "Connecting\u{2026}"@,
                ..old(c)@
            })
            &&& final(c)@.conn matches Conn::Active { sent, connected: false, caps: None } && {
                &&& sent.quality == old(c)@.settings.quality
                &&& sent.screen == old(c)@.settings.screen
                &&& sent.interlace == old(c)@.settings.interlace
                &&& sent.strip_skip is None && sent.refresh_interval is None
                &&& sent.fps_cap is None
            }
        },
{
    crate::client::laws::connecting_notes_the_handshake(old(c)@);
}

/// Pushing sends what has changed, once: a second push sends nothing, and nothing goes out
/// before there is a connection.
pub proof fn changes_are_pushed_once(
    c: &mut Client,
    cmds: Vec<Cmd>,
    d: &mut Client,
    again: Vec<Cmd>,
)
    requires
        call_ensures(Client::push_settings, (c,), cmds),
        old(d)@ == final(c)@,
        call_ensures(Client::push_settings, (d,), again),
    ensures
        again@.len() == 0,
        !(old(c)@.conn matches Conn::Active { connected: true, .. }) ==> cmds@.len() == 0,
        old(c)@.conn matches Conn::Active { connected: true, sent, caps } ==> {
            let s = old(c)@.settings;
            &&& cmds@.contains(Cmd::SetQuality(s.quality)) <==> sent.quality != s.quality
            &&& cmds@.contains(Cmd::SetInterlace(s.interlace)) <==> sent.interlace != s.interlace
            &&& cmds@.contains(Cmd::SetScreen(s.selected())) <==> sent.screen != s.screen
            &&& cmds@.contains(Cmd::SetStripSkip(s.strip_skip)) <==> (caps matches Some(a)
                && a.features % 2 == 1) && sent.strip_skip != Some(s.strip_skip)
            &&& cmds@.contains(Cmd::SetRefreshInterval(s.refresh_interval)) <==> (caps matches Some(
                a,
            ) && a.features % 2 == 1) && sent.refresh_interval != Some(s.refresh_interval)
            &&& cmds@.contains(Cmd::SetFpsCap(s.fps_cap)) <==> (caps matches Some(a) && a.features
                / 2 % 2 == 1) && sent.fps_cap != Some(s.fps_cap)
        },
{
    crate::client::laws::second_push_sends_nothing(old(c)@);
    if let Conn::Active { connected: true, .. } = old(c)@.conn {
        let s = old(c)@.settings;
        crate::client::laws::lemma_announced_knobs(old(c)@);
        crate::client::laws::changed_knobs_are_sent(old(c)@, Cmd::SetQuality(s.quality));
        crate::client::laws::changed_knobs_are_sent(old(c)@, Cmd::SetInterlace(s.interlace));
        crate::client::laws::changed_knobs_are_sent(old(c)@, Cmd::SetScreen(s.selected()));
        crate::client::laws::changed_knobs_are_sent(old(c)@, Cmd::SetStripSkip(s.strip_skip));
        crate::client::laws::changed_knobs_are_sent(
            old(c)@,
            Cmd::SetRefreshInterval(s.refresh_interval),
        );
        crate::client::laws::changed_knobs_are_sent(old(c)@, Cmd::SetFpsCap(s.fps_cap));
    }
}

/// An image is measured where both sides have sixteen pixels: all steps are those at block
/// borders and those inside blocks, and so are their numbers. There is one step across for
/// every column but the first, in each row, and one down for every row but the first, in each
/// column; those at borders are every eighth. An image that is the same all over has steps of
/// nothing.
pub proof fn steps_are_added_and_counted(img: &Image, res: Option<Measured>, p: Pixel)
    requires
        call_ensures(crate::quality::measure, (img,), res),
        img.wf(),
    ensures
        res is Some <==> img@.width >= 16 && img@.height >= 16,
        res matches Some(m) ==> {
            let (w, h) = (img@.width as int, img@.height as int);
            &&& m.grad_sum == m.edge_sum + m.inner_sum
            &&& m.grad_n == m.edge_n + m.inner_n
            &&& m.grad_n == h * (w - 1) + w * (h - 1)
            &&& m.edge_n == h * ((w - 1) / 8) + w * ((h - 1) / 8)
            &&& m.grad_sum <= 255 * m.grad_n
            &&& m.edge_sum == crate::quality::all_steps(img@, true)
            &&& m.inner_sum == crate::quality::all_steps(img@, false)
            &&& (forall|i: int| 0 <= i < img@.pixels.len() ==> #[trigger] img@.pixels[i] == p)
                ==> m.edge_sum == 0 && m.inner_sum == 0
        },
{
    if img@.width >= 16 && img@.height >= 16 {
        crate::quality::steps_are_bounded(img@);
        if forall|i: int| 0 <= i < img@.pixels.len() ==> #[trigger] img@.pixels[i] == p {
            crate::quality::flat_image_has_no_steps(img@, p, true);
            crate::quality::flat_image_has_no_steps(img@, p, false);
        }
    }
}

/// An image measures the same whichever way it lies.
pub proof fn measures_do_not_turn(
    img: &Image,
    turned: &Image,
    res: Option<Measured>,
    same: Option<Measured>,
)
    requires
        call_ensures(crate::quality::measure, (img,), res),
        call_ensures(crate::quality::measure, (turned,), same),
        img.wf(),
        turned.wf(),
        turned@.width == img@.height,
        turned@.height == img@.width,
        forall|x: int, y: int|
            0 <= x < img@.width && 0 <= y < img@.height ==> #[trigger] turned@.at(y, x) == img@.at(
                x,
                y,
            ),
    ensures
        res == same,
{
    let t = crate::quality::transposed(img@);
    crate::quality::transposing_changes_no_measure(img@, true);
    crate::quality::transposing_changes_no_measure(img@, false);
    assert forall|i: int| 0 <= i < turned@.pixels.len() implies #[trigger] turned@.pixels[i]
        == t.pixels[i] by {
        let w = turned@.width as int;
        let (x, y) = (i % w, i / w);
        assert(0 <= x < w && 0 <= y < turned@.height && y * w + x == i) by (nonlinear_arith)
            requires
                0 <= i < w * turned@.height,
                w > 0,
                x == i % w,
                y == i / w,
        ;
        assert(turned@.at(x, y) == img@.at(y, x));
        assert(t.at(x, y) == img@.at(y, x));
    }
    assert(turned@ =~= t);
}

/// What a file is refused for is said, and what is not refused is what the decoder gives.
pub proof fn files_are_decoded_or_refused(bytes: &[u8], res: Result<Decoded, String>, tame: bool)
    requires
        call_ensures(crate::jpeg::decode_file, (bytes,), res),
        call_ensures(crate::layout::check_layout, (bytes,), tame),
    ensures
        bytes@.len() > 2147483647 ==> !tame,
        !tame ==> (res matches Err(e) && e@ == "unsupported JPEG layout"@),
        tame ==> match (res, crate::jpeg::jpeg_decoded(bytes@)) {
            (Ok(d), Ok(x)) => d.rgb@ == x.0 && d.size == x.1,
            (Err(e), Err(why)) => e@ == why,
            _ => false,
        },
        res matches Ok(d) ==> (d.size matches Some(size) && d.rgb@.len() == 3 * (size.0 * size.1)),
{
}

/// Text is trimmed of white space at both ends, and of nothing else.
pub proof fn trimmed_text_is_in_the_middle(s: &str, t: String)
    requires
        call_ensures(crate::text::trim, (s,), t),
    ensures
        exists|i: int, j: int|
            {
                &&& 0 <= i <= j <= s@.len()
                &&& t@ == #[trigger] s@.subrange(i, j)
                &&& forall|k: int|
                    0 <= k < i || j <= k < s@.len() ==> crate::text::is_white(#[trigger] s@[k])
            },
        t@.len() > 0 ==> !crate::text::is_white(t@[0]) && !crate::text::is_white(t@.last()),
{
    crate::text::trimmed_is_maximal(s@);
}

/// Numbers are written in two and four bytes, low byte first, and read back.
pub proof fn numbers_are_written_low_byte_first(
    out: &mut Vec<u8>,
    x: u16,
    wide: &mut Vec<u8>,
    y: u32,
    buf: &[u8],
    at: usize,
    a: u16,
    b: u32,
)
    requires
        call_ensures(crate::wire::put_u16, (out, x), ()),
        call_ensures(crate::wire::put_u32, (wide, y), ()),
        call_ensures(crate::wire::get_u16, (buf, at), a),
        call_ensures(crate::wire::get_u32, (buf, at), b),
        at + 4 <= buf@.len(),
    ensures
        ({
            let n = old(out)@.len() as int;
            let o = final(out)@;
            &&& o.len() == n + 2 && o.take(n) == old(out)@
            &&& o[n] + 256 * o[n + 1] == x
        }),
        ({
            let n = old(wide)@.len() as int;
            let o = final(wide)@;
            &&& o.len() == n + 4 && o.take(n) == old(wide)@
            &&& o[n] + 256 * o[n + 1] + 65536 * o[n + 2] + 16777216 * o[n + 3] == y
        }),
        a == buf@[at as int] + 256 * buf@[at + 1],
        b == buf@[at as int] + 256 * buf@[at + 1] + 65536 * buf@[at + 2] + 16777216 * buf@[at + 3],
{
    crate::wire::least_significant_byte_comes_first(x, y);
    crate::wire::bytes_are_weighed_by_their_places(buf@, at as int);
    assert(final(out)@.take(old(out)@.len() as int) =~= old(out)@);
    assert(final(wide)@.take(old(wide)@.len() as int) =~= old(wide)@);
}

/// What is encoded of a pass is parsed as it was, behind its header, which says how long it
/// is.
pub proof fn passes_come_back(
    screen: u8,
    number: u16,
    pass_flags: u8,
    regions: &[Region<'_>],
    out: Vec<u8>,
    bytes: &[u8],
    payload: &[u8],
    head: std::result::Result<SFrameHeader, Error>,
    res: std::result::Result<SFramePayload<'_>, Error>,
)
    requires
        call_ensures(crate::v2::encode_sframe, (screen, number, pass_flags, regions), out),
        call_ensures(crate::v2::parse_sframe_header, (bytes,), head),
        call_ensures(crate::v2::parse_sframe_payload, (payload,), res),
        bytes@ == out@,
        payload@ == out@.skip(8),
        regions@.len() <= 255,
        out@.len() <= 458760,
        crate::v2::laws::measurable(crate::v2::region_views(regions@)),
    ensures
        head matches Ok(h) && h.screen == screen && h.seq == number && h.payload_len
            == out@.len() - 8,
        res matches Ok(pass) && pass@.pass_flags == pass_flags && pass@.regions
            == crate::v2::region_views(regions@),
{
    let pass = PassView { pass_flags, regions: crate::v2::region_views(regions@) };
    let none = Seq::<u8>::empty();
    assert(crate::v2::sframe_bytes(screen, number, pass).len() == 8
        + crate::v2::payload_bytes(pass).len());
    crate::v2::laws::header_frames_the_payload(screen, number, pass, none);
    crate::v2::laws::sframe_fields_have_their_places(out@, screen, number, pass);
    crate::v2::laws::parse_undoes_encode(pass, none);
    assert(out@ + none =~= out@);
    assert(payload@ + none =~= payload@);
}

/// Loading takes a profile over and selects it; a name that is none changes nothing.
pub proof fn loaded_profiles_are_taken_over(
    c: &mut Client,
    name: &str,
    found: bool,
    store: &Store,
    p: Option<&Profile>,
)
    requires
        call_ensures(Client::load_profile, (c, name), found),
        store@ == old(c)@.store,
        call_ensures(Store::get, (store, name), p),
    ensures
        found <==> p is Some,
        !found ==> final(c)@ == old(c)@,
        p matches Some(p) ==> {
            &&& final(c)@.address == p.address@
            &&& final(c)@.settings == p.settings
            &&& final(c)@.profile_name == p.name@
            &&& final(c)@.store.last == Some(p.name@)
            &&& final(c)@.store.profiles == old(c)@.store.profiles
            &&& final(c)@.conn == old(c)@.conn
            &&& final(c)@.status == old(c)@.status
        },
{
}

/// Saving takes a name that is not all white space; what is saved is the settings and the
/// address under that name, both without white space around them.
pub proof fn profiles_are_saved_under_their_names(
    c: &mut Client,
    can: bool,
    saved: bool,
    before: &Client,
    store: &Store,
    name: &str,
    p: Option<&Profile>,
)
    requires
        before@ == old(c)@,
        call_ensures(Client::can_save, (before,), can),
        call_ensures(Client::save_profile, (c,), saved),
        store@ == final(c)@.store,
        call_ensures(Store::get, (store, name), p),
        name@ == crate::text::trimmed(old(c)@.profile_name),
    ensures
        saved == can,
        saved <==> name@.len() > 0,
        !saved ==> final(c)@ == old(c)@,
        saved ==> {
            &&& p matches Some(p) && p.settings == old(c)@.settings && p.name@ == name@
                && p.address@ == crate::text::trimmed(old(c)@.address)
            &&& final(c)@.store.last == Some(name@)
            &&& final(c)@.settings == old(c)@.settings && final(c)@.conn == old(c)@.conn
        },
{
    if saved {
        crate::profile::laws::saved_profile_is_found(old(c)@.store, old(c)@.draft(), name@);
    }
}

/// Deleting takes a name that is one, and leaves no profile of it.
pub proof fn named_profiles_are_deleted(
    c: &mut Client,
    can: bool,
    deleted: bool,
    before: &Client,
    store: &Store,
    name: &str,
    p: Option<&Profile>,
)
    requires
        before@ == old(c)@,
        call_ensures(Client::can_delete, (before,), can),
        call_ensures(Client::delete_profile, (c,), deleted),
        store@ == final(c)@.store,
        call_ensures(Store::get, (store, name), p),
        name@ == crate::text::trimmed(old(c)@.profile_name),
    ensures
        deleted == can,
        !deleted ==> final(c)@ == old(c)@,
        p is None,
        final(c)@.settings == old(c)@.settings && final(c)@.conn == old(c)@.conn,
{
    crate::profile::laws::deleted_profile_is_gone(old(c)@.store, name@, name@);
}

/// What waiting events do: the last of them that ends the connection decides, and is heard
/// after all the others. Without a connection nothing is heard.
pub proof fn endings_are_heard_last(
    c: &mut Client,
    events: VecDeque<(u64, Event)>,
    shown: Vec<Shown>,
    k: int,
)
    requires
        call_ensures(Client::drain_events, (c, events), shown),
        0 <= k < events@.len(),
    ensures
        old(c)@.conn is Idle ==> final(c)@ == old(c)@ && shown@.len() == 0,
        !(old(c)@.conn is Idle) && (forall|i: int|
            0 <= i < events@.len() ==> !((#[trigger] events@[i]).1 is Disconnected)) ==> final(
            c)@.conn is Active,
        !(old(c)@.conn is Idle) && events@[k].1 is Disconnected && (forall|i: int|
            k < i < events@.len() ==> !((#[trigger] events@[i]).1 is Disconnected)) ==> {
            &&& final(c)@.conn is Idle
            &&& final(c)@.status == events@[k].1->Disconnected_0@
        },
        final(c)@.settings == old(c)@.settings && final(c)@.store == old(c)@.store,
        final(c)@.address == old(c)@.address,
{
    let all = crate::client::event_views(events@);
    assert forall|i: int| 0 <= i < all.len() implies ((#[trigger] all[i]).1 is Disconnected
        <==> events@[i].1 is Disconnected) by {}
    if !(old(c)@.conn is Idle) {
        crate::client::laws::last_ending_decides(old(c)@, all, k);
        lemma_events_keep(old(c)@, all);
    }
}

/// Events leave the connection standing as such, and all that is the user's.
proof fn lemma_events_keep(c: ClientView, events: Seq<(u64, EventView)>)
    requires
        !(c.conn is Idle),
    ensures
        c.told_all(events).conn is Active,
        c.told_all(events).settings == c.settings,
        c.told_all(events).store == c.store,
        c.told_all(events).address == c.address,
    decreases events.len(),
{
    if events.len() > 0 {
        crate::client::laws::events_do_what_they_say(c, events[0].0, events[0].1);
        lemma_events_keep(c.told(events[0].0, events[0].1), events.drop_first());
    }
}

/// Screens are shown in the order of their events, each as it came, and counted.
pub proof fn one_event_is_heard(
    c: &mut Client,
    events: VecDeque<(u64, Event)>,
    shown: Vec<Shown>,
)
    requires
        call_ensures(Client::drain_events, (c, events), shown),
        !(old(c)@.conn is Idle),
        events@.len() == 1,
    ensures
        events@[0].1 matches Event::Screen { bottom, image, bytes, .. } ==> {
            &&& shown@.len() == 1 && shown@[0].bottom == bottom && shown@[0].image@ == image@
            &&& final(c)@ == (ClientView {
                samples: old(c)@.samples.push((events@[0].0, bytes)),
                ..old(c)@
            })
        },
        !(events@[0].1 is Screen) ==> shown@.len() == 0 && final(c)@.samples == old(c)@.samples,
        events@[0].1 matches Event::Connected ==> final(c)@.conn->connected && final(c)@.status
            == "Connected"@,
        events@[0].1 matches Event::Capabilities(a) ==> final(c)@.conn->caps == Some(a),
        events@[0].1 matches Event::Stats(s) ==> final(c)@ == (ClientView {
            stats: s@,
            ..old(c)@
        }),
        events@[0].1 matches Event::Info(s) ==> final(c)@ == (ClientView {
            status: s@,
            ..old(c)@
        }),
        events@[0].1 matches Event::Disconnected(s) ==> final(c)@ == (ClientView {
            status: s@,
            conn: Conn::Idle,
            ..old(c)@
        }),
{
    let all = crate::client::event_views(events@);
    let none = Seq::<(u64, EventView)>::empty();
    let (now, e) = all[0];
    assert(all =~= none.push((now, e)));
    crate::client::laws::each_event_is_heard(old(c)@, none, now, e);
    crate::client::laws::events_do_what_they_say(old(c)@, now, e);
    crate::client::laws::last_ending_decides(old(c)@, all, 0);
    assert(crate::client::shown_views(shown@) == crate::client::screens(all));
    if let Event::Screen { bottom, image, .. } = events@[0].1 {
        assert(crate::client::shown_views(shown@)[0] == (ShownView { bottom, image: image@ }));
        assert(shown@[0]@ == crate::client::shown_views(shown@)[0]);
    }
    assert(crate::client::shown_views(shown@).len() == shown@.len());
}

/// The configurations of a run by their places, of which those past the end are the last one.
pub proof fn configurations_have_their_places(b: &Bench, i: usize, cfg: Settings, label: String)
    requires
        b@.wf(),
        call_ensures(Bench::config, (b, i), cfg),
        call_ensures(Bench::label, (b, i), label),
    ensures
        i < b@.plan.len() ==> cfg == b@.plan[i as int],
        i >= b@.plan.len() ==> cfg == b@.plan.last(),
        label@ == crate::text::underscored(crate::bench::config_label(cfg)),
        forall|k: int| 0 <= k < label@.len() ==> #[trigger] label@[k] != ' ' && label@[k] != '=',
{
    let s = crate::bench::config_label(cfg);
    assert forall|k: int| 0 <= k < label@.len() implies #[trigger] label@[k] != ' ' && label@[k]
        != '=' by {
        crate::text::underscoring_changes_nothing_else(s, k);
    }
}

/// How far a run is, and how long it takes: 3.7 seconds for each configuration.
pub proof fn runs_are_counted(b: &Bench, done: usize, all: usize, span: u64)
    requires
        call_ensures(Bench::step, (b,), done),
        call_ensures(Bench::total, (b,), all),
        call_ensures(Bench::estimate, (all,), span),
    ensures
        done == b@.results.len(),
        all == b@.plan.len(),
        all <= 0xFFFF_FFFF ==> span == 3_700_000_000 * all,
        b@.wf() ==> (b@.phase is Done <==> done == all),
{
}

/// A picture file is made of the image's own sides and pixels, four bytes for each. An image
/// without pixels, or with too few or too many, is none.
pub proof fn pictures_are_written_as_they_are(img: &Image, res: Result<Vec<u8>, String>, i: int)
    requires
        call_ensures(crate::quality::to_png, (img,), res),
        img@.width <= 0xFFFF_FFFF,
        img@.height <= 0xFFFF_FFFF,
        4 * img@.pixels.len() <= usize::MAX,
        4 * (img@.width * img@.height) <= usize::MAX,
    ensures
        res is Ok <==> img@.width > 0 && img@.height > 0 && img.wf(),
        res matches Ok(file) ==> crate::quality::png_encoded(
            img.width as u32,
            img.height as u32,
            crate::quality::rgba(img@.pixels),
        ) == Ok::<Seq<u8>, Seq<char>>(file@),
        0 <= i < img@.pixels.len() ==> {
            let bytes = crate::quality::rgba(img@.pixels);
            &&& bytes[4 * i] == img@.pixels[i].r
            &&& bytes[4 * i + 1] == img@.pixels[i].g
            &&& bytes[4 * i + 2] == img@.pixels[i].b
            &&& bytes[4 * i + 3] == 255
        },
{
    if 0 <= i < img@.pixels.len() {
        crate::quality::pixels_are_four_bytes(img@.pixels, i);
    }
}

/// What a reader holds before the first packet: two dark screens of their sizes.
pub proof fn screens_begin_dark(r: Reader, link: Link)
    requires
        call_ensures(Reader::new, (), r),
        call_ensures(Link::new, (), link),
    ensures
        r@.top.width == 400 && r@.top.height == 240,
        r@.bottom.width == 320 && r@.bottom.height == 240,
        r@.wf(),
        !r@.warned_tga,
        link@.reader == r@,
        link@.stage is Header,
{
}

/// What is connected to: the address as it is where it names a port, and else with 6464.
pub proof fn addresses_get_a_port(addr: &str, t: String)
    requires
        call_ensures(crate::worker::target_address, (addr,), t),
    ensures
        addr@.contains(':') ==> t@ == addr@,
        !addr@.contains(':') ==> t@ == addr@ + ":6464"@,
{
    crate::worker::laws::default_port_is_added(addr@);
}

/// The first thing sent: the quality, the screens, JPEG, whether to interlace, and the start.
pub proof fn handshakes_are_five_packets(
    quality: u8,
    screen: ScreenSet,
    interlace: bool,
    out: Vec<u8>,
)
    requires
        call_ensures(crate::worker::handshake, (quality, screen, interlace), out),
    ensures
        out@.len() == 44,
        out@[0] == 4 && out@[1] == 1,
        1 <= quality <= 100 ==> out@[8] == quality,
        out@[9] == 4 && out@[10] == 3,
        out@[17] == (match screen {
            ScreenSet::Top => 1u8,
            ScreenSet::Bottom => 2,
            ScreenSet::Both => 3,
        }),
        out@[18] == 4 && out@[19] == 4 && out@[26] == 0,
        out@[27] == 4 && out@[28] == 5,
        out@[35] == (if interlace {
            1u8
        } else {
            0
        }),
        out@[36] == 2 && out@[37] == 0,
{
    crate::worker::laws::handshake_is_five_packets(quality, screen, interlace);
    crate::worker::laws::commands_have_their_bytes(Cmd::SetQuality(quality));
    crate::worker::laws::commands_have_their_bytes(Cmd::SetScreen(screen));
    crate::worker::laws::commands_have_their_bytes(Cmd::SetInterlace(interlace));
    let h = out@;
    assert(h.subrange(0, 9)[0] == h[0] && h.subrange(0, 9)[1] == h[1] && h.subrange(0, 9)[8]
        == h[8]);
    assert(h.subrange(9, 18)[0] == h[9] && h.subrange(9, 18)[1] == h[10] && h.subrange(9, 18)[8]
        == h[17]);
    assert(h.subrange(18, 27)[0] == h[18] && h.subrange(18, 27)[1] == h[19] && h.subrange(
        18,
        27,
    )[8] == h[26]);
    assert(h.subrange(27, 36)[0] == h[27] && h.subrange(27, 36)[1] == h[28] && h.subrange(
        27,
        36,
    )[8] == h[35]);
    assert(h.subrange(36, 44)[0] == h[36] && h.subrange(36, 44)[1] == h[37]);
}

/// Settings that no command of the client sends are packets of nine bytes like the others,
/// with their own codes.
pub proof fn other_settings_are_nine_bytes(on: bool, n: u8, packets: Seq<Vec<u8>>)
    requires
        packets.len() == 9,
        call_ensures(crate::legacy::encode_format_tga, (on,), packets[0]),
        call_ensures(crate::legacy::encode_downscale, (on,), packets[1]),
        call_ensures(crate::legacy::encode_stats_enabled, (on,), packets[2]),
        call_ensures(crate::legacy::encode_v2_enable, (on,), packets[3]),
        call_ensures(crate::legacy::encode_grid_cols, (n,), packets[4]),
        call_ensures(crate::legacy::encode_grid_rows, (n,), packets[5]),
        call_ensures(crate::legacy::encode_capture, (n,), packets[6]),
        call_ensures(crate::legacy::encode_init, (), packets[7]),
        call_ensures(crate::legacy::encode_disconnect, (), packets[8]),
    ensures
        forall|i: int|
            0 <= i < 7 ==> {
                let p = (#[trigger] packets[i])@;
                &&& p.len() == 9 && p[0] == 4 && p[2] == 0 && p[3] == 0 && p[4] == 1
                &&& p[5] == 0 && p[6] == 0 && p[7] == 0
            },
        packets[0]@[1] == 4 && packets[1]@[1] == 11 && packets[2]@[1] == 12,
        packets[3]@[1] == 15 && packets[4]@[1] == 16 && packets[5]@[1] == 17,
        packets[6]@[1] == 18,
        forall|i: int|
            0 <= i < 4 ==> (#[trigger] packets[i])@[8] == (if on {
                1u8
            } else {
                0
            }),
        forall|i: int| 4 <= i < 7 ==> (#[trigger] packets[i])@[8] == n,
        packets[7]@ == seq![2u8, 0u8, 0u8, 0u8, 0u8, 0u8, 0u8, 0u8],
        packets[8]@ == seq![3u8, 0u8, 0u8, 0u8, 0u8, 0u8, 0u8, 0u8],
{
}

/// What an announcement says is read byte by byte and bit by bit.
pub proof fn announcements_are_read(
    payload: &[u8],
    res: std::result::Result<Announce, Error>,
    a: &Announce,
    bit: u8,
    first: bool,
    second: bool,
)
    requires
        call_ensures(Announce::parse, (payload,), res),
        call_ensures(Announce::has, (a, bit), first),
        call_ensures(Announce::has2, (a, bit), second),
    ensures
        res is Ok <==> payload@.len() >= 2,
        res matches Ok(x) ==> {
            &&& x.revision == payload@[0]
            &&& x.features == payload@[1]
            &&& payload@.len() > 2 ==> x.features2 == payload@[2]
            &&& payload@.len() == 2 ==> x.features2 == 0
        },
        res matches Err(e) ==> e == Error::Truncated,
        first <==> a.features & bit != 0,
        second <==> a.features2 & bit != 0,
{
}

/// The bytes of the fields with few values: each byte is read as one value or as none, and a
/// value is written as the byte that is read as it.
pub proof fn small_fields_have_their_bytes(
    b: u8,
    device: Option<Device>,
    select: Option<ScreenSelect>,
    screen: Option<Screen>,
    pixfmt: Option<PixFmt>,
    interlace: Option<Interlace>,
    codec: Option<Codec>,
)
    requires
        call_ensures(Device::from_byte, (b,), device),
        call_ensures(ScreenSelect::from_byte, (b,), select),
        call_ensures(Screen::from_byte, (b,), screen),
        call_ensures(PixFmt::from_byte, (b,), pixfmt),
        call_ensures(Interlace::from_byte, (b,), interlace),
        call_ensures(Codec::from_byte, (b,), codec),
    ensures
        device is Some <==> b <= 1,
        device matches Some(x) ==> (x is Old3ds <==> b == 1),
        select is Some <==> b <= 2,
        select matches Some(x) ==> (x is Top <==> b == 0) && (x is Bottom <==> b == 1),
        screen is Some <==> b <= 1,
        screen matches Some(x) ==> (x is Top <==> b == 0),
        pixfmt is Some <==> b <= 4,
        pixfmt matches Some(x) ==> (x is Rgba8 <==> b == 0) && (x is Rgb8 <==> b == 1) && (
        x is Rgb565 <==> b == 2) && (x is Rgb5a1 <==> b == 3),
        interlace is Some <==> b <= 2,
        interlace matches Some(x) ==> (x is Progressive <==> b == 0) && (x is FieldA <==> b == 1),
        codec is Some <==> b <= 3,
        codec matches Some(x) ==> (x is Raw565 <==> b == 0) && (x is Jpeg <==> b == 1) && (
        x is Raw565Half <==> b == 2),
{
}

/// A value is written as the byte that is read as it.
pub proof fn small_fields_come_back(
    device: Device,
    select: ScreenSelect,
    screen: Screen,
    pixfmt: PixFmt,
    interlace: Interlace,
    codec: Codec,
    b: Seq<u8>,
    d: Option<Device>,
    s: Option<ScreenSelect>,
    t: Option<Screen>,
    p: Option<PixFmt>,
    i: Option<Interlace>,
    c: Option<Codec>,
)
    requires
        b.len() == 6,
        call_ensures(Device::to_byte, (device,), b[0]),
        call_ensures(ScreenSelect::to_byte, (select,), b[1]),
        call_ensures(Screen::to_byte, (screen,), b[2]),
        call_ensures(PixFmt::to_byte, (pixfmt,), b[3]),
        call_ensures(Interlace::to_byte, (interlace,), b[4]),
        call_ensures(Codec::to_byte, (codec,), b[5]),
        call_ensures(Device::from_byte, (b[0],), d),
        call_ensures(ScreenSelect::from_byte, (b[1],), s),
        call_ensures(Screen::from_byte, (b[2],), t),
        call_ensures(PixFmt::from_byte, (b[3],), p),
        call_ensures(Interlace::from_byte, (b[4],), i),
        call_ensures(Codec::from_byte, (b[5],), c),
    ensures
        d == Some(device),
        s == Some(select),
        t == Some(screen),
        p == Some(pixfmt),
        i == Some(interlace),
        c == Some(codec),
{
}

/// What a selection of screens is called, sent as and shown as. Anything but 2 and 3 is the
/// top screen.
pub proof fn selections_have_names(s: &Settings, set: ScreenSet, name: &'static str, b: u8)
    requires
        call_ensures(Settings::screen_set, (s,), set),
        call_ensures(Settings::screen_label, (s,), name),
        call_ensures(ScreenSet::to_byte, (set,), b),
    ensures
        s.screen == 2 ==> set is Bottom && name@ == "Bottom"@ && b == 2,
        s.screen == 3 ==> set is Both && name@ == "Both"@ && b == 3,
        s.screen != 2 && s.screen != 3 ==> set is Top && name@ == "Top"@ && b == 1,
{
}

/// The selected profile is shown by its name, and as a dash where none is selected.
pub proof fn selected_profiles_are_named(c: &Client, s: String)
    requires
        call_ensures(Client::selected_label, (c,), s),
    ensures
        c@.store.last matches Some(name) ==> name.len() > 0 ==> s@ == name,
        c@.store.last is None ==> s@ == "\u{2014}"@,
        s@.len() > 0,
{
    reveal_strlit("\u{2014}");
}

/// Screens are 400 and 320 pixels wide.
pub proof fn screens_have_their_widths(screen: Screen, w: u32, img: &ImageInfo, v: usize)
    requires
        call_ensures(Screen::width, (screen,), w),
        call_ensures(ImageInfo::screen_width, (img,), v),
    ensures
        w == (if screen is Top {
            400u32
        } else {
            320
        }),
        v == (if img.bottom {
            320usize
        } else {
            400
        }),
{
}

/// Text that is put together: numbers in decimal, without zeros in front, and bytes as two
/// hexadecimal digits, behind what is there.
pub proof fn numbers_are_put_behind(
    out: &mut String,
    n: u64,
    hex: &mut String,
    b: u8,
)
    requires
        call_ensures(crate::text::put_decimal, (out, n), ()),
        call_ensures(crate::text::put_hex2, (hex, b), ()),
    ensures
        ({
            let k = old(out)@.len() as int;
            let digits = final(out)@.skip(k);
            &&& final(out)@.len() > k && final(out)@.take(k) == old(out)@
            &&& crate::text::value(digits) == n
            &&& digits.len() > 1 ==> digits[0] != '0'
        }),
        ({
            let k = old(hex)@.len() as int;
            let after = final(hex)@;
            &&& after.len() == k + 2 && after.take(k) == old(hex)@
            &&& b / 16 < 10 ==> after[k] as u32 == 48 + b / 16
            &&& b / 16 >= 10 ==> after[k] as u32 == 87 + b / 16
            &&& b % 16 < 10 ==> after[k + 1] as u32 == 48 + b % 16
            &&& b % 16 >= 10 ==> after[k + 1] as u32 == 87 + b % 16
        }),
{
    crate::text::decimal_is_read_back(n as nat);
    crate::text::hexadecimal_is_two_halves(b);
    let d = crate::text::decimal(n as nat);
    assert(final(out)@.skip(old(out)@.len() as int) =~= d);
    assert(final(out)@.take(old(out)@.len() as int) =~= old(out)@);
    assert(final(hex)@.take(old(hex)@.len() as int) =~= old(hex)@);
}

/// What is asked of a text: whether a character is white space or in it, and whether two are
/// the same; and how it is made fit for a file's name.
pub proof fn texts_are_looked_through(
    s: &str,
    t: &str,
    c: char,
    white: bool,
    there: bool,
    same: bool,
    name: String,
    i: int,
)
    requires
        call_ensures(crate::text::is_whitespace, (c,), white),
        call_ensures(crate::text::contains_char, (s, c), there),
        call_ensures(crate::text::same_text, (s, t), same),
        call_ensures(crate::text::underscore, (s,), name),
        0 <= i < s@.len(),
    ensures
        white <==> crate::text::is_white(c),
        c == ' ' || c == '\n' || c == '\t' ==> white,
        'a' <= c <= 'z' || '0' <= c <= '9' || c == ':' || c == '.' ==> !white,
        s@[i] == c ==> there,
        there ==> exists|k: int| 0 <= k < s@.len() && #[trigger] s@[k] == c,
        same <==> s@ == t@,
        name@.len() == s@.len(),
        name@[i] == (if s@[i] == ' ' || s@[i] == '=' {
            '_'
        } else {
            s@[i]
        }),
{
    crate::text::underscoring_changes_nothing_else(s@, i);
    crate::text::white_space_is_these(c);
}

/// Bytes are appended as they are and cut off from the front, and of a length the low 32 bits
/// count.
pub proof fn bytes_are_passed_on(
    out: &mut Vec<u8>,
    bytes: &[u8],
    n: usize,
    rest: &[u8],
    len: usize,
    low: u32,
)
    requires
        call_ensures(crate::wire::put_bytes, (out, bytes), ()),
        n <= bytes@.len(),
        call_ensures(crate::wire::tail, (bytes, n), rest),
        call_ensures(crate::wire::low_u32, (len,), low),
    ensures
        final(out)@ == old(out)@ + bytes@,
        bytes@ == bytes@.take(n as int) + rest@,
        len <= 0xFFFF_FFFF ==> low == len,
        (len - low) % 0x1_0000_0000 == 0,
{
    assert(bytes@ =~= bytes@.take(n as int) + bytes@.skip(n as int));
}

/// Numbers with fractions are looked at by their bits: not less than itself, and one that is
/// no number is neither less than, nor the same as, any.
pub proof fn singles_are_compared(
    bits: u32,
    a: Single,
    b: Single,
    nan: bool,
    less: bool,
    same: bool,
)
    requires
        call_ensures(Single::from_bits, (bits,), a),
        call_ensures(Single::is_nan, (a,), nan),
        call_ensures(Single::less, (a, b), less),
        call_ensures(Single::equals, (a, b), same),
    ensures
        a.bits == bits,
        nan <==> 0x7F80_0000 < bits < 0x8000_0000 || bits > 0xFF80_0000,
        nan ==> !less && !same,
        bits <= 0x7F80_0000 && b.bits <= 0x7F80_0000 ==> (less <==> bits < b.bits) && (same
            <==> bits == b.bits),
        0x8000_0000 < bits <= 0xFF80_0000 && b.bits <= 0x7F80_0000 ==> less && !same,
        0x8000_0000 <= bits <= 0xFF80_0000 && 0x8000_0000 <= b.bits <= 0xFF80_0000 ==> (less
            <==> bits > b.bits) && (same <==> bits == b.bits),
{
    crate::single::patterns_are_ordered_as_numbers(a, b);
}

/// What a run shows of itself: what was measured of a configuration, the best of scores, its
/// summary and its table, and what it does right now.
pub proof fn runs_show_what_they_hold(
    b: &Bench,
    i: usize,
    r: Outcome,
    s: Option<&String>,
    rows: &Vec<BenchResult>,
    now: String,
    k: int,
)
    requires
        b@.wf(),
        i < b@.results.len(),
        call_ensures(Bench::outcome, (b, i), r),
        call_ensures(Bench::summary, (b,), s),
        call_ensures(Bench::table, (b,), rows),
        call_ensures(Bench::describe_current, (b,), now),
    ensures
        r == b@.results[i as int],
        s is Some <==> b@.summary is Some,
        s matches Some(s) ==> b@.summary == Some(s@),
        rows@.len() == b@.table.len(),
        0 <= k < rows@.len() ==> rows@[k]@ == b@.table[k],
        b@.results.len() < b@.plan.len() ==> now@ == crate::bench::config_label(
            b@.plan[b@.results.len() as int],
        ),
{
    if 0 <= k < rows@.len() {
        assert(crate::bench::row_views(rows@)[k] == rows@[k]@);
    }
}

/// A `HELLO` and a `CONFIG` are read byte by byte: the letters FLRY, the version, low byte
/// first, and the device; the quality, moved into 1 to 100, the screens, the format, and
/// whether to interlace.
pub proof fn hellos_and_configs_are_read_byte_by_byte(
    payload: &[u8],
    hello: std::result::Result<Message, Error>,
    config: std::result::Result<Message, Error>,
)
    requires
        call_ensures(Message::decode, (0x80u8, payload), hello),
        call_ensures(Message::decode, (0x02u8, payload), config),
        payload@.len() >= 8,
    ensures
        ({
            let p = payload@;
            let magic = p[0] == 0x46 && p[1] == 0x4C && p[2] == 0x52 && p[3] == 0x59;
            &&& hello is Ok <==> magic && p[6] <= 1
            &&& hello matches Ok(m) ==> (m matches Message::Hello(h) && h.proto_version == p[4]
                + 256 * p[5] && (h.device is Old3ds <==> p[6] == 1))
            &&& !magic ==> (hello matches Err(Error::BadMagic(b)) && b@ == p.take(4))
            &&& config is Ok <==> p[1] <= 2 && p[2] <= 1
            &&& config matches Ok(m) ==> (m matches Message::Config(c) && {
                &&& p[0] < 1 ==> c.quality == 1
                &&& 1 <= p[0] <= 100 ==> c.quality == p[0]
                &&& p[0] > 100 ==> c.quality == 100
                &&& c.screens is Top <==> p[1] == 0
                &&& c.screens is Bottom <==> p[1] == 1
                &&& c.format is Tga <==> p[2] == 1
                &&& c.interlace <==> p[3] != 0
            })
        }),
{
    let p = payload@;
    crate::v1::laws::hello_fields_have_their_places(
        p,
        Hello { proto_version: 0, device: Device::New3ds },
    );
    crate::v1::laws::config_fields_have_their_places(
        p,
        Config {
            quality: 1,
            screens: ScreenSelect::Top,
            format: ImageFormat::Jpeg,
            interlace: false,
        },
    );
    if let Err(Error::BadMagic(b)) = hello {
        assert(b@ =~= p.take(4));
    }
}

/// A `HELLO` and a `CONFIG` are written byte by byte.
pub proof fn hellos_and_configs_are_written_byte_by_byte(m: &Message, p: Vec<u8>)
    requires
        call_ensures(Message::encode_payload, (m,), p),
    ensures
        *m matches Message::Hello(h) ==> {
            let q = p@;
            &&& q.len() == 8
            &&& q[0] == 0x46 && q[1] == 0x4C && q[2] == 0x52 && q[3] == 0x59
            &&& q[4] + 256 * q[5] == h.proto_version
            &&& q[6] <= 1 && (h.device is Old3ds <==> q[6] == 1)
            &&& q[7] == 0
        },
        *m matches Message::Config(c) ==> {
            let q = p@;
            &&& q.len() == 4
            &&& q[0] == c.quality
            &&& q[1] <= 2 && (c.screens is Top <==> q[1] == 0) && (c.screens is Bottom <==> q[1]
                == 1)
            &&& q[2] <= 1 && (c.format is Tga <==> q[2] == 1)
            &&& q[3] <= 1 && (c.interlace <==> q[3] == 1)
        },
{
    if let Message::Hello(h) = *m {
        crate::v1::laws::hello_fields_have_their_places(p@, h);
    }
    if let Message::Config(c) = *m {
        crate::v1::laws::config_fields_have_their_places(p@, c);
    }
}

/// Every message has its own type, and what is of no known type is reported as such.
pub proof fn messages_are_known_by_their_types(
    m: &Message,
    t: u8,
    kind: u8,
    payload: &[u8],
    res: std::result::Result<Message, Error>,
)
    requires
        call_ensures(Message::msg_type, (m,), t),
        call_ensures(Message::decode, (kind, payload), res),
    ensures
        match *m {
            Message::Config(_) => t == 0x02,
            Message::Start => t == 0x03,
            Message::Stop => t == 0x04,
            Message::Disconnect => t == 0x05,
            Message::Debug(_) => t == 0x7F,
            Message::Hello(_) => t == 0x80,
            Message::Frame { .. } => t == 0x81,
            Message::Stats(_) => t == 0x82,
            Message::Error { .. } => t == 0xFF,
        },
        kind != 0x02 && kind != 0x03 && kind != 0x04 && kind != 0x05 && kind != 0x7F && kind != 0x80
            && kind != 0x81 && kind != 0x82 && kind != 0xFF ==> (res matches Err(
            Error::UnknownType(k),
        ) && k == kind),
        kind == 0x03 ==> (res matches Ok(n) && n is Start),
        kind == 0x04 ==> (res matches Ok(n) && n is Stop),
        kind == 0x05 ==> (res matches Ok(n) && n is Disconnect),
        kind == 0xFF && payload@.len() == 0 ==> (res matches Err(e) && e == Error::Truncated),
        kind == 0xFF && payload@.len() > 0 ==> (res matches Ok(Message::Error { code, .. })
            && code == payload@[0]),
{
    crate::v1::laws::messages_have_their_types(m@);
    crate::v1::laws::unknown_types(kind, payload@);
}

/// The header and the first region of a pass are read byte by byte.
pub proof fn passes_are_read_byte_by_byte(
    buf: &[u8],
    head: std::result::Result<SFrameHeader, Error>,
    payload: &[u8],
    res: std::result::Result<SFramePayload<'_>, Error>,
)
    requires
        call_ensures(crate::v2::parse_sframe_header, (buf,), head),
        call_ensures(crate::v2::parse_sframe_payload, (payload,), res),
        buf@.len() >= 8,
    ensures
        ({
            let b = buf@;
            let n = b[4] + 256 * b[5] + 65536 * b[6] + 16777216 * b[7];
            &&& head is Ok <==> b[0] == 0x90 && n <= 458752
            &&& head matches Ok(h) ==> h.screen == b[1] && h.seq == b[2] + 256 * b[3]
                && h.payload_len == n
        }),
        payload@.len() < 4 ==> (res matches Err(e) && e == Error::Truncated),
        payload@.len() >= 4 && payload@[1] == 0 ==> (res matches Ok(pass) && pass@.pass_flags
            == payload@[0] && pass@.regions.len() == 0),
        res matches Ok(pass) ==> payload@[1] > 0 ==> {
            let p = payload@;
            let n = p[14] + 256 * p[15] + 65536 * p[16] + 16777216 * p[17];
            let r = pass@.regions[0];
            &&& pass@.pass_flags == p[0]
            &&& pass@.regions.len() == p[1]
            &&& r.x == p[4] + 256 * p[5]
            &&& r.y == p[6] + 256 * p[7]
            &&& r.w == p[8] + 256 * p[9]
            &&& r.h == p[10] + 256 * p[11]
            &&& p[12] <= 3
            &&& r.codec is Raw565 <==> p[12] == 0
            &&& r.codec is Jpeg <==> p[12] == 1
            &&& r.codec is Raw565Half <==> p[12] == 2
            &&& r.flags == p[13]
            &&& r.data == p.subrange(18, 18 + n)
        },
{
    let p = payload@;
    let none = PassView { pass_flags: 0, regions: Seq::empty() };
    crate::v2::laws::sframe_fields_have_their_places(buf@, 0, 0, none);
    if p.len() >= 4 {
        crate::v2::laws::pass_fields_have_their_places(p, none);
        if p[1] > 0 {
            crate::v2::laws::region_fields_are_read_in_their_places(p, 4, p[1] as nat);
            crate::v2::laws::lemma_region_count(p, 4, p[1] as nat);
        }
    }
}

/// The best of scores is a number that no score exceeds.
pub proof fn the_best_score_is_a_bound(scores: &[Single], res: (usize, Single), i: int)
    requires
        call_ensures(Bench::best, (scores,), res),
        0 <= i < scores@.len(),
    ensures
        !res.1.nan() && !res.1.lt(scores@[i]),
        i < res.0 ==> !res.1.same(scores@[i]),
        res.1.bits == 0xFF7F_FFFF && res.0 == 0 || res.0 < scores@.len() && res.1
            == scores@[res.0 as int],
{
    crate::order::only_numbers_win(scores@, scores@.len(), i);
}

/// Where the pixels of a piece land that is pasted from column `left` on, on a screen of any
/// width: one row is one column, its first pixel at the bottom; what is interlaced takes two
/// rows for each pixel, and what is downscaled two columns and two rows as well. What does
/// not fit lies on the top row. All other pixels stay as they are. A new screen is dark gray.
pub proof fn pieces_are_pasted_as_columns(
    fresh: ScreenBuf,
    width: usize,
    buf: &mut ScreenBuf,
    rgb: &[u8],
    iw: usize,
    ih: usize,
    left: usize,
    interlaced: bool,
    downscaled: bool,
    x: int,
    y: int,
)
    requires
        call_ensures(ScreenBuf::new, (width,), fresh),
        width * 240 <= usize::MAX,
        call_ensures(ScreenBuf::paste, (buf, rgb, iw, ih, left, interlaced, downscaled), ()),
        old(buf).wf(),
        rgb@.len() >= 3 * (iw * ih),
        0 <= x < old(buf).image@.width,
        x < width,
        0 <= y < 240,
    ensures
        fresh.image@.width == width && fresh.image@.height == 240,
        ({
            let dark = fresh.image@.pixels[y * width + x];
            dark.r == 20 && dark.g == 20 && dark.b == 20
        }),
        final(buf).image@.width == old(buf).image@.width,
        ({
            let place = y * old(buf).image@.width + x;
            let (was, is) = (old(buf).image@.pixels[place], final(buf).image@.pixels[place]);
            let (wide, high) = if downscaled {
                (2 * ih, 2 * iw)
            } else {
                (ih as int, iw as int)
            };
            let (up, full) = if interlaced {
                ((239 - y) / 2, 120int)
            } else {
                (239 - y, 240int)
            };
            let (row, column) = if downscaled {
                ((x - left) / 2, up / 2)
            } else {
                (x - left, up)
            };
            let mine = (row * iw + column) * 3;
            let last = (row * iw + iw - 1) * 3;
            let beside = left <= x < left + wide;
            &&& !beside || up >= high ==> is == was
            &&& beside && up < high && (y > 0 || high <= full) ==> {
                &&& is.b == rgb@[mine]
                &&& is.g == rgb@[mine + 1]
                &&& is.r == rgb@[mine + 2]
            }
            &&& beside && y == 0 && high > full ==> is.b == rgb@[last] && is.g
                == rgb@[last + 1] && is.r == rgb@[last + 2]
        }),
{
    crate::picture::pasted_place_by_place(
        old(buf).image@,
        rgb@,
        iw as int,
        ih as int,
        left as int,
        interlaced,
        downscaled,
        x,
        y,
    );
    assert(0 <= y * width + x < width * 240) by (nonlinear_arith)
        requires
            0 <= x < width,
            0 <= y < 240,
    ;
}

} // verus!
