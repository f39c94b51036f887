//! What the network worker says to the 3DS, and what it makes of the 3DS's
//! packets. Sockets and threads are the caller's.

pub mod laws;

use crate::jpeg::{Decoded, DecodedView};
use crate::legacy::{Announce, ImageInfo, PacketInfo, ScreenSet, HEADER_LEN};
use crate::legacy::{meta, pkt, setting};
use crate::picture::{Image, ImageView, ScreenBuf};
use crate::text;
use crate::v1::PORT;
use vstd::prelude::*;
use vstd::string::*;

verus! {

/// What the user interface asks of the worker.
#[derive(Debug, Clone, Copy, PartialEq, Eq, Structural)]
pub enum Cmd {
    SetQuality(u8),
    SetScreen(ScreenSet),
    SetInterlace(bool),
    SetStripSkip(bool),
    SetRefreshInterval(u8),
    SetFpsCap(u8),
    SetChunks(u8),
    SetStripSleep(u8),
    Disconnect,
}

impl Cmd {
    /// The packet that carries this command out.
    pub open spec fn packet(self) -> Seq<u8> {
        match self {
            Cmd::SetQuality(q) => crate::legacy::setting_bytes(
                setting::QUALITY,
                crate::v1::clamped_quality(q),
            ),
            Cmd::SetScreen(s) => crate::legacy::setting_bytes(setting::SCREEN, s.code()),
            Cmd::SetInterlace(on) => crate::legacy::setting_bytes(
                setting::INTERLACE,
                crate::legacy::flag(on),
            ),
            Cmd::SetStripSkip(on) => crate::legacy::setting_bytes(
                setting::STRIP_SKIP,
                crate::legacy::flag(on),
            ),
            Cmd::SetRefreshInterval(n) => crate::legacy::setting_bytes(
                setting::REFRESH_INTERVAL,
                n,
            ),
            Cmd::SetFpsCap(f) => crate::legacy::setting_bytes(setting::FPS_CAP, f),
            Cmd::SetChunks(c) => crate::legacy::setting_bytes(setting::CHUNKS, c),
            Cmd::SetStripSleep(ms) => crate::legacy::setting_bytes(setting::STRIP_SLEEP, ms),
            Cmd::Disconnect => goodbye_packet(),
        }
    }

    /// The packet that carries this command out, and whether the connection ends
    /// with it.
    pub fn encode(self) -> (res: (Vec<u8>, bool))
        ensures
            res.0@ == self.packet(),
            res.1 == (self is Disconnect),
    {
        match self {
            Cmd::SetQuality(q) => (crate::legacy::encode_quality(q), false),
            Cmd::SetScreen(s) => (crate::legacy::encode_screen(s), false),
            Cmd::SetInterlace(on) => (crate::legacy::encode_interlace(on), false),
            Cmd::SetStripSkip(on) => (crate::legacy::encode_strip_skip(on), false),
            Cmd::SetRefreshInterval(n) => (crate::legacy::encode_refresh_interval(n), false),
            Cmd::SetFpsCap(f) => (crate::legacy::encode_fps_cap(f), false),
            Cmd::SetChunks(c) => (crate::legacy::encode_chunks(c), false),
            Cmd::SetStripSleep(ms) => (crate::legacy::encode_strip_sleep(ms), false),
            Cmd::Disconnect => (crate::legacy::encode_disconnect(), true),
        }
    }
}

/// The packet that ends a connection.
pub open spec fn goodbye_packet() -> Seq<u8> {
    crate::legacy::packet_bytes(pkt::DISCONNECT, 0, Seq::empty())
}

/// What the worker tells the user interface.
#[derive(Debug, PartialEq, Eq)]
pub enum Event {
    Connected,
    /// An extended sysmodule announced its feature set.
    Capabilities(Announce),
    /// A screen changed. `bottom` selects which; `bytes` is the size of the packet
    /// on the wire (for the bandwidth meter); `chunk` is the strip index of a
    /// chunked (Old 3DS) frame.
    Screen { bottom: bool, image: Image, bytes: usize, chunk: Option<u8> },
    Stats(String),
    /// A notice that ends nothing (error text of the 3DS, unsupported format).
    Info(String),
    /// The worker ended; the reason is for humans.
    Disconnected(String),
}

/// An event's contents.
#[verifier::ext_equal]
pub enum EventView {
    Connected,
    Capabilities(Announce),
    Screen { bottom: bool, image: ImageView, bytes: nat, chunk: Option<u8> },
    Stats(Seq<char>),
    Info(Seq<char>),
    Disconnected(Seq<char>),
}

impl View for Event {
    type V = EventView;

    open spec fn view(&self) -> EventView {
        match *self {
            Event::Connected => EventView::Connected,
            Event::Capabilities(a) => EventView::Capabilities(a),
            Event::Screen { bottom, image, bytes, chunk } => EventView::Screen {
                bottom,
                image: image@,
                bytes: bytes as nat,
                chunk,
            },
            Event::Stats(s) => EventView::Stats(s@),
            Event::Info(s) => EventView::Info(s@),
            Event::Disconnected(s) => EventView::Disconnected(s@),
        }
    }
}

/// The contents of an event, where there is one.
pub open spec fn event_view(e: Option<Event>) -> Option<EventView> {
    match e {
        Some(e) => Some(e@),
        None => None,
    }
}

/// The address to connect to: the one given, with the protocol's port where it
/// names none.
pub open spec fn target(addr: Seq<char>) -> Seq<char> {
    if addr.contains(':') {
        addr
    } else {
        addr + ":"@ + text::decimal(PORT as nat)
    }
}

/// The address to connect to.
pub fn target_address(addr: &str) -> (t: String)
    ensures
        t@ == target(addr@),
{
    let mut t = addr.to_owned();
    if !text::contains_char(addr, ':') {
        t.append(":");
        text::put_decimal(&mut t, PORT as u64);
    }
    t
}

/// What has to succeed before a connection stands.
#[derive(Debug, Clone, Copy, PartialEq, Eq, Structural)]
pub enum Attempt {
    Connect,
    CloneSocket,
    Handshake,
}

/// What to say of a failed attempt to connect to `target`.
pub open spec fn failure(attempt: Attempt, target: Seq<char>, why: Seq<char>) -> Seq<char> {
    match attempt {
        Attempt::Connect => "connect to "@ + target + " failed: "@ + why,
        Attempt::CloneSocket => "socket clone failed: "@ + why,
        Attempt::Handshake => "handshake write failed: "@ + why,
    }
}

/// The event that tells of a failed attempt to connect to `target`.
pub fn attempt_failed(attempt: Attempt, target: &str, why: &str) -> (event: Event)
    ensures
        event@ == EventView::Disconnected(failure(attempt, target@, why@)),
{
    let text = match attempt {
        Attempt::Connect => {
            let mut s = joined("connect to ", target);
            s.append(" failed: ");
            s.append(why);
            s
        },
        Attempt::CloneSocket => joined("socket clone failed: ", why),
        Attempt::Handshake => joined("handshake write failed: ", why),
    };
    Event::Disconnected(text)
}

/// What the client sends first: the initial settings, then the packet that starts
/// the stream.
pub open spec fn handshake_bytes(quality: u8, screen: ScreenSet, interlace: bool) -> Seq<u8> {
    Cmd::SetQuality(quality).packet() + Cmd::SetScreen(screen).packet()
        + crate::legacy::setting_bytes(setting::FORMAT, crate::legacy::flag(false))
        + Cmd::SetInterlace(interlace).packet() + crate::legacy::packet_bytes(
        pkt::INIT,
        0,
        Seq::empty(),
    )
}

/// What the client sends first.
pub fn handshake(quality: u8, screen: ScreenSet, interlace: bool) -> (out: Vec<u8>)
    ensures
        out@ == handshake_bytes(quality, screen, interlace),
{
    let mut out = crate::legacy::encode_quality(quality);
    crate::wire::put_bytes(&mut out, crate::legacy::encode_screen(screen).as_slice());
    crate::wire::put_bytes(&mut out, crate::legacy::encode_format_tga(false).as_slice());
    crate::wire::put_bytes(&mut out, crate::legacy::encode_interlace(interlace).as_slice());
    crate::wire::put_bytes(&mut out, crate::legacy::encode_init().as_slice());
    out
}

/// `a` followed by `b`.
fn joined(a: &str, b: &str) -> (s: String)
    ensures
        s@ == a@ + b@,
{
    let mut s = a.to_owned();
    s.append(b);
    s
}

/// Width of the top screen in pixels.
pub const TOP_WIDTH: usize = 400;

/// Width of the bottom screen in pixels.
pub const BOTTOM_WIDTH: usize = 320;

/// What the reading side remembers from packet to packet.
#[derive(Debug, PartialEq, Eq)]
pub struct Reader {
    top: ScreenBuf,
    bottom: ScreenBuf,
    warned_tga: bool,
}

/// The contents of a reader.
#[verifier::ext_equal]
pub struct ReaderView {
    pub top: ImageView,
    pub bottom: ImageView,
    /// Whether the notice on TGA frames was given.
    pub warned_tga: bool,
}

impl View for Reader {
    type V = ReaderView;

    closed spec fn view(&self) -> ReaderView {
        ReaderView {
            top: self.top.image@,
            bottom: self.bottom.image@,
            warned_tga: self.warned_tga,
        }
    }
}

impl ReaderView {
    /// Whether both screens have their sizes.
    pub open spec fn wf(self) -> bool {
        &&& self.top.wf() && self.top.width == TOP_WIDTH && self.top.height == 240
        &&& self.bottom.wf() && self.bottom.width == BOTTOM_WIDTH && self.bottom.height == 240
    }

    /// One of the two screens.
    pub open spec fn screen(self, bottom: bool) -> ImageView {
        if bottom {
            self.bottom
        } else {
            self.top
        }
    }

    /// The same but for one screen.
    pub open spec fn with_screen(self, bottom: bool, image: ImageView) -> ReaderView {
        if bottom {
            ReaderView { bottom: image, ..self }
        } else {
            ReaderView { top: image, ..self }
        }
    }
}

/// A reader before the first packet.
pub open spec fn fresh_reader() -> ReaderView {
    ReaderView {
        top: crate::picture::blank(TOP_WIDTH as nat),
        bottom: crate::picture::blank(BOTTOM_WIDTH as nat),
        warned_tga: false,
    }
}

/// The notice on a TGA frame: given once.
pub open spec fn tga_noticed(s: ReaderView) -> (ReaderView, Option<EventView>) {
    if s.warned_tga {
        (s, None)
    } else {
        (
            ReaderView { warned_tga: true, ..s },
            Some(
                EventView::Info("TGA frames not supported yet \u{2014} switch format to JPEG"@),
            ),
        )
    }
}

/// The screen column where a piece goes: strips stand side by side, each as wide as
/// it is shown.
pub open spec fn column_offset(img: ImageInfo, ih: int) -> int {
    match img.chunk {
        Some(i) => i * crate::picture::spread(ih, img.downscaled),
        None => 0,
    }
}

/// What becomes of a decoder's answer to an image packet of `bytes` bytes on the
/// wire: an error is reported; an image of unknown size is dropped; one with too
/// few pixels is reported; any other is pasted into its screen, which is then
/// shown.
pub open spec fn image_applied(
    s: ReaderView,
    img: ImageInfo,
    bytes: nat,
    answer: std::result::Result<DecodedView, Seq<char>>,
) -> (ReaderView, Option<EventView>) {
    match answer {
        Err(e) => (s, Some(EventView::Info("JPEG decode failed: "@ + e))),
        Ok(d) => match d.size {
            None => (s, None),
            Some(size) => {
                let (iw, ih) = (size.0 as int, size.1 as int);
                if d.rgb.len() < iw * ih * 3 {
                    (s, Some(EventView::Info(mismatch(iw as nat, ih as nat, d.rgb.len()))))
                } else {
                    let image = crate::picture::pasted(
                        s.screen(img.bottom),
                        d.rgb,
                        iw,
                        ih,
                        column_offset(img, ih),
                        img.interlaced,
                        img.downscaled,
                    );
                    (
                        s.with_screen(img.bottom, image),
                        Some(
                            EventView::Screen {
                                bottom: img.bottom,
                                image,
                                bytes,
                                chunk: img.chunk,
                            },
                        ),
                    )
                }
            },
        },
    }
}

/// The notice on a decoded image with too few bytes.
pub open spec fn mismatch(iw: nat, ih: nat, n: nat) -> Seq<char> {
    "unexpected decode output: "@ + text::decimal(iw) + "x"@ + text::decimal(ih) + " but "@
        + text::decimal(n) + " bytes"@
}

/// What becomes of a whole packet. Packets of unknown type change nothing.
pub open spec fn handled(s: ReaderView, info: PacketInfo, payload: Seq<u8>) -> (
    ReaderView,
    Option<EventView>,
) {
    if info.ptype == pkt::IMAGE {
        let img = crate::legacy::unpacked(info.subtype, info.subtype_b);
        if img.tga {
            tga_noticed(s)
        } else {
            image_applied(
                s,
                img,
                (HEADER_LEN + payload.len()) as nat,
                crate::jpeg::decoded_file(payload),
            )
        }
    } else if info.ptype == pkt::META {
        (s, meta_event(info.subtype, payload))
    } else {
        (s, None)
    }
}

/// What a `META` packet says.
pub open spec fn meta_event(subtype: u8, payload: Seq<u8>) -> Option<EventView> {
    if subtype == meta::STATS {
        Some(EventView::Stats(text::text_of(payload)))
    } else if subtype == meta::ANNOUNCE {
        match Announce::parsed(payload) {
            Ok(a) => Some(EventView::Capabilities(a)),
            Err(_) => None,
        }
    } else {
        Some(EventView::Info("3DS: "@ + text::text_of(payload)))
    }
}

impl Reader {
    /// Whether both screens have their sizes.
    pub closed spec fn wf(self) -> bool {
        self.top.wf() && self.bottom.wf() && self@.wf()
    }

    /// A reader before the first packet.
    pub fn new() -> (r: Reader)
        ensures
            r.wf(),
            r@ == fresh_reader(),
    {
        Reader {
            top: ScreenBuf::new(TOP_WIDTH),
            bottom: ScreenBuf::new(BOTTOM_WIDTH),
            warned_tga: false,
        }
    }

    /// Takes note of a TGA frame.
    fn notice_tga(&mut self) -> (event: Option<Event>)
        requires
            old(self).wf(),
        ensures
            final(self).wf(),
            (final(self)@, event_view(event)) == tga_noticed(old(self)@),
    {
        if self.warned_tga {
            None
        } else {
            self.warned_tga = true;
            Some(
                Event::Info(
                    "TGA frames not supported yet \u{2014} switch format to JPEG".to_owned(),
                ),
            )
        }
    }

    /// Takes a decoder's answer to an image packet of `bytes` bytes on the wire.
    pub fn apply_image(
        &mut self,
        img: ImageInfo,
        bytes: usize,
        answer: std::result::Result<Decoded, String>,
    ) -> (event: Option<Event>)
        requires
            old(self).wf(),
        ensures
            final(self).wf(),
            (final(self)@, event_view(event)) == image_applied(
                old(self)@,
                img,
                bytes as nat,
                crate::jpeg::answer(answer),
            ),
    {
        let decoded = match answer {
            Ok(d) => d,
            Err(e) => {
                return Some(Event::Info(joined("JPEG decode failed: ", e.as_str())));
            },
        };
        let (iw, ih) = match decoded.size {
            Some(size) => size,
            None => {
                return None;
            },
        };
        if !enough(decoded.rgb.as_slice(), iw, ih) {
            let mut s = "unexpected decode output: ".to_owned();
            text::put_decimal(&mut s, iw as u64);
            s.append("x");
            text::put_decimal(&mut s, ih as u64);
            s.append(" but ");
            text::put_decimal(&mut s, decoded.rgb.len() as u64);
            s.append(" bytes");
            return Some(Event::Info(s));
        }
        if img.bottom {
            paste_piece(&mut self.bottom, &img, decoded.rgb.as_slice(), iw, ih);
            Some(
                Event::Screen {
                    bottom: true,
                    image: self.bottom.image.clone(),
                    bytes,
                    chunk: img.chunk,
                },
            )
        } else {
            paste_piece(&mut self.top, &img, decoded.rgb.as_slice(), iw, ih);
            Some(
                Event::Screen {
                    bottom: false,
                    image: self.top.image.clone(),
                    bytes,
                    chunk: img.chunk,
                },
            )
        }
    }

    /// Takes a whole packet. A JPEG frame that can be decoded is shown, and any other
    /// is reported.
    pub fn handle_packet(&mut self, info: &PacketInfo, payload: &[u8]) -> (event: Option<Event>)
        requires
            old(self).wf(),
            HEADER_LEN + payload@.len() <= usize::MAX,
        ensures
            final(self).wf(),
            (final(self)@, event_view(event)) == handled(old(self)@, *info, payload@),
            info.ptype == pkt::IMAGE && !crate::legacy::unpacked(info.subtype, info.subtype_b).tga
                ==> match crate::jpeg::decoded_file(payload@) {
                Ok(_) => event matches Some(Event::Screen { .. }),
                Err(_) => event matches Some(Event::Info(_)),
            },
    {
        if info.ptype == pkt::IMAGE {
            let img = ImageInfo::from_packet(info);
            if img.tga {
                self.notice_tga()
            } else {
                self.apply_image(img, HEADER_LEN + payload.len(), crate::jpeg::decode_file(payload))
            }
        } else if info.ptype == pkt::META {
            read_meta(info.subtype, payload)
        } else {
            None
        }
    }
}

/// Whether there are three bytes for each of `iw` by `ih` pixels.
fn enough(rgb: &[u8], iw: usize, ih: usize) -> (b: bool)
    ensures
        b == (rgb@.len() >= iw * ih * 3),
{
    let len: usize = rgb.len();
    match iw.checked_mul(ih) {
        Some(n) => match n.checked_mul(3) {
            Some(total) => len >= total,
            None => false,
        },
        None => false,
    }
}

/// Pastes a piece where it belongs on its screen.
fn paste_piece(buf: &mut ScreenBuf, img: &ImageInfo, rgb: &[u8], iw: usize, ih: usize)
    requires
        old(buf).wf(),
        rgb@.len() >= iw * ih * 3,
    ensures
        final(buf).wf(),
        final(buf).image@ == crate::picture::pasted(
            old(buf).image@,
            rgb@,
            iw as int,
            ih as int,
            column_offset(*img, ih as int),
            img.interlaced,
            img.downscaled,
        ),
{
    proof {
        crate::picture::piece_outside_changes_nothing(
            buf.image@,
            rgb@,
            iw as int,
            ih as int,
            column_offset(*img, ih as int),
            img.interlaced,
            img.downscaled,
        );
    }
    let offset: usize = match img.chunk {
        Some(i) => match columns_before(i as usize, ih, img.downscaled) {
            Some(offset) => offset,
            None => {
                return ;
            },
        },
        None => 0,
    };
    proof {
        let w = buf.image@.width as int;
        let rows = crate::picture::visible_rows(w, ih as int, offset as int, img.downscaled);
        assert(iw * rows <= iw * ih) by (nonlinear_arith)
            requires
                0 <= iw,
                0 <= rows <= ih,
        ;
    }
    buf.paste(rgb, iw, ih, offset, img.interlaced, img.downscaled);
}

/// How many screen columns `i` strips of `ih` decoded rows take, if that can be
/// counted.
fn columns_before(i: usize, ih: usize, downscaled: bool) -> (n: Option<usize>)
    ensures
        ({
            let columns = i * crate::picture::spread(ih as int, downscaled);
            n == if columns <= usize::MAX {
                Some(columns as usize)
            } else {
                None
            }
        }),
{
    let strip: usize = if !downscaled {
        ih
    } else {
        match ih.checked_mul(2) {
            Some(strip) => strip,
            None => {
                proof {
                    if i > 0 {
                        assert(i * (2 * ih) >= 2 * ih) by (nonlinear_arith)
                            requires
                                i >= 1,
                                ih >= 0,
                        ;
                    }
                }
                return if i == 0 {
                    Some(0)
                } else {
                    None
                };
            },
        }
    };
    i.checked_mul(strip)
}

/// What a `META` packet says.
fn read_meta(subtype: u8, payload: &[u8]) -> (event: Option<Event>)
    ensures
        event_view(event) == meta_event(subtype, payload@),
{
    if subtype == meta::STATS {
        Some(Event::Stats(text::from_utf8_lossy(payload)))
    } else if subtype == meta::ANNOUNCE {
        match Announce::parse(payload) {
            Ok(a) => Some(Event::Capabilities(a)),
            Err(_) => None,
        }
    } else {
        Some(Event::Info(joined("3DS: ", text::from_utf8_lossy(payload).as_str())))
    }
}

/// What the reading side waits for.
#[derive(Debug, Clone, Copy, PartialEq, Eq, Structural)]
pub enum Stage {
    /// The header of the next packet.
    Header,
    /// The payload of the packet whose header came last.
    Payload(PacketInfo),
}

impl Stage {
    /// How many bytes to read next.
    pub open spec fn wanted(self) -> nat {
        match self {
            Stage::Header => HEADER_LEN as nat,
            Stage::Payload(info) => info.payload_len as nat,
        }
    }

    /// Whether the announced payload is one that a header may announce.
    pub open spec fn wf(self) -> bool {
        self matches Stage::Payload(info) ==> info.payload_len <= crate::legacy::MAX_PAYLOAD
    }
}

/// The reading side of a connection. The caller reads as many bytes as are wanted
/// and hands them over, or says why it could not.
#[derive(Debug, PartialEq, Eq)]
pub struct Link {
    reader: Reader,
    stage: Stage,
}

/// The contents of a link.
#[verifier::ext_equal]
pub struct LinkView {
    pub reader: ReaderView,
    pub stage: Stage,
}

impl View for Link {
    type V = LinkView;

    closed spec fn view(&self) -> LinkView {
        LinkView { reader: self.reader@, stage: self.stage }
    }
}

/// What follows from the bytes that were read.
#[derive(Debug, PartialEq, Eq)]
pub enum Step {
    /// Tell the event, where there is one, and read on.
    Continue(Option<Event>),
    /// Stop reading, for this reason.
    Stop(String),
}

/// The contents of a step.
#[verifier::ext_equal]
pub enum StepView {
    Continue(Option<EventView>),
    Stop(Seq<char>),
}

impl View for Step {
    type V = StepView;

    open spec fn view(&self) -> StepView {
        match *self {
            Step::Continue(e) => StepView::Continue(event_view(e)),
            Step::Stop(s) => StepView::Stop(s@),
        }
    }
}

/// What the bytes that were wanted lead to. A header announces its payload or ends
/// the stream; a payload completes its packet.
pub open spec fn advanced(link: LinkView, bytes: Seq<u8>) -> (LinkView, StepView) {
    match link.stage {
        Stage::Header => match crate::legacy::parsed_header(bytes) {
            Ok(info) => (
                LinkView { stage: Stage::Payload(info), ..link },
                StepView::Continue(None),
            ),
            Err(e) => (link, StepView::Stop("protocol error: "@ + crate::v1::error_text(e))),
        },
        Stage::Payload(info) => {
            let (reader, event) = handled(link.reader, info, bytes);
            (LinkView { reader, stage: Stage::Header }, StepView::Continue(event))
        },
    }
}

impl Link {
    /// Whether the link is in order.
    pub closed spec fn wf(self) -> bool {
        self.reader.wf() && self.stage.wf()
    }

    /// A link before the first packet.
    pub fn new() -> (link: Link)
        ensures
            link.wf(),
            link@ == (LinkView { reader: fresh_reader(), stage: Stage::Header }),
    {
        Link { reader: Reader::new(), stage: Stage::Header }
    }

    /// How many bytes to read next.
    pub fn wanted(&self) -> (n: usize)
        ensures
            n == self@.stage.wanted(),
    {
        match self.stage {
            Stage::Header => HEADER_LEN,
            Stage::Payload(info) => info.payload_len as usize,
        }
    }

    /// Takes the bytes that were wanted.
    pub fn received(&mut self, bytes: &[u8]) -> (step: Step)
        requires
            old(self).wf(),
            bytes@.len() == old(self)@.stage.wanted(),
        ensures
            final(self).wf(),
            (final(self)@, step@) == advanced(old(self)@, bytes@),
    {
        match self.stage {
            Stage::Header => match crate::legacy::parse_header(bytes) {
                Ok(info) => {
                    self.stage = Stage::Payload(info);
                    Step::Continue(None)
                },
                Err(e) => Step::Stop(joined("protocol error: ", e.message().as_str())),
            },
            Stage::Payload(info) => {
                let event = self.reader.handle_packet(&info, bytes);
                self.stage = Stage::Header;
                Step::Continue(event)
            },
        }
    }

    /// The reason for stopping where the wanted bytes could not be read.
    pub fn lost(&self, why: &str) -> (s: String)
        ensures
            s@ == (match self@.stage {
                Stage::Header => "connection closed: "@,
                Stage::Payload(_) => "connection closed mid-packet: "@,
            }) + why@,
    {
        match self.stage {
            Stage::Header => joined("connection closed: ", why),
            Stage::Payload(_) => joined("connection closed mid-packet: ", why),
        }
    }
}

} // verus!
