//! Which JPEG files are handed to the decoder.
//!
//! The decoder (`zune_jpeg`) sizes its buffers as it goes through the components of
//! a frame, and relies on the first being sampled as finely as any. It goes through
//! the components of a progressive frame by the colour space that an Adobe segment
//! names, which need not have as many. It multiplies the running sum of the DC
//! differences by a quantisation step, and then rounds, in 32 bits. And it counts the
//! bytes between markers in 32 bits. Files for which one of these can go wrong, where
//! arithmetic is checked, are told apart here by their length and their headers.
//! Where a header stands is not followed through the file: every place that looks
//! like one counts, so a file may be told apart for what its metadata looks like, but
//! never overlooked. Nor are the differences read: those of a large image with coarse
//! steps may be small, but its headers do not say so.

use vstd::prelude::*;

verus! {

/// Start of a baseline frame.
pub const SOF0: u8 = 0xC0;

/// Start of an extended sequential frame, which is decoded as a baseline one.
pub const SOF1: u8 = 0xC1;

/// Start of a progressive frame.
pub const SOF2: u8 = 0xC2;

/// Huffman tables.
pub const DHT: u8 = 0xC4;

/// Start of a scan.
pub const SOS: u8 = 0xDA;

/// Quantisation tables.
pub const DQT: u8 = 0xDB;

/// The segment in which Adobe names a colour space.
pub const APP14: u8 = 0xEE;

/// The name of the colour space with three components.
pub const YCBCR: u8 = 1;

/// The name of the one with a fourth for black.
pub const YCCK: u8 = 2;

/// The longest side that the decoder takes.
pub const LONGEST_SIDE: usize = 0x4000;

/// The longest file in which a 32-bit number can count the bytes.
pub const LONGEST_FILE: usize = 0x7FFF_FFFF;

/// The greatest product of a DC sum and a step that can be rounded in 32 bits: an
/// offset of 1024 and a half of 8 are then added to it.
pub const LIMIT: u128 = 0x7FFF_FBFB;

/// Whether this marker stands at `i`.
pub open spec fn marker_at(b: Seq<u8>, i: int, code: u8) -> bool {
    0 <= i && i + 1 < b.len() && b[i] == 0xFF && b[i + 1] == code
}

/// The big-endian 16-bit number at `i`.
pub open spec fn be16(b: Seq<u8>, i: int) -> nat {
    (256 * b[i] + b[i + 1]) as nat
}

/// The greater of two.
pub open spec fn greater(x: nat, y: nat) -> nat {
    if x < y {
        y
    } else {
        x
    }
}

/// How often a marker stands in the first `n` places.
pub open spec fn marker_count(b: Seq<u8>, code: u8, n: nat) -> nat
    decreases n,
{
    if n == 0 {
        0
    } else {
        marker_count(b, code, (n - 1) as nat) + if marker_at(b, n - 1, code) {
            1nat
        } else {
            0
        }
    }
}

/// Whether a frame header stands at `i` that the decoder takes: its marker, one to
/// four components, a length that goes with them, eight bits per sample, and sides
/// within its limits.
pub open spec fn frame_at(b: Seq<u8>, i: int) -> bool {
    &&& marker_at(b, i, SOF0) || marker_at(b, i, SOF1) || marker_at(b, i, SOF2)
    &&& i + 9 < b.len()
    &&& 1 <= b[i + 9] <= 4
    &&& be16(b, i + 2) == 8 + 3 * b[i + 9]
    &&& b[i + 4] == 8
    &&& 1 <= be16(b, i + 5) <= LONGEST_SIDE
    &&& 1 <= be16(b, i + 7) <= LONGEST_SIDE
}

/// The sampling factors of component `k` of the frame at `i`: horizontal in the upper
/// four bits, vertical in the lower four.
pub open spec fn factors(b: Seq<u8>, i: int, k: int) -> u8 {
    b[i + 11 + 3 * k]
}

/// Whether neither of these factors is greater than that of the first component.
pub open spec fn no_finer(now: u8, first: u8) -> bool {
    now / 16 <= first / 16 && now % 16 <= first % 16
}

/// Whether no component of the frame at `i` is sampled more finely than the first, as
/// far as the file goes.
pub open spec fn first_is_finest(b: Seq<u8>, i: int) -> bool {
    forall|k: int|
        1 <= k < b[i + 9] && i + 11 + 3 * k < b.len() ==> no_finer(
            #[trigger] factors(b, i, k),
            factors(b, i, 0),
        )
}

/// Whether an Adobe segment that names this colour space stands at `i`.
pub open spec fn named_at(b: Seq<u8>, i: int, transform: u8) -> bool {
    &&& marker_at(b, i, APP14)
    &&& i + 15 < b.len()
    &&& b[i + 4] == 0x41 && b[i + 5] == 0x64 && b[i + 6] == 0x6F && b[i + 7] == 0x62 && b[i + 8]
        == 0x65
    &&& b[i + 15] == transform
}

/// Whether the colour space that the decoder ends up with for the frame at `i` goes
/// with its components. A frame that is not progressive is not decoded by it. With
/// three components any does. A frame header of one component, or of four where YCbCr
/// is named, sets the right one, but a segment behind it sets another; one of two
/// components sets none.
pub open spec fn colours_agree(b: Seq<u8>, i: int) -> bool {
    marker_at(b, i, SOF2) ==> {
        let n = b[i + 9];
        &&& n == 1 ==> forall|j: int| #[trigger] named_at(b, j, YCCK) ==> j < i
        &&& n == 2 ==> forall|j: int| !#[trigger] named_at(b, j, YCCK)
        &&& n == 4 ==> forall|j: int| #[trigger] named_at(b, j, YCBCR) ==> j < i
    }
}

/// The sum of the `n` bytes from `at` on.
pub open spec fn sum(b: Seq<u8>, at: int, n: nat) -> nat
    decreases n,
{
    if n == 0 {
        0
    } else {
        sum(b, at, (n - 1) as nat) + b[at + n - 1] as nat
    }
}

/// The greatest of the `n` bytes from `at` on.
pub open spec fn top(b: Seq<u8>, at: int, n: nat) -> nat
    decreases n,
{
    if n == 0 {
        0
    } else {
        greater(top(b, at, (n - 1) as nat), b[at + n - 1] as nat)
    }
}

/// The greatest symbol of the DC tables among the Huffman tables that stand from `at`
/// on in `left` bytes. A table that does not fit ends them.
pub open spec fn dc_symbol(b: Seq<u8>, at: int, left: int) -> nat
    decreases left,
{
    let symbols = sum(b, at + 1, 16);
    if left < 17 + symbols || at + 17 + symbols > b.len() {
        0
    } else {
        greater(
            if b[at] < 16 {
                top(b, at + 17, symbols)
            } else {
                0
            },
            dc_symbol(b, at + 17 + symbols, left - 17 - symbols),
        )
    }
}

/// The greatest first step of the quantisation tables that stand from `at` on in
/// `left` bytes. A table that does not fit ends them.
pub open spec fn dc_step(b: Seq<u8>, at: int, left: int) -> nat
    decreases left,
{
    if left < 65 || at + 65 > b.len() {
        0
    } else if b[at] < 16 {
        greater(b[at + 1] as nat, dc_step(b, at + 65, left - 65))
    } else if left < 129 || at + 129 > b.len() {
        0
    } else {
        greater(be16(b, at + 1), dc_step(b, at + 129, left - 129))
    }
}

/// The greatest DC symbol of all Huffman tables in the first `n` places.
pub open spec fn top_dc_symbol(b: Seq<u8>, n: nat) -> nat
    decreases n,
{
    if n == 0 {
        0
    } else {
        greater(
            top_dc_symbol(b, (n - 1) as nat),
            if marker_at(b, n - 1, DHT) && n + 2 < b.len() {
                dc_symbol(b, n as int + 3, be16(b, n as int + 1) - 2)
            } else {
                0
            },
        )
    }
}

/// The greatest first step of all quantisation tables in the first `n` places.
pub open spec fn top_dc_step(b: Seq<u8>, n: nat) -> nat
    decreases n,
{
    if n == 0 {
        0
    } else {
        greater(
            top_dc_step(b, (n - 1) as nat),
            if marker_at(b, n - 1, DQT) && n + 2 < b.len() {
                dc_step(b, n as int + 3, be16(b, n as int + 1) - 2)
            } else {
                0
            },
        )
    }
}

/// How far a DC difference reaches whose symbol is no greater than this. Eleven is
/// what eight-bit images have.
pub open spec fn reach(symbol: nat) -> nat {
    if symbol <= 11 {
        2047
    } else if symbol == 12 {
        4095
    } else if symbol == 13 {
        8191
    } else if symbol == 14 {
        16383
    } else {
        32767
    }
}

/// A number of blocks that no component of the frame at `i` exceeds.
pub open spec fn blocks(b: Seq<u8>, i: int) -> nat {
    ((be16(b, i + 7) + 31) / 8) * ((be16(b, i + 5) + 31) / 8)
}

/// Whether the sum of all DC differences of the frame at `i`, times any step, is
/// within the limit, however the differences fall. Only frames that are not
/// progressive add them up that far.
pub open spec fn differences_fit(b: Seq<u8>, i: int) -> bool {
    marker_at(b, i, SOF2) || blocks(b, i) * (marker_count(b, SOS, b.len()) * (reach(
        top_dc_symbol(b, b.len()),
    ) * top_dc_step(b, b.len()))) <= LIMIT
}

/// Whether the frame at `i` is one that the decoder copes with.
pub open spec fn frame_is_tame(b: Seq<u8>, i: int) -> bool {
    &&& first_is_finest(b, i)
    &&& colours_agree(b, i)
    &&& differences_fit(b, i)
}

/// Whether the decoder copes with a file: its bytes can be counted, and all frames that
/// it may hold are tame.
pub open spec fn is_tame(b: Seq<u8>) -> bool {
    &&& b.len() <= LONGEST_FILE
    &&& forall|i: int| #[trigger] frame_at(b, i) ==> frame_is_tame(b, i)
}

/// Whether this is where the last Adobe segment that names this colour space stands.
spec fn is_last(b: Seq<u8>, last: Option<usize>, transform: u8) -> bool {
    match last {
        Some(p) => named_at(b, p as int, transform) && forall|j: int|
            #[trigger] named_at(b, j, transform) ==> j <= p,
        None => forall|j: int| !#[trigger] named_at(b, j, transform),
    }
}

/// Whether this marker stands at `i`.
fn has_marker(b: &[u8], i: usize, code: u8) -> (r: bool)
    ensures
        r == marker_at(b@, i as int, code),
{
    i < b.len() && b.len() - i > 1 && b[i] == 0xFF && b[i + 1] == code
}

/// The big-endian 16-bit number at `i`.
fn get_be16(b: &[u8], i: usize) -> (x: usize)
    requires
        i + 1 < b@.len(),
    ensures
        x == be16(b@, i as int),
{
    256 * (b[i] as usize) + b[i + 1] as usize
}

/// How often a marker stands in the file.
fn count_markers(b: &[u8], code: u8) -> (n: usize)
    ensures
        n == marker_count(b@, code, b@.len()),
{
    let mut n: usize = 0;
    let mut i: usize = 0;
    while i < b.len()
        invariant
            i <= b@.len(),
            n <= i,
            n == marker_count(b@, code, i as nat),
        decreases b@.len() - i,
    {
        if has_marker(b, i, code) {
            n = n + 1;
        }
        i = i + 1;
    }
    n
}

/// Whether a frame header stands at `i`.
fn has_frame(b: &[u8], i: usize) -> (r: bool)
    ensures
        r == frame_at(b@, i as int),
{
    if !has_marker(b, i, SOF0) && !has_marker(b, i, SOF1) && !has_marker(b, i, SOF2) {
        return false;
    }
    if b.len() - i <= 9 {
        return false;
    }
    let n: usize = b[i + 9] as usize;
    let high: usize = get_be16(b, i + 5);
    let wide: usize = get_be16(b, i + 7);
    1 <= n && n <= 4 && get_be16(b, i + 2) == 8 + 3 * n && b[i + 4] == 8 && 1 <= high && high
        <= LONGEST_SIDE && 1 <= wide && wide <= LONGEST_SIDE
}

/// Whether no component of the frame at `i` is sampled more finely than the first.
fn check_sampling(b: &[u8], i: usize) -> (r: bool)
    requires
        frame_at(b@, i as int),
    ensures
        r == first_is_finest(b@, i as int),
{
    let room: usize = b.len() - i;
    let n: usize = b[i + 9] as usize;
    let mut k: usize = 1;
    while k < n && 11 + 3 * k < room
        invariant
            i + 9 < b@.len() <= usize::MAX,
            n == b@[i + 9],
            n <= 4,
            room == b@.len() - i,
            1 <= k <= 5,
            forall|j: int|
                1 <= j < k && i + 11 + 3 * j < b@.len() ==> no_finer(
                    #[trigger] factors(b@, i as int, j),
                    factors(b@, i as int, 0),
                ),
        decreases 5 - k,
    {
        let now: u8 = b[i + 11 + 3 * k];
        let first: u8 = b[i + 11];
        assert(now == factors(b@, i as int, k as int));
        assert(first == factors(b@, i as int, 0));
        if now / 16 > first / 16 || now % 16 > first % 16 {
            assert(!no_finer(now, first));
            return false;
        }
        assert(no_finer(now, first));
        k = k + 1;
    }
    true
}

/// Whether an Adobe segment that names this colour space stands at `i`.
fn has_name(b: &[u8], i: usize, transform: u8) -> (r: bool)
    ensures
        r == named_at(b@, i as int, transform),
{
    has_marker(b, i, APP14) && b.len() - i > 15 && b[i + 4] == 0x41 && b[i + 5] == 0x64 && b[i + 6]
        == 0x6F && b[i + 7] == 0x62 && b[i + 8] == 0x65 && b[i + 15] == transform
}

/// Where the last Adobe segment that names this colour space stands.
fn last_name(b: &[u8], transform: u8) -> (last: Option<usize>)
    ensures
        is_last(b@, last, transform),
{
    let mut i: usize = b.len();
    while i > 0
        invariant
            i <= b@.len(),
            forall|j: int| #[trigger] named_at(b@, j, transform) ==> j < i,
        decreases i,
    {
        i = i - 1;
        if has_name(b, i, transform) {
            return Some(i);
        }
    }
    None
}

/// Whether the last segment of a kind, if there is one, stands ahead of `i`.
fn is_ahead(last: Option<usize>, i: usize) -> (r: bool)
    ensures
        r == (last matches Some(p) ==> p < i),
{
    match last {
        Some(p) => p < i,
        None => true,
    }
}

/// Whether the colour space goes with the components of the frame at `i`, `ycbcr` and
/// `ycck` being where these two are named last.
fn check_colours(b: &[u8], i: usize, ycbcr: Option<usize>, ycck: Option<usize>) -> (r: bool)
    requires
        frame_at(b@, i as int),
        is_last(b@, ycbcr, YCBCR),
        is_last(b@, ycck, YCCK),
    ensures
        r == colours_agree(b@, i as int),
{
    if !has_marker(b, i, SOF2) {
        return true;
    }
    assert(b.len() == b@.len());
    let n: u8 = b[i + 9];
    if n == 1 {
        is_ahead(ycck, i)
    } else if n == 2 {
        ycck.is_none()
    } else if n == 4 {
        is_ahead(ycbcr, i)
    } else {
        true
    }
}

/// The sum of 16 bytes, and of no more.
fn sum_of(b: &[u8], at: usize) -> (s: usize)
    requires
        at + 16 <= b@.len(),
    ensures
        s == sum(b@, at as int, 16),
        s <= 4080,
{
    let mut s: usize = 0;
    let mut k: usize = 0;
    let len: usize = b.len();
    while k < 16
        invariant
            at + 16 <= len,
            len == b@.len(),
            k <= 16,
            s == sum(b@, at as int, k as nat),
            s <= 255 * k,
        decreases 16 - k,
    {
        s = s + b[at + k] as usize;
        k = k + 1;
    }
    s
}

/// The greatest of some bytes.
fn top_of(b: &[u8], at: usize, n: usize) -> (t: u8)
    requires
        at + n <= b@.len(),
    ensures
        t == top(b@, at as int, n as nat),
{
    let mut t: u8 = 0;
    let mut k: usize = 0;
    let len: usize = b.len();
    while k < n
        invariant
            at + n <= len,
            len == b@.len(),
            k <= n,
            t == top(b@, at as int, k as nat),
        decreases n - k,
    {
        if t < b[at + k] {
            t = b[at + k];
        }
        k = k + 1;
    }
    t
}

/// The greatest DC symbol of the Huffman tables of one segment.
fn dc_symbol_of(b: &[u8], start: usize, length: usize) -> (t: u8)
    requires
        start <= b@.len(),
    ensures
        t == dc_symbol(b@, start as int, length as int),
{
    let mut t: u8 = 0;
    let mut at: usize = start;
    let mut left: usize = length;
    while left >= 17 && b.len() - at >= 17
        invariant
            at <= b@.len(),
            greater(t as nat, dc_symbol(b@, at as int, left as int)) == dc_symbol(
                b@,
                start as int,
                length as int,
            ),
        decreases left,
    {
        let symbols: usize = sum_of(b, at + 1);
        if left < 17 + symbols || b.len() - at < 17 + symbols {
            return t;
        }
        let mine: u8 = if b[at] < 16 {
            top_of(b, at + 17, symbols)
        } else {
            0
        };
        if t < mine {
            t = mine;
        }
        at = at + 17 + symbols;
        left = left - 17 - symbols;
    }
    t
}

/// The greatest first step of the quantisation tables of one segment.
fn dc_step_of(b: &[u8], start: usize, length: usize) -> (t: usize)
    requires
        start <= b@.len(),
    ensures
        t == dc_step(b@, start as int, length as int),
        t <= 65535,
{
    let mut t: usize = 0;
    let mut at: usize = start;
    let mut left: usize = length;
    while left >= 65 && b.len() - at >= 65
        invariant
            at <= b@.len(),
            t <= 65535,
            greater(t as nat, dc_step(b@, at as int, left as int)) == dc_step(
                b@,
                start as int,
                length as int,
            ),
        decreases left,
    {
        let (mine, size): (usize, usize) = if b[at] < 16 {
            (b[at + 1] as usize, 65)
        } else {
            if left < 129 || b.len() - at < 129 {
                return t;
            }
            (get_be16(b, at + 1), 129)
        };
        if t < mine {
            t = mine;
        }
        at = at + size;
        left = left - size;
    }
    t
}

/// The greatest DC symbol of all Huffman tables, and the greatest first step of all
/// quantisation tables.
fn table_tops(b: &[u8]) -> (res: (u8, usize))
    ensures
        res.0 == top_dc_symbol(b@, b@.len()),
        res.1 == top_dc_step(b@, b@.len()),
        res.1 <= 65535,
{
    let mut symbol: u8 = 0;
    let mut step: usize = 0;
    let mut i: usize = 0;
    while i < b.len()
        invariant
            i <= b@.len(),
            symbol == top_dc_symbol(b@, i as nat),
            step == top_dc_step(b@, i as nat),
            step <= 65535,
        decreases b@.len() - i,
    {
        if b.len() - i > 3 {
            let length: usize = get_be16(b, i + 2);
            if has_marker(b, i, DHT) && length >= 2 {
                let t: u8 = dc_symbol_of(b, i + 4, length - 2);
                if symbol < t {
                    symbol = t;
                }
            }
            if has_marker(b, i, DQT) && length >= 2 {
                let t: usize = dc_step_of(b, i + 4, length - 2);
                if step < t {
                    step = t;
                }
            }
        }
        i = i + 1;
    }
    (symbol, step)
}

/// How far a DC difference reaches.
fn reach_of(symbol: u8) -> (r: u128)
    ensures
        r == reach(symbol as nat),
        r <= 32767,
{
    if symbol <= 11 {
        2047
    } else if symbol == 12 {
        4095
    } else if symbol == 13 {
        8191
    } else if symbol == 14 {
        16383
    } else {
        32767
    }
}

/// Whether the decoder copes with a file.
pub fn check_layout(b: &[u8]) -> (tame: bool)
    ensures
        tame == is_tame(b@),
{
    if b.len() > LONGEST_FILE {
        return false;
    }
    let ycbcr: Option<usize> = last_name(b, YCBCR);
    let ycck: Option<usize> = last_name(b, YCCK);
    let scans: usize = count_markers(b, SOS);
    let (symbol, step) = table_tops(b);
    let far: u128 = reach_of(symbol);
    proof {
        assert(far * step <= 32767 * 65535) by (nonlinear_arith)
            requires
                0 <= far <= 32767,
                0 <= step <= 65535,
        ;
    }
    let weight: u128 = far * step as u128;
    proof {
        assert(scans * weight <= 0xFFFF_FFFF_FFFF_FFFF * 0x7FFF_FFFF) by (nonlinear_arith)
            requires
                0 <= scans <= 0xFFFF_FFFF_FFFF_FFFF,
                0 <= weight <= 0x7FFF_FFFF,
        ;
    }
    let total: u128 = scans as u128 * weight;
    let mut i: usize = 0;
    while i < b.len()
        invariant
            i <= b@.len(),
            b@.len() <= LONGEST_FILE,
            is_last(b@, ycbcr, YCBCR),
            is_last(b@, ycck, YCCK),
            total == marker_count(b@, SOS, b@.len()) * (reach(top_dc_symbol(b@, b@.len()))
                * top_dc_step(b@, b@.len())),
            total <= 0xFFFF_FFFF_FFFF_FFFF * 0x7FFF_FFFF,
            forall|j: int| 0 <= j < i && #[trigger] frame_at(b@, j) ==> frame_is_tame(b@, j),
        decreases b@.len() - i,
    {
        if has_frame(b, i) {
            if !check_sampling(b, i) || !check_colours(b, i, ycbcr, ycck) {
                assert(frame_at(b@, i as int) && !frame_is_tame(b@, i as int));
                return false;
            }
            if !has_marker(b, i, SOF2) {
                let wide: u128 = (get_be16(b, i + 7) as u128 + 31) / 8;
                let high: u128 = (get_be16(b, i + 5) as u128 + 31) / 8;
                proof {
                    assert(wide * high <= 0x4000_0000) by (nonlinear_arith)
                        requires
                            0 <= wide <= 8195,
                            0 <= high <= 8195,
                    ;
                    assert((wide * high) * total <= 0x4000_0000 * (0xFFFF_FFFF_FFFF_FFFF
                        * 0x7FFF_FFFF)) by (nonlinear_arith)
                        requires
                            0 <= wide * high <= 0x4000_0000,
                            0 <= total <= 0xFFFF_FFFF_FFFF_FFFF * 0x7FFF_FFFF,
                    ;
                }
                let all: u128 = wide * high * total;
                if all > LIMIT {
                    assert(frame_at(b@, i as int) && !frame_is_tame(b@, i as int));
                    return false;
                }
            }
        }
        i = i + 1;
    }
    true
}

/// What a file that is handed on promises of every frame header in it, wherever it stands:
/// no component is sampled more finely than the first, and, where it is not progressive, the
/// greatest sum of DC differences times the greatest step leaves room to round.
pub proof fn tame_files_keep_within_limits(b: Seq<u8>, i: int, k: int)
    requires
        is_tame(b),
        0 <= i,
        i + 9 < b.len(),
        b[i] == 0xFF,
        b[i + 1] == 0xC0 || b[i + 1] == 0xC1 || b[i + 1] == 0xC2,
        1 <= b[i + 9] <= 4,
        256 * b[i + 2] + b[i + 3] == 8 + 3 * b[i + 9],
        b[i + 4] == 8,
        1 <= 256 * b[i + 5] + b[i + 6] <= 16384,
        1 <= 256 * b[i + 7] + b[i + 8] <= 16384,
    ensures
        b.len() <= 2147483647,
        1 <= k < b[i + 9] && i + 11 + 3 * k < b.len() ==> {
            let (now, first) = (b[i + 11 + 3 * k], b[i + 11]);
            now / 16 <= first / 16 && now % 16 <= first % 16
        },
        b[i + 1] != 0xC2 ==> {
            let wide = (256 * b[i + 7] + b[i + 8] + 31) / 8;
            let high = (256 * b[i + 5] + b[i + 6] + 31) / 8;
            (wide * high) * (marker_count(b, 0xDA, b.len()) * (reach(top_dc_symbol(b, b.len()))
                * top_dc_step(b, b.len()))) + 1028 <= 2147483647
        },
{
    assert(frame_at(b, i));
    assert(frame_is_tame(b, i));
    if 1 <= k < b[i + 9] && i + 11 + 3 * k < b.len() {
        assert(no_finer(factors(b, i, k), factors(b, i, 0)));
    }
}

/// What a file that is handed on promises of the colour spaces that are named in it, for
/// every progressive frame header.
pub proof fn tame_files_name_their_colours(b: Seq<u8>, i: int, j: int)
    requires
        is_tame(b),
        frame_at(b, i),
        b[i + 1] == 0xC2,
        0 <= j,
        j + 15 < b.len(),
        b[j] == 0xFF,
        b[j + 1] == 0xEE,
        b[j + 4] == 0x41,
        b[j + 5] == 0x64,
        b[j + 6] == 0x6F,
        b[j + 7] == 0x62,
        b[j + 8] == 0x65,
    ensures
        b[i + 9] == 1 && b[j + 15] == 2 ==> j < i,
        b[i + 9] == 2 ==> b[j + 15] != 2,
        b[i + 9] == 4 && b[j + 15] == 1 ==> j < i,
{
    assert(frame_is_tame(b, i));
    assert(named_at(b, j, b[j + 15]));
}

/// Every difference that a symbol can stand for is within its reach.
pub proof fn reach_covers_symbols(symbol: nat)
    ensures
        symbol <= 11 ==> reach(symbol) == 2047,
        symbol == 12 ==> reach(symbol) == 4095,
        symbol == 13 ==> reach(symbol) == 8191,
        symbol == 14 ==> reach(symbol) == 16383,
        symbol >= 15 ==> reach(symbol) == 32767,
{
}

/// No scan and no table is overlooked: each scan counts once, and the greatest step and the
/// greatest symbol are no less than those of any segment.
pub proof fn no_segment_is_overlooked(b: Seq<u8>, n: nat, i: int)
    requires
        0 <= i < n <= b.len(),
    ensures
        marker_count(b, 0xDA, n) <= n,
        i + 1 < b.len() && b[i] == 0xFF && b[i + 1] == 0xDA ==> marker_count(b, 0xDA, n)
            >= marker_count(b, 0xDA, i as nat) + 1,
        i + 3 < b.len() && b[i] == 0xFF && b[i + 1] == 0xDB ==> top_dc_step(b, n) >= dc_step(
            b,
            i + 4,
            256 * b[i + 2] + b[i + 3] - 2,
        ),
        i + 3 < b.len() && b[i] == 0xFF && b[i + 1] == 0xC4 ==> top_dc_symbol(b, n) >= dc_symbol(
            b,
            i + 4,
            256 * b[i + 2] + b[i + 3] - 2,
        ),
    decreases n,
{
    lemma_markers(b, (n - 1) as nat);
    if i < n - 1 {
        no_segment_is_overlooked(b, (n - 1) as nat, i);
    }
}

/// No more scans begin than there are bytes.
proof fn lemma_markers(b: Seq<u8>, n: nat)
    ensures
        marker_count(b, 0xDA, n) <= n,
    decreases n,
{
    if n > 0 {
        lemma_markers(b, (n - 1) as nat);
    }
}

/// No table of a segment is overlooked: what is found is no less than the first step of the
/// first quantisation table, and than what the rest of the segment holds.
pub proof fn no_table_is_overlooked(b: Seq<u8>, at: int, left: int)
    requires
        0 <= at,
        left >= 65,
        at + 65 <= b.len(),
    ensures
        b[at] < 16 ==> dc_step(b, at, left) >= b[at + 1] && dc_step(b, at, left) >= dc_step(
            b,
            at + 65,
            left - 65,
        ),
        b[at] >= 16 && left >= 129 && at + 129 <= b.len() ==> {
            &&& dc_step(b, at, left) >= 256 * b[at + 1] + b[at + 2]
            &&& dc_step(b, at, left) >= dc_step(b, at + 129, left - 129)
        },
{
}

/// A file in which no frame header stands is handed on, whatever else it holds: the decoder
/// says what is wrong with it.
pub proof fn files_without_frames_are_handed_on(b: Seq<u8>)
    requires
        b.len() <= 2147483647,
        forall|i: int|
            0 <= i < b.len() - 1 ==> !(#[trigger] b[i] == 0xFF && (b[i + 1] == 0xC0 || b[i + 1]
                == 0xC1 || b[i + 1] == 0xC2)),
    ensures
        is_tame(b),
{
    assert forall|i: int| #[trigger] frame_at(b, i) implies frame_is_tame(b, i) by {
        assert(b[i] == 0xFF);
    }
}

/// What a frame header is: its marker, a length that goes with one to four components, eight
/// bits per sample, and a height and a width of 1 to 16384.
pub proof fn frames_are_known_by_their_headers(b: Seq<u8>, i: int)
    ensures
        frame_at(b, i) <==> {
            &&& 0 <= i && i + 9 < b.len()
            &&& b[i] == 0xFF
            &&& b[i + 1] == 0xC0 || b[i + 1] == 0xC1 || b[i + 1] == 0xC2
            &&& 1 <= b[i + 9] <= 4
            &&& 256 * b[i + 2] + b[i + 3] == 8 + 3 * b[i + 9]
            &&& b[i + 4] == 8
            &&& 1 <= 256 * b[i + 5] + b[i + 6] <= 16384
            &&& 1 <= 256 * b[i + 7] + b[i + 8] <= 16384
        },
{
}

/// Whether the frame header at `i` asks nothing of the decoder that it does not cope with.
pub open spec fn harmless(b: Seq<u8>, i: int) -> bool {
    &&& forall|k: int|
        1 <= k < b[i + 9] && i + 11 + 3 * k < b.len() ==> {
            let at = i + 11 + 3 * k;
            &&& #[trigger] factors(b, i, k) == b[at]
            &&& b[at] / 16 <= b[i + 11] / 16
            &&& b[at] % 16 <= b[i + 11] % 16
        }
    &&& b[i + 1] == 0xC2 ==> {
        &&& b[i + 9] == 1 ==> forall|j: int| #[trigger] named_at(b, j, 2) ==> j < i
        &&& b[i + 9] == 2 ==> forall|j: int| !#[trigger] named_at(b, j, 2)
        &&& b[i + 9] == 4 ==> forall|j: int| #[trigger] named_at(b, j, 1) ==> j < i
    }
    &&& b[i + 1] != 0xC2 ==> {
        let wide = (256 * b[i + 7] + b[i + 8] + 31) / 8;
        let high = (256 * b[i + 5] + b[i + 6] + 31) / 8;
        (wide * high) * (marker_count(b, 0xDA, b.len()) * (reach(top_dc_symbol(b, b.len()))
            * top_dc_step(b, b.len()))) + 1028 <= 2147483647
    }
}

/// A file is handed on exactly if a 32-bit number can count its bytes and none of its frame
/// headers asks too much.
pub proof fn harmless_files_are_handed_on(b: Seq<u8>)
    ensures
        is_tame(b) <==> b.len() <= 2147483647 && forall|i: int|
            #[trigger] frame_at(b, i) ==> harmless(b, i),
{
    assert forall|i: int| #[trigger] frame_at(b, i) implies (frame_is_tame(b, i) <==> harmless(
        b,
        i,
    )) by {
        if frame_is_tame(b, i) {
            assert forall|k: int| 1 <= k < b[i + 9] && i + 11 + 3 * k < b.len() implies ({
                let at = i + 11 + 3 * k;
                &&& #[trigger] factors(b, i, k) == b[at]
                &&& b[at] / 16 <= b[i + 11] / 16
                &&& b[at] % 16 <= b[i + 11] % 16
            }) by {
                assert(no_finer(factors(b, i, k), factors(b, i, 0)));
            }
        }
        if harmless(b, i) {
            assert forall|k: int| 1 <= k < b[i + 9] && i + 11 + 3 * k < b.len() implies no_finer(
                #[trigger] factors(b, i, k),
                factors(b, i, 0),
            ) by {}
        }
    }
}

/// Where an Adobe segment stands that names a colour space.
pub proof fn names_have_their_places(b: Seq<u8>, i: int, transform: u8)
    ensures
        named_at(b, i, transform) <==> {
            &&& 0 <= i && i + 15 < b.len()
            &&& b[i] == 0xFF && b[i + 1] == 0xEE
            &&& b[i + 4] == 0x41 && b[i + 5] == 0x64 && b[i + 6] == 0x6F
            &&& b[i + 7] == 0x62 && b[i + 8] == 0x65
            &&& b[i + 15] == transform
        },
{
}

/// Scans are counted one by one, and the greatest step and the greatest symbol are those of
/// some segment.
pub proof fn segments_are_taken_one_by_one(b: Seq<u8>, n: nat)
    requires
        n + 3 < b.len(),
    ensures
        marker_count(b, 0xDA, 0) == 0,
        top_dc_step(b, 0) == 0,
        top_dc_symbol(b, 0) == 0,
        ({
            let i = n as int;
            let first = b[i] == 0xFF;
            let len = 256 * b[i + 2] + b[i + 3] - 2;
            let (count, step, symbol) = (
                marker_count(b, 0xDA, n + 1),
                top_dc_step(b, n + 1),
                top_dc_symbol(b, n + 1),
            );
            &&& first && b[i + 1] == 0xDA ==> count == marker_count(b, 0xDA, n) + 1
            &&& !(first && b[i + 1] == 0xDA) ==> count == marker_count(b, 0xDA, n)
            &&& step == top_dc_step(b, n) || first && b[i + 1] == 0xDB && step == dc_step(
                b,
                i + 4,
                len,
            )
            &&& symbol == top_dc_symbol(b, n) || first && b[i + 1] == 0xC4 && symbol == dc_symbol(
                b,
                i + 4,
                len,
            )
        }),
{
}

/// A quantisation table is a byte and 64 steps of one byte, or of two where that byte is
/// sixteen or more; its first step counts. What does not fit counts for nothing.
pub proof fn steps_have_their_places(b: Seq<u8>, at: int, left: int)
    requires
        0 <= at,
    ensures
        left < 65 || at + 65 > b.len() ==> dc_step(b, at, left) == 0,
        left >= 65 && at + 65 <= b.len() && b[at] < 16 ==> dc_step(b, at, left) == b[at + 1]
            || dc_step(b, at, left) == dc_step(b, at + 65, left - 65),
        left >= 129 && at + 129 <= b.len() && b[at] >= 16 ==> dc_step(b, at, left) == 256 * b[at
            + 1] + b[at + 2] || dc_step(b, at, left) == dc_step(b, at + 129, left - 129),
        left < 129 && b[at] >= 16 ==> dc_step(b, at, left) == 0,
{
}

/// A Huffman table is a byte, sixteen counts, and as many symbols as they add up to; those of
/// a table whose byte is below sixteen count. What does not fit counts for nothing.
pub proof fn symbols_have_their_places(b: Seq<u8>, at: int, left: int, k: int)
    requires
        0 <= at,
    ensures
        ({
            let n = b[at + 1] + b[at + 2] + b[at + 3] + b[at + 4] + b[at + 5] + b[at + 6] + b[at
                + 7] + b[at + 8] + b[at + 9] + b[at + 10] + b[at + 11] + b[at + 12] + b[at + 13]
                + b[at + 14] + b[at + 15] + b[at + 16];
            let all = dc_symbol(b, at, left);
            let rest = dc_symbol(b, at + 17 + n, left - 17 - n);
            let fits = left >= 17 + n && at + 17 + n <= b.len();
            &&& !fits ==> all == 0
            &&& fits ==> all >= rest
            &&& fits && b[at] >= 16 ==> all == rest
            &&& fits && b[at] < 16 && 0 <= k < n ==> all >= b[at + 17 + k]
            &&& fits && b[at] < 16 && all != rest ==> exists|j: int|
                0 <= j < n && all == #[trigger] b[at + 17 + j]
        }),
{
    reveal_with_fuel(sum, 17);
    let n = sum(b, at + 1, 16);
    lemma_top(b, at + 17, n, k);
}

/// The greatest byte of a run is one of them, and none is greater.
proof fn lemma_top(b: Seq<u8>, at: int, n: nat, k: int)
    ensures
        0 <= k < n ==> top(b, at, n) >= b[at + k],
        top(b, at, n) == 0 || exists|j: int| 0 <= j < n && top(b, at, n) == #[trigger] b[at + j],
    decreases n,
{
    if n > 0 {
        lemma_top(b, at, (n - 1) as nat, k);
        assert(b[at + (n - 1)] == b[at + n - 1]);
    }
}

} // verus!
