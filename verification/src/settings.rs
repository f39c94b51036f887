//! The tunable stream settings.

use crate::legacy::ScreenSet;
use crate::single::{Single, HALF, THREE_QUARTERS};
use vstd::prelude::*;

verus! {

/// All tunable stream settings. Saved in profiles, and compared with the values
/// last sent so that edits apply live.
#[derive(Debug, Clone, Copy)]
pub struct Settings {
    /// Balance between frame rate and quality: 0 is most frames per second, 1 is
    /// most quality. Drives the knobs below unless `custom`.
    pub master: Single,
    /// The user touched an advanced knob; `master` no longer drives them.
    pub custom: bool,
    /// JPEG quality.
    pub quality: u8,
    /// Legacy screen selection: 1 top, 2 bottom, 3 both.
    pub screen: u8,
    pub interlace: bool,
    pub strip_skip: bool,
    /// Force-send every this many frames per strip (0 = never). Extension knob.
    pub refresh_interval: u8,
    /// Target frame rate, 0 = uncapped. Extension knob.
    pub fps_cap: u8,
    /// Milliseconds of pause between strips. Extension knob.
    pub strip_sleep: u8,
    /// Strips per screen on Old 3DS. Extension knob.
    pub chunks: u8,
    /// Quarter-resolution mode. Extension knob.
    pub downscale: bool,
    /// Dirty-grid columns. Extension knob.
    pub grid_cols: u8,
    /// Dirty-grid rows. Extension knob.
    pub grid_rows: u8,
}

/// The quality that belongs to a master of one half.
pub const DEFAULT_QUALITY: u8 = 68;

impl Settings {
    /// These settings with the knobs that `master` drives set by it. The quality
    /// runs from 40 at the frame rate end to 95 at the quality end and is given.
    /// Interlacing is on in the half that favours frame rate. The frame rate is
    /// capped only in the last quarter, which gives the encoder time for better
    /// frames. Skipping unchanged strips always pays; the refresh is faster in the
    /// half that favours quality.
    pub open spec fn mastered(self, quality: u8) -> Settings {
        let favours_rate = self.master.lt(Single { bits: HALF });
        Settings {
            quality,
            interlace: favours_rate,
            fps_cap: if self.master.lt(Single { bits: THREE_QUARTERS }) {
                0
            } else {
                24
            },
            strip_skip: true,
            refresh_interval: if favours_rate {
                64
            } else {
                32
            },
            ..self
        }
    }

    /// Derives the individual knobs from `master`, given the quality that belongs
    /// to it.
    pub fn apply_master(&mut self, quality: u8)
        ensures
            *final(self) == old(self).mastered(quality),
    {
        let favours_rate = self.master.less(Single::from_bits(HALF));
        let uncapped = self.master.less(Single::from_bits(THREE_QUARTERS));
        self.quality = quality;
        self.interlace = favours_rate;
        self.fps_cap = if uncapped {
            0
        } else {
            24
        };
        self.strip_skip = true;
        self.refresh_interval = if favours_rate {
            64
        } else {
            32
        };
    }

    /// The screens that the selection stands for. Anything but 2 and 3 is the top
    /// screen.
    pub open spec fn selected(self) -> ScreenSet {
        if self.screen == 2 {
            ScreenSet::Bottom
        } else if self.screen == 3 {
            ScreenSet::Both
        } else {
            ScreenSet::Top
        }
    }

    /// The screens that the selection stands for.
    pub fn screen_set(&self) -> (s: ScreenSet)
        ensures
            s == self.selected(),
    {
        match self.screen {
            2 => ScreenSet::Bottom,
            3 => ScreenSet::Both,
            _ => ScreenSet::Top,
        }
    }

    /// The name of the selection.
    pub fn screen_label(&self) -> (s: &'static str)
        ensures
            s@ == (match self.selected() {
                ScreenSet::Top => "Top"@,
                ScreenSet::Bottom => "Bottom"@,
                ScreenSet::Both => "Both"@,
            }),
    {
        match self.screen {
            2 => "Bottom",
            3 => "Both",
            _ => "Top",
        }
    }

    /// Whether all settings are the same.
    pub open spec fn same(self, other: Settings) -> bool {
        &&& self.master.same(other.master)
        &&& self == (Settings { master: self.master, ..other })
    }
}

/// The settings of a first start: a master of one half, with the knobs that belong
/// to it, and the top screen.
pub open spec fn initial() -> Settings {
    Settings {
        master: Single { bits: HALF },
        custom: false,
        quality: DEFAULT_QUALITY,
        screen: 1,
        interlace: false,
        strip_skip: true,
        refresh_interval: 32,
        fps_cap: 0,
        strip_sleep: 0,
        chunks: 4,
        downscale: false,
        grid_cols: 16,
        grid_rows: 1,
    }
}

impl Default for Settings {
    fn default() -> (s: Settings)
        ensures
            s == initial(),
    {
        let mut s = Settings {
            master: Single::from_bits(HALF),
            custom: false,
            quality: 70,
            screen: 1,
            interlace: false,
            strip_skip: true,
            refresh_interval: 64,
            fps_cap: 0,
            strip_sleep: 0,
            chunks: 4,
            downscale: false,
            grid_cols: 16,
            grid_rows: 1,
        };
        s.apply_master(DEFAULT_QUALITY);
        s
    }
}

impl PartialEq for Settings {
    fn eq(&self, other: &Settings) -> (b: bool) {
        self.master == other.master && self.custom == other.custom && self.quality == other.quality
            && self.screen == other.screen && self.interlace == other.interlace && self.strip_skip
            == other.strip_skip && self.refresh_interval == other.refresh_interval && self.fps_cap
            == other.fps_cap && self.strip_sleep == other.strip_sleep && self.chunks
            == other.chunks && self.downscale == other.downscale && self.grid_cols
            == other.grid_cols && self.grid_rows == other.grid_rows
    }
}

impl vstd::std_specs::cmp::PartialEqSpecImpl for Settings {
    open spec fn obeys_eq_spec() -> bool {
        true
    }

    open spec fn eq_spec(&self, other: &Settings) -> bool {
        self.same(*other)
    }
}

/// Applying the master twice is applying it once, and it moves no knob of its own
/// and none that it does not drive.
pub proof fn master_settles(s: Settings, quality: u8)
    ensures
        s.mastered(quality).mastered(quality) == s.mastered(quality),
        s.mastered(quality).master == s.master,
        s.mastered(quality).custom == s.custom,
        s.mastered(quality).screen == s.screen,
        s.mastered(quality).strip_sleep == s.strip_sleep,
        s.mastered(quality).chunks == s.chunks,
        s.mastered(quality).downscale == s.downscale,
        s.mastered(quality).grid_cols == s.grid_cols,
        s.mastered(quality).grid_rows == s.grid_rows,
{
}

/// What the master balance does, by its bits: below one half it interlaces and refreshes
/// every 64 frames, from there on it does neither and refreshes every 32; the frame rate is
/// capped, at 24, from three quarters on. Strips are skipped at every balance. What is less
/// than nothing counts as nothing, and what is no number as the quality end.
pub proof fn master_drives_the_knobs(s: Settings, quality: u8)
    ensures
        ({
            let m = s.mastered(quality);
            let b = s.master.bits;
            let low = b < 0x3F00_0000 || 0x8000_0000 <= b <= 0xFF80_0000;
            let uncapped = b < 0x3F40_0000 || 0x8000_0000 <= b <= 0xFF80_0000;
            &&& m.quality == quality
            &&& m.interlace == low
            &&& m.refresh_interval == (if low {
                64u8
            } else {
                32
            })
            &&& m.fps_cap == (if uncapped {
                0u8
            } else {
                24
            })
            &&& m.strip_skip
        }),
{
}

/// Which screens a selection stands for.
pub proof fn selections_have_their_screens(s: Settings)
    ensures
        s.selected() is Bottom <==> s.screen == 2,
        s.selected() is Both <==> s.screen == 3,
        s.selected() is Top <==> s.screen != 2 && s.screen != 3,
        s.selected().code() == (if s.screen == 2 || s.screen == 3 {
            s.screen
        } else {
            1
        }),
{
}

/// Settings are the same exactly if every single one is.
pub proof fn sameness_looks_at_every_setting(s: Settings, t: Settings)
    ensures
        s.same(t) <==> {
            &&& s.master.same(t.master)
            &&& s.custom == t.custom
            &&& s.quality == t.quality
            &&& s.screen == t.screen
            &&& s.interlace == t.interlace
            &&& s.strip_skip == t.strip_skip
            &&& s.refresh_interval == t.refresh_interval
            &&& s.fps_cap == t.fps_cap
            &&& s.strip_sleep == t.strip_sleep
            &&& s.chunks == t.chunks
            &&& s.downscale == t.downscale
            &&& s.grid_cols == t.grid_cols
            &&& s.grid_rows == t.grid_rows
        },
{
}

/// The settings of a first start are those of a master of one half: applying it changes
/// nothing. The rest are the norm, for the top screen.
pub proof fn first_settings_are_balanced()
    ensures
        initial().mastered(68) == initial(),
        initial().master.bits == 0x3F00_0000,
        !initial().custom,
        initial().screen == 1,
        initial().strip_sleep == 0,
        initial().chunks == 4,
        !initial().downscale,
        initial().grid_cols == 16,
        initial().grid_rows == 1,
{
}

} // verus!
