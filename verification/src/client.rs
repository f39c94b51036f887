//! What the client remembers and decides between two paints of its window.

pub mod laws;

use crate::legacy::{feature, Announce};
use crate::meter::Meter;
use crate::picture::{Image, ImageView};
use crate::profile::{Profile, ProfileView, Store, StoreView};
use crate::settings::Settings;
use crate::text;
use crate::worker::{Cmd, Event, EventView};
use std::collections::VecDeque;
use vstd::prelude::*;
use vstd::string::*;

verus! {

/// The settings that were sent over a connection, each as it was sent last. Knobs of
/// extended sysmodules have no value until they were sent.
#[derive(Debug, Clone, Copy, PartialEq, Eq)]
pub struct Sent {
    pub quality: u8,
    pub screen: u8,
    pub interlace: bool,
    pub strip_skip: Option<bool>,
    pub refresh_interval: Option<u8>,
    pub fps_cap: Option<u8>,
}

impl Sent {
    /// What the handshake sends of the settings `s`.
    pub open spec fn by_handshake(s: Settings) -> Sent {
        Sent {
            quality: s.quality,
            screen: s.screen,
            interlace: s.interlace,
            strip_skip: None,
            refresh_interval: None,
            fps_cap: None,
        }
    }

    /// What has been sent once `s` was pushed. Knobs that were not announced are
    /// withheld and stay as they are.
    pub open spec fn after(self, s: Settings, caps: Option<Announce>) -> Sent {
        let skip = caps matches Some(a) && a.announces(feature::STRIP_SKIP);
        let cap = caps matches Some(a) && a.announces(feature::FPS_CAP);
        Sent {
            quality: s.quality,
            screen: s.screen,
            interlace: s.interlace,
            strip_skip: if skip {
                Some(s.strip_skip)
            } else {
                self.strip_skip
            },
            refresh_interval: if skip {
                Some(s.refresh_interval)
            } else {
                self.refresh_interval
            },
            fps_cap: if cap {
                Some(s.fps_cap)
            } else {
                self.fps_cap
            },
        }
    }
}

/// The state of the connection.
#[derive(Debug, Clone, Copy)]
pub enum Conn {
    Idle,
    Active {
        /// What was sent last; only changed settings are sent.
        sent: Sent,
        connected: bool,
        /// What an extended sysmodule announced, once it did.
        caps: Option<Announce>,
    },
}

impl Conn {
    /// What an extended sysmodule announced.
    pub open spec fn announced(self) -> Option<Announce> {
        match self {
            Conn::Idle => None,
            Conn::Active { caps, .. } => caps,
        }
    }

    /// Whether the feature was announced.
    pub open spec fn supports(self, feature_bit: u8) -> bool {
        self.announced() matches Some(a) && a.announces(feature_bit)
    }
}

/// What the client remembers.
#[derive(Debug)]
pub struct Client {
    /// The address field.
    pub address: String,
    pub settings: Settings,
    pub conn: Conn,
    /// One line for the user.
    pub status: String,
    /// The statistics that the 3DS sent last.
    pub stats: String,
    pub store: Store,
    /// The profile name field.
    pub profile_name: String,
    pub meter: Meter,
}

/// The contents of a client.
#[verifier::ext_equal]
pub struct ClientView {
    pub address: Seq<char>,
    pub settings: Settings,
    pub conn: Conn,
    pub status: Seq<char>,
    pub stats: Seq<char>,
    pub store: StoreView,
    pub profile_name: Seq<char>,
    pub samples: Seq<(u64, usize)>,
}

impl View for Client {
    type V = ClientView;

    open spec fn view(&self) -> ClientView {
        ClientView {
            address: self.address@,
            settings: self.settings,
            conn: self.conn,
            status: self.status@,
            stats: self.stats@,
            store: self.store@,
            profile_name: self.profile_name@,
            samples: self.meter@,
        }
    }
}

/// A screen that has to be shown anew.
#[derive(Debug, PartialEq, Eq)]
pub struct Shown {
    pub bottom: bool,
    pub image: Image,
}

/// The contents of a screen to be shown.
#[verifier::ext_equal]
pub struct ShownView {
    pub bottom: bool,
    pub image: ImageView,
}

impl View for Shown {
    type V = ShownView;

    open spec fn view(&self) -> ShownView {
        ShownView { bottom: self.bottom, image: self.image@ }
    }
}

/// The contents of screens to be shown.
pub open spec fn shown_views(shown: Seq<Shown>) -> Seq<ShownView> {
    Seq::new(shown.len(), |i: int| shown[i]@)
}

/// The contents of events and the times when they were taken.
pub open spec fn event_views(events: Seq<(u64, Event)>) -> Seq<(u64, EventView)> {
    Seq::new(events.len(), |i: int| (events[i].0, events[i].1@))
}

impl ClientView {
    /// A client that remembers nothing but its profiles.
    pub open spec fn blank(store: StoreView) -> ClientView {
        ClientView {
            address: Seq::empty(),
            settings: crate::settings::initial(),
            conn: Conn::Idle,
            status: "Not connected"@,
            stats: Seq::empty(),
            store,
            profile_name: Seq::empty(),
            samples: Seq::empty(),
        }
    }

    /// The client once the profile of this name was loaded: its address, settings
    /// and name are taken over and it is selected. Nothing happens where there is
    /// none.
    pub open spec fn loaded(self, name: Seq<char>) -> ClientView {
        match self.store.lookup(name) {
            Some(p) => ClientView {
                address: p.address,
                settings: p.settings,
                profile_name: p.name,
                store: StoreView { last: Some(p.name), ..self.store },
                ..self
            },
            None => self,
        }
    }

    /// A client at its start: the profile that was selected last is loaded.
    pub open spec fn started(store: StoreView) -> ClientView {
        match store.last {
            Some(name) => ClientView::blank(store).loaded(name),
            None => ClientView::blank(store),
        }
    }

    /// The client once it has heard of an event of its connection. A screen counts
    /// for the meter. The end of the connection is dealt with later.
    pub open spec fn told(self, now: u64, event: EventView) -> ClientView {
        match (event, self.conn) {
            (EventView::Connected, Conn::Active { sent, caps, .. }) => ClientView {
                conn: Conn::Active { sent, connected: true, caps },
                status: "Connected"@,
                ..self
            },
            (EventView::Capabilities(a), Conn::Active { sent, connected, .. }) => ClientView {
                conn: Conn::Active { sent, connected, caps: Some(a) },
                status: "Connected (extended sysmodule rev "@ + text::decimal(a.revision as nat)
                    + ")"@,
                ..self
            },
            (EventView::Screen { bytes, .. }, _) => ClientView {
                samples: self.samples.push((now, bytes as usize)),
                ..self
            },
            (EventView::Stats(s), _) => ClientView { stats: s, ..self },
            (EventView::Info(s), _) => ClientView { status: s, ..self },
            _ => self,
        }
    }

    /// The client once it has heard of all these events, in turn.
    pub open spec fn told_all(self, events: Seq<(u64, EventView)>) -> ClientView
        decreases events.len(),
    {
        if events.len() == 0 {
            self
        } else {
            self.told(events[0].0, events[0].1).told_all(events.drop_first())
        }
    }

    /// The client once the waiting events were taken. Where one of them ends the
    /// connection, it is idle afterwards and the last such reason is its status.
    pub open spec fn drained(self, events: Seq<(u64, EventView)>) -> ClientView {
        let told = self.told_all(events);
        match last_reason(None, events) {
            Some(reason) => ClientView { conn: Conn::Idle, status: reason, ..told },
            None => told,
        }
    }

    /// The client once changed settings were sent.
    pub open spec fn pushed(self) -> ClientView {
        match self.conn {
            Conn::Active { sent, connected, caps } => if connected {
                ClientView {
                    conn: Conn::Active { sent: sent.after(self.settings, caps), connected, caps },
                    ..self
                }
            } else {
                self
            },
            Conn::Idle => self,
        }
    }

    /// The commands that changed settings call for.
    pub open spec fn commands(self) -> Seq<Cmd> {
        match self.conn {
            Conn::Active { sent, connected, caps } => if connected {
                changes(sent, self.settings, caps)
            } else {
                Seq::empty()
            },
            Conn::Idle => Seq::empty(),
        }
    }

    /// The client once it was told to connect, where it can: it is idle and there
    /// is an address.
    pub open spec fn connecting(self) -> ClientView {
        if self.can_connect() {
            ClientView {
                conn: Conn::Active {
                    sent: Sent::by_handshake(self.settings),
                    connected: false,
                    caps: None,
                },
                status: "Connecting\u{2026}"@,
                ..self
            }
        } else {
            self
        }
    }

    /// Whether the client can connect.
    pub open spec fn can_connect(self) -> bool {
        self.conn is Idle && text::trimmed(self.address).len() > 0
    }

    /// The client once the master balance was moved: it drives the knobs, unless the
    /// user has touched one.
    pub open spec fn master_moved(self, quality: u8) -> ClientView {
        ClientView {
            settings: if self.settings.custom {
                self.settings
            } else {
                self.settings.mastered(quality)
            },
            ..self
        }
    }

    /// The profile that would be saved.
    pub open spec fn draft(self) -> ProfileView {
        ProfileView {
            name: text::trimmed(self.profile_name),
            address: text::trimmed(self.address),
            settings: self.settings,
        }
    }
}

/// One command, where it is called for.
pub open spec fn when(called_for: bool, cmd: Cmd) -> Seq<Cmd> {
    if called_for {
        seq![cmd]
    } else {
        Seq::empty()
    }
}

/// The commands that lead from what was sent to the settings `s`. Knobs of
/// extended sysmodules are left alone unless the knob was announced.
pub open spec fn changes(sent: Sent, s: Settings, caps: Option<Announce>) -> Seq<Cmd> {
    let skip = caps matches Some(a) && a.announces(feature::STRIP_SKIP);
    let cap = caps matches Some(a) && a.announces(feature::FPS_CAP);
    when(sent.quality != s.quality, Cmd::SetQuality(s.quality)) + when(
        sent.screen != s.screen,
        Cmd::SetScreen(s.selected()),
    ) + when(sent.interlace != s.interlace, Cmd::SetInterlace(s.interlace)) + when(
        skip && sent.strip_skip != Some(s.strip_skip),
        Cmd::SetStripSkip(s.strip_skip),
    ) + when(
        skip && sent.refresh_interval != Some(s.refresh_interval),
        Cmd::SetRefreshInterval(s.refresh_interval),
    ) + when(cap && sent.fps_cap != Some(s.fps_cap), Cmd::SetFpsCap(s.fps_cap))
}

/// The reason that the last ending event gives, or `before` where none does.
pub open spec fn last_reason(before: Option<Seq<char>>, events: Seq<(u64, EventView)>) -> Option<
    Seq<char>,
>
    decreases events.len(),
{
    if events.len() == 0 {
        before
    } else {
        match events[0].1 {
            EventView::Disconnected(reason) => last_reason(Some(reason), events.drop_first()),
            _ => last_reason(before, events.drop_first()),
        }
    }
}

/// The screens that events show, in turn.
pub open spec fn screens(events: Seq<(u64, EventView)>) -> Seq<ShownView>
    decreases events.len(),
{
    if events.len() == 0 {
        Seq::empty()
    } else {
        match events[0].1 {
            EventView::Screen { bottom, image, .. } => seq![ShownView { bottom, image }] + screens(
                events.drop_first(),
            ),
            _ => screens(events.drop_first()),
        }
    }
}

/// Appends a command where it is called for.
fn push_when(cmds: &mut Vec<Cmd>, called_for: bool, cmd: Cmd)
    ensures
        final(cmds)@ == old(cmds)@ + when(called_for, cmd),
{
    if called_for {
        cmds.push(cmd);
    }
    proof {
        assert(cmds@ =~= old(cmds)@ + when(called_for, cmd));
    }
}

impl Client {
    /// A client at its start, and whether the profiles have to be saved.
    pub fn new(store: Store) -> (res: (Client, bool))
        ensures
            res.0@ == ClientView::started(store@),
            res.1 == (store@.last matches Some(name) && store@.lookup(name) is Some),
    {
        let last = match &store.last {
            Some(name) => Some(name.clone()),
            None => None,
        };
        let mut client = Client {
            address: String::new(),
            settings: Settings::default(),
            conn: Conn::Idle,
            status: "Not connected".to_owned(),
            stats: String::new(),
            store,
            profile_name: String::new(),
            meter: Meter::default(),
        };
        proof {
            assert(client@ =~= ClientView::blank(store@));
        }
        let save = match last {
            Some(name) => client.load_profile(name.as_str()),
            None => false,
        };
        (client, save)
    }

    /// Loads the profile of this name. Returns whether there is one, in which case
    /// the profiles have to be saved.
    pub fn load_profile(&mut self, name: &str) -> (found: bool)
        ensures
            final(self)@ == old(self)@.loaded(name@),
            found == (old(self)@.store.lookup(name@) is Some),
    {
        let ghost before = self@;
        let found = match self.store.get(name) {
            Some(p) => Some(p.clone()),
            None => None,
        };
        match found {
            Some(p) => {
                self.settings = p.settings;
                self.store.last = Some(p.name.clone());
                self.address = p.address;
                self.profile_name = p.name;
                proof {
                    assert(self@.store.profiles =~= before.store.profiles);
                    assert(self@ =~= before.loaded(name@));
                }
                true
            },
            None => false,
        }
    }

    /// Takes the waiting events, each with the time when it was taken. Returns the
    /// screens to be shown anew. An idle client has no events to take.
    pub fn drain_events(&mut self, events: VecDeque<(u64, Event)>) -> (shown: Vec<Shown>)
        ensures
            !(old(self)@.conn is Idle) ==> final(self)@ == old(self)@.drained(event_views(events@))
                && shown_views(shown@) == screens(event_views(events@)),
            old(self)@.conn is Idle ==> final(self)@ == old(self)@ && shown@.len() == 0,
    {
        let mut shown: Vec<Shown> = Vec::new();
        match self.conn {
            Conn::Idle => {
                return shown;
            },
            _ => {},
        }
        let ghost all = event_views(events@);
        let mut left = events;
        let mut reason: Option<String> = None;
        proof {
            assert(shown_views(shown@) + screens(all) =~= screens(all));
        }
        while left.len() > 0
            invariant
                self@.told_all(event_views(left@)) == old(self)@.told_all(all),
                last_reason(crate::profile::text_view(reason), event_views(left@)) == last_reason(
                    None,
                    all,
                ),
                shown_views(shown@) + screens(event_views(left@)) == screens(all),
            decreases left@.len(),
        {
            let ghost waiting = event_views(left@);
            let ghost before = shown_views(shown@);
            if let Some((now, event)) = left.pop_front() {
                proof {
                    assert(event_views(left@) =~= waiting.drop_first());
                    assert(waiting[0] == (now, event@));
                }
                match self.tell(now, event) {
                    Told::Nothing => {},
                    Told::Show(s) => {
                        shown.push(s);
                        proof {
                            assert(shown_views(shown@) =~= before + seq![s@]);
                            assert(before + (seq![s@] + screens(waiting.drop_first()))
                                =~= shown_views(shown@) + screens(waiting.drop_first()));
                        }
                    },
                    Told::Ended(why) => {
                        reason = Some(why);
                    },
                }
            }
        }
        proof {
            assert(shown_views(shown@) =~= screens(all));
        }
        if let Some(why) = reason {
            self.conn = Conn::Idle;
            self.status = why;
        }
        proof {
            assert(self@ =~= old(self)@.drained(all));
        }
        shown
    }

    /// Takes one event.
    fn tell(&mut self, now: u64, event: Event) -> (told: Told)
        ensures
            final(self)@ == old(self)@.told(now, event@),
            match event@ {
                EventView::Screen { bottom, image, .. } => told matches Told::Show(s) && s@ == (
                ShownView { bottom, image }),
                EventView::Disconnected(why) => told matches Told::Ended(s) && s@ == why,
                _ => told is Nothing,
            },
    {
        let ghost before = self@;
        let ghost heard = event@;
        let told = match event {
            Event::Connected => {
                match self.conn {
                    Conn::Active { sent, caps, .. } => {
                        self.conn = Conn::Active { sent, connected: true, caps };
                        self.status = "Connected".to_owned();
                    },
                    Conn::Idle => {},
                }
                Told::Nothing
            },
            Event::Capabilities(a) => {
                match self.conn {
                    Conn::Active { sent, connected, .. } => {
                        self.conn = Conn::Active { sent, connected, caps: Some(a) };
                        let mut s = "Connected (extended sysmodule rev ".to_owned();
                        text::put_decimal(&mut s, a.revision as u64);
                        s.append(")");
                        self.status = s;
                    },
                    Conn::Idle => {},
                }
                Told::Nothing
            },
            Event::Screen { bottom, image, bytes, .. } => {
                self.meter.push(now, bytes);
                Told::Show(Shown { bottom, image })
            },
            Event::Stats(s) => {
                self.stats = s;
                Told::Nothing
            },
            Event::Info(s) => {
                self.status = s;
                Told::Nothing
            },
            Event::Disconnected(why) => Told::Ended(why),
        };
        proof {
            assert(self@ =~= before.told(now, heard));
        }
        told
    }

    /// Takes note that changed settings are sent, and returns the commands that
    /// send them. Nothing is sent before the connection stands, and knobs of extended
    /// sysmodules are withheld until they are announced.
    pub fn push_settings(&mut self) -> (cmds: Vec<Cmd>)
        ensures
            final(self)@ == old(self)@.pushed(),
            cmds@ == old(self)@.commands(),
    {
        let mut cmds: Vec<Cmd> = Vec::new();
        let ghost before = self@;
        if let Conn::Active { sent, connected, caps } = self.conn {
            let s = self.settings;
            if connected {
                let (skip, cap) = match caps {
                    Some(a) => (a.has(feature::STRIP_SKIP), a.has(feature::FPS_CAP)),
                    None => (false, false),
                };
                push_when(&mut cmds, sent.quality != s.quality, Cmd::SetQuality(s.quality));
                push_when(&mut cmds, sent.screen != s.screen, Cmd::SetScreen(s.screen_set()));
                push_when(&mut cmds, sent.interlace != s.interlace, Cmd::SetInterlace(s.interlace));
                push_when(
                    &mut cmds,
                    skip && sent.strip_skip != Some(s.strip_skip),
                    Cmd::SetStripSkip(s.strip_skip),
                );
                push_when(
                    &mut cmds,
                    skip && sent.refresh_interval != Some(s.refresh_interval),
                    Cmd::SetRefreshInterval(s.refresh_interval),
                );
                push_when(
                    &mut cmds,
                    cap && sent.fps_cap != Some(s.fps_cap),
                    Cmd::SetFpsCap(s.fps_cap),
                );
                let now_sent = Sent {
                    quality: s.quality,
                    screen: s.screen,
                    interlace: s.interlace,
                    strip_skip: if skip {
                        Some(s.strip_skip)
                    } else {
                        sent.strip_skip
                    },
                    refresh_interval: if skip {
                        Some(s.refresh_interval)
                    } else {
                        sent.refresh_interval
                    },
                    fps_cap: if cap {
                        Some(s.fps_cap)
                    } else {
                        sent.fps_cap
                    },
                };
                self.conn = Conn::Active { sent: now_sent, connected, caps };
                proof {
                    assert(cmds@ =~= changes(sent, s, caps));
                }
            }
        }
        proof {
            assert(self@ =~= before.pushed());
        }
        cmds
    }

    /// Starts to connect. Returns the address to connect to, or nothing where the
    /// client is not idle or has no address.
    pub fn connect(&mut self) -> (address: Option<String>)
        ensures
            final(self)@ == old(self)@.connecting(),
            crate::profile::text_view(address) == (if old(self)@.can_connect() {
                Some(text::trimmed(old(self)@.address))
            } else {
                None
            }),
    {
        let ghost before = self@;
        match self.conn {
            Conn::Idle => {
                let address = text::trim(self.address.as_str());
                if address.as_str().unicode_len() == 0 {
                    return None;
                }
                let s = self.settings;
                let sent = Sent {
                    quality: s.quality,
                    screen: s.screen,
                    interlace: s.interlace,
                    strip_skip: None,
                    refresh_interval: None,
                    fps_cap: None,
                };
                self.conn = Conn::Active { sent, connected: false, caps: None };
                self.status = "Connecting\u{2026}".to_owned();
                proof {
                    assert(self@ =~= before.connecting());
                }
                Some(address)
            },
            _ => None,
        }
    }

    /// The command that ends the connection, where there is one.
    pub fn disconnect(&self) -> (cmd: Option<Cmd>)
        ensures
            cmd == (if self@.conn is Idle {
                None
            } else {
                Some(Cmd::Disconnect)
            }),
    {
        match self.conn {
            Conn::Idle => None,
            _ => Some(Cmd::Disconnect),
        }
    }

    /// Whether there is a name to save a profile under.
    pub fn can_save(&self) -> (b: bool)
        ensures
            b == (self@.draft().name.len() > 0),
    {
        text::trim(self.profile_name.as_str()).as_str().unicode_len() > 0
    }

    /// Saves the address and the settings under the name in the name field, where
    /// there is one. Returns whether the profiles have to be saved.
    pub fn save_profile(&mut self) -> (saved: bool)
        ensures
            saved == (old(self)@.draft().name.len() > 0),
            final(self)@ == (if saved {
                ClientView { store: old(self)@.store.upserted(old(self)@.draft()), ..old(self)@ }
            } else {
                old(self)@
            }),
    {
        let ghost before = self@;
        let name = text::trim(self.profile_name.as_str());
        if name.as_str().unicode_len() == 0 {
            return false;
        }
        let address = text::trim(self.address.as_str());
        self.store.upsert(Profile { name, address, settings: self.settings });
        proof {
            assert(self@ =~= ClientView { store: before.store.upserted(before.draft()), ..before });
        }
        true
    }

    /// Whether the name field names a profile.
    pub fn can_delete(&self) -> (b: bool)
        ensures
            b == (self@.store.lookup(self@.draft().name) is Some),
    {
        let name = text::trim(self.profile_name.as_str());
        match self.store.get(name.as_str()) {
            Some(_) => true,
            None => false,
        }
    }

    /// Deletes the profile that the name field names, where there is one. Returns
    /// whether the profiles have to be saved.
    pub fn delete_profile(&mut self) -> (deleted: bool)
        ensures
            deleted == (old(self)@.store.lookup(old(self)@.draft().name) is Some),
            final(self)@ == (if deleted {
                ClientView {
                    store: old(self)@.store.deleted(old(self)@.draft().name),
                    ..old(self)@
                }
            } else {
                old(self)@
            }),
    {
        let ghost before = self@;
        if !self.can_delete() {
            return false;
        }
        let name = text::trim(self.profile_name.as_str());
        self.store.delete(name.as_str());
        proof {
            assert(self@ =~= ClientView {
                store: before.store.deleted(before.draft().name),
                ..before
            });
        }
        true
    }

    /// The selected profile as the list shows it: a dash where none is.
    pub fn selected_label(&self) -> (s: String)
        ensures
            s@ == (match self@.store.last {
                Some(name) => if name.len() > 0 {
                    name
                } else {
                    "\u{2014}"@
                },
                None => "\u{2014}"@,
            }),
    {
        match &self.store.last {
            Some(name) => if name.as_str().unicode_len() > 0 {
                name.clone()
            } else {
                "\u{2014}".to_owned()
            },
            None => "\u{2014}".to_owned(),
        }
    }

    /// The master balance was moved: it drives the knobs, unless the user has touched
    /// one. The quality that belongs to it is given.
    pub fn master_changed(&mut self, quality: u8)
        ensures
            final(self)@ == old(self)@.master_moved(quality),
    {
        if !self.settings.custom {
            self.settings.apply_master(quality);
        }
    }

    /// The advanced knobs may have been moved: where they were, the master balance
    /// no longer drives them.
    pub fn knobs_edited(&mut self, before: Settings)
        ensures
            final(self)@ == (ClientView {
                settings: if old(self)@.settings.same(before) {
                    old(self)@.settings
                } else {
                    (Settings { custom: true, ..old(self)@.settings })
                },
                ..old(self)@
            }),
    {
        if self.settings != before {
            self.settings.custom = true;
        }
    }

    /// Whether the sysmodule announced this feature.
    pub fn supports(&self, feature_bit: u8) -> (b: bool)
        ensures
            b == self@.conn.supports(feature_bit),
    {
        match self.conn {
            Conn::Active { caps: Some(a), .. } => a.has(feature_bit),
            _ => false,
        }
    }

    /// Whether the knob of a feature can be moved: the feature was announced, or
    /// there is no connection yet.
    pub fn knob_enabled(&self, feature_bit: u8) -> (b: bool)
        ensures
            b == (self@.conn.supports(feature_bit) || self@.conn is Idle),
    {
        self.supports(feature_bit) || match self.conn {
            Conn::Idle => true,
            _ => false,
        }
    }

    /// What to add to the label of a feature's knob.
    pub fn knob_suffix(&self, feature_bit: u8) -> (s: &'static str)
        ensures
            s@ == (if self@.conn.supports(feature_bit) {
                ""@
            } else {
                " (needs extended sysmodule)"@
            }),
    {
        if self.supports(feature_bit) {
            ""
        } else {
            " (needs extended sysmodule)"
        }
    }

    /// Whether the top screen is shown.
    pub fn show_top(&self) -> (b: bool)
        ensures
            b == (self@.settings.screen != 2),
    {
        self.settings.screen != 2
    }

    /// Whether the bottom screen is shown.
    pub fn show_bottom(&self) -> (b: bool)
        ensures
            b == (self@.settings.screen != 1),
    {
        self.settings.screen != 1
    }

    /// What to say where no screen is there to be shown.
    pub fn placeholder(&self) -> (s: &'static str)
        ensures
            s@ == (match self@.conn {
                Conn::Idle => "Not connected"@,
                Conn::Active { connected, .. } => if connected {
                    "Connected \u{2014} waiting for frames\u{2026}"@
                } else {
                    "Connecting\u{2026}"@
                },
            }),
    {
        match self.conn {
            Conn::Idle => "Not connected",
            Conn::Active { connected: false, .. } => "Connecting\u{2026}",
            Conn::Active { .. } => "Connected \u{2014} waiting for frames\u{2026}",
        }
    }
}

/// What one event calls for.
enum Told {
    Nothing,
    Show(Shown),
    Ended(String),
}

} // verus!
