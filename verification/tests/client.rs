use flurry::client::{Client, Conn};
use flurry::legacy::{feature, Announce, ScreenSet};
use flurry::picture::{Image, Pixel};
use flurry::profile::{Profile, Store};
use flurry::settings::Settings;
use flurry::single::Single;
use flurry::worker::{Cmd, Event};
use std::collections::VecDeque;

fn fresh() -> Client {
    Client::new(Store::default()).0
}

fn connecting() -> Client {
    let mut c = fresh();
    c.address = " 10.0.0.2 ".into();
    assert_eq!(c.connect().as_deref(), Some("10.0.0.2"));
    c
}

fn tell(c: &mut Client, events: Vec<Event>) -> usize {
    let events: VecDeque<(u64, Event)> = events.into_iter().map(|e| (5, e)).collect();
    c.drain_events(events).len()
}

fn connected(features: u8) -> Client {
    let mut c = connecting();
    let caps = Announce {
        revision: 3,
        features,
        features2: 0,
    };
    tell(&mut c, vec![Event::Connected, Event::Capabilities(caps)]);
    c
}

fn saved(name: &str) -> Profile {
    Profile {
        name: name.into(),
        address: "1.2.3.4".into(),
        settings: Settings {
            quality: 11,
            ..Settings::default()
        },
    }
}

fn pixel_image() -> Image {
    Image {
        width: 1,
        height: 1,
        pixels: vec![Pixel { r: 1, g: 2, b: 3 }],
    }
}

#[test]
fn clients_start_idle() {
    let (c, save) = Client::new(Store::default());
    assert!(!save);
    assert_eq!(c.status, "Not connected");
    assert_eq!(c.placeholder(), "Not connected");
    assert!(matches!(c.conn, Conn::Idle));
    assert!(c.settings == Settings::default());
    assert_eq!(c.selected_label(), "—");
    assert_eq!(c.disconnect(), None);
}

#[test]
fn clients_start_with_the_last_profile() {
    let store = Store {
        profiles: vec![saved("a"), saved("b")],
        last: Some("b".into()),
    };
    let (c, save) = Client::new(store);
    assert!(save);
    assert_eq!((c.address.as_str(), c.profile_name.as_str()), ("1.2.3.4", "b"));
    assert_eq!(c.settings.quality, 11);
    assert_eq!(c.selected_label(), "b");
    let lost = Store {
        profiles: vec![saved("a")],
        last: Some("b".into()),
    };
    let (c, save) = Client::new(lost);
    assert!(!save);
    assert_eq!(c.settings.quality, 68);
}

#[test]
fn profiles_are_loaded_by_name() {
    let mut c = fresh();
    c.store.upsert(saved("a"));
    c.store.upsert(saved("b"));
    assert!(c.load_profile("a"));
    assert_eq!(c.store.last.as_deref(), Some("a"));
    assert_eq!(c.address, "1.2.3.4");
    assert!(!c.load_profile("c"));
    assert_eq!(c.store.last.as_deref(), Some("a"));
}

#[test]
fn saving_and_starting_again_restores() {
    let mut c = fresh();
    assert!(!c.can_save() && !c.save_profile());
    c.profile_name = " den ".into();
    c.address = "\t10.0.0.9\n".into();
    c.settings.quality = 33;
    assert!(c.can_save() && !c.can_delete());
    assert!(c.save_profile());
    assert!(c.can_delete());
    let (again, _) = Client::new(c.store);
    assert_eq!(again.profile_name, "den");
    assert_eq!(again.address, "10.0.0.9");
    assert_eq!(again.settings.quality, 33);
    let mut again = again;
    assert!(again.delete_profile());
    assert!(again.store.profiles.is_empty() && again.store.last.is_none());
    assert!(!again.delete_profile());
    assert_eq!(again.settings.quality, 33);
}

#[test]
fn connecting_needs_an_address() {
    let mut c = fresh();
    c.address = " \t ".into();
    assert_eq!(c.connect(), None);
    assert!(matches!(c.conn, Conn::Idle));
    let mut c = connecting();
    assert_eq!(c.status, "Connecting…");
    assert_eq!(c.placeholder(), "Connecting…");
    assert_eq!(c.connect(), None);
    assert_eq!(c.disconnect(), Some(Cmd::Disconnect));
}

#[test]
fn events_change_the_status() {
    let mut c = connecting();
    assert_eq!(tell(&mut c, vec![Event::Connected]), 0);
    assert_eq!(c.status, "Connected");
    assert_eq!(c.placeholder(), "Connected — waiting for frames…");
    let caps = Announce {
        revision: 12,
        features: 1,
        features2: 0,
    };
    tell(&mut c, vec![Event::Capabilities(caps)]);
    assert_eq!(c.status, "Connected (extended sysmodule rev 12)");
    tell(&mut c, vec![Event::Stats("s".into()), Event::Info("i".into())]);
    assert_eq!((c.stats.as_str(), c.status.as_str()), ("s", "i"));
}

#[test]
fn screens_are_shown_and_metered() {
    let mut c = connecting();
    let screen = |bottom: bool, bytes: usize| Event::Screen {
        bottom,
        image: pixel_image(),
        bytes,
        chunk: None,
    };
    let events = VecDeque::from(vec![(1, screen(false, 7)), (2, screen(true, 5))]);
    let shown = c.drain_events(events);
    let sides: Vec<bool> = shown.iter().map(|s| s.bottom).collect();
    assert_eq!(sides, [false, true]);
    assert_eq!(shown[0].image, pixel_image());
    assert_eq!(c.meter.rates(3), (2, 12));
}

#[test]
fn endings_wait_for_the_other_events() {
    let mut c = connecting();
    let events = vec![
        Event::Disconnected("first".into()),
        Event::Connected,
        Event::Disconnected("second".into()),
        Event::Stats("late".into()),
        Event::Info("later".into()),
    ];
    tell(&mut c, events);
    assert!(matches!(c.conn, Conn::Idle));
    assert_eq!(c.status, "second");
    assert_eq!(c.stats, "late");
    // An idle client takes nothing.
    assert_eq!(tell(&mut c, vec![Event::Info("lost".into())]), 0);
    assert_eq!(c.status, "second");
}

#[test]
fn changed_settings_are_sent_once() {
    let mut c = connected(feature::STRIP_SKIP | feature::FPS_CAP);
    // The handshake carries none of these.
    assert_eq!(
        c.push_settings(),
        vec![
            Cmd::SetStripSkip(true),
            Cmd::SetRefreshInterval(32),
            Cmd::SetFpsCap(0),
        ]
    );
    assert_eq!(c.push_settings(), vec![]);
    c.settings.quality = 90;
    c.settings.screen = 3;
    c.settings.interlace = true;
    c.settings.strip_skip = false;
    c.settings.refresh_interval = 7;
    c.settings.fps_cap = 30;
    assert_eq!(
        c.push_settings(),
        vec![
            Cmd::SetQuality(90),
            Cmd::SetScreen(ScreenSet::Both),
            Cmd::SetInterlace(true),
            Cmd::SetStripSkip(false),
            Cmd::SetRefreshInterval(7),
            Cmd::SetFpsCap(30),
        ]
    );
    assert_eq!(c.push_settings(), vec![]);
}

#[test]
fn extension_knobs_need_support() {
    let mut c = connected(feature::FPS_CAP);
    c.settings.strip_skip = false;
    c.settings.refresh_interval = 7;
    c.settings.fps_cap = 30;
    assert_eq!(c.push_settings(), vec![Cmd::SetFpsCap(30)]);
    assert!(c.supports(feature::FPS_CAP) && !c.supports(feature::STRIP_SKIP));
    assert!(c.knob_enabled(feature::FPS_CAP) && !c.knob_enabled(feature::STRIP_SKIP));
    assert_eq!(c.knob_suffix(feature::FPS_CAP), "");
    assert_eq!(
        c.knob_suffix(feature::STRIP_SKIP),
        " (needs extended sysmodule)"
    );
    let idle = fresh();
    assert!(idle.knob_enabled(feature::FPS_CAP));
    assert_eq!(
        idle.knob_suffix(feature::FPS_CAP),
        " (needs extended sysmodule)"
    );
}

#[test]
fn withheld_knobs_go_out_once_announced() {
    let mut c = connecting();
    tell(&mut c, vec![Event::Connected]);
    c.settings.fps_cap = 30;
    c.settings.quality = 7;
    assert_eq!(c.push_settings(), vec![Cmd::SetQuality(7)]);
    let Conn::Active { sent, .. } = c.conn else {
        panic!("idle");
    };
    assert_eq!((sent.quality, sent.fps_cap), (7, None));
    let caps = Announce {
        revision: 1,
        features: feature::FPS_CAP,
        features2: 0,
    };
    tell(&mut c, vec![Event::Capabilities(caps)]);
    assert_eq!(c.push_settings(), vec![Cmd::SetFpsCap(30)]);
    assert_eq!(c.push_settings(), vec![]);
    c.settings.refresh_interval = 9;
    assert_eq!(c.push_settings(), vec![]);
}

#[test]
fn edits_while_connecting_are_sent_later() {
    let mut c = connecting();
    c.settings.quality = 5;
    c.settings.fps_cap = 9;
    assert_eq!(c.push_settings(), vec![]);
    tell(&mut c, vec![Event::Connected]);
    assert_eq!(c.push_settings(), vec![Cmd::SetQuality(5)]);
    assert_eq!(fresh().push_settings(), vec![]);
}

#[test]
fn master_and_knobs_take_turns() {
    let mut c = fresh();
    let before = c.settings;
    c.knobs_edited(before);
    assert!(!c.settings.custom);
    c.settings.quality = 1;
    c.knobs_edited(before);
    assert!(c.settings.custom);
    c.settings.master = Single::from_bits(1.0f32.to_bits());
    c.master_changed(95);
    assert!(c.settings.custom);
    assert_eq!((c.settings.quality, c.settings.fps_cap), (1, 0));
    c.settings.custom = false;
    c.master_changed(95);
    assert_eq!((c.settings.quality, c.settings.fps_cap), (95, 24));
}

#[test]
fn selected_screens_are_shown() {
    let mut c = fresh();
    assert!(c.show_top() && !c.show_bottom());
    c.settings.screen = 2;
    assert!(!c.show_top() && c.show_bottom());
    c.settings.screen = 3;
    assert!(c.show_top() && c.show_bottom());
}
