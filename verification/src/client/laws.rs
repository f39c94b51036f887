//! What holds of the client from one paint to the next.

use crate::client::{ClientView, Conn, Sent, ShownView};
use crate::legacy::{feature, Announce};
use crate::profile::StoreView;
use crate::settings::Settings;
use crate::text;
use crate::worker::{Cmd, EventView};
use vstd::prelude::*;

verus! {

/// Settings are sent once: right after a push there is nothing more to send, and
/// a push changes neither the settings nor what the client shows.
pub proof fn second_push_sends_nothing(c: ClientView)
    ensures
        c.pushed().commands() == Seq::<Cmd>::empty(),
        c.pushed().pushed().settings == c.settings,
        c.pushed().status == c.status,
        c.pushed().conn is Idle == c.conn is Idle,
{
    if let Conn::Active { sent, connected, caps } = c.conn {
        if connected {
            assert(crate::client::changes(sent.after(c.settings, caps), c.settings, caps)
                =~= Seq::empty());
        }
    }
}

/// Nothing is sent while there is no standing connection.
pub proof fn nothing_is_sent_unconnected(c: ClientView)
    requires
        !(c.conn matches Conn::Active { connected: true, .. }),
    ensures
        c.commands() == Seq::<Cmd>::empty(),
        c.pushed() == c,
{
}

/// Which commands a push may send: knobs of extended sysmodules only once they
/// were announced, and never a command that ends the connection.
pub proof fn extension_knobs_need_support(c: ClientView, i: int)
    requires
        0 <= i < c.commands().len(),
    ensures
        match c.commands()[i] {
            Cmd::SetQuality(_) | Cmd::SetScreen(_) | Cmd::SetInterlace(_) => true,
            Cmd::SetStripSkip(_) | Cmd::SetRefreshInterval(_) => c.conn.supports(
                feature::STRIP_SKIP,
            ),
            Cmd::SetFpsCap(_) => c.conn.supports(feature::FPS_CAP),
            Cmd::SetChunks(_) | Cmd::SetStripSleep(_) | Cmd::Disconnect => false,
        },
{
}

/// Membership in a run of optional commands.
proof fn lemma_one_of(a: Seq<Cmd>, called_for: bool, cmd: Cmd, x: Cmd)
    ensures
        (a + crate::client::when(called_for, cmd)).contains(x) <==> a.contains(x) || (called_for
            && x == cmd),
{
    let w = crate::client::when(called_for, cmd);
    let b = a + w;
    if a.contains(x) {
        let i = choose|i: int| 0 <= i < a.len() && a[i] == x;
        assert(b[i] == x);
    }
    if called_for && x == cmd {
        assert(b[a.len() as int] == x);
    }
    if b.contains(x) {
        let i = choose|i: int| 0 <= i < b.len() && b[i] == x;
        if i < a.len() {
            assert(a[i] == x);
        }
    }
}

/// Edits apply live: over a standing connection a command is sent exactly where
/// its setting differs from what was sent last, and where its knob was announced
/// if it needs to be.
pub proof fn changed_knobs_are_sent(c: ClientView, x: Cmd)
    requires
        c.conn matches Conn::Active { connected: true, .. },
    ensures
        ({
            let sent = c.conn->sent;
            let s = c.settings;
            c.commands().contains(x) <==> match x {
                Cmd::SetQuality(q) => sent.quality != s.quality && q == s.quality,
                Cmd::SetScreen(set) => sent.screen != s.screen && set == s.selected(),
                Cmd::SetInterlace(on) => sent.interlace != s.interlace && on == s.interlace,
                Cmd::SetStripSkip(on) => sent.strip_skip != Some(s.strip_skip) && on == s.strip_skip
                    && c.conn.supports(feature::STRIP_SKIP),
                Cmd::SetRefreshInterval(n) => sent.refresh_interval != Some(s.refresh_interval) && n
                    == s.refresh_interval && c.conn.supports(feature::STRIP_SKIP),
                Cmd::SetFpsCap(f) => sent.fps_cap != Some(s.fps_cap) && f == s.fps_cap
                    && c.conn.supports(feature::FPS_CAP),
                _ => false,
            }
        }),
{
    let sent = c.conn->sent;
    let caps = c.conn->caps;
    let s = c.settings;
    let skip = c.conn.supports(feature::STRIP_SKIP);
    let cap = c.conn.supports(feature::FPS_CAP);
    let none = Seq::<Cmd>::empty();
    let a1 = crate::client::when(sent.quality != s.quality, Cmd::SetQuality(s.quality));
    let a2 = a1 + crate::client::when(sent.screen != s.screen, Cmd::SetScreen(s.selected()));
    let a3 = a2 + crate::client::when(
        sent.interlace != s.interlace,
        Cmd::SetInterlace(s.interlace),
    );
    let a4 = a3 + crate::client::when(
        skip && sent.strip_skip != Some(s.strip_skip),
        Cmd::SetStripSkip(s.strip_skip),
    );
    let a5 = a4 + crate::client::when(
        skip && sent.refresh_interval != Some(s.refresh_interval),
        Cmd::SetRefreshInterval(s.refresh_interval),
    );
    let a6 = a5 + crate::client::when(
        cap && sent.fps_cap != Some(s.fps_cap),
        Cmd::SetFpsCap(s.fps_cap),
    );
    lemma_one_of(none, sent.quality != s.quality, Cmd::SetQuality(s.quality), x);
    assert(none + a1 =~= a1);
    lemma_one_of(a1, sent.screen != s.screen, Cmd::SetScreen(s.selected()), x);
    lemma_one_of(a2, sent.interlace != s.interlace, Cmd::SetInterlace(s.interlace), x);
    lemma_one_of(
        a3,
        skip && sent.strip_skip != Some(s.strip_skip),
        Cmd::SetStripSkip(s.strip_skip),
        x,
    );
    lemma_one_of(
        a4,
        skip && sent.refresh_interval != Some(s.refresh_interval),
        Cmd::SetRefreshInterval(s.refresh_interval),
        x,
    );
    lemma_one_of(a5, cap && sent.fps_cap != Some(s.fps_cap), Cmd::SetFpsCap(s.fps_cap), x);
    assert(a6 == crate::client::changes(sent, s, caps));
}

/// Events in two parts are heard as they would be at once.
pub proof fn events_are_heard_in_turn(
    c: ClientView,
    a: Seq<(u64, EventView)>,
    b: Seq<(u64, EventView)>,
)
    ensures
        c.told_all(a + b) == c.told_all(a).told_all(b),
        crate::client::screens(a + b) == crate::client::screens(a) + crate::client::screens(b),
    decreases a.len(),
{
    if a.len() == 0 {
        assert(a + b =~= b);
        assert(crate::client::screens(a) + crate::client::screens(b) =~= crate::client::screens(b));
    } else {
        assert((a + b).drop_first() =~= a.drop_first() + b);
        events_are_heard_in_turn(c.told(a[0].0, a[0].1), a.drop_first(), b);
        let rest = crate::client::screens(a.drop_first());
        match a[0].1 {
            EventView::Screen { bottom, image, .. } => {
                let one = seq![crate::client::ShownView { bottom, image }];
                assert(one + (rest + crate::client::screens(b)) =~= one + rest
                    + crate::client::screens(b));
            },
            _ => {},
        }
    }
}

/// Hearing of events neither opens nor closes a connection by itself, and leaves
/// the user's fields alone.
proof fn lemma_told_all_keeps(c: ClientView, events: Seq<(u64, EventView)>)
    ensures
        ({
            let d = c.told_all(events);
            &&& d.conn is Idle == c.conn is Idle
            &&& d.address == c.address
            &&& d.settings == c.settings
            &&& d.store == c.store
            &&& d.profile_name == c.profile_name
            &&& !(c.conn is Idle) ==> d.conn->sent == c.conn->sent
        }),
    decreases events.len(),
{
    if events.len() > 0 {
        lemma_told_all_keeps(c.told(events[0].0, events[0].1), events.drop_first());
    }
}

/// Whatever came before, a reason is kept; and there is one exactly where some
/// event gives one or there was one already.
proof fn lemma_reason(before: Option<Seq<char>>, events: Seq<(u64, EventView)>)
    ensures
        crate::client::last_reason(before, events) is Some <==> (before is Some || exists|i: int|
            0 <= i < events.len() && (#[trigger] events[i]).1 is Disconnected),
    decreases events.len(),
{
    if events.len() > 0 {
        let rest = events.drop_first();
        if let EventView::Disconnected(why) = events[0].1 {
            lemma_reason(Some(why), rest);
        } else {
            lemma_reason(before, rest);
            if exists|i: int| 0 <= i < events.len() && (#[trigger] events[i]).1 is Disconnected {
                let i = choose|i: int|
                    0 <= i < events.len() && (#[trigger] events[i]).1 is Disconnected;
                assert(rest[i - 1] == events[i]);
            }
            if exists|i: int| 0 <= i < rest.len() && (#[trigger] rest[i]).1 is Disconnected {
                let i = choose|i: int|
                    0 <= i < rest.len() && (#[trigger] rest[i]).1 is Disconnected;
                assert(events[i + 1] == rest[i]);
            }
        }
    }
}

/// A connection ends exactly where one of the waiting events ends it, wherever it
/// stands among them. The user's fields, the settings and the profiles stay.
pub proof fn connection_ends_when_told(c: ClientView, events: Seq<(u64, EventView)>)
    requires
        !(c.conn is Idle),
    ensures
        c.drained(events).conn is Idle <==> exists|i: int|
            0 <= i < events.len() && (#[trigger] events[i]).1 is Disconnected,
        c.drained(events).address == c.address,
        c.drained(events).settings == c.settings,
        c.drained(events).store == c.store,
        c.drained(events).profile_name == c.profile_name,
{
    lemma_told_all_keeps(c, events);
    lemma_reason(None, events);
}

/// The reason that is shown is the last one.
pub proof fn last_reason_is_shown(
    c: ClientView,
    events: Seq<(u64, EventView)>,
    now: u64,
    why: Seq<char>,
)
    ensures
        c.drained(events.push((now, EventView::Disconnected(why)))).status == why,
        c.drained(events.push((now, EventView::Disconnected(why)))).conn is Idle,
{
    lemma_reason_push(None, events, now, why);
}

proof fn lemma_reason_push(
    before: Option<Seq<char>>,
    events: Seq<(u64, EventView)>,
    now: u64,
    why: Seq<char>,
)
    ensures
        crate::client::last_reason(before, events.push((now, EventView::Disconnected(why))))
            == Some(why),
    decreases events.len(),
{
    let end = (now, EventView::Disconnected(why));
    let all = events.push(end);
    if events.len() == 0 {
        assert(all.drop_first() =~= Seq::empty());
        assert(crate::client::last_reason(Some(why), all.drop_first()) == Some(why));
    } else {
        assert(all.drop_first() =~= events.drop_first().push(end));
        match events[0].1 {
            EventView::Disconnected(reason) => {
                lemma_reason_push(Some(reason), events.drop_first(), now, why);
            },
            _ => {
                lemma_reason_push(before, events.drop_first(), now, why);
            },
        }
    }
}

/// What changed between the start of a connection and its standing is sent as soon
/// as it stands: what the handshake carries counts as sent.
pub proof fn edits_while_connecting_are_sent(c: ClientView, edited: Settings, now: u64)
    requires
        c.can_connect(),
    ensures
        ({
            let waiting = ClientView { settings: edited, ..c.connecting() };
            let standing = waiting.told(now, EventView::Connected);
            &&& waiting.commands() == Seq::<Cmd>::empty()
            &&& standing.commands() == crate::client::changes(
                Sent::by_handshake(c.settings),
                edited,
                None,
            )
        }),
{
}

/// A withheld knob is not lost: pushing before it is announced sends nothing of it and
/// takes no note of it, and the first push after the announcement sends it where it is
/// not what was sent last. Nothing of it was sent when the connection began.
pub proof fn withheld_knobs_go_out_once_announced(c: ClientView, now: u64, a: Announce)
    requires
        c.conn matches Conn::Active { connected: true, .. },
    ensures
        ({
            let sent = c.conn->sent;
            let s = c.settings;
            let later = c.pushed().told(now, EventView::Capabilities(a));
            &&& !c.conn.supports(feature::FPS_CAP) ==> {
                &&& !c.commands().contains(Cmd::SetFpsCap(s.fps_cap))
                &&& c.pushed().conn->sent.fps_cap == sent.fps_cap
                &&& a.announces(feature::FPS_CAP) ==> (later.commands().contains(
                    Cmd::SetFpsCap(s.fps_cap),
                ) <==> sent.fps_cap != Some(s.fps_cap))
            }
            &&& !c.conn.supports(feature::STRIP_SKIP) ==> {
                &&& !c.commands().contains(Cmd::SetStripSkip(s.strip_skip))
                &&& !c.commands().contains(Cmd::SetRefreshInterval(s.refresh_interval))
                &&& c.pushed().conn->sent.strip_skip == sent.strip_skip
                &&& c.pushed().conn->sent.refresh_interval == sent.refresh_interval
                &&& a.announces(feature::STRIP_SKIP) ==> {
                    &&& later.commands().contains(Cmd::SetStripSkip(s.strip_skip))
                        <==> sent.strip_skip != Some(s.strip_skip)
                    &&& later.commands().contains(Cmd::SetRefreshInterval(s.refresh_interval))
                        <==> sent.refresh_interval != Some(s.refresh_interval)
                }
            }
        }),
{
    let s = c.settings;
    let later = c.pushed().told(now, EventView::Capabilities(a));
    assert(c.pushed().conn matches Conn::Active { connected: true, .. });
    assert(later.conn matches Conn::Active { connected: true, .. });
    changed_knobs_are_sent(c, Cmd::SetFpsCap(s.fps_cap));
    changed_knobs_are_sent(c, Cmd::SetStripSkip(s.strip_skip));
    changed_knobs_are_sent(c, Cmd::SetRefreshInterval(s.refresh_interval));
    changed_knobs_are_sent(later, Cmd::SetFpsCap(s.fps_cap));
    changed_knobs_are_sent(later, Cmd::SetStripSkip(s.strip_skip));
    changed_knobs_are_sent(later, Cmd::SetRefreshInterval(s.refresh_interval));
}

/// Over a new connection every knob of an extended sysmodule goes out once it is
/// announced, whatever its value: the handshake carries none of them.
pub proof fn new_connection_sends_announced_knobs(c: ClientView, now: u64, a: Announce)
    requires
        c.can_connect(),
    ensures
        ({
            let s = c.settings;
            let standing = c.connecting().told(now, EventView::Connected).told(
                now,
                EventView::Capabilities(a),
            );
            &&& standing.commands().contains(Cmd::SetFpsCap(s.fps_cap)) <==> a.announces(
                feature::FPS_CAP,
            )
            &&& standing.commands().contains(Cmd::SetStripSkip(s.strip_skip)) <==> a.announces(
                feature::STRIP_SKIP,
            )
            &&& standing.commands().contains(Cmd::SetRefreshInterval(s.refresh_interval))
                <==> a.announces(feature::STRIP_SKIP)
        }),
{
    let s = c.settings;
    let standing = c.connecting().told(now, EventView::Connected).told(
        now,
        EventView::Capabilities(a),
    );
    assert(standing.conn matches Conn::Active { connected: true, .. });
    changed_knobs_are_sent(standing, Cmd::SetFpsCap(s.fps_cap));
    changed_knobs_are_sent(standing, Cmd::SetStripSkip(s.strip_skip));
    changed_knobs_are_sent(standing, Cmd::SetRefreshInterval(s.refresh_interval));
}

/// Once the user has touched a knob, moving the master balance moves none of them.
pub proof fn touched_knobs_stay(c: ClientView, quality: u8)
    requires
        c.settings.custom,
    ensures
        c.master_moved(quality) == c,
{
}

/// Saving a profile and loading it by its name later gives the settings back, and
/// the address without the white space around it.
pub proof fn saved_profile_loads(c: ClientView, later: ClientView)
    requires
        later.store == c.store.upserted(c.draft()),
    ensures
        ({
            let back = later.loaded(c.draft().name);
            &&& back.settings == c.settings
            &&& back.address == text::trimmed(c.address)
            &&& back.profile_name == text::trimmed(c.profile_name)
            &&& back.store.last == Some(text::trimmed(c.profile_name))
            &&& back.store.profiles == later.store.profiles
            &&& back.conn == later.conn
        }),
{
    crate::profile::laws::saved_profile_is_found(c.store, c.draft(), Seq::empty());
}

/// A client that starts from the profiles of an earlier one has the settings that
/// were saved last.
pub proof fn start_restores_last_save(c: ClientView)
    ensures
        ({
            let next = ClientView::started(c.store.upserted(c.draft()));
            &&& next.settings == c.settings
            &&& next.address == text::trimmed(c.address)
            &&& next.conn is Idle
            &&& next.store == c.store.upserted(c.draft())
        }),
{
    crate::profile::laws::saved_profile_is_found(c.store, c.draft(), Seq::empty());
}

/// What each event does, and that it does nothing else. A connection stands once it is told
/// to; an announcement is kept; a screen counts for the meter with its bytes and its time;
/// statistics and notices are shown. The end of a connection is dealt with when all waiting
/// events were heard.
pub proof fn events_do_what_they_say(c: ClientView, now: u64, event: EventView)
    requires
        !(c.conn is Idle),
    ensures
        ({
            let d = c.told(now, event);
            &&& d.address == c.address && d.settings == c.settings && d.store == c.store
            &&& d.profile_name == c.profile_name
            &&& d.conn is Active && d.conn->sent == c.conn->sent
            &&& d.conn->connected <==> c.conn->connected || event is Connected
            &&& d.conn->caps == (match event {
                EventView::Capabilities(a) => Some(a),
                _ => c.conn->caps,
            })
            &&& d.samples == (match event {
                EventView::Screen { bytes, .. } => c.samples.push((now, bytes as usize)),
                _ => c.samples,
            })
            &&& d.stats == (match event {
                EventView::Stats(s) => s,
                _ => c.stats,
            })
            &&& d.status == (match event {
                EventView::Connected => "Connected"@,
                EventView::Capabilities(a) => "Connected (extended sysmodule rev "@
                    + text::decimal(a.revision as nat) + ")"@,
                EventView::Info(s) => s,
                _ => c.status,
            })
        }),
{
}

/// Events are heard from the first to the last, and a screen is shown for each that shows
/// one, in that order.
pub proof fn each_event_is_heard(
    c: ClientView,
    events: Seq<(u64, EventView)>,
    now: u64,
    event: EventView,
)
    ensures
        c.told_all(Seq::<(u64, EventView)>::empty()) == c,
        c.told_all(events.push((now, event))) == c.told_all(events).told(now, event),
        crate::client::screens(Seq::<(u64, EventView)>::empty()).len() == 0,
        crate::client::screens(events.push((now, event))) == (match event {
            EventView::Screen { bottom, image, .. } => crate::client::screens(events).push(
                ShownView { bottom, image },
            ),
            _ => crate::client::screens(events),
        }),
{
    let one = seq![(now, event)];
    let rest = one.drop_first();
    assert(events.push((now, event)) =~= events + one);
    events_are_heard_in_turn(c, events, one);
    assert(rest =~= Seq::<(u64, EventView)>::empty());
    let d = c.told_all(events);
    assert(one[0] == (now, event));
    assert(d.told_all(one) == d.told(now, event).told_all(rest));
    let all = crate::client::screens(events);
    assert(crate::client::screens(rest) =~= Seq::<ShownView>::empty());
    match event {
        EventView::Screen { bottom, image, .. } => {
            let x = ShownView { bottom, image };
            assert(crate::client::screens(one) =~= seq![x]);
            assert(all + seq![x] =~= all.push(x));
        },
        _ => {
            assert(crate::client::screens(one) =~= Seq::<ShownView>::empty());
            assert(all + Seq::<ShownView>::empty() =~= all);
        },
    }
}

/// Where nothing ends the connection, the waiting events are heard and that is all. Where
/// something does, the client is idle afterwards and shows the reason that came last,
/// whatever else was heard behind it.
pub proof fn last_ending_decides(c: ClientView, events: Seq<(u64, EventView)>, k: int)
    requires
        !(c.conn is Idle),
    ensures
        (forall|i: int| 0 <= i < events.len() ==> !((#[trigger] events[i]).1 is Disconnected))
            ==> c.drained(events) == c.told_all(events),
        0 <= k < events.len() && events[k].1 is Disconnected && (forall|i: int|
            k < i < events.len() ==> !((#[trigger] events[i]).1 is Disconnected)) ==> {
            let d = c.drained(events);
            &&& d.conn is Idle
            &&& d.status == events[k].1->Disconnected_0
            &&& d.stats == c.told_all(events).stats
            &&& d.samples == c.told_all(events).samples
        },
{
    lemma_reason(None, events);
    if 0 <= k < events.len() && events[k].1 is Disconnected && (forall|i: int|
        k < i < events.len() ==> !((#[trigger] events[i]).1 is Disconnected)) {
        lemma_last_reason(None, events, k);
    }
}

proof fn lemma_last_reason(before: Option<Seq<char>>, events: Seq<(u64, EventView)>, k: int)
    requires
        -1 <= k < events.len(),
        k >= 0 ==> events[k].1 is Disconnected,
        forall|i: int| k < i < events.len() ==> !((#[trigger] events[i]).1 is Disconnected),
    ensures
        crate::client::last_reason(before, events) == (if k >= 0 {
            Some(events[k].1->Disconnected_0)
        } else {
            before
        }),
    decreases events.len(),
{
    if events.len() > 0 {
        let rest = events.drop_first();
        assert forall|i: int| k - 1 < i < rest.len() && i >= 0 implies !((#[trigger] rest[i]).1
            is Disconnected) by {
            assert(rest[i] == events[i + 1]);
        }
        let next = match events[0].1 {
            EventView::Disconnected(reason) => Some(reason),
            _ => before,
        };
        let j = if k <= 0 {
            -1
        } else {
            k - 1
        };
        if k > 0 {
            assert(rest[k - 1] == events[k]);
        }
        lemma_last_reason(next, rest, j);
    }
}

/// A push takes note of what it sends: afterwards what was sent last is what the settings
/// are, but for knobs that were not announced, of which nothing new was sent.
pub proof fn pushes_are_noted(c: ClientView)
    requires
        c.conn matches Conn::Active { connected: true, .. },
    ensures
        ({
            let (old, new, s) = (c.conn->sent, c.pushed().conn->sent, c.settings);
            let skip = c.conn->caps matches Some(a) && a.features % 2 == 1;
            let cap = c.conn->caps matches Some(a) && a.features / 2 % 2 == 1;
            &&& c.pushed() == (ClientView { conn: c.pushed().conn, ..c })
            &&& c.pushed().conn->connected && c.pushed().conn->caps == c.conn->caps
            &&& new.quality == s.quality && new.screen == s.screen && new.interlace == s.interlace
            &&& new.strip_skip == (if skip {
                Some(s.strip_skip)
            } else {
                old.strip_skip
            })
            &&& new.refresh_interval == (if skip {
                Some(s.refresh_interval)
            } else {
                old.refresh_interval
            })
            &&& new.fps_cap == (if cap {
                Some(s.fps_cap)
            } else {
                old.fps_cap
            })
        }),
{
    lemma_announced_knobs(c);
}

/// What is announced of the knobs that are pushed.
pub(crate) proof fn lemma_announced_knobs(c: ClientView)
    ensures
        c.conn.supports(feature::STRIP_SKIP) <==> (c.conn.announced() matches Some(a) && a.features
            % 2 == 1),
        c.conn.supports(feature::FPS_CAP) <==> (c.conn.announced() matches Some(a) && a.features / 2
            % 2 == 1),
{
    if let Some(a) = c.conn.announced() {
        let f = a.features;
        assert((f & 0x01 != 0) == (f % 2 == 1)) by (bit_vector);
        assert((f & 0x02 != 0) == (f / 2 % 2 == 1)) by (bit_vector);
    }
}

/// No command is sent twice in one push: there are as many as settings that changed and may
/// be sent.
pub proof fn each_change_is_one_command(c: ClientView)
    requires
        c.conn matches Conn::Active { connected: true, .. },
    ensures
        ({
            let (sent, s) = (c.conn->sent, c.settings);
            let skip = c.conn->caps matches Some(a) && a.features % 2 == 1;
            let cap = c.conn->caps matches Some(a) && a.features / 2 % 2 == 1;
            let one = |b: bool|
                if b {
                    1int
                } else {
                    0
                };
            c.commands().len() == one(sent.quality != s.quality) + one(sent.screen != s.screen)
                + one(sent.interlace != s.interlace) + one(
                skip && sent.strip_skip != Some(s.strip_skip),
            ) + one(skip && sent.refresh_interval != Some(s.refresh_interval)) + one(
                cap && sent.fps_cap != Some(s.fps_cap),
            )
        }),
{
    lemma_announced_knobs(c);
}

/// Starting to connect notes what the handshake will send, and nothing of the knobs that have
/// to be announced; nothing is announced yet. It takes an idle client and an address that is
/// not all white space.
pub proof fn connecting_notes_the_handshake(c: ClientView)
    ensures
        c.can_connect() <==> c.conn is Idle && exists|i: int|
            0 <= i < c.address.len() && !text::is_white(#[trigger] c.address[i]),
        !c.can_connect() ==> c.connecting() == c,
        c.can_connect() ==> {
            let d = c.connecting();
            &&& d == (ClientView { conn: d.conn, status: "Connecting\u{2026}"@, ..c })
            &&& d.conn is Active && !d.conn->connected && d.conn->caps is None
            &&& d.conn->sent.quality == c.settings.quality
            &&& d.conn->sent.screen == c.settings.screen
            &&& d.conn->sent.interlace == c.settings.interlace
            &&& d.conn->sent.strip_skip is None
            &&& d.conn->sent.refresh_interval is None
            &&& d.conn->sent.fps_cap is None
        },
{
    text::trimmed_is_maximal(c.address);
}

/// Moving the master balance of untouched knobs moves what it drives and nothing else.
pub proof fn master_moves_what_it_drives(c: ClientView, quality: u8)
    requires
        !c.settings.custom,
    ensures
        c.master_moved(quality) == (ClientView { settings: c.master_moved(quality).settings, ..c }),
        c.master_moved(quality).settings.quality == quality,
        c.master_moved(quality).settings == c.settings.mastered(quality),
{
}

/// Loading a profile takes over its address, its settings and its name, and selects it; a
/// name that is none changes nothing.
pub proof fn loading_takes_a_profile_over(c: ClientView, name: Seq<char>)
    ensures
        c.store.lookup(name) is None ==> c.loaded(name) == c,
        c.store.lookup(name) matches Some(p) ==> {
            let d = c.loaded(name);
            &&& d.address == p.address && d.settings == p.settings && d.profile_name == p.name
            &&& d.store.last == Some(p.name) && d.store.profiles == c.store.profiles
            &&& d.conn == c.conn && d.status == c.status && d.stats == c.stats
            &&& d.samples == c.samples
        },
{
}

/// Which command this is, in the order in which they are sent.
pub open spec fn turn(cmd: Cmd) -> int {
    match cmd {
        Cmd::SetQuality(_) => 1,
        Cmd::SetScreen(_) => 2,
        Cmd::SetInterlace(_) => 3,
        Cmd::SetStripSkip(_) => 4,
        Cmd::SetRefreshInterval(_) => 5,
        Cmd::SetFpsCap(_) => 6,
        _ => 7,
    }
}

/// Whether commands are in their order, and all of them come before `bound`.
spec fn in_turn(cmds: Seq<Cmd>, bound: int) -> bool {
    &&& forall|i: int| 0 <= i < cmds.len() ==> turn(#[trigger] cmds[i]) < bound
    &&& forall|i: int, j: int|
        0 <= i < j < cmds.len() ==> turn(#[trigger] cmds[i]) < turn(#[trigger] cmds[j])
}

/// One more command behind those that come before it.
proof fn lemma_in_turn(cmds: Seq<Cmd>, called_for: bool, cmd: Cmd)
    requires
        in_turn(cmds, turn(cmd)),
    ensures
        in_turn(cmds + crate::client::when(called_for, cmd), turn(cmd) + 1),
{
}

/// Commands go out in a fixed order: the quality first, then the screens, then interlacing,
/// and the knobs of extended sysmodules behind them.
pub proof fn commands_keep_their_order(c: ClientView, i: int, j: int)
    requires
        0 <= i < j < c.commands().len(),
    ensures
        turn(c.commands()[i]) < turn(c.commands()[j]),
{
    if let Conn::Active { sent, connected: true, caps } = c.conn {
        let s = c.settings;
        let skip = caps matches Some(a) && a.announces(feature::STRIP_SKIP);
        let cap = caps matches Some(a) && a.announces(feature::FPS_CAP);
        let none = Seq::<Cmd>::empty();
        let quality = Cmd::SetQuality(s.quality);
        let screen = Cmd::SetScreen(s.selected());
        let interlace = Cmd::SetInterlace(s.interlace);
        let strip_skip = Cmd::SetStripSkip(s.strip_skip);
        let refresh = Cmd::SetRefreshInterval(s.refresh_interval);
        let fps_cap = Cmd::SetFpsCap(s.fps_cap);
        let skips = skip && sent.strip_skip != Some(s.strip_skip);
        let refreshes = skip && sent.refresh_interval != Some(s.refresh_interval);
        let caps_it = cap && sent.fps_cap != Some(s.fps_cap);
        let a1 = crate::client::when(sent.quality != s.quality, quality);
        let a2 = a1 + crate::client::when(sent.screen != s.screen, screen);
        let a3 = a2 + crate::client::when(sent.interlace != s.interlace, interlace);
        let a4 = a3 + crate::client::when(skips, strip_skip);
        let a5 = a4 + crate::client::when(refreshes, refresh);
        lemma_in_turn(none, sent.quality != s.quality, quality);
        assert(none + a1 =~= a1);
        lemma_in_turn(a1, sent.screen != s.screen, screen);
        lemma_in_turn(a2, sent.interlace != s.interlace, interlace);
        lemma_in_turn(a3, skips, strip_skip);
        lemma_in_turn(a4, refreshes, refresh);
        lemma_in_turn(a5, caps_it, fps_cap);
        assert(c.commands() == a5 + crate::client::when(caps_it, fps_cap));
    }
}

/// A client that remembers nothing has the first settings and an empty address, and is not
/// connected; one that remembers a profile starts with that.
pub proof fn clients_start_unconnected(store: StoreView)
    ensures
        ({
            let c = ClientView::started(store);
            &&& c.conn is Idle
            &&& c.status == "Not connected"@
            &&& c.stats.len() == 0 && c.samples.len() == 0
            &&& c.store.profiles == store.profiles
            &&& c.store.last == store.last
            &&& store.last is None ==> c.address.len() == 0 && c.profile_name.len() == 0
                && c.settings == crate::settings::initial()
            &&& store.last matches Some(name) ==> {
                &&& store.lookup(name) matches Some(p) ==> c.address == p.address && c.settings
                    == p.settings && c.profile_name == p.name
                &&& store.lookup(name) is None ==> c.address.len() == 0
                    && c.profile_name.len() == 0 && c.settings == crate::settings::initial()
            }
        }),
{
    if let Some(name) = store.last {
        crate::profile::lemma_first(store, name);
    }
}

} // verus!
