//! How a settings form that is in order changes the settings.

use crate::calls::{lemma_one_channel, stepped};
use crate::config::{copy_opt, opt_text, CHANNEL_COUNT, DISPATCH_GROUP_COUNT};
use crate::events::{copy_or_empty, event_views, text_or_empty, Event, EventView};
use crate::form::{
    asked_port, bridge_port_asked, channel_of, check_bridge, check_channels, check_form,
    check_group_mirror, check_groups, check_local, check_mirror, field, get_field, group_port_asked,
    groups_asked, is_blank, is_empty, is_ticked, local_port_asked, port_of, read_ip, read_port,
    ticked, PortField, TablesView,
};
use crate::form_errors::FormError;
use crate::state::{
    channel_index, compute_uri, computed_uri, lemma_group_from, Channel, ChannelStatus, ChannelView,
    Gateway, GatewayView,
};
use crate::text::{
    chars_of, cut, cut_to, number, parse_number, str_same, string_of, trim, trimmed, TextMap,
};
use vstd::prelude::*;
use vstd::string::*;

verus! {

// ---------------------------------------------------------------------------
// One channel
// ---------------------------------------------------------------------------

/// A text that a form sends, or the one that was there.
pub open spec fn text_sent(sent: Option<Seq<char>>, stored: Seq<char>) -> Seq<char> {
    match sent {
        Some(t) => t,
        None => stored,
    }
}

fn take_text(sent: Option<&String>, stored: &String) -> (r: String)
    ensures
        r@ == text_sent(
            match sent {
                Some(s) => Some(s@),
                None => None,
            },
            stored@,
        ),
{
    match sent {
        Some(t) => t.clone(),
        None => stored.clone(),
    }
}

/// A port that a form sends, or the one that was there where it sends none.
pub open spec fn port_sent(sent: Option<Seq<char>>, stored: u16) -> u16 {
    match sent {
        Some(t) => match port_of(t) {
            Some(p) => p,
            None => stored,
        },
        None => stored,
    }
}

fn take_port(sent: Option<&String>, stored: u16) -> (r: u16)
    ensures
        r == port_sent(
            match sent {
                Some(s) => Some(s@),
                None => None,
            },
            stored,
        ),
{
    match sent {
        Some(t) => match read_port(t) {
            Some(p) => p,
            None => stored,
        },
        None => stored,
    }
}

/// A local port that a form sends: none where the field is blank, and the one that
/// was there where it holds no port or was not sent.
pub open spec fn own_port_sent(
    sent: Option<Seq<char>>,
    blank: spec_fn(Seq<char>) -> bool,
    stored: Option<u16>,
) -> Option<u16> {
    match sent {
        Some(t) => if blank(t) {
            None
        } else {
            match port_of(t) {
                Some(p) => Some(p),
                None => stored,
            }
        },
        None => stored,
    }
}

fn take_own_port(sent: Option<&String>, trims: bool, stored: Option<u16>) -> (r: Option<u16>)
    ensures
        r == own_port_sent(
            match sent {
                Some(s) => Some(s@),
                None => None,
            },
            if trims {
                is_blank()
            } else {
                is_empty()
            },
            stored,
        ),
{
    match sent {
        Some(t) => {
            let nothing = if trims {
                let cs = chars_of(t.as_str());
                trim(cs.as_slice()).len() == 0
            } else {
                t.as_str().is_empty()
            };
            if nothing {
                None
            } else {
                match read_port(t) {
                    Some(p) => Some(p),
                    None => stored,
                }
            }
        },
        None => stored,
    }
}

/// A user that a form sends; an empty one is none.
pub open spec fn user_sent(sent: Option<Seq<char>>, stored: Option<Seq<char>>) -> Option<
    Seq<char>,
> {
    match sent {
        Some(t) => if t.len() == 0 {
            None
        } else {
            Some(t)
        },
        None => stored,
    }
}

/// A channel with the label, and with what a form says of where it calls and how.
pub open spec fn with_target(
    c: ChannelView,
    form: Map<Seq<char>, Seq<char>>,
    label: Seq<char>,
) -> ChannelView {
    let protocol = text_sent(field(form, "protocol_"@, c.id), c.protocol);
    let target_ip = text_sent(field(form, "target_ip_"@, c.id), c.target_ip);
    let target_port = port_sent(field(form, "target_port_"@, c.id), c.target_port);
    let sip_user = user_sent(field(form, "sip_user_"@, c.id), c.sip_user);
    ChannelView {
        label,
        protocol,
        target_ip,
        target_port,
        sip_user,
        srtp_enabled: ticked(form, "srtp_enabled_"@, c.id),
        sip_auth_required: ticked(form, "sip_auth_required_"@, c.id),
        target_uri: computed_uri(protocol, sip_user, target_ip, target_port),
        local_port: own_port_sent(field(form, "local_port_"@, c.id), is_empty(), c.local_port),
        codec: text_sent(field(form, "codec_"@, c.id), c.codec),
        ..c
    }
}

/// The number of a radio's keying line that a form sends: at most 63.
pub open spec fn ptt_id_sent(sent: Option<Seq<char>>, stored: u8) -> u8 {
    match sent {
        Some(t) => match number(t, 255) {
            Some(n) => if n < 63 {
                n as u8
            } else {
                63
            },
            None => stored,
        },
        None => stored,
    }
}

/// A channel with what a form says of its legs and its radio.
pub open spec fn with_switches(c: ChannelView, form: Map<Seq<char>, Seq<char>>) -> ChannelView {
    ChannelView {
        amp_enabled: ticked(form, "amp_channel_enabled_"@, c.id),
        bridge_enabled: ticked(form, "bridge_channel_enabled_"@, c.id),
        ed137_enabled: ticked(form, "ed137_enabled_"@, c.id),
        ed137_ptt_id: ptt_id_sent(field(form, "ed137_ptt_id_"@, c.id), c.ed137_ptt_id),
        ..c
    }
}

/// An address that a form sends for a leg, the machine itself where it is blank,
/// or the one that was there where it sends none.
pub open spec fn leg_ip_sent(sent: Option<Seq<char>>, stored: Seq<char>) -> Seq<char> {
    match sent {
        Some(t) => if trimmed(t).len() == 0 {
            "127.0.0.1"@
        } else {
            trimmed(t)
        },
        None => stored,
    }
}

/// A channel with what a form says of where its recorder and its bridge are.
pub open spec fn with_legs(c: ChannelView, form: Map<Seq<char>, Seq<char>>) -> ChannelView {
    ChannelView {
        amp_ip: leg_ip_sent(field(form, "amp_ip_"@, c.id), c.amp_ip),
        amp_port: port_sent(field(form, "amp_port_"@, c.id), c.amp_port),
        bridge_ip: leg_ip_sent(field(form, "bridge_ip_"@, c.id), c.bridge_ip),
        bridge_port: port_sent(field(form, "bridge_port_"@, c.id), c.bridge_port),
        bridge_local_port: own_port_sent(
            field(form, "bridge_local_port_"@, c.id),
            is_blank(),
            c.bridge_local_port,
        ),
        ..c
    }
}

/// The alias that a form gives a channel, shortened; one that cannot be shortened
/// is refused before.
pub open spec fn label_sent(sent: Option<Seq<char>>, stored: Seq<char>) -> Seq<char> {
    match sent {
        Some(l) => match cut_to(trimmed(l), 7) {
            Some(t) => t,
            None => trimmed(l),
        },
        None => stored,
    }
}

/// A channel with what a form says of it. One with a call keeps all but where its
/// recorder and its bridge are.
pub open spec fn edited(c: ChannelView, form: Map<Seq<char>, Seq<char>>) -> ChannelView {
    if c.status.is_free() {
        with_legs(
            with_switches(
                with_target(c, form, label_sent(field(form, "label_"@, c.id), c.label)),
                form,
            ),
            form,
        )
    } else {
        with_legs(c, form)
    }
}

/// A channel with what a plain form says of it: only where it calls and how.
pub open spec fn plainly_edited(c: ChannelView, form: Map<Seq<char>, Seq<char>>) -> ChannelView {
    if c.status.is_free() {
        with_target(c, form, text_sent(field(form, "label_"@, c.id), c.label))
    } else {
        c
    }
}

fn take_label(sent: Option<&String>, stored: &String) -> (r: String)
    ensures
        r@ == label_sent(
            match sent {
                Some(s) => Some(s@),
                None => None,
            },
            stored@,
        ),
{
    match sent {
        Some(l) => {
            let cs = chars_of(l.as_str());
            let whole = trim(cs.as_slice());
            match cut(whole, 7) {
                Some(t) => string_of(t),
                None => string_of(whole),
            }
        },
        None => stored.clone(),
    }
}

fn take_leg_ip(sent: Option<&String>, stored: &String) -> (r: String)
    ensures
        r@ == leg_ip_sent(
            match sent {
                Some(s) => Some(s@),
                None => None,
            },
            stored@,
        ),
{
    if sent.is_some() {
        read_ip(sent)
    } else {
        stored.clone()
    }
}

fn take_ptt_id(sent: Option<&String>, stored: u8) -> (r: u8)
    ensures
        r == ptt_id_sent(
            match sent {
                Some(s) => Some(s@),
                None => None,
            },
            stored,
        ),
{
    match sent {
        Some(t) => {
            let cs = chars_of(t.as_str());
            match parse_number(cs.as_slice(), 255) {
                Some(n) => if n < 63 {
                    n as u8
                } else {
                    63
                },
                None => stored,
            }
        },
        None => stored,
    }
}

fn take_user(sent: Option<&String>, stored: &Option<String>) -> (r: Option<String>)
    ensures
        opt_text(r) == user_sent(
            match sent {
                Some(s) => Some(s@),
                None => None,
            },
            opt_text(*stored),
        ),
{
    match sent {
        Some(t) => if t.as_str().is_empty() {
            None
        } else {
            Some(t.clone())
        },
        None => copy_opt(stored),
    }
}

impl Channel {
    fn set_target(&mut self, form: &TextMap, label: String)
        ensures
            final(self)@ == with_target(old(self)@, form@, label@),
    {
        let id: u32 = self.id;
        self.label = label;
        self.protocol = take_text(get_field(form, "protocol_", id), &self.protocol);
        self.target_ip = take_text(get_field(form, "target_ip_", id), &self.target_ip);
        self.target_port = take_port(get_field(form, "target_port_", id), self.target_port);
        self.sip_user = take_user(get_field(form, "sip_user_", id), &self.sip_user);
        self.srtp_enabled = is_ticked(form, "srtp_enabled_", id);
        self.sip_auth_required = is_ticked(form, "sip_auth_required_", id);
        self.target_uri =
        compute_uri(
            self.protocol.as_str(),
            &self.sip_user,
            self.target_ip.as_str(),
            self.target_port,
        );
        self.local_port =
        take_own_port(get_field(form, "local_port_", id), false, self.local_port);
        self.codec = take_text(get_field(form, "codec_", id), &self.codec);
    }

    fn set_switches(&mut self, form: &TextMap)
        ensures
            final(self)@ == with_switches(old(self)@, form@),
    {
        let id: u32 = self.id;
        self.amp_enabled = is_ticked(form, "amp_channel_enabled_", id);
        self.bridge_enabled = is_ticked(form, "bridge_channel_enabled_", id);
        self.ed137_enabled = is_ticked(form, "ed137_enabled_", id);
        self.ed137_ptt_id = take_ptt_id(get_field(form, "ed137_ptt_id_", id), self.ed137_ptt_id);
    }

    fn set_legs(&mut self, form: &TextMap)
        ensures
            final(self)@ == with_legs(old(self)@, form@),
    {
        let id: u32 = self.id;
        self.amp_ip = take_leg_ip(get_field(form, "amp_ip_", id), &self.amp_ip);
        self.amp_port = take_port(get_field(form, "amp_port_", id), self.amp_port);
        self.bridge_ip = take_leg_ip(get_field(form, "bridge_ip_", id), &self.bridge_ip);
        self.bridge_port = take_port(get_field(form, "bridge_port_", id), self.bridge_port);
        self.bridge_local_port =
        take_own_port(get_field(form, "bridge_local_port_", id), true, self.bridge_local_port);
    }

    fn edit(&mut self, form: &TextMap)
        ensures
            final(self)@ == edited(old(self)@, form@),
    {
        if self.status.free() {
            let label = take_label(get_field(form, "label_", self.id), &self.label);
            self.set_target(form, label);
            self.set_switches(form);
        }
        self.set_legs(form);
    }

    fn plainly_edit(&mut self, form: &TextMap)
        ensures
            final(self)@ == plainly_edited(old(self)@, form@),
    {
        if self.status.free() {
            let label = take_text(get_field(form, "label_", self.id), &self.label);
            self.set_target(form, label);
        }
    }
}

// ---------------------------------------------------------------------------
// All channels
// ---------------------------------------------------------------------------

/// How a form changes a channel.
pub open spec fn step_edited(form: Map<Seq<char>, Seq<char>>, plain: bool) -> spec_fn(
    ChannelView,
) -> ChannelView {
    |c: ChannelView|
        if plain {
            plainly_edited(c, form)
        } else {
            edited(c, form)
        }
}

/// The state with what a form says of the first so many channels.
pub open spec fn edited_up_to(
    g: GatewayView,
    form: Map<Seq<char>, Seq<char>>,
    plain: bool,
    count: nat,
) -> GatewayView
    decreases count,
{
    if count == 0 {
        g
    } else {
        stepped(
            edited_up_to(g, form, plain, (count - 1) as nat),
            count as u32,
            step_edited(form, plain),
        )
    }
}

/// What is announced of it: each channel that is there.
pub open spec fn edit_events(
    g: GatewayView,
    form: Map<Seq<char>, Seq<char>>,
    plain: bool,
    count: nat,
) -> Seq<EventView>
    decreases count,
{
    if count == 0 {
        Seq::empty()
    } else {
        let before = edited_up_to(g, form, plain, (count - 1) as nat);
        let after = edited_up_to(g, form, plain, count);
        let earlier = edit_events(g, form, plain, (count - 1) as nat);
        match channel_index(before.channels, count as u32) {
            Some(i) => earlier.push(EventView::Update { channel: after.channels[i] }),
            None => earlier,
        }
    }
}

impl Gateway {
    fn edit_channels(&mut self, form: &TextMap, plain: bool) -> (r: Vec<Event>)
        ensures
            final(self)@ == edited_up_to(old(self)@, form@, plain, CHANNEL_COUNT as nat),
            event_views(r@) == edit_events(old(self)@, form@, plain, CHANNEL_COUNT as nat),
    {
        let mut events: Vec<Event> = Vec::new();
        let mut id: u32 = 1;
        assert(event_views(events@) =~= Seq::<EventView>::empty());
        while id <= CHANNEL_COUNT
            invariant
                1 <= id <= 13,
                self@ == edited_up_to(old(self)@, form@, plain, (id - 1) as nat),
                event_views(events@) == edit_events(old(self)@, form@, plain, (id - 1) as nat),
            decreases 13 - id,
        {
            let ghost seen = events@;
            let ghost was = self@;
            if let Some(i) = self.find_channel(id) {
                let ghost before = self.channels@;
                if plain {
                    self.channels[i].plainly_edit(form);
                } else {
                    self.channels[i].edit(form);
                }
                proof {
                    lemma_one_channel(before, self.channels@, i as int, self.channels@[i as int]);
                }
                assert(self@ == stepped(was, id, step_edited(form@, plain)));
                events.push(Event::Update { channel: self.channels[i].copy() });
                assert(event_views(events@) =~= event_views(seen).push(
                    EventView::Update { channel: self@.channels[i as int] },
                ));
            }
            id += 1;
        }
        events
    }
}

/// A channel that sends to its recorder exactly where it should.
pub open spec fn with_streaming(c: ChannelView, on: bool) -> ChannelView {
    ChannelView { amp_streaming: on && c.amp_enabled && c.status is Connected, ..c }
}

/// The channels, each sending to its recorder exactly where it should.
pub open spec fn all_streaming(s: Seq<ChannelView>, on: bool) -> Seq<ChannelView> {
    s.map_values(|c: ChannelView| with_streaming(c, on))
}

/// What is announced of it: each of the first so many channels that changed.
pub open spec fn streaming_events(s: Seq<ChannelView>, on: bool, count: int) -> Seq<EventView>
    decreases count,
{
    if count <= 0 {
        Seq::empty()
    } else {
        let earlier = streaming_events(s, on, count - 1);
        let c = s[count - 1];
        if with_streaming(c, on).amp_streaming != c.amp_streaming {
            earlier.push(EventView::Update { channel: with_streaming(c, on) })
        } else {
            earlier
        }
    }
}

impl Channel {
    fn set_streaming(&mut self, on: bool) -> (r: bool)
        ensures
            final(self)@ == with_streaming(old(self)@, on),
            r == (final(self)@.amp_streaming != old(self)@.amp_streaming),
    {
        let was = self.amp_streaming;
        let connected = match self.status {
            ChannelStatus::Connected => true,
            _ => false,
        };
        self.amp_streaming = on && self.amp_enabled && connected;
        was != self.amp_streaming
    }
}

impl Gateway {
    fn follow_recorders(&mut self, events: &mut Vec<Event>)
        ensures
            final(self)@ == (GatewayView {
                channels: all_streaming(old(self)@.channels, old(self)@.amp_enabled),
                ..old(self)@
            }),
            event_views(final(events)@) == event_views(old(events)@) + streaming_events(
                old(self)@.channels,
                old(self)@.amp_enabled,
                old(self)@.channels.len() as int,
            ),
    {
        let on = self.amp_enabled;
        let mut i: usize = 0;
        let ghost all = old(self)@.channels;
        assert(event_views(events@) =~= event_views(old(events)@) + streaming_events(all, on, 0));
        while i < self.channels.len()
            invariant
                i <= self.channels@.len(),
                on == old(self)@.amp_enabled,
                all == old(self)@.channels,
                self@ == (GatewayView { channels: self@.channels, ..old(self)@ }),
                self@.channels.len() == all.len(),
                forall|k: int|
                    0 <= k < i ==> (#[trigger] self@.channels[k]) == with_streaming(all[k], on),
                forall|k: int| i <= k < all.len() ==> (#[trigger] self@.channels[k]) == all[k],
                event_views(events@) == event_views(old(events)@) + streaming_events(
                    all,
                    on,
                    i as int,
                ),
            decreases self.channels@.len() - i,
        {
            let ghost before = self.channels@;
            let ghost seen = events@;
            assert(self@.channels[i as int] == before[i as int]@);
            let changed = self.channels[i].set_streaming(on);
            proof {
                lemma_one_channel(before, self.channels@, i as int, self.channels@[i as int]);
            }
            if changed {
                events.push(Event::Update { channel: self.channels[i].copy() });
                assert(event_views(events@) =~= event_views(seen).push(
                    EventView::Update { channel: with_streaming(all[i as int], on) },
                ));
            }
            assert(event_views(events@) =~= event_views(old(events)@) + streaming_events(
                all,
                on,
                i as int + 1,
            ));
            i += 1;
        }
        assert(self@.channels =~= all_streaming(all, on));
    }
}

// ---------------------------------------------------------------------------
// Saving
// ---------------------------------------------------------------------------

/// The device that a form chooses, or the one that was there.
pub open spec fn device_sent(
    form: Map<Seq<char>, Seq<char>>,
    stored: Option<Seq<char>>,
) -> Option<Seq<char>> {
    if form.contains_key("selected_device"@) {
        let d = form["selected_device"@];
        if d == "none"@ || d.len() == 0 {
            None
        } else {
            Some(d)
        }
    } else {
        stored
    }
}

fn take_device(form: &TextMap, stored: &Option<String>) -> (r: Option<String>)
    ensures
        opt_text(r) == device_sent(form@, opt_text(*stored)),
{
    match form.get("selected_device") {
        Some(d) => if str_same(d.as_str(), "none") || d.as_str().is_empty() {
            None
        } else {
            Some(d.clone())
        },
        None => copy_opt(stored),
    }
}

/// The state with what a form says of all channels together.
pub open spec fn with_globals(
    g: GatewayView,
    form: Map<Seq<char>, Seq<char>>,
    sip_port: u16,
) -> GatewayView {
    GatewayView {
        sip_port,
        selected_device: device_sent(form, g.selected_device),
        amp_enabled: form.contains_key("amp_enabled"@),
        bridge_enabled: form.contains_key("bridge_enabled"@),
        groups: groups_asked(g, form),
        ..g
    }
}

/// The state with what a form says, but for which calls are recorded.
pub open spec fn before_recorders(
    g: GatewayView,
    form: Map<Seq<char>, Seq<char>>,
    sip_port: u16,
) -> GatewayView {
    edited_up_to(with_globals(g, form, sip_port), form, false, CHANNEL_COUNT as nat)
}

/// The state once a form was saved.
pub open spec fn saved(
    g: GatewayView,
    form: Map<Seq<char>, Seq<char>>,
    sip_port: u16,
) -> GatewayView {
    let mid = before_recorders(g, form, sip_port);
    GatewayView { channels: all_streaming(mid.channels, mid.amp_enabled), ..mid }
}

/// The state with the settings that a form on the plain page gives the gateway itself.
pub open spec fn before_plain_edits(
    g: GatewayView,
    form: Map<Seq<char>, Seq<char>>,
) -> GatewayView {
    GatewayView {
        sip_port: port_sent(
            if form.contains_key("sip_port"@) {
                Some(form["sip_port"@])
            } else {
                None
            },
            g.sip_port,
        ),
        selected_device: device_sent(form, g.selected_device),
        ..g
    }
}

/// The state after a form on the plain page was saved.
pub open spec fn plainly_saved(g: GatewayView, form: Map<Seq<char>, Seq<char>>) -> GatewayView {
    edited_up_to(before_plain_edits(g, form), form, true, CHANNEL_COUNT as nat)
}

/// The announcement of the settings that concern all channels.
pub open spec fn config_event(g: GatewayView) -> EventView {
    EventView::ConfigUpdate {
        sip_port: g.sip_port,
        selected_device: text_or_empty(g.selected_device),
        amp_enabled: g.amp_enabled,
        bridge_enabled: g.bridge_enabled,
    }
}

/// What is announced once a form was saved.
pub open spec fn saved_events(
    g: GatewayView,
    form: Map<Seq<char>, Seq<char>>,
    sip_port: u16,
) -> Seq<EventView> {
    let mid = before_recorders(g, form, sip_port);
    edit_events(with_globals(g, form, sip_port), form, false, CHANNEL_COUNT as nat).push(
        config_event(mid),
    ) + streaming_events(mid.channels, mid.amp_enabled, mid.channels.len() as int)
}

impl Gateway {
    /// Checks a form and saves it: gives what is announced, or what is wrong with
    /// the form, which then changes nothing.
    pub fn save_form(&mut self, form: &TextMap) -> (r: Result<Vec<Event>, FormError>)
        ensures
            match check_form(old(self)@, form@) {
                Ok(sip_port) => final(self)@ == saved(old(self)@, form@, sip_port) && (r matches Ok(
                    events,
                ) && event_views(events@) == saved_events(old(self)@, form@, sip_port)),
                Err(e) => final(self)@ == old(self)@ && r == Err::<Vec<Event>, FormError>(e),
            },
    {
        let (sip_port, groups) = match self.check_form(form) {
            Ok(x) => x,
            Err(e) => {
                return Err(e);
            },
        };
        self.sip_port = sip_port;
        self.selected_device = take_device(form, &self.selected_device);
        self.amp_enabled = form.contains("amp_enabled");
        self.bridge_enabled = form.contains("bridge_enabled");
        self.dispatch_groups = groups;
        assert(self@ == with_globals(old(self)@, form@, sip_port));
        let mut events = self.edit_channels(form, false);
        let ghost seen = events@;
        events.push(self.config_update());
        assert(event_views(events@) =~= event_views(seen).push(config_event(self@)));
        self.follow_recorders(&mut events);
        Ok(events)
    }

    /// The announcement of the settings that concern all channels.
    pub fn config_update(&self) -> (r: Event)
        ensures
            r@ == config_event(self@),
    {
        Event::ConfigUpdate {
            sip_port: self.sip_port,
            selected_device: copy_or_empty(&self.selected_device),
            amp_enabled: self.amp_enabled,
            bridge_enabled: self.bridge_enabled,
        }
    }

    /// Saves a plain form, which knows neither legs nor groups. Nothing in it is
    /// refused: a port that is none is passed over.
    pub fn save_plain_form(&mut self, form: &TextMap) -> (r: Vec<Event>)
        ensures
            ({
                let start = before_plain_edits(old(self)@, form@);
                &&& final(self)@ == plainly_saved(old(self)@, form@)
                &&& event_views(r@) == edit_events(start, form@, true, CHANNEL_COUNT as nat).push(
                    EventView::DeviceUpdate {
                        sip_port: final(self)@.sip_port,
                        selected_device: text_or_empty(final(self)@.selected_device),
                    },
                )
            }),
    {
        self.sip_port = take_port(form.get("sip_port"), self.sip_port);
        self.selected_device = take_device(form, &self.selected_device);
        let mut events = self.edit_channels(form, true);
        let ghost seen = events@;
        events.push(
            Event::DeviceUpdate {
                sip_port: self.sip_port,
                selected_device: copy_or_empty(&self.selected_device),
            },
        );
        assert(event_views(events@) =~= event_views(seen).push(events@.last()@));
        events
    }
}

// ---------------------------------------------------------------------------
// Laws
// ---------------------------------------------------------------------------

/// A port as a list of one; no port as an empty list.
pub open spec fn listed(port: Option<u16>) -> Seq<u16> {
    match port {
        Some(p) => seq![p],
        None => Seq::empty(),
    }
}

/// The local ports that a form asks for the first so many channels, in turn.
pub open spec fn channel_claims(
    g: GatewayView,
    form: Map<Seq<char>, Seq<char>>,
    count: nat,
) -> Seq<u16>
    decreases count,
{
    if count == 0 {
        Seq::empty()
    } else {
        let c = channel_of(g, count as u32);
        channel_claims(g, form, (count - 1) as nat) + listed(
            asked_port(local_port_asked(c, form, count as u32)),
        ) + listed(asked_port(bridge_port_asked(c, form, count as u32)))
    }
}

/// The local ports that a form asks for the first so many groups, in turn.
pub open spec fn group_claims(form: Map<Seq<char>, Seq<char>>, count: nat) -> Seq<u16>
    decreases count,
{
    if count == 0 {
        Seq::empty()
    } else {
        group_claims(form, (count - 1) as nat) + listed(
            asked_port(group_port_asked(form, count as u32)),
        )
    }
}

/// All local ports that a form asks for: of the channels, their bridges and the
/// groups.
pub open spec fn all_claims(g: GatewayView, form: Map<Seq<char>, Seq<char>>) -> Seq<u16> {
    channel_claims(g, form, CHANNEL_COUNT as nat) + group_claims(
        form,
        DISPATCH_GROUP_COUNT as nat,
    )
}

/// The table holds exactly the ports of the list, each once, and not the listening
/// port.
spec fn tells(table: Map<u16, u32>, claims: Seq<u16>, sip_port: u16) -> bool {
    &&& claims.no_duplicates()
    &&& !claims.contains(sip_port)
    &&& forall|p: u16| #[trigger] table.contains_key(p) <==> claims.contains(p)
}

proof fn lemma_one_more(
    table: Map<u16, u32>,
    claims: Seq<u16>,
    sip_port: u16,
    port: Option<u16>,
    id: u32,
)
    requires
        tells(table, claims, sip_port),
        port matches Some(p) ==> p != sip_port && !table.contains_key(p),
    ensures
        tells(
            match port {
                Some(p) => table.insert(p, id),
                None => table,
            },
            claims + listed(port),
            sip_port,
        ),
{
    let more = claims + listed(port);
    match port {
        None => {
            assert(more =~= claims);
        },
        Some(p) => {
            assert(!claims.contains(p));
            assert(more =~= claims.push(p));
            assert forall|q: u16| #[trigger]
                table.insert(p, id).contains_key(q) <==> more.contains(q) by {
                assert(table.contains_key(q) <==> claims.contains(q));
                if claims.contains(q) {
                    let k = choose|k: int| 0 <= k < claims.len() && claims[k] == q;
                    assert(more[k] == q);
                }
                if q == p {
                    assert(more[claims.len() as int] == q);
                }
                if more.contains(q) {
                    let k = choose|k: int| 0 <= k < more.len() && more[k] == q;
                    if k < claims.len() {
                        assert(claims[k] == q);
                    }
                }
            }
            if more.contains(sip_port) {
                let k = choose|k: int| 0 <= k < more.len() && more[k] == sip_port;
                assert(claims[k] == sip_port);
            }
            assert forall|i: int, j: int|
                0 <= i < more.len() && 0 <= j < more.len() && i != j implies more[i]
                != more[j] by {
                if i < claims.len() {
                    assert(claims.contains(claims[i]));
                }
                if j < claims.len() {
                    assert(claims.contains(claims[j]));
                }
            }
        },
    }
}

proof fn lemma_channel_claims(
    g: GatewayView,
    form: Map<Seq<char>, Seq<char>>,
    sip_port: u16,
    count: nat,
)
    ensures
        check_channels(g, form, sip_port, count) matches Ok(t) ==> tells(
            t.local,
            channel_claims(g, form, count),
            sip_port,
        ),
    decreases count,
{
    if count > 0 {
        lemma_channel_claims(g, form, sip_port, (count - 1) as nat);
        if check_channels(g, form, sip_port, count) is Ok {
            let id = count as u32;
            let c = channel_of(g, id);
            let t0 = check_channels(g, form, sip_port, (count - 1) as nat)->Ok_0;
            let asked = local_port_asked(c, form, id);
            let t1 = check_local(t0, sip_port, id, asked)->Ok_0;
            let claims = channel_claims(g, form, (count - 1) as nat);
            lemma_one_more(t0.local, claims, sip_port, asked_port(asked), id);
            let t2 = check_mirror(t1, c, form, id)->Ok_0;
            let t3 = check_bridge(t2, c, form, id)->Ok_0;
            let bridge = bridge_port_asked(c, form, id);
            lemma_one_more(
                t3.local,
                claims + listed(asked_port(asked)),
                sip_port,
                asked_port(bridge),
                id,
            );
        }
    }
}

proof fn lemma_group_claims(
    form: Map<Seq<char>, Seq<char>>,
    sip_port: u16,
    t: TablesView,
    claims: Seq<u16>,
    count: nat,
)
    requires
        tells(t.local, claims, sip_port),
    ensures
        check_groups(form, sip_port, t, count) matches Ok(t2) ==> tells(
            t2.local,
            claims + group_claims(form, count),
            sip_port,
        ),
    decreases count,
{
    if count == 0 {
        assert(claims + group_claims(form, 0) =~= claims);
    } else {
        lemma_group_claims(form, sip_port, t, claims, (count - 1) as nat);
        if check_groups(form, sip_port, t, count) is Ok {
            let id = count as u32;
            let t0 = check_groups(form, sip_port, t, (count - 1) as nat)->Ok_0;
            let t1 = check_group_mirror(t0, form, id)->Ok_0;
            let asked = group_port_asked(form, id);
            let so_far = claims + group_claims(form, (count - 1) as nat);
            lemma_one_more(t1.local, so_far, sip_port, asked_port(asked), (100 + id) as u32);
            assert(so_far + listed(asked_port(asked)) =~= claims + group_claims(form, count));
        }
    }
}

/// A form that is in order asks for no local port twice, nor for the listening
/// port.
pub proof fn law_accepted_ports_differ(g: GatewayView, form: Map<Seq<char>, Seq<char>>)
    ensures
        check_form(g, form) matches Ok(sip_port) ==> all_claims(g, form).no_duplicates()
            && !all_claims(g, form).contains(sip_port),
{
    if let Ok(sip_port) = check_form(g, form) {
        lemma_channel_claims(g, form, sip_port, CHANNEL_COUNT as nat);
        let t = check_channels(g, form, sip_port, CHANNEL_COUNT as nat)->Ok_0;
        lemma_group_claims(
            form,
            sip_port,
            t,
            channel_claims(g, form, CHANNEL_COUNT as nat),
            DISPATCH_GROUP_COUNT as nat,
        );
    }
}

/// A channel uses the local ports that the form was checked for.
pub proof fn law_saved_ports_are_those_checked(
    c: ChannelView,
    form: Map<Seq<char>, Seq<char>>,
)
    ensures
        local_port_asked(Some(c), form, c.id) matches PortField::Use(p) ==> edited(
            c,
            form,
        ).local_port == p,
        bridge_port_asked(Some(c), form, c.id) matches PortField::Use(p) ==> edited(
            c,
            form,
        ).bridge_local_port == p,
{
}

/// A form that is in order leaves no channel and no group with a local port that
/// is none.
pub proof fn law_accepted_ports_are_usable(
    g: GatewayView,
    form: Map<Seq<char>, Seq<char>>,
    id: u32,
)
    requires
        check_form(g, form) is Ok,
    ensures
        1 <= id <= CHANNEL_COUNT ==> local_port_asked(channel_of(g, id), form, id) is Use
            && bridge_port_asked(channel_of(g, id), form, id) is Use,
        1 <= id <= DISPATCH_GROUP_COUNT ==> group_port_asked(form, id) is Use,
{
    let sip_port = check_form(g, form)->Ok_0;
    if 1 <= id <= CHANNEL_COUNT {
        lemma_checked_before(g, form, sip_port, id as nat, CHANNEL_COUNT as nat);
    }
    if 1 <= id <= DISPATCH_GROUP_COUNT {
        let t = check_channels(g, form, sip_port, CHANNEL_COUNT as nat)->Ok_0;
        lemma_group_checked_before(form, sip_port, t, id as nat, DISPATCH_GROUP_COUNT as nat);
    }
}

proof fn lemma_checked_before(
    g: GatewayView,
    form: Map<Seq<char>, Seq<char>>,
    sip_port: u16,
    count: nat,
    more: nat,
)
    requires
        check_channels(g, form, sip_port, more) is Ok,
        count <= more,
    ensures
        check_channels(g, form, sip_port, count) is Ok,
    decreases more - count,
{
    if count < more {
        lemma_checked_before(g, form, sip_port, count, (more - 1) as nat);
    }
}

proof fn lemma_group_checked_before(
    form: Map<Seq<char>, Seq<char>>,
    sip_port: u16,
    t: TablesView,
    count: nat,
    more: nat,
)
    requires
        check_groups(form, sip_port, t, more) is Ok,
        count <= more,
    ensures
        check_groups(form, sip_port, t, count) is Ok,
    decreases more - count,
{
    if count < more {
        lemma_group_checked_before(form, sip_port, t, count, (more - 1) as nat);
    }
}

/// A saved form changes nothing of a call that is up, rings or is being placed:
/// what the channel does stays, and so do its alias, where it calls and its switches.
pub proof fn law_saving_keeps_calls(c: ChannelView, form: Map<Seq<char>, Seq<char>>)
    ensures
        ({
            let after = edited(c, form);
            &&& after.id == c.id
            &&& after.status == c.status
            &&& after.duration == c.duration
            &&& after.ptt_active == c.ptt_active
            &&& after.incoming_call == c.incoming_call
            &&& after.bridge_connected == c.bridge_connected
            &&& after.dispatch_connected == c.dispatch_connected
            &&& !c.status.is_free() ==> after == (ChannelView {
                amp_ip: after.amp_ip,
                amp_port: after.amp_port,
                bridge_ip: after.bridge_ip,
                bridge_port: after.bridge_port,
                bridge_local_port: after.bridge_local_port,
                ..c
            })
        }),
{
}

/// After a form was saved, a call is recorded exactly where the recorders are on,
/// its channel has one, and it is up.
pub proof fn law_recording_follows_the_form(
    g: GatewayView,
    form: Map<Seq<char>, Seq<char>>,
    sip_port: u16,
    i: int,
)
    requires
        0 <= i < saved(g, form, sip_port).channels.len(),
    ensures
        ({
            let after = saved(g, form, sip_port);
            after.channels[i].amp_streaming == (after.amp_enabled && after.channels[i].amp_enabled
                && after.channels[i].status is Connected)
        }),
{
}

/// Saving a form keeps the rosters of the groups.
pub proof fn law_saving_keeps_rosters(
    g: GatewayView,
    form: Map<Seq<char>, Seq<char>>,
    sip_port: u16,
    k: int,
)
    requires
        0 <= k < DISPATCH_GROUP_COUNT,
        k < g.groups.len(),
        forall|j: int| 0 <= j < g.groups.len() ==> (#[trigger] g.groups[j]).id == j + 1,
    ensures
        saved(g, form, sip_port).groups[k].id == g.groups[k].id,
        saved(g, form, sip_port).groups[k].member_ids == g.groups[k].member_ids,
{
    lemma_edits_keep_groups(with_globals(g, form, sip_port), form, false, CHANNEL_COUNT as nat);
    lemma_group_from(g.groups, (k + 1) as u32, 0);
    assert(g.groups[k].id == k + 1);
}

proof fn lemma_edits_keep_groups(
    g: GatewayView,
    form: Map<Seq<char>, Seq<char>>,
    plain: bool,
    count: nat,
)
    ensures
        edited_up_to(g, form, plain, count).groups == g.groups,
    decreases count,
{
    if count > 0 {
        lemma_edits_keep_groups(g, form, plain, (count - 1) as nat);
    }
}

} // verus!
