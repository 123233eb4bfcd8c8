//! The life of a call: placed, answered, accepted, rejected, keyed and ended.

use crate::config::{has_port, numbered_port, opt_text, port_at, BRIDGE_LOCAL_PORT_BASE};
use crate::crypto::{text_from_utf8_lossy, utf8_lossy};
use crate::dispatch::{patch_events, repatched};
use crate::events::{
    blank_patch, event_views, join_events, log_event, log_view, ChannelPatch, Event, EventView,
    LogLevel, PatchView,
};
use crate::messages::{
    accept_response, accept_text, ack_request, ack_text, bye_accepted_response,
    bye_accepted_text, bye_request, bye_text, host_port,
    host_port_text, invite_request, invite_text, rejected_response, rejected_text, sdp_answer,
    sdp_answer_text, sdp_offer, sdp_offer_text, tag_param, tag_param_text,
};
use crate::sip::{
    classify_reply, parse_rtp_target, parse_sip_uri, reply_of, rtp_address, sip_address,
    ReplyView, SipReply,
};
use crate::state::{
    call_index, call_on, channel_index, channel_views, opt_call, opt_incoming, with_channel,
    without_call, ActiveCall, CallView, Channel, ChannelStatus, ChannelView, Gateway, GatewayView,
    IncomingCallContext, IncomingView,
};
use crate::text::{
    decimal, decimal_string, has, numeral, padded_number, str_contains, str_same, zero_padded,
};
use vstd::prelude::*;
use vstd::string::*;

verus! {

// ---------------------------------------------------------------------------
// Identifiers
// ---------------------------------------------------------------------------

/// The identifier of a call made of a number: sixteen hexadecimal digits.
pub fn call_id_text(n: u64) -> (r: String)
    ensures
        r@ == zero_padded(numeral(n as nat, 16), 16),
{
    padded_number(n, 16, 16)
}

/// The tag made of a number: eight hexadecimal digits.
pub fn tag_text(n: u32) -> (r: String)
    ensures
        r@ == zero_padded(numeral(n as nat, 16), 8),
{
    padded_number(n as u64, 16, 8)
}

/// The branch made of a number.
pub open spec fn branch_of(n: u32) -> Seq<char> {
    "z9hG4bK"@ + numeral(n as nat, 16)
}

/// The branch made of a number.
pub fn branch_text(n: u32) -> (r: String)
    ensures
        r@ == branch_of(n),
{
    let mut m = "z9hG4bK".to_owned();
    let hex = padded_number(n as u64, 16, 0);
    m.append(hex.as_str());
    m
}

// ---------------------------------------------------------------------------
// Placing a call
// ---------------------------------------------------------------------------

/// How a call is to be placed.
pub enum CallPlan {
    /// As a direct RTP session.
    Rtp { dest_ip: String, dest_port: u16, local_port: u16 },
    /// By SIP.
    Sip { user: String, ip: String, port: u16 },
    /// The address is no SIP address.
    BadUri,
}

/// Whether a channel places direct RTP sessions.
pub open spec fn is_rtp_channel(g: GatewayView, id: u32) -> bool {
    match channel_index(g.channels, id) {
        Some(i) => g.channels[i].protocol == "RTP"@,
        None => false,
    }
}

/// The local port of a direct RTP session: the channel's own, or one by its
/// number.
pub open spec fn rtp_local_port(c: ChannelView) -> u16 {
    match c.local_port {
        Some(p) => p,
        None => ((6000 + c.id * 2) % 0x1_0000) as u16,
    }
}

/// The message that ends a call, with a number for its branch.
pub open spec fn bye_of(call: CallView, n: u32) -> Seq<char> {
    let user = match sip_address(call.target_ip) {
        Some(t) => t.0,
        None => "113"@,
    };
    bye_text(
        user,
        call.target_ip,
        call.target_port,
        call.local_ip,
        call.local_sip_port,
        branch_of(n),
        match call.to_tag {
            Some(t) => ";tag="@ + t,
            None => ""@,
        },
        call.from_tag,
        call.call_id,
    )
}

/// The message that ends a call, with a number for its branch.
pub fn bye_for(call: &ActiveCall, n: u32) -> (r: String)
    ensures
        r@ == bye_of(call@, n),
{
    let user = match parse_sip_uri(call.target_ip.as_str()) {
        Some(t) => t.0,
        None => "113".to_owned(),
    };
    let branch = branch_text(n);
    let to_tag = tag_param(&call.to_tag);
    bye_request(
        user.as_str(),
        call.target_ip.as_str(),
        call.target_port,
        call.local_ip.as_str(),
        call.local_sip_port,
        branch.as_str(),
        to_tag.as_str(),
        call.from_tag.as_str(),
        call.call_id.as_str(),
    )
}

/// The channel of a direct RTP session that is up.
pub open spec fn rtp_connected(c: ChannelView, uri: Seq<char>, codec: Seq<char>) -> ChannelView {
    ChannelView {
        target_uri: uri,
        codec,
        status: ChannelStatus::Connected,
        duration: 0,
        latency: 5,
        jitter: 1,
        rx_kbps: 80,
        tx_kbps: 0,
        ptt_active: false,
        ..c
    }
}

/// The channel of a call that is being placed.
pub open spec fn dialing(c: ChannelView, uri: Seq<char>, codec: Seq<char>) -> ChannelView {
    ChannelView {
        target_uri: uri,
        codec,
        status: ChannelStatus::Ringing,
        duration: 0,
        ..c
    }
}

/// The channel of a call that was answered.
pub open spec fn answered(c: ChannelView) -> ChannelView {
    ChannelView {
        status: ChannelStatus::Connected,
        latency: 12,
        jitter: 1,
        rx_kbps: 80,
        tx_kbps: 0,
        ptt_active: false,
        ..c
    }
}

/// The channel of a call that failed.
pub open spec fn failed(c: ChannelView) -> ChannelView {
    ChannelView {
        status: ChannelStatus::Failed,
        ptt_active: false,
        tx_kbps: 0,
        amp_streaming: false,
        bridge_connected: false,
        bridge_link_alive: false,
        dispatch_connected: false,
        ..c
    }
}

/// The channel of a call that the other side ended.
pub open spec fn peer_ended(c: ChannelView) -> ChannelView {
    ChannelView {
        status: ChannelStatus::Idle,
        ptt_active: false,
        tx_kbps: 0,
        amp_streaming: false,
        bridge_connected: false,
        bridge_link_alive: false,
        dispatch_connected: false,
        ..c
    }
}

/// The channel of a call that was hung up.
pub open spec fn hung_up(c: ChannelView) -> ChannelView {
    ChannelView {
        status: ChannelStatus::Idle,
        audio_level: 0,
        duration: 0,
        ptt_active: false,
        amp_streaming: false,
        bridge_connected: false,
        bridge_link_alive: false,
        dispatch_connected: false,
        ..c
    }
}

/// The channel of an incoming call that was rejected or taken back.
pub open spec fn no_longer_ringing(c: ChannelView) -> ChannelView {
    ChannelView {
        status: ChannelStatus::Idle,
        amp_streaming: false,
        bridge_connected: false,
        bridge_link_alive: false,
        dispatch_connected: false,
        incoming_call: None,
        ..c
    }
}

/// The channel of an incoming call that was accepted.
pub open spec fn accepted(c: ChannelView) -> ChannelView {
    ChannelView {
        status: ChannelStatus::Connected,
        duration: 0,
        ptt_active: false,
        incoming_call: None,
        ..c
    }
}

/// No leg of the channel counts as up.
pub open spec fn legs_down(c: ChannelView) -> bool {
    !c.amp_streaming && !c.bridge_connected && !c.bridge_link_alive && !c.dispatch_connected
}

/// However a call ends, its recorder, its bridge and its groups count as down.
pub proof fn law_every_end_takes_the_legs_down(c: ChannelView)
    ensures
        legs_down(failed(c)),
        legs_down(peer_ended(c)),
        legs_down(hung_up(c)),
        legs_down(no_longer_ringing(c)),
{
}

/// However a call ends, the channel can be called again.
pub proof fn law_every_end_frees_the_channel(c: ChannelView)
    ensures
        failed(c).status.is_free(),
        peer_ended(c).status.is_free(),
        hung_up(c).status.is_free(),
        no_longer_ringing(c).status.is_free(),
{
}

/// A channel that rings keeps what it needs to answer.
pub open spec fn ringing_is_kept(c: ChannelView) -> bool {
    c.status is Incoming ==> c.incoming_call is Some
}

/// No step in the life of a call leaves a channel ringing without what it needs
/// to answer.
pub proof fn law_ringing_stays_answerable(c: ChannelView, uri: Seq<char>, codec: Seq<char>)
    requires
        ringing_is_kept(c),
    ensures
        ringing_is_kept(rtp_connected(c, uri, codec)),
        ringing_is_kept(dialing(c, uri, codec)),
        ringing_is_kept(answered(c)),
        ringing_is_kept(failed(c)),
        ringing_is_kept(peer_ended(c)),
        ringing_is_kept(hung_up(c)),
        ringing_is_kept(no_longer_ringing(c)),
        ringing_is_kept(accepted(c)),
{
}

/// The state with the first channel with a number changed by one of the steps
/// above; as it was where there is none.
pub open spec fn stepped(
    g: GatewayView,
    id: u32,
    step: spec_fn(ChannelView) -> ChannelView,
) -> GatewayView {
    match channel_index(g.channels, id) {
        Some(i) => with_channel(g, i, step(g.channels[i])),
        None => g,
    }
}

/// The step of a call that failed.
pub open spec fn step_failed() -> spec_fn(ChannelView) -> ChannelView {
    |c: ChannelView| failed(c)
}

/// The step of a call that was answered.
pub open spec fn step_answered() -> spec_fn(ChannelView) -> ChannelView {
    |c: ChannelView| answered(c)
}

/// The step of a call that was hung up.
pub open spec fn step_hung_up() -> spec_fn(ChannelView) -> ChannelView {
    |c: ChannelView| hung_up(c)
}

/// The step of a direct RTP session that came up.
pub open spec fn step_rtp_connected(uri: Seq<char>, codec: Seq<char>) -> spec_fn(
    ChannelView,
) -> ChannelView {
    |c: ChannelView| rtp_connected(c, uri, codec)
}

/// The step of a call that is being placed.
pub open spec fn step_dialing(uri: Seq<char>, codec: Seq<char>) -> spec_fn(
    ChannelView,
) -> ChannelView {
    |c: ChannelView| dialing(c, uri, codec)
}

/// The step of a call that the other side ended; `silence` also zeroes the level.
pub open spec fn step_peer_ended(silence: bool) -> spec_fn(ChannelView) -> ChannelView {
    |c: ChannelView|
        if silence {
            ChannelView { audio_level: 0, ..peer_ended(c) }
        } else {
            peer_ended(c)
        }
}

/// The patch of a call that ended without an operator.
pub open spec fn ended_patch(id: u32, status: ChannelStatus, level: Option<u32>) -> PatchView {
    PatchView {
        status: Some(status),
        ptt_active: Some(false),
        tx_kbps: Some(0),
        audio_level: level,
        amp_streaming: Some(false),
        bridge_connected: Some(false),
        dispatch_connected: Some(false),
        ..blank_patch(id)
    }
}

pub(crate) fn make_ended_patch(id: u32, status: ChannelStatus, level: Option<u32>) -> (r: Event)
    ensures
        r@ == (EventView::Patch { patch: ended_patch(id, status, level) }),
{
    let mut patch = ChannelPatch::blank(id);
    patch.status = Some(status);
    patch.ptt_active = Some(false);
    patch.tx_kbps = Some(0);
    patch.audio_level = level;
    patch.amp_streaming = Some(false);
    patch.bridge_connected = Some(false);
    patch.dispatch_connected = Some(false);
    Event::Patch { patch }
}

// ---------------------------------------------------------------------------
// Steps of one channel
// ---------------------------------------------------------------------------

impl Channel {
    fn set_rtp_connected(&mut self, uri: &str, codec: &str)
        ensures
            final(self)@ == rtp_connected(old(self)@, uri@, codec@),
    {
        self.target_uri = uri.to_owned();
        self.codec = codec.to_owned();
        self.status = ChannelStatus::Connected;
        self.duration = 0;
        self.latency = 5;
        self.jitter = 1;
        self.rx_kbps = 80;
        self.tx_kbps = 0;
        self.ptt_active = false;
    }

    fn set_dialing(&mut self, uri: &str, codec: &str)
        ensures
            final(self)@ == dialing(old(self)@, uri@, codec@),
    {
        self.target_uri = uri.to_owned();
        self.codec = codec.to_owned();
        self.status = ChannelStatus::Ringing;
        self.duration = 0;
    }

    fn set_answered(&mut self)
        ensures
            final(self)@ == answered(old(self)@),
    {
        self.status = ChannelStatus::Connected;
        self.latency = 12;
        self.jitter = 1;
        self.rx_kbps = 80;
        self.tx_kbps = 0;
        self.ptt_active = false;
    }

    fn set_legs_down(&mut self)
        ensures
            final(self)@ == (ChannelView {
                amp_streaming: false,
                bridge_connected: false,
                bridge_link_alive: false,
                dispatch_connected: false,
                ..old(self)@
            }),
    {
        self.amp_streaming = false;
        self.bridge_connected = false;
        self.bridge_link_alive = false;
        self.dispatch_connected = false;
    }

    fn set_failed(&mut self)
        ensures
            final(self)@ == failed(old(self)@),
    {
        self.set_legs_down();
        self.status = ChannelStatus::Failed;
        self.ptt_active = false;
        self.tx_kbps = 0;
    }

    pub(crate) fn set_peer_ended(&mut self, silence: bool)
        ensures
            final(self)@ == step_peer_ended(silence)(old(self)@),
    {
        self.set_legs_down();
        self.status = ChannelStatus::Idle;
        self.ptt_active = false;
        self.tx_kbps = 0;
        if silence {
            self.audio_level = 0;
        }
    }

    fn set_hung_up(&mut self)
        ensures
            final(self)@ == hung_up(old(self)@),
    {
        self.set_legs_down();
        self.status = ChannelStatus::Idle;
        self.audio_level = 0;
        self.duration = 0;
        self.ptt_active = false;
    }

    pub(crate) fn set_no_longer_ringing(&mut self)
        ensures
            final(self)@ == no_longer_ringing(old(self)@),
    {
        self.set_legs_down();
        self.incoming_call = None;
        self.status = ChannelStatus::Idle;
    }

    fn set_accepted(&mut self)
        ensures
            final(self)@ == accepted(old(self)@),
    {
        self.incoming_call = None;
        self.status = ChannelStatus::Connected;
        self.duration = 0;
        self.ptt_active = false;
    }

    fn set_keyed(&mut self, active: bool)
        ensures
            final(self)@ == step_ptt(active)(old(self)@),
    {
        self.ptt_active = active;
        self.tx_kbps = if active {
            80
        } else {
            0
        };
    }

    fn set_leg_up(&mut self, leg: Leg)
        ensures
            final(self)@ == step_leg_up(leg)(old(self)@),
    {
        match leg {
            Leg::Recorder => {
                self.amp_streaming = true;
            },
            Leg::Bridge => {
                self.bridge_connected = true;
            },
        }
    }

    fn set_signalling(&mut self, squelch: bool, remote_ptt: bool)
        ensures
            final(self)@ == step_signalling(squelch, remote_ptt)(old(self)@),
    {
        self.ed137_remote_squelch = squelch;
        self.ed137_remote_ptt = remote_ptt;
    }

    /// What is kept of the call that rings on the channel.
    fn kept_call(&self) -> (r: Option<IncomingCallContext>)
        ensures
            opt_incoming(r) == self@.incoming_call,
    {
        match &self.incoming_call {
            Some(c) => Some(c.copy()),
            None => None,
        }
    }
}

/// A list of channels with one changed.
pub proof fn lemma_one_channel(before: Seq<Channel>, after: Seq<Channel>, i: int, c: Channel)
    requires
        0 <= i < before.len(),
        after == before.update(i, c),
    ensures
        channel_views(after) == channel_views(before).update(i, c@),
{
    assert(channel_views(after) =~= channel_views(before).update(i, c@));
}

impl Gateway {
    /// Whether a channel places direct RTP sessions.
    pub fn is_rtp(&self, id: u32) -> (r: bool)
        ensures
            r == is_rtp_channel(self@, id),
    {
        match self.find_channel(id) {
            Some(i) => {
                assert(self@.channels[i as int] == self.channels@[i as int]@);
                str_same(self.channels[i].protocol.as_str(), "RTP")
            },
            None => false,
        }
    }

    /// How a call from a channel to an address is to be placed.
    pub fn plan_call(&self, id: u32, target_uri: &str) -> (r: CallPlan)
        requires
            is_rtp_channel(self@, id) ==> 6000 + id * 2 <= u32::MAX,
        ensures
            plan_fits(self@, id, target_uri@, r),
    {
        if let Some(i) = self.find_channel(id) {
            assert(self@.channels[i as int] == self.channels@[i as int]@);
            if str_same(self.channels[i].protocol.as_str(), "RTP") {
                let (dest_ip, dest_port) = parse_rtp_target(target_uri);
                let local_port: u16 = match self.channels[i].local_port {
                    Some(p) => p,
                    None => ((6000 + id * 2) % 0x1_0000) as u16,
                };
                return CallPlan::Rtp { dest_ip, dest_port, local_port };
            }
        }
        match parse_sip_uri(target_uri) {
            Some(t) => CallPlan::Sip { user: t.0, ip: t.1, port: t.2 },
            None => CallPlan::BadUri,
        }
    }

    /// Makes way for a call from a channel to an address, and says how it is to be
    /// placed: a call that is still on the channel is taken out first.
    pub fn begin_call(&mut self, id: u32, target_uri: &str) -> (r: CallStart)
        requires
            is_rtp_channel(old(self)@, id) ==> 6000 + id * 2 <= u32::MAX,
        ensures
            final(self)@ == repatched(without_call(old(self)@, id)),
            opt_call(r.ended) == call_on(old(self)@, id),
            event_views(r.events@) == patch_events(without_call(old(self)@, id)),
            plan_fits(old(self)@, id, target_uri@, r.plan),
    {
        let plan = self.plan_call(id, target_uri);
        let ended = self.drop_call(id);
        let events = self.repatch();
        CallStart { ended, events, plan }
    }

    /// A direct RTP session is up.
    pub fn connect_rtp(
        &mut self,
        id: u32,
        target_uri: &str,
        codec: &str,
        local_port: u16,
        dest: &str,
    ) -> (r: Vec<Event>)
        ensures
            final(self)@ == stepped(
                old(self)@,
                id,
                step_rtp_connected(target_uri@, codec@),
            ),
            event_views(r@) == connect_events(id, target_uri@, codec@, local_port, dest@),
    {
        if let Some(i) = self.find_channel(id) {
            let ghost before = self.channels@;
            self.channels[i].set_rtp_connected(target_uri, codec);
            proof {
                lemma_one_channel(before, self.channels@, i as int, self.channels@[i as int]);
            }
        }
        let mut patch = ChannelPatch::blank(id);
        patch.status = Some(ChannelStatus::Connected);
        patch.duration = Some(0);
        patch.target_uri = Some(target_uri.to_owned());
        patch.codec = Some(codec.to_owned());
        patch.latency = Some(5);
        patch.jitter = Some(1);
        patch.no_loss = true;
        patch.rx_kbps = Some(80);
        patch.tx_kbps = Some(0);
        patch.ptt_active = Some(false);
        let mut message =
            "[RTP Stack] Direct RTP audio session starting. Local Port: ".to_owned();
        let port = decimal_string(local_port as u64);
        message.append(port.as_str());
        message.append(", Target: ");
        message.append(dest);
        let mut events: Vec<Event> = Vec::new();
        let ghost first = patch@;
        let ghost text = message@;
        events.push(Event::Patch { patch });
        events.push(Event::Log { level: LogLevel::Info, channel_id: id, message });
        assert(event_views(events@) =~= seq![
            EventView::Patch { patch: first },
            log_view(LogLevel::Info, id, text),
        ]);
        events
    }

    /// A call is being placed by SIP. Nothing happens where there is no such
    /// channel.
    pub fn dial(
        &mut self,
        id: u32,
        target_uri: &str,
        codec: &str,
        target_ip: &str,
        target_port: u16,
    ) -> (r: Option<Vec<Event>>)
        ensures
            final(self)@ == stepped(old(self)@, id, step_dialing(target_uri@, codec@)),
            match r {
                None => channel_index(old(self)@.channels, id) is None,
                Some(events) => channel_index(old(self)@.channels, id) is Some && event_views(
                    events@,
                ) == dial_events(id, target_uri@, codec@, target_ip@, target_port),
            },
    {
        let i: usize = match self.find_channel(id) {
            Some(i) => i,
            None => return None,
        };
        let ghost before = self.channels@;
        self.channels[i].set_dialing(target_uri, codec);
        proof {
            lemma_one_channel(before, self.channels@, i as int, self.channels@[i as int]);
        }
        let mut patch = ChannelPatch::blank(id);
        patch.status = Some(ChannelStatus::Ringing);
        patch.duration = Some(0);
        patch.target_uri = Some(target_uri.to_owned());
        patch.codec = Some(codec.to_owned());
        let mut message = "[rsipstack] SIP INVITE sent over UDP to ".to_owned();
        let dest = host_port(target_ip, target_port);
        message.append(dest.as_str());
        let mut events: Vec<Event> = Vec::new();
        let ghost first = patch@;
        let ghost text = message@;
        events.push(Event::Patch { patch });
        events.push(Event::Log { level: LogLevel::SipTx, channel_id: id, message });
        assert(event_views(events@) =~= seq![
            EventView::Patch { patch: first },
            log_view(LogLevel::SipTx, id, text),
        ]);
        Some(events)
    }

    /// Adds a call.
    pub fn add_call(&mut self, call: ActiveCall)
        ensures
            final(self)@ == (GatewayView { calls: old(self)@.calls.push(call@), ..old(self)@ }),
    {
        self.active_calls.push(call);
        assert(self@.calls =~= old(self)@.calls.push(call@));
    }

    /// The called side refused the call, with a status line.
    pub fn fail_call(&mut self, id: u32, status: &str) -> (r: Vec<Event>)
        ensures
            final(self)@ == repatched(ended(old(self)@, id, step_failed())),
            event_views(r@) == fail_events(id, status@) + patch_events(
                ended(old(self)@, id, step_failed()),
            ),
    {
        let _ = self.drop_call(id);
        if let Some(i) = self.find_channel(id) {
            let ghost before = self.channels@;
            self.channels[i].set_failed();
            proof {
                lemma_one_channel(before, self.channels@, i as int, self.channels@[i as int]);
            }
        }
        let mut message = "[rsipstack] Outbound call failed with: ".to_owned();
        message.append(status);
        let ghost text = message@;
        let mut events: Vec<Event> = Vec::new();
        events.push(Event::Log { level: LogLevel::Error, channel_id: id, message });
        events.push(make_ended_patch(id, ChannelStatus::Failed, None));
        assert(event_views(events@) =~= seq![
            log_view(LogLevel::Error, id, text),
            EventView::Patch { patch: ended_patch(id, ChannelStatus::Failed, None) },
        ]);
        let others = self.repatch();
        join_events(events, others)
    }

    /// The called side answered the call, with its tag, if any, and the port of
    /// its audio.
    pub fn answer_call(&mut self, id: u32, to_tag: &Option<String>, rtp_port: u16) -> (r: Vec<
        Event,
    >)
        ensures
            final(self)@ == stepped(
                with_tag(old(self)@, id, opt_text(*to_tag)),
                id,
                step_answered(),
            ),
            event_views(r@) == answered_events(id, rtp_port),
    {
        if let Some(tag) = to_tag {
            if let Some(j) = self.find_call(id) {
                self.active_calls[j].to_tag = Some(tag.clone());
                assert(self@.calls =~= with_tag(old(self)@, id, opt_text(*to_tag)).calls);
            }
        }
        if let Some(i) = self.find_channel(id) {
            let ghost before = self.channels@;
            self.channels[i].set_answered();
            proof {
                lemma_one_channel(before, self.channels@, i as int, self.channels@[i as int]);
            }
        }
        let mut message =
            "[rsipstack] SIP/2.0 200 OK received. Negotiated remote RTP port ".to_owned();
        let port = decimal_string(rtp_port as u64);
        message.append(port.as_str());
        let mut patch = ChannelPatch::blank(id);
        patch.status = Some(ChannelStatus::Connected);
        patch.latency = Some(12);
        patch.jitter = Some(1);
        patch.no_loss = true;
        patch.rx_kbps = Some(80);
        patch.tx_kbps = Some(0);
        patch.ptt_active = Some(false);
        let ghost text = message@;
        let ghost third = patch@;
        let mut events: Vec<Event> = Vec::new();
        events.push(Event::Log { level: LogLevel::SipRx, channel_id: id, message });
        events.push(
            log_event(LogLevel::SipTx, id, "[rsipstack] ACK sent. Audio session starting..."),
        );
        events.push(Event::Patch { patch });
        assert(event_views(events@) =~= seq![
            log_view(LogLevel::SipRx, id, text),
            log_view(LogLevel::SipTx, id, "[rsipstack] ACK sent. Audio session starting..."@),
            EventView::Patch { patch: third },
        ]);
        events
    }

    /// The other side ended the call. The message came on the port of an accepted
    /// call where `accepted` says so; the level then goes to zero too. The call
    /// that is taken out is returned.
    pub fn end_by_peer(&mut self, id: u32, accepted: bool) -> (r: (Option<ActiveCall>, Vec<Event>))
        ensures
            final(self)@ == repatched(ended(old(self)@, id, step_peer_ended(accepted))),
            opt_call(r.0) == call_on(old(self)@, id),
            event_views(r.1@) == peer_end_events(id, accepted) + patch_events(
                ended(old(self)@, id, step_peer_ended(accepted)),
            ),
    {
        let call = self.drop_call(id);
        if let Some(i) = self.find_channel(id) {
            let ghost before = self.channels@;
            self.channels[i].set_peer_ended(accepted);
            proof {
                lemma_one_channel(before, self.channels@, i as int, self.channels@[i as int]);
            }
        }
        let mut events: Vec<Event> = Vec::new();
        if accepted {
            events.push(
                log_event(
                    LogLevel::SipRx,
                    id,
                    "[rsipstack] SIP BYE received from target (dedicated port)",
                ),
            );
            events.push(make_ended_patch(id, ChannelStatus::Idle, Some(0)));
        } else {
            events.push(
                log_event(LogLevel::SipRx, id, "[rsipstack] SIP BYE received from target"),
            );
            events.push(make_ended_patch(id, ChannelStatus::Idle, None));
        }
        assert(event_views(events@) =~= peer_end_events(id, accepted));
        let others = self.repatch();
        (call, join_events(events, others))
    }

    /// An operator hangs up. The call that is taken out is returned, and whether
    /// there is such a channel. A call that is no direct RTP session is ended with
    /// a message to the other side.
    pub fn hang_up(&mut self, id: u32) -> (r: HangUp)
        requires
            channel_index(old(self)@.channels, id) is Some ==> id >= 1,
        ensures
            hangs_up(old(self)@, id, final(self)@, r),
    {
        let is_rtp = self.is_rtp(id);
        let call = self.drop_call(id);
        let send_bye = call.is_some() && !is_rtp;
        let i: usize = match self.find_channel(id) {
            Some(i) => i,
            None => {
                let others = self.repatch();
                assert(event_views(others@) =~= Seq::<EventView>::empty() + event_views(others@));
                return HangUp { call, send_bye, found: false, events: others };
            },
        };
        let ghost before = self.channels@;
        self.channels[i].set_hung_up();
        proof {
            lemma_one_channel(before, self.channels@, i as int, self.channels@[i as int]);
        }
        let mut patch = ChannelPatch::blank(id);
        patch.status = Some(ChannelStatus::Idle);
        patch.audio_level = Some(0);
        patch.duration = Some(0);
        patch.latency = Some(0);
        patch.jitter = Some(0);
        patch.no_loss = true;
        patch.rx_kbps = Some(0);
        patch.tx_kbps = Some(0);
        patch.ptt_active = Some(false);
        patch.amp_streaming = Some(false);
        patch.bridge_connected = Some(false);
        patch.dispatch_connected = Some(false);
        let mut message = "[rvoip] Channel mapping released. Audio slot I2S Slot ".to_owned();
        let slot = decimal_string((id - 1) as u64);
        message.append(slot.as_str());
        message.append(" unlinked.");
        let ghost wanted = hang_up_events(id, is_rtp);
        let mut events: Vec<Event> = Vec::new();
        events.push(Event::Patch { patch });
        if is_rtp {
            events.push(
                log_event(LogLevel::Info, id, "[RTP Stack] Direct RTP audio session closed."),
            );
        } else {
            events.push(log_event(LogLevel::SipTx, id, "[rsipstack] Transmitting BYE message."));
            events.push(log_event(LogLevel::Info, id, "[rsipstack] Call hung up."));
        }
        events.push(Event::Log { level: LogLevel::Info, channel_id: id, message });
        assert(event_views(events@) =~= wanted);
        let others = self.repatch();
        HangUp { call, send_bye, found: true, events: join_events(events, others) }
    }

    /// An operator keys or releases a channel.
    pub fn set_ptt(&mut self, id: u32, active: bool) -> (r: Vec<Event>)
        ensures
            final(self)@ == stepped(old(self)@, id, step_ptt(active)),
            event_views(r@) == (if channel_index(old(self)@.channels, id) is Some {
                ptt_events(id, active)
            } else {
                Seq::empty()
            }),
    {
        let mut events: Vec<Event> = Vec::new();
        match self.find_channel(id) {
            None => {
                assert(event_views(events@) =~= Seq::<EventView>::empty());
            },
            Some(i) => {
                let kbps: u32 = if active {
                    80
                } else {
                    0
                };
                let ghost before = self.channels@;
                self.channels[i].set_keyed(active);
                proof {
                    lemma_one_channel(before, self.channels@, i as int, self.channels@[i as int]);
                }
                let mut patch = ChannelPatch::blank(id);
                patch.ptt_active = Some(active);
                patch.tx_kbps = Some(kbps);
                let mut message = "[PTT] Channel ".to_owned();
                let number = decimal_string(id as u64);
                message.append(number.as_str());
                message.append(" PTT ");
                if active {
                    message.append("pressed (Transmitting)");
                } else {
                    message.append("released (Muted)");
                }
                events.push(Event::Patch { patch });
                events.push(Event::Log { level: LogLevel::Info, channel_id: id, message });
                assert(event_views(events@) =~= ptt_events(id, active));
            },
        }
        events
    }

    // -----------------------------------------------------------------------
    // Incoming calls
    // -----------------------------------------------------------------------

    /// An operator accepts the call that rings on a channel.
    pub fn accept_call(&mut self, id: u32) -> (r: IncomingOutcome)
        ensures
            incoming_outcome(old(self)@, id, final(self)@, r, true),
    {
        let i: usize = match self.find_channel(id) {
            Some(i) => i,
            None => return IncomingOutcome::NotFound,
        };
        assert(self@.channels[i as int] == self.channels@[i as int]@);
        match self.channels[i].status {
            ChannelStatus::Incoming => {},
            _ => return IncomingOutcome::NotRinging,
        }
        match self.channels[i].kept_call() {
            None => IncomingOutcome::NothingKept,
            Some(call) => {
                let ghost before = self.channels@;
                self.channels[i].set_accepted();
                proof {
                    lemma_one_channel(before, self.channels@, i as int, self.channels@[i as int]);
                }
                let update = Event::Update { channel: self.channels[i].copy() };
                let note = log_event(LogLevel::Info, id, "[rsipstack] Call Accepted");
                let patches: Vec<Event> = Vec::new();
                assert(event_views(patches@) =~= Seq::<EventView>::empty());
                IncomingOutcome::Taken { call, update, patches, note }
            },
        }
    }

    /// An operator rejects the call that rings on a channel.
    pub fn reject_call(&mut self, id: u32) -> (r: IncomingOutcome)
        ensures
            incoming_outcome(old(self)@, id, final(self)@, r, false),
    {
        let i: usize = match self.find_channel(id) {
            Some(i) => i,
            None => return IncomingOutcome::NotFound,
        };
        assert(self@.channels[i as int] == self.channels@[i as int]@);
        match self.channels[i].status {
            ChannelStatus::Incoming => {},
            _ => return IncomingOutcome::NotRinging,
        }
        match self.channels[i].kept_call() {
            None => IncomingOutcome::NothingKept,
            Some(call) => {
                let ghost before = self.channels@;
                self.channels[i].set_no_longer_ringing();
                proof {
                    lemma_one_channel(before, self.channels@, i as int, self.channels@[i as int]);
                }
                let update = Event::Update { channel: self.channels[i].copy() };
                let note = log_event(LogLevel::Warn, id, "[rsipstack] Call Rejected");
                let patches = self.repatch();
                IncomingOutcome::Taken { call, update, patches, note }
            },
        }
    }

    // -----------------------------------------------------------------------
    // Legs
    // -----------------------------------------------------------------------

    /// Whether a channel's calls are recorded, and where the recorder listens.
    pub fn amp_settings_for(&self, id: u32) -> (r: (bool, String, u16))
        ensures
            (r.0, r.1@, r.2) == recorder_settings(self@, id),
    {
        match self.find_channel(id) {
            Some(i) => {
                assert(self@.channels[i as int] == self.channels@[i as int]@);
                (
                    self.amp_enabled && self.channels[i].amp_enabled,
                    self.channels[i].amp_ip.clone(),
                    self.channels[i].amp_port,
                )
            },
            None => (false, "127.0.0.1".to_owned(), 0),
        }
    }

    /// Whether a channel's calls are bridged, where the peer listens, and the
    /// local port that the peer sends to.
    pub fn bridge_settings_for(&self, id: u32) -> (r: (bool, String, u16, u16))
        requires
            has_port(BRIDGE_LOCAL_PORT_BASE, id),
        ensures
            (r.0, r.1@, r.2, r.3) == bridge_settings(self@, id),
    {
        let default: u16 = numbered_port(BRIDGE_LOCAL_PORT_BASE, id);
        match self.find_channel(id) {
            Some(i) => {
                assert(self@.channels[i as int] == self.channels@[i as int]@);
                let local: u16 = match self.channels[i].bridge_local_port {
                    Some(p) => p,
                    None => default,
                };
                (
                    self.bridge_enabled && self.channels[i].bridge_enabled,
                    self.channels[i].bridge_ip.clone(),
                    self.channels[i].bridge_port,
                    local,
                )
            },
            None => (false, "127.0.0.1".to_owned(), 0, default),
        }
    }

    /// A leg of a channel's call came up.
    pub fn leg_up(&mut self, id: u32, leg: Leg) -> (r: Option<Event>)
        ensures
            final(self)@ == stepped(old(self)@, id, step_leg_up(leg)),
            match r {
                None => channel_index(old(self)@.channels, id) is None,
                Some(e) => channel_index(old(self)@.channels, id) matches Some(i) && e@ == (
                EventView::Update { channel: final(self)@.channels[i] }),
            },
    {
        let i: usize = match self.find_channel(id) {
            Some(i) => i,
            None => return None,
        };
        let ghost before = self.channels@;
        self.channels[i].set_leg_up(leg);
        proof {
            lemma_one_channel(before, self.channels@, i as int, self.channels@[i as int]);
        }
        let update = Event::Update { channel: self.channels[i].copy() };
        assert(self@.channels[i as int] == self.channels@[i as int]@);
        Some(update)
    }

    /// The bridge's peer is heard, or no longer.
    pub fn set_link_alive(&mut self, id: u32, alive: bool) -> (r: Event)
        ensures
            final(self)@ == stepped(old(self)@, id, step_link(alive)),
            r@ == (EventView::BridgeStatus { id, link_alive: alive }),
    {
        if let Some(i) = self.find_channel(id) {
            let ghost before = self.channels@;
            self.channels[i].bridge_link_alive = alive;
            proof {
                lemma_one_channel(before, self.channels@, i as int, self.channels@[i as int]);
            }
        }
        Event::BridgeStatus { id, link_alive: alive }
    }

    /// The other side's signalling arrived. It is announced where it changed.
    pub fn set_remote_signalling(&mut self, id: u32, squelch: bool, remote_ptt: bool) -> (r: Option<
        Event,
    >)
        ensures
            final(self)@ == stepped(old(self)@, id, step_signalling(squelch, remote_ptt)),
            match r {
                Some(e) => signalling_event(old(self)@, id, squelch, remote_ptt) == Some(e@),
                None => signalling_event(old(self)@, id, squelch, remote_ptt) is None,
            },
    {
        if let Some(i) = self.find_channel(id) {
            assert(self@.channels[i as int] == self.channels@[i as int]@);
            if self.channels[i].ed137_remote_squelch != squelch
                || self.channels[i].ed137_remote_ptt != remote_ptt {
                let ghost before = self.channels@;
                self.channels[i].set_signalling(squelch, remote_ptt);
                proof {
                    lemma_one_channel(before, self.channels@, i as int, self.channels@[i as int]);
                }
                return Some(Event::Ed137Status { id, squelch, remote_ptt });
            }
            assert(self@.channels =~= stepped(
                old(self)@,
                id,
                step_signalling(squelch, remote_ptt),
            ).channels);
        }
        None
    }

    /// The level of the operator's voice.
    pub fn set_level(&mut self, id: u32, value: u32) -> (r: Event)
        ensures
            final(self)@ == stepped(old(self)@, id, step_level(value)),
            r@ == (EventView::AudioLevel { id, value }),
    {
        if let Some(i) = self.find_channel(id) {
            let ghost before = self.channels@;
            self.channels[i].audio_level = value;
            proof {
                lemma_one_channel(before, self.channels@, i as int, self.channels@[i as int]);
            }
        }
        Event::AudioLevel { id, value }
    }

    /// An operator chooses a device.
    pub fn select_device(&mut self, device: &str) -> (r: Event)
        ensures
            final(self)@ == (GatewayView { selected_device: Some(device@), ..old(self)@ }),
            r@ == (EventView::DeviceUpdate {
                sip_port: old(self)@.sip_port,
                selected_device: device@,
            }),
    {
        self.selected_device = Some(device.to_owned());
        Event::DeviceUpdate { sip_port: self.sip_port, selected_device: device.to_owned() }
    }
}

// ---------------------------------------------------------------------------
// What the steps above speak of
// ---------------------------------------------------------------------------

/// A plan says how a call from a channel to an address is to be placed.
pub open spec fn plan_fits(g: GatewayView, id: u32, target_uri: Seq<char>, plan: CallPlan) -> bool {
    if is_rtp_channel(g, id) {
        &&& plan matches CallPlan::Rtp { dest_ip, dest_port, local_port }
        &&& (dest_ip@, dest_port as nat) == rtp_address(target_uri)
        &&& local_port == rtp_local_port(g.channels[channel_index(g.channels, id)->0])
    } else {
        match plan {
            CallPlan::Rtp { .. } => false,
            CallPlan::Sip { user, ip, port } => sip_address(target_uri) == Some(
                (user@, ip@, port as nat),
            ),
            CallPlan::BadUri => sip_address(target_uri) is None,
        }
    }
}

/// How a call starts.
pub struct CallStart {
    /// The call that had to make way.
    pub ended: Option<ActiveCall>,
    /// What is announced: the channels that are patched no longer.
    pub events: Vec<Event>,
    /// How the new call is to be placed.
    pub plan: CallPlan,
}

/// What came of hanging up.
pub struct HangUp {
    /// The call that was taken out.
    pub call: Option<ActiveCall>,
    /// The other side is to be told.
    pub send_bye: bool,
    /// There is such a channel.
    pub found: bool,
    /// What is announced.
    pub events: Vec<Event>,
}

/// The state without the first call on a channel, and with the channel changed by
/// the step of its end.
pub open spec fn ended(
    g: GatewayView,
    id: u32,
    step: spec_fn(ChannelView) -> ChannelView,
) -> GatewayView {
    stepped(without_call(g, id), id, step)
}

/// What is announced of a direct RTP session that came up.
pub open spec fn connect_events(
    id: u32,
    uri: Seq<char>,
    codec: Seq<char>,
    local_port: u16,
    dest: Seq<char>,
) -> Seq<EventView> {
    seq![
        EventView::Patch {
            patch: PatchView {
                status: Some(ChannelStatus::Connected),
                duration: Some(0),
                target_uri: Some(uri),
                codec: Some(codec),
                latency: Some(5),
                jitter: Some(1),
                no_loss: true,
                rx_kbps: Some(80),
                tx_kbps: Some(0),
                ptt_active: Some(false),
                ..blank_patch(id)
            },
        },
        log_view(
            LogLevel::Info,
            id,
            "[RTP Stack] Direct RTP audio session starting. Local Port: "@ + decimal(
                local_port as nat,
            ) + ", Target: "@ + dest,
        ),
    ]
}

/// What is announced of a call that is being placed.
pub open spec fn dial_events(
    id: u32,
    uri: Seq<char>,
    codec: Seq<char>,
    ip: Seq<char>,
    port: u16,
) -> Seq<EventView> {
    seq![
        EventView::Patch {
            patch: PatchView {
                status: Some(ChannelStatus::Ringing),
                duration: Some(0),
                target_uri: Some(uri),
                codec: Some(codec),
                ..blank_patch(id)
            },
        },
        log_view(
            LogLevel::SipTx,
            id,
            "[rsipstack] SIP INVITE sent over UDP to "@ + host_port_text(ip, port),
        ),
    ]
}

/// Whether a channel's calls are recorded, and where the recorder listens.
pub open spec fn recorder_settings(g: GatewayView, id: u32) -> (bool, Seq<char>, u16) {
    match channel_index(g.channels, id) {
        Some(i) => {
            let c = g.channels[i];
            (g.amp_enabled && c.amp_enabled, c.amp_ip, c.amp_port)
        },
        None => (false, "127.0.0.1"@, 0),
    }
}

/// Whether a channel's calls are bridged, where the peer listens, and the local port
/// that the peer sends to.
pub open spec fn bridge_settings(g: GatewayView, id: u32) -> (bool, Seq<char>, u16, u16) {
    match channel_index(g.channels, id) {
        Some(i) => {
            let c = g.channels[i];
            (
                g.bridge_enabled && c.bridge_enabled,
                c.bridge_ip,
                c.bridge_port,
                match c.bridge_local_port {
                    Some(p) => p,
                    None => port_at(BRIDGE_LOCAL_PORT_BASE, id),
                },
            )
        },
        None => (false, "127.0.0.1"@, 0, port_at(BRIDGE_LOCAL_PORT_BASE, id)),
    }
}

/// What is announced of a call that failed.
pub open spec fn fail_events(id: u32, status: Seq<char>) -> Seq<EventView> {
    seq![
        log_view(LogLevel::Error, id, "[rsipstack] Outbound call failed with: "@ + status),
        EventView::Patch { patch: ended_patch(id, ChannelStatus::Failed, None) },
    ]
}

/// What is announced of a call that the other side ended.
pub open spec fn peer_end_events(id: u32, accepted: bool) -> Seq<EventView> {
    seq![
        log_view(
            LogLevel::SipRx,
            id,
            if accepted {
                "[rsipstack] SIP BYE received from target (dedicated port)"@
            } else {
                "[rsipstack] SIP BYE received from target"@
            },
        ),
        EventView::Patch {
            patch: ended_patch(
                id,
                ChannelStatus::Idle,
                if accepted {
                    Some(0u32)
                } else {
                    None
                },
            ),
        },
    ]
}

/// What comes of hanging up on a channel.
pub open spec fn hangs_up(before: GatewayView, id: u32, after: GatewayView, r: HangUp) -> bool {
    &&& after == repatched(ended(before, id, step_hung_up()))
    &&& opt_call(r.call) == call_on(before, id)
    &&& r.send_bye == (r.call is Some && !is_rtp_channel(before, id))
    &&& r.found == channel_index(before.channels, id) is Some
    &&& event_views(r.events@) == (if r.found {
        hang_up_events(id, is_rtp_channel(before, id))
    } else {
        Seq::empty()
    }) + patch_events(ended(before, id, step_hung_up()))
}

/// What is announced of a call that was hung up.
pub open spec fn hang_up_events(id: u32, is_rtp: bool) -> Seq<EventView> {
    let patch = EventView::Patch {
        patch: PatchView {
            status: Some(ChannelStatus::Idle),
            audio_level: Some(0),
            duration: Some(0),
            latency: Some(0),
            jitter: Some(0),
            no_loss: true,
            rx_kbps: Some(0),
            tx_kbps: Some(0),
            ptt_active: Some(false),
            amp_streaming: Some(false),
            bridge_connected: Some(false),
            dispatch_connected: Some(false),
            ..blank_patch(id)
        },
    };
    let slot = log_view(
        LogLevel::Info,
        id,
        "[rvoip] Channel mapping released. Audio slot I2S Slot "@ + decimal((id - 1) as nat)
            + " unlinked."@,
    );
    if is_rtp {
        seq![
            patch,
            log_view(LogLevel::Info, id, "[RTP Stack] Direct RTP audio session closed."@),
            slot,
        ]
    } else {
        seq![
            patch,
            log_view(LogLevel::SipTx, id, "[rsipstack] Transmitting BYE message."@),
            log_view(LogLevel::Info, id, "[rsipstack] Call hung up."@),
            slot,
        ]
    }
}

/// The state with the tag of the called side noted in the first call on a
/// channel.
pub open spec fn with_tag(g: GatewayView, id: u32, tag: Option<Seq<char>>) -> GatewayView {
    match (tag, call_index(g.calls, id)) {
        (Some(t), Some(j)) => GatewayView {
            calls: g.calls.update(j, CallView { to_tag: Some(t), ..g.calls[j] }),
            ..g
        },
        _ => g,
    }
}

/// The step of keying or releasing a channel.
pub open spec fn step_ptt(active: bool) -> spec_fn(ChannelView) -> ChannelView {
    |c: ChannelView|
        ChannelView {
            ptt_active: active,
            tx_kbps: if active {
                80
            } else {
                0
            },
            ..c
        }
}

/// What is announced of a channel that was keyed or released.
pub open spec fn ptt_events(id: u32, active: bool) -> Seq<EventView> {
    seq![
        EventView::Patch {
            patch: PatchView {
                ptt_active: Some(active),
                tx_kbps: Some(
                    if active {
                        80u32
                    } else {
                        0u32
                    },
                ),
                ..blank_patch(id)
            },
        },
        log_view(
            LogLevel::Info,
            id,
            "[PTT] Channel "@ + decimal(id as nat) + " PTT "@ + (if active {
                "pressed (Transmitting)"@
            } else {
                "released (Muted)"@
            }),
        ),
    ]
}

/// What came of accepting or rejecting a call.
pub enum IncomingOutcome {
    /// There is no such channel.
    NotFound,
    /// No call rings on the channel.
    NotRinging,
    /// The channel rings but nothing is known of the call.
    NothingKept,
    /// The call was taken off the channel. The channel is announced at once, then
    /// the channels that are patched now, or no longer, and the note once all is
    /// done.
    Taken { call: IncomingCallContext, update: Event, patches: Vec<Event>, note: Event },
}

/// What comes of accepting or rejecting a call.
pub open spec fn incoming_outcome(
    before: GatewayView,
    id: u32,
    after: GatewayView,
    r: IncomingOutcome,
    accept: bool,
) -> bool {
    match channel_index(before.channels, id) {
        None => r is NotFound && after == before,
        Some(i) => {
            let c = before.channels[i];
            if !(c.status is Incoming) {
                r is NotRinging && after == before
            } else {
                match c.incoming_call {
                    None => r is NothingKept && after == before,
                    Some(kept) => {
                        let taken = if accept {
                            accepted(c)
                        } else {
                            no_longer_ringing(c)
                        };
                        &&& after == (if accept {
                            with_channel(before, i, taken)
                        } else {
                            repatched(with_channel(before, i, taken))
                        })
                        &&& r matches IncomingOutcome::Taken { call, update, patches, note }
                        &&& call@ == kept
                        &&& update@ == (EventView::Update { channel: taken })
                        &&& event_views(patches@) == (if accept {
                            Seq::empty()
                        } else {
                            patch_events(with_channel(before, i, taken))
                        })
                        &&& note@ == (if accept {
                            log_view(LogLevel::Info, id, "[rsipstack] Call Accepted"@)
                        } else {
                            log_view(LogLevel::Warn, id, "[rsipstack] Call Rejected"@)
                        })
                    },
                }
            }
        },
    }
}

/// A leg of a call besides the two sides and the groups.
#[derive(Debug, Clone, Copy, PartialEq, Eq, Structural)]
pub enum Leg {
    Recorder,
    Bridge,
}

/// The step of a leg that came up.
pub open spec fn step_leg_up(leg: Leg) -> spec_fn(ChannelView) -> ChannelView {
    |c: ChannelView|
        match leg {
            Leg::Recorder => ChannelView { amp_streaming: true, ..c },
            Leg::Bridge => ChannelView { bridge_connected: true, ..c },
        }
}

/// The step of a bridge's peer that came or went.
pub open spec fn step_link(alive: bool) -> spec_fn(ChannelView) -> ChannelView {
    |c: ChannelView| ChannelView { bridge_link_alive: alive, ..c }
}

/// The step of the other side's signalling.
pub open spec fn step_signalling(squelch: bool, remote_ptt: bool) -> spec_fn(
    ChannelView,
) -> ChannelView {
    |c: ChannelView|
        ChannelView { ed137_remote_squelch: squelch, ed137_remote_ptt: remote_ptt, ..c }
}

/// What is announced of the other side's signalling: a change, and nothing else.
pub open spec fn signalling_event(
    g: GatewayView,
    id: u32,
    squelch: bool,
    remote_ptt: bool,
) -> Option<EventView> {
    match channel_index(g.channels, id) {
        Some(i) => if g.channels[i].ed137_remote_squelch != squelch
            || g.channels[i].ed137_remote_ptt != remote_ptt {
            Some(EventView::Ed137Status { id, squelch, remote_ptt })
        } else {
            None
        },
        None => None,
    }
}

/// The step of a new level.
pub open spec fn step_level(value: u32) -> spec_fn(ChannelView) -> ChannelView {
    |c: ChannelView| ChannelView { audio_level: value, ..c }
}

// ---------------------------------------------------------------------------
// Messages of a call
// ---------------------------------------------------------------------------

/// The message that accepts an incoming call on a channel.
pub open spec fn accept_message_of(
    c: IncomingView,
    id: u32,
    local_ip: Seq<char>,
    sip_port: u16,
    rtp_port: u16,
) -> Seq<char> {
    accept_text(
        c.via,
        c.from,
        c.to,
        id,
        c.call_id,
        c.cseq,
        local_ip,
        sip_port,
        sdp_answer_text(local_ip, rtp_port),
    )
}

/// The message that rejects an incoming call.
pub open spec fn reject_message_of(c: IncomingView) -> Seq<char> {
    rejected_text(c.via, c.from, c.to, c.call_id, c.cseq)
}

/// An incoming call as it is once accepted on a channel.
pub open spec fn accepted_call(
    c: IncomingView,
    id: u32,
    local_ip: Seq<char>,
    sip_port: u16,
    rtp_port: u16,
) -> CallView {
    CallView {
        channel_id: id,
        target_ip: c.remote_ip,
        target_port: c.remote_sip_port,
        local_ip,
        local_sip_port: sip_port,
        local_rtp_port: rtp_port,
        call_id: c.call_id,
        from_tag: ""@,
        to_tag: Some("local-"@ + decimal(id as nat)),
    }
}

impl IncomingCallContext {
    /// The message that accepts the call on a channel.
    pub fn accept_message(&self, id: u32, local_ip: &str, sip_port: u16, rtp_port: u16) -> (r:
        String)
        ensures
            r@ == accept_message_of(self@, id, local_ip@, sip_port, rtp_port),
    {
        let sdp = sdp_answer(local_ip, rtp_port);
        accept_response(
            self.via.as_str(),
            self.from.as_str(),
            self.to.as_str(),
            id,
            self.call_id.as_str(),
            self.cseq.as_str(),
            local_ip,
            sip_port,
            sdp.as_str(),
        )
    }

    /// The message that rejects the call.
    pub fn reject_message(&self) -> (r: String)
        ensures
            r@ == reject_message_of(self@),
    {
        rejected_response(
            self.via.as_str(),
            self.from.as_str(),
            self.to.as_str(),
            self.call_id.as_str(),
            self.cseq.as_str(),
        )
    }

    /// The call as it is once accepted on a channel.
    pub fn into_call(&self, id: u32, local_ip: &str, sip_port: u16, rtp_port: u16) -> (r:
        ActiveCall)
        ensures
            r@ == accepted_call(self@, id, local_ip@, sip_port, rtp_port),
    {
        let mut tag = "local-".to_owned();
        let number = decimal_string(id as u64);
        tag.append(number.as_str());
        ActiveCall {
            channel_id: id,
            target_ip: self.remote_ip.clone(),
            target_port: self.remote_sip_port,
            local_ip: local_ip.to_owned(),
            local_sip_port: sip_port,
            local_rtp_port: rtp_port,
            call_id: self.call_id.clone(),
            from_tag: "".to_owned(),
            to_tag: Some(tag),
        }
    }
}

/// A call that a channel places by SIP.
pub struct CallingSession {
    pub user: String,
    pub target_ip: String,
    pub target_port: u16,
    pub local_ip: String,
    pub local_sip_port: u16,
    pub local_rtp_port: u16,
    pub call_id: String,
    pub from_tag: String,
    /// The tag of the called side, once it is known.
    pub to_tag: Option<String>,
}

impl CallingSession {
    /// The address of the called side.
    pub open spec fn dest_text(self) -> Seq<char> {
        host_port_text(self.target_ip@, self.target_port)
    }

    /// Two sessions that differ at most in the tag of the called side.
    pub open spec fn same_but_tag(self, other: CallingSession) -> bool {
        &&& self.user == other.user
        &&& self.target_ip == other.target_ip
        &&& self.target_port == other.target_port
        &&& self.local_ip == other.local_ip
        &&& self.local_sip_port == other.local_sip_port
        &&& self.local_rtp_port == other.local_rtp_port
        &&& self.call_id == other.call_id
        &&& self.from_tag == other.from_tag
    }

    /// The message that places the call, with a number for its branch.
    pub open spec fn invite_of(self, n: u32) -> Seq<char> {
        invite_text(
            self.user@,
            self.dest_text(),
            self.local_ip@,
            self.local_sip_port,
            branch_of(n),
            self.from_tag@,
            self.call_id@,
            sdp_offer_text(self.local_ip@, self.local_rtp_port),
        )
    }

    /// The message that confirms the call, with a number for its branch.
    pub open spec fn ack_of(self, n: u32) -> Seq<char> {
        ack_text(
            self.user@,
            self.dest_text(),
            self.local_ip@,
            self.local_sip_port,
            branch_of(n),
            tag_param_text(self.to_tag),
            self.from_tag@,
            self.call_id@,
        )
    }

    /// The call of the session on a channel.
    pub open spec fn call_of(self, id: u32) -> CallView {
        CallView {
            channel_id: id,
            target_ip: self.target_ip@,
            target_port: self.target_port,
            local_ip: self.local_ip@,
            local_sip_port: self.local_sip_port,
            local_rtp_port: self.local_rtp_port,
            call_id: self.call_id@,
            from_tag: self.from_tag@,
            to_tag: None,
        }
    }

    /// The message that places the call, with a number for its branch.
    pub fn invite(&self, n: u32) -> (r: String)
        ensures
            r@ == self.invite_of(n),
    {
        let dest = host_port(self.target_ip.as_str(), self.target_port);
        let branch = branch_text(n);
        let sdp = sdp_offer(self.local_ip.as_str(), self.local_rtp_port);
        invite_request(
            self.user.as_str(),
            dest.as_str(),
            self.local_ip.as_str(),
            self.local_sip_port,
            branch.as_str(),
            self.from_tag.as_str(),
            self.call_id.as_str(),
            sdp.as_str(),
        )
    }

    /// The message that confirms an answer, with a number for its branch. A tag
    /// that came with the answer is kept; an answer without one leaves the last.
    pub fn ack(&mut self, to_tag: &Option<String>, n: u32) -> (r: String)
        ensures
            opt_text(final(self).to_tag) == (match opt_text(*to_tag) {
                Some(t) => Some(t),
                None => opt_text(old(self).to_tag),
            }),
            final(self).same_but_tag(*old(self)),
            r@ == final(self).ack_of(n),
    {
        if let Some(t) = to_tag {
            self.to_tag = Some(t.clone());
        }
        let dest = host_port(self.target_ip.as_str(), self.target_port);
        let branch = branch_text(n);
        let tag = tag_param(&self.to_tag);
        ack_request(
            self.user.as_str(),
            dest.as_str(),
            self.local_ip.as_str(),
            self.local_sip_port,
            branch.as_str(),
            tag.as_str(),
            self.from_tag.as_str(),
            self.call_id.as_str(),
        )
    }

    /// The call as the gateway keeps it.
    pub fn active_call(&self, id: u32) -> (r: ActiveCall)
        ensures
            r@ == self.call_of(id),
    {
        ActiveCall {
            channel_id: id,
            target_ip: self.target_ip.clone(),
            target_port: self.target_port,
            local_ip: self.local_ip.clone(),
            local_sip_port: self.local_sip_port,
            local_rtp_port: self.local_rtp_port,
            call_id: self.call_id.clone(),
            from_tag: self.from_tag.clone(),
            to_tag: None,
        }
    }
}

/// The call of a direct RTP session.
pub open spec fn direct_call(
    id: u32,
    dest_ip: Seq<char>,
    dest_port: u16,
    local_ip: Seq<char>,
    local_port: u16,
) -> CallView {
    CallView {
        channel_id: id,
        target_ip: dest_ip,
        target_port: dest_port,
        local_ip,
        local_sip_port: 0,
        local_rtp_port: local_port,
        call_id: "rtp-"@ + decimal(id as nat),
        from_tag: ""@,
        to_tag: None,
    }
}

/// The call of a direct RTP session as the gateway keeps it.
pub fn rtp_call(id: u32, dest_ip: &str, dest_port: u16, local_ip: &str, local_port: u16) -> (r:
    ActiveCall)
    ensures
        r@ == direct_call(id, dest_ip@, dest_port, local_ip@, local_port),
{
    let mut call_id = "rtp-".to_owned();
    let number = decimal_string(id as u64);
    call_id.append(number.as_str());
    ActiveCall {
        channel_id: id,
        target_ip: dest_ip.to_owned(),
        target_port: dest_port,
        local_ip: local_ip.to_owned(),
        local_sip_port: 0,
        local_rtp_port: local_port,
        call_id,
        from_tag: "".to_owned(),
        to_tag: None,
    }
}

/// What the caller does after a message on a calling session.
pub enum ReplyAction {
    /// Waits for the next message.
    Wait,
    /// Stops listening: the call failed.
    Failed,
    /// Sends the confirmation and opens the media to the port.
    Answered { ack: String, rtp_port: u16 },
    /// Stops listening and the media: the called side ended the call.
    Ended { call: Option<ActiveCall> },
}

/// What comes of a message of a session that a channel calls on: what it changes of
/// the state and of the session, what the caller does, and what is announced. `n`
/// makes the branch of a confirmation.
pub open spec fn reply_handled(
    before: GatewayView,
    id: u32,
    session: CallingSession,
    msg: Seq<char>,
    n: u32,
    after: GatewayView,
    session_after: CallingSession,
    action: ReplyAction,
    events: Seq<EventView>,
) -> bool {
    match reply_of(msg) {
        ReplyView::Trying => after == before && session_after == session && action is Wait
            && events == seq![
            log_view(LogLevel::SipRx, id, "[rsipstack] SIP/2.0 100 Trying received"@),
        ],
        ReplyView::Ringing => after == before && session_after == session && action is Wait
            && events == seq![
            log_view(LogLevel::SipRx, id, "[rsipstack] SIP/2.0 180 Ringing received"@),
        ],
        ReplyView::Failed { status } => {
            &&& after == repatched(ended(before, id, step_failed()))
            &&& session_after == session
            &&& action is Failed
            &&& events == fail_events(id, status) + patch_events(
                ended(before, id, step_failed()),
            )
        },
        ReplyView::Answered { to_tag, rtp_port } => {
            &&& after == stepped(with_tag(before, id, to_tag), id, step_answered())
            &&& opt_text(session_after.to_tag) == (match to_tag {
                Some(t) => Some(t),
                None => opt_text(session.to_tag),
            })
            &&& session_after.same_but_tag(session)
            &&& action matches ReplyAction::Answered { ack, rtp_port: port }
            &&& port == rtp_port
            &&& ack@ == session_after.ack_of(n)
            &&& events == answered_events(id, rtp_port)
        },
        ReplyView::Bye => {
            &&& after == repatched(ended(before, id, step_peer_ended(false)))
            &&& session_after == session
            &&& action matches ReplyAction::Ended { call }
            &&& opt_call(call) == call_on(before, id)
            &&& events == peer_end_events(id, false) + patch_events(
                ended(before, id, step_peer_ended(false)),
            )
        },
        ReplyView::Other => after == before && session_after == session
            && action is Wait && events == Seq::<EventView>::empty(),
    }
}

impl Gateway {
    /// Acts on a message of a session that a channel calls on.
    pub fn handle_reply(&mut self, id: u32, session: &mut CallingSession, msg: &str, n: u32) -> (r:
        (ReplyAction, Vec<Event>))
        ensures
            reply_handled(
                old(self)@,
                id,
                *old(session),
                msg@,
                n,
                final(self)@,
                *final(session),
                r.0,
                event_views(r.1@),
            ),
    {
        let mut events: Vec<Event> = Vec::new();
        match classify_reply(msg) {
            SipReply::Trying => {
                events.push(
                    log_event(LogLevel::SipRx, id, "[rsipstack] SIP/2.0 100 Trying received"),
                );
                assert(event_views(events@) =~= seq![events@[0]@]);
                (ReplyAction::Wait, events)
            },
            SipReply::Ringing => {
                events.push(
                    log_event(LogLevel::SipRx, id, "[rsipstack] SIP/2.0 180 Ringing received"),
                );
                assert(event_views(events@) =~= seq![events@[0]@]);
                (ReplyAction::Wait, events)
            },
            SipReply::Failed { status } => {
                let failed = self.fail_call(id, status.as_str());
                (ReplyAction::Failed, failed)
            },
            SipReply::Answered { to_tag, rtp_port } => {
                let announced = self.answer_call(id, &to_tag, rtp_port);
                let ack = session.ack(&to_tag, n);
                (ReplyAction::Answered { ack, rtp_port }, announced)
            },
            SipReply::Bye => {
                let (call, ended) = self.end_by_peer(id, false);
                (ReplyAction::Ended { call }, ended)
            },
            SipReply::Other => {
                assert(event_views(events@) =~= Seq::<EventView>::empty());
                (ReplyAction::Wait, events)
            },
        }
    }

    /// Acts on a packet of a session that a channel calls on.
    pub fn handle_reply_packet(
        &mut self,
        id: u32,
        session: &mut CallingSession,
        data: &[u8],
        n: u32,
    ) -> (r: (ReplyAction, Vec<Event>))
        ensures
            reply_handled(
                old(self)@,
                id,
                *old(session),
                utf8_lossy(data@),
                n,
                final(self)@,
                *final(session),
                r.0,
                event_views(r.1@),
            ),
    {
        let msg = text_from_utf8_lossy(data);
        self.handle_reply(id, session, msg.as_str(), n)
    }

    /// Acts on a packet to the port of an accepted call: one that speaks of a `BYE`
    /// ends the call, and is confirmed where there was one. The port is then done
    /// with; any other packet is passed over.
    pub fn handle_accepted_packet(
        &mut self,
        id: u32,
        data: &[u8],
        local_ip: &str,
        sip_port: u16,
    ) -> (r: Option<AcceptedEnd>)
        ensures
            accepted_call_handled(
                old(self)@,
                id,
                utf8_lossy(data@),
                local_ip@,
                sip_port,
                final(self)@,
                r,
            ),
    {
        let msg = text_from_utf8_lossy(data);
        if !str_contains(msg.as_str(), "BYE") {
            return None;
        }
        let (call, events) = self.end_by_peer(id, true);
        let reply = match &call {
            Some(_) => Some(bye_accepted_response(local_ip, sip_port)),
            None => None,
        };
        Some(AcceptedEnd { call, reply, events })
    }
}

/// The end of an accepted call by the other side.
pub struct AcceptedEnd {
    /// The call that was taken out.
    pub call: Option<ActiveCall>,
    /// The confirmation to send.
    pub reply: Option<String>,
    pub events: Vec<Event>,
}

/// What comes of a message to the port of an accepted call.
pub open spec fn accepted_call_handled(
    before: GatewayView,
    id: u32,
    msg: Seq<char>,
    local_ip: Seq<char>,
    sip_port: u16,
    after: GatewayView,
    r: Option<AcceptedEnd>,
) -> bool {
    &&& r is Some == has(msg, "BYE"@)
    &&& match r {
        None => after == before,
        Some(end) => {
            &&& after == repatched(ended(before, id, step_peer_ended(true)))
            &&& opt_call(end.call) == call_on(before, id)
            &&& opt_text(end.reply) == (if call_on(before, id) is Some {
                Some(bye_accepted_text(local_ip, sip_port))
            } else {
                None
            })
            &&& event_views(end.events@) == peer_end_events(id, true) + patch_events(
                ended(before, id, step_peer_ended(true)),
            )
        },
    }
}

/// What is announced of a call that was answered.
pub open spec fn answered_events(id: u32, rtp_port: u16) -> Seq<EventView> {
    seq![
        log_view(
            LogLevel::SipRx,
            id,
            "[rsipstack] SIP/2.0 200 OK received. Negotiated remote RTP port "@ + decimal(
                rtp_port as nat,
            ),
        ),
        log_view(LogLevel::SipTx, id, "[rsipstack] ACK sent. Audio session starting..."@),
        EventView::Patch {
            patch: PatchView {
                status: Some(ChannelStatus::Connected),
                latency: Some(12),
                jitter: Some(1),
                no_loss: true,
                rx_kbps: Some(80),
                tx_kbps: Some(0),
                ptt_active: Some(false),
                ..blank_patch(id)
            },
        },
    ]
}

} // verus!
