//! The live state of the gateway: channels, calls and groups, and how requests
//! and messages change them.

use crate::config::{
    copy_groups, copy_opt, default_amp_ip, group_views, has_port, numbered_port, opt_text, port_at,
    ChannelConfig, ChannelSettings, ConfigView, DispatchGroup, GatewayConfig, GroupView,
    BRIDGE_PORT_BASE,
};
use crate::messages::{rtp_uri, rtp_uri_text, sip_uri, sip_uri_text};
use crate::text::str_same;
use std::collections::HashMap;
use vstd::prelude::*;
use vstd::string::*;

verus! {

// ---------------------------------------------------------------------------
// Channels
// ---------------------------------------------------------------------------

/// What a channel is doing.
#[derive(Debug, Clone, Copy, PartialEq, Eq, Structural)]
pub enum ChannelStatus {
    Idle,
    Ringing,
    Connected,
    Failed,
    Incoming,
}

impl ChannelStatus {
    /// The name of the status.
    pub open spec fn name(self) -> Seq<char> {
        match self {
            ChannelStatus::Idle => "IDLE"@,
            ChannelStatus::Ringing => "RINGING"@,
            ChannelStatus::Connected => "CONNECTED"@,
            ChannelStatus::Failed => "FAILED"@,
            ChannelStatus::Incoming => "INCOMING"@,
        }
    }

    /// The name of the status.
    pub fn as_str(self) -> (r: &'static str)
        ensures
            r@ == self.name(),
    {
        match self {
            ChannelStatus::Idle => "IDLE",
            ChannelStatus::Ringing => "RINGING",
            ChannelStatus::Connected => "CONNECTED",
            ChannelStatus::Failed => "FAILED",
            ChannelStatus::Incoming => "INCOMING",
        }
    }

    /// Whether a call can be placed on the channel.
    pub open spec fn is_free(self) -> bool {
        self is Idle || self is Failed
    }

    /// Whether a call can be placed on the channel.
    pub fn free(self) -> (r: bool)
        ensures
            r == self.is_free(),
    {
        match self {
            ChannelStatus::Idle => true,
            ChannelStatus::Failed => true,
            _ => false,
        }
    }
}

/// What is kept of a call that rings.
pub struct IncomingCallContext {
    pub call_id: String,
    pub from: String,
    pub to: String,
    pub via: String,
    pub cseq: String,
    pub remote_ip: String,
    pub remote_rtp_port: u16,
    pub remote_sip_port: u16,
}

/// What is kept of a call that rings, as a value.
#[verifier::ext_equal]
pub ghost struct IncomingView {
    pub call_id: Seq<char>,
    pub from: Seq<char>,
    pub to: Seq<char>,
    pub via: Seq<char>,
    pub cseq: Seq<char>,
    pub remote_ip: Seq<char>,
    pub remote_rtp_port: u16,
    pub remote_sip_port: u16,
}

impl View for IncomingCallContext {
    type V = IncomingView;

    open spec fn view(&self) -> IncomingView {
        IncomingView {
            call_id: self.call_id@,
            from: self.from@,
            to: self.to@,
            via: self.via@,
            cseq: self.cseq@,
            remote_ip: self.remote_ip@,
            remote_rtp_port: self.remote_rtp_port,
            remote_sip_port: self.remote_sip_port,
        }
    }
}

/// What is kept of a call, if anything, as a value.
pub open spec fn opt_incoming(c: Option<IncomingCallContext>) -> Option<IncomingView> {
    match c {
        Some(x) => Some(x@),
        None => None,
    }
}

impl IncomingCallContext {
    /// A context like this one.
    pub fn copy(&self) -> (r: IncomingCallContext)
        ensures
            r@ == self@,
    {
        IncomingCallContext {
            call_id: self.call_id.clone(),
            from: self.from.clone(),
            to: self.to.clone(),
            via: self.via.clone(),
            cseq: self.cseq.clone(),
            remote_ip: self.remote_ip.clone(),
            remote_rtp_port: self.remote_rtp_port,
            remote_sip_port: self.remote_sip_port,
        }
    }
}

/// A channel: its settings and its live state. The packet loss, which is a
/// fraction, is kept by the caller.
pub struct Channel {
    pub id: u32,
    pub label: String,
    pub protocol: String,
    pub status: ChannelStatus,
    pub duration: u32,
    pub audio_level: u32,
    pub latency: u32,
    pub jitter: u32,
    pub rx_kbps: u32,
    pub tx_kbps: u32,
    pub target_uri: String,
    pub target_ip: String,
    pub target_port: u16,
    pub sip_user: Option<String>,
    pub codec: String,
    pub local_port: Option<u16>,
    pub ptt_active: bool,
    pub volume: u32,
    pub srtp_enabled: bool,
    pub sip_auth_required: bool,
    pub amp_ip: String,
    pub amp_port: u16,
    /// The call's sound goes to the recorder.
    pub amp_streaming: bool,
    pub amp_enabled: bool,
    pub bridge_ip: String,
    pub bridge_port: u16,
    pub bridge_enabled: bool,
    pub bridge_local_port: Option<u16>,
    pub ed137_enabled: bool,
    pub ed137_ptt_id: u8,
    /// The radio reports a signal.
    pub ed137_remote_squelch: bool,
    /// The other side is keyed.
    pub ed137_remote_ptt: bool,
    /// The call has a bridge.
    pub bridge_connected: bool,
    /// The bridge's peer is heard.
    pub bridge_link_alive: bool,
    /// The channel is patched: its call and that on another channel take part in one
    /// group.
    pub dispatch_connected: bool,
    pub incoming_call: Option<IncomingCallContext>,
}

/// A channel as a value.
#[verifier::ext_equal]
pub ghost struct ChannelView {
    pub id: u32,
    pub label: Seq<char>,
    pub protocol: Seq<char>,
    pub status: ChannelStatus,
    pub duration: u32,
    pub audio_level: u32,
    pub latency: u32,
    pub jitter: u32,
    pub rx_kbps: u32,
    pub tx_kbps: u32,
    pub target_uri: Seq<char>,
    pub target_ip: Seq<char>,
    pub target_port: u16,
    pub sip_user: Option<Seq<char>>,
    pub codec: Seq<char>,
    pub local_port: Option<u16>,
    pub ptt_active: bool,
    pub volume: u32,
    pub srtp_enabled: bool,
    pub sip_auth_required: bool,
    pub amp_ip: Seq<char>,
    pub amp_port: u16,
    pub amp_streaming: bool,
    pub amp_enabled: bool,
    pub bridge_ip: Seq<char>,
    pub bridge_port: u16,
    pub bridge_enabled: bool,
    pub bridge_local_port: Option<u16>,
    pub ed137_enabled: bool,
    pub ed137_ptt_id: u8,
    pub ed137_remote_squelch: bool,
    pub ed137_remote_ptt: bool,
    pub bridge_connected: bool,
    pub bridge_link_alive: bool,
    pub dispatch_connected: bool,
    pub incoming_call: Option<IncomingView>,
}

impl View for Channel {
    type V = ChannelView;

    open spec fn view(&self) -> ChannelView {
        ChannelView {
            id: self.id,
            label: self.label@,
            protocol: self.protocol@,
            status: self.status,
            duration: self.duration,
            audio_level: self.audio_level,
            latency: self.latency,
            jitter: self.jitter,
            rx_kbps: self.rx_kbps,
            tx_kbps: self.tx_kbps,
            target_uri: self.target_uri@,
            target_ip: self.target_ip@,
            target_port: self.target_port,
            sip_user: opt_text(self.sip_user),
            codec: self.codec@,
            local_port: self.local_port,
            ptt_active: self.ptt_active,
            volume: self.volume,
            srtp_enabled: self.srtp_enabled,
            sip_auth_required: self.sip_auth_required,
            amp_ip: self.amp_ip@,
            amp_port: self.amp_port,
            amp_streaming: self.amp_streaming,
            amp_enabled: self.amp_enabled,
            bridge_ip: self.bridge_ip@,
            bridge_port: self.bridge_port,
            bridge_enabled: self.bridge_enabled,
            bridge_local_port: self.bridge_local_port,
            ed137_enabled: self.ed137_enabled,
            ed137_ptt_id: self.ed137_ptt_id,
            ed137_remote_squelch: self.ed137_remote_squelch,
            ed137_remote_ptt: self.ed137_remote_ptt,
            bridge_connected: self.bridge_connected,
            bridge_link_alive: self.bridge_link_alive,
            dispatch_connected: self.dispatch_connected,
            incoming_call: opt_incoming(self.incoming_call),
        }
    }
}

/// The views of a list of channels.
pub open spec fn channel_views(s: Seq<Channel>) -> Seq<ChannelView> {
    s.map_values(|c: Channel| c@)
}

impl Channel {
    /// A channel like this one.
    pub fn copy(&self) -> (r: Channel)
        ensures
            r@ == self@,
    {
        Channel {
            id: self.id,
            label: self.label.clone(),
            protocol: self.protocol.clone(),
            status: self.status,
            duration: self.duration,
            audio_level: self.audio_level,
            latency: self.latency,
            jitter: self.jitter,
            rx_kbps: self.rx_kbps,
            tx_kbps: self.tx_kbps,
            target_uri: self.target_uri.clone(),
            target_ip: self.target_ip.clone(),
            target_port: self.target_port,
            sip_user: copy_opt(&self.sip_user),
            codec: self.codec.clone(),
            local_port: self.local_port,
            ptt_active: self.ptt_active,
            volume: self.volume,
            srtp_enabled: self.srtp_enabled,
            sip_auth_required: self.sip_auth_required,
            amp_ip: self.amp_ip.clone(),
            amp_port: self.amp_port,
            amp_streaming: self.amp_streaming,
            amp_enabled: self.amp_enabled,
            bridge_ip: self.bridge_ip.clone(),
            bridge_port: self.bridge_port,
            bridge_enabled: self.bridge_enabled,
            bridge_local_port: self.bridge_local_port,
            ed137_enabled: self.ed137_enabled,
            ed137_ptt_id: self.ed137_ptt_id,
            ed137_remote_squelch: self.ed137_remote_squelch,
            ed137_remote_ptt: self.ed137_remote_ptt,
            bridge_connected: self.bridge_connected,
            bridge_link_alive: self.bridge_link_alive,
            dispatch_connected: self.dispatch_connected,
            incoming_call: match &self.incoming_call {
                Some(c) => Some(c.copy()),
                None => None,
            },
        }
    }
}

/// The address that a channel calls, by its settings.
pub open spec fn computed_uri(
    protocol: Seq<char>,
    sip_user: Option<Seq<char>>,
    ip: Seq<char>,
    port: u16,
) -> Seq<char> {
    if protocol == "RTP"@ {
        rtp_uri_text(ip, port)
    } else {
        sip_uri_text(
            match sip_user {
                Some(u) => u,
                None => "receiver"@,
            },
            ip,
            port,
        )
    }
}

/// The address that a channel calls, by its settings.
pub fn compute_uri(protocol: &str, sip_user: &Option<String>, ip: &str, port: u16) -> (r: String)
    ensures
        r@ == computed_uri(protocol@, opt_text(*sip_user), ip@, port),
{
    if str_same(protocol, "RTP") {
        rtp_uri(ip, port)
    } else {
        match sip_user {
            Some(u) => sip_uri(u.as_str(), ip, port),
            None => sip_uri("receiver", ip, port),
        }
    }
}

/// An address, or the machine itself where it is empty.
pub open spec fn ip_or_local(ip: Seq<char>) -> Seq<char> {
    if ip.len() == 0 {
        "127.0.0.1"@
    } else {
        ip
    }
}

fn non_empty_ip(ip: &String) -> (r: String)
    ensures
        r@ == ip_or_local(ip@),
{
    if ip.as_str().is_empty() {
        default_amp_ip()
    } else {
        ip.clone()
    }
}

/// The port of a bridge that the settings leave open is there to be given.
pub open spec fn ports_fit(c: ChannelSettings) -> bool {
    c.bridge_port == 0 ==> has_port(BRIDGE_PORT_BASE, c.id)
}

/// A channel at the start, with its settings.
pub open spec fn started(c: ChannelSettings) -> ChannelView {
    ChannelView {
        id: c.id,
        label: c.label,
        protocol: c.protocol,
        status: ChannelStatus::Idle,
        duration: 0,
        audio_level: 0,
        latency: 0,
        jitter: 0,
        rx_kbps: 0,
        tx_kbps: 0,
        target_uri: computed_uri(c.protocol, c.sip_user, c.target_ip, c.target_port),
        target_ip: c.target_ip,
        target_port: c.target_port,
        sip_user: c.sip_user,
        codec: c.codec,
        local_port: c.local_port,
        ptt_active: false,
        volume: c.volume,
        srtp_enabled: c.srtp_enabled,
        sip_auth_required: c.sip_auth_required,
        amp_ip: ip_or_local(c.amp_ip),
        amp_port: c.amp_port,
        amp_streaming: false,
        amp_enabled: c.amp_enabled,
        bridge_ip: ip_or_local(c.bridge_ip),
        bridge_port: if c.bridge_port == 0 {
            port_at(BRIDGE_PORT_BASE, c.id)
        } else {
            c.bridge_port
        },
        bridge_enabled: c.bridge_enabled,
        bridge_local_port: c.bridge_local_port,
        ed137_enabled: c.ed137_enabled,
        ed137_ptt_id: c.ed137_ptt_id,
        ed137_remote_squelch: false,
        ed137_remote_ptt: false,
        bridge_connected: false,
        bridge_link_alive: false,
        dispatch_connected: false,
        incoming_call: None,
    }
}

fn start_channel(c: &ChannelConfig) -> (r: Channel)
    requires
        ports_fit(c@),
    ensures
        r@ == started(c@),
{
    let bridge_port: u16 = if c.bridge_port == 0 {
        numbered_port(BRIDGE_PORT_BASE, c.id)
    } else {
        c.bridge_port
    };
    Channel {
        id: c.id,
        label: c.label.clone(),
        protocol: c.protocol.clone(),
        status: ChannelStatus::Idle,
        duration: 0,
        audio_level: 0,
        latency: 0,
        jitter: 0,
        rx_kbps: 0,
        tx_kbps: 0,
        target_uri: compute_uri(
            c.protocol.as_str(),
            &c.sip_user,
            c.target_ip.as_str(),
            c.target_port,
        ),
        target_ip: c.target_ip.clone(),
        target_port: c.target_port,
        sip_user: copy_opt(&c.sip_user),
        codec: c.codec.clone(),
        local_port: c.local_port,
        ptt_active: false,
        volume: c.volume,
        srtp_enabled: c.srtp_enabled,
        sip_auth_required: c.sip_auth_required,
        amp_ip: non_empty_ip(&c.amp_ip),
        amp_port: c.amp_port,
        amp_streaming: false,
        amp_enabled: c.amp_enabled,
        bridge_ip: non_empty_ip(&c.bridge_ip),
        bridge_port,
        bridge_enabled: c.bridge_enabled,
        bridge_local_port: c.bridge_local_port,
        ed137_enabled: c.ed137_enabled,
        ed137_ptt_id: c.ed137_ptt_id,
        ed137_remote_squelch: false,
        ed137_remote_ptt: false,
        bridge_connected: false,
        bridge_link_alive: false,
        dispatch_connected: false,
        incoming_call: None,
    }
}

/// The settings of a channel.
pub open spec fn settings_of(c: ChannelView) -> ChannelSettings {
    ChannelSettings {
        id: c.id,
        label: c.label,
        protocol: c.protocol,
        target_ip: c.target_ip,
        target_port: c.target_port,
        sip_user: c.sip_user,
        codec: c.codec,
        local_port: c.local_port,
        volume: c.volume,
        srtp_enabled: c.srtp_enabled,
        sip_auth_required: c.sip_auth_required,
        amp_ip: c.amp_ip,
        amp_port: c.amp_port,
        amp_enabled: c.amp_enabled,
        bridge_ip: c.bridge_ip,
        bridge_port: c.bridge_port,
        bridge_enabled: c.bridge_enabled,
        bridge_local_port: c.bridge_local_port,
        ed137_enabled: c.ed137_enabled,
        ed137_ptt_id: c.ed137_ptt_id,
    }
}

impl Channel {
    /// The settings of the channel.
    pub fn settings(&self) -> (r: ChannelConfig)
        ensures
            r@ == settings_of(self@),
    {
        ChannelConfig {
            id: self.id,
            label: self.label.clone(),
            protocol: self.protocol.clone(),
            target_ip: self.target_ip.clone(),
            target_port: self.target_port,
            sip_user: copy_opt(&self.sip_user),
            codec: self.codec.clone(),
            local_port: self.local_port,
            volume: self.volume,
            srtp_enabled: self.srtp_enabled,
            sip_auth_required: self.sip_auth_required,
            amp_ip: self.amp_ip.clone(),
            amp_port: self.amp_port,
            amp_enabled: self.amp_enabled,
            bridge_ip: self.bridge_ip.clone(),
            bridge_port: self.bridge_port,
            bridge_enabled: self.bridge_enabled,
            bridge_local_port: self.bridge_local_port,
            ed137_enabled: self.ed137_enabled,
            ed137_ptt_id: self.ed137_ptt_id,
        }
    }
}

// ---------------------------------------------------------------------------
// Calls
// ---------------------------------------------------------------------------

/// A call that is up or being placed.
pub struct ActiveCall {
    pub channel_id: u32,
    pub target_ip: String,
    pub target_port: u16,
    pub local_ip: String,
    pub local_sip_port: u16,
    pub local_rtp_port: u16,
    pub call_id: String,
    pub from_tag: String,
    pub to_tag: Option<String>,
}

/// A call as a value.
#[verifier::ext_equal]
pub ghost struct CallView {
    pub channel_id: u32,
    pub target_ip: Seq<char>,
    pub target_port: u16,
    pub local_ip: Seq<char>,
    pub local_sip_port: u16,
    pub local_rtp_port: u16,
    pub call_id: Seq<char>,
    pub from_tag: Seq<char>,
    pub to_tag: Option<Seq<char>>,
}

impl View for ActiveCall {
    type V = CallView;

    open spec fn view(&self) -> CallView {
        CallView {
            channel_id: self.channel_id,
            target_ip: self.target_ip@,
            target_port: self.target_port,
            local_ip: self.local_ip@,
            local_sip_port: self.local_sip_port,
            local_rtp_port: self.local_rtp_port,
            call_id: self.call_id@,
            from_tag: self.from_tag@,
            to_tag: opt_text(self.to_tag),
        }
    }
}

/// The views of a list of calls.
pub open spec fn call_views(s: Seq<ActiveCall>) -> Seq<CallView> {
    s.map_values(|c: ActiveCall| c@)
}

/// A call, if there is one, as a value.
pub open spec fn opt_call(c: Option<ActiveCall>) -> Option<CallView> {
    match c {
        Some(x) => Some(x@),
        None => None,
    }
}

// ---------------------------------------------------------------------------
// The gateway
// ---------------------------------------------------------------------------

/// The live state of the gateway.
pub struct Gateway {
    pub channels: Vec<Channel>,
    pub active_calls: Vec<ActiveCall>,
    pub selected_device: Option<String>,
    pub sip_port: u16,
    pub amp_enabled: bool,
    pub bridge_enabled: bool,
    pub dispatch_groups: Vec<DispatchGroup>,
    /// Whether each call that is up takes part in each group, by the key of the
    /// channel and the group.
    pub flags: HashMap<u64, bool>,
}

/// The live state as a value.
#[verifier::ext_equal]
pub ghost struct GatewayView {
    pub channels: Seq<ChannelView>,
    pub calls: Seq<CallView>,
    pub selected_device: Option<Seq<char>>,
    pub sip_port: u16,
    pub amp_enabled: bool,
    pub bridge_enabled: bool,
    pub groups: Seq<GroupView>,
    pub flags: Map<u64, bool>,
}

impl View for Gateway {
    type V = GatewayView;

    open spec fn view(&self) -> GatewayView {
        GatewayView {
            channels: channel_views(self.channels@),
            calls: call_views(self.active_calls@),
            selected_device: opt_text(self.selected_device),
            sip_port: self.sip_port,
            amp_enabled: self.amp_enabled,
            bridge_enabled: self.bridge_enabled,
            groups: group_views(self.dispatch_groups@),
            flags: self.flags@,
        }
    }
}

/// The key of a channel and a group.
pub open spec fn flag_key(channel: u32, group: u32) -> u64 {
    (channel * 0x1_0000_0000 + group) as u64
}

/// The key of a channel and a group.
pub fn make_flag_key(channel: u32, group: u32) -> (r: u64)
    ensures
        r == flag_key(channel, group),
{
    channel as u64 * 0x1_0000_0000 + group as u64
}

/// Channels and groups have one key each.
pub proof fn lemma_flag_key(c1: u32, g1: u32, c2: u32, g2: u32)
    ensures
        flag_key(c1, g1) == flag_key(c2, g2) <==> c1 == c2 && g1 == g2,
{
}

/// The flags without those of a channel.
pub open spec fn flags_without(flags: Map<u64, bool>, channel: u32) -> Map<u64, bool> {
    flags.remove(flag_key(channel, 1)).remove(flag_key(channel, 2)).remove(
        flag_key(channel, 3),
    ).remove(flag_key(channel, 4))
}

/// The first channel with a number, from a place on.
pub open spec fn channel_from(s: Seq<ChannelView>, id: u32, from: int) -> Option<int>
    decreases s.len() - from,
{
    if from < 0 || from >= s.len() {
        None
    } else if s[from].id == id {
        Some(from)
    } else {
        channel_from(s, id, from + 1)
    }
}

/// The first channel with a number.
pub open spec fn channel_index(s: Seq<ChannelView>, id: u32) -> Option<int> {
    channel_from(s, id, 0)
}

/// The channel found is one with the number, and the first such.
pub proof fn lemma_channel_from(s: Seq<ChannelView>, id: u32, from: int)
    requires
        0 <= from,
    ensures
        match channel_from(s, id, from) {
            Some(i) => from <= i < s.len() && s[i].id == id && forall|k: int|
                from <= k < i ==> s[k].id != id,
            None => forall|k: int| from <= k < s.len() ==> s[k].id != id,
        },
    decreases s.len() - from,
{
    if from < s.len() && s[from].id != id {
        lemma_channel_from(s, id, from + 1);
    }
}

/// The first call on a channel, from a place on.
pub open spec fn call_from(s: Seq<CallView>, channel: u32, from: int) -> Option<int>
    decreases s.len() - from,
{
    if from < 0 || from >= s.len() {
        None
    } else if s[from].channel_id == channel {
        Some(from)
    } else {
        call_from(s, channel, from + 1)
    }
}

/// The first call on a channel.
pub open spec fn call_index(s: Seq<CallView>, channel: u32) -> Option<int> {
    call_from(s, channel, 0)
}

pub proof fn lemma_call_from(s: Seq<CallView>, channel: u32, from: int)
    requires
        0 <= from,
    ensures
        match call_from(s, channel, from) {
            Some(i) => from <= i < s.len() && s[i].channel_id == channel && forall|k: int|
                from <= k < i ==> (#[trigger] s[k]).channel_id != channel,
            None => forall|k: int|
                from <= k < s.len() ==> (#[trigger] s[k]).channel_id != channel,
        },
    decreases s.len() - from,
{
    if from < s.len() && s[from].channel_id != channel {
        lemma_call_from(s, channel, from + 1);
    }
}

/// The first group with a number, from a place on.
pub open spec fn group_from(s: Seq<GroupView>, id: u32, from: int) -> Option<int>
    decreases s.len() - from,
{
    if from < 0 || from >= s.len() {
        None
    } else if s[from].id == id {
        Some(from)
    } else {
        group_from(s, id, from + 1)
    }
}

/// The first group with a number.
pub open spec fn group_index(s: Seq<GroupView>, id: u32) -> Option<int> {
    group_from(s, id, 0)
}

/// The group found is one with the number, and the first such.
pub proof fn lemma_group_from(s: Seq<GroupView>, id: u32, from: int)
    requires
        0 <= from,
    ensures
        match group_from(s, id, from) {
            Some(i) => from <= i < s.len() && s[i].id == id && forall|k: int|
                from <= k < i ==> s[k].id != id,
            None => forall|k: int| from <= k < s.len() ==> s[k].id != id,
        },
    decreases s.len() - from,
{
    if from < s.len() && s[from].id != id {
        lemma_group_from(s, id, from + 1);
    }
}

/// The state with one channel changed.
pub open spec fn with_channel(g: GatewayView, i: int, c: ChannelView) -> GatewayView {
    GatewayView { channels: g.channels.update(i, c), ..g }
}

/// The state without the first call on a channel and without the flags of the
/// channel; as it was where there is no such call.
pub open spec fn without_call(g: GatewayView, channel: u32) -> GatewayView {
    match call_index(g.calls, channel) {
        Some(j) => GatewayView {
            calls: g.calls.remove(j),
            flags: flags_without(g.flags, channel),
            ..g
        },
        None => g,
    }
}

/// The first call on a channel.
pub open spec fn call_on(g: GatewayView, channel: u32) -> Option<CallView> {
    match call_index(g.calls, channel) {
        Some(j) => Some(g.calls[j]),
        None => None,
    }
}

/// The state at the start.
pub open spec fn fresh_gateway(config: ConfigView) -> GatewayView {
    GatewayView {
        channels: config.channels.map_values(|c: ChannelSettings| started(c)),
        calls: Seq::empty(),
        selected_device: config.selected_device,
        sip_port: config.sip_port,
        amp_enabled: config.amp_enabled,
        bridge_enabled: config.bridge_enabled,
        groups: config.dispatch_groups,
        flags: Map::empty(),
    }
}

/// The settings that the state holds.
pub open spec fn config_of(g: GatewayView) -> ConfigView {
    ConfigView {
        sip_port: g.sip_port,
        selected_device: g.selected_device,
        channels: g.channels.map_values(|c: ChannelView| settings_of(c)),
        amp_enabled: g.amp_enabled,
        bridge_enabled: g.bridge_enabled,
        dispatch_groups: g.groups,
    }
}

impl Gateway {
    /// The state at the start, with the given settings.
    pub fn from_config(config: &GatewayConfig) -> (r: Gateway)
        requires
            forall|i: int|
                0 <= i < config.channels@.len() ==> ports_fit((#[trigger] config.channels@[i])@),
        ensures
            r@ == fresh_gateway(config@),
    {
        broadcast use vstd::std_specs::hash::group_hash_axioms;

        let mut channels: Vec<Channel> = Vec::new();
        let mut i: usize = 0;
        while i < config.channels.len()
            invariant
                i <= config.channels@.len(),
                channels@.len() == i,
                forall|k: int|
                    0 <= k < config.channels@.len() ==> ports_fit(
                        (#[trigger] config.channels@[k])@,
                    ),
                forall|k: int|
                    0 <= k < i ==> (#[trigger] channels@[k])@ == started(config.channels@[k]@),
            decreases config.channels@.len() - i,
        {
            channels.push(start_channel(&config.channels[i]));
            i += 1;
        }
        let r = Gateway {
            channels,
            active_calls: Vec::new(),
            selected_device: copy_opt(&config.selected_device),
            sip_port: config.sip_port,
            amp_enabled: config.amp_enabled,
            bridge_enabled: config.bridge_enabled,
            dispatch_groups: copy_groups(&config.dispatch_groups),
            flags: HashMap::new(),
        };
        assert(r@.channels =~= fresh_gateway(config@).channels);
        assert(r@.calls =~= Seq::<CallView>::empty());
        r
    }

    /// The settings that the state holds, to be stored.
    pub fn to_config(&self) -> (r: GatewayConfig)
        ensures
            r@ == config_of(self@),
    {
        let mut channels: Vec<ChannelConfig> = Vec::new();
        let mut i: usize = 0;
        while i < self.channels.len()
            invariant
                i <= self.channels@.len(),
                channels@.len() == i,
                forall|k: int|
                    0 <= k < i ==> (#[trigger] channels@[k])@ == settings_of(self.channels@[k]@),
            decreases self.channels@.len() - i,
        {
            channels.push(self.channels[i].settings());
            i += 1;
        }
        let r = GatewayConfig {
            sip_port: self.sip_port,
            selected_device: copy_opt(&self.selected_device),
            channels,
            amp_enabled: self.amp_enabled,
            bridge_enabled: self.bridge_enabled,
            dispatch_groups: copy_groups(&self.dispatch_groups),
        };
        assert(r@.channels =~= config_of(self@).channels);
        r
    }

    /// The place of the first channel with a number.
    pub fn find_channel(&self, id: u32) -> (r: Option<usize>)
        ensures
            match r {
                Some(i) => channel_index(self@.channels, id) == Some(i as int) && i
                    < self.channels@.len() && self.channels@[i as int].id == id,
                None => channel_index(self@.channels, id) is None,
            },
    {
        let mut i: usize = 0;
        while i < self.channels.len()
            invariant
                i <= self.channels@.len(),
                channel_index(self@.channels, id) == channel_from(self@.channels, id, i as int),
            decreases self.channels@.len() - i,
        {
            assert(self@.channels[i as int] == self.channels@[i as int]@);
            if self.channels[i].id == id {
                return Some(i);
            }
            i += 1;
        }
        None
    }

    /// The place of the first call on a channel.
    pub fn find_call(&self, channel: u32) -> (r: Option<usize>)
        ensures
            match r {
                Some(i) => call_index(self@.calls, channel) == Some(i as int) && i
                    < self.active_calls@.len(),
                None => call_index(self@.calls, channel) is None,
            },
    {
        let mut i: usize = 0;
        while i < self.active_calls.len()
            invariant
                i <= self.active_calls@.len(),
                call_index(self@.calls, channel) == call_from(self@.calls, channel, i as int),
            decreases self.active_calls@.len() - i,
        {
            assert(self@.calls[i as int] == self.active_calls@[i as int]@);
            if self.active_calls[i].channel_id == channel {
                return Some(i);
            }
            i += 1;
        }
        None
    }

    /// The place of the first group with a number.
    pub fn find_group(&self, id: u32) -> (r: Option<usize>)
        ensures
            match r {
                Some(i) => group_index(self@.groups, id) == Some(i as int) && i
                    < self.dispatch_groups@.len(),
                None => group_index(self@.groups, id) is None,
            },
    {
        let mut i: usize = 0;
        while i < self.dispatch_groups.len()
            invariant
                i <= self.dispatch_groups@.len(),
                group_index(self@.groups, id) == group_from(self@.groups, id, i as int),
            decreases self.dispatch_groups@.len() - i,
        {
            assert(self@.groups[i as int] == self.dispatch_groups@[i as int]@);
            if self.dispatch_groups[i].id == id {
                return Some(i);
            }
            i += 1;
        }
        None
    }

    /// Forgets the flags of a channel.
    pub(crate) fn clear_flags(&mut self, channel: u32)
        ensures
            final(self)@ == (GatewayView {
                flags: flags_without(old(self)@.flags, channel),
                ..old(self)@
            }),
    {
        broadcast use vstd::std_specs::hash::group_hash_axioms;

        let k1: u64 = make_flag_key(channel, 1);
        let k2: u64 = make_flag_key(channel, 2);
        let k3: u64 = make_flag_key(channel, 3);
        let k4: u64 = make_flag_key(channel, 4);
        self.flags.remove(&k1);
        self.flags.remove(&k2);
        self.flags.remove(&k3);
        self.flags.remove(&k4);
    }

    /// Takes the first call on a channel out, with the channel's flags.
    pub(crate) fn drop_call(&mut self, channel: u32) -> (r: Option<ActiveCall>)
        ensures
            final(self)@ == without_call(old(self)@, channel),
            opt_call(r) == call_on(old(self)@, channel),
    {
        match self.find_call(channel) {
            Some(j) => {
                let call = self.active_calls.remove(j);
                assert(self@.calls =~= old(self)@.calls.remove(j as int));
                self.clear_flags(channel);
                Some(call)
            },
            None => None,
        }
    }
}

/// Settings that give every leg an address and every bridge a port come back from
/// the state as they went into it; a recorder's port always does, zero too.
pub proof fn law_config_survives_start(config: ConfigView)
    requires
        forall|i: int|
            0 <= i < config.channels.len() ==> (#[trigger] config.channels[i]).amp_ip.len() > 0
                && config.channels[i].bridge_ip.len() > 0 && config.channels[i].bridge_port != 0,
    ensures
        config_of(fresh_gateway(config)) == config,
{
    assert(config_of(fresh_gateway(config)).channels =~= config.channels);
}

} // verus!
