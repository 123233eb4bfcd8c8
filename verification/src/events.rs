//! What the gateway announces to its consoles.

use crate::config::{group_views, opt_text, DispatchGroup, GroupView};
use crate::state::{Channel, ChannelStatus, ChannelView};
use vstd::prelude::*;
use vstd::string::*;

verus! {

/// The kind of a log line.
#[derive(Debug, Clone, Copy, PartialEq, Eq, Structural)]
pub enum LogLevel {
    Info,
    Warn,
    Error,
    Success,
    SipTx,
    SipRx,
}

impl LogLevel {
    /// The name of the kind.
    pub open spec fn name(self) -> Seq<char> {
        match self {
            LogLevel::Info => "info"@,
            LogLevel::Warn => "warn"@,
            LogLevel::Error => "error"@,
            LogLevel::Success => "success"@,
            LogLevel::SipTx => "sip_tx"@,
            LogLevel::SipRx => "sip_rx"@,
        }
    }

    /// The name of the kind.
    pub fn as_str(self) -> (r: &'static str)
        ensures
            r@ == self.name(),
    {
        match self {
            LogLevel::Info => "info",
            LogLevel::Warn => "warn",
            LogLevel::Error => "error",
            LogLevel::Success => "success",
            LogLevel::SipTx => "sip_tx",
            LogLevel::SipRx => "sip_rx",
        }
    }
}

/// Some fields of a channel that changed; those that are missing did not.
pub struct ChannelPatch {
    pub id: u32,
    pub status: Option<ChannelStatus>,
    pub duration: Option<u32>,
    pub target_uri: Option<String>,
    pub codec: Option<String>,
    pub latency: Option<u32>,
    pub jitter: Option<u32>,
    /// The packet loss is zero again.
    pub no_loss: bool,
    pub rx_kbps: Option<u32>,
    pub tx_kbps: Option<u32>,
    pub ptt_active: Option<bool>,
    pub audio_level: Option<u32>,
    pub amp_streaming: Option<bool>,
    pub bridge_connected: Option<bool>,
    pub dispatch_connected: Option<bool>,
}

/// A patch as a value.
#[verifier::ext_equal]
pub ghost struct PatchView {
    pub id: u32,
    pub status: Option<ChannelStatus>,
    pub duration: Option<u32>,
    pub target_uri: Option<Seq<char>>,
    pub codec: Option<Seq<char>>,
    pub latency: Option<u32>,
    pub jitter: Option<u32>,
    pub no_loss: bool,
    pub rx_kbps: Option<u32>,
    pub tx_kbps: Option<u32>,
    pub ptt_active: Option<bool>,
    pub audio_level: Option<u32>,
    pub amp_streaming: Option<bool>,
    pub bridge_connected: Option<bool>,
    pub dispatch_connected: Option<bool>,
}

impl View for ChannelPatch {
    type V = PatchView;

    open spec fn view(&self) -> PatchView {
        PatchView {
            id: self.id,
            status: self.status,
            duration: self.duration,
            target_uri: opt_text(self.target_uri),
            codec: opt_text(self.codec),
            latency: self.latency,
            jitter: self.jitter,
            no_loss: self.no_loss,
            rx_kbps: self.rx_kbps,
            tx_kbps: self.tx_kbps,
            ptt_active: self.ptt_active,
            audio_level: self.audio_level,
            amp_streaming: self.amp_streaming,
            bridge_connected: self.bridge_connected,
            dispatch_connected: self.dispatch_connected,
        }
    }
}

/// A patch that changes nothing.
pub open spec fn blank_patch(id: u32) -> PatchView {
    PatchView {
        id,
        status: None,
        duration: None,
        target_uri: None,
        codec: None,
        latency: None,
        jitter: None,
        no_loss: false,
        rx_kbps: None,
        tx_kbps: None,
        ptt_active: None,
        audio_level: None,
        amp_streaming: None,
        bridge_connected: None,
        dispatch_connected: None,
    }
}

impl ChannelPatch {
    /// A patch that changes nothing.
    pub fn blank(id: u32) -> (r: ChannelPatch)
        ensures
            r@ == blank_patch(id),
    {
        ChannelPatch {
            id,
            status: None,
            duration: None,
            target_uri: None,
            codec: None,
            latency: None,
            jitter: None,
            no_loss: false,
            rx_kbps: None,
            tx_kbps: None,
            ptt_active: None,
            audio_level: None,
            amp_streaming: None,
            bridge_connected: None,
            dispatch_connected: None,
        }
    }
}

/// What the gateway announces.
pub enum Event {
    Log { level: LogLevel, channel_id: u32, message: String },
    /// A channel as a whole.
    Update { channel: Channel },
    Patch { patch: ChannelPatch },
    AudioLevel { id: u32, value: u32 },
    Ed137Status { id: u32, squelch: bool, remote_ptt: bool },
    BridgeStatus { id: u32, link_alive: bool },
    /// The listening port and the device.
    DeviceUpdate { sip_port: u16, selected_device: String },
    /// The settings that concern all channels.
    ConfigUpdate {
        sip_port: u16,
        selected_device: String,
        amp_enabled: bool,
        bridge_enabled: bool,
    },
    /// The groups.
    Matrix { groups: Vec<DispatchGroup> },
}

/// An event as a value.
pub ghost enum EventView {
    Log { level: LogLevel, channel_id: u32, message: Seq<char> },
    Update { channel: ChannelView },
    Patch { patch: PatchView },
    AudioLevel { id: u32, value: u32 },
    Ed137Status { id: u32, squelch: bool, remote_ptt: bool },
    BridgeStatus { id: u32, link_alive: bool },
    DeviceUpdate { sip_port: u16, selected_device: Seq<char> },
    ConfigUpdate {
        sip_port: u16,
        selected_device: Seq<char>,
        amp_enabled: bool,
        bridge_enabled: bool,
    },
    Matrix { groups: Seq<GroupView> },
}

impl View for Event {
    type V = EventView;

    open spec fn view(&self) -> EventView {
        match *self {
            Event::Log { level, channel_id, message } => EventView::Log {
                level,
                channel_id,
                message: message@,
            },
            Event::Update { channel } => EventView::Update { channel: channel@ },
            Event::Patch { patch } => EventView::Patch { patch: patch@ },
            Event::AudioLevel { id, value } => EventView::AudioLevel { id, value },
            Event::Ed137Status { id, squelch, remote_ptt } => EventView::Ed137Status {
                id,
                squelch,
                remote_ptt,
            },
            Event::BridgeStatus { id, link_alive } => EventView::BridgeStatus { id, link_alive },
            Event::DeviceUpdate { sip_port, selected_device } => EventView::DeviceUpdate {
                sip_port,
                selected_device: selected_device@,
            },
            Event::ConfigUpdate { sip_port, selected_device, amp_enabled, bridge_enabled } =>
                EventView::ConfigUpdate {
                sip_port,
                selected_device: selected_device@,
                amp_enabled,
                bridge_enabled,
            },
            Event::Matrix { groups } => EventView::Matrix { groups: group_views(groups@) },
        }
    }
}

/// The views of a list of events.
pub open spec fn event_views(s: Seq<Event>) -> Seq<EventView> {
    s.map_values(|e: Event| e@)
}

/// One list of events after another.
pub(crate) fn join_events(first: Vec<Event>, more: Vec<Event>) -> (r: Vec<Event>)
    ensures
        event_views(r@) == event_views(first@) + event_views(more@),
{
    let mut r = first;
    let mut tail = more;
    r.append(&mut tail);
    assert(event_views(r@) =~= event_views(first@) + event_views(more@));
    r
}

/// A log line about a channel.
pub open spec fn log_view(level: LogLevel, id: u32, message: Seq<char>) -> EventView {
    EventView::Log { level, channel_id: id, message }
}

/// A log line about a channel.
pub fn log_event(level: LogLevel, id: u32, message: &str) -> (r: Event)
    ensures
        r@ == log_view(level, id, message@),
{
    Event::Log { level, channel_id: id, message: message.to_owned() }
}

/// The text of an optional string: empty for none.
pub open spec fn text_or_empty(s: Option<Seq<char>>) -> Seq<char> {
    match s {
        Some(t) => t,
        None => Seq::empty(),
    }
}

/// The text of an optional string: empty for none.
pub fn copy_or_empty(s: &Option<String>) -> (r: String)
    ensures
        r@ == text_or_empty(opt_text(*s)),
{
    match s {
        Some(t) => t.clone(),
        None => String::new(),
    }
}

} // verus!
