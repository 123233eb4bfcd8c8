//! What the console is told of the calls agrees with the state: each announcement holds
//! what changed, and what comes of a call changes one channel alone.

use crate::calls::{
    accepted_call_handled, bridge_settings, connect_events, dial_events, ended, hang_up_events,
    hangs_up, incoming_outcome, peer_end_events, plan_fits, ptt_events, recorder_settings,
    reply_handled, signalling_event, step_answered, step_dialing, step_failed, step_hung_up,
    step_leg_up, step_level, step_link, step_peer_ended, step_ptt, step_rtp_connected,
    step_signalling, stepped, with_tag, AcceptedEnd, CallPlan, CallingSession, HangUp,
    IncomingOutcome, Leg, ReplyAction,
};
use crate::dispatch::repatched;
use crate::events::{event_views, EventView, LogLevel, PatchView};
use crate::listener::distinct_ids;
use crate::messages::bye_accepted_text;
use crate::sip::{is_host, law_rtp_uri_round_trip, law_sip_uri_round_trip, reply_of};
use crate::state::{
    call_index, channel_index, lemma_call_from, lemma_channel_from, without_call, CallView,
    ChannelView, GatewayView,
};
use crate::text::{begins_with, decimal, law_found_at_the_first_place, stands_at};
use vstd::prelude::*;
use vstd::string::*;

verus! {

/// A value after a patch: what the patch holds, or what it was.
pub open spec fn overlaid<T>(told: Option<T>, was: T) -> T {
    match told {
        Some(x) => x,
        None => was,
    }
}

/// Whether a patch tells a console that shows a channel as it was what the channel is
/// now, but for its groups.
pub open spec fn tells_change(p: PatchView, was: ChannelView, now: ChannelView) -> bool {
    &&& p.id == now.id
    &&& now.id == was.id
    &&& now.status == overlaid(p.status, was.status)
    &&& now.duration == overlaid(p.duration, was.duration)
    &&& now.target_uri == overlaid(p.target_uri, was.target_uri)
    &&& now.codec == overlaid(p.codec, was.codec)
    &&& now.latency == overlaid(p.latency, was.latency)
    &&& now.jitter == overlaid(p.jitter, was.jitter)
    &&& now.rx_kbps == overlaid(p.rx_kbps, was.rx_kbps)
    &&& now.tx_kbps == overlaid(p.tx_kbps, was.tx_kbps)
    &&& now.ptt_active == overlaid(p.ptt_active, was.ptt_active)
    &&& now.audio_level == overlaid(p.audio_level, was.audio_level)
    &&& now.amp_streaming == overlaid(p.amp_streaming, was.amp_streaming)
    &&& now.bridge_connected == overlaid(p.bridge_connected, was.bridge_connected)
}

/// Whether a step of a call leaves alone what the settings tell.
pub open spec fn keeps_settings(was: ChannelView, now: ChannelView) -> bool {
    &&& now.id == was.id
    &&& now.label == was.label
    &&& now.protocol == was.protocol
    &&& now.target_ip == was.target_ip
    &&& now.target_port == was.target_port
    &&& now.sip_user == was.sip_user
    &&& now.local_port == was.local_port
    &&& now.volume == was.volume
    &&& now.srtp_enabled == was.srtp_enabled
    &&& now.sip_auth_required == was.sip_auth_required
    &&& now.amp_ip == was.amp_ip
    &&& now.amp_port == was.amp_port
    &&& now.amp_enabled == was.amp_enabled
    &&& now.bridge_ip == was.bridge_ip
    &&& now.bridge_port == was.bridge_port
    &&& now.bridge_enabled == was.bridge_enabled
    &&& now.bridge_local_port == was.bridge_local_port
    &&& now.ed137_enabled == was.ed137_enabled
    &&& now.ed137_ptt_id == was.ed137_ptt_id
}

/// Two channels that differ at most in whether they show as patched.
pub open spec fn same_but_patch(a: ChannelView, b: ChannelView) -> bool {
    a == (ChannelView { dispatch_connected: a.dispatch_connected, ..b })
}

/// Whether all channels but one are as they were, but for whether they show as patched,
/// and the settings of the gateway are as they were.
pub open spec fn others_stay(before: GatewayView, after: GatewayView, i: int) -> bool {
    &&& after.channels.len() == before.channels.len()
    &&& forall|k: int|
        0 <= k < before.channels.len() && k != i ==> same_but_patch(
            #[trigger] after.channels[k],
            before.channels[k],
        )
    &&& after.selected_device == before.selected_device
    &&& after.sip_port == before.sip_port
    &&& after.amp_enabled == before.amp_enabled
    &&& after.bridge_enabled == before.bridge_enabled
    &&& after.groups == before.groups
}

/// Whether the first call on a channel went and every other stayed.
pub open spec fn call_went(before: Seq<CallView>, after: Seq<CallView>, id: u32) -> bool {
    ||| (after == before && forall|j: int|
        0 <= j < before.len() ==> (#[trigger] before[j]).channel_id != id)
    ||| exists|j: int|
        {
            &&& 0 <= j < before.len()
            &&& (#[trigger] before[j]).channel_id == id
            &&& after == before.remove(j)
            &&& forall|k: int| 0 <= k < j ==> (#[trigger] before[k]).channel_id != id
        }
}

proof fn lemma_stepped(
    g: GatewayView,
    id: u32,
    step: spec_fn(ChannelView) -> ChannelView,
    i: int,
)
    requires
        distinct_ids(g.channels),
        0 <= i < g.channels.len(),
        g.channels[i].id == id,
    ensures
        channel_index(g.channels, id) == Some(i),
        stepped(g, id, step) == (GatewayView {
            channels: g.channels.update(i, step(g.channels[i])),
            ..g
        }),
        others_stay(g, stepped(g, id, step), i),
{
    lemma_channel_from(g.channels, id, 0);
}

proof fn lemma_ended(
    g: GatewayView,
    id: u32,
    step: spec_fn(ChannelView) -> ChannelView,
    i: int,
)
    requires
        distinct_ids(g.channels),
        0 <= i < g.channels.len(),
        g.channels[i].id == id,
    ensures
        ({
            let after = repatched(ended(g, id, step));
            &&& others_stay(g, after, i)
            &&& same_but_patch(after.channels[i], step(g.channels[i]))
            &&& call_went(g.calls, after.calls, id)
        }),
{
    let mid = without_call(g, id);
    lemma_stepped(mid, id, step, i);
    lemma_call_from(g.calls, id, 0);
    let after = repatched(ended(g, id, step));
    assert(after.channels.len() == g.channels.len());
    if let Some(j) = call_index(g.calls, id) {
        assert(g.calls[j].channel_id == id);
        assert(after.calls == g.calls.remove(j));
    }
}

/// A reply that tells of a failure ends the call: its channel shows the failure, does
/// not transmit, and has no leg; the console is told so, with the status line.
#[verifier::rlimit(40)]
#[verifier::spinoff_prover]
pub proof fn law_failure_is_shown(
    before: GatewayView,
    id: u32,
    session: CallingSession,
    msg: Seq<char>,
    n: u32,
    after: GatewayView,
    session_after: CallingSession,
    action: ReplyAction,
    events: Seq<EventView>,
    i: int,
)
    requires
        distinct_ids(before.channels),
        0 <= i < before.channels.len(),
        before.channels[i].id == id,
        reply_handled(before, id, session, msg, n, after, session_after, action, events),
        reply_of(msg) is Failed,
    ensures
        ({
            let c = after.channels[i];
            &&& others_stay(before, after, i)
            &&& call_went(before.calls, after.calls, id)
            &&& keeps_settings(before.channels[i], c)
            &&& c.status is Failed
            &&& !c.ptt_active && c.tx_kbps == 0
            &&& !c.amp_streaming && !c.bridge_connected && !c.bridge_link_alive
            &&& c.incoming_call == before.channels[i].incoming_call
            &&& action is Failed
            &&& session_after == session
            &&& events.len() >= 2
            &&& events[0] == (EventView::Log {
                level: LogLevel::Error,
                channel_id: id,
                message: "[rsipstack] Outbound call failed with: "@ + (reply_of(msg)->status),
            })
            &&& events[1] matches EventView::Patch { patch } && tells_change(
                patch,
                before.channels[i],
                c,
            )
        }),
{
    lemma_ended(before, id, step_failed(), i);
}

/// A reply that answers the call connects its channel and leaves it silent; the tag of
/// the called side is noted with the call, and the caller is told the port for its
/// sound and confirms the call.
#[verifier::rlimit(40)]
#[verifier::spinoff_prover]
pub proof fn law_answer_is_shown(
    before: GatewayView,
    id: u32,
    session: CallingSession,
    msg: Seq<char>,
    n: u32,
    after: GatewayView,
    session_after: CallingSession,
    action: ReplyAction,
    events: Seq<EventView>,
    i: int,
)
    requires
        distinct_ids(before.channels),
        0 <= i < before.channels.len(),
        before.channels[i].id == id,
        reply_handled(before, id, session, msg, n, after, session_after, action, events),
        reply_of(msg) is Answered,
    ensures
        ({
            let c = after.channels[i];
            let told = reply_of(msg);
            &&& others_stay(before, after, i)
            &&& keeps_settings(before.channels[i], c)
            &&& c.status is Connected
            &&& !c.ptt_active && c.tx_kbps == 0
            &&& c.duration == before.channels[i].duration
            &&& c.amp_streaming == before.channels[i].amp_streaming
            &&& c.bridge_connected == before.channels[i].bridge_connected
            &&& action matches ReplyAction::Answered { ack, rtp_port }
            &&& rtp_port == told->rtp_port
            &&& ack@ == session_after.ack_of(n)
            &&& session_after.same_but_tag(session)
            &&& told->to_tag matches Some(t) ==> (session_after.to_tag matches Some(s) && s@ == t)
            &&& after.calls.len() == before.calls.len()
            &&& forall|j: int|
                0 <= j < before.calls.len() && before.calls[j].channel_id != id
                    ==> #[trigger] after.calls[j] == before.calls[j]
            &&& forall|j: int|
                0 <= j < before.calls.len() && before.calls[j].channel_id == id && (forall|k: int|
                    0 <= k < j ==> (#[trigger] before.calls[k]).channel_id != id)
                    ==> #[trigger] after.calls[j] == (CallView {
                    to_tag: match told->to_tag {
                        Some(t) => Some(t),
                        None => before.calls[j].to_tag,
                    },
                    ..before.calls[j]
                })
            &&& events.len() == 3
            &&& events[0] == (EventView::Log {
                level: LogLevel::SipRx,
                channel_id: id,
                message: "[rsipstack] SIP/2.0 200 OK received. Negotiated remote RTP port "@
                    + decimal(rtp_port as nat),
            })
            &&& events[2] matches EventView::Patch { patch } && tells_change(
                patch,
                before.channels[i],
                c,
            )
        }),
{
    let told = reply_of(msg);
    lemma_call_from(before.calls, id, 0);
    let mid = with_tag(before, id, told->to_tag);
    lemma_stepped(mid, id, step_answered(), i);
}

/// A request to end the call, or a first reply, in place of an answer: the former frees
/// the channel and hands the call back, and the latter, like anything that is no reply,
/// changes nothing.
#[verifier::rlimit(40)]
#[verifier::spinoff_prover]
pub proof fn law_other_replies(
    before: GatewayView,
    id: u32,
    session: CallingSession,
    msg: Seq<char>,
    n: u32,
    after: GatewayView,
    session_after: CallingSession,
    action: ReplyAction,
    events: Seq<EventView>,
    i: int,
)
    requires
        distinct_ids(before.channels),
        0 <= i < before.channels.len(),
        before.channels[i].id == id,
        reply_handled(before, id, session, msg, n, after, session_after, action, events),
    ensures
        reply_of(msg) is Bye ==> {
            let c = after.channels[i];
            &&& others_stay(before, after, i)
            &&& call_went(before.calls, after.calls, id)
            &&& keeps_settings(before.channels[i], c)
            &&& c.status is Idle
            &&& !c.ptt_active && c.tx_kbps == 0
            &&& !c.amp_streaming && !c.bridge_connected && !c.bridge_link_alive
            &&& action is Ended
            &&& events.len() >= 2
            &&& events[1] matches EventView::Patch { patch } && tells_change(
                patch,
                before.channels[i],
                c,
            )
        },
        reply_of(msg) is Trying || reply_of(msg) is Ringing || reply_of(msg) is Other
            ==> after == before && session_after == session && action is Wait,
        reply_of(msg) is Other ==> events.len() == 0,
{
    lemma_ended(before, id, step_peer_ended(false), i);
}

/// A call that was accepted and that the other side ends frees its channel and silences
/// it, and the console is told so.
pub proof fn law_accepted_call_ends(before: GatewayView, id: u32, i: int)
    requires
        distinct_ids(before.channels),
        0 <= i < before.channels.len(),
        before.channels[i].id == id,
    ensures
        ({
            let after = repatched(ended(before, id, step_peer_ended(true)));
            let c = after.channels[i];
            let events = peer_end_events(id, true);
            &&& others_stay(before, after, i)
            &&& call_went(before.calls, after.calls, id)
            &&& keeps_settings(before.channels[i], c)
            &&& c.status is Idle
            &&& c.audio_level == 0
            &&& !c.ptt_active && c.tx_kbps == 0
            &&& events[1] matches EventView::Patch { patch } && tells_change(
                patch,
                before.channels[i],
                c,
            )
        }),
{
    lemma_ended(before, id, step_peer_ended(true), i);
}

/// Keying a channel makes it transmit and releasing it makes it stop, and nothing else
/// changes; the console is told so.
pub proof fn law_key_is_shown(before: GatewayView, id: u32, active: bool, i: int)
    requires
        distinct_ids(before.channels),
        0 <= i < before.channels.len(),
        before.channels[i].id == id,
    ensures
        ({
            let after = stepped(before, id, step_ptt(active));
            let c = after.channels[i];
            let events = ptt_events(id, active);
            &&& after == (GatewayView { channels: after.channels, ..before })
            &&& others_stay(before, after, i)
            &&& c == (ChannelView {
                ptt_active: c.ptt_active,
                tx_kbps: c.tx_kbps,
                ..before.channels[i]
            })
            &&& c.ptt_active == active
            &&& active ==> c.tx_kbps == 80
            &&& !active ==> c.tx_kbps == 0
            &&& events.len() == 2
            &&& events[0] matches EventView::Patch { patch } && tells_change(
                patch,
                before.channels[i],
                c,
            )
            &&& events[1] == (EventView::Log {
                level: LogLevel::Info,
                channel_id: id,
                message: "[PTT] Channel "@ + decimal(id as nat) + " PTT "@ + (if active {
                    "pressed (Transmitting)"@
                } else {
                    "released (Muted)"@
                }),
            })
        }),
{
    lemma_stepped(before, id, step_ptt(active), i);
}

/// Hanging up frees the channel and takes the call out; the console is told so, and is
/// told that nothing is sent or heard any more.
#[verifier::rlimit(40)]
#[verifier::spinoff_prover]
pub proof fn law_hang_up_is_shown(before: GatewayView, id: u32, is_rtp: bool, i: int)
    requires
        distinct_ids(before.channels),
        0 <= i < before.channels.len(),
        before.channels[i].id == id,
    ensures
        ({
            let after = repatched(ended(before, id, step_hung_up()));
            let c = after.channels[i];
            let events = hang_up_events(id, is_rtp);
            &&& others_stay(before, after, i)
            &&& call_went(before.calls, after.calls, id)
            &&& keeps_settings(before.channels[i], c)
            &&& c.status is Idle
            &&& c.audio_level == 0 && c.duration == 0
            &&& !c.ptt_active
            &&& !c.amp_streaming && !c.bridge_connected && !c.bridge_link_alive
            &&& exists|k: int|
                {
                    &&& 0 <= k < events.len()
                    &&& #[trigger] events[k] matches EventView::Patch { patch }
                    &&& tells_change(
                        PatchView {
                            latency: None,
                            jitter: None,
                            rx_kbps: None,
                            tx_kbps: None,
                            ..patch
                        },
                        before.channels[i],
                        c,
                    )
                    &&& patch.latency == Some(0u32) && patch.jitter == Some(0u32)
                    &&& patch.rx_kbps == Some(0u32) && patch.tx_kbps == Some(0u32)
                    &&& patch.dispatch_connected == Some(false)
                }
        }),
{
    lemma_ended(before, id, step_hung_up(), i);
    let events = hang_up_events(id, is_rtp);
    let was = before.channels[i];
    let c = repatched(ended(before, id, step_hung_up())).channels[i];
    if events[0] is Patch {
        assert(events[0] is Patch);
    } else {
        assert(events[1] is Patch);
    }
}

/// Placing a call and bringing up a direct session show on the channel, and the console
/// is told so.
#[verifier::rlimit(40)]
#[verifier::spinoff_prover]
pub proof fn law_start_is_shown(
    before: GatewayView,
    id: u32,
    uri: Seq<char>,
    codec: Seq<char>,
    ip: Seq<char>,
    port: u16,
    dest: Seq<char>,
    i: int,
)
    requires
        distinct_ids(before.channels),
        0 <= i < before.channels.len(),
        before.channels[i].id == id,
    ensures
        ({
            let after = stepped(before, id, step_dialing(uri, codec));
            let c = after.channels[i];
            let events = dial_events(id, uri, codec, ip, port);
            &&& after == (GatewayView { channels: after.channels, ..before })
            &&& others_stay(before, after, i)
            &&& keeps_settings(before.channels[i], c)
            &&& c.status is Ringing && c.duration == 0
            &&& c.target_uri == uri && c.codec == codec
            &&& events.len() == 2
            &&& events[0] matches EventView::Patch { patch } && tells_change(
                patch,
                before.channels[i],
                c,
            )
            &&& events[1] == (EventView::Log {
                level: LogLevel::SipTx,
                channel_id: id,
                message: "[rsipstack] SIP INVITE sent over UDP to "@ + (ip + ":"@ + decimal(
                    port as nat,
                )),
            })
        }),
        ({
            let after = stepped(before, id, step_rtp_connected(uri, codec));
            let c = after.channels[i];
            let events = connect_events(id, uri, codec, port, dest);
            &&& after == (GatewayView { channels: after.channels, ..before })
            &&& others_stay(before, after, i)
            &&& keeps_settings(before.channels[i], c)
            &&& c.status is Connected && c.duration == 0
            &&& !c.ptt_active && c.tx_kbps == 0
            &&& c.target_uri == uri && c.codec == codec
            &&& events.len() == 2
            &&& events[0] matches EventView::Patch { patch } && tells_change(
                patch,
                before.channels[i],
                c,
            )
            &&& events[1] == (EventView::Log {
                level: LogLevel::Info,
                channel_id: id,
                message: "[RTP Stack] Direct RTP audio session starting. Local Port: "@ + decimal(
                    port as nat,
                ) + ", Target: "@ + dest,
            })
        }),
{
    lemma_stepped(before, id, step_dialing(uri, codec), i);
    lemma_stepped(before, id, step_rtp_connected(uri, codec), i);
}

/// A call is accepted or rejected exactly where it rings and is kept: what was kept is
/// handed over, the channel keeps it no longer, and it is connected or free; the console
/// is told of the whole channel.
#[verifier::rlimit(40)]
#[verifier::spinoff_prover]
pub proof fn law_ringing_call_is_taken(
    before: GatewayView,
    id: u32,
    after: GatewayView,
    r: IncomingOutcome,
    accept: bool,
    i: int,
)
    requires
        distinct_ids(before.channels),
        0 <= i < before.channels.len(),
        before.channels[i].id == id,
        incoming_outcome(before, id, after, r, accept),
    ensures
        r is Taken <==> before.channels[i].status is Incoming
            && before.channels[i].incoming_call is Some,
        r is NotRinging <==> !(before.channels[i].status is Incoming),
        !(r is Taken) ==> after == before,
        r matches IncomingOutcome::Taken { call, update, patches, note } ==> {
            let c = after.channels[i];
            &&& others_stay(before, after, i)
            &&& after.calls == before.calls
            &&& keeps_settings(before.channels[i], c)
            &&& Some(call@) == before.channels[i].incoming_call
            &&& c.incoming_call is None
            &&& accept ==> c.status is Connected && c.duration == 0 && !c.ptt_active
            &&& !accept ==> c.status is Idle && !c.amp_streaming && !c.bridge_connected
            &&& update@ matches EventView::Update { channel } && same_but_patch(channel, c)
            &&& note@ == (EventView::Log {
                level: if accept {
                    LogLevel::Info
                } else {
                    LogLevel::Warn
                },
                channel_id: id,
                message: if accept {
                    "[rsipstack] Call Accepted"@
                } else {
                    "[rsipstack] Call Rejected"@
                },
            })
        },
{
    lemma_channel_from(before.channels, id, 0);
}

/// What is noted of a call while it is up changes what it names on one channel, and
/// nothing else.
#[verifier::rlimit(40)]
#[verifier::spinoff_prover]
pub proof fn law_notes_change_what_they_name(
    before: GatewayView,
    id: u32,
    a: bool,
    b: bool,
    value: u32,
    i: int,
)
    requires
        distinct_ids(before.channels),
        0 <= i < before.channels.len(),
        before.channels[i].id == id,
    ensures
        ({
            let was = before.channels[i];
            let recorder = stepped(before, id, step_leg_up(Leg::Recorder));
            let bridge = stepped(before, id, step_leg_up(Leg::Bridge));
            let link = stepped(before, id, step_link(a));
            let signal = stepped(before, id, step_signalling(a, b));
            let level = stepped(before, id, step_level(value));
            &&& others_stay(before, recorder, i) && recorder.channels[i] == (ChannelView {
                amp_streaming: true,
                ..was
            })
            &&& others_stay(before, bridge, i) && bridge.channels[i] == (ChannelView {
                bridge_connected: true,
                ..was
            })
            &&& others_stay(before, link, i) && link.channels[i] == (ChannelView {
                bridge_link_alive: a,
                ..was
            })
            &&& others_stay(before, signal, i) && signal.channels[i] == (ChannelView {
                ed137_remote_squelch: a,
                ed137_remote_ptt: b,
                ..was
            })
            &&& others_stay(before, level, i) && level.channels[i] == (ChannelView {
                audio_level: value,
                ..was
            })
        }),
{
    lemma_stepped(before, id, step_leg_up(Leg::Recorder), i);
    lemma_stepped(before, id, step_leg_up(Leg::Bridge), i);
    lemma_stepped(before, id, step_link(a), i);
    lemma_stepped(before, id, step_signalling(a, b), i);
    lemma_stepped(before, id, step_level(value), i);
}

/// A leg of a call goes where the settings of its channel say, and only where both the
/// gateway's switch and the channel's are on.
pub proof fn law_legs_follow_the_settings(g: GatewayView, id: u32, i: int)
    requires
        distinct_ids(g.channels),
        0 <= i < g.channels.len(),
        g.channels[i].id == id,
        1 <= id <= 12,
    ensures
        ({
            let c = g.channels[i];
            let recorder = recorder_settings(g, id);
            let bridge = bridge_settings(g, id);
            &&& recorder.0 <==> g.amp_enabled && c.amp_enabled
            &&& recorder.1 == c.amp_ip && recorder.2 == c.amp_port
            &&& bridge.0 <==> g.bridge_enabled && c.bridge_enabled
            &&& bridge.1 == c.bridge_ip && bridge.2 == c.bridge_port
            &&& c.bridge_local_port matches Some(p) ==> bridge.3 == p
            &&& c.bridge_local_port is None ==> bridge.3 == 8002 + 2 * id
        }),
{
    lemma_channel_from(g.channels, id, 0);
}

/// Hanging up hands the first call on the channel back, and the other side is to be told
/// exactly where there is one and the channel does not call by RTP.
#[verifier::rlimit(40)]
#[verifier::spinoff_prover]
pub proof fn law_other_side_is_told(
    before: GatewayView,
    id: u32,
    after: GatewayView,
    r: HangUp,
    i: int,
    j: int,
)
    requires
        distinct_ids(before.channels),
        0 <= i < before.channels.len(),
        before.channels[i].id == id,
        hangs_up(before, id, after, r),
        0 <= j < before.calls.len(),
        before.calls[j].channel_id == id,
        forall|k: int| 0 <= k < j ==> (#[trigger] before.calls[k]).channel_id != id,
    ensures
        r.found,
        r.call matches Some(c) && c@ == before.calls[j],
        r.send_bye <==> before.channels[i].protocol != "RTP"@,
        after.calls == before.calls.remove(j),
        event_views(r.events@).contains(
            EventView::Log {
                level: LogLevel::SipTx,
                channel_id: id,
                message: "[rsipstack] Transmitting BYE message."@,
            },
        ) <== before.channels[i].protocol != "RTP"@,
        event_views(r.events@).contains(
            EventView::Log {
                level: LogLevel::Info,
                channel_id: id,
                message: "[RTP Stack] Direct RTP audio session closed."@,
            },
        ) <== before.channels[i].protocol == "RTP"@,
{
    lemma_channel_from(before.channels, id, 0);
    lemma_call_from(before.calls, id, 0);
    assert(call_index(before.calls, id) == Some(j));
    let told = hang_up_events(id, before.channels[i].protocol == "RTP"@);
    let all = event_views(r.events@);
    assert(all[1] == told[1]);
}

/// A call is planned by the channel: one by RTP goes to the address that it names, from
/// the channel's own port or from one by its number, and any other to the user, the host
/// and the port of its address.
#[verifier::rlimit(40)]
#[verifier::spinoff_prover]
pub proof fn law_plan_follows_the_channel(
    g: GatewayView,
    id: u32,
    plan: CallPlan,
    uri: Seq<char>,
    user: Seq<char>,
    ip: Seq<char>,
    port: u16,
    i: int,
)
    requires
        distinct_ids(g.channels),
        0 <= i < g.channels.len(),
        g.channels[i].id == id,
        id <= 12,
        plan_fits(g, id, uri, plan),
        is_host(ip),
        !ip.contains(':'),
        !user.contains('@'),
    ensures
        g.channels[i].protocol == "RTP"@ && uri == "rtp://"@ + ip + ":"@ + decimal(port as nat)
            ==> (plan matches CallPlan::Rtp { dest_ip, dest_port, local_port } && dest_ip@ == ip
            && dest_port == port && (g.channels[i].local_port matches Some(p) ==> local_port == p)
            && (g.channels[i].local_port is None ==> local_port == 6000 + 2 * id)),
        g.channels[i].protocol != "RTP"@ && uri == "sip:"@ + user + "@"@ + ip + ":"@ + decimal(
            port as nat,
        ) ==> (plan matches CallPlan::Sip { user: u, ip: h, port: p } && u@ == user && h@ == ip && p
            == port),
{
    lemma_channel_from(g.channels, id, 0);
    law_rtp_uri_round_trip(ip, port);
    law_sip_uri_round_trip(user, ip, port);
}

/// The other side's signalling is announced exactly where it is news: where either of its
/// two signs differs from what was noted. What was noted is no news.
pub proof fn law_signalling_is_news_once(
    g: GatewayView,
    id: u32,
    squelch: bool,
    remote_ptt: bool,
    i: int,
)
    requires
        distinct_ids(g.channels),
        0 <= i < g.channels.len(),
        g.channels[i].id == id,
    ensures
        ({
            let told = signalling_event(g, id, squelch, remote_ptt);
            let after = stepped(g, id, step_signalling(squelch, remote_ptt));
            &&& told is None <==> g.channels[i].ed137_remote_squelch == squelch
                && g.channels[i].ed137_remote_ptt == remote_ptt
            &&& told matches Some(e) ==> e == (EventView::Ed137Status { id, squelch, remote_ptt })
            &&& signalling_event(after, id, squelch, remote_ptt) is None
            &&& told is None ==> after.channels[i] == g.channels[i]
        }),
{
    lemma_stepped(g, id, step_signalling(squelch, remote_ptt), i);
    lemma_channel_from(
        stepped(g, id, step_signalling(squelch, remote_ptt)).channels,
        id,
        0,
    );
}

/// A message to the port of an accepted call ends it exactly where it speaks of the end,
/// and is confirmed where there was a call; any other changes nothing.
#[verifier::rlimit(40)]
#[verifier::spinoff_prover]
pub proof fn law_accepted_call_hears_its_end(
    before: GatewayView,
    id: u32,
    pre: Seq<char>,
    post: Seq<char>,
    other: Seq<char>,
    local_ip: Seq<char>,
    sip_port: u16,
    after: GatewayView,
    r: Option<AcceptedEnd>,
    i: int,
)
    requires
        distinct_ids(before.channels),
        0 <= i < before.channels.len(),
        before.channels[i].id == id,
    ensures
        accepted_call_handled(before, id, pre + "BYE"@ + post, local_ip, sip_port, after, r) ==> {
            &&& r is Some
            &&& after.channels[i].status is Idle
            &&& call_went(before.calls, after.calls, id)
            &&& r->0.reply is Some <==> exists|j: int|
                0 <= j < before.calls.len() && (#[trigger] before.calls[j]).channel_id == id
            &&& r->0.reply matches Some(t) ==> begins_with(t@, "SIP/2.0 200"@)
        },
        accepted_call_handled(before, id, other, local_ip, sip_port, after, r) && (forall|k: int|
            !stands_at(other, "BYE"@, k)) ==> r is None && after == before,
{
    reveal_strlit("BYE");
    let msg = pre + "BYE"@ + post;
    assert(msg.subrange(pre.len() as int, pre.len() as int + 3) =~= "BYE"@);
    assert(stands_at(msg, "BYE"@, pre.len() as int));
    law_found_at_the_first_place(msg, "BYE"@);
    law_found_at_the_first_place(other, "BYE"@);
    lemma_ended(before, id, step_peer_ended(true), i);
    lemma_call_from(before.calls, id, 0);
    if let Some(j) = call_index(before.calls, id) {
        assert(before.calls[j].channel_id == id);
    }
    reveal_strlit("SIP/2.0 200");
    reveal_strlit("SIP/2.0 200 OK\r\nVia: SIP/2.0/UDP ");
    let t = bye_accepted_text(local_ip, sip_port);
    assert(t.subrange(0, 11) =~= "SIP/2.0 200"@);
}

} // verus!
