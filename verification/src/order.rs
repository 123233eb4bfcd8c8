//! What holds of the state at all times: which channels count as patched, which
//! calls have a part in groups, and how many calls a channel has.

use crate::calls::{
    accepted, ended, step_answered, step_dialing, step_leg_up, step_level, step_link, step_ptt,
    step_rtp_connected, step_signalling, stepped, with_tag, Leg,
};
use crate::config::{ConfigView, CHANNEL_COUNT};
use crate::dispatch::{
    is_patched, law_patches_are_shown, lemma_same_patches, linked, patches_shown, repatched,
    rosters_toggled, toggle_refusal, toggle_shown, toggled,
};
use crate::form_save::{before_recorders, edited_up_to, saved, step_edited, with_globals};
use crate::listener::{end_result, lemma_named_call_from, named_call_from, ringing};
use crate::state::{
    call_index, call_on, channel_index, flag_key, flags_without, fresh_gateway, lemma_call_from,
    lemma_channel_from, lemma_flag_key, without_call, CallView, ChannelView, GatewayView,
    IncomingView,
};
use vstd::prelude::*;

verus! {

/// Only a call that is up is linked to groups.
pub open spec fn links_have_calls(g: GatewayView) -> bool {
    forall|channel: u32, group: u32|
        1 <= group <= 4 && g.flags.contains_key(#[trigger] flag_key(channel, group)) ==> call_on(
            g,
            channel,
        ) is Some
}

/// No channel has two calls.
pub open spec fn one_call_each(g: GatewayView) -> bool {
    forall|i: int, j: int|
        0 <= i < j < g.calls.len() ==> (#[trigger] g.calls[i]).channel_id != (
        #[trigger] g.calls[j]).channel_id
}

/// The state is in order: each channel shows whether it is patched, only calls
/// that are up are linked to groups, and no channel has two calls.
pub open spec fn in_order(g: GatewayView) -> bool {
    patches_shown(g) && links_have_calls(g) && one_call_each(g)
}

/// A step of a channel that leaves alone its number and what it shows of its
/// groups.
pub open spec fn keeps_patch(step: spec_fn(ChannelView) -> ChannelView) -> bool {
    forall|c: ChannelView|
        (#[trigger] step(c)).id == c.id && step(c).dispatch_connected == c.dispatch_connected
}

proof fn lemma_call_stays(s: Seq<CallView>, j: int, channel: u32)
    requires
        0 <= j < s.len(),
        s[j].channel_id != channel,
    ensures
        match call_index(s, channel) {
            Some(k) => call_index(s.remove(j), channel) matches Some(m) && s.remove(j)[m] == s[k],
            None => call_index(s.remove(j), channel) is None,
        },
{
    let t = s.remove(j);
    lemma_call_from(s, channel, 0);
    lemma_call_from(t, channel, 0);
    assert forall|m: int| 0 <= m < t.len() implies #[trigger] t[m] == s[if m < j {
        m
    } else {
        m + 1
    }] by {}
    if let Some(k) = call_index(s, channel) {
        let at = if k < j {
            k
        } else {
            k - 1
        };
        assert(t[at] == s[k]);
        let m = call_index(t, channel)->0;
        assert(m <= at);
        if m < at {
            assert(t[m].channel_id == channel);
        }
    } else if let Some(m) = call_index(t, channel) {
        assert(t[m].channel_id == channel);
    }
}

proof fn lemma_call_taken_out(g: GatewayView, j: int, h: GatewayView)
    requires
        0 <= j < g.calls.len(),
        links_have_calls(g),
        one_call_each(g),
        h.calls == g.calls.remove(j),
        h.flags == flags_without(g.flags, g.calls[j].channel_id),
    ensures
        links_have_calls(h),
        one_call_each(h),
        call_on(h, g.calls[j].channel_id) is None,
{
    let gone = g.calls[j].channel_id;
    assert forall|channel: u32, group: u32|
        1 <= group <= 4 && h.flags.contains_key(
            #[trigger] flag_key(channel, group),
        ) implies call_on(h, channel) is Some by {
        lemma_flag_key(channel, group, gone, 1);
        lemma_flag_key(channel, group, gone, 2);
        lemma_flag_key(channel, group, gone, 3);
        lemma_flag_key(channel, group, gone, 4);
        assert(g.flags.contains_key(flag_key(channel, group)));
        assert(channel != gone);
        lemma_call_stays(g.calls, j, channel);
    }
    assert forall|a: int, b: int| 0 <= a < b < h.calls.len() implies (
    #[trigger] h.calls[a]).channel_id != (#[trigger] h.calls[b]).channel_id by {
        let a0 = if a < j {
            a
        } else {
            a + 1
        };
        let b0 = if b < j {
            b
        } else {
            b + 1
        };
        assert(h.calls[a] == g.calls[a0]);
        assert(h.calls[b] == g.calls[b0]);
    }
    lemma_call_from(h.calls, gone, 0);
    if call_on(h, gone) is Some {
        let k = call_index(h.calls, gone)->0;
        if k < j {
            assert(h.calls[k] == g.calls[k]);
        } else {
            assert(h.calls[k] == g.calls[k + 1]);
        }
    }
}

proof fn lemma_order_by_parts(g: GatewayView, h: GatewayView)
    requires
        links_have_calls(g),
        one_call_each(g),
        h.flags == g.flags,
        h.calls == g.calls,
    ensures
        links_have_calls(h),
        one_call_each(h),
{
    assert forall|channel: u32, group: u32|
        1 <= group <= 4 && h.flags.contains_key(
            #[trigger] flag_key(channel, group),
        ) implies call_on(h, channel) is Some by {
        assert(call_on(g, channel) is Some);
    }
}

/// The state is in order at the start.
pub proof fn law_start_is_in_order(config: ConfigView)
    ensures
        in_order(fresh_gateway(config)),
{
    let g = fresh_gateway(config);
    reveal(is_patched);
}

/// However a call ends, the state stays in order, and the channel has no call and
/// no link to a group afterwards.
pub proof fn law_ends_keep_order(
    g: GatewayView,
    id: u32,
    step: spec_fn(ChannelView) -> ChannelView,
)
    requires
        in_order(g),
    ensures
        in_order(repatched(ended(g, id, step))),
        call_on(repatched(ended(g, id, step)), id) is None,
        forall|group: u32|
            1 <= group <= 4 ==> !(#[trigger] repatched(ended(g, id, step)).flags.contains_key(
                flag_key(id, group),
            )),
{
    let h = without_call(g, id);
    let e = ended(g, id, step);
    lemma_call_from(g.calls, id, 0);
    if let Some(j) = call_index(g.calls, id) {
        lemma_call_taken_out(g, j, h);
    }
    lemma_order_by_parts(h, e);
    law_patches_are_shown(e);
    lemma_order_by_parts(e, repatched(e));
    assert(call_on(h, id) is None);
    assert forall|group: u32| 1 <= group <= 4 implies !(#[trigger] repatched(
        e,
    ).flags.contains_key(flag_key(id, group))) by {
        if h.flags.contains_key(flag_key(id, group)) {
            assert(call_on(h, id) is Some);
        }
    }
}

/// A call that a request by its name ends, or a ringing one that it takes back,
/// leaves the state in order.
pub proof fn law_named_end_keeps_order(g: GatewayView, call_id: Seq<char>)
    requires
        in_order(g),
    ensures
        in_order(repatched(end_result(g, call_id).gateway)),
{
    let e = end_result(g, call_id).gateway;
    lemma_named_call_from(g.calls, call_id, 0);
    if e.calls == g.calls && e.flags == g.flags {
        lemma_order_by_parts(g, e);
    } else {
        let j = named_call_from(g.calls, call_id, 0)->0;
        lemma_call_taken_out(g, j, e);
    }
    law_patches_are_shown(e);
    lemma_order_by_parts(e, repatched(e));
}

/// Making way for a call leaves the state in order and the channel without a call;
/// the calls on all other channels stay.
pub proof fn law_begin_makes_way(g: GatewayView, id: u32)
    requires
        in_order(g),
    ensures
        in_order(repatched(without_call(g, id))),
        call_on(repatched(without_call(g, id)), id) is None,
        forall|other: u32|
            other != id ==> #[trigger] call_on(repatched(without_call(g, id)), other) == call_on(
                g,
                other,
            ),
{
    let h = without_call(g, id);
    lemma_call_from(g.calls, id, 0);
    if let Some(j) = call_index(g.calls, id) {
        lemma_call_taken_out(g, j, h);
        assert forall|other: u32| other != id implies #[trigger] call_on(repatched(h), other)
            == call_on(g, other) by {
            lemma_call_stays(g.calls, j, other);
        }
    }
    law_patches_are_shown(h);
    lemma_order_by_parts(h, repatched(h));
}

/// A call that is added where way was made for it leaves the state in order: its
/// channel has that call and no other.
pub proof fn law_added_call_keeps_order(g: GatewayView, call: CallView)
    requires
        in_order(g),
        call_on(g, call.channel_id) is None,
    ensures
        in_order(GatewayView { calls: g.calls.push(call), ..g }),
        call_on(GatewayView { calls: g.calls.push(call), ..g }, call.channel_id) == Some(call),
{
    let h = GatewayView { calls: g.calls.push(call), ..g };
    lemma_call_from(g.calls, call.channel_id, 0);
    lemma_call_from(h.calls, call.channel_id, 0);
    assert(h.calls[g.calls.len() as int] == call);
    let at = call_index(h.calls, call.channel_id)->0;
    if at < g.calls.len() {
        assert(h.calls[at] == g.calls[at]);
    }
    assert forall|channel: u32, group: u32|
        1 <= group <= 4 && h.flags.contains_key(
            #[trigger] flag_key(channel, group),
        ) implies call_on(h, channel) is Some by {
        assert(g.flags.contains_key(flag_key(channel, group)));
        lemma_call_from(g.calls, channel, 0);
        lemma_call_from(h.calls, channel, 0);
        let k = call_index(g.calls, channel)->0;
        assert(h.calls[k] == g.calls[k]);
    }
    assert forall|a: int, b: int| 0 <= a < b < h.calls.len() implies (
    #[trigger] h.calls[a]).channel_id != (#[trigger] h.calls[b]).channel_id by {
        assert(h.calls[a] == g.calls[a]);
        if b < g.calls.len() {
            assert(h.calls[b] == g.calls[b]);
        }
    }
    assert forall|i: int| 0 <= i < h.channels.len() implies (
    #[trigger] h.channels[i]).dispatch_connected == is_patched(h, h.channels[i].id) by {
        assert(g.channels[i].dispatch_connected == is_patched(g, g.channels[i].id));
        lemma_same_patches(g, h, h.channels[i].id);
    }
}

/// A channel is called anew by making way and adding the call: afterwards it has
/// the new call alone, whatever it had before, and the state is in order.
pub proof fn law_new_call_replaces_the_old(g: GatewayView, call: CallView)
    requires
        in_order(g),
    ensures
        ({
            let begun = repatched(without_call(g, call.channel_id));
            let added = GatewayView { calls: begun.calls.push(call), ..begun };
            in_order(added) && call_on(added, call.channel_id) == Some(call)
        }),
{
    law_begin_makes_way(g, call.channel_id);
    law_added_call_keeps_order(repatched(without_call(g, call.channel_id)), call);
}

/// Linking a call that is up to the groups leaves the state in order.
pub proof fn law_links_keep_order(g: GatewayView, channel: u32)
    requires
        in_order(g),
        call_on(g, channel) is Some,
    ensures
        in_order(repatched(linked(g, channel))),
{
    let h = linked(g, channel);
    assert forall|c: u32, group: u32|
        1 <= group <= 4 && h.flags.contains_key(#[trigger] flag_key(c, group)) implies call_on(
        h,
        c,
    ) is Some by {
        if c != channel {
            lemma_flag_key(c, group, channel, 1);
            lemma_flag_key(c, group, channel, 2);
            lemma_flag_key(c, group, channel, 3);
            lemma_flag_key(c, group, channel, 4);
            assert(g.flags.contains_key(flag_key(c, group)));
        }
        assert(call_on(g, c) is Some);
    }
    law_patches_are_shown(h);
    lemma_order_by_parts(h, repatched(h));
}

/// Putting a channel into a group or taking it out leaves the state in order.
pub proof fn law_toggle_keeps_order(g: GatewayView, group: u32, channel: u32)
    requires
        in_order(g),
        toggle_refusal(g, group, channel) is None,
    ensures
        in_order(toggled(g, group, channel)),
{
    let r = rosters_toggled(g, group, channel);
    let h = toggle_shown(g, group, channel);
    assert forall|c: u32, x: u32|
        1 <= x <= 4 && r.flags.contains_key(#[trigger] flag_key(c, x)) implies call_on(
        r,
        c,
    ) is Some by {
        assert(g.flags.contains_key(flag_key(c, x)));
        assert(call_on(g, c) is Some);
    }
    lemma_order_by_parts(r, h);
    law_patches_are_shown(h);
    lemma_order_by_parts(h, repatched(h));
}

/// Every other step in the life of a channel leaves the state in order.
pub proof fn law_steps_keep_order(
    g: GatewayView,
    id: u32,
    step: spec_fn(ChannelView) -> ChannelView,
)
    requires
        in_order(g),
        keeps_patch(step),
    ensures
        in_order(stepped(g, id, step)),
{
    let h = stepped(g, id, step);
    lemma_channel_from(g.channels, id, 0);
    lemma_order_by_parts(g, h);
    assert forall|i: int| 0 <= i < h.channels.len() implies (
    #[trigger] h.channels[i]).dispatch_connected == is_patched(h, h.channels[i].id) by {
        if let Some(k) = channel_index(g.channels, id) {
            if i == k {
                assert(step(g.channels[k]).id == g.channels[k].id);
            }
            assert(step(g.channels[k]).id == g.channels[k].id);
        }
        assert(g.channels[i].dispatch_connected == is_patched(g, g.channels[i].id));
        assert forall|k: int| 0 <= k < g.channels.len() implies (#[trigger] g.channels[k]).id
            == h.channels[k].id by {
            assert(step(g.channels[k]).id == g.channels[k].id);
        }
        lemma_same_patches(g, h, h.channels[i].id);
    }
}

/// Noting the tag of the called side leaves the state in order.
pub proof fn law_tag_keeps_order(g: GatewayView, id: u32, tag: Option<Seq<char>>)
    requires
        in_order(g),
    ensures
        in_order(with_tag(g, id, tag)),
{
    let h = with_tag(g, id, tag);
    lemma_call_from(g.calls, id, 0);
    assert forall|k: int| 0 <= k < g.calls.len() implies (#[trigger] h.calls[k]).channel_id
        == g.calls[k].channel_id by {}
    assert forall|channel: u32, group: u32|
        1 <= group <= 4 && h.flags.contains_key(
            #[trigger] flag_key(channel, group),
        ) implies call_on(h, channel) is Some by {
        assert(call_on(g, channel) is Some);
        lemma_call_from(g.calls, channel, 0);
        lemma_call_from(h.calls, channel, 0);
        let k = call_index(g.calls, channel)->0;
        assert(h.calls[k].channel_id == g.calls[k].channel_id);
    }
    assert forall|i: int| 0 <= i < h.channels.len() implies (
    #[trigger] h.channels[i]).dispatch_connected == is_patched(h, h.channels[i].id) by {
        assert(g.channels[i].dispatch_connected == is_patched(g, g.channels[i].id));
        lemma_same_patches(g, h, h.channels[i].id);
    }
}

/// The steps of a call that comes up, is keyed or is looked after leave alone what a
/// channel shows of its groups.
pub proof fn law_life_of_a_call_keeps_patches(
    uri: Seq<char>,
    codec: Seq<char>,
    call: IncomingView,
    leg: Leg,
    flag: bool,
    other: bool,
    value: u32,
)
    ensures
        keeps_patch(step_rtp_connected(uri, codec)),
        keeps_patch(step_dialing(uri, codec)),
        keeps_patch(step_answered()),
        keeps_patch(|c: ChannelView| ringing(c, call)),
        keeps_patch(|c: ChannelView| accepted(c)),
        keeps_patch(step_ptt(flag)),
        keeps_patch(step_leg_up(leg)),
        keeps_patch(step_link(flag)),
        keeps_patch(step_signalling(flag, other)),
        keeps_patch(step_level(value)),
{
}

proof fn lemma_order_of_like(g: GatewayView, h: GatewayView)
    requires
        in_order(g),
        h.flags == g.flags,
        h.calls == g.calls,
        h.channels.len() == g.channels.len(),
        forall|k: int|
            0 <= k < g.channels.len() ==> (#[trigger] g.channels[k]).id == h.channels[k].id
                && g.channels[k].dispatch_connected == h.channels[k].dispatch_connected,
    ensures
        in_order(h),
{
    lemma_order_by_parts(g, h);
    assert forall|i: int| 0 <= i < h.channels.len() implies (
    #[trigger] h.channels[i]).dispatch_connected == is_patched(h, h.channels[i].id) by {
        assert(g.channels[i].dispatch_connected == is_patched(g, g.channels[i].id));
        lemma_same_patches(g, h, h.channels[i].id);
    }
}

proof fn lemma_edits_keep_order(
    g: GatewayView,
    form: Map<Seq<char>, Seq<char>>,
    plain: bool,
    count: nat,
)
    requires
        in_order(g),
    ensures
        in_order(edited_up_to(g, form, plain, count)),
    decreases count,
{
    if count > 0 {
        lemma_edits_keep_order(g, form, plain, (count - 1) as nat);
        law_steps_keep_order(
            edited_up_to(g, form, plain, (count - 1) as nat),
            count as u32,
            step_edited(form, plain),
        );
    }
}

/// Saving a form leaves the state in order.
pub proof fn law_saving_keeps_order(
    g: GatewayView,
    form: Map<Seq<char>, Seq<char>>,
    sip_port: u16,
)
    requires
        in_order(g),
    ensures
        in_order(saved(g, form, sip_port)),
{
    let all = with_globals(g, form, sip_port);
    lemma_order_of_like(g, all);
    lemma_edits_keep_order(all, form, false, CHANNEL_COUNT as nat);
    lemma_order_of_like(before_recorders(g, form, sip_port), saved(g, form, sip_port));
}

} // verus!
