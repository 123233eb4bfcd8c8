//! Which field of a settings form each setting comes from: every setting is told by a
//! field of its own, by its name and the channel's number, and by no other.

use crate::config::DISPATCH_GROUP_COUNT;
use crate::dialogue::{lemma_decimal_plain, lemma_trimmed_ends};
use crate::events::EventView;
use crate::form::{
    bridge_port_asked, channel_of, check_bridge, check_bridge_local, check_channels, check_form,
    check_group_local, check_group_mirror, check_listening, check_local, check_mirror, field,
    group_port_asked, leg_port, local_port_asked, port_of, target_error, TablesView,
};
use crate::form_errors::FormError;
use crate::form_save::{
    before_plain_edits, edit_events, edited, edited_up_to, plainly_edited, plainly_saved, saved,
    saved_events, with_globals, with_streaming,
};
use crate::listener::distinct_ids;
use crate::state::{channel_index, lemma_channel_from, ChannelView, GatewayView};
use crate::text::{decimal, law_decimal_round_trip, law_short_text_is_kept, trimmed, trimmed_start};
use vstd::prelude::*;
use vstd::string::*;
use vstd::utf8::encode_utf8;

verus! {

/// Whether a form holds a text under a name and a number.
pub open spec fn holds(
    form: Map<Seq<char>, Seq<char>>,
    name: Seq<char>,
    id: u32,
    text: Seq<char>,
) -> bool {
    form.contains_pair(name + decimal(id as nat), text)
}

/// Whether a form holds anything under a name and a number.
pub open spec fn holds_any(
    form: Map<Seq<char>, Seq<char>>,
    name: Seq<char>,
    id: u32,
) -> bool {
    form.contains_key(name + decimal(id as nat))
}

/// Whether two forms hold the same under a name and a number.
pub open spec fn agree(
    a: Map<Seq<char>, Seq<char>>,
    b: Map<Seq<char>, Seq<char>>,
    name: Seq<char>,
    id: u32,
) -> bool {
    holds_any(a, name, id) == holds_any(b, name, id) && (holds_any(a, name, id) ==> a[name
        + decimal(id as nat)] == b[name + decimal(id as nat)])
}

proof fn lemma_edited(
    g: GatewayView,
    form: Map<Seq<char>, Seq<char>>,
    plain: bool,
    count: nat,
    i: int,
)
    requires
        distinct_ids(g.channels),
        0 <= i < g.channels.len(),
        count <= 0xffff_ffff,
    ensures
        ({
            let after = edited_up_to(g, form, plain, count);
            let c = g.channels[i];
            &&& after.channels.len() == g.channels.len()
            &&& after == (GatewayView { channels: after.channels, ..g })
            &&& forall|k: int|
                0 <= k < g.channels.len() ==> (#[trigger] after.channels[k]).id == g.channels[k].id
            &&& after.channels[i] == (if 1 <= c.id <= count {
                if plain {
                    plainly_edited(c, form)
                } else {
                    edited(c, form)
                }
            } else {
                c
            })
        }),
    decreases count,
{
    if count > 0 {
        lemma_edited(g, form, plain, (count - 1) as nat, i);
        let before = edited_up_to(g, form, plain, (count - 1) as nat);
        lemma_channel_from(before.channels, count as u32, 0);
        if let Some(j) = channel_index(before.channels, count as u32) {
            assert(before.channels[j].id == count);
            assert(g.channels[j].id == count);
            if g.channels[i].id == count {
                assert(j == i);
            }
        } else {
            assert(before.channels[i].id == g.channels[i].id);
        }
    }
}

proof fn lemma_saved(
    g: GatewayView,
    form: Map<Seq<char>, Seq<char>>,
    sip_port: u16,
    i: int,
)
    requires
        distinct_ids(g.channels),
        0 <= i < g.channels.len(),
        1 <= g.channels[i].id <= 12,
    ensures
        ({
            let after = saved(g, form, sip_port);
            &&& after.channels.len() == g.channels.len()
            &&& after.channels[i] == with_streaming(
                edited(g.channels[i], form),
                form.contains_key("amp_enabled"@),
            )
        }),
{
    lemma_edited(with_globals(g, form, sip_port), form, false, 12, i);
}

proof fn lemma_plainly_saved(g: GatewayView, form: Map<Seq<char>, Seq<char>>, i: int)
    requires
        distinct_ids(g.channels),
        0 <= i < g.channels.len(),
        1 <= g.channels[i].id <= 12,
    ensures
        ({
            let after = plainly_saved(g, form);
            &&& after.channels.len() == g.channels.len()
            &&& after.channels[i] == plainly_edited(g.channels[i], form)
        }),
{
    lemma_edited(before_plain_edits(g, form), form, true, 12, i);
}

proof fn lemma_number_sent(n: nat)
    requires
        n <= 65535,
    ensures
        port_of(decimal(n)) == Some(n as u16),
        decimal(n).len() > 0,
        trimmed(decimal(n)) == decimal(n),
        trimmed(decimal(n)).len() > 0,
{
    law_decimal_round_trip(n, 65535);
    lemma_decimal_plain(n);
    lemma_trimmed_ends(decimal(n));
}

/// The ports of a channel's recorder and bridge are the numbers in the fields of their
/// names, whether the channel has a call or not.
pub proof fn law_leg_ports_are_saved(
    g: GatewayView,
    form: Map<Seq<char>, Seq<char>>,
    sip_port: u16,
    i: int,
    p: u16,
)
    requires
        distinct_ids(g.channels),
        0 <= i < g.channels.len(),
        1 <= g.channels[i].id <= 12,
    ensures
        ({
            let id = g.channels[i].id;
            let c = saved(g, form, sip_port).channels[i];
            let text = decimal(p as nat);
            &&& holds(form, "amp_port_"@, id, text) ==> c.amp_port == p
            &&& holds(form, "bridge_port_"@, id, text) ==> c.bridge_port == p
            &&& holds(form, "bridge_local_port_"@, id, text) ==> c.bridge_local_port == Some(p)
            &&& holds(form, "bridge_local_port_"@, id, ""@) ==> c.bridge_local_port is None
        }),
{
    lemma_saved(g, form, sip_port, i);
    lemma_number_sent(p as nat);
    reveal_strlit("");
    lemma_trimmed_ends(""@);
    assert(trimmed(""@).len() == 0) by {
        assert(trimmed_start(""@).len() == 0);
    }
}

/// The addresses of a channel's recorder and bridge are the texts in the fields of
/// their names, without whitespace around them; a field with nothing else means the
/// machine itself.
pub proof fn law_leg_addresses_are_saved(
    g: GatewayView,
    form: Map<Seq<char>, Seq<char>>,
    sip_port: u16,
    i: int,
    text: Seq<char>,
)
    requires
        distinct_ids(g.channels),
        0 <= i < g.channels.len(),
        1 <= g.channels[i].id <= 12,
    ensures
        ({
            let id = g.channels[i].id;
            let c = saved(g, form, sip_port).channels[i];
            let shown = if trimmed(text).len() == 0 {
                "127.0.0.1"@
            } else {
                trimmed(text)
            };
            &&& holds(form, "amp_ip_"@, id, text) ==> c.amp_ip == shown
            &&& holds(form, "bridge_ip_"@, id, text) ==> c.bridge_ip == shown
        }),
{
    lemma_saved(g, form, sip_port, i);
}

/// Where a free channel calls, by whom and how is told by the fields of those names.
#[verifier::rlimit(40)]
#[verifier::spinoff_prover]
pub proof fn law_target_is_saved(
    g: GatewayView,
    form: Map<Seq<char>, Seq<char>>,
    sip_port: u16,
    i: int,
    text: Seq<char>,
    p: u16,
)
    requires
        distinct_ids(g.channels),
        0 <= i < g.channels.len(),
        1 <= g.channels[i].id <= 12,
        g.channels[i].status is Idle || g.channels[i].status is Failed,
    ensures
        ({
            let id = g.channels[i].id;
            let c = saved(g, form, sip_port).channels[i];
            let d = plainly_saved(g, form).channels[i];
            let number = decimal(p as nat);
            &&& holds(form, "protocol_"@, id, text) ==> c.protocol == text && d.protocol == text
            &&& holds(form, "target_ip_"@, id, text) ==> c.target_ip == text && d.target_ip == text
            &&& holds(form, "codec_"@, id, text) ==> c.codec == text && d.codec == text
            &&& holds(form, "sip_user_"@, id, text) && text.len() > 0 ==> c.sip_user == Some(text)
                && d.sip_user == Some(text)
            &&& holds(form, "sip_user_"@, id, ""@) ==> c.sip_user is None && d.sip_user is None
            &&& holds(form, "target_port_"@, id, number) ==> c.target_port == p && d.target_port
                == p
            &&& holds(form, "local_port_"@, id, number) ==> c.local_port == Some(p) && d.local_port
                == Some(p)
            &&& holds(form, "local_port_"@, id, ""@) ==> c.local_port is None && d.local_port is None
            &&& holds(form, "label_"@, id, text) && trimmed(text) == text && encode_utf8(
                text,
            ).len() <= 7 ==> c.label == text
            &&& holds(form, "label_"@, id, text) ==> d.label == text
            &&& holds(form, "ed137_ptt_id_"@, id, number) && p <= 63 ==> c.ed137_ptt_id == p
            &&& holds(form, "ed137_ptt_id_"@, id, number) && 63 < p <= 255 ==> c.ed137_ptt_id == 63
        }),
{
    lemma_saved(g, form, sip_port, i);
    lemma_plainly_saved(g, form, i);
    lemma_number_sent(p as nat);
    if p <= 255 {
        law_decimal_round_trip(p as nat, 255);
    }
    reveal_strlit("");
    law_short_text_is_kept(text, 7);
}

/// A box is ticked where the form holds a field of its name, and only there.
pub proof fn law_boxes_are_saved(
    g: GatewayView,
    form: Map<Seq<char>, Seq<char>>,
    sip_port: u16,
    i: int,
)
    requires
        distinct_ids(g.channels),
        0 <= i < g.channels.len(),
        1 <= g.channels[i].id <= 12,
        g.channels[i].status is Idle || g.channels[i].status is Failed,
    ensures
        ({
            let id = g.channels[i].id;
            let c = saved(g, form, sip_port).channels[i];
            let d = plainly_saved(g, form).channels[i];
            &&& c.srtp_enabled <==> holds_any(form, "srtp_enabled_"@, id)
            &&& d.srtp_enabled <==> holds_any(form, "srtp_enabled_"@, id)
            &&& c.sip_auth_required <==> holds_any(form, "sip_auth_required_"@, id)
            &&& d.sip_auth_required <==> holds_any(form, "sip_auth_required_"@, id)
            &&& c.amp_enabled <==> holds_any(form, "amp_channel_enabled_"@, id)
            &&& c.bridge_enabled <==> holds_any(form, "bridge_channel_enabled_"@, id)
            &&& c.ed137_enabled <==> holds_any(form, "ed137_enabled_"@, id)
            &&& d.amp_enabled == g.channels[i].amp_enabled
            &&& d.bridge_enabled == g.channels[i].bridge_enabled
            &&& d.ed137_enabled == g.channels[i].ed137_enabled
        }),
{
    lemma_saved(g, form, sip_port, i);
    lemma_plainly_saved(g, form, i);
}

/// A form without the fields of a channel keeps each setting that a field would tell.
pub proof fn law_absent_fields_keep_settings(
    g: GatewayView,
    form: Map<Seq<char>, Seq<char>>,
    sip_port: u16,
    i: int,
)
    requires
        distinct_ids(g.channels),
        0 <= i < g.channels.len(),
        1 <= g.channels[i].id <= 12,
    ensures
        ({
            let id = g.channels[i].id;
            let old_c = g.channels[i];
            let c = saved(g, form, sip_port).channels[i];
            &&& !holds_any(form, "label_"@, id) ==> c.label == old_c.label
            &&& !holds_any(form, "protocol_"@, id) ==> c.protocol == old_c.protocol
            &&& !holds_any(form, "target_ip_"@, id) ==> c.target_ip == old_c.target_ip
            &&& !holds_any(form, "target_port_"@, id) ==> c.target_port == old_c.target_port
            &&& !holds_any(form, "sip_user_"@, id) ==> c.sip_user == old_c.sip_user
            &&& !holds_any(form, "local_port_"@, id) ==> c.local_port == old_c.local_port
            &&& !holds_any(form, "codec_"@, id) ==> c.codec == old_c.codec
            &&& !holds_any(form, "ed137_ptt_id_"@, id) ==> c.ed137_ptt_id == old_c.ed137_ptt_id
            &&& !holds_any(form, "amp_ip_"@, id) ==> c.amp_ip == old_c.amp_ip
            &&& !holds_any(form, "amp_port_"@, id) ==> c.amp_port == old_c.amp_port
            &&& !holds_any(form, "bridge_ip_"@, id) ==> c.bridge_ip == old_c.bridge_ip
            &&& !holds_any(form, "bridge_port_"@, id) ==> c.bridge_port == old_c.bridge_port
            &&& !holds_any(form, "bridge_local_port_"@, id) ==> c.bridge_local_port
                == old_c.bridge_local_port
        }),
{
    lemma_saved(g, form, sip_port, i);
}

/// Two forms that hold the same in a field leave a channel with the same setting,
/// whatever else they hold.
#[verifier::rlimit(40)]
#[verifier::spinoff_prover]
pub proof fn law_setting_depends_on_its_field(
    g: GatewayView,
    a: Map<Seq<char>, Seq<char>>,
    b: Map<Seq<char>, Seq<char>>,
    sip_port: u16,
    other_port: u16,
    i: int,
)
    requires
        distinct_ids(g.channels),
        0 <= i < g.channels.len(),
        1 <= g.channels[i].id <= 12,
    ensures
        ({
            let id = g.channels[i].id;
            let c = saved(g, a, sip_port).channels[i];
            let d = saved(g, b, other_port).channels[i];
            &&& agree(a, b, "label_"@, id) ==> c.label == d.label
            &&& agree(a, b, "protocol_"@, id) ==> c.protocol == d.protocol
            &&& agree(a, b, "target_ip_"@, id) ==> c.target_ip == d.target_ip
            &&& agree(a, b, "target_port_"@, id) ==> c.target_port == d.target_port
            &&& agree(a, b, "sip_user_"@, id) ==> c.sip_user == d.sip_user
            &&& agree(a, b, "srtp_enabled_"@, id) ==> c.srtp_enabled == d.srtp_enabled
            &&& agree(a, b, "sip_auth_required_"@, id) ==> c.sip_auth_required
                == d.sip_auth_required
            &&& agree(a, b, "local_port_"@, id) ==> c.local_port == d.local_port
            &&& agree(a, b, "codec_"@, id) ==> c.codec == d.codec
            &&& agree(a, b, "amp_channel_enabled_"@, id) ==> c.amp_enabled == d.amp_enabled
            &&& agree(a, b, "bridge_channel_enabled_"@, id) ==> c.bridge_enabled
                == d.bridge_enabled
            &&& agree(a, b, "ed137_enabled_"@, id) ==> c.ed137_enabled == d.ed137_enabled
            &&& agree(a, b, "ed137_ptt_id_"@, id) ==> c.ed137_ptt_id == d.ed137_ptt_id
            &&& agree(a, b, "amp_ip_"@, id) ==> c.amp_ip == d.amp_ip
            &&& agree(a, b, "amp_port_"@, id) ==> c.amp_port == d.amp_port
            &&& agree(a, b, "bridge_ip_"@, id) ==> c.bridge_ip == d.bridge_ip
            &&& agree(a, b, "bridge_port_"@, id) ==> c.bridge_port == d.bridge_port
            &&& agree(a, b, "bridge_local_port_"@, id) ==> c.bridge_local_port
                == d.bridge_local_port
        }),
{
    lemma_saved(g, a, sip_port, i);
    lemma_saved(g, b, other_port, i);
}

/// The address that a free channel calls after saving is made of the settings that were
/// saved with it.
pub proof fn law_saved_address_is_called(
    g: GatewayView,
    form: Map<Seq<char>, Seq<char>>,
    sip_port: u16,
    i: int,
)
    requires
        distinct_ids(g.channels),
        0 <= i < g.channels.len(),
        1 <= g.channels[i].id <= 12,
        g.channels[i].status is Idle || g.channels[i].status is Failed,
    ensures
        ({
            let c = saved(g, form, sip_port).channels[i];
            let user = match c.sip_user {
                Some(u) => u,
                None => "receiver"@,
            };
            c.target_uri == (if c.protocol == "RTP"@ {
                "rtp://"@ + c.target_ip + ":"@ + decimal(c.target_port as nat)
            } else {
                "sip:"@ + user + "@"@ + c.target_ip + ":"@ + decimal(c.target_port as nat)
            })
        }),
{
    lemma_saved(g, form, sip_port, i);
}

/// The settings of the gateway itself: its device, its two switches and the port that
/// it listens on are told by the fields of those names.
#[verifier::rlimit(40)]
#[verifier::spinoff_prover]
pub proof fn law_gateway_settings_are_saved(
    g: GatewayView,
    form: Map<Seq<char>, Seq<char>>,
    sip_port: u16,
    text: Seq<char>,
    p: u16,
)
    requires
        distinct_ids(g.channels),
        g.channels.len() > 0,
    ensures
        ({
            let after = saved(g, form, sip_port);
            &&& after.sip_port == sip_port
            &&& after.amp_enabled <==> form.contains_key("amp_enabled"@)
            &&& after.bridge_enabled <==> form.contains_key("bridge_enabled"@)
            &&& form.contains_pair("selected_device"@, text) && text.len() > 0 && text != "none"@
                ==> after.selected_device == Some(text)
            &&& form.contains_pair("selected_device"@, "none"@) ==> after.selected_device is None
            &&& form.contains_pair("selected_device"@, ""@) ==> after.selected_device is None
            &&& !form.contains_key("selected_device"@) ==> after.selected_device
                == g.selected_device
            &&& after.calls == g.calls
            &&& after.flags == g.flags
        }),
        form.contains_pair("sip_port"@, decimal(p as nat)) && p >= 1024 ==> check_listening(
            form,
            g.sip_port,
        ) == Ok::<u16, FormError>(p),
        form.contains_pair("sip_port"@, decimal(p as nat)) && p < 1024 ==> check_form(
            g,
            form,
        ) is Err,
        !form.contains_key("sip_port"@) && check_form(g, form) is Ok ==> check_form(g, form)->Ok_0
            == g.sip_port,
        form.contains_pair("sip_port"@, decimal(p as nat)) && check_form(g, form) is Ok
            ==> check_form(g, form)->Ok_0 == p,
        form.contains_pair("sip_port"@, decimal(p as nat)) ==> plainly_saved(g, form).sip_port == p,
        !form.contains_key("sip_port"@) ==> plainly_saved(g, form).sip_port == g.sip_port,
{
    lemma_edited(with_globals(g, form, sip_port), form, false, 12, 0);
    lemma_edited(before_plain_edits(g, form), form, true, 12, 0);
    lemma_number_sent(p as nat);
    reveal_strlit("");
}

/// The groups after saving: there are as many as can be, and the name, the tap's
/// switch, its address and its ports are told by the fields of those names.
#[verifier::rlimit(40)]
#[verifier::spinoff_prover]
pub proof fn law_groups_are_saved(
    g: GatewayView,
    form: Map<Seq<char>, Seq<char>>,
    sip_port: u16,
    k: int,
    text: Seq<char>,
    p: u16,
)
    requires
        distinct_ids(g.channels),
        g.channels.len() > 0,
        0 <= k < DISPATCH_GROUP_COUNT,
    ensures
        ({
            let after = saved(g, form, sip_port).groups;
            let id = (k + 1) as u32;
            let group = after[k];
            let number = decimal(p as nat);
            &&& after.len() == DISPATCH_GROUP_COUNT
            &&& group.id == k + 1
            &&& group.mirror_enabled <==> holds_any(form, "dispatch_mirror_enabled_"@, id)
            &&& holds(form, "dispatch_mirror_port_"@, id, number) ==> group.mirror_port == p
            &&& holds(form, "dispatch_mirror_local_port_"@, id, number) && p >= 1024
                ==> group.mirror_local_port == Some(p)
            &&& holds(form, "dispatch_mirror_local_port_"@, id, ""@) ==> group.mirror_local_port
                is None
            &&& holds(form, "dispatch_mirror_ip_"@, id, text) && trimmed(text).len() > 0
                ==> group.mirror_ip == trimmed(text)
            &&& holds(form, "dispatch_mirror_ip_"@, id, text) && trimmed(text).len() == 0
                ==> group.mirror_ip == "127.0.0.1"@
            &&& holds(form, "dispatch_name_"@, id, text) && trimmed(text) == text && 0
                < encode_utf8(text).len() <= 24 ==> group.name == text
            &&& holds(form, "dispatch_name_"@, id, text) && trimmed(text).len() == 0 ==> group.name
                == "Patch "@ + decimal((k + 1) as nat)
            &&& !holds_any(form, "dispatch_name_"@, id) ==> group.name == "Patch "@ + decimal(
                (k + 1) as nat,
            )
            &&& !holds_any(form, "dispatch_mirror_local_port_"@, id) ==> group.mirror_local_port
                is None
            &&& !holds_any(form, "dispatch_mirror_port_"@, id) ==> group.mirror_port == 0
            &&& !holds_any(form, "dispatch_mirror_ip_"@, id) ==> group.mirror_ip == "127.0.0.1"@
        }),
{
    lemma_edited(with_globals(g, form, sip_port), form, false, 12, 0);
    lemma_number_sent(p as nat);
    reveal_strlit("");
    assert(trimmed(""@).len() == 0) by {
        assert(trimmed_start(""@).len() == 0);
    }
    law_short_text_is_kept(text, 24);
    law_short_text_is_kept(trimmed(text), 24);
    if trimmed(text).len() == 0 {
        assert(encode_utf8(trimmed(text)).len() == 0);
    }
    if text.len() == 0 {
        assert(encode_utf8(text).len() == 0);
    }
}

// ---------------------------------------------------------------------------
// What is refused
// ---------------------------------------------------------------------------

/// The port of a recorder is looked at where both its boxes are ticked: it must be a port,
/// and one that no recorder before it has; then it is noted as this channel's.
pub proof fn law_recorder_port_is_checked(
    t: TablesView,
    c: ChannelView,
    form: Map<Seq<char>, Seq<char>>,
    id: u32,
    p: u16,
)
    ensures
        !(form.contains_key("amp_enabled"@) && holds_any(form, "amp_channel_enabled_"@, id))
            ==> check_mirror(t, Some(c), form, id) == Ok::<TablesView, FormError>(t),
        form.contains_key("amp_enabled"@) && holds_any(form, "amp_channel_enabled_"@, id) && (holds(
            form,
            "amp_port_"@,
            id,
            decimal(p as nat),
        ) || (!holds_any(form, "amp_port_"@, id) && c.amp_port == p)) ==> check_mirror(
            t,
            Some(c),
            form,
            id,
        ) == (if p == 0 {
            Err(FormError::MirrorPortRange { id })
        } else if t.mirror.contains_key(p) {
            Err(FormError::MirrorPortTaken { port: p, other: t.mirror[p], id })
        } else {
            Ok(TablesView { mirror: t.mirror.insert(p, id), ..t })
        }),
{
    lemma_number_sent(p as nat);
}

/// The port of a bridge is looked at in the same way, among the bridges.
pub proof fn law_bridge_port_is_checked(
    t: TablesView,
    c: ChannelView,
    form: Map<Seq<char>, Seq<char>>,
    id: u32,
    p: u16,
)
    ensures
        !(form.contains_key("bridge_enabled"@) && holds_any(form, "bridge_channel_enabled_"@, id))
            ==> check_bridge(t, Some(c), form, id) == Ok::<TablesView, FormError>(t),
        form.contains_key("bridge_enabled"@) && holds_any(form, "bridge_channel_enabled_"@, id) && (
        holds(form, "bridge_port_"@, id, decimal(p as nat)) || (!holds_any(
            form,
            "bridge_port_"@,
            id,
        ) && c.bridge_port == p)) ==> check_bridge(t, Some(c), form, id) == (if p == 0 {
            Err(FormError::BridgePortRange { id })
        } else if t.bridge.contains_key(p) {
            Err(FormError::BridgePortTaken { port: p, other: t.bridge[p], id })
        } else {
            Ok(TablesView { bridge: t.bridge.insert(p, id), ..t })
        }),
{
    lemma_number_sent(p as nat);
}

/// The port of a group's outside party is looked at where its box is ticked, among the
/// groups.
pub proof fn law_group_port_is_checked(
    t: TablesView,
    form: Map<Seq<char>, Seq<char>>,
    id: u32,
    p: u16,
)
    ensures
        !holds_any(form, "dispatch_mirror_enabled_"@, id) ==> check_group_mirror(t, form, id)
            == Ok::<TablesView, FormError>(t),
        holds_any(form, "dispatch_mirror_enabled_"@, id) && holds(
            form,
            "dispatch_mirror_port_"@,
            id,
            decimal(p as nat),
        ) ==> check_group_mirror(t, form, id) == (if p == 0 {
            Err(FormError::GroupMirrorRange { id })
        } else if t.groups.contains_key(p) {
            Err(FormError::GroupMirrorTaken { port: p, other: t.groups[p], id })
        } else {
            Ok(TablesView { groups: t.groups.insert(p, id), ..t })
        }),
        holds_any(form, "dispatch_mirror_enabled_"@, id) && !holds_any(
            form,
            "dispatch_mirror_port_"@,
            id,
        ) ==> check_group_mirror(t, form, id) == Err::<TablesView, FormError>(
            FormError::GroupMirrorRange { id },
        ),
{
    lemma_number_sent(p as nat);
}

/// A local port is refused below 1024, where the gateway listens on it and where another
/// leg has it; an empty field asks for none, and none is asked of a channel with a call.
#[verifier::rlimit(40)]
#[verifier::spinoff_prover]
pub proof fn law_local_ports_are_checked(
    t: TablesView,
    c: ChannelView,
    form: Map<Seq<char>, Seq<char>>,
    sip_port: u16,
    id: u32,
    p: u16,
)
    requires
        c.status is Idle || c.status is Failed,
    ensures
        holds(form, "local_port_"@, id, decimal(p as nat)) ==> check_local(
            t,
            sip_port,
            id,
            local_port_asked(Some(c), form, id),
        ) == (if p < 1024 {
            Err(FormError::LocalPortRange { id })
        } else if p == sip_port {
            Err(FormError::LocalPortIsSip { id, port: p })
        } else if t.local.contains_key(p) {
            Err(FormError::LocalPortTaken { port: p, other: t.local[p], id })
        } else {
            Ok(TablesView { local: t.local.insert(p, id), ..t })
        }),
        holds(form, "local_port_"@, id, ""@) ==> check_local(
            t,
            sip_port,
            id,
            local_port_asked(Some(c), form, id),
        ) == Ok::<TablesView, FormError>(t),
        holds(form, "bridge_local_port_"@, id, decimal(p as nat)) ==> check_bridge_local(
            t,
            sip_port,
            id,
            bridge_port_asked(Some(c), form, id),
        ) == (if p < 1024 {
            Err(FormError::BridgeLocalPortRange { id })
        } else if p == sip_port {
            Err(FormError::BridgeLocalPortIsSip { id, port: p })
        } else if t.local.contains_key(p) {
            Err(FormError::LocalPortTaken { port: p, other: t.local[p], id })
        } else {
            Ok(TablesView { local: t.local.insert(p, id), ..t })
        }),
        holds(form, "dispatch_mirror_local_port_"@, id, decimal(p as nat)) && id <= 4
            ==> check_group_local(t, sip_port, id, group_port_asked(form, id)) == (if p < 1024 {
            Err(FormError::GroupLocalPortRange { id })
        } else if p == sip_port {
            Err(FormError::GroupLocalPortIsSip { id, port: p })
        } else if t.local.contains_key(p) {
            Err(FormError::GroupLocalPortTaken { port: p, id, other: t.local[p] })
        } else {
            Ok(TablesView { local: t.local.insert(p, (100 + id) as u32), ..t })
        }),
{
    lemma_number_sent(p as nat);
    reveal_strlit("");
}

/// A free channel needs an alias and a destination, and a port to call that is one; a
/// channel with a call is not looked at.
pub proof fn law_target_is_checked(
    c: ChannelView,
    form: Map<Seq<char>, Seq<char>>,
    id: u32,
    label: Seq<char>,
    ip: Seq<char>,
    p: u16,
)
    ensures
        !(c.status is Idle || c.status is Failed) ==> target_error(Some(c), form, id) is None,
        (c.status is Idle || c.status is Failed) && holds(form, "label_"@, id, label) && holds(
            form,
            "target_ip_"@,
            id,
            ip,
        ) && holds(form, "target_port_"@, id, decimal(p as nat)) ==> target_error(
            Some(c),
            form,
            id,
        ) == (if trimmed(label).len() == 0 {
            Some(FormError::AliasEmpty { id })
        } else if trimmed(ip).len() == 0 {
            Some(FormError::TargetIpEmpty { id })
        } else if p == 0 {
            Some(FormError::TargetPortRange { id })
        } else {
            None
        }),
{
    lemma_number_sent(p as nat);
}

/// The port of a recorder that a form asks for.
spec fn recorder_asked(g: GatewayView, form: Map<Seq<char>, Seq<char>>, id: u32) -> u16 {
    leg_port(
        field(form, "amp_port_"@, id),
        match channel_of(g, id) {
            Some(x) => x.amp_port,
            None => 0,
        },
    )
}

/// The port of a bridge that a form asks for.
spec fn bridge_asked(g: GatewayView, form: Map<Seq<char>, Seq<char>>, id: u32) -> u16 {
    leg_port(
        field(form, "bridge_port_"@, id),
        match channel_of(g, id) {
            Some(x) => x.bridge_port,
            None => 0,
        },
    )
}

#[verifier::rlimit(40)]
#[verifier::spinoff_prover]
proof fn lemma_legs_noted(
    g: GatewayView,
    form: Map<Seq<char>, Seq<char>>,
    sip_port: u16,
    count: nat,
)
    requires
        count <= 12,
        check_channels(g, form, sip_port, count) is Ok,
    ensures
        ({
            let t = check_channels(g, form, sip_port, count)->Ok_0;
            &&& forall|id: u32|
                1 <= id <= count && form.contains_key("amp_enabled"@) && holds_any(
                    form,
                    "amp_channel_enabled_"@,
                    id,
                ) ==> #[trigger] recorder_asked(g, form, id) >= 1 && t.mirror.contains_key(
                    recorder_asked(g, form, id),
                ) && t.mirror[recorder_asked(g, form, id)] == id
            &&& forall|id: u32|
                1 <= id <= count && form.contains_key("bridge_enabled"@) && holds_any(
                    form,
                    "bridge_channel_enabled_"@,
                    id,
                ) ==> #[trigger] bridge_asked(g, form, id) >= 1 && t.bridge.contains_key(
                    bridge_asked(g, form, id),
                ) && t.bridge[bridge_asked(g, form, id)] == id
        }),
    decreases count,
{
    if count > 0 {
        lemma_legs_noted(g, form, sip_port, (count - 1) as nat);
        let id = count as u32;
        let c = channel_of(g, id);
        let t0 = check_channels(g, form, sip_port, (count - 1) as nat)->Ok_0;
        let t1 = check_local(t0, sip_port, id, local_port_asked(c, form, id))->Ok_0;
        assert(t1.mirror == t0.mirror && t1.bridge == t0.bridge);
        let t2 = check_mirror(t1, c, form, id)->Ok_0;
        assert(t2.bridge == t0.bridge);
        let t3 = check_bridge(t2, c, form, id)->Ok_0;
        assert(t3.mirror == t2.mirror);
        let t = check_channels(g, form, sip_port, count)->Ok_0;
        assert(t.mirror == t2.mirror && t.bridge == t3.bridge);
    }
}

proof fn lemma_asked_is_saved(
    g: GatewayView,
    form: Map<Seq<char>, Seq<char>>,
    sip_port: u16,
    i: int,
)
    requires
        distinct_ids(g.channels),
        0 <= i < g.channels.len(),
        1 <= g.channels[i].id <= 12,
    ensures
        ({
            let c = saved(g, form, sip_port).channels[i];
            let id = g.channels[i].id;
            &&& recorder_asked(g, form, id) >= 1 ==> c.amp_port == recorder_asked(g, form, id)
            &&& bridge_asked(g, form, id) >= 1 ==> c.bridge_port == bridge_asked(g, form, id)
        }),
{
    lemma_saved(g, form, sip_port, i);
    lemma_channel_from(g.channels, g.channels[i].id, 0);
}

proof fn lemma_asked_apart(
    g: GatewayView,
    form: Map<Seq<char>, Seq<char>>,
    sip_port: u16,
    a: u32,
    b: u32,
)
    requires
        check_channels(g, form, sip_port, 12) is Ok,
        1 <= a <= 12,
        1 <= b <= 12,
        a != b,
    ensures
        form.contains_key("amp_enabled"@) && holds_any(form, "amp_channel_enabled_"@, a)
            && holds_any(form, "amp_channel_enabled_"@, b) ==> recorder_asked(g, form, a) >= 1
            && recorder_asked(g, form, b) >= 1 && recorder_asked(g, form, a) != recorder_asked(
            g,
            form,
            b,
        ),
        form.contains_key("bridge_enabled"@) && holds_any(form, "bridge_channel_enabled_"@, a)
            && holds_any(form, "bridge_channel_enabled_"@, b) ==> bridge_asked(g, form, a) >= 1
            && bridge_asked(g, form, b) >= 1 && bridge_asked(g, form, a) != bridge_asked(
            g,
            form,
            b,
        ),
{
    lemma_legs_noted(g, form, sip_port, 12);
}

/// Where a form was saved, two recorders that are on have two ports, and so do two bridges
/// that are on; none of these ports is zero.
#[verifier::rlimit(40)]
#[verifier::spinoff_prover]
pub proof fn law_saved_legs_have_ports_of_their_own(
    g: GatewayView,
    form: Map<Seq<char>, Seq<char>>,
    i: int,
    j: int,
)
    requires
        distinct_ids(g.channels),
        0 <= i < g.channels.len(),
        0 <= j < g.channels.len(),
        i != j,
        1 <= g.channels[i].id <= 12,
        1 <= g.channels[j].id <= 12,
        check_form(g, form) is Ok,
    ensures
        ({
            let after = saved(g, form, check_form(g, form)->Ok_0);
            let a = g.channels[i].id;
            let b = g.channels[j].id;
            &&& form.contains_key("amp_enabled"@) && holds_any(form, "amp_channel_enabled_"@, a)
                && holds_any(form, "amp_channel_enabled_"@, b) ==> after.channels[i].amp_port >= 1
                && after.channels[i].amp_port != after.channels[j].amp_port
            &&& form.contains_key("bridge_enabled"@) && holds_any(
                form,
                "bridge_channel_enabled_"@,
                a,
            ) && holds_any(form, "bridge_channel_enabled_"@, b) ==> after.channels[i].bridge_port
                >= 1 && after.channels[i].bridge_port != after.channels[j].bridge_port
        }),
{
    let sip_port = check_form(g, form)->Ok_0;
    lemma_asked_is_saved(g, form, sip_port, i);
    lemma_asked_is_saved(g, form, sip_port, j);
    lemma_asked_apart(g, form, sip_port, g.channels[i].id, g.channels[j].id);
}

/// What the console is told of a form that was saved: each channel that it may change, as
/// it is then, and the settings of the gateway that were saved.
#[verifier::rlimit(40)]
#[verifier::spinoff_prover]
pub proof fn law_saved_form_is_announced(
    g: GatewayView,
    form: Map<Seq<char>, Seq<char>>,
    sip_port: u16,
    i: int,
)
    requires
        distinct_ids(g.channels),
        0 <= i < g.channels.len(),
        1 <= g.channels[i].id <= 12,
    ensures
        saved_events(g, form, sip_port).contains(
            EventView::ConfigUpdate {
                sip_port: saved(g, form, sip_port).sip_port,
                selected_device: match saved(g, form, sip_port).selected_device {
                    Some(d) => d,
                    None => Seq::empty(),
                },
                amp_enabled: form.contains_key("amp_enabled"@),
                bridge_enabled: form.contains_key("bridge_enabled"@),
            },
        ),
        saved_events(g, form, sip_port).contains(
            EventView::Update { channel: edited(g.channels[i], form) },
        ),
{
    let start = with_globals(g, form, sip_port);
    let mid = edited_up_to(start, form, false, 12);
    let edits = edit_events(start, form, false, 12);
    let all = saved_events(g, form, sip_port);
    lemma_edited(start, form, false, 12, 0);
    let e = EventView::ConfigUpdate {
        sip_port,
        selected_device: match mid.selected_device {
            Some(d) => d,
            None => Seq::empty(),
        },
        amp_enabled: form.contains_key("amp_enabled"@),
        bridge_enabled: form.contains_key("bridge_enabled"@),
    };
    assert(all[edits.len() as int] == e);
    lemma_edit_events(start, form, 12, i);
    let u = EventView::Update { channel: edited(g.channels[i], form) };
    let k = choose|k: int| 0 <= k < edits.len() && edits[k] == u;
    assert(all[k] == u);
}

proof fn lemma_edit_events(
    g: GatewayView,
    form: Map<Seq<char>, Seq<char>>,
    count: nat,
    i: int,
)
    requires
        distinct_ids(g.channels),
        0 <= i < g.channels.len(),
        1 <= g.channels[i].id <= count,
        count <= 12,
    ensures
        edit_events(g, form, false, count).contains(
            EventView::Update { channel: edited(g.channels[i], form) },
        ),
    decreases count,
{
    let n = (count - 1) as nat;
    let u = EventView::Update { channel: edited(g.channels[i], form) };
    let earlier = edit_events(g, form, false, n);
    let all = edit_events(g, form, false, count);
    lemma_edited(g, form, false, n, i);
    lemma_edited(g, form, false, count, i);
    let before = edited_up_to(g, form, false, n);
    lemma_channel_from(before.channels, count as u32, 0);
    if g.channels[i].id == count {
        assert(before.channels[i].id == count);
        let j = channel_index(before.channels, count as u32)->0;
        assert(before.channels[j].id == g.channels[j].id);
        assert(j == i);
        assert(all[all.len() - 1] == u);
    } else {
        lemma_edit_events(g, form, n, i);
        let k = choose|k: int| 0 <= k < earlier.len() && earlier[k] == u;
        assert(all[k] == u);
    }
}

} // verus!
