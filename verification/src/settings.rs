//! Where each setting comes from: the stored rows, the defaults, and what a channel starts
//! with.

use crate::config::{
    defaults, group_letter, loaded, opt_text, row_settings, stored_port, stored_switch, switch_text,
    ChannelRow, ChannelSettings, ConfigView, StoredConfig,
};
use crate::events::LogLevel;
use crate::state::{fresh_gateway, started, ChannelStatus};
use crate::text::{decimal, law_decimal_round_trip, numeral, zero_padded};
use vstd::prelude::*;
use vstd::string::*;

verus! {

/// Each setting of a stored channel is what its own column holds.
pub proof fn law_row_is_read_by_column(row: ChannelRow, p: u16, n: u8)
    ensures
        ({
            let c = row_settings(row);
            &&& c.id == row.id
            &&& c.label == row.label@
            &&& c.protocol == row.protocol@
            &&& c.target_ip == row.target_ip@
            &&& row.target_port == p ==> c.target_port == p
            &&& row.sip_user matches Some(u) ==> c.sip_user == Some(u@)
            &&& row.sip_user is None ==> c.sip_user is None
            &&& c.codec == row.codec@
            &&& row.local_port == Some(p as u32) ==> c.local_port == Some(p)
            &&& row.local_port is None ==> c.local_port is None
            &&& c.volume == row.volume
            &&& c.srtp_enabled <==> row.srtp_enabled != 0
            &&& c.sip_auth_required <==> row.sip_auth_required != 0
            &&& row.amp_ip matches Some(t) ==> c.amp_ip == t@
            &&& row.amp_port == Some(p as u32) ==> c.amp_port == p
            &&& row.amp_enabled matches Some(v) ==> (c.amp_enabled <==> v != 0)
            &&& row.bridge_ip matches Some(t) ==> c.bridge_ip == t@
            &&& row.bridge_port == Some(p as u32) ==> c.bridge_port == p
            &&& row.bridge_enabled matches Some(v) ==> (c.bridge_enabled <==> v != 0)
            &&& row.bridge_local_port == Some(p as u32) ==> c.bridge_local_port == Some(p)
            &&& row.bridge_local_port is None ==> c.bridge_local_port is None
            &&& row.ed137_enabled matches Some(v) ==> (c.ed137_enabled <==> v != 0)
            &&& row.ed137_ptt_id == Some(n as u32) ==> c.ed137_ptt_id == n
        }),
{
}

/// What a row of an older store lacks is filled in: the machine itself, no port, a
/// recorder that is on and a bridge and a radio that are off.
pub proof fn law_missing_columns_are_filled_in(row: ChannelRow)
    ensures
        ({
            let c = row_settings(row);
            &&& row.amp_ip is None ==> c.amp_ip == "127.0.0.1"@
            &&& row.bridge_ip is None ==> c.bridge_ip == "127.0.0.1"@
            &&& row.amp_port is None ==> c.amp_port == 0
            &&& row.bridge_port is None ==> c.bridge_port == 0
            &&& row.amp_enabled is None ==> c.amp_enabled
            &&& row.bridge_enabled is None ==> !c.bridge_enabled
            &&& row.ed137_enabled is None ==> !c.ed137_enabled
            &&& row.ed137_ptt_id is None ==> c.ed137_ptt_id == 0
        }),
{
}

/// A stored configuration is read value by value: the channels from the rows in their
/// order, each other value from the text of its name. What is missing or no number counts
/// as usual, a switch is off only by its two words for that, and a store without rows is
/// as good as none.
pub proof fn law_store_is_read_by_name(s: StoredConfig, p: u16)
    ensures
        s.rows@.len() == 0 ==> loaded(s) == defaults(),
        s.rows@.len() > 0 ==> {
            let c = loaded(s);
            &&& c.channels.len() == s.rows@.len()
            &&& forall|k: int|
                0 <= k < s.rows@.len() ==> #[trigger] c.channels[k] == row_settings(s.rows@[k])
            &&& opt_text(s.sip_port) == Some(decimal(p as nat)) ==> c.sip_port == p
            &&& s.sip_port is None ==> c.sip_port == 5060
            &&& s.selected_device matches Some(d) ==> (d@.len() > 0 ==> c.selected_device == Some(
                d@,
            )) && (d@.len() == 0 ==> c.selected_device is None)
            &&& s.selected_device is None ==> c.selected_device is None
            &&& s.amp_enabled is None ==> c.amp_enabled
            &&& s.bridge_enabled is None ==> c.bridge_enabled
            &&& s.amp_enabled matches Some(v) ==> (c.amp_enabled <==> v@ != "false"@ && v@
                != "0"@)
            &&& s.bridge_enabled matches Some(v) ==> (c.bridge_enabled <==> v@ != "false"@ && v@
                != "0"@)
        },
{
    law_decimal_round_trip(p as nat, 65535);
}

/// What is written for a switch or a port is read as it was.
pub proof fn law_stored_values_read_back(on: bool, p: u16)
    ensures
        stored_switch(Some(switch_text(on))) == on,
        stored_port(Some(decimal(p as nat))) == p,
        switch_text(true) == "true"@,
        switch_text(false) == "false"@,
{
    reveal_strlit("true");
    reveal_strlit("false");
    reveal_strlit("0");
    law_decimal_round_trip(p as nat, 65535);
    assert("true"@.len() != "false"@.len());
    assert("true"@.len() != "0"@.len());
}

/// A gateway without a store has twelve channels and four groups. Each channel calls an
/// address of its own by RTP at port 5004, encrypted, and asks callers to authenticate; it
/// is recorded at a port of its own and not bridged.
#[verifier::rlimit(40)]
#[verifier::spinoff_prover]
pub proof fn law_defaults(k: int)
    requires
        0 <= k < 12,
    ensures
        ({
            let d = defaults();
            let c = d.channels[k];
            let id = (k + 1) as nat;
            &&& d.channels.len() == 12 && d.dispatch_groups.len() == 4
            &&& d.sip_port == 5060 && d.selected_device is None
            &&& d.amp_enabled && d.bridge_enabled
            &&& c.id == k + 1
            &&& c.label.len() == 5
            &&& k < 9 ==> c.label == "CH 0"@ + decimal(id)
            &&& k >= 9 ==> c.label == "CH "@ + decimal(id)
            &&& c.protocol == "RTP"@
            &&& c.target_ip == "192.168.1.10"@ + decimal(id)
            &&& c.target_port == 5004
            &&& c.sip_user == Some("receiver"@ + decimal(id))
            &&& c.codec == (if id % 3 == 0 {
                "Opus"@
            } else if id % 3 == 1 {
                "G.711µ"@
            } else {
                "G.722"@
            })
            &&& c.local_port is None && c.bridge_local_port is None
            &&& c.volume == 100
            &&& c.srtp_enabled && c.sip_auth_required && c.amp_enabled
            &&& !c.bridge_enabled && !c.ed137_enabled && c.ed137_ptt_id == 0
            &&& c.amp_ip == "127.0.0.1"@ && c.amp_port == 5004 + 2 * k
            &&& c.bridge_ip == "127.0.0.1"@ && c.bridge_port == 6004 + 2 * k
        }),
{
    let id = (k + 1) as nat;
    reveal_strlit("CH 0");
    reveal_strlit("CH ");
    reveal_with_fuel(numeral, 3);
    reveal_with_fuel(zero_padded, 3);
    let d = decimal(id);
    if k < 9 {
        assert(d.len() == 1);
        assert(zero_padded(d, 2) =~= seq!['0'] + d);
        assert("CH "@ + zero_padded(d, 2) =~= "CH 0"@ + d);
    } else {
        assert(d.len() == 2);
    }
}

/// The groups of a gateway without a store: named by letters, with nobody on their
/// rosters and no outside party.
pub proof fn law_default_groups(k: int)
    requires
        0 <= k < 4,
    ensures
        ({
            let g = defaults().dispatch_groups[k];
            &&& g.id == k + 1
            &&& g.name == "Patch "@ + seq![
                if k == 0 {
                    'A'
                } else if k == 1 {
                    'B'
                } else if k == 2 {
                    'C'
                } else {
                    'D'
                },
            ]
            &&& g.member_ids.len() == 0
            &&& !g.mirror_enabled
            &&& g.mirror_ip == "127.0.0.1"@
            &&& g.mirror_port == 9004 + 2 * k
            &&& g.mirror_local_port is None
        }),
{
    let g = defaults().dispatch_groups[k];
    assert(g.name =~= "Patch "@ + seq![group_letter((k + 1) as u32)]);
}

/// A channel starts idle and silent, with the settings that were stored for it; a
/// recorder or a bridge without an address is at the machine itself, and a bridge without
/// a port at one by the channel's number.
pub proof fn law_channel_starts_with_its_settings(c: ChannelSettings)
    ensures
        ({
            let d = started(c);
            &&& d.status is Idle && d.incoming_call is None
            &&& d.duration == 0 && d.audio_level == 0 && d.latency == 0 && d.jitter == 0
            &&& d.rx_kbps == 0 && d.tx_kbps == 0 && !d.ptt_active
            &&& !d.amp_streaming && !d.bridge_connected && !d.bridge_link_alive
            &&& !d.dispatch_connected && !d.ed137_remote_squelch && !d.ed137_remote_ptt
            &&& d.id == c.id && d.label == c.label && d.protocol == c.protocol
            &&& d.target_ip == c.target_ip && d.target_port == c.target_port
            &&& d.sip_user == c.sip_user && d.codec == c.codec
            &&& d.local_port == c.local_port && d.volume == c.volume
            &&& d.srtp_enabled == c.srtp_enabled
            &&& d.sip_auth_required == c.sip_auth_required
            &&& d.amp_port == c.amp_port && d.amp_enabled == c.amp_enabled
            &&& d.bridge_enabled == c.bridge_enabled
            &&& d.bridge_local_port == c.bridge_local_port
            &&& d.ed137_enabled == c.ed137_enabled && d.ed137_ptt_id == c.ed137_ptt_id
            &&& c.amp_ip.len() > 0 ==> d.amp_ip == c.amp_ip
            &&& c.amp_ip.len() == 0 ==> d.amp_ip == "127.0.0.1"@
            &&& c.bridge_ip.len() > 0 ==> d.bridge_ip == c.bridge_ip
            &&& c.bridge_ip.len() == 0 ==> d.bridge_ip == "127.0.0.1"@
            &&& c.bridge_port != 0 ==> d.bridge_port == c.bridge_port
            &&& c.bridge_port == 0 && 1 <= c.id <= 12 ==> d.bridge_port == 6002 + 2 * c.id
        }),
{
}

/// A gateway starts with the stored channels in their order, each at rest, with the stored
/// groups and switches, and with no call.
pub proof fn law_gateway_starts_at_rest(config: ConfigView, k: int)
    requires
        0 <= k < config.channels.len(),
    ensures
        ({
            let g = fresh_gateway(config);
            &&& g.channels.len() == config.channels.len()
            &&& g.channels[k] == started(config.channels[k])
            &&& g.calls.len() == 0
            &&& g.flags.dom() == Set::<u64>::empty()
            &&& g.sip_port == config.sip_port
            &&& g.selected_device == config.selected_device
            &&& g.amp_enabled == config.amp_enabled
            &&& g.bridge_enabled == config.bridge_enabled
            &&& g.groups == config.dispatch_groups
        }),
{
}

/// What a status and a level of the log are called.
pub proof fn law_names()
    ensures
        ChannelStatus::Idle.name() == "IDLE"@,
        ChannelStatus::Ringing.name() == "RINGING"@,
        ChannelStatus::Connected.name() == "CONNECTED"@,
        ChannelStatus::Failed.name() == "FAILED"@,
        ChannelStatus::Incoming.name() == "INCOMING"@,
        LogLevel::Info.name() == "info"@,
        LogLevel::Warn.name() == "warn"@,
        LogLevel::Error.name() == "error"@,
        LogLevel::Success.name() == "success"@,
        LogLevel::SipTx.name() == "sip_tx"@,
        LogLevel::SipRx.name() == "sip_rx"@,
{
}

} // verus!
