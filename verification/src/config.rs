//! The gateway's settings: their types, their defaults, and how they are stored.

use crate::text::{
    decimal, decimal_string, number, padded_number, parse_u16, chars_of, str_same, zero_padded,
};
use vstd::prelude::*;
use vstd::string::*;

verus! {

// ---------------------------------------------------------------------------
// Types
// ---------------------------------------------------------------------------

/// The settings of a channel.
pub struct ChannelConfig {
    pub id: u32,
    pub label: String,
    /// `SIP` or `RTP`.
    pub protocol: String,
    pub target_ip: String,
    pub target_port: u16,
    pub sip_user: Option<String>,
    pub codec: String,
    pub local_port: Option<u16>,
    pub volume: u32,
    pub srtp_enabled: bool,
    pub sip_auth_required: bool,
    /// Where the channel's recorder listens.
    pub amp_ip: String,
    pub amp_port: u16,
    pub amp_enabled: bool,
    /// Where the channel's bridge peer listens.
    pub bridge_ip: String,
    pub bridge_port: u16,
    pub bridge_enabled: bool,
    /// The local port that the bridge peer sends to.
    pub bridge_local_port: Option<u16>,
    pub ed137_enabled: bool,
    pub ed137_ptt_id: u8,
}

/// A group of channels that hear each other.
pub struct DispatchGroup {
    pub id: u32,
    pub name: String,
    pub member_ids: Vec<u32>,
    pub mirror_enabled: bool,
    /// Where the group's outside party listens.
    pub mirror_ip: String,
    pub mirror_port: u16,
    /// The local port that the outside party sends to.
    pub mirror_local_port: Option<u16>,
}

/// The settings of the gateway.
pub struct GatewayConfig {
    pub sip_port: u16,
    pub selected_device: Option<String>,
    pub channels: Vec<ChannelConfig>,
    pub amp_enabled: bool,
    pub bridge_enabled: bool,
    pub dispatch_groups: Vec<DispatchGroup>,
}

/// How many groups there are.
pub const DISPATCH_GROUP_COUNT: u32 = 4;

/// How many channels there are.
pub const CHANNEL_COUNT: u32 = 12;

/// The text of an optional string.
pub open spec fn opt_text(s: Option<String>) -> Option<Seq<char>> {
    match s {
        Some(t) => Some(t@),
        None => None,
    }
}

/// An optional text like the given one.
pub fn copy_opt(s: &Option<String>) -> (r: Option<String>)
    ensures
        opt_text(r) == opt_text(*s),
        r is Some == s is Some,
{
    match s {
        Some(t) => Some(t.clone()),
        None => None,
    }
}

/// A channel's settings as a value.
#[verifier::ext_equal]
pub ghost struct ChannelSettings {
    pub id: u32,
    pub label: Seq<char>,
    pub protocol: Seq<char>,
    pub target_ip: Seq<char>,
    pub target_port: u16,
    pub sip_user: Option<Seq<char>>,
    pub codec: Seq<char>,
    pub local_port: Option<u16>,
    pub volume: u32,
    pub srtp_enabled: bool,
    pub sip_auth_required: bool,
    pub amp_ip: Seq<char>,
    pub amp_port: u16,
    pub amp_enabled: bool,
    pub bridge_ip: Seq<char>,
    pub bridge_port: u16,
    pub bridge_enabled: bool,
    pub bridge_local_port: Option<u16>,
    pub ed137_enabled: bool,
    pub ed137_ptt_id: u8,
}

impl View for ChannelConfig {
    type V = ChannelSettings;

    open spec fn view(&self) -> ChannelSettings {
        ChannelSettings {
            id: self.id,
            label: self.label@,
            protocol: self.protocol@,
            target_ip: self.target_ip@,
            target_port: self.target_port,
            sip_user: opt_text(self.sip_user),
            codec: self.codec@,
            local_port: self.local_port,
            volume: self.volume,
            srtp_enabled: self.srtp_enabled,
            sip_auth_required: self.sip_auth_required,
            amp_ip: self.amp_ip@,
            amp_port: self.amp_port,
            amp_enabled: self.amp_enabled,
            bridge_ip: self.bridge_ip@,
            bridge_port: self.bridge_port,
            bridge_enabled: self.bridge_enabled,
            bridge_local_port: self.bridge_local_port,
            ed137_enabled: self.ed137_enabled,
            ed137_ptt_id: self.ed137_ptt_id,
        }
    }
}

/// A group as a value.
#[verifier::ext_equal]
pub ghost struct GroupView {
    pub id: u32,
    pub name: Seq<char>,
    pub member_ids: Seq<u32>,
    pub mirror_enabled: bool,
    pub mirror_ip: Seq<char>,
    pub mirror_port: u16,
    pub mirror_local_port: Option<u16>,
}

impl View for DispatchGroup {
    type V = GroupView;

    open spec fn view(&self) -> GroupView {
        GroupView {
            id: self.id,
            name: self.name@,
            member_ids: self.member_ids@,
            mirror_enabled: self.mirror_enabled,
            mirror_ip: self.mirror_ip@,
            mirror_port: self.mirror_port,
            mirror_local_port: self.mirror_local_port,
        }
    }
}

/// The views of a list of groups.
pub open spec fn group_views(s: Seq<DispatchGroup>) -> Seq<GroupView> {
    s.map_values(|g: DispatchGroup| g@)
}

/// The views of a list of channel settings.
pub open spec fn settings_views(s: Seq<ChannelConfig>) -> Seq<ChannelSettings> {
    s.map_values(|c: ChannelConfig| c@)
}

/// All settings as a value.
#[verifier::ext_equal]
pub ghost struct ConfigView {
    pub sip_port: u16,
    pub selected_device: Option<Seq<char>>,
    pub channels: Seq<ChannelSettings>,
    pub amp_enabled: bool,
    pub bridge_enabled: bool,
    pub dispatch_groups: Seq<GroupView>,
}

impl View for GatewayConfig {
    type V = ConfigView;

    open spec fn view(&self) -> ConfigView {
        ConfigView {
            sip_port: self.sip_port,
            selected_device: opt_text(self.selected_device),
            channels: settings_views(self.channels@),
            amp_enabled: self.amp_enabled,
            bridge_enabled: self.bridge_enabled,
            dispatch_groups: group_views(self.dispatch_groups@),
        }
    }
}

/// A list of numbers like the given one.
pub fn copy_ids(ids: &Vec<u32>) -> (r: Vec<u32>)
    ensures
        r@ == ids@,
{
    let mut r: Vec<u32> = Vec::new();
    let mut i: usize = 0;
    while i < ids.len()
        invariant
            i <= ids@.len(),
            r@ == ids@.take(i as int),
        decreases ids@.len() - i,
    {
        r.push(ids[i]);
        assert(ids@.take(i as int + 1) =~= ids@.take(i as int).push(ids@[i as int]));
        i += 1;
    }
    assert(ids@.take(ids@.len() as int) =~= ids@);
    r
}

impl DispatchGroup {
    /// A group like this one.
    pub fn copy(&self) -> (r: DispatchGroup)
        ensures
            r@ == self@,
    {
        DispatchGroup {
            id: self.id,
            name: self.name.clone(),
            member_ids: copy_ids(&self.member_ids),
            mirror_enabled: self.mirror_enabled,
            mirror_ip: self.mirror_ip.clone(),
            mirror_port: self.mirror_port,
            mirror_local_port: self.mirror_local_port,
        }
    }
}

/// A list of groups like the given one.
pub fn copy_groups(groups: &Vec<DispatchGroup>) -> (r: Vec<DispatchGroup>)
    ensures
        group_views(r@) == group_views(groups@),
{
    let mut r: Vec<DispatchGroup> = Vec::new();
    let mut i: usize = 0;
    while i < groups.len()
        invariant
            i <= groups@.len(),
            r@.len() == i,
            forall|k: int| 0 <= k < i ==> (#[trigger] r@[k])@ == groups@[k]@,
        decreases groups@.len() - i,
    {
        r.push(groups[i].copy());
        i += 1;
    }
    assert(group_views(r@) =~= group_views(groups@));
    r
}

// ---------------------------------------------------------------------------
// Defaults
// ---------------------------------------------------------------------------

/// The address of a leg that has none: the machine itself.
pub fn default_amp_ip() -> (r: String)
    ensures
        r@ == "127.0.0.1"@,
{
    "127.0.0.1".to_owned()
}

/// The state of a switch that was never stored.
pub fn default_true() -> (r: bool)
    ensures
        r,
{
    true
}

/// Whether the port at `base`, two further for each number after the first, is a
/// port. A number counts by its low sixteen bits.
pub open spec fn has_port(base: u16, id: u32) -> bool {
    id % 0x1_0000 >= 1 && base + (id % 0x1_0000 - 1) * 2 <= 65535
}

/// The port at `base`, two further for each number after the first.
pub open spec fn port_at(base: u16, id: u32) -> u16 {
    (base + (id % 0x1_0000 - 1) * 2) as u16
}

/// The port at `base`, two further for each number after the first.
pub fn numbered_port(base: u16, id: u32) -> (r: u16)
    requires
        has_port(base, id),
    ensures
        r == port_at(base, id),
{
    let n: u32 = id % 0x1_0000 - 1;
    (base as u32 + n * 2) as u16
}

/// The first port of the recorders.
pub const AMP_PORT_BASE: u16 = 5004;

/// The first port of the bridge peers.
pub const BRIDGE_PORT_BASE: u16 = 6004;

/// The first local port of the bridges.
pub const BRIDGE_LOCAL_PORT_BASE: u16 = 8004;

/// The first port of the groups' outside parties.
pub const MIRROR_PORT_BASE: u16 = 9004;

/// The first local port of the groups' outside parties.
pub const MIRROR_LOCAL_PORT_BASE: u16 = 11004;

/// The letter of a group.
pub open spec fn group_letter(id: u32) -> char {
    (id + 64) as u8 as char
}

/// A group as it is at first.
pub open spec fn default_group(id: u32) -> GroupView {
    GroupView {
        id,
        name: "Patch "@.push(group_letter(id)),
        member_ids: Seq::empty(),
        mirror_enabled: false,
        mirror_ip: "127.0.0.1"@,
        mirror_port: port_at(MIRROR_PORT_BASE, id),
        mirror_local_port: None,
    }
}

/// The groups as they are at first.
pub open spec fn default_groups() -> Seq<GroupView> {
    Seq::new(4, |i: int| default_group((i + 1) as u32))
}

/// The groups as they are at first.
pub fn default_dispatch_groups() -> (r: Vec<DispatchGroup>)
    ensures
        group_views(r@) == default_groups(),
{
    let mut r: Vec<DispatchGroup> = Vec::new();
    let mut id: u32 = 1;
    while id <= DISPATCH_GROUP_COUNT
        invariant
            1 <= id <= 5,
            r@.len() == id - 1,
            forall|k: int| 0 <= k < r@.len() ==> (#[trigger] r@[k])@ == default_group(
                (k + 1) as u32,
            ),
        decreases 5 - id,
    {
        let mut name = "Patch ".to_owned();
        name.push((id as u8 + 64) as char);
        let member_ids: Vec<u32> = Vec::new();
        let ghost before = r@;
        r.push(
            DispatchGroup {
                id,
                name,
                member_ids,
                mirror_enabled: false,
                mirror_ip: default_amp_ip(),
                mirror_port: numbered_port(MIRROR_PORT_BASE, id),
                mirror_local_port: None,
            },
        );
        proof {
            let g = r@[id - 1]@;
            assert(g.member_ids =~= Seq::<u32>::empty());
            assert(g =~= default_group(id));
            assert forall|k: int| 0 <= k < r@.len() implies (#[trigger] r@[k])@ == default_group(
                (k + 1) as u32,
            ) by {
                if k < before.len() {
                    assert(r@[k] == before[k]);
                }
            }
        }
        id += 1;
    }
    assert(group_views(r@) =~= default_groups());
    r
}

/// The codec of a channel at first.
pub open spec fn default_codec(id: u32) -> Seq<char> {
    if id % 3 == 0 {
        "Opus"@
    } else if id % 3 == 1 {
        "G.711µ"@
    } else {
        "G.722"@
    }
}

/// A channel's settings as they are at first.
pub open spec fn default_channel(id: u32) -> ChannelSettings {
    ChannelSettings {
        id,
        label: "CH "@ + zero_padded(decimal(id as nat), 2),
        protocol: "RTP"@,
        target_ip: "192.168.1.10"@ + decimal(id as nat),
        target_port: 5004,
        sip_user: Some("receiver"@ + decimal(id as nat)),
        codec: default_codec(id),
        local_port: None,
        volume: 100,
        srtp_enabled: true,
        sip_auth_required: true,
        amp_ip: "127.0.0.1"@,
        amp_port: port_at(AMP_PORT_BASE, id),
        amp_enabled: true,
        bridge_ip: "127.0.0.1"@,
        bridge_port: port_at(BRIDGE_PORT_BASE, id),
        bridge_enabled: false,
        bridge_local_port: None,
        ed137_enabled: false,
        ed137_ptt_id: 0,
    }
}

/// The settings as they are at first.
pub open spec fn defaults() -> ConfigView {
    ConfigView {
        sip_port: 5060,
        selected_device: None,
        channels: Seq::new(12, |i: int| default_channel((i + 1) as u32)),
        amp_enabled: true,
        bridge_enabled: true,
        dispatch_groups: default_groups(),
    }
}

fn build_default_channel(id: u32) -> (r: ChannelConfig)
    requires
        1 <= id <= 12,
    ensures
        r@ == default_channel(id),
{
    let number = decimal_string(id as u64);
    let padded = padded_number(id as u64, 10, 2);
    let mut label = "CH ".to_owned();
    label.append(padded.as_str());
    let mut target_ip = "192.168.1.10".to_owned();
    target_ip.append(number.as_str());
    let mut user = "receiver".to_owned();
    user.append(number.as_str());
    let codec = if id % 3 == 0 {
        "Opus"
    } else if id % 3 == 1 {
        "G.711µ"
    } else {
        "G.722"
    };
    ChannelConfig {
        id,
        label,
        protocol: "RTP".to_owned(),
        target_ip,
        target_port: 5004,
        sip_user: Some(user),
        codec: codec.to_owned(),
        local_port: None,
        volume: 100,
        srtp_enabled: true,
        sip_auth_required: true,
        amp_ip: default_amp_ip(),
        amp_port: numbered_port(AMP_PORT_BASE, id),
        amp_enabled: true,
        bridge_ip: default_amp_ip(),
        bridge_port: numbered_port(BRIDGE_PORT_BASE, id),
        bridge_enabled: false,
        bridge_local_port: None,
        ed137_enabled: false,
        ed137_ptt_id: 0,
    }
}

/// The settings as they are at first.
pub fn default_config() -> (r: GatewayConfig)
    ensures
        r@ == defaults(),
{
    let mut channels: Vec<ChannelConfig> = Vec::new();
    let mut id: u32 = 1;
    while id <= CHANNEL_COUNT
        invariant
            1 <= id <= 13,
            channels@.len() == id - 1,
            forall|k: int|
                0 <= k < channels@.len() ==> (#[trigger] channels@[k])@ == default_channel(
                    (k + 1) as u32,
                ),
        decreases 13 - id,
    {
        let ghost before = channels@;
        channels.push(build_default_channel(id));
        proof {
            assert forall|k: int| 0 <= k < channels@.len() implies (#[trigger] channels@[k])@
                == default_channel((k + 1) as u32) by {
                if k < before.len() {
                    assert(channels@[k] == before[k]);
                }
            }
        }
        id += 1;
    }
    let r = GatewayConfig {
        sip_port: 5060,
        selected_device: None,
        channels,
        amp_enabled: true,
        bridge_enabled: true,
        dispatch_groups: default_dispatch_groups(),
    };
    assert(r@.channels =~= defaults().channels);
    r
}

// ---------------------------------------------------------------------------
// Storage
// ---------------------------------------------------------------------------

/// The port of a stored text: 5060 where it is missing or no port.
pub open spec fn stored_port(value: Option<Seq<char>>) -> nat {
    match value {
        Some(v) => match number(v, 65535) {
            Some(p) => p,
            None => 5060,
        },
        None => 5060,
    }
}

/// Reads the stored listening port.
pub fn read_sip_port(value: &Option<String>) -> (r: u16)
    ensures
        r == stored_port(opt_text(*value)),
{
    match value {
        Some(v) => {
            let cs = chars_of(v.as_str());
            match parse_u16(cs.as_slice()) {
                Some(p) => p,
                None => 5060,
            }
        },
        None => 5060,
    }
}

/// The stored device: none where the text is missing or empty.
pub open spec fn stored_device(value: Option<Seq<char>>) -> Option<Seq<char>> {
    match value {
        Some(v) => if v.len() == 0 {
            None
        } else {
            Some(v)
        },
        None => None,
    }
}

/// Reads the stored device.
pub fn read_device(value: &Option<String>) -> (r: Option<String>)
    ensures
        opt_text(r) == stored_device(opt_text(*value)),
{
    match value {
        Some(v) => {
            if v.as_str().is_empty() {
                None
            } else {
                Some(v.clone())
            }
        },
        None => None,
    }
}

/// A stored switch: on unless the text is `false` or `0`.
pub open spec fn stored_switch(value: Option<Seq<char>>) -> bool {
    match value {
        Some(v) => v != "false"@ && v != "0"@,
        None => true,
    }
}

/// Reads a stored switch.
pub fn read_switch(value: &Option<String>) -> (r: bool)
    ensures
        r == stored_switch(opt_text(*value)),
{
    match value {
        Some(v) => !str_same(v.as_str(), "false") && !str_same(v.as_str(), "0"),
        None => true,
    }
}

/// The text of a switch.
pub open spec fn switch_text(on: bool) -> Seq<char> {
    if on {
        "true"@
    } else {
        "false"@
    }
}

/// The text in which a switch is stored.
pub fn write_switch(on: bool) -> (r: String)
    ensures
        r@ == switch_text(on),
{
    if on {
        "true".to_owned()
    } else {
        "false".to_owned()
    }
}

/// The text in which the listening port is stored.
pub fn write_sip_port(port: u16) -> (r: String)
    ensures
        r@ == decimal(port as nat),
{
    decimal_string(port as u64)
}

/// The text in which the device is stored: empty for none.
pub fn write_device(device: &Option<String>) -> (r: String)
    ensures
        match *device {
            Some(d) => r@ == d@,
            None => r@ == Seq::<char>::empty(),
        },
{
    match device {
        Some(d) => d.clone(),
        None => String::new(),
    }
}

/// A channel as a row of the store: numbers are wide there, and switches are
/// numbers. What a row of an older store lacks is missing.
pub struct ChannelRow {
    pub id: u32,
    pub label: String,
    pub protocol: String,
    pub target_ip: String,
    pub target_port: u32,
    pub sip_user: Option<String>,
    pub codec: String,
    pub local_port: Option<u32>,
    pub volume: u32,
    pub srtp_enabled: i32,
    pub sip_auth_required: i32,
    pub amp_ip: Option<String>,
    pub amp_port: Option<u32>,
    pub amp_enabled: Option<i32>,
    pub bridge_ip: Option<String>,
    pub bridge_port: Option<u32>,
    pub bridge_enabled: Option<i32>,
    pub bridge_local_port: Option<u32>,
    pub ed137_enabled: Option<i32>,
    pub ed137_ptt_id: Option<u32>,
}

/// The low sixteen bits of a stored number.
pub open spec fn low16(n: u32) -> u16 {
    (n % 0x1_0000) as u16
}

/// The low sixteen bits of an optional number.
pub open spec fn low16_opt(n: Option<u32>) -> Option<u16> {
    match n {
        Some(v) => Some(low16(v)),
        None => None,
    }
}

fn to_low16_opt(n: Option<u32>) -> (r: Option<u16>)
    ensures
        r == low16_opt(n),
{
    match n {
        Some(v) => Some((v % 0x1_0000) as u16),
        None => None,
    }
}

/// A stored switch of a row, or `default` where it is missing.
pub open spec fn row_switch(n: Option<i32>, default: bool) -> bool {
    match n {
        Some(v) => v != 0,
        None => default,
    }
}

fn read_row_switch(n: Option<i32>, default: bool) -> (r: bool)
    ensures
        r == row_switch(n, default),
{
    match n {
        Some(v) => v != 0,
        None => default,
    }
}

/// A stored address of a row, or the machine itself where it is missing.
pub open spec fn row_ip(s: Option<String>) -> Seq<char> {
    match s {
        Some(t) => t@,
        None => "127.0.0.1"@,
    }
}

fn read_row_ip(s: &Option<String>) -> (r: String)
    ensures
        r@ == row_ip(*s),
{
    match s {
        Some(t) => t.clone(),
        None => default_amp_ip(),
    }
}

/// The settings that a row holds.
pub open spec fn row_settings(row: ChannelRow) -> ChannelSettings {
    ChannelSettings {
        id: row.id,
        label: row.label@,
        protocol: row.protocol@,
        target_ip: row.target_ip@,
        target_port: low16(row.target_port),
        sip_user: opt_text(row.sip_user),
        codec: row.codec@,
        local_port: low16_opt(row.local_port),
        volume: row.volume,
        srtp_enabled: row.srtp_enabled != 0,
        sip_auth_required: row.sip_auth_required != 0,
        amp_ip: row_ip(row.amp_ip),
        amp_port: match row.amp_port {
            Some(p) => low16(p),
            None => 0,
        },
        amp_enabled: row_switch(row.amp_enabled, true),
        bridge_ip: row_ip(row.bridge_ip),
        bridge_port: match row.bridge_port {
            Some(p) => low16(p),
            None => 0,
        },
        bridge_enabled: row_switch(row.bridge_enabled, false),
        bridge_local_port: low16_opt(row.bridge_local_port),
        ed137_enabled: row_switch(row.ed137_enabled, false),
        ed137_ptt_id: match row.ed137_ptt_id {
            Some(p) => (p % 256) as u8,
            None => 0,
        },
    }
}

/// Reads a channel's settings from a row.
pub fn channel_from_row(row: &ChannelRow) -> (r: ChannelConfig)
    ensures
        r@ == row_settings(*row),
{
    let amp_port: u16 = match row.amp_port {
        Some(p) => (p % 0x1_0000) as u16,
        None => 0,
    };
    let bridge_port: u16 = match row.bridge_port {
        Some(p) => (p % 0x1_0000) as u16,
        None => 0,
    };
    let ed137_ptt_id: u8 = match row.ed137_ptt_id {
        Some(p) => (p % 256) as u8,
        None => 0,
    };
    ChannelConfig {
        id: row.id,
        label: row.label.clone(),
        protocol: row.protocol.clone(),
        target_ip: row.target_ip.clone(),
        target_port: (row.target_port % 0x1_0000) as u16,
        sip_user: copy_opt(&row.sip_user),
        codec: row.codec.clone(),
        local_port: to_low16_opt(row.local_port),
        volume: row.volume,
        srtp_enabled: row.srtp_enabled != 0,
        sip_auth_required: row.sip_auth_required != 0,
        amp_ip: read_row_ip(&row.amp_ip),
        amp_port,
        amp_enabled: read_row_switch(row.amp_enabled, true),
        bridge_ip: read_row_ip(&row.bridge_ip),
        bridge_port,
        bridge_enabled: read_row_switch(row.bridge_enabled, false),
        bridge_local_port: to_low16_opt(row.bridge_local_port),
        ed137_enabled: read_row_switch(row.ed137_enabled, false),
        ed137_ptt_id,
    }
}

/// A number as the store holds it.
pub open spec fn wide_of(n: Option<u16>) -> Option<u32> {
    match n {
        Some(v) => Some(v as u32),
        None => None,
    }
}

fn wide_opt(n: Option<u16>) -> (r: Option<u32>)
    ensures
        r == wide_of(n),
{
    match n {
        Some(v) => Some(v as u32),
        None => None,
    }
}

/// A switch as the store holds it.
pub open spec fn switch_value(on: bool) -> i32 {
    if on {
        1
    } else {
        0
    }
}

fn switch_number(on: bool) -> (r: i32)
    ensures
        r == switch_value(on),
{
    if on {
        1
    } else {
        0
    }
}

/// A row in which a channel's settings are stored, nothing of it missing.
pub open spec fn is_row_of(r: ChannelRow, c: ChannelSettings) -> bool {
    &&& r.id == c.id
    &&& r.label@ == c.label
    &&& r.protocol@ == c.protocol
    &&& r.target_ip@ == c.target_ip
    &&& r.target_port == c.target_port
    &&& opt_text(r.sip_user) == c.sip_user
    &&& r.codec@ == c.codec
    &&& r.local_port == wide_of(c.local_port)
    &&& r.volume == c.volume
    &&& r.srtp_enabled == switch_value(c.srtp_enabled)
    &&& r.sip_auth_required == switch_value(c.sip_auth_required)
    &&& opt_text(r.amp_ip) == Some(c.amp_ip)
    &&& r.amp_port == Some(c.amp_port as u32)
    &&& r.amp_enabled == Some(switch_value(c.amp_enabled))
    &&& opt_text(r.bridge_ip) == Some(c.bridge_ip)
    &&& r.bridge_port == Some(c.bridge_port as u32)
    &&& r.bridge_enabled == Some(switch_value(c.bridge_enabled))
    &&& r.bridge_local_port == wide_of(c.bridge_local_port)
    &&& r.ed137_enabled == Some(switch_value(c.ed137_enabled))
    &&& r.ed137_ptt_id == Some(c.ed137_ptt_id as u32)
}

/// A channel's settings read back from the row in which they are stored.
pub proof fn law_row_reads_back(r: ChannelRow, c: ChannelSettings)
    requires
        is_row_of(r, c),
    ensures
        row_settings(r) == c,
{
}

/// Writes a channel's settings as a row.
pub fn channel_to_row(ch: &ChannelConfig) -> (r: ChannelRow)
    ensures
        is_row_of(r, ch@),
{
    ChannelRow {
        id: ch.id,
        label: ch.label.clone(),
        protocol: ch.protocol.clone(),
        target_ip: ch.target_ip.clone(),
        target_port: ch.target_port as u32,
        sip_user: copy_opt(&ch.sip_user),
        codec: ch.codec.clone(),
        local_port: wide_opt(ch.local_port),
        volume: ch.volume,
        srtp_enabled: switch_number(ch.srtp_enabled),
        sip_auth_required: switch_number(ch.sip_auth_required),
        amp_ip: Some(ch.amp_ip.clone()),
        amp_port: Some(ch.amp_port as u32),
        amp_enabled: Some(switch_number(ch.amp_enabled)),
        bridge_ip: Some(ch.bridge_ip.clone()),
        bridge_port: Some(ch.bridge_port as u32),
        bridge_enabled: Some(switch_number(ch.bridge_enabled)),
        bridge_local_port: wide_opt(ch.bridge_local_port),
        ed137_enabled: Some(switch_number(ch.ed137_enabled)),
        ed137_ptt_id: Some(ch.ed137_ptt_id as u32),
    }
}

/// What the store gave.
pub struct StoredConfig {
    pub sip_port: Option<String>,
    pub selected_device: Option<String>,
    pub amp_enabled: Option<String>,
    pub bridge_enabled: Option<String>,
    /// The groups, where they were stored and could be read.
    pub dispatch_groups: Option<Vec<DispatchGroup>>,
    /// The rows of the channels that could be read, in the order of their numbers.
    pub rows: Vec<ChannelRow>,
}

/// The settings that the store's contents come to: the defaults where it holds
/// no channel.
pub open spec fn loaded(s: StoredConfig) -> ConfigView {
    if s.rows@.len() == 0 {
        defaults()
    } else {
        ConfigView {
            sip_port: stored_port(opt_text(s.sip_port)) as u16,
            selected_device: stored_device(opt_text(s.selected_device)),
            channels: s.rows@.map_values(|row: ChannelRow| row_settings(row)),
            amp_enabled: stored_switch(opt_text(s.amp_enabled)),
            bridge_enabled: stored_switch(opt_text(s.bridge_enabled)),
            dispatch_groups: match s.dispatch_groups {
                Some(g) => group_views(g@),
                None => default_groups(),
            },
        }
    }
}

/// The settings that the store's contents come to. The second result tells that
/// they are the defaults, which are then to be stored.
pub fn load_config(stored: StoredConfig) -> (r: (GatewayConfig, bool))
    ensures
        r.0@ == loaded(stored),
        r.1 == (stored.rows@.len() == 0),
{
    if stored.rows.len() == 0 {
        return (default_config(), true);
    }
    let mut channels: Vec<ChannelConfig> = Vec::new();
    let mut i: usize = 0;
    while i < stored.rows.len()
        invariant
            i <= stored.rows@.len(),
            channels@.len() == i,
            forall|k: int|
                0 <= k < i ==> (#[trigger] channels@[k])@ == row_settings(stored.rows@[k]),
        decreases stored.rows@.len() - i,
    {
        channels.push(channel_from_row(&stored.rows[i]));
        i += 1;
    }
    let sip_port: u16 = read_sip_port(&stored.sip_port);
    let selected_device = read_device(&stored.selected_device);
    let amp_enabled = read_switch(&stored.amp_enabled);
    let bridge_enabled = read_switch(&stored.bridge_enabled);
    let ghost wanted = loaded(stored);
    let dispatch_groups = match stored.dispatch_groups {
        Some(g) => g,
        None => default_dispatch_groups(),
    };
    let r = GatewayConfig {
        sip_port,
        selected_device,
        channels,
        amp_enabled,
        bridge_enabled,
        dispatch_groups,
    };
    assert(r@.channels =~= wanted.channels);
    (r, false)
}

/// What is stored of the settings, besides the groups.
pub struct SavedConfig {
    pub sip_port: String,
    pub selected_device: String,
    pub amp_enabled: String,
    pub bridge_enabled: String,
    pub rows: Vec<ChannelRow>,
}

/// The texts and rows in which the settings are stored.
pub fn save_config(config: &GatewayConfig) -> (r: SavedConfig)
    ensures
        r.sip_port@ == decimal(config.sip_port as nat),
        r.selected_device@ == (match opt_text(config.selected_device) {
            Some(d) => d,
            None => Seq::empty(),
        }),
        r.amp_enabled@ == switch_text(config.amp_enabled),
        r.bridge_enabled@ == switch_text(config.bridge_enabled),
        r.rows@.len() == config@.channels.len(),
        forall|k: int|
            0 <= k < r.rows@.len() ==> is_row_of(#[trigger] r.rows@[k], config@.channels[k]),
{
    let mut rows: Vec<ChannelRow> = Vec::new();
    let mut i: usize = 0;
    while i < config.channels.len()
        invariant
            i <= config.channels@.len(),
            rows@.len() == i,
            forall|k: int| 0 <= k < i ==> is_row_of(#[trigger] rows@[k], config.channels@[k]@),
        decreases config.channels@.len() - i,
    {
        rows.push(channel_to_row(&config.channels[i]));
        i += 1;
    }
    SavedConfig {
        sip_port: write_sip_port(config.sip_port),
        selected_device: write_device(&config.selected_device),
        amp_enabled: write_switch(config.amp_enabled),
        bridge_enabled: write_switch(config.bridge_enabled),
        rows,
    }
}

/// Settings that were stored load as they were, provided that there is a channel
/// and that the chosen device has a name; the groups are stored apart.
pub proof fn law_saved_config_loads(
    config: ConfigView,
    groups: Vec<DispatchGroup>,
    stored: StoredConfig,
)
    requires
        config.channels.len() > 0,
        config.selected_device matches Some(d) ==> d.len() > 0,
        group_views(groups@) == config.dispatch_groups,
        opt_text(stored.sip_port) == Some(decimal(config.sip_port as nat)),
        opt_text(stored.selected_device) == Some(
            match config.selected_device {
                Some(d) => d,
                None => Seq::empty(),
            },
        ),
        opt_text(stored.amp_enabled) == Some(switch_text(config.amp_enabled)),
        opt_text(stored.bridge_enabled) == Some(switch_text(config.bridge_enabled)),
        stored.rows@.len() == config.channels.len(),
        forall|k: int|
            0 <= k < stored.rows@.len() ==> is_row_of(
                #[trigger] stored.rows@[k],
                config.channels[k],
            ),
        stored.dispatch_groups == Some(groups),
    ensures
        loaded(stored) == config,
{
    law_settings_survive_storage(config.sip_port, config.amp_enabled, config.selected_device);
    law_settings_survive_storage(config.sip_port, config.bridge_enabled, config.selected_device);
    assert forall|k: int| 0 <= k < stored.rows@.len() implies row_settings(
        #[trigger] stored.rows@[k],
    ) == config.channels[k] by {
        law_row_reads_back(stored.rows@[k], config.channels[k]);
    }
    assert(loaded(stored).channels =~= config.channels);
}

/// The settings survive being stored: the listening port, the device and the
/// switches read back from the texts in which they are stored. A device with an
/// empty name reads back as none.
pub proof fn law_settings_survive_storage(port: u16, on: bool, device: Option<Seq<char>>)
    requires
        device matches Some(d) ==> d.len() > 0,
    ensures
        stored_port(Some(decimal(port as nat))) == port,
        stored_switch(Some(switch_text(on))) == on,
        stored_device(
            Some(
                match device {
                    Some(d) => d,
                    None => Seq::empty(),
                },
            ),
        ) == device,
{
    crate::text::law_decimal_round_trip(port as nat, 65535);
    reveal_strlit("true");
    reveal_strlit("false");
    reveal_strlit("0");
    assert("true"@.len() == 4 && "false"@.len() == 5 && "0"@.len() == 1);
}

/// The default ports of the channels and of the groups do not collide: within
/// each kind they differ, and so do the local ones of bridges and groups.
pub proof fn law_default_ports_differ(a: u32, b: u32, g: u32)
    requires
        1 <= a <= 12,
        1 <= b <= 12,
        1 <= g <= 4,
    ensures
        a != b ==> port_at(AMP_PORT_BASE, a) != port_at(AMP_PORT_BASE, b),
        a != b ==> port_at(BRIDGE_PORT_BASE, a) != port_at(BRIDGE_PORT_BASE, b),
        a != b ==> port_at(BRIDGE_LOCAL_PORT_BASE, a) != port_at(BRIDGE_LOCAL_PORT_BASE, b),
        port_at(AMP_PORT_BASE, a) != port_at(BRIDGE_PORT_BASE, b),
        port_at(BRIDGE_LOCAL_PORT_BASE, a) != port_at(MIRROR_LOCAL_PORT_BASE, g),
{
}

} // verus!
