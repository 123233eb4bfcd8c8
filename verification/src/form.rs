//! The settings form: how it is checked, and how it changes the settings.

use crate::config::{
    copy_ids, default_amp_ip, group_views, opt_text, DispatchGroup, GroupView, CHANNEL_COUNT,
    DISPATCH_GROUP_COUNT,
};
use crate::form_errors::FormError;
use crate::state::{channel_index, group_index, Channel, ChannelView, Gateway, GatewayView};
use crate::text::{
    chars_of, cut, cut_to, decimal, decimal_string, number, parse_u16, string_of, trim, trimmed,
    TextMap,
};
use std::collections::HashMap;
use vstd::prelude::*;
use vstd::string::*;

verus! {

// ---------------------------------------------------------------------------
// Fields
// ---------------------------------------------------------------------------

/// The field of a form with a name and a number, if it was sent.
pub open spec fn field(form: Map<Seq<char>, Seq<char>>, name: Seq<char>, id: u32) -> Option<
    Seq<char>,
> {
    let key = name + decimal(id as nat);
    if form.contains_key(key) {
        Some(form[key])
    } else {
        None
    }
}

pub(crate) fn get_field<'a>(form: &'a TextMap, name: &str, id: u32) -> (r: Option<&'a String>)
    ensures
        match r {
            Some(v) => field(form@, name@, id) == Some(v@),
            None => field(form@, name@, id) is None,
        },
{
    let mut key = name.to_owned();
    let n = decimal_string(id as u64);
    key.append(n.as_str());
    form.get(key.as_str())
}

/// Whether a box of a form is ticked: it is sent only then.
pub open spec fn ticked(form: Map<Seq<char>, Seq<char>>, name: Seq<char>, id: u32) -> bool {
    field(form, name, id) is Some
}

pub(crate) fn is_ticked(form: &TextMap, name: &str, id: u32) -> (r: bool)
    ensures
        r == ticked(form@, name@, id),
{
    get_field(form, name, id).is_some()
}

/// A text as a port: nothing where it is none.
pub open spec fn port_of(s: Seq<char>) -> Option<u16> {
    match number(s, 65535) {
        Some(n) => Some(n as u16),
        None => None,
    }
}

pub(crate) fn read_port(s: &String) -> (r: Option<u16>)
    ensures
        r == port_of(s@),
{
    let cs = chars_of(s.as_str());
    parse_u16(cs.as_slice())
}

pub(crate) fn trimmed_string(s: &String) -> (r: String)
    ensures
        r@ == trimmed(s@),
{
    let cs = chars_of(s.as_str());
    string_of(trim(cs.as_slice()))
}

// ---------------------------------------------------------------------------
// Ports
// ---------------------------------------------------------------------------

/// What a form says of a local port.
#[derive(Debug, Clone, Copy, PartialEq, Eq, Structural)]
pub enum PortField {
    /// The port to use, or none.
    Use(Option<u16>),
    /// A port below those that may be used.
    TooLow,
    /// No port at all.
    Invalid,
}

/// What a form says of a local port: the stored one where it says nothing, and
/// none where the field is blank.
pub open spec fn port_field(
    sent: Option<Seq<char>>,
    blank: spec_fn(Seq<char>) -> bool,
    stored: Option<u16>,
) -> PortField {
    match sent {
        None => PortField::Use(stored),
        Some(t) => if blank(t) {
            PortField::Use(None)
        } else {
            match port_of(t) {
                Some(p) => if p < 1024 {
                    PortField::TooLow
                } else {
                    PortField::Use(Some(p))
                },
                None => PortField::Invalid,
            }
        },
    }
}

/// A field with nothing in it.
pub open spec fn is_empty() -> spec_fn(Seq<char>) -> bool {
    |t: Seq<char>| t.len() == 0
}

/// A field with nothing but spaces in it.
pub open spec fn is_blank() -> spec_fn(Seq<char>) -> bool {
    |t: Seq<char>| trimmed(t).len() == 0
}

fn read_port_field(sent: Option<&String>, trims: bool, stored: Option<u16>) -> (r: PortField)
    ensures
        r == port_field(
            match sent {
                Some(s) => Some(s@),
                None => None,
            },
            if trims {
                is_blank()
            } else {
                is_empty()
            },
            stored,
        ),
{
    match sent {
        None => PortField::Use(stored),
        Some(t) => {
            let nothing = if trims {
                let cs = chars_of(t.as_str());
                trim(cs.as_slice()).len() == 0
            } else {
                t.as_str().is_empty()
            };
            if nothing {
                PortField::Use(None)
            } else {
                match read_port(t) {
                    Some(p) => if p < 1024 {
                        PortField::TooLow
                    } else {
                        PortField::Use(Some(p))
                    },
                    None => PortField::Invalid,
                }
            }
        },
    }
}

/// The ports that were asked for so far, and who asked.
pub struct PortTables {
    pub local: HashMap<u16, u32>,
    pub mirror: HashMap<u16, u32>,
    pub bridge: HashMap<u16, u32>,
    pub groups: HashMap<u16, u32>,
}

/// The ports that a form has taken so far, as a value.
#[verifier::ext_equal]
pub ghost struct TablesView {
    pub local: Map<u16, u32>,
    pub mirror: Map<u16, u32>,
    pub bridge: Map<u16, u32>,
    pub groups: Map<u16, u32>,
}

impl View for PortTables {
    type V = TablesView;

    open spec fn view(&self) -> TablesView {
        TablesView {
            local: self.local@,
            mirror: self.mirror@,
            bridge: self.bridge@,
            groups: self.groups@,
        }
    }
}

/// No port was asked for.
pub open spec fn no_ports() -> TablesView {
    TablesView {
        local: Map::empty(),
        mirror: Map::empty(),
        bridge: Map::empty(),
        groups: Map::empty(),
    }
}

impl PortTables {
    /// Tables in which no port is taken.
    pub fn new() -> (r: PortTables)
        ensures
            r@ == no_ports(),
    {
        broadcast use vstd::std_specs::hash::group_hash_axioms;

        PortTables {
            local: HashMap::new(),
            mirror: HashMap::new(),
            bridge: HashMap::new(),
            groups: HashMap::new(),
        }
    }
}

/// Who asked for a port before.
pub open spec fn holder(taken: Map<u16, u32>, port: u16) -> Option<u32> {
    if taken.contains_key(port) {
        Some(taken[port])
    } else {
        None
    }
}

fn claim(taken: &mut HashMap<u16, u32>, port: u16, id: u32) -> (r: Option<u32>)
    ensures
        final(taken)@ == old(taken)@.insert(port, id),
        r == holder(old(taken)@, port),
{
    broadcast use vstd::std_specs::hash::group_hash_axioms;

    taken.insert(port, id)
}

// ---------------------------------------------------------------------------
// Checking a channel
// ---------------------------------------------------------------------------

/// The channel that a form's fields with a number are about.
pub open spec fn channel_of(g: GatewayView, id: u32) -> Option<ChannelView> {
    match channel_index(g.channels, id) {
        Some(i) => Some(g.channels[i]),
        None => None,
    }
}

/// Whether a channel has a call, so that its fields are not sent.
pub open spec fn has_call(c: Option<ChannelView>) -> bool {
    c matches Some(x) && !x.status.is_free()
}

/// What is wrong with the alias and the destination that a form gives a channel.
/// A channel with a call keeps its own.
pub open spec fn target_error(
    c: Option<ChannelView>,
    form: Map<Seq<char>, Seq<char>>,
    id: u32,
) -> Option<FormError> {
    let label = match field(form, "label_"@, id) {
        Some(l) => trimmed(l),
        None => match c {
            Some(x) => x.label,
            None => Seq::empty(),
        },
    };
    let ip = match field(form, "target_ip_"@, id) {
        Some(l) => trimmed(l),
        None => match c {
            Some(x) => x.target_ip,
            None => Seq::empty(),
        },
    };
    if has_call(c) {
        None
    } else if label.len() == 0 {
        Some(FormError::AliasEmpty { id })
    } else if ip.len() == 0 {
        Some(FormError::TargetIpEmpty { id })
    } else {
        match field(form, "target_port_"@, id) {
            Some(t) => match port_of(t) {
                Some(p) => if p < 1 {
                    Some(FormError::TargetPortRange { id })
                } else {
                    None
                },
                None => Some(FormError::TargetPortInvalid { id }),
            },
            None => None,
        }
    }
}

/// The local port that a form asks for a channel. A channel with a call keeps its
/// own.
pub open spec fn local_port_asked(
    c: Option<ChannelView>,
    form: Map<Seq<char>, Seq<char>>,
    id: u32,
) -> PortField {
    let stored = match c {
        Some(x) => x.local_port,
        None => None,
    };
    if has_call(c) {
        PortField::Use(stored)
    } else {
        port_field(field(form, "local_port_"@, id), is_empty(), stored)
    }
}

/// The local port that a form asks for a channel's bridge.
pub open spec fn bridge_port_asked(
    c: Option<ChannelView>,
    form: Map<Seq<char>, Seq<char>>,
    id: u32,
) -> PortField {
    port_field(
        field(form, "bridge_local_port_"@, id),
        is_blank(),
        match c {
            Some(x) => x.bridge_local_port,
            None => None,
        },
    )
}

/// Checks a channel's local port and notes it.
pub open spec fn check_local(
    t: TablesView,
    sip_port: u16,
    id: u32,
    asked: PortField,
) -> Result<TablesView, FormError> {
    match asked {
        PortField::TooLow => Err(FormError::LocalPortRange { id }),
        PortField::Invalid => Err(FormError::LocalPortInvalid { id }),
        PortField::Use(None) => Ok(t),
        PortField::Use(Some(port)) => if port == sip_port {
            Err(FormError::LocalPortIsSip { id, port })
        } else {
            match holder(t.local, port) {
                Some(other) => Err(FormError::LocalPortTaken { port, other, id }),
                None => Ok(TablesView { local: t.local.insert(port, id), ..t }),
            }
        },
    }
}

/// Checks the local port of a channel's bridge and notes it.
pub open spec fn check_bridge_local(
    t: TablesView,
    sip_port: u16,
    id: u32,
    asked: PortField,
) -> Result<TablesView, FormError> {
    match asked {
        PortField::TooLow => Err(FormError::BridgeLocalPortRange { id }),
        PortField::Invalid => Err(FormError::BridgeLocalPortInvalid { id }),
        PortField::Use(None) => Ok(t),
        PortField::Use(Some(port)) => if port == sip_port {
            Err(FormError::BridgeLocalPortIsSip { id, port })
        } else {
            match holder(t.local, port) {
                Some(other) => Err(FormError::LocalPortTaken { port, other, id }),
                None => Ok(TablesView { local: t.local.insert(port, id), ..t }),
            }
        },
    }
}

/// The port of a leg that a form asks for: none where it is no port, and the
/// stored one where it is not sent.
pub open spec fn leg_port(sent: Option<Seq<char>>, stored: u16) -> u16 {
    match sent {
        Some(t) => match port_of(t) {
            Some(p) => p,
            None => 0,
        },
        None => stored,
    }
}

/// Checks the recorder's port of a channel and notes it, where the recorders are
/// on and the channel has one.
pub open spec fn check_mirror(
    t: TablesView,
    c: Option<ChannelView>,
    form: Map<Seq<char>, Seq<char>>,
    id: u32,
) -> Result<TablesView, FormError> {
    let port = leg_port(
        field(form, "amp_port_"@, id),
        match c {
            Some(x) => x.amp_port,
            None => 0,
        },
    );
    if !form.contains_key("amp_enabled"@) || !ticked(form, "amp_channel_enabled_"@, id) {
        Ok(t)
    } else if port < 1 {
        Err(FormError::MirrorPortRange { id })
    } else {
        match holder(t.mirror, port) {
            Some(other) => Err(FormError::MirrorPortTaken { port, other, id }),
            None => Ok(TablesView { mirror: t.mirror.insert(port, id), ..t }),
        }
    }
}

/// Checks the bridge's port of a channel and notes it, where the bridges are on
/// and the channel has one.
pub open spec fn check_bridge(
    t: TablesView,
    c: Option<ChannelView>,
    form: Map<Seq<char>, Seq<char>>,
    id: u32,
) -> Result<TablesView, FormError> {
    let port = leg_port(
        field(form, "bridge_port_"@, id),
        match c {
            Some(x) => x.bridge_port,
            None => 0,
        },
    );
    if !form.contains_key("bridge_enabled"@) || !ticked(form, "bridge_channel_enabled_"@, id) {
        Ok(t)
    } else if port < 1 {
        Err(FormError::BridgePortRange { id })
    } else {
        match holder(t.bridge, port) {
            Some(other) => Err(FormError::BridgePortTaken { port, other, id }),
            None => Ok(TablesView { bridge: t.bridge.insert(port, id), ..t }),
        }
    }
}

/// Checks what a form says of a channel and notes the ports that it asks for.
pub open spec fn check_channel(
    t: TablesView,
    c: Option<ChannelView>,
    form: Map<Seq<char>, Seq<char>>,
    sip_port: u16,
    id: u32,
) -> Result<TablesView, FormError> {
    match target_error(c, form, id) {
        Some(e) => Err(e),
        None => match check_local(t, sip_port, id, local_port_asked(c, form, id)) {
            Err(e) => Err(e),
            Ok(t) => match check_mirror(t, c, form, id) {
                Err(e) => Err(e),
                Ok(t) => match check_bridge(t, c, form, id) {
                    Err(e) => Err(e),
                    Ok(t) => check_bridge_local(t, sip_port, id, bridge_port_asked(c, form, id)),
                },
            },
        },
    }
}

/// Checks what a form says of the first so many channels.
pub open spec fn check_channels(
    g: GatewayView,
    form: Map<Seq<char>, Seq<char>>,
    sip_port: u16,
    count: nat,
) -> Result<TablesView, FormError>
    decreases count,
{
    if count == 0 {
        Ok(no_ports())
    } else {
        match check_channels(g, form, sip_port, (count - 1) as nat) {
            Err(e) => Err(e),
            Ok(t) => check_channel(t, channel_of(g, count as u32), form, sip_port, count as u32),
        }
    }
}

/// A checked step that noted its ports, or the error that it found.
pub open spec fn outcome(
    r: Result<(), FormError>,
    after: TablesView,
    expected: Result<TablesView, FormError>,
) -> bool {
    match expected {
        Ok(t) => r is Ok && after == t,
        Err(e) => r == Err::<(), FormError>(e),
    }
}

/// A channel as a value, if there is one.
pub open spec fn opt_channel(c: Option<&Channel>) -> Option<ChannelView> {
    match c {
        Some(x) => Some(x@),
        None => None,
    }
}

impl PortTables {
    fn note_local(&mut self, sip_port: u16, id: u32, asked: PortField) -> (r: Result<(), FormError>)
        ensures
            outcome(r, final(self)@, check_local(old(self)@, sip_port, id, asked)),
    {
        match asked {
            PortField::TooLow => Err(FormError::LocalPortRange { id }),
            PortField::Invalid => Err(FormError::LocalPortInvalid { id }),
            PortField::Use(None) => Ok(()),
            PortField::Use(Some(port)) => {
                if port == sip_port {
                    return Err(FormError::LocalPortIsSip { id, port });
                }
                match claim(&mut self.local, port, id) {
                    Some(other) => Err(FormError::LocalPortTaken { port, other, id }),
                    None => Ok(()),
                }
            },
        }
    }

    fn note_bridge_local(&mut self, sip_port: u16, id: u32, asked: PortField) -> (r: Result<
        (),
        FormError,
    >)
        ensures
            outcome(r, final(self)@, check_bridge_local(old(self)@, sip_port, id, asked)),
    {
        match asked {
            PortField::TooLow => Err(FormError::BridgeLocalPortRange { id }),
            PortField::Invalid => Err(FormError::BridgeLocalPortInvalid { id }),
            PortField::Use(None) => Ok(()),
            PortField::Use(Some(port)) => {
                if port == sip_port {
                    return Err(FormError::BridgeLocalPortIsSip { id, port });
                }
                match claim(&mut self.local, port, id) {
                    Some(other) => Err(FormError::LocalPortTaken { port, other, id }),
                    None => Ok(()),
                }
            },
        }
    }

    fn note_mirror(&mut self, c: Option<&Channel>, form: &TextMap, id: u32) -> (r: Result<
        (),
        FormError,
    >)
        ensures
            outcome(r, final(self)@, check_mirror(old(self)@, opt_channel(c), form@, id)),
    {
        if !form.contains("amp_enabled") || !is_ticked(form, "amp_channel_enabled_", id) {
            return Ok(());
        }
        let stored: u16 = match c {
            Some(x) => x.amp_port,
            None => 0,
        };
        let port: u16 = match get_field(form, "amp_port_", id) {
            Some(t) => match read_port(t) {
                Some(p) => p,
                None => 0,
            },
            None => stored,
        };
        if port < 1 {
            return Err(FormError::MirrorPortRange { id });
        }
        match claim(&mut self.mirror, port, id) {
            Some(other) => Err(FormError::MirrorPortTaken { port, other, id }),
            None => Ok(()),
        }
    }

    fn note_bridge(&mut self, c: Option<&Channel>, form: &TextMap, id: u32) -> (r: Result<
        (),
        FormError,
    >)
        ensures
            outcome(r, final(self)@, check_bridge(old(self)@, opt_channel(c), form@, id)),
    {
        if !form.contains("bridge_enabled") || !is_ticked(form, "bridge_channel_enabled_", id) {
            return Ok(());
        }
        let stored: u16 = match c {
            Some(x) => x.bridge_port,
            None => 0,
        };
        let port: u16 = match get_field(form, "bridge_port_", id) {
            Some(t) => match read_port(t) {
                Some(p) => p,
                None => 0,
            },
            None => stored,
        };
        if port < 1 {
            return Err(FormError::BridgePortRange { id });
        }
        match claim(&mut self.bridge, port, id) {
            Some(other) => Err(FormError::BridgePortTaken { port, other, id }),
            None => Ok(()),
        }
    }

    fn note_channel(
        &mut self,
        c: Option<&Channel>,
        form: &TextMap,
        sip_port: u16,
        id: u32,
    ) -> (r: Result<(), FormError>)
        ensures
            outcome(
                r,
                final(self)@,
                check_channel(old(self)@, opt_channel(c), form@, sip_port, id),
            ),
    {
        if let Some(e) = find_target_error(c, form, id) {
            return Err(e);
        }
        let asked = read_local_port(c, form, id);
        if let Err(e) = self.note_local(sip_port, id, asked) {
            return Err(e);
        }
        if let Err(e) = self.note_mirror(c, form, id) {
            return Err(e);
        }
        if let Err(e) = self.note_bridge(c, form, id) {
            return Err(e);
        }
        let stored: Option<u16> = match c {
            Some(x) => x.bridge_local_port,
            None => None,
        };
        let asked = read_port_field(get_field(form, "bridge_local_port_", id), true, stored);
        self.note_bridge_local(sip_port, id, asked)
    }
}

fn in_call(c: Option<&Channel>) -> (r: bool)
    ensures
        r == has_call(opt_channel(c)),
{
    match c {
        Some(x) => !x.status.free(),
        None => false,
    }
}

fn is_missing(sent: Option<&String>, stored: Option<&String>) -> (r: bool)
    ensures
        r == ((match sent {
            Some(t) => trimmed(t@),
            None => match stored {
                Some(t) => t@,
                None => Seq::empty(),
            },
        }).len() == 0),
{
    match sent {
        Some(t) => {
            let cs = chars_of(t.as_str());
            trim(cs.as_slice()).len() == 0
        },
        None => match stored {
            Some(t) => t.as_str().is_empty(),
            None => true,
        },
    }
}

fn find_target_error(c: Option<&Channel>, form: &TextMap, id: u32) -> (r: Option<FormError>)
    ensures
        r == target_error(opt_channel(c), form@, id),
{
    if in_call(c) {
        return None;
    }
    let label = match c {
        Some(x) => Some(&x.label),
        None => None,
    };
    if is_missing(get_field(form, "label_", id), label) {
        return Some(FormError::AliasEmpty { id });
    }
    let ip = match c {
        Some(x) => Some(&x.target_ip),
        None => None,
    };
    if is_missing(get_field(form, "target_ip_", id), ip) {
        return Some(FormError::TargetIpEmpty { id });
    }
    match get_field(form, "target_port_", id) {
        Some(t) => match read_port(t) {
            Some(p) => if p < 1 {
                Some(FormError::TargetPortRange { id })
            } else {
                None
            },
            None => Some(FormError::TargetPortInvalid { id }),
        },
        None => None,
    }
}

fn read_local_port(c: Option<&Channel>, form: &TextMap, id: u32) -> (r: PortField)
    ensures
        r == local_port_asked(opt_channel(c), form@, id),
{
    let stored: Option<u16> = match c {
        Some(x) => x.local_port,
        None => None,
    };
    if in_call(c) {
        return PortField::Use(stored);
    }
    read_port_field(get_field(form, "local_port_", id), false, stored)
}

impl Gateway {
    fn channel_with(&self, id: u32) -> (r: Option<&Channel>)
        ensures
            opt_channel(r) == channel_of(self@, id),
    {
        match self.find_channel(id) {
            Some(i) => {
                assert(self@.channels[i as int] == self.channels@[i as int]@);
                Some(&self.channels[i])
            },
            None => None,
        }
    }

    fn note_channels(&self, form: &TextMap, sip_port: u16) -> (r: Result<PortTables, FormError>)
        ensures
            match check_channels(self@, form@, sip_port, CHANNEL_COUNT as nat) {
                Ok(t) => r matches Ok(x) && x@ == t,
                Err(e) => r == Err::<PortTables, FormError>(e),
            },
    {
        let mut tables = PortTables::new();
        let mut id: u32 = 1;
        while id <= CHANNEL_COUNT
            invariant
                1 <= id <= 13,
                check_channels(self@, form@, sip_port, (id - 1) as nat) == Ok::<
                    TablesView,
                    FormError,
                >(tables@),
            decreases 13 - id,
        {
            let c = self.channel_with(id);
            if let Err(e) = tables.note_channel(c, form, sip_port, id) {
                proof {
                    lemma_error_stays(self@, form@, sip_port, id as nat, CHANNEL_COUNT as nat);
                }
                return Err(e);
            }
            id += 1;
        }
        Ok(tables)
    }
}

proof fn lemma_error_stays(
    g: GatewayView,
    form: Map<Seq<char>, Seq<char>>,
    sip_port: u16,
    count: nat,
    more: nat,
)
    requires
        check_channels(g, form, sip_port, count) is Err,
        count <= more,
    ensures
        check_channels(g, form, sip_port, more) == check_channels(g, form, sip_port, count),
    decreases more - count,
{
    if count < more {
        lemma_error_stays(g, form, sip_port, count, (more - 1) as nat);
    }
}

// ---------------------------------------------------------------------------
// Checking the groups
// ---------------------------------------------------------------------------

/// The name that a form gives a group, where it can be shortened.
pub open spec fn group_name(form: Map<Seq<char>, Seq<char>>, id: u32) -> Option<Seq<char>> {
    let unnamed = "Patch "@ + decimal(id as nat);
    match field(form, "dispatch_name_"@, id) {
        Some(n) => match cut_to(trimmed(n), 24) {
            Some(t) => if t.len() == 0 {
                Some(unnamed)
            } else {
                Some(t)
            },
            None => None,
        },
        None => Some(unnamed),
    }
}

/// An address that a form gives, or the machine itself where it is blank or not
/// sent.
pub open spec fn ip_sent(sent: Option<Seq<char>>) -> Seq<char> {
    match sent {
        Some(t) => if trimmed(t).len() == 0 {
            "127.0.0.1"@
        } else {
            trimmed(t)
        },
        None => "127.0.0.1"@,
    }
}

/// The local port that a form asks for a group.
pub open spec fn group_port_asked(form: Map<Seq<char>, Seq<char>>, id: u32) -> PortField {
    port_field(field(form, "dispatch_mirror_local_port_"@, id), is_blank(), None)
}

/// The port of a group's outside party that a form gives.
pub open spec fn group_mirror_port(form: Map<Seq<char>, Seq<char>>, id: u32) -> u16 {
    leg_port(field(form, "dispatch_mirror_port_"@, id), 0)
}

/// A group as a form sets it. Who belongs to it is not in the form.
pub open spec fn group_asked(
    g: GatewayView,
    form: Map<Seq<char>, Seq<char>>,
    id: u32,
    local_port: Option<u16>,
) -> GroupView {
    GroupView {
        id,
        name: group_name(form, id)->0,
        member_ids: match group_index(g.groups, id) {
            Some(i) => g.groups[i].member_ids,
            None => Seq::empty(),
        },
        mirror_enabled: ticked(form, "dispatch_mirror_enabled_"@, id),
        mirror_ip: ip_sent(field(form, "dispatch_mirror_ip_"@, id)),
        mirror_port: group_mirror_port(form, id),
        mirror_local_port: local_port,
    }
}

/// Checks the port of a group's outside party and notes it, where it is on.
pub open spec fn check_group_mirror(
    t: TablesView,
    form: Map<Seq<char>, Seq<char>>,
    id: u32,
) -> Result<TablesView, FormError> {
    let port = group_mirror_port(form, id);
    if !ticked(form, "dispatch_mirror_enabled_"@, id) {
        Ok(t)
    } else if port < 1 {
        Err(FormError::GroupMirrorRange { id })
    } else {
        match holder(t.groups, port) {
            Some(other) => Err(FormError::GroupMirrorTaken { port, other, id }),
            None => Ok(TablesView { groups: t.groups.insert(port, id), ..t }),
        }
    }
}

/// Checks a group's local port and notes it.
pub open spec fn check_group_local(
    t: TablesView,
    sip_port: u16,
    id: u32,
    asked: PortField,
) -> Result<TablesView, FormError> {
    match asked {
        PortField::TooLow => Err(FormError::GroupLocalPortRange { id }),
        PortField::Invalid => Err(FormError::GroupLocalPortInvalid { id }),
        PortField::Use(None) => Ok(t),
        PortField::Use(Some(port)) => if port == sip_port {
            Err(FormError::GroupLocalPortIsSip { id, port })
        } else {
            match holder(t.local, port) {
                Some(other) => Err(FormError::GroupLocalPortTaken { port, id, other }),
                None => Ok(TablesView { local: t.local.insert(port, (100 + id) as u32), ..t }),
            }
        },
    }
}

/// Checks what a form says of a group and notes the ports that it asks for.
pub open spec fn check_group(
    t: TablesView,
    form: Map<Seq<char>, Seq<char>>,
    sip_port: u16,
    id: u32,
) -> Result<TablesView, FormError> {
    if group_name(form, id) is None {
        Err(FormError::UncutName)
    } else {
        match check_group_mirror(t, form, id) {
            Err(e) => Err(e),
            Ok(t) => check_group_local(t, sip_port, id, group_port_asked(form, id)),
        }
    }
}

/// The port that a field asks for, if it asks for one.
pub open spec fn asked_port(asked: PortField) -> Option<u16> {
    match asked {
        PortField::Use(p) => p,
        _ => None,
    }
}

/// Checks what a form says of the first so many groups.
pub open spec fn check_groups(
    form: Map<Seq<char>, Seq<char>>,
    sip_port: u16,
    t: TablesView,
    count: nat,
) -> Result<TablesView, FormError>
    decreases count,
{
    if count == 0 {
        Ok(t)
    } else {
        match check_groups(form, sip_port, t, (count - 1) as nat) {
            Err(e) => Err(e),
            Ok(t) => check_group(t, form, sip_port, count as u32),
        }
    }
}

/// The groups as a form sets them.
pub open spec fn groups_asked(g: GatewayView, form: Map<Seq<char>, Seq<char>>) -> Seq<GroupView> {
    Seq::new(
        DISPATCH_GROUP_COUNT as nat,
        |k: int|
            group_asked(
                g,
                form,
                (k + 1) as u32,
                asked_port(group_port_asked(form, (k + 1) as u32)),
            ),
    )
}

fn read_group_name(form: &TextMap, id: u32) -> (r: Option<String>)
    ensures
        opt_text(r) == group_name(form@, id),
{
    let mut unnamed = "Patch ".to_owned();
    let n = decimal_string(id as u64);
    unnamed.append(n.as_str());
    match get_field(form, "dispatch_name_", id) {
        Some(name) => {
            let cs = chars_of(name.as_str());
            match cut(trim(cs.as_slice()), 24) {
                Some(t) => if t.len() == 0 {
                    Some(unnamed)
                } else {
                    Some(string_of(t))
                },
                None => None,
            }
        },
        None => Some(unnamed),
    }
}

pub(crate) fn read_ip(sent: Option<&String>) -> (r: String)
    ensures
        r@ == ip_sent(
            match sent {
                Some(s) => Some(s@),
                None => None,
            },
        ),
{
    match sent {
        Some(t) => {
            let ip = trimmed_string(t);
            if ip.as_str().is_empty() {
                default_amp_ip()
            } else {
                ip
            }
        },
        None => default_amp_ip(),
    }
}

fn read_group_mirror_port(form: &TextMap, id: u32) -> (r: u16)
    ensures
        r == group_mirror_port(form@, id),
{
    match get_field(form, "dispatch_mirror_port_", id) {
        Some(t) => match read_port(t) {
            Some(p) => p,
            None => 0,
        },
        None => 0,
    }
}

impl PortTables {
    fn note_group_mirror(&mut self, form: &TextMap, id: u32) -> (r: Result<(), FormError>)
        ensures
            outcome(r, final(self)@, check_group_mirror(old(self)@, form@, id)),
    {
        if !is_ticked(form, "dispatch_mirror_enabled_", id) {
            return Ok(());
        }
        let port: u16 = read_group_mirror_port(form, id);
        if port < 1 {
            return Err(FormError::GroupMirrorRange { id });
        }
        match claim(&mut self.groups, port, id) {
            Some(other) => Err(FormError::GroupMirrorTaken { port, other, id }),
            None => Ok(()),
        }
    }

    fn note_group_local(&mut self, sip_port: u16, id: u32, asked: PortField) -> (r: Result<
        (),
        FormError,
    >)
        requires
            id <= DISPATCH_GROUP_COUNT,
        ensures
            outcome(r, final(self)@, check_group_local(old(self)@, sip_port, id, asked)),
    {
        match asked {
            PortField::TooLow => Err(FormError::GroupLocalPortRange { id }),
            PortField::Invalid => Err(FormError::GroupLocalPortInvalid { id }),
            PortField::Use(None) => Ok(()),
            PortField::Use(Some(port)) => {
                if port == sip_port {
                    return Err(FormError::GroupLocalPortIsSip { id, port });
                }
                match claim(&mut self.local, port, 100 + id) {
                    Some(other) => Err(FormError::GroupLocalPortTaken { port, id, other }),
                    None => Ok(()),
                }
            },
        }
    }

    fn note_groups(&mut self, g: &Gateway, form: &TextMap, sip_port: u16) -> (r: Result<
        Vec<DispatchGroup>,
        FormError,
    >)
        ensures
            match check_groups(form@, sip_port, old(self)@, DISPATCH_GROUP_COUNT as nat) {
                Ok(t) => r matches Ok(groups) && group_views(groups@) == groups_asked(g@, form@),
                Err(e) => r == Err::<Vec<DispatchGroup>, FormError>(e),
            },
    {
        let mut groups: Vec<DispatchGroup> = Vec::new();
        let mut id: u32 = 1;
        while id <= DISPATCH_GROUP_COUNT
            invariant
                1 <= id <= 5,
                check_groups(form@, sip_port, old(self)@, (id - 1) as nat) == Ok::<
                    TablesView,
                    FormError,
                >(self@),
                groups@.len() == id - 1,
                forall|k: int|
                    0 <= k < groups@.len() ==> (#[trigger] groups@[k])@ == groups_asked(
                        g@,
                        form@,
                    )[k],
            decreases 5 - id,
        {
            let ghost before = self@;
            let name = match read_group_name(form, id) {
                Some(name) => name,
                None => {
                    proof {
                        lemma_group_error_stays(
                            form@,
                            sip_port,
                            old(self)@,
                            id as nat,
                            DISPATCH_GROUP_COUNT as nat,
                        );
                    }
                    return Err(FormError::UncutName);
                },
            };
            let asked = read_port_field(
                get_field(form, "dispatch_mirror_local_port_", id),
                true,
                None,
            );
            let mut noted = self.note_group_mirror(form, id);
            if noted.is_ok() {
                noted = self.note_group_local(sip_port, id, asked);
            }
            assert(outcome(noted, self@, check_group(before, form@, sip_port, id)));
            if let Err(e) = noted {
                proof {
                    lemma_group_error_stays(
                        form@,
                        sip_port,
                        old(self)@,
                        id as nat,
                        DISPATCH_GROUP_COUNT as nat,
                    );
                }
                return Err(e);
            }
            let local_port: Option<u16> = match asked {
                PortField::Use(p) => p,
                _ => None,
            };
            let group = g.asked_group(form, id, name, local_port);
            groups.push(group);
            id += 1;
        }
        assert(group_views(groups@) =~= groups_asked(g@, form@));
        Ok(groups)
    }
}

proof fn lemma_group_error_stays(
    form: Map<Seq<char>, Seq<char>>,
    sip_port: u16,
    t: TablesView,
    count: nat,
    more: nat,
)
    requires
        check_groups(form, sip_port, t, count) is Err,
        count <= more,
    ensures
        check_groups(form, sip_port, t, more) == check_groups(form, sip_port, t, count),
    decreases more - count,
{
    if count < more {
        lemma_group_error_stays(form, sip_port, t, count, (more - 1) as nat);
    }
}

impl Gateway {
    fn asked_group(&self, form: &TextMap, id: u32, name: String, local_port: Option<u16>) -> (r:
        DispatchGroup)
        requires
            group_name(form@, id) == Some(name@),
        ensures
            r@ == group_asked(self@, form@, id, local_port),
    {
        let member_ids: Vec<u32> = match self.find_group(id) {
            Some(i) => {
                assert(self@.groups[i as int] == self.dispatch_groups@[i as int]@);
                copy_ids(&self.dispatch_groups[i].member_ids)
            },
            None => Vec::new(),
        };
        let r = DispatchGroup {
            id,
            name,
            member_ids,
            mirror_enabled: is_ticked(form, "dispatch_mirror_enabled_", id),
            mirror_ip: read_ip(get_field(form, "dispatch_mirror_ip_", id)),
            mirror_port: read_group_mirror_port(form, id),
            mirror_local_port: local_port,
        };
        assert(r@.member_ids =~= group_asked(self@, form@, id, local_port).member_ids);
        r
    }
}

// ---------------------------------------------------------------------------
// Checking the form
// ---------------------------------------------------------------------------

/// The listening port that a form asks for.
pub open spec fn check_listening(form: Map<Seq<char>, Seq<char>>, stored: u16) -> Result<
    u16,
    FormError,
> {
    if form.contains_key("sip_port"@) {
        match port_of(form["sip_port"@]) {
            Some(p) => if p < 1024 {
                Err(FormError::ListeningPortRange)
            } else {
                Ok(p)
            },
            None => Err(FormError::ListeningPortInvalid),
        }
    } else {
        Ok(stored)
    }
}

/// Whether the alias that a form gives a channel can be shortened. A channel with
/// a call keeps its own.
pub open spec fn label_fits(
    c: Option<ChannelView>,
    form: Map<Seq<char>, Seq<char>>,
    id: u32,
) -> bool {
    c is Some && !has_call(c) ==> (field(form, "label_"@, id) matches Some(l) ==> cut_to(
        trimmed(l),
        7,
    ) is Some)
}

/// Whether the aliases that a form gives the channels can be shortened.
pub open spec fn labels_fit(g: GatewayView, form: Map<Seq<char>, Seq<char>>) -> bool {
    forall|id: u32|
        1 <= id <= CHANNEL_COUNT ==> #[trigger] label_fits(channel_of(g, id), form, id)
}

/// What is wrong with a form, if anything: what comes first, by the listening
/// port, the channels, the groups and the aliases. A form that is in order gives
/// the listening port.
pub open spec fn check_form(g: GatewayView, form: Map<Seq<char>, Seq<char>>) -> Result<
    u16,
    FormError,
> {
    match check_listening(form, g.sip_port) {
        Err(e) => Err(e),
        Ok(sip_port) => match check_channels(g, form, sip_port, CHANNEL_COUNT as nat) {
            Err(e) => Err(e),
            Ok(t) => match check_groups(form, sip_port, t, DISPATCH_GROUP_COUNT as nat) {
                Err(e) => Err(e),
                Ok(_) => if labels_fit(g, form) {
                    Ok(sip_port)
                } else {
                    Err(FormError::UncutName)
                },
            },
        },
    }
}

impl Gateway {
    fn fit_labels(&self, form: &TextMap) -> (r: bool)
        ensures
            r == labels_fit(self@, form@),
    {
        let mut id: u32 = 1;
        while id <= CHANNEL_COUNT
            invariant
                1 <= id <= 13,
                forall|k: u32|
                    1 <= k < id ==> #[trigger] label_fits(channel_of(self@, k), form@, k),
            decreases 13 - id,
        {
            let c = self.channel_with(id);
            if c.is_some() && !in_call(c) {
                if let Some(l) = get_field(form, "label_", id) {
                    let cs = chars_of(l.as_str());
                    if cut(trim(cs.as_slice()), 7).is_none() {
                        assert(!label_fits(channel_of(self@, id), form@, id));
                        return false;
                    }
                }
            }
            id += 1;
        }
        true
    }

    /// Checks a form: gives the listening port and the groups that it asks for, or
    /// what is wrong with it.
    pub fn check_form(&self, form: &TextMap) -> (r: Result<(u16, Vec<DispatchGroup>), FormError>)
        ensures
            match check_form(self@, form@) {
                Ok(sip_port) => r matches Ok(x) && x.0 == sip_port && group_views(x.1@)
                    == groups_asked(self@, form@),
                Err(e) => r == Err::<(u16, Vec<DispatchGroup>), FormError>(e),
            },
    {
        let mut sip_port: u16 = self.sip_port;
        if let Some(t) = form.get("sip_port") {
            match read_port(t) {
                Some(p) => {
                    if p < 1024 {
                        return Err(FormError::ListeningPortRange);
                    }
                    sip_port = p;
                },
                None => {
                    return Err(FormError::ListeningPortInvalid);
                },
            }
        }
        match self.note_channels(form, sip_port) {
            Err(e) => Err(e),
            Ok(mut tables) => match tables.note_groups(self, form, sip_port) {
                Err(e) => Err(e),
                Ok(groups) => if self.fit_labels(form) {
                    Ok((sip_port, groups))
                } else {
                    Err(FormError::UncutName)
                },
            },
        }
    }
}

} // verus!
