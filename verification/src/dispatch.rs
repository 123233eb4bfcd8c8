//! Groups of channels that hear each other: who takes part, and the outside
//! party of each group.

use crate::calls::{lemma_one_channel, stepped};
use crate::config::{
    copy_groups, group_views, has_port, numbered_port, port_at, DispatchGroup, GroupView,
    CHANNEL_COUNT, DISPATCH_GROUP_COUNT, MIRROR_LOCAL_PORT_BASE,
};
use crate::events::{event_views, join_events, Event, EventView};
use crate::state::{
    channel_index, flag_key, group_index, lemma_channel_from, lemma_flag_key, lemma_group_from,
    make_flag_key, with_channel, Channel, ChannelView, Gateway, GatewayView,
};
use crate::text::{chars_of, trim, trimmed};
use vstd::prelude::*;
use vstd::string::*;

verus! {

// ---------------------------------------------------------------------------
// Members
// ---------------------------------------------------------------------------

/// The place of a number in a list, from a place on.
pub open spec fn member_from(ids: Seq<u32>, id: u32, from: int) -> Option<int>
    decreases ids.len() - from,
{
    if from < 0 || from >= ids.len() {
        None
    } else if ids[from] == id {
        Some(from)
    } else {
        member_from(ids, id, from + 1)
    }
}

proof fn lemma_member_from(ids: Seq<u32>, id: u32, from: int)
    requires
        0 <= from,
    ensures
        match member_from(ids, id, from) {
            Some(i) => from <= i < ids.len() && ids[i] == id && forall|k: int|
                from <= k < i ==> ids[k] != id,
            None => forall|k: int| from <= k < ids.len() ==> ids[k] != id,
        },
    decreases ids.len() - from,
{
    if from < ids.len() && ids[from] != id {
        lemma_member_from(ids, id, from + 1);
    }
}

fn find_member(ids: &Vec<u32>, id: u32) -> (r: Option<usize>)
    ensures
        match r {
            Some(i) => member_from(ids@, id, 0) == Some(i as int) && i < ids@.len(),
            None => member_from(ids@, id, 0) is None,
        },
        r is Some == ids@.contains(id),
{
    proof {
        lemma_member_from(ids@, id, 0);
    }
    let mut i: usize = 0;
    while i < ids.len()
        invariant
            i <= ids@.len(),
            member_from(ids@, id, 0) == member_from(ids@, id, i as int),
        decreases ids@.len() - i,
    {
        if ids[i] == id {
            return Some(i);
        }
        i += 1;
    }
    None
}

/// The numbers of the groups that a channel belongs to.
pub open spec fn groups_of(groups: Seq<GroupView>, channel: u32) -> Seq<u32>
    decreases groups.len(),
{
    if groups.len() == 0 {
        Seq::empty()
    } else {
        let earlier = groups_of(groups.drop_last(), channel);
        if groups.last().member_ids.contains(channel) {
            earlier.push(groups.last().id)
        } else {
            earlier
        }
    }
}

/// The numbers of the groups that a channel belongs to.
pub fn dispatch_group_ids_for(groups: &Vec<DispatchGroup>, channel_id: u32) -> (r: Vec<u32>)
    ensures
        r@ == groups_of(group_views(groups@), channel_id),
{
    let mut r: Vec<u32> = Vec::new();
    let mut i: usize = 0;
    let ghost views = group_views(groups@);
    assert(views.take(0) =~= Seq::empty());
    while i < groups.len()
        invariant
            i <= groups@.len(),
            views == group_views(groups@),
            r@ == groups_of(views.take(i as int), channel_id),
        decreases groups@.len() - i,
    {
        assert(views.take(i as int + 1).drop_last() =~= views.take(i as int));
        assert(views.take(i as int + 1).last() == groups@[i as int]@);
        if find_member(&groups[i].member_ids, channel_id).is_some() {
            r.push(groups[i].id);
        }
        i += 1;
    }
    assert(views.take(views.len() as int) =~= views);
    r
}

/// Whether a channel is on the roster of a group.
pub open spec fn on_roster(groups: Seq<GroupView>, group: u32, channel: u32) -> bool {
    match group_index(groups, group) {
        Some(i) => groups[i].member_ids.contains(channel),
        None => false,
    }
}

impl Gateway {
    /// Whether a channel is on the roster of a group.
    pub fn is_on_roster(&self, group: u32, channel: u32) -> (r: bool)
        ensures
            r == on_roster(self@.groups, group, channel),
    {
        match self.find_group(group) {
            Some(i) => {
                assert(self@.groups[i as int] == self.dispatch_groups@[i as int]@);
                find_member(&self.dispatch_groups[i].member_ids, channel).is_some()
            },
            None => false,
        }
    }
}

// ---------------------------------------------------------------------------
// Live membership
// ---------------------------------------------------------------------------

/// Whether the call on a channel takes part in a group.
pub open spec fn takes_part(flags: Map<u64, bool>, channel: u32, group: u32) -> bool {
    flags.contains_key(flag_key(channel, group)) && flags[flag_key(channel, group)]
}

/// The groups, of the first so many, that the call on a channel takes part in.
pub open spec fn live_among(flags: Map<u64, bool>, channel: u32, count: nat) -> Seq<u32>
    decreases count,
{
    if count == 0 {
        Seq::empty()
    } else {
        let earlier = live_among(flags, channel, (count - 1) as nat);
        if takes_part(flags, channel, count as u32) {
            earlier.push(count as u32)
        } else {
            earlier
        }
    }
}

/// The flags once those of a channel are set by the rosters.
pub open spec fn flags_opened(
    flags: Map<u64, bool>,
    groups: Seq<GroupView>,
    channel: u32,
) -> Map<u64, bool> {
    flags.insert(flag_key(channel, 1), on_roster(groups, 1, channel)).insert(
        flag_key(channel, 2),
        on_roster(groups, 2, channel),
    ).insert(flag_key(channel, 3), on_roster(groups, 3, channel)).insert(
        flag_key(channel, 4),
        on_roster(groups, 4, channel),
    )
}

/// The state once the call on a channel is linked to all groups.
pub open spec fn linked(g: GatewayView, channel: u32) -> GatewayView {
    GatewayView { flags: flags_opened(g.flags, g.groups, channel), ..g }
}

impl Gateway {
    /// Whether the call on a channel takes part in a group.
    pub fn has_flag(&self, channel: u32, group: u32) -> (r: bool)
        ensures
            r == takes_part(self@.flags, channel, group),
    {
        broadcast use vstd::std_specs::hash::group_hash_axioms;

        let key: u64 = make_flag_key(channel, group);
        match self.flags.get(&key) {
            Some(f) => *f,
            None => false,
        }
    }

    /// Sets whether the call on a channel takes part in a group.
    fn register_dispatch_membership_flag(&mut self, channel: u32, group: u32, initial: bool)
        ensures
            final(self)@ == (GatewayView {
                flags: old(self)@.flags.insert(flag_key(channel, group), initial),
                ..old(self)@
            }),
    {
        broadcast use vstd::std_specs::hash::group_hash_axioms;

        let key: u64 = make_flag_key(channel, group);
        self.flags.insert(key, initial);
    }

    /// Links the call on a channel to all groups: it takes part in those whose
    /// roster it is on, and can be put into the others while it lasts. Gives what is
    /// announced: the channels that are patched now, or no longer.
    pub fn open_groups(&mut self, channel: u32) -> (r: Vec<Event>)
        ensures
            final(self)@ == repatched(linked(old(self)@, channel)),
            event_views(r@) == patch_events(linked(old(self)@, channel)),
    {
        let in1 = self.is_on_roster(1, channel);
        let in2 = self.is_on_roster(2, channel);
        let in3 = self.is_on_roster(3, channel);
        let in4 = self.is_on_roster(4, channel);
        self.register_dispatch_membership_flag(channel, 1, in1);
        self.register_dispatch_membership_flag(channel, 2, in2);
        self.register_dispatch_membership_flag(channel, 3, in3);
        self.register_dispatch_membership_flag(channel, 4, in4);
        self.repatch()
    }

    /// The groups that hear the call on a channel now.
    pub fn live_groups(&self, channel: u32) -> (r: Vec<u32>)
        ensures
            r@ == live_among(self@.flags, channel, DISPATCH_GROUP_COUNT as nat),
    {
        let mut r: Vec<u32> = Vec::new();
        let mut id: u32 = 1;
        while id <= DISPATCH_GROUP_COUNT
            invariant
                1 <= id <= 5,
                r@ == live_among(self@.flags, channel, (id - 1) as nat),
            decreases 5 - id,
        {
            if self.has_flag(channel, id) {
                r.push(id);
            }
            id += 1;
        }
        r
    }
}

/// Whether the calls on two channels take part in one group.
pub open spec fn shares_group(flags: Map<u64, bool>, a: u32, b: u32) -> bool {
    (takes_part(flags, a, 1) && takes_part(flags, b, 1)) || (takes_part(flags, a, 2) && takes_part(
        flags,
        b,
        2,
    )) || (takes_part(flags, a, 3) && takes_part(flags, b, 3)) || (takes_part(flags, a, 4)
        && takes_part(flags, b, 4))
}

/// A channel that shows whether it is patched.
pub open spec fn patch_shown(c: ChannelView, shown: bool) -> ChannelView {
    ChannelView { dispatch_connected: shown, ..c }
}

/// Whether a channel is patched: its call takes part in a group in which the call on
/// another channel takes part too.
#[verifier::opaque]
pub open spec fn is_patched(g: GatewayView, channel: u32) -> bool {
    exists|k: int|
        0 <= k < g.channels.len() && (#[trigger] g.channels[k]).id != channel && shares_group(
            g.flags,
            channel,
            g.channels[k].id,
        )
}

/// The state in which every channel shows whether it is patched.
pub open spec fn repatched(g: GatewayView) -> GatewayView {
    GatewayView {
        channels: g.channels.map_values(
            |c: ChannelView| patch_shown(c, is_patched(g, c.id)),
        ),
        ..g
    }
}

/// What is announced of the first so many channels once each shows whether it is
/// patched: those that showed otherwise.
pub open spec fn patch_updates(g: GatewayView, count: nat) -> Seq<EventView>
    decreases count,
{
    if count == 0 {
        Seq::empty()
    } else {
        let earlier = patch_updates(g, (count - 1) as nat);
        let c = g.channels[count - 1];
        if c.dispatch_connected != is_patched(g, c.id) {
            earlier.push(EventView::Update { channel: patch_shown(c, is_patched(g, c.id)) })
        } else {
            earlier
        }
    }
}

/// What is announced once each channel shows whether it is patched.
pub open spec fn patch_events(g: GatewayView) -> Seq<EventView> {
    patch_updates(g, g.channels.len())
}

/// Which channels are patched depends on their numbers and the flags alone.
pub proof fn lemma_same_patches(g: GatewayView, h: GatewayView, channel: u32)
    requires
        g.flags == h.flags,
        g.channels.len() == h.channels.len(),
        forall|k: int|
            0 <= k < g.channels.len() ==> (#[trigger] g.channels[k]).id == h.channels[k].id,
    ensures
        is_patched(g, channel) == is_patched(h, channel),
{
    reveal(is_patched);
    if is_patched(g, channel) {
        let k = choose|k: int|
            0 <= k < g.channels.len() && (#[trigger] g.channels[k]).id != channel && shares_group(
                g.flags,
                channel,
                g.channels[k].id,
            );
        assert(h.channels[k].id == g.channels[k].id);
    }
    if is_patched(h, channel) {
        let k = choose|k: int|
            0 <= k < h.channels.len() && (#[trigger] h.channels[k]).id != channel && shares_group(
                h.flags,
                channel,
                h.channels[k].id,
            );
        assert(g.channels[k].id == h.channels[k].id);
    }
}

impl Gateway {
    fn has_shared_group(&self, a: u32, b: u32) -> (r: bool)
        ensures
            r == shares_group(self@.flags, a, b),
    {
        (self.has_flag(a, 1) && self.has_flag(b, 1)) || (self.has_flag(a, 2) && self.has_flag(b, 2))
            || (self.has_flag(a, 3) && self.has_flag(b, 3)) || (self.has_flag(a, 4)
            && self.has_flag(b, 4))
    }

    fn has_patch(&self, channel: u32) -> (r: bool)
        ensures
            r == is_patched(self@, channel),
    {
        let mut i: usize = 0;
        while i < self.channels.len()
            invariant
                i <= self.channels@.len(),
                forall|k: int|
                    0 <= k < i ==> !((#[trigger] self@.channels[k]).id != channel && shares_group(
                        self@.flags,
                        channel,
                        self@.channels[k].id,
                    )),
            decreases self.channels@.len() - i,
        {
            assert(self@.channels[i as int] == self.channels@[i as int]@);
            let id: u32 = self.channels[i].id;
            if id != channel && self.has_shared_group(channel, id) {
                assert(is_patched(self@, channel)) by {
                    reveal(is_patched);
                }
                return true;
            }
            i += 1;
        }
        assert(!is_patched(self@, channel)) by {
            reveal(is_patched);
        }
        false
    }

    /// Has one channel show whether it is patched. Gives what is announced, where it
    /// showed otherwise.
    fn show_patch(&mut self, i: usize, shown: bool) -> (r: Option<Event>)
        requires
            i < old(self).channels@.len(),
        ensures
            final(self)@ == with_channel(
                old(self)@,
                i as int,
                patch_shown(old(self)@.channels[i as int], shown),
            ),
            match r {
                Some(e) => old(self)@.channels[i as int].dispatch_connected != shown && e@
                    == (EventView::Update {
                    channel: patch_shown(old(self)@.channels[i as int], shown),
                }),
                None => old(self)@.channels[i as int].dispatch_connected == shown,
            },
    {
        let ghost list = self.channels@;
        let ghost c = list[i as int]@;
        assert(self@.channels[i as int] == c);
        if self.channels[i].dispatch_connected == shown {
            assert(patch_shown(c, shown) == c);
            assert(self@.channels.update(i as int, c) =~= self@.channels);
            return None;
        }
        self.channels[i].set_group_shown(shown);
        proof {
            lemma_one_channel(list, self.channels@, i as int, self.channels@[i as int]);
        }
        let channel = self.channels[i].copy();
        assert(channel@ == patch_shown(c, shown));
        Some(Event::Update { channel })
    }

    /// Which channels are patched.
    fn patches(&self) -> (r: Vec<bool>)
        ensures
            r@.len() == self@.channels.len(),
            forall|k: int|
                0 <= k < r@.len() ==> #[trigger] r@[k] == is_patched(self@, self@.channels[k].id),
    {
        let mut r: Vec<bool> = Vec::new();
        let mut i: usize = 0;
        while i < self.channels.len()
            invariant
                i <= self.channels@.len(),
                r@.len() == i,
                forall|k: int|
                    0 <= k < i ==> #[trigger] r@[k] == is_patched(self@, self@.channels[k].id),
            decreases self.channels@.len() - i,
        {
            assert(self@.channels[i as int] == self.channels@[i as int]@);
            r.push(self.has_patch(self.channels[i].id));
            i += 1;
        }
        r
    }

    /// Has every channel show whether it is patched. Gives what is announced.
    pub(crate) fn repatch(&mut self) -> (r: Vec<Event>)
        ensures
            final(self)@ == repatched(old(self)@),
            event_views(r@) == patch_events(old(self)@),
    {
        let shown = self.patches();
        let ghost start = self@;
        let ghost mut list = start.channels;
        let mut events: Vec<Event> = Vec::new();
        let mut i: usize = 0;
        assert(event_views(events@) =~= patch_updates(start, 0));
        while i < shown.len()
            invariant
                i <= shown@.len(),
                shown@.len() == start.channels.len(),
                list.len() == start.channels.len(),
                self@ == (GatewayView { channels: list, ..start }),
                forall|k: int|
                    0 <= k < shown@.len() ==> #[trigger] shown@[k] == is_patched(
                        start,
                        start.channels[k].id,
                    ),
                forall|k: int|
                    0 <= k < i ==> #[trigger] list[k] == patch_shown(start.channels[k], shown@[k]),
                forall|k: int| i <= k < list.len() ==> #[trigger] list[k] == start.channels[k],
                event_views(events@) == patch_updates(start, i as nat),
            decreases shown@.len() - i,
        {
            let ghost seen = events@;
            assert(self@.channels.len() == self.channels@.len());
            assert(list[i as int] == start.channels[i as int]);
            if let Some(e) = self.show_patch(i, shown[i]) {
                events.push(e);
                assert(event_views(events@) =~= event_views(seen).push(e@));
            }
            proof {
                list = list.update(i as int, patch_shown(list[i as int], shown@[i as int]));
            }
            i += 1;
        }
        assert(list =~= repatched(start).channels);
        events
    }
}

/// Whether a frame also goes to an outside party that both directions of a call
/// share: what the operator says always, what comes in while they are silent.
pub fn shares_mirror(from_peer: bool, keyed: bool) -> (r: bool)
    ensures
        r == (from_peer ==> !keyed),
{
    !from_peer || !keyed
}

// ---------------------------------------------------------------------------
// The outside party of a group
// ---------------------------------------------------------------------------

/// Where a group's outside party is, and the local port that it sends to.
pub struct MirrorPlan {
    pub ip: String,
    pub port: u16,
    pub local_port: u16,
}

/// Whether a group has an outside party.
pub open spec fn has_mirror(g: GroupView) -> bool {
    g.mirror_enabled && g.mirror_port != 0 && trimmed(g.mirror_ip).len() > 0
}

/// Where the outside party of a group is, by its address, its port and the local port
/// that it sends to, if the group is there and has one.
pub open spec fn mirror_plan(g: GatewayView, group: u32) -> Option<(Seq<char>, u16, u16)> {
    match group_index(g.groups, group) {
        Some(i) => if has_mirror(g.groups[i]) {
            Some(
                (
                    g.groups[i].mirror_ip,
                    g.groups[i].mirror_port,
                    match g.groups[i].mirror_local_port {
                        Some(p) => p,
                        None => port_at(MIRROR_LOCAL_PORT_BASE, group),
                    },
                ),
            )
        } else {
            None
        },
        None => None,
    }
}

impl Gateway {
    /// Where the outside party of a group is, if the group is there and has one.
    pub fn plan_mirror(&self, group: u32) -> (r: Option<MirrorPlan>)
        requires
            has_port(MIRROR_LOCAL_PORT_BASE, group),
        ensures
            match r {
                Some(plan) => mirror_plan(self@, group) == Some(
                    (plan.ip@, plan.port, plan.local_port),
                ),
                None => mirror_plan(self@, group) is None,
            },
    {
        match self.find_group(group) {
            None => None,
            Some(i) => {
                assert(self@.groups[i as int] == self.dispatch_groups@[i as int]@);
                let g = &self.dispatch_groups[i];
                let ip = chars_of(g.mirror_ip.as_str());
                if !g.mirror_enabled || g.mirror_port == 0 || trim(ip.as_slice()).len() == 0 {
                    return None;
                }
                let local_port: u16 = match g.mirror_local_port {
                    Some(p) => p,
                    None => numbered_port(MIRROR_LOCAL_PORT_BASE, group),
                };
                Some(MirrorPlan { ip: g.mirror_ip.clone(), port: g.mirror_port, local_port })
            },
        }
    }
}

// ---------------------------------------------------------------------------
// Toggling
// ---------------------------------------------------------------------------

/// Why a channel cannot be put into a group or taken out.
#[derive(Debug, Clone, Copy, PartialEq, Eq, Structural)]
pub enum ToggleError {
    BadGroup,
    BadChannel,
    NoGroup,
}

impl ToggleError {
    /// The error in words.
    pub open spec fn words(self) -> Seq<char> {
        match self {
            ToggleError::BadGroup => "Invalid group id"@,
            ToggleError::BadChannel => "Invalid channel id"@,
            ToggleError::NoGroup => "Group not found"@,
        }
    }

    /// The error in words.
    pub fn message(self) -> (r: &'static str)
        ensures
            r@ == self.words(),
    {
        match self {
            ToggleError::BadGroup => "Invalid group id",
            ToggleError::BadChannel => "Invalid channel id",
            ToggleError::NoGroup => "Group not found",
        }
    }
}

/// A roster with a channel taken out where it stands first, or put at the end
/// where it does not stand.
pub open spec fn roster_toggled(ids: Seq<u32>, channel: u32) -> Seq<u32> {
    match member_from(ids, channel, 0) {
        Some(i) => ids.remove(i),
        None => ids.push(channel),
    }
}

/// A group with a channel put in or taken out.
pub open spec fn group_toggled(g: GroupView, channel: u32) -> GroupView {
    GroupView { member_ids: roster_toggled(g.member_ids, channel), ..g }
}

/// Whether a channel is put in, rather than taken out.
pub open spec fn joins(g: GatewayView, group: u32, channel: u32) -> bool {
    !on_roster(g.groups, group, channel)
}

/// The flags once a channel was put into a group or taken out: a call that is up
/// follows at once.
pub open spec fn flags_toggled(
    flags: Map<u64, bool>,
    group: u32,
    channel: u32,
    joined: bool,
) -> Map<u64, bool> {
    if flags.contains_key(flag_key(channel, group)) {
        flags.insert(flag_key(channel, group), joined)
    } else {
        flags
    }
}

/// The step of a channel that shows whether it takes part in a group.
pub open spec fn step_group_shown(shown: bool) -> spec_fn(ChannelView) -> ChannelView {
    |c: ChannelView| patch_shown(c, shown)
}

/// The state once a channel was put into a group or taken out, before any channel
/// shows it.
pub open spec fn rosters_toggled(g: GatewayView, group: u32, channel: u32) -> GatewayView {
    let i = group_index(g.groups, group)->0;
    GatewayView {
        groups: g.groups.update(i, group_toggled(g.groups[i], channel)),
        flags: flags_toggled(g.flags, group, channel, joins(g, group, channel)),
        ..g
    }
}

/// The state once the channel itself shows whether it is patched.
pub open spec fn toggle_shown(g: GatewayView, group: u32, channel: u32) -> GatewayView {
    let h = rosters_toggled(g, group, channel);
    stepped(h, channel, step_group_shown(is_patched(h, channel)))
}

/// The state once a channel was put into a group or taken out, and every channel
/// shows whether it is patched.
pub open spec fn toggled(g: GatewayView, group: u32, channel: u32) -> GatewayView {
    repatched(toggle_shown(g, group, channel))
}

/// What is announced first: the groups, and the channel.
pub open spec fn toggle_events(g: GatewayView, channel: u32) -> Seq<EventView> {
    let matrix = EventView::Matrix { groups: g.groups };
    match channel_index(g.channels, channel) {
        Some(i) => seq![matrix, EventView::Update { channel: g.channels[i] }],
        None => seq![matrix],
    }
}

/// Why a request is refused, if it is.
pub open spec fn toggle_refusal(g: GatewayView, group: u32, channel: u32) -> Option<ToggleError> {
    if group < 1 || group > DISPATCH_GROUP_COUNT {
        Some(ToggleError::BadGroup)
    } else if channel < 1 || channel > CHANNEL_COUNT {
        Some(ToggleError::BadChannel)
    } else if group_index(g.groups, group) is None {
        Some(ToggleError::NoGroup)
    } else {
        None
    }
}

impl DispatchGroup {
    fn toggle(&mut self, channel: u32) -> (r: bool)
        ensures
            final(self)@ == group_toggled(old(self)@, channel),
            r == !old(self)@.member_ids.contains(channel),
    {
        match find_member(&self.member_ids, channel) {
            Some(i) => {
                self.member_ids.remove(i);
                false
            },
            None => {
                self.member_ids.push(channel);
                true
            },
        }
    }
}

impl Channel {
    fn set_group_shown(&mut self, shown: bool)
        ensures
            final(self)@ == patch_shown(old(self)@, shown),
    {
        self.dispatch_connected = shown;
    }
}

impl Gateway {
    /// Puts a channel into a group, or takes it out. Tells whether it is in now,
    /// and what is announced: the groups, the channel, and the others that are
    /// patched now, or no longer.
    pub fn toggle_member(&mut self, group: u32, channel: u32) -> (r: Result<
        (bool, Vec<Event>),
        ToggleError,
    >)
        ensures
            match toggle_refusal(old(self)@, group, channel) {
                Some(e) => r == Err::<(bool, Vec<Event>), ToggleError>(e) && final(self)@ == old(
                    self,
                )@,
                None => r matches Ok(done) && final(self)@ == toggled(old(self)@, group, channel)
                    && done.0 == joins(old(self)@, group, channel) && event_views(done.1@)
                    == toggle_events(toggle_shown(old(self)@, group, channel), channel)
                    + patch_events(toggle_shown(old(self)@, group, channel)),
            },
    {
        if group < 1 || group > DISPATCH_GROUP_COUNT {
            return Err(ToggleError::BadGroup);
        }
        if channel < 1 || channel > CHANNEL_COUNT {
            return Err(ToggleError::BadChannel);
        }
        let i = match self.find_group(group) {
            Some(i) => i,
            None => {
                return Err(ToggleError::NoGroup);
            },
        };
        let ghost groups = self.dispatch_groups@;
        assert(self@.groups[i as int] == self.dispatch_groups@[i as int]@);
        let joined = self.dispatch_groups[i].toggle(channel);
        assert(self@.groups =~= old(self)@.groups.update(
            i as int,
            group_toggled(old(self)@.groups[i as int], channel),
        ));
        self.follow(group, channel, joined);
        assert(self@ == rosters_toggled(old(self)@, group, channel));
        let shown = self.has_patch(channel);
        let found = self.find_channel(channel);
        let mut events: Vec<Event> = Vec::new();
        if let Some(k) = found {
            let ghost before = self.channels@;
            self.channels[k].set_group_shown(shown);
            proof {
                lemma_one_channel(before, self.channels@, k as int, self.channels@[k as int]);
            }
        }
        let ghost mid = self@;
        assert(mid == toggle_shown(old(self)@, group, channel));
        events.push(Event::Matrix { groups: copy_groups(&self.dispatch_groups) });
        if let Some(k) = self.find_channel(channel) {
            assert(self@.channels[k as int] == self.channels@[k as int]@);
            events.push(Event::Update { channel: self.channels[k].copy() });
        }
        assert(event_views(events@) =~= toggle_events(mid, channel));
        let others = self.repatch();
        Ok((joined, join_events(events, others)))
    }

    fn follow(&mut self, group: u32, channel: u32, joined: bool)
        ensures
            final(self)@ == (GatewayView {
                flags: flags_toggled(old(self)@.flags, group, channel, joined),
                ..old(self)@
            }),
    {
        broadcast use vstd::std_specs::hash::group_hash_axioms;

        let key: u64 = make_flag_key(channel, group);
        if self.flags.contains_key(&key) {
            self.flags.insert(key, joined);
        }
    }
}

// ---------------------------------------------------------------------------
// Laws
// ---------------------------------------------------------------------------

/// Toggling twice undoes itself. A channel that is put into a group and taken out
/// again leaves the roster as it was; one that is taken out and put in again leaves
/// the same members, each once, where no channel stood on the roster twice.
pub proof fn law_toggling_twice_restores(ids: Seq<u32>, channel: u32)
    ensures
        !ids.contains(channel) ==> roster_toggled(roster_toggled(ids, channel), channel) == ids,
        ids.no_duplicates() ==> {
            let twice = roster_toggled(roster_toggled(ids, channel), channel);
            twice.no_duplicates() && twice.to_set() == ids.to_set()
        },
{
    if !ids.contains(channel) {
        lemma_joined_and_left(ids, channel);
    }
    if ids.no_duplicates() {
        let once = roster_toggled(ids, channel);
        let twice = roster_toggled(once, channel);
        assert forall|c: u32| #[trigger] twice.contains(c) == ids.contains(c) by {
            law_toggle_changes_one_member(ids, channel, c);
            law_toggle_changes_one_member(once, channel, c);
        }
        law_toggle_changes_one_member(ids, channel, channel);
        law_toggle_changes_one_member(once, channel, channel);
        assert(twice.to_set() =~= ids.to_set());
    }
}

proof fn lemma_joined_and_left(ids: Seq<u32>, channel: u32)
    requires
        !ids.contains(channel),
    ensures
        roster_toggled(roster_toggled(ids, channel), channel) == ids,
{
    lemma_member_from(ids, channel, 0);
    let after = ids.push(channel);
    lemma_member_from(after, channel, 0);
    if let Some(i) = member_from(ids, channel, 0) {
        assert(ids.contains(ids[i]));
    }
    assert(after[ids.len() as int] == channel);
    let i = member_from(after, channel, 0)->0;
    if i < ids.len() {
        assert(after[i] == ids[i]);
        assert(ids.contains(ids[i]));
    }
    assert(after.remove(i) =~= ids);
}

/// Toggling turns the membership of a channel round and leaves that of the others,
/// where no channel stands on the roster twice.
pub proof fn law_toggle_changes_one_member(ids: Seq<u32>, channel: u32, other: u32)
    requires
        ids.no_duplicates(),
    ensures
        roster_toggled(ids, channel).no_duplicates(),
        roster_toggled(ids, channel).contains(channel) == !ids.contains(channel),
        other != channel ==> roster_toggled(ids, channel).contains(other) == ids.contains(other),
{
    lemma_member_from(ids, channel, 0);
    let after = roster_toggled(ids, channel);
    match member_from(ids, channel, 0) {
        Some(i) => {
            assert(ids.contains(ids[i]));
            assert forall|k: int| 0 <= k < after.len() implies after[k] != channel && after[k]
                == ids[if k < i {
                k
            } else {
                k + 1
            }] by {}
            if other != channel && ids.contains(other) {
                let k = choose|k: int| 0 <= k < ids.len() && ids[k] == other;
                assert(after[if k < i {
                    k
                } else {
                    k - 1
                }] == other);
            }
        },
        None => {
            assert(after[ids.len() as int] == channel);
            assert forall|k: int| 0 <= k < ids.len() implies after[k] == ids[k] by {}
            if other != channel && ids.contains(other) {
                let k = choose|k: int| 0 <= k < ids.len() && ids[k] == other;
                assert(after[k] == other);
            }
        },
    }
}

/// A call that is up follows a toggle at once: it takes part in the group exactly
/// where its channel is on the roster then, and in the other groups as before.
pub proof fn law_toggle_takes_effect_at_once(
    g: GatewayView,
    group: u32,
    channel: u32,
    other_group: u32,
)
    requires
        toggle_refusal(g, group, channel) is None,
        g.flags.contains_key(flag_key(channel, group)),
        g.groups[group_index(g.groups, group)->0].member_ids.no_duplicates(),
    ensures
        takes_part(toggled(g, group, channel).flags, channel, group) == on_roster(
            toggled(g, group, channel).groups,
            group,
            channel,
        ),
        other_group != group ==> takes_part(
            toggled(g, group, channel).flags,
            channel,
            other_group,
        ) == takes_part(g.flags, channel, other_group),
{
    let i = group_index(g.groups, group)->0;
    let after = toggled(g, group, channel);
    lemma_group_from(g.groups, group, 0);
    lemma_group_from(after.groups, group, 0);
    law_toggle_changes_one_member(g.groups[i].member_ids, channel, channel);
    lemma_flag_key(channel, group, channel, other_group);
    let k = group_index(after.groups, group)->0;
    assert(after.groups[i].id == group);
    assert(k == i) by {
        if k < i {
            assert(after.groups[k] == g.groups[k]);
        }
    }
}

/// A channel shows that it is patched exactly while its call and that on another
/// channel take part in one group.
pub open spec fn patches_shown(g: GatewayView) -> bool {
    forall|i: int|
        0 <= i < g.channels.len() ==> (#[trigger] g.channels[i]).dispatch_connected == is_patched(
            g,
            g.channels[i].id,
        )
}

/// Whatever the state was, every channel shows whether it is patched once that was
/// looked after, and nothing else has changed; where all showed it, nothing has.
pub proof fn law_patches_are_shown(g: GatewayView)
    ensures
        patches_shown(repatched(g)),
        patches_shown(g) ==> repatched(g) == g && patch_events(g).len() == 0,
        repatched(g).flags == g.flags,
        repatched(g).calls == g.calls,
        repatched(g).groups == g.groups,
        forall|i: int|
            0 <= i < g.channels.len() ==> (ChannelView {
                dispatch_connected: g.channels[i].dispatch_connected,
                ..#[trigger] repatched(g).channels[i]
            }) == g.channels[i],
{
    let h = repatched(g);
    assert forall|i: int| 0 <= i < h.channels.len() implies (
    #[trigger] h.channels[i]).dispatch_connected == is_patched(h, h.channels[i].id) by {
        lemma_same_patches(g, h, h.channels[i].id);
    }
    if patches_shown(g) {
        assert(h.channels =~= g.channels);
        lemma_no_updates(g, g.channels.len());
    }
}

proof fn lemma_no_updates(g: GatewayView, count: nat)
    requires
        patches_shown(g),
        count <= g.channels.len(),
    ensures
        patch_updates(g, count).len() == 0,
    decreases count,
{
    if count > 0 {
        assert(g.channels[count - 1].dispatch_connected == is_patched(g, g.channels[count - 1].id));
        lemma_no_updates(g, (count - 1) as nat);
    }
}

/// A channel is patched where some group has its call and that on another channel.
pub proof fn law_patched_by_a_common_group(g: GatewayView, channel: u32)
    ensures
        is_patched(g, channel) <==> exists|k: int, group: u32|
            0 <= k < g.channels.len() && 1 <= group <= DISPATCH_GROUP_COUNT
                && g.channels[k].id != channel && takes_part(g.flags, channel, group)
                && #[trigger] takes_part(g.flags, g.channels[k].id, group),
{
    reveal(is_patched);
    if is_patched(g, channel) {
        let k = choose|k: int|
            0 <= k < g.channels.len() && (#[trigger] g.channels[k]).id != channel && shares_group(
                g.flags,
                channel,
                g.channels[k].id,
            );
        let other = g.channels[k].id;
        let group: u32 = if takes_part(g.flags, channel, 1) && takes_part(g.flags, other, 1) {
            1
        } else if takes_part(g.flags, channel, 2) && takes_part(g.flags, other, 2) {
            2
        } else if takes_part(g.flags, channel, 3) && takes_part(g.flags, other, 3) {
            3
        } else {
            4
        };
        assert(takes_part(g.flags, g.channels[k].id, group));
    }
    if exists|k: int, group: u32|
        0 <= k < g.channels.len() && 1 <= group <= DISPATCH_GROUP_COUNT && g.channels[k].id
            != channel && takes_part(g.flags, channel, group) && #[trigger] takes_part(
            g.flags,
            g.channels[k].id,
            group,
        ) {
        let (k, group) = choose|k: int, group: u32|
            0 <= k < g.channels.len() && 1 <= group <= DISPATCH_GROUP_COUNT && g.channels[k].id
                != channel && takes_part(g.flags, channel, group) && #[trigger] takes_part(
                g.flags,
                g.channels[k].id,
                group,
            );
        assert(group == 1 || group == 2 || group == 3 || group == 4);
        assert(shares_group(g.flags, channel, g.channels[k].id));
    }
}

/// A channel whose call is alone in every group is not patched, however it is put
/// into one.
pub proof fn law_lone_channel_is_not_patched(g: GatewayView, group: u32, channel: u32)
    requires
        toggle_refusal(g, group, channel) is None,
        forall|k: int, x: u32|
            0 <= k < g.channels.len() && g.channels[k].id != channel
                ==> !#[trigger] takes_part(g.flags, g.channels[k].id, x),
    ensures
        forall|i: int|
            0 <= i < toggled(g, group, channel).channels.len() && (#[trigger] toggled(
                g,
                group,
                channel,
            ).channels[i]).id == channel ==> !toggled(
                g,
                group,
                channel,
            ).channels[i].dispatch_connected,
{
    reveal(is_patched);
    let h = toggle_shown(g, group, channel);
    lemma_channel_from(g.channels, channel, 0);
    assert forall|i: int|
        0 <= i < repatched(h).channels.len() && (#[trigger] repatched(h).channels[i]).id
            == channel implies !repatched(h).channels[i].dispatch_connected by {
        if is_patched(h, channel) {
            let k = choose|k: int|
                0 <= k < h.channels.len() && (#[trigger] h.channels[k]).id != channel
                    && shares_group(h.flags, channel, h.channels[k].id);
            let other = h.channels[k].id;
            assert(g.channels[k].id == other);
            lemma_flag_key(channel, group, other, 1);
            lemma_flag_key(channel, group, other, 2);
            lemma_flag_key(channel, group, other, 3);
            lemma_flag_key(channel, group, other, 4);
            assert(!takes_part(g.flags, g.channels[k].id, 1));
            assert(!takes_part(g.flags, g.channels[k].id, 2));
            assert(!takes_part(g.flags, g.channels[k].id, 3));
            assert(!takes_part(g.flags, g.channels[k].id, 4));
        }
    }
}

/// A call that is set up takes part in exactly the groups whose roster its
/// channel is on.
pub proof fn law_call_starts_in_its_groups(g: GatewayView, channel: u32, group: u32)
    requires
        1 <= group <= DISPATCH_GROUP_COUNT,
    ensures
        takes_part(flags_opened(g.flags, g.groups, channel), channel, group) == on_roster(
            g.groups,
            group,
            channel,
        ),
{
    lemma_flag_key(channel, 1, channel, 2);
    lemma_flag_key(channel, 1, channel, 3);
    lemma_flag_key(channel, 1, channel, 4);
    lemma_flag_key(channel, 2, channel, 3);
    lemma_flag_key(channel, 2, channel, 4);
    lemma_flag_key(channel, 3, channel, 4);
    assert(group == 1 || group == 2 || group == 3 || group == 4);
}

// ---------------------------------------------------------------------------
// What the groups come to
// ---------------------------------------------------------------------------

/// The groups of a channel are those on whose roster it stands, and no others.
pub proof fn law_groups_are_told_by_rosters(groups: Seq<GroupView>, channel: u32, group: u32)
    ensures
        groups_of(groups, channel).contains(group) <==> exists|k: int|
            0 <= k < groups.len() && (#[trigger] groups[k]).id == group
                && groups[k].member_ids.contains(channel),
    decreases groups.len(),
{
    if groups.len() > 0 {
        let head = groups.drop_last();
        law_groups_are_told_by_rosters(head, channel, group);
        let earlier = groups_of(head, channel);
        let all = groups_of(groups, channel);
        let last = groups.last();
        if all.contains(group) {
            let j = choose|j: int| 0 <= j < all.len() && all[j] == group;
            if j < earlier.len() {
                assert(earlier[j] == group);
                assert(earlier.contains(group));
                let k = choose|k: int|
                    0 <= k < head.len() && (#[trigger] head[k]).id == group
                        && head[k].member_ids.contains(channel);
                assert(groups[k].id == group);
            } else {
                assert(groups[groups.len() - 1].id == group);
            }
        }
        if exists|k: int|
            0 <= k < groups.len() && (#[trigger] groups[k]).id == group
                && groups[k].member_ids.contains(channel) {
            let k = choose|k: int|
                0 <= k < groups.len() && (#[trigger] groups[k]).id == group
                    && groups[k].member_ids.contains(channel);
            if k < head.len() {
                assert(head[k].id == group);
                assert(earlier.contains(group));
                let j = choose|j: int| 0 <= j < earlier.len() && earlier[j] == group;
                assert(all[j] == group);
            } else {
                assert(all[all.len() - 1] == group);
            }
        }
    }
}

/// A call takes part in the groups whose flag is set for it, which are told in the order
/// of their numbers.
#[verifier::rlimit(40)]
#[verifier::spinoff_prover]
pub proof fn law_live_groups_are_flagged(flags: Map<u64, bool>, channel: u32, count: nat)
    requires
        count <= 0xffff_ffff,
    ensures
        ({
            let live = live_among(flags, channel, count);
            &&& forall|group: u32| #[trigger]
                live.contains(group) <==> 1 <= group <= count && flags.contains_pair(
                    (channel * 0x1_0000_0000 + group) as u64,
                    true,
                )
            &&& forall|j: int, k: int| 0 <= j < k < live.len() ==> live[j] < live[k]
        }),
    decreases count,
{
    if count > 0 {
        law_live_groups_are_flagged(flags, channel, (count - 1) as nat);
        let earlier = live_among(flags, channel, (count - 1) as nat);
        let live = live_among(flags, channel, count);
        assert forall|group: u32| #[trigger]
            live.contains(group) <==> 1 <= group <= count && flags.contains_pair(
                (channel * 0x1_0000_0000 + group) as u64,
                true,
            ) by {
            if live.contains(group) {
                let j = choose|j: int| 0 <= j < live.len() && live[j] == group;
                if j < earlier.len() {
                    assert(earlier[j] == group);
                    assert(earlier.contains(group));
                }
            }
            if 1 <= group <= count && flags.contains_pair(
                (channel * 0x1_0000_0000 + group) as u64,
                true,
            ) {
                if group < count {
                    assert(earlier.contains(group));
                    let j = choose|j: int| 0 <= j < earlier.len() && earlier[j] == group;
                    assert(live[j] == group);
                } else {
                    assert(live[live.len() - 1] == group);
                }
            }
        }
        assert forall|j: int, k: int| 0 <= j < k < live.len() implies live[j] < live[k] by {
            if k == earlier.len() {
                assert(earlier.contains(earlier[j]));
                assert(live[k] == count);
            }
        }
    }
}

/// The outside party of a group is the one that its settings name, where they are on and
/// complete; it sends to the port that is set, or to one by the group's number.
pub proof fn law_outside_party_follows_the_settings(g: GatewayView, group: u32, i: int)
    requires
        0 <= i < g.groups.len(),
        g.groups[i].id == group,
        forall|k: int| 0 <= k < i ==> (#[trigger] g.groups[k]).id != group,
        1 <= group <= 4,
    ensures
        ({
            let set = g.groups[i];
            let plan = mirror_plan(g, group);
            &&& plan is Some <==> set.mirror_enabled && set.mirror_port >= 1 && trimmed(
                set.mirror_ip,
            ).len() > 0
            &&& plan matches Some(p) ==> {
                &&& p.0 == set.mirror_ip
                &&& p.1 == set.mirror_port
                &&& set.mirror_local_port matches Some(l) ==> p.2 == l
                &&& set.mirror_local_port is None ==> p.2 == 11002 + 2 * group
            }
        }),
{
    lemma_group_from(g.groups, group, 0);
}

/// The console is told of each channel that begins or ceases to show as patched, as it
/// shows now, and of no other.
pub proof fn law_patch_changes_are_told(g: GatewayView, channel: ChannelView)
    ensures
        patch_events(g).contains(EventView::Update { channel }) <==> exists|k: int|
            0 <= k < g.channels.len() && #[trigger] repatched(g).channels[k] == channel
                && g.channels[k].dispatch_connected != channel.dispatch_connected,
{
    lemma_patch_updates(g, g.channels.len(), channel);
    if exists|k: int| 0 <= k < g.channels.len() && #[trigger] turns_to(g, k, channel) {
        let k = choose|k: int| 0 <= k < g.channels.len() && #[trigger] turns_to(g, k, channel);
        assert(repatched(g).channels[k] == channel);
    }
    if exists|k: int|
        0 <= k < g.channels.len() && #[trigger] repatched(g).channels[k] == channel
            && g.channels[k].dispatch_connected != channel.dispatch_connected {
        let k = choose|k: int|
            0 <= k < g.channels.len() && #[trigger] repatched(g).channels[k] == channel
                && g.channels[k].dispatch_connected != channel.dispatch_connected;
        assert(turns_to(g, k, channel));
    }
}

/// Whether a channel shows otherwise now, and as what.
spec fn turns_to(g: GatewayView, k: int, channel: ChannelView) -> bool {
    let c = g.channels[k];
    c.dispatch_connected != is_patched(g, c.id) && channel == patch_shown(c, is_patched(g, c.id))
}

#[verifier::rlimit(40)]
#[verifier::spinoff_prover]
proof fn lemma_patch_updates(g: GatewayView, count: nat, channel: ChannelView)
    requires
        count <= g.channels.len(),
    ensures
        patch_updates(g, count).contains(EventView::Update { channel }) <==> exists|k: int|
            0 <= k < count && #[trigger] turns_to(g, k, channel),
    decreases count,
{
    if count > 0 {
        let n = (count - 1) as nat;
        lemma_patch_updates(g, n, channel);
        let e = EventView::Update { channel };
        let earlier = patch_updates(g, n);
        let all = patch_updates(g, count);
        if all.contains(e) {
            let j = choose|j: int| 0 <= j < all.len() && all[j] == e;
            if j < earlier.len() {
                assert(earlier[j] == e);
                assert(earlier.contains(e));
            } else {
                assert(turns_to(g, n as int, channel));
            }
        }
        if exists|k: int| 0 <= k < count && #[trigger] turns_to(g, k, channel) {
            let k = choose|k: int| 0 <= k < count && #[trigger] turns_to(g, k, channel);
            if k < n {
                assert(earlier.contains(e));
                let j = choose|j: int| 0 <= j < earlier.len() && earlier[j] == e;
                assert(all[j] == e);
            } else {
                assert(all[all.len() - 1] == e);
            }
        }
    }
}

/// A toggle is refused for a group other than 1 to 4, for a channel other than 1 to 12,
/// and for a group that is not there, in this order; any other is done.
pub proof fn law_toggle_is_refused(g: GatewayView, group: u32, channel: u32)
    ensures
        group < 1 || group > 4 ==> toggle_refusal(g, group, channel) == Some(ToggleError::BadGroup),
        1 <= group <= 4 && (channel < 1 || channel > 12) ==> toggle_refusal(g, group, channel)
            == Some(ToggleError::BadChannel),
        1 <= group <= 4 && 1 <= channel <= 12 ==> match toggle_refusal(g, group, channel) {
            Some(e) => e == ToggleError::NoGroup && forall|k: int|
                0 <= k < g.groups.len() ==> (#[trigger] g.groups[k]).id != group,
            None => exists|k: int| 0 <= k < g.groups.len() && (#[trigger] g.groups[k]).id == group,
        },
{
    lemma_group_from(g.groups, group, 0);
    if let Some(k) = group_index(g.groups, group) {
        assert(g.groups[k].id == group);
    }
}

/// A toggle changes the roster of one group and the part of one channel in it, and
/// nothing else of any group or call; a channel without a call gets no part by it. The
/// console is told of all groups as they are then.
#[verifier::rlimit(40)]
#[verifier::spinoff_prover]
pub proof fn law_toggle_leaves_the_rest(
    g: GatewayView,
    group: u32,
    channel: u32,
    i: int,
    key: u64,
)
    requires
        0 <= i < g.groups.len(),
        g.groups[i].id == group,
        forall|k: int| 0 <= k < i ==> (#[trigger] g.groups[k]).id != group,
    ensures
        ({
            let after = toggled(g, group, channel);
            &&& after.calls == g.calls
            &&& after.groups.len() == g.groups.len()
            &&& forall|k: int|
                0 <= k < g.groups.len() && k != i ==> #[trigger] after.groups[k] == g.groups[k]
            &&& after.groups[i] == (GroupView {
                member_ids: after.groups[i].member_ids,
                ..g.groups[i]
            })
            &&& key != channel * 0x1_0000_0000 + group ==> after.flags.contains_key(key)
                == g.flags.contains_key(key) && after.flags[key] == g.flags[key]
            &&& after.flags.dom() == g.flags.dom()
            &&& g.flags.contains_key((channel * 0x1_0000_0000 + group) as u64) ==> after.flags[(
            channel * 0x1_0000_0000 + group) as u64] == !g.groups[i].member_ids.contains(channel)
            &&& toggle_events(toggle_shown(g, group, channel), channel)[0] == (EventView::Matrix {
                groups: after.groups,
            })
        }),
{
    lemma_group_from(g.groups, group, 0);
    let after = toggled(g, group, channel);
    assert(after.flags.dom() =~= g.flags.dom());
}

} // verus!
