//! What the gateway reports of its calls while they last.

use crate::calls::lemma_one_channel;
use crate::console::tells_change;
use crate::events::{blank_patch, event_views, ChannelPatch, Event, EventView, PatchView};
use crate::state::{
    with_channel, Channel, ChannelStatus, ChannelView, Gateway, GatewayView,
};
use crate::text::{str_same, strings};
use vstd::prelude::*;
use vstd::string::*;

verus! {

// ---------------------------------------------------------------------------
// Levels
// ---------------------------------------------------------------------------

/// How a level moves.
#[derive(Debug, Clone, Copy, PartialEq, Eq, Structural)]
pub enum LevelStep {
    /// It falls.
    Fall,
    /// It jumps to a value.
    Jump(u32),
    /// It moves by a little, between 20 and 80.
    Drift(i32),
}

/// A value in two's complement.
pub open spec fn signed(n: u32) -> int {
    if n < 0x8000_0000 {
        n as int
    } else {
        n - 0x1_0000_0000
    }
}

/// A value moved by a step and kept between two bounds.
pub open spec fn moved(n: u32, step: i32, low: int, high: int) -> int {
    let sum = signed(n) + step;
    if sum < low {
        low
    } else if sum > high {
        high
    } else {
        sum
    }
}

/// The sum of a value and a step is a number of 32 bits.
pub open spec fn step_fits(n: u32, step: i32) -> bool {
    -0x8000_0000 <= signed(n) + step <= 0x7fff_ffff
}

fn move_value(n: u32, step: i32, low: u32, high: u32) -> (r: u32)
    requires
        step_fits(n, step),
        low <= high,
    ensures
        r == moved(n, step, low as int, high as int),
{
    let value: i64 = if n < 0x8000_0000 {
        n as i64
    } else {
        n as i64 - 0x1_0000_0000
    };
    let sum: i64 = value + step as i64;
    if sum < low as i64 {
        low
    } else if sum > high as i64 {
        high
    } else {
        sum as u32
    }
}

/// A level once it moved.
pub open spec fn level_after(level: u32, step: LevelStep) -> u32 {
    match step {
        LevelStep::Fall => if level < 20 {
            0
        } else {
            (level - 20) as u32
        },
        LevelStep::Jump(v) => v,
        LevelStep::Drift(d) => moved(level, d, 20, 80) as u32,
    }
}

/// A level can move: a drift stays among the numbers of 32 bits.
pub open spec fn level_moves(level: u32, step: LevelStep) -> bool {
    step matches LevelStep::Drift(d) ==> step_fits(level, d)
}

fn move_level(level: u32, step: LevelStep) -> (r: u32)
    requires
        level_moves(level, step),
    ensures
        r == level_after(level, step),
{
    match step {
        LevelStep::Fall => if level < 20 {
            0
        } else {
            level - 20
        },
        LevelStep::Jump(v) => v,
        LevelStep::Drift(d) => move_value(level, d, 20, 80),
    }
}

/// A drifting level stays between 20 and 80.
pub proof fn law_drift_is_bounded(level: u32, d: i32)
    ensures
        20 <= level_after(level, LevelStep::Drift(d)) <= 80,
{
}

// ---------------------------------------------------------------------------
// Ticks
// ---------------------------------------------------------------------------

/// A channel a second later: its call is a second longer, and the delay and its
/// spread have moved.
pub open spec fn second_later(c: ChannelView, latency: i32, jitter: i32) -> ChannelView {
    ChannelView {
        duration: (c.duration + 1) as u32,
        latency: moved(c.latency, latency, 10, 120) as u32,
        jitter: moved(c.jitter, jitter, 1, 20) as u32,
        tx_kbps: if c.ptt_active {
            80
        } else {
            0
        },
        ..c
    }
}

/// What is announced of it.
pub open spec fn second_patch(c: ChannelView) -> PatchView {
    PatchView {
        duration: Some(c.duration),
        latency: Some(c.latency),
        jitter: Some(c.jitter),
        tx_kbps: Some(c.tx_kbps),
        ptt_active: Some(c.ptt_active),
        ..blank_patch(c.id)
    }
}

/// The numbers of a channel's call have room for another second.
pub open spec fn second_fits(c: ChannelView, latency: i32, jitter: i32) -> bool {
    c.duration < u32::MAX && step_fits(c.latency, latency) && step_fits(c.jitter, jitter)
}

/// The state after a level moved, and what is announced of it.
pub open spec fn level_ticked(g: GatewayView, i: int, step: LevelStep) -> (
    GatewayView,
    Option<EventView>,
) {
    let c = g.channels[i];
    let value = level_after(c.audio_level, step);
    if c.status is Connected {
        (
            with_channel(g, i, ChannelView { audio_level: value, ..c }),
            Some(EventView::AudioLevel { id: c.id, value }),
        )
    } else {
        (g, None)
    }
}

/// The state a second later, and what is announced of it.
pub open spec fn second_ticked(g: GatewayView, i: int, latency: i32, jitter: i32) -> (
    GatewayView,
    Option<EventView>,
) {
    let c = g.channels[i];
    let later = second_later(c, latency, jitter);
    if c.status is Connected {
        (with_channel(g, i, later), Some(EventView::Patch { patch: second_patch(later) }))
    } else {
        (g, None)
    }
}

/// What tells of channels as they are.
pub open spec fn updates_of(s: Seq<ChannelView>) -> Seq<EventView> {
    s.map_values(|c: ChannelView| EventView::Update { channel: c })
}

/// How many channels have a call that is up, of the first so many.
pub open spec fn connected_among(s: Seq<ChannelView>, count: int) -> nat
    decreases count,
{
    if count <= 0 {
        0
    } else {
        connected_among(s, count - 1) + if s[count - 1].status is Connected {
            1nat
        } else {
            0nat
        }
    }
}

impl Channel {
    fn is_connected(&self) -> (r: bool)
        ensures
            r == self@.status is Connected,
    {
        match self.status {
            ChannelStatus::Connected => true,
            _ => false,
        }
    }

    fn set_level_after(&mut self, step: LevelStep)
        requires
            level_moves(old(self)@.audio_level, step),
        ensures
            final(self)@ == (ChannelView {
                audio_level: level_after(old(self)@.audio_level, step),
                ..old(self)@
            }),
    {
        self.audio_level = move_level(self.audio_level, step);
    }

    fn set_second_later(&mut self, latency: i32, jitter: i32)
        requires
            second_fits(old(self)@, latency, jitter),
        ensures
            final(self)@ == second_later(old(self)@, latency, jitter),
    {
        self.duration = self.duration + 1;
        self.latency = move_value(self.latency, latency, 10, 120);
        self.jitter = move_value(self.jitter, jitter, 1, 20);
        self.tx_kbps = if self.ptt_active {
            80
        } else {
            0
        };
    }

    fn second_event(&self) -> (r: Event)
        ensures
            r@ == (EventView::Patch { patch: second_patch(self@) }),
    {
        let mut patch = ChannelPatch::blank(self.id);
        patch.duration = Some(self.duration);
        patch.latency = Some(self.latency);
        patch.jitter = Some(self.jitter);
        patch.tx_kbps = Some(self.tx_kbps);
        patch.ptt_active = Some(self.ptt_active);
        Event::Patch { patch }
    }
}

impl Gateway {
    /// Moves the level of the channel at a place, if its call is up, and announces
    /// it.
    pub fn move_channel_level(&mut self, i: usize, step: LevelStep) -> (r: Option<Event>)
        requires
            i < old(self)@.channels.len(),
            old(self)@.channels[i as int].status is Connected ==> level_moves(
                old(self)@.channels[i as int].audio_level,
                step,
            ),
        ensures
            match r {
                Some(e) => (final(self)@, Some(e@)) == level_ticked(old(self)@, i as int, step),
                None => (final(self)@, None::<EventView>) == level_ticked(old(self)@, i as int, step),
            },
    {
        assert(self@.channels[i as int] == self.channels@[i as int]@);
        if !self.channels[i].is_connected() {
            return None;
        }
        let ghost before = self.channels@;
        self.channels[i].set_level_after(step);
        proof {
            lemma_one_channel(before, self.channels@, i as int, self.channels@[i as int]);
        }
        Some(Event::AudioLevel { id: self.channels[i].id, value: self.channels[i].audio_level })
    }

    /// Lets a second pass on the channel at a place, if its call is up, and
    /// announces it.
    pub fn pass_second(&mut self, i: usize, latency: i32, jitter: i32) -> (r: Option<Event>)
        requires
            i < old(self)@.channels.len(),
            old(self)@.channels[i as int].status is Connected ==> second_fits(
                old(self)@.channels[i as int],
                latency,
                jitter,
            ),
        ensures
            match r {
                Some(e) => (final(self)@, Some(e@)) == second_ticked(
                    old(self)@,
                    i as int,
                    latency,
                    jitter,
                ),
                None => (final(self)@, None::<EventView>) == second_ticked(
                    old(self)@,
                    i as int,
                    latency,
                    jitter,
                ),
            },
    {
        assert(self@.channels[i as int] == self.channels@[i as int]@);
        if !self.channels[i].is_connected() {
            return None;
        }
        let ghost before = self.channels@;
        self.channels[i].set_second_later(latency, jitter);
        proof {
            lemma_one_channel(before, self.channels@, i as int, self.channels@[i as int]);
        }
        Some(self.channels[i].second_event())
    }

    /// How many calls are up.
    pub fn connected_count(&self) -> (r: usize)
        ensures
            r == connected_among(self@.channels, self@.channels.len() as int),
    {
        let mut n: usize = 0;
        let mut i: usize = 0;
        while i < self.channels.len()
            invariant
                i <= self.channels@.len(),
                n <= i,
                n == connected_among(self@.channels, i as int),
            decreases self.channels@.len() - i,
        {
            assert(self@.channels[i as int] == self.channels@[i as int]@);
            if self.channels[i].is_connected() {
                n += 1;
            }
            i += 1;
        }
        n
    }

    /// What a new console is told: every channel as it is.
    pub fn all_updates(&self) -> (r: Vec<Event>)
        ensures
            event_views(r@) == updates_of(self@.channels),
    {
        let mut events: Vec<Event> = Vec::new();
        let mut i: usize = 0;
        while i < self.channels.len()
            invariant
                i <= self.channels@.len(),
                events@.len() == i,
                forall|k: int|
                    0 <= k < i ==> (#[trigger] events@[k])@ == (EventView::Update {
                        channel: self@.channels[k],
                    }),
            decreases self.channels@.len() - i,
        {
            assert(self@.channels[i as int] == self.channels@[i as int]@);
            events.push(Event::Update { channel: self.channels[i].copy() });
            i += 1;
        }
        assert(event_views(events@) =~= self@.channels.map_values(
            |c: ChannelView| EventView::Update { channel: c },
        ));
        events
    }
}

// ---------------------------------------------------------------------------
// Devices
// ---------------------------------------------------------------------------

/// A list without what repeats the entry before it.
pub open spec fn without_repeats(s: Seq<Seq<char>>) -> Seq<Seq<char>>
    decreases s.len(),
{
    if s.len() < 2 {
        s
    } else if s.last() == s[s.len() - 2] {
        without_repeats(s.drop_last())
    } else {
        without_repeats(s.drop_last()).push(s.last())
    }
}

/// The devices that can be chosen: those that were found, or the default one.
pub open spec fn devices_shown(found: Seq<Seq<char>>) -> Seq<Seq<char>> {
    if found.len() == 0 {
        seq!["Default System Audio Input"@]
    } else {
        without_repeats(found)
    }
}

/// The devices that can be chosen, by the names that were found.
pub fn show_devices(found: &Vec<String>) -> (r: Vec<String>)
    ensures
        strings(r@) == devices_shown(strings(found@)),
{
    let mut r: Vec<String> = Vec::new();
    if found.len() == 0 {
        r.push("Default System Audio Input".to_owned());
        assert(strings(r@) =~= devices_shown(strings(found@)));
        return r;
    }
    let ghost names = strings(found@);
    let mut i: usize = 0;
    assert(strings(r@) =~= without_repeats(names.take(0)));
    while i < found.len()
        invariant
            i <= found@.len(),
            names == strings(found@),
            strings(r@) == without_repeats(names.take(i as int)),
        decreases found@.len() - i,
    {
        let ghost part = names.take(i as int + 1);
        let ghost before = r@;
        assert(part.drop_last() =~= names.take(i as int));
        assert(part.last() == found@[i as int]@);
        if i > 0 {
            assert(part[part.len() - 2] == found@[i - 1]@);
        }
        if i == 0 || !str_same(found[i].as_str(), found[i - 1].as_str()) {
            r.push(found[i].clone());
            assert(strings(r@) =~= strings(before).push(found@[i as int]@));
            if i == 0 {
                assert(part =~= seq![found@[0]@]);
                assert(strings(before) =~= Seq::<Seq<char>>::empty());
                assert(strings(r@) =~= part);
            }
        }
        i += 1;
    }
    assert(names.take(names.len() as int) =~= names);
    r
}

/// A second makes a call a second longer and moves its delay and the spread of it by the
/// steps given, within 10 to 120 and 1 to 20; it shows as sending exactly while it is
/// keyed, and all else stays.
pub proof fn law_second_passes(c: ChannelView, latency: i32, jitter: i32)
    requires
        second_fits(c, latency, jitter),
        c.latency <= 0x7fff_ffff,
        c.jitter <= 0x7fff_ffff,
    ensures
        ({
            let later = second_later(c, latency, jitter);
            &&& later.duration == c.duration + 1
            &&& 10 <= later.latency <= 120
            &&& 1 <= later.jitter <= 20
            &&& 10 <= c.latency + latency <= 120 ==> later.latency == c.latency + latency
            &&& c.latency + latency < 10 ==> later.latency == 10
            &&& c.latency + latency > 120 ==> later.latency == 120
            &&& 1 <= c.jitter + jitter <= 20 ==> later.jitter == c.jitter + jitter
            &&& c.jitter + jitter < 1 ==> later.jitter == 1
            &&& c.jitter + jitter > 20 ==> later.jitter == 20
            &&& c.ptt_active ==> later.tx_kbps == 80
            &&& !c.ptt_active ==> later.tx_kbps == 0
            &&& later == (ChannelView {
                duration: later.duration,
                latency: later.latency,
                jitter: later.jitter,
                tx_kbps: later.tx_kbps,
                ..c
            })
            &&& tells_change(second_patch(later), c, later)
        }),
{
}

/// A level falls by 20 down to nothing, jumps to what it is told, and drifts by the step
/// given within 20 to 80.
pub proof fn law_level_moves(level: u32, value: u32, d: i32)
    ensures
        level >= 20 ==> level_after(level, LevelStep::Fall) == level - 20,
        level < 20 ==> level_after(level, LevelStep::Fall) == 0,
        level_after(level, LevelStep::Jump(value)) == value,
        level <= 0x7fff_ffff && 20 <= level + d <= 80 ==> level_after(level, LevelStep::Drift(d))
            == level + d,
        level <= 0x7fff_ffff && level + d < 20 ==> level_after(level, LevelStep::Drift(d)) == 20,
        level <= 0x7fff_ffff && level + d > 80 ==> level_after(level, LevelStep::Drift(d)) == 80,
{
}

/// The calls that are up are counted: as many as there are channels that are connected.
pub proof fn law_connected_are_counted(s: Seq<ChannelView>)
    ensures
        connected_among(s, s.len() as int) == s.filter(
            |c: ChannelView| c.status == ChannelStatus::Connected,
        ).len(),
{
    lemma_counted(s, s.len() as int);
    assert(s.take(s.len() as int) =~= s);
}

proof fn lemma_counted(s: Seq<ChannelView>, n: int)
    requires
        0 <= n <= s.len(),
    ensures
        connected_among(s, n) == s.take(n).filter(
            |c: ChannelView| c.status == ChannelStatus::Connected,
        ).len(),
    decreases n,
{
    reveal(Seq::filter);
    if n > 0 {
        lemma_counted(s, n - 1);
        assert(s.take(n).drop_last() =~= s.take(n - 1));
        assert(s.take(n).last() == s[n - 1]);
    }
}

/// The devices that are shown are those that were found, in their order, none twice in a
/// row; where none was found there is one for the system's own.
#[verifier::rlimit(40)]
#[verifier::spinoff_prover]
pub proof fn law_devices_are_shown(found: Seq<Seq<char>>)
    ensures
        found.len() == 0 ==> devices_shown(found) == seq!["Default System Audio Input"@],
        found.len() > 0 ==> {
            let shown = devices_shown(found);
            &&& 0 < shown.len() <= found.len()
            &&& shown.last() == found.last()
            &&& forall|d: Seq<char>| #[trigger] shown.contains(d) <==> found.contains(d)
            &&& forall|k: int| 0 < k < shown.len() ==> #[trigger] shown[k] != shown[k - 1]
            &&& (forall|k: int| 0 < k < found.len() ==> #[trigger] found[k] != found[k - 1])
                ==> shown == found
        },
{
    if found.len() > 0 {
        lemma_without_repeats(found);
    }
}

#[verifier::rlimit(40)]
#[verifier::spinoff_prover]
proof fn lemma_without_repeats(s: Seq<Seq<char>>)
    requires
        s.len() > 0,
    ensures
        ({
            let shown = without_repeats(s);
            &&& 0 < shown.len() <= s.len()
            &&& shown.last() == s.last()
            &&& forall|d: Seq<char>| #[trigger] shown.contains(d) <==> s.contains(d)
            &&& forall|k: int| 0 < k < shown.len() ==> #[trigger] shown[k] != shown[k - 1]
            &&& (forall|k: int| 0 < k < s.len() ==> #[trigger] s[k] != s[k - 1]) ==> shown == s
        }),
    decreases s.len(),
{
    if s.len() >= 2 {
        let head = s.drop_last();
        lemma_without_repeats(head);
        let earlier = without_repeats(head);
        let shown = without_repeats(s);
        assert forall|d: Seq<char>| #[trigger] shown.contains(d) <==> s.contains(d) by {
            if s.contains(d) {
                let k = choose|k: int| 0 <= k < s.len() && s[k] == d;
                if k < head.len() {
                    assert(head[k] == d);
                    assert(earlier.contains(d));
                    let j = choose|j: int| 0 <= j < earlier.len() && earlier[j] == d;
                    assert(shown[j] == d);
                } else if s.last() == s[s.len() - 2] {
                    assert(head[s.len() - 2] == d);
                    assert(earlier.contains(d));
                } else {
                    assert(shown[shown.len() - 1] == d);
                }
            }
            if shown.contains(d) {
                let j = choose|j: int| 0 <= j < shown.len() && shown[j] == d;
                if j < earlier.len() {
                    assert(earlier[j] == d);
                    assert(earlier.contains(d));
                    assert(head.contains(d));
                    let k = choose|k: int| 0 <= k < head.len() && head[k] == d;
                    assert(s[k] == d);
                } else {
                    assert(s[s.len() - 1] == d);
                }
            }
        }
        if forall|k: int| 0 < k < s.len() ==> #[trigger] s[k] != s[k - 1] {
            assert forall|k: int| 0 < k < head.len() implies #[trigger] head[k] != head[k - 1] by {
                assert(s[k] != s[k - 1]);
            }
            assert(s[s.len() - 1] != s[s.len() - 2]);
            assert(shown =~= s);
        }
    }
}

/// The ticks of a second and of a level touch the channel that they are for, and only
/// while its call is up; then they are announced, and nothing else changes.
pub proof fn law_ticks_touch_calls_that_are_up(
    g: GatewayView,
    i: int,
    step: LevelStep,
    latency: i32,
    jitter: i32,
)
    requires
        0 <= i < g.channels.len(),
    ensures
        ({
            let c = g.channels[i];
            let (level, told) = level_ticked(g, i, step);
            let (second, said) = second_ticked(g, i, latency, jitter);
            &&& c.status == ChannelStatus::Connected ==> {
                &&& level.channels[i] == (ChannelView {
                    audio_level: level_after(c.audio_level, step),
                    ..c
                })
                &&& told == Some(
                    EventView::AudioLevel { id: c.id, value: level.channels[i].audio_level },
                )
                &&& second.channels[i] == second_later(c, latency, jitter)
                &&& said matches Some(EventView::Patch { patch }) && patch == second_patch(
                    second.channels[i],
                )
            }
            &&& c.status != ChannelStatus::Connected ==> level == g && second == g && told is None
                && said is None
            &&& forall|k: int|
                0 <= k < g.channels.len() && k != i ==> (#[trigger] level.channels[k])
                    == g.channels[k] && second.channels[k] == g.channels[k]
            &&& level.channels.len() == g.channels.len() && second.channels.len()
                == g.channels.len()
            &&& level.calls == g.calls && second.calls == g.calls
            &&& level.flags == g.flags && second.flags == g.flags
        }),
{
}

/// A console that begins to listen is told of every channel, in their order.
pub proof fn law_every_channel_is_told(s: Seq<ChannelView>, k: int)
    requires
        0 <= k < s.len(),
    ensures
        updates_of(s).len() == s.len(),
        updates_of(s)[k] == (EventView::Update { channel: s[k] }),
{
}

} // verus!
