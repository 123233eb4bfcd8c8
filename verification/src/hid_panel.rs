//! The Aquilla 12 control surface: its reports, its buttons, and what they do.
//!
//! The device has twelve rotary encoders, a push-switch in each, and four
//! push-to-talk buttons. A report is fourteen bytes: twelve signed encoder
//! deltas and a 16-bit button bitmap, its low byte first. Reports become actions
//! here; the caller performs each action on the engine and announces it.

use vstd::prelude::*;

verus! {

/// The vendor identifier of the device.
pub const VENDOR_ID: u16 = 0x1209;

/// The product identifier of the device.
pub const DEFAULT_PRODUCT_ID: u16 = 0xA612;

/// The length of a report, in bytes.
pub const REPORT_LEN: usize = 14;

/// How many encoders the panel has.
pub const NUM_ENCODERS: usize = 12;

/// How many keys for transmission the panel has.
pub const NUM_PTT_BUTTONS: usize = 4;

/// The bit of the first push-to-talk button; the encoder switches come before.
pub const PTT_BUTTON_BASE_BIT: u32 = 12;

// ---------------------------------------------------------------------------
// Reports
// ---------------------------------------------------------------------------

/// One report of the device.
#[derive(Debug, Clone, Copy, PartialEq, Eq)]
pub struct HidReport {
    /// How far each encoder was turned since the last report.
    pub deltas: [i8; 12],
    /// The buttons that are held: bits 0 to 11 the encoder switches, bits 12 to
    /// 15 the push-to-talk buttons.
    pub buttons: u16,
}

impl Default for HidReport {
    fn default() -> (r: Self)
        ensures
            r.buttons == 0,
            forall|i: int| 0 <= i < 12 ==> r.deltas@[i] == 0,
    {
        HidReport { deltas: [0i8; 12], buttons: 0 }
    }
}

/// A report that is too short.
#[derive(Debug, Clone, Copy, PartialEq, Eq, Structural)]
pub struct ReportParseError {
    pub got_len: usize,
}

/// A byte taken as a signed number.
pub open spec fn signed(b: u8) -> int {
    if b < 128 {
        b as int
    } else {
        b - 256
    }
}

fn to_signed(b: u8) -> (r: i8)
    ensures
        r == signed(b),
{
    if b < 128 {
        b as i8
    } else {
        (b as i16 - 256) as i8
    }
}

/// Reads a report from the first fourteen bytes of a buffer; a shorter buffer is
/// refused.
pub fn parse_report(buf: &[u8]) -> (r: Result<HidReport, ReportParseError>)
    ensures
        match r {
            Ok(report) => {
                &&& buf@.len() >= REPORT_LEN
                &&& forall|i: int| 0 <= i < 12 ==> report.deltas@[i] == signed(buf@[i])
                &&& report.buttons == buf@[12] + buf@[13] * 256
            },
            Err(e) => buf@.len() < REPORT_LEN && e.got_len == buf@.len(),
        },
{
    if buf.len() < REPORT_LEN {
        return Err(ReportParseError { got_len: buf.len() });
    }
    let mut deltas: [i8; 12] = [0i8; 12];
    let mut i: usize = 0;
    while i < 12
        invariant
            i <= 12,
            buf@.len() >= 14,
            forall|k: int| 0 <= k < i ==> deltas@[k] == signed(buf@[k]),
        decreases 12 - i,
    {
        deltas[i] = to_signed(buf[i]);
        i += 1;
    }
    let buttons: u16 = buf[12] as u16 + buf[13] as u16 * 256;
    Ok(HidReport { deltas, buttons })
}

// ---------------------------------------------------------------------------
// Edges
// ---------------------------------------------------------------------------

/// A button of the device.
#[derive(Debug, Clone, Copy, PartialEq, Eq, Structural)]
pub enum ButtonKind {
    /// The push-switch of an encoder, 0 to 11.
    EncoderSwitch(u8),
    /// A push-to-talk button, 0 to 3.
    Ptt(u8),
}

/// A button that was pressed or released.
#[derive(Debug, Clone, Copy, PartialEq, Eq, Structural)]
pub struct ButtonEdge {
    pub kind: ButtonKind,
    pub pressed: bool,
}

/// The button that a bit of the bitmap stands for.
pub open spec fn kind_of_bit(bit: int) -> ButtonKind {
    if bit < 12 {
        ButtonKind::EncoderSwitch(bit as u8)
    } else {
        ButtonKind::Ptt((bit - 12) as u8)
    }
}

/// The button that a bit of the bitmap stands for.
pub fn bit_to_kind(bit: u32) -> (r: ButtonKind)
    requires
        bit < 16,
    ensures
        r == kind_of_bit(bit as int),
{
    if bit < PTT_BUTTON_BASE_BIT {
        ButtonKind::EncoderSwitch(bit as u8)
    } else {
        ButtonKind::Ptt((bit - PTT_BUTTON_BASE_BIT) as u8)
    }
}

/// Whether a bit of a bitmap is set.
pub open spec fn held_bit(buttons: u16, bit: int) -> bool {
    buttons & (1u16 << bit as u16) != 0
}

/// The buttons that differ between two bitmaps, from bit `bit` on, in the order
/// of their bits.
pub open spec fn edges_from(prev: u16, next: u16, bit: int) -> Seq<ButtonEdge>
    decreases 16 - bit,
{
    if bit >= 16 {
        Seq::empty()
    } else if held_bit(prev, bit) != held_bit(next, bit) {
        seq![ButtonEdge { kind: kind_of_bit(bit), pressed: held_bit(next, bit) }] + edges_from(
            prev,
            next,
            bit + 1,
        )
    } else {
        edges_from(prev, next, bit + 1)
    }
}

/// The buttons that differ between two bitmaps.
pub open spec fn edges_between(prev: u16, next: u16) -> Seq<ButtonEdge> {
    edges_from(prev, next, 0)
}

/// Turns bitmaps into presses and releases, so that a held button acts once.
#[derive(Debug)]
pub struct EdgeDetector {
    prev: u16,
}

impl Default for EdgeDetector {
    fn default() -> (r: Self)
        ensures
            r.last() == 0,
    {
        EdgeDetector { prev: 0 }
    }
}

impl EdgeDetector {
    /// The bitmap that came last.
    pub closed spec fn last(self) -> u16 {
        self.prev
    }

    pub fn new() -> (r: Self)
        ensures
            r.last() == 0,
    {
        Self { prev: 0 }
    }

    /// Forgets what was held, without a release.
    pub fn reset(&mut self)
        ensures
            final(self).last() == 0,
    {
        self.prev = 0;
    }

    /// The buttons that changed since the last bitmap.
    pub fn update(&mut self, buttons: u16) -> (r: Vec<ButtonEdge>)
        ensures
            r@ == edges_between(old(self).last(), buttons),
            final(self).last() == buttons,
    {
        let prev: u16 = self.prev;
        let mut edges: Vec<ButtonEdge> = Vec::new();
        let mut bit: u16 = 0;
        assert(edges@ + edges_from(prev, buttons, 0) =~= edges_between(prev, buttons));
        while bit < 16
            invariant
                bit <= 16,
                edges@ + edges_from(prev, buttons, bit as int) == edges_between(prev, buttons),
            decreases 16 - bit,
        {
            let mask: u16 = 1u16 << bit;
            let was: bool = prev & mask != 0;
            let is: bool = buttons & mask != 0;
            let ghost before = edges@;
            let ghost rest = edges_from(prev, buttons, bit as int + 1);
            if was != is {
                let edge = ButtonEdge { kind: bit_to_kind(bit as u32), pressed: is };
                edges.push(edge);
                assert(before + (seq![edge] + rest) =~= edges@ + rest);
            }
            bit += 1;
        }
        assert(edges@ + Seq::<ButtonEdge>::empty() =~= edges@);
        self.prev = buttons;
        edges
    }
}

/// A bitmap that stays as it was gives no edge: a held button does not act again.
pub proof fn law_steady_buttons_are_silent(buttons: u16)
    ensures
        edges_between(buttons, buttons) == Seq::<ButtonEdge>::empty(),
{
    lemma_no_edges(buttons, 0);
}

proof fn lemma_no_edges(buttons: u16, bit: int)
    requires
        0 <= bit <= 16,
    ensures
        edges_from(buttons, buttons, bit) == Seq::<ButtonEdge>::empty(),
    decreases 16 - bit,
{
    if bit < 16 {
        lemma_no_edges(buttons, bit + 1);
    }
}

/// A button has an edge exactly where the two bitmaps differ in its bit, and the
/// edge tells its new state.
pub proof fn law_edges_are_the_changes(prev: u16, next: u16, e: ButtonEdge)
    ensures
        edges_between(prev, next).contains(e) <==> exists|bit: int|
            0 <= bit < 16 && #[trigger] held_bit(prev, bit) != held_bit(next, bit) && e == (
            ButtonEdge { kind: kind_of_bit(bit), pressed: held_bit(next, bit) }),
{
    lemma_edges_from(prev, next, 0, e);
}

proof fn lemma_edges_from(prev: u16, next: u16, from: int, e: ButtonEdge)
    requires
        0 <= from <= 16,
    ensures
        edges_from(prev, next, from).contains(e) <==> exists|bit: int|
            from <= bit < 16 && #[trigger] held_bit(prev, bit) != held_bit(next, bit) && e == (
            ButtonEdge { kind: kind_of_bit(bit), pressed: held_bit(next, bit) }),
    decreases 16 - from,
{
    if from < 16 {
        lemma_edges_from(prev, next, from + 1, e);
        let rest = edges_from(prev, next, from + 1);
        let head = ButtonEdge { kind: kind_of_bit(from), pressed: held_bit(next, from) };
        let all = edges_from(prev, next, from);
        if held_bit(prev, from) != held_bit(next, from) {
            assert(all == seq![head] + rest);
            if all.contains(e) {
                let i = choose|i: int| 0 <= i < all.len() && all[i] == e;
                if i > 0 {
                    assert(rest[i - 1] == e);
                }
            }
            if rest.contains(e) {
                let i = choose|i: int| 0 <= i < rest.len() && rest[i] == e;
                assert(all[i + 1] == e);
            }
            if e == head {
                assert(all[0] == e);
            }
        }
    }
}

// ---------------------------------------------------------------------------
// Configuration
// ---------------------------------------------------------------------------

/// How the panel is wired and how its device is looked for. The size of a gain
/// step and the range of the gain belong to whoever performs the actions.
#[derive(Debug, Clone)]
pub struct HidPanelConfig {
    pub vendor_id: u16,
    pub product_id: u16,
    /// The channel that each push-to-talk button keys, if any.
    pub ptt_channel_map: [Option<u32>; 4],
    /// The channel whose gain each encoder turns, if any.
    pub encoder_channel_map: [Option<u32>; 12],
    pub reconnect_initial_backoff_ms: u64,
    pub reconnect_max_backoff_ms: u64,
    pub read_timeout_ms: u64,
}

impl Default for HidPanelConfig {
    fn default() -> (r: Self)
        ensures
            r.vendor_id == VENDOR_ID,
            r.product_id == DEFAULT_PRODUCT_ID,
            forall|i: int| 0 <= i < 4 ==> r.ptt_channel_map@[i] == None::<u32>,
            forall|i: int| 0 <= i < 12 ==> r.encoder_channel_map@[i] == Some((i + 1) as u32),
            r.reconnect_initial_backoff_ms == 250,
            r.reconnect_max_backoff_ms == 10000,
            r.read_timeout_ms == 250,
    {
        let encoder_channel_map: [Option<u32>; 12] = [
            Some(1),
            Some(2),
            Some(3),
            Some(4),
            Some(5),
            Some(6),
            Some(7),
            Some(8),
            Some(9),
            Some(10),
            Some(11),
            Some(12),
        ];
        let ptt_channel_map: [Option<u32>; 4] = [None, None, None, None];
        HidPanelConfig {
            vendor_id: VENDOR_ID,
            product_id: DEFAULT_PRODUCT_ID,
            ptt_channel_map,
            encoder_channel_map,
            reconnect_initial_backoff_ms: 250,
            reconnect_max_backoff_ms: 10000,
            read_timeout_ms: 250,
        }
    }
}

// ---------------------------------------------------------------------------
// The dispatcher
// ---------------------------------------------------------------------------

/// What the caller does, in the order of the list: it performs the action on the
/// engine and then announces it.
#[derive(Debug, Clone, Copy, PartialEq, Eq, Structural)]
pub enum PanelAction {
    /// Turns the gain of a channel by a number of detents.
    AdjustGain { channel: u32, detents: i8 },
    /// Keys or releases a channel.
    SetPtt { channel: u32, active: bool },
    /// Announces an encoder's push-switch.
    EncoderSwitch { index: u8, pressed: bool },
}

/// The gain actions of the encoders from `i` on.
pub open spec fn gain_actions(
    deltas: Seq<i8>,
    map: Seq<Option<u32>>,
    i: int,
) -> Seq<PanelAction>
    decreases deltas.len() - i,
{
    if i >= deltas.len() {
        Seq::empty()
    } else if deltas[i] != 0 && map[i] is Some {
        seq![PanelAction::AdjustGain { channel: map[i]->0, detents: deltas[i] }] + gain_actions(
            deltas,
            map,
            i + 1,
        )
    } else {
        gain_actions(deltas, map, i + 1)
    }
}

/// What an edge makes the caller do; a push-to-talk button without a channel
/// does nothing.
pub open spec fn edge_action(e: ButtonEdge, map: Seq<Option<u32>>) -> Option<PanelAction> {
    match e.kind {
        ButtonKind::EncoderSwitch(index) => Some(
            PanelAction::EncoderSwitch { index, pressed: e.pressed },
        ),
        ButtonKind::Ptt(index) => match map[index as int] {
            Some(channel) => Some(PanelAction::SetPtt { channel, active: e.pressed }),
            None => None,
        },
    }
}

/// The actions of a list of edges, in their order.
pub open spec fn edge_actions(edges: Seq<ButtonEdge>, map: Seq<Option<u32>>) -> Seq<PanelAction>
    decreases edges.len(),
{
    if edges.len() == 0 {
        Seq::empty()
    } else {
        let before = edge_actions(edges.drop_last(), map);
        match edge_action(edges.last(), map) {
            Some(a) => before.push(a),
            None => before,
        }
    }
}

/// The channels that are keyed once a list of actions has been performed.
pub open spec fn keyed_after(keyed: Set<u32>, actions: Seq<PanelAction>) -> Set<u32>
    decreases actions.len(),
{
    if actions.len() == 0 {
        keyed
    } else {
        let before = keyed_after(keyed, actions.drop_last());
        match actions.last() {
            PanelAction::SetPtt { channel, active } => if active {
                before.insert(channel)
            } else {
                before.remove(channel)
            },
            _ => before,
        }
    }
}

/// Every edge is one of a button that the device has.
pub open spec fn edges_in_range(edges: Seq<ButtonEdge>) -> bool {
    forall|i: int|
        0 <= i < edges.len() ==> match (#[trigger] edges[i]).kind {
            ButtonKind::EncoderSwitch(index) => index < 12,
            ButtonKind::Ptt(index) => index < 4,
        }
}

proof fn lemma_edges_in_range(prev: u16, next: u16, bit: int)
    requires
        0 <= bit <= 16,
    ensures
        edges_in_range(edges_from(prev, next, bit)),
    decreases 16 - bit,
{
    if bit < 16 {
        lemma_edges_in_range(prev, next, bit + 1);
    }
}

proof fn lemma_keyed_after_push(keyed: Set<u32>, actions: Seq<PanelAction>, a: PanelAction)
    ensures
        keyed_after(keyed, actions.push(a)) == (match a {
            PanelAction::SetPtt { channel, active } => if active {
                keyed_after(keyed, actions).insert(channel)
            } else {
                keyed_after(keyed, actions).remove(channel)
            },
            _ => keyed_after(keyed, actions),
        }),
{
    assert(actions.push(a).drop_last() =~= actions);
}

proof fn lemma_push_contains(s: Seq<u32>, x: u32, c: u32)
    ensures
        s.push(x).contains(c) <==> s.contains(c) || x == c,
{
    let longer = s.push(x);
    if s.contains(c) {
        let k = choose|k: int| 0 <= k < s.len() && s[k] == c;
        assert(longer[k] == c);
    }
    if x == c {
        assert(longer[s.len() as int] == c);
    }
    if longer.contains(c) && x != c {
        let k = choose|k: int| 0 <= k < longer.len() && longer[k] == c;
        assert(s[k] == c);
    }
}

/// Turns reports into actions, and knows which channels the panel keeps keyed.
pub struct PanelDispatcher {
    config: HidPanelConfig,
    edges: EdgeDetector,
    active_ptt: Vec<u32>,
}

impl PanelDispatcher {
    /// The wiring of the push-to-talk buttons.
    pub closed spec fn ptt_map(self) -> Seq<Option<u32>> {
        self.config.ptt_channel_map@
    }

    /// The wiring of the encoders.
    pub closed spec fn encoder_map(self) -> Seq<Option<u32>> {
        self.config.encoder_channel_map@
    }

    /// The buttons that were held last.
    pub closed spec fn buttons(self) -> u16 {
        self.edges.last()
    }

    /// The channels that this panel keeps keyed.
    pub closed spec fn held(self) -> Set<u32> {
        self.active_ptt@.to_set()
    }

    /// No channel is noted twice.
    pub closed spec fn wf(self) -> bool {
        self.active_ptt@.no_duplicates()
    }

    /// The wiring of the two is the same.
    pub open spec fn same_wiring(self, other: Self) -> bool {
        self.ptt_map() == other.ptt_map() && self.encoder_map() == other.encoder_map()
    }

    pub fn new(config: HidPanelConfig) -> (r: Self)
        ensures
            r.wf(),
            r.held() == Set::<u32>::empty(),
            r.buttons() == 0,
            r.ptt_map() == config.ptt_channel_map@,
            r.encoder_map() == config.encoder_channel_map@,
    {
        let r = PanelDispatcher { config, edges: EdgeDetector::new(), active_ptt: Vec::new() };
        assert(r.held() =~= Set::<u32>::empty());
        r
    }

    fn note_keyed(&mut self, channel: u32)
        requires
            old(self).wf(),
        ensures
            final(self).wf(),
            final(self).held() == old(self).held().insert(channel),
            final(self).same_wiring(*old(self)),
            final(self).buttons() == old(self).buttons(),
    {
        let mut i: usize = 0;
        while i < self.active_ptt.len()
            invariant
                i <= self.active_ptt@.len(),
                self.wf(),
                *self == *old(self),
                forall|k: int| 0 <= k < i ==> self.active_ptt@[k] != channel,
            decreases self.active_ptt@.len() - i,
        {
            if self.active_ptt[i] == channel {
                assert(self.active_ptt@.contains(channel));
                assert(self.held() =~= self.held().insert(channel));
                return;
            }
            i += 1;
        }
        let ghost before = self.active_ptt@;
        self.active_ptt.push(channel);
        proof {
            assert(self.active_ptt@ =~= before.push(channel));
            assert forall|c: u32| self.held().contains(c) <==> before.to_set().insert(
                channel,
            ).contains(c) by {
                if before.contains(c) {
                    let k = choose|k: int| 0 <= k < before.len() && before[k] == c;
                    assert(self.active_ptt@[k] == c);
                }
                if c == channel {
                    assert(self.active_ptt@[before.len() as int] == c);
                }
            }
            assert(self.held() =~= before.to_set().insert(channel));
        }
    }

    fn note_released(&mut self, channel: u32)
        requires
            old(self).wf(),
        ensures
            final(self).wf(),
            final(self).held() == old(self).held().remove(channel),
            final(self).same_wiring(*old(self)),
            final(self).buttons() == old(self).buttons(),
    {
        let mut i: usize = 0;
        while i < self.active_ptt.len()
            invariant
                i <= self.active_ptt@.len(),
                self.wf(),
                *self == *old(self),
                forall|k: int| 0 <= k < i ==> self.active_ptt@[k] != channel,
            decreases self.active_ptt@.len() - i,
        {
            if self.active_ptt[i] == channel {
                let ghost before = self.active_ptt@;
                let _ = self.active_ptt.remove(i);
                proof {
                    let after = self.active_ptt@;
                    assert(after =~= before.remove(i as int));
                    assert forall|c: u32| self.held().contains(c) <==> before.to_set().remove(
                        channel,
                    ).contains(c) by {
                        if before.contains(c) && c != channel {
                            let k = choose|k: int| 0 <= k < before.len() && before[k] == c;
                            if k < i {
                                assert(after[k] == c);
                            } else {
                                assert(after[k - 1] == c);
                            }
                        }
                        if after.contains(c) {
                            let k = choose|k: int| 0 <= k < after.len() && after[k] == c;
                            if k < i {
                                assert(before[k] == c);
                            } else {
                                assert(before[k + 1] == c);
                            }
                        }
                    }
                    assert(self.held() =~= before.to_set().remove(channel));
                }
                return;
            }
            i += 1;
        }
        assert(!self.active_ptt@.contains(channel));
        assert(self.held() =~= self.held().remove(channel));
    }

    /// The actions of a report: first the gain of each encoder that was turned,
    /// then each button that changed. What stays keyed is what the actions leave
    /// keyed.
    pub fn handle_report(&mut self, report: HidReport) -> (r: Vec<PanelAction>)
        requires
            old(self).wf(),
        ensures
            final(self).wf(),
            r@ == gain_actions(report.deltas@, old(self).encoder_map(), 0) + edge_actions(
                edges_between(old(self).buttons(), report.buttons),
                old(self).ptt_map(),
            ),
            final(self).held() == keyed_after(old(self).held(), r@),
            final(self).buttons() == report.buttons,
            final(self).same_wiring(*old(self)),
    {
        let mut actions: Vec<PanelAction> = Vec::new();
        let ghost held = self.held();
        let ghost gains = gain_actions(report.deltas@, self.encoder_map(), 0);
        let mut i: usize = 0;
        assert(actions@ + gain_actions(report.deltas@, self.encoder_map(), 0) =~= gains);
        while i < 12
            invariant
                i <= 12,
                *self == *old(self),
                held == old(self).held(),
                keyed_after(held, actions@) == held,
                actions@ + gain_actions(report.deltas@, self.encoder_map(), i as int) == gains,
            decreases 12 - i,
        {
            let delta: i8 = report.deltas[i];
            if delta != 0 {
                if let Some(channel) = self.config.encoder_channel_map[i] {
                    let ghost before = actions@;
                    let action = PanelAction::AdjustGain { channel, detents: delta };
                    actions.push(action);
                    proof {
                        lemma_keyed_after_push(held, before, action);
                        let rest = gain_actions(report.deltas@, self.encoder_map(), i as int + 1);
                        assert(before + (seq![action] + rest) =~= actions@ + rest);
                    }
                }
            }
            i += 1;
        }
        assert(actions@ + Seq::<PanelAction>::empty() =~= actions@);
        let ghost map = self.ptt_map();
        let ghost last = self.buttons();
        let edges = self.edges.update(report.buttons);
        proof {
            lemma_edges_in_range(last, report.buttons, 0);
        }
        let mut k: usize = 0;
        assert(edges@.take(0) =~= Seq::<ButtonEdge>::empty());
        assert(gains + Seq::<PanelAction>::empty() =~= gains);
        while k < edges.len()
            invariant
                k <= edges@.len(),
                edges_in_range(edges@),
                self.wf(),
                self.same_wiring(*old(self)),
                self.ptt_map() == map,
                self.buttons() == report.buttons,
                actions@ == gains + edge_actions(edges@.take(k as int), map),
                self.held() == keyed_after(held, actions@),
            decreases edges@.len() - k,
        {
            let edge = edges[k];
            let ghost before = actions@;
            proof {
                assert(edges@.take(k as int + 1).drop_last() =~= edges@.take(k as int));
                assert(edges@[k as int] == edge);
            }
            match edge.kind {
                ButtonKind::Ptt(idx) => {
                    if let Some(channel) = self.config.ptt_channel_map[idx as usize] {
                        let action = PanelAction::SetPtt { channel, active: edge.pressed };
                        actions.push(action);
                        proof {
                            lemma_keyed_after_push(held, before, action);
                            let done = edge_actions(edges@.take(k as int), map);
                            assert((gains + done).push(action) =~= gains + done.push(action));
                        }
                        if edge.pressed {
                            self.note_keyed(channel);
                        } else {
                            self.note_released(channel);
                        }
                    }
                },
                ButtonKind::EncoderSwitch(idx) => {
                    let action = PanelAction::EncoderSwitch { index: idx, pressed: edge.pressed };
                    actions.push(action);
                    proof {
                        lemma_keyed_after_push(held, before, action);
                        let done = edge_actions(edges@.take(k as int), map);
                        assert((gains + done).push(action) =~= gains + done.push(action));
                    }
                },
            }
            k += 1;
        }
        assert(edges@.take(edges@.len() as int) =~= edges@);
        actions
    }

    /// Releases every channel that this panel keeps keyed, and no other, each
    /// once; then nothing is keyed and nothing counts as held.
    pub fn force_release_all_ptt(&mut self) -> (r: Vec<PanelAction>)
        requires
            old(self).wf(),
        ensures
            final(self).wf(),
            final(self).held() == Set::<u32>::empty(),
            keyed_after(old(self).held(), r@) == Set::<u32>::empty(),
            r@.no_duplicates(),
            forall|a: PanelAction|
                r@.contains(a) <==> (a matches PanelAction::SetPtt { channel, active } && !active
                    && old(self).held().contains(channel)),
            final(self).buttons() == 0,
            final(self).same_wiring(*old(self)),
    {
        let mut actions: Vec<PanelAction> = Vec::new();
        let ghost all = self.active_ptt@;
        let ghost held = self.held();
        let mut i: usize = 0;
        while i < self.active_ptt.len()
            invariant
                i <= self.active_ptt@.len(),
                *self == *old(self),
                all == self.active_ptt@,
                held == all.to_set(),
                actions@.len() == i,
                forall|k: int|
                    0 <= k < i ==> actions@[k] == (PanelAction::SetPtt {
                        channel: all[k],
                        active: false,
                    }),
                forall|c: u32|
                    #[trigger] keyed_after(held, actions@).contains(c) <==> held.contains(c)
                        && !all.take(i as int).contains(c),
            decreases self.active_ptt@.len() - i,
        {
            let channel: u32 = self.active_ptt[i];
            let action = PanelAction::SetPtt { channel, active: false };
            let ghost before = actions@;
            actions.push(action);
            proof {
                lemma_keyed_after_push(held, before, action);
                assert(all.take(i as int + 1) =~= all.take(i as int).push(channel));
                let shorter = all.take(i as int);
                assert forall|c: u32|
                    #[trigger] keyed_after(held, actions@).contains(c) <==> held.contains(c)
                        && !shorter.push(channel).contains(c) by {
                    lemma_push_contains(shorter, channel, c);
                    assert(keyed_after(held, before).contains(c) <==> held.contains(c)
                        && !shorter.contains(c));
                }
            }
            i += 1;
        }
        proof {
            assert(all.take(i as int) =~= all);
            assert forall|c: u32| !keyed_after(held, actions@).contains(c) by {
                assert(held.contains(c) <==> all.contains(c));
            }
            assert(keyed_after(held, actions@) =~= Set::<u32>::empty());
            assert forall|a: PanelAction|
                actions@.contains(a) <==> (a matches PanelAction::SetPtt { channel, active }
                    && !active && held.contains(channel)) by {
                if let PanelAction::SetPtt { channel, active } = a {
                    if !active && held.contains(channel) {
                        let k = choose|k: int| 0 <= k < all.len() && all[k] == channel;
                        assert(actions@[k] == a);
                    }
                }
                if actions@.contains(a) {
                    let k = choose|k: int| 0 <= k < actions@.len() && actions@[k] == a;
                    assert(all.contains(all[k]));
                }
            }
        }
        self.active_ptt = Vec::new();
        self.edges.reset();
        assert(self.held() =~= Set::<u32>::empty());
        actions
    }
}

/// A device that goes away while buttons are held leaves no channel keyed that
/// it had keyed: the release undoes whatever any number of reports has keyed.
pub proof fn law_release_leaves_nothing_keyed(
    before: Set<u32>,
    reports: Seq<PanelAction>,
    held: Set<u32>,
    release: Seq<PanelAction>,
)
    requires
        held == keyed_after(before, reports),
        keyed_after(held, release) == Set::<u32>::empty(),
    ensures
        keyed_after(before, reports + release) == Set::<u32>::empty(),
{
    lemma_keyed_after_concat(before, reports, release);
}

proof fn lemma_keyed_after_concat(keyed: Set<u32>, a: Seq<PanelAction>, b: Seq<PanelAction>)
    ensures
        keyed_after(keyed, a + b) == keyed_after(keyed_after(keyed, a), b),
    decreases b.len(),
{
    if b.len() == 0 {
        assert(a + b =~= a);
    } else {
        lemma_keyed_after_concat(keyed, a, b.drop_last());
        assert((a + b).drop_last() =~= a + b.drop_last());
        assert((a + b).last() == b.last());
    }
}

/// After a release, a first report with nothing held does nothing: it does not
/// release again what was held before.
pub proof fn law_no_stale_release(map: Seq<Option<u32>>)
    ensures
        edge_actions(edges_between(0, 0), map) == Seq::<PanelAction>::empty(),
{
    law_steady_buttons_are_silent(0);
}

/// A list of actions turns the gain for the encoders of a list, one action for each
/// and in its order.
pub open spec fn turns_each(
    actions: Seq<PanelAction>,
    who: Seq<int>,
    deltas: Seq<i8>,
    map: Seq<Option<u32>>,
) -> bool {
    &&& actions.len() == who.len()
    &&& forall|k: int|
        0 <= k < who.len() ==> {
            &&& 0 <= #[trigger] who[k] < deltas.len()
            &&& deltas[who[k]] != 0
            &&& map[who[k]] is Some
            &&& actions[k] == (PanelAction::AdjustGain {
                channel: map[who[k]]->0,
                detents: deltas[who[k]],
            })
        }
    &&& forall|j: int, k: int| 0 <= j < k < who.len() ==> who[j] < who[k]
}

/// The encoders that were turned and have a channel, whichever way they were turned,
/// act one after another in their order, each once and by its own detents; no other
/// encoder acts.
#[verifier::rlimit(40)]
#[verifier::spinoff_prover]
pub proof fn law_turned_encoders_act(deltas: Seq<i8>, map: Seq<Option<u32>>)
    ensures
        exists|who: Seq<int>|
            {
                &&& #[trigger] turns_each(gain_actions(deltas, map, 0), who, deltas, map)
                &&& forall|i: int|
                    0 <= i < deltas.len() && deltas[i] != 0 && (#[trigger] map[i]) is Some
                        ==> who.contains(i)
            },
        forall|i: int, channel: u32|
            0 <= i < deltas.len() && deltas[i] != 0 && #[trigger] map[i] == Some(channel)
                ==> #[trigger] gain_actions(deltas, map, 0).contains(
                PanelAction::AdjustGain { channel, detents: deltas[i] },
            ),
        forall|a: PanelAction| #[trigger]
            gain_actions(deltas, map, 0).contains(a) ==> exists|i: int|
                0 <= i < deltas.len() && deltas[i] != 0 && (#[trigger] map[i]) is Some && a == (
                PanelAction::AdjustGain { channel: map[i]->0, detents: deltas[i] }),
{
    let who = lemma_turned(deltas, map, 0);
    let actions = gain_actions(deltas, map, 0);
    assert forall|i: int, channel: u32|
        0 <= i < deltas.len() && deltas[i] != 0 && #[trigger] map[i] == Some(
            channel,
        ) implies #[trigger] actions.contains(
        PanelAction::AdjustGain { channel, detents: deltas[i] },
    ) by {
        assert(who.contains(i));
        let k = choose|k: int| 0 <= k < who.len() && who[k] == i;
        assert(actions[k] == (PanelAction::AdjustGain { channel, detents: deltas[i] }));
    }
    assert forall|a: PanelAction| #[trigger] actions.contains(a) implies exists|i: int|
        0 <= i < deltas.len() && deltas[i] != 0 && (#[trigger] map[i]) is Some && a == (
        PanelAction::AdjustGain { channel: map[i]->0, detents: deltas[i] }) by {
        let k = choose|k: int| 0 <= k < actions.len() && actions[k] == a;
        let i = who[k];
        assert(map[i] is Some);
    }
}

#[verifier::rlimit(40)]
#[verifier::spinoff_prover]
proof fn lemma_turned(deltas: Seq<i8>, map: Seq<Option<u32>>, from: int) -> (who: Seq<int>)
    requires
        0 <= from <= deltas.len(),
    ensures
        turns_each(gain_actions(deltas, map, from), who, deltas, map),
        forall|k: int| 0 <= k < who.len() ==> from <= #[trigger] who[k],
        forall|i: int|
            from <= i < deltas.len() && deltas[i] != 0 && (#[trigger] map[i]) is Some
                ==> who.contains(i),
    decreases deltas.len() - from,
{
    if from == deltas.len() {
        Seq::empty()
    } else {
        let rest = lemma_turned(deltas, map, from + 1);
        if deltas[from] != 0 && map[from] is Some {
            let who = seq![from] + rest;
            let tail = gain_actions(deltas, map, from + 1);
            let all = gain_actions(deltas, map, from);
            assert(forall|k: int| 0 < k < who.len() ==> who[k] == rest[k - 1]);
            assert(forall|k: int| 0 < k < all.len() ==> all[k] == tail[k - 1]);
            assert forall|i: int|
                from <= i < deltas.len() && deltas[i] != 0 && (
                #[trigger] map[i]) is Some implies who.contains(i) by {
                if i == from {
                    assert(who[0] == i);
                } else {
                    assert(rest.contains(i));
                    let k = choose|k: int| 0 <= k < rest.len() && rest[k] == i;
                    assert(who[k + 1] == i);
                }
            }
            who
        } else {
            rest
        }
    }
}

/// By how many detents a list of actions turns the gain of a channel, in all.
pub open spec fn detents_for(actions: Seq<PanelAction>, channel: u32) -> int
    decreases actions.len(),
{
    if actions.len() == 0 {
        0
    } else {
        let first: int = match actions[0] {
            PanelAction::AdjustGain { channel: c, detents } if c == channel => detents as int,
            _ => 0,
        };
        first + detents_for(actions.drop_first(), channel)
    }
}

/// By how many detents the encoders of a channel were turned, in all.
pub open spec fn turned_for(
    deltas: Seq<i8>,
    map: Seq<Option<u32>>,
    channel: u32,
    from: int,
) -> int
    decreases deltas.len() - from,
{
    if from >= deltas.len() {
        0
    } else {
        (if map[from] == Some(channel) {
            deltas[from] as int
        } else {
            0
        }) + turned_for(deltas, map, channel, from + 1)
    }
}

/// The gain of a channel is turned by as many detents as its encoders were, up and
/// down alike; an encoder that has its channel to itself turns it by its own detents.
pub proof fn law_detents_add_up(deltas: Seq<i8>, map: Seq<Option<u32>>, channel: u32)
    ensures
        detents_for(gain_actions(deltas, map, 0), channel) == turned_for(deltas, map, channel, 0),
        forall|i: int|
            0 <= i < deltas.len() && #[trigger] map[i] == Some(channel) && (forall|j: int|
                0 <= j < deltas.len() && #[trigger] map[j] == Some(channel) ==> j == i)
                ==> detents_for(gain_actions(deltas, map, 0), channel) == deltas[i],
{
    lemma_detents(deltas, map, channel, 0);
    assert forall|i: int|
        0 <= i < deltas.len() && #[trigger] map[i] == Some(channel) && (forall|j: int|
            0 <= j < deltas.len() && #[trigger] map[j] == Some(channel) ==> j
                == i) implies detents_for(gain_actions(deltas, map, 0), channel) == deltas[i] by {
        lemma_turned_alone(deltas, map, channel, i, 0);
    }
}

proof fn lemma_detents(deltas: Seq<i8>, map: Seq<Option<u32>>, channel: u32, from: int)
    requires
        0 <= from <= deltas.len(),
    ensures
        detents_for(gain_actions(deltas, map, from), channel) == turned_for(
            deltas,
            map,
            channel,
            from,
        ),
    decreases deltas.len() - from,
{
    if from < deltas.len() {
        lemma_detents(deltas, map, channel, from + 1);
        let all = gain_actions(deltas, map, from);
        let rest = gain_actions(deltas, map, from + 1);
        if deltas[from] != 0 && map[from] is Some {
            assert(all.drop_first() =~= rest);
            assert(all[0] == (PanelAction::AdjustGain {
                channel: map[from]->0,
                detents: deltas[from],
            }));
        }
    }
}

proof fn lemma_turned_alone(
    deltas: Seq<i8>,
    map: Seq<Option<u32>>,
    channel: u32,
    i: int,
    from: int,
)
    requires
        0 <= i < deltas.len(),
        map[i] == Some(channel),
        forall|j: int| 0 <= j < deltas.len() && #[trigger] map[j] == Some(channel) ==> j == i,
        0 <= from <= deltas.len(),
    ensures
        turned_for(deltas, map, channel, from) == (if from <= i {
            deltas[i] as int
        } else {
            0
        }),
    decreases deltas.len() - from,
{
    if from < deltas.len() {
        lemma_turned_alone(deltas, map, channel, i, from + 1);
    }
}

} // verus!
