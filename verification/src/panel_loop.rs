//! The control panel at work: in which order its actions reach the engine and the
//! console, and what the loop around its device does next.

use crate::hid_panel::{
    edge_action, edge_actions, edges_between, edges_from, gain_actions, held_bit, keyed_after,
    kind_of_bit, law_edges_are_the_changes, law_turned_encoders_act, parse_report, signed,
    ButtonEdge, HidPanelConfig, PanelAction, PanelDispatcher, REPORT_LEN,
};
use vstd::prelude::*;

verus! {

// ---------------------------------------------------------------------------
// Steps
// ---------------------------------------------------------------------------

/// One step of what the panel brings about: a call of the engine, or something that
/// the console is told.
#[derive(Debug, Clone, Copy, PartialEq, Eq, Structural)]
pub enum PanelStep {
    /// Keys or releases a channel.
    SetPtt { channel: u32, active: bool },
    /// Turns the gain of a channel by a number of detents.
    AdjustGain { channel: u32, detents: i8 },
    /// Tells that a channel was keyed or released.
    TellPtt { channel: u32, active: bool },
    /// Tells the gain that the engine gave back in the step before.
    TellGain { channel: u32 },
    /// Tells that an encoder's push-switch was pressed or released.
    TellSwitch { index: u8, pressed: bool },
    /// Tells that the device was opened.
    TellConnected,
    /// Tells that the device went away.
    TellDisconnected,
}

/// The steps of an action: the call of the engine, if any, and then what the
/// console is told of it.
pub open spec fn steps_of(action: PanelAction) -> Seq<PanelStep> {
    match action {
        PanelAction::AdjustGain { channel, detents } => seq![
            PanelStep::AdjustGain { channel, detents },
            PanelStep::TellGain { channel },
        ],
        PanelAction::SetPtt { channel, active } => seq![
            PanelStep::SetPtt { channel, active },
            PanelStep::TellPtt { channel, active },
        ],
        PanelAction::EncoderSwitch { index, pressed } => seq![
            PanelStep::TellSwitch { index, pressed },
        ],
    }
}

/// The steps of a list of actions, one action after another.
pub open spec fn steps_in_turn(actions: Seq<PanelAction>) -> Seq<PanelStep>
    decreases actions.len(),
{
    if actions.len() == 0 {
        Seq::empty()
    } else {
        steps_in_turn(actions.drop_last()) + steps_of(actions.last())
    }
}

fn add_steps(steps: &mut Vec<PanelStep>, actions: &Vec<PanelAction>)
    ensures
        final(steps)@ == old(steps)@ + steps_in_turn(actions@),
{
    let ghost before = steps@;
    let mut i: usize = 0;
    assert(before + steps_in_turn(actions@.take(0)) =~= before);
    while i < actions.len()
        invariant
            i <= actions@.len(),
            steps@ == before + steps_in_turn(actions@.take(i as int)),
        decreases actions@.len() - i,
    {
        let ghost seen = steps@;
        let action = actions[i];
        match action {
            PanelAction::AdjustGain { channel, detents } => {
                steps.push(PanelStep::AdjustGain { channel, detents });
                steps.push(PanelStep::TellGain { channel });
            },
            PanelAction::SetPtt { channel, active } => {
                steps.push(PanelStep::SetPtt { channel, active });
                steps.push(PanelStep::TellPtt { channel, active });
            },
            PanelAction::EncoderSwitch { index, pressed } => {
                steps.push(PanelStep::TellSwitch { index, pressed });
            },
        }
        proof {
            let done = actions@.take(i as int);
            let more = actions@.take(i as int + 1);
            assert(more.drop_last() =~= done);
            assert(more.last() == action);
            assert(steps@ =~= seen + steps_of(action));
            assert(before + steps_in_turn(done) + steps_of(action) =~= before + (steps_in_turn(done)
                + steps_of(action)));
        }
        i += 1;
    }
    assert(actions@.take(actions@.len() as int) =~= actions@);
}

/// The steps of a list of actions, one action after another.
pub fn panel_steps(actions: &Vec<PanelAction>) -> (r: Vec<PanelStep>)
    ensures
        r@ == steps_in_turn(actions@),
{
    let mut r: Vec<PanelStep> = Vec::new();
    add_steps(&mut r, actions);
    assert(Seq::<PanelStep>::empty() + steps_in_turn(actions@) =~= steps_in_turn(actions@));
    r
}

/// The console is told of a call of the engine right after it, and of no call that
/// was not made.
pub proof fn law_telling_follows_the_call(actions: Seq<PanelAction>, k: int)
    requires
        0 <= k < steps_in_turn(actions).len(),
    ensures
        ({
            let s = steps_in_turn(actions);
            match s[k] {
                PanelStep::SetPtt { channel, active } => k + 1 < s.len() && s[k + 1] == (
                PanelStep::TellPtt { channel, active }),
                PanelStep::AdjustGain { channel, .. } => k + 1 < s.len() && s[k + 1] == (
                PanelStep::TellGain { channel }),
                PanelStep::TellPtt { channel, active } => k > 0 && s[k - 1] == (
                PanelStep::SetPtt { channel, active }),
                PanelStep::TellGain { channel } => k > 0 && (
                s[k - 1] matches PanelStep::AdjustGain { channel: turned, .. } && turned
                    == channel),
                PanelStep::TellSwitch { .. } => true,
                PanelStep::TellConnected => false,
                PanelStep::TellDisconnected => false,
            }
        }),
    decreases actions.len(),
{
    let rest = steps_in_turn(actions.drop_last());
    let last = steps_of(actions.last());
    let s = steps_in_turn(actions);
    assert(s == rest + last);
    if k < rest.len() {
        law_telling_follows_the_call(actions.drop_last(), k);
        assert(s[k] == rest[k]);
        if k + 1 < rest.len() {
            assert(s[k + 1] == rest[k + 1]);
        }
        if k > 0 {
            assert(s[k - 1] == rest[k - 1]);
        }
    } else {
        assert(s[k] == last[k - rest.len()]);
        if k > rest.len() {
            assert(s[k - 1] == last[k - 1 - rest.len()]);
        }
        if k + 1 < s.len() {
            assert(s[k + 1] == last[k + 1 - rest.len()]);
        }
    }
}

/// What a bit of the bitmap of buttons brings about where it changed: a switch is
/// told of and calls nothing; a push-to-talk button with a channel calls the engine
/// and is told of; one without does neither.
pub open spec fn bit_steps(prev: u16, next: u16, map: Seq<Option<u32>>, bit: int) -> Seq<
    PanelStep,
> {
    let pressed = held_bit(next, bit);
    if held_bit(prev, bit) == pressed {
        Seq::empty()
    } else if bit < 12 {
        seq![PanelStep::TellSwitch { index: bit as u8, pressed }]
    } else {
        match map[bit - 12] {
            Some(channel) => seq![
                PanelStep::SetPtt { channel, active: pressed },
                PanelStep::TellPtt { channel, active: pressed },
            ],
            None => Seq::empty(),
        }
    }
}

/// What the bits from one on bring about, in their order.
pub open spec fn bits_steps(prev: u16, next: u16, map: Seq<Option<u32>>, bit: int) -> Seq<
    PanelStep,
>
    decreases 16 - bit,
{
    if bit >= 16 {
        Seq::empty()
    } else {
        bit_steps(prev, next, map, bit) + bits_steps(prev, next, map, bit + 1)
    }
}

proof fn lemma_steps_concat(a: Seq<PanelAction>, b: Seq<PanelAction>)
    ensures
        steps_in_turn(a + b) == steps_in_turn(a) + steps_in_turn(b),
    decreases b.len(),
{
    if b.len() == 0 {
        assert(a + b =~= a);
        assert(steps_in_turn(a) + steps_in_turn(b) =~= steps_in_turn(a));
    } else {
        lemma_steps_concat(a, b.drop_last());
        assert((a + b).drop_last() =~= a + b.drop_last());
        assert((a + b).last() == b.last());
        assert(steps_in_turn(a) + steps_in_turn(b.drop_last()) + steps_of(b.last())
            =~= steps_in_turn(a) + (steps_in_turn(b.drop_last()) + steps_of(b.last())));
    }
}

proof fn lemma_edge_actions_concat(
    a: Seq<ButtonEdge>,
    b: Seq<ButtonEdge>,
    map: Seq<Option<u32>>,
)
    ensures
        edge_actions(a + b, map) == edge_actions(a, map) + edge_actions(b, map),
    decreases b.len(),
{
    if b.len() == 0 {
        assert(a + b =~= a);
        assert(edge_actions(a, map) + edge_actions(b, map) =~= edge_actions(a, map));
    } else {
        lemma_edge_actions_concat(a, b.drop_last(), map);
        assert((a + b).drop_last() =~= a + b.drop_last());
        assert((a + b).last() == b.last());
        if let Some(x) = edge_action(b.last(), map) {
            let before = edge_actions(b.drop_last(), map);
            assert((edge_actions(a, map) + before).push(x) =~= edge_actions(a, map) + before.push(
                x,
            ));
        }
    }
}

proof fn lemma_bits_steps(prev: u16, next: u16, map: Seq<Option<u32>>, bit: int)
    requires
        0 <= bit <= 16,
    ensures
        steps_in_turn(edge_actions(edges_from(prev, next, bit), map)) == bits_steps(
            prev,
            next,
            map,
            bit,
        ),
    decreases 16 - bit,
{
    if bit < 16 {
        lemma_bits_steps(prev, next, map, bit + 1);
        let rest = edges_from(prev, next, bit + 1);
        if held_bit(prev, bit) != held_bit(next, bit) {
            let e = ButtonEdge { kind: kind_of_bit(bit), pressed: held_bit(next, bit) };
            lemma_edge_actions_concat(seq![e], rest, map);
            lemma_steps_concat(edge_actions(seq![e], map), edge_actions(rest, map));
            assert(seq![e].drop_last() =~= Seq::<ButtonEdge>::empty());
            assert(edge_actions(Seq::<ButtonEdge>::empty(), map) =~= Seq::<PanelAction>::empty());
            let first = edge_actions(seq![e], map);
            match edge_action(e, map) {
                Some(x) => {
                    assert(first =~= seq![x]);
                    assert(seq![x].drop_last() =~= Seq::<PanelAction>::empty());
                    assert(steps_in_turn(Seq::<PanelAction>::empty()) =~= Seq::<
                        PanelStep,
                    >::empty());
                    assert(steps_in_turn(seq![x]) =~= steps_of(x));
                },
                None => {
                    assert(first =~= Seq::<PanelAction>::empty());
                    assert(steps_in_turn(first) =~= Seq::<PanelStep>::empty());
                },
            }
            assert(steps_in_turn(first) =~= bit_steps(prev, next, map, bit));
        } else {
            assert(bit_steps(prev, next, map, bit) + bits_steps(prev, next, map, bit + 1)
                =~= bits_steps(prev, next, map, bit + 1));
        }
    }
}

/// The buttons of a report act in the order of their bits: each push-to-talk button
/// that changed and has a channel keys or releases it once and is told of after
/// that, one without a channel does nothing, and a switch is told of alone.
pub proof fn law_buttons_act_in_order(prev: u16, next: u16, map: Seq<Option<u32>>)
    ensures
        steps_in_turn(edge_actions(edges_between(prev, next), map)) == bits_steps(
            prev,
            next,
            map,
            0,
        ),
{
    lemma_bits_steps(prev, next, map, 0);
}

// ---------------------------------------------------------------------------
// The device loop
// ---------------------------------------------------------------------------

/// What happened to the loop around the device.
#[derive(Debug)]
pub enum PanelInput {
    /// The loop begins.
    Begin,
    /// The device was opened.
    Opened,
    /// The device could not be opened.
    OpenFailed,
    /// The wait is over.
    Waited,
    /// So much was read; nothing where the time was up.
    Read(Vec<u8>),
    /// The device cannot be read any more.
    ReadFailed,
}

/// What the loop does next.
#[derive(Debug, Clone, Copy, PartialEq, Eq, Structural)]
pub enum PanelNext {
    /// Tries to open the device.
    Open,
    /// Reads the device.
    Read,
    /// Waits for so many milliseconds.
    Wait { ms: u64 },
    /// Ends.
    End,
}

/// A turn of the loop: its steps, and what is done after them.
pub struct PanelTurn {
    pub steps: Vec<PanelStep>,
    pub next: PanelNext,
}

/// Twice a wait, up to the greatest.
pub open spec fn doubled(backoff_ms: u64, max_ms: u64) -> u64 {
    if 2 * backoff_ms < max_ms {
        (2 * backoff_ms) as u64
    } else {
        max_ms
    }
}

/// The wait before the next attempt: twice the last one, up to the greatest.
pub fn next_backoff_ms(backoff_ms: u64, max_ms: u64) -> (r: u64)
    ensures
        r == doubled(backoff_ms, max_ms),
{
    if backoff_ms >= max_ms || backoff_ms >= max_ms - backoff_ms {
        max_ms
    } else {
        backoff_ms * 2
    }
}

/// How far each encoder was turned, by the bytes of a report.
pub open spec fn deltas_in(bytes: Seq<u8>) -> Seq<i8> {
    Seq::new(12, |i: int| signed(bytes[i]) as i8)
}

/// The buttons that are held, by the bytes of a report.
pub open spec fn buttons_in(bytes: Seq<u8>) -> u16 {
    (bytes[12] + bytes[13] * 256) as u16
}

/// The actions of what was read: none where it is too short for a report.
pub open spec fn read_actions(
    bytes: Seq<u8>,
    buttons: u16,
    encoder_map: Seq<Option<u32>>,
    ptt_map: Seq<Option<u32>>,
) -> Seq<PanelAction> {
    if bytes.len() < REPORT_LEN {
        Seq::empty()
    } else {
        gain_actions(deltas_in(bytes), encoder_map, 0) + edge_actions(
            edges_between(buttons, buttons_in(bytes)),
            ptt_map,
        )
    }
}

/// A list of actions releases the channels that are held, each once, and does
/// nothing else.
pub open spec fn releases(actions: Seq<PanelAction>, held: Set<u32>) -> bool {
    &&& actions.no_duplicates()
    &&& keyed_after(held, actions) == Set::<u32>::empty()
    &&& forall|a: PanelAction|
        actions.contains(a) <==> (a matches PanelAction::SetPtt { channel, active } && !active
            && held.contains(channel))
}

/// Steps that begin with given ones and then release the channels that are held.
pub open spec fn then_released(
    steps: Seq<PanelStep>,
    given: Seq<PanelStep>,
    held: Set<u32>,
) -> bool {
    exists|a: Seq<PanelAction>| #[trigger] releases(a, held) && steps == given + steps_in_turn(a)
}

/// What the loop does after a turn, with the wait that is due.
pub open spec fn next_of(input: PanelInput, stopping: bool, backoff: u64) -> PanelNext {
    if stopping {
        PanelNext::End
    } else {
        match input {
            PanelInput::Begin | PanelInput::Waited => PanelNext::Open,
            PanelInput::Opened | PanelInput::Read(_) => PanelNext::Read,
            PanelInput::OpenFailed | PanelInput::ReadFailed => PanelNext::Wait { ms: backoff },
        }
    }
}

/// The loop around the device: the panel's dispatcher and the wait before the next
/// attempt to open the device.
pub struct PanelLoop {
    dispatcher: PanelDispatcher,
    backoff_ms: u64,
    initial_ms: u64,
    max_ms: u64,
}

impl PanelLoop {
    /// The dispatcher is as it should be.
    pub closed spec fn wf(self) -> bool {
        self.dispatcher.wf()
    }

    /// The channels that the panel keeps keyed.
    pub closed spec fn held(self) -> Set<u32> {
        self.dispatcher.held()
    }

    /// The buttons that were held last.
    pub closed spec fn buttons(self) -> u16 {
        self.dispatcher.buttons()
    }

    /// The wiring of the push-to-talk buttons.
    pub closed spec fn ptt_map(self) -> Seq<Option<u32>> {
        self.dispatcher.ptt_map()
    }

    /// The wiring of the encoders.
    pub closed spec fn encoder_map(self) -> Seq<Option<u32>> {
        self.dispatcher.encoder_map()
    }

    /// The next wait.
    pub closed spec fn backoff(self) -> u64 {
        self.backoff_ms
    }

    /// The first wait after the device was open.
    pub closed spec fn initial(self) -> u64 {
        self.initial_ms
    }

    /// The greatest wait.
    pub closed spec fn greatest(self) -> u64 {
        self.max_ms
    }

    /// The wiring and the bounds of the waits are the same.
    pub open spec fn same_setup(self, other: Self) -> bool {
        self.ptt_map() == other.ptt_map() && self.encoder_map() == other.encoder_map()
            && self.initial() == other.initial() && self.greatest() == other.greatest()
    }

    /// A loop that has not begun.
    pub fn new(config: HidPanelConfig) -> (r: Self)
        ensures
            r.wf(),
            r.held() == Set::<u32>::empty(),
            r.buttons() == 0,
            r.ptt_map() == config.ptt_channel_map@,
            r.encoder_map() == config.encoder_channel_map@,
            r.initial() == config.reconnect_initial_backoff_ms,
            r.greatest() == config.reconnect_max_backoff_ms,
            r.backoff() == r.initial(),
    {
        let initial_ms: u64 = config.reconnect_initial_backoff_ms;
        let max_ms: u64 = config.reconnect_max_backoff_ms;
        PanelLoop {
            dispatcher: PanelDispatcher::new(config),
            backoff_ms: initial_ms,
            initial_ms,
            max_ms,
        }
    }

    fn release(&mut self, steps: &mut Vec<PanelStep>)
        requires
            old(self).wf(),
        ensures
            final(self).wf(),
            final(self).same_setup(*old(self)),
            final(self).backoff() == old(self).backoff(),
            final(self).held() == Set::<u32>::empty(),
            final(self).buttons() == 0,
            then_released(final(steps)@, old(steps)@, old(self).held()),
    {
        let actions = self.dispatcher.force_release_all_ptt();
        add_steps(steps, &actions);
        assert(releases(actions@, old(self).held()));
    }

    fn dispatch(&mut self, bytes: &Vec<u8>, steps: &mut Vec<PanelStep>)
        requires
            old(self).wf(),
        ensures
            ({
                let actions = read_actions(
                    bytes@,
                    old(self).buttons(),
                    old(self).encoder_map(),
                    old(self).ptt_map(),
                );
                &&& final(self).wf()
                &&& final(self).same_setup(*old(self))
                &&& final(self).backoff() == old(self).backoff()
                &&& final(self).held() == keyed_after(old(self).held(), actions)
                &&& final(self).buttons() == (if bytes@.len() < REPORT_LEN {
                    old(self).buttons()
                } else {
                    buttons_in(bytes@)
                })
                &&& final(steps)@ == old(steps)@ + steps_in_turn(actions)
            }),
    {
        match parse_report(bytes.as_slice()) {
            Ok(report) => {
                assert(report.deltas@ =~= deltas_in(bytes@));
                let actions = self.dispatcher.handle_report(report);
                add_steps(steps, &actions);
            },
            Err(_) => {
                assert(old(steps)@ + Seq::<PanelStep>::empty() =~= old(steps)@);
            },
        }
    }

    /// One turn of the loop, where `stopping` tells whether the loop is to end. A
    /// device that was opened is told of; what is read of it acts; when it goes away
    /// all that it keyed is released first, then its loss is told of, and the loop
    /// waits before it tries again, each time longer until the device was open. A
    /// loop that ends while the device is open releases what it keyed.
    pub fn turn(&mut self, input: PanelInput, stopping: bool) -> (r: PanelTurn)
        requires
            old(self).wf(),
        ensures
            final(self).wf(),
            final(self).same_setup(*old(self)),
            final(self).backoff() == backoff_after(
                old(self).backoff(),
                old(self).initial(),
                old(self).greatest(),
                input,
                stopping,
            ),
            r.next == next_of(input, stopping, old(self).backoff()),
            match input {
                PanelInput::Begin | PanelInput::Waited | PanelInput::OpenFailed => {
                    &&& r.steps@ == Seq::<PanelStep>::empty()
                    &&& final(self).held() == old(self).held()
                    &&& final(self).buttons() == old(self).buttons()
                },
                PanelInput::Opened => if stopping {
                    &&& then_released(r.steps@, seq![PanelStep::TellConnected], old(self).held())
                    &&& final(self).held() == Set::<u32>::empty()
                    &&& final(self).buttons() == 0
                } else {
                    &&& r.steps@ == seq![PanelStep::TellConnected]
                    &&& final(self).held() == old(self).held()
                    &&& final(self).buttons() == old(self).buttons()
                },
                PanelInput::Read(bytes) => {
                    let actions = read_actions(
                        bytes@,
                        old(self).buttons(),
                        old(self).encoder_map(),
                        old(self).ptt_map(),
                    );
                    let held = keyed_after(old(self).held(), actions);
                    if stopping {
                        &&& then_released(r.steps@, steps_in_turn(actions), held)
                        &&& final(self).held() == Set::<u32>::empty()
                        &&& final(self).buttons() == 0
                    } else {
                        &&& r.steps@ == steps_in_turn(actions)
                        &&& final(self).held() == held
                        &&& final(self).buttons() == (if bytes@.len() < REPORT_LEN {
                            old(self).buttons()
                        } else {
                            buttons_in(bytes@)
                        })
                    }
                },
                PanelInput::ReadFailed => {
                    &&& r.steps@.len() > 0
                    &&& r.steps@.last() is TellDisconnected
                    &&& then_released(r.steps@.drop_last(), Seq::empty(), old(self).held())
                    &&& final(self).held() == Set::<u32>::empty()
                    &&& final(self).buttons() == 0
                },
            },
    {
        let mut steps: Vec<PanelStep> = Vec::new();
        assert(steps@ =~= Seq::<PanelStep>::empty());
        let mut next = PanelNext::End;
        match input {
            PanelInput::Begin | PanelInput::Waited => {
                if !stopping {
                    next = PanelNext::Open;
                }
            },
            PanelInput::Opened => {
                steps.push(PanelStep::TellConnected);
                assert(steps@ =~= seq![PanelStep::TellConnected]);
                self.backoff_ms = self.initial_ms;
                if stopping {
                    self.release(&mut steps);
                } else {
                    next = PanelNext::Read;
                }
            },
            PanelInput::OpenFailed => {
                if !stopping {
                    next = self.wait();
                }
            },
            PanelInput::Read(bytes) => {
                self.dispatch(&bytes, &mut steps);
                let ghost done = steps@;
                assert(forall|s: Seq<PanelStep>| #[trigger] (Seq::<PanelStep>::empty() + s) =~= s);
                if stopping {
                    self.release(&mut steps);
                } else {
                    next = PanelNext::Read;
                }
            },
            PanelInput::ReadFailed => {
                self.release(&mut steps);
                let ghost released = steps@;
                steps.push(PanelStep::TellDisconnected);
                assert(steps@.drop_last() =~= released);
                if !stopping {
                    next = self.wait();
                }
            },
        }
        PanelTurn { steps, next }
    }

    fn wait(&mut self) -> (r: PanelNext)
        requires
            old(self).wf(),
        ensures
            final(self).wf(),
            final(self).same_setup(*old(self)),
            final(self).held() == old(self).held(),
            final(self).buttons() == old(self).buttons(),
            final(self).backoff() == doubled(old(self).backoff(), old(self).greatest()),
            r == (PanelNext::Wait { ms: old(self).backoff() }),
    {
        let ms: u64 = self.backoff_ms;
        self.backoff_ms = next_backoff_ms(ms, self.max_ms);
        PanelNext::Wait { ms }
    }
}

/// The next wait after a turn of the loop.
pub open spec fn backoff_after(
    backoff: u64,
    initial: u64,
    greatest: u64,
    input: PanelInput,
    stopping: bool,
) -> u64 {
    match input {
        PanelInput::Opened => initial,
        PanelInput::OpenFailed | PanelInput::ReadFailed => if stopping {
            backoff
        } else {
            doubled(backoff, greatest)
        },
        _ => backoff,
    }
}

/// The next wait after a number of turns of a loop that is not to end.
pub open spec fn backoff_after_all(
    backoff: u64,
    initial: u64,
    greatest: u64,
    inputs: Seq<PanelInput>,
) -> u64
    decreases inputs.len(),
{
    if inputs.len() == 0 {
        backoff
    } else {
        backoff_after(
            backoff_after_all(backoff, initial, greatest, inputs.drop_last()),
            initial,
            greatest,
            inputs.last(),
            false,
        )
    }
}

/// How many of a list of inputs make the loop wait.
pub open spec fn failures(inputs: Seq<PanelInput>) -> nat
    decreases inputs.len(),
{
    if inputs.len() == 0 {
        0
    } else {
        failures(inputs.drop_last()) + (if inputs.last() is OpenFailed
            || inputs.last() is ReadFailed {
            1nat
        } else {
            0nat
        })
    }
}

/// The wait after so many others since the device was open: the first one doubled so
/// often, up to the greatest.
pub open spec fn nth_wait(initial: u64, greatest: u64, n: nat) -> u64
    decreases n,
{
    if n == 0 {
        initial
    } else {
        doubled(nth_wait(initial, greatest, (n - 1) as nat), greatest)
    }
}

/// Since the device was last open, or since the loop began, each wait is twice the
/// one before, up to the greatest; the first is the initial one, whatever the waits
/// before the device was open.
pub proof fn law_waits_double_until_open(
    backoff: u64,
    initial: u64,
    greatest: u64,
    earlier: Seq<PanelInput>,
    later: Seq<PanelInput>,
)
    requires
        forall|i: int| 0 <= i < later.len() ==> !((#[trigger] later[i]) is Opened),
    ensures
        backoff_after_all(initial, initial, greatest, later) == nth_wait(
            initial,
            greatest,
            failures(later),
        ),
        backoff_after_all(
            backoff,
            initial,
            greatest,
            earlier.push(PanelInput::Opened) + later,
        ) == nth_wait(initial, greatest, failures(later)),
    decreases later.len(),
{
    let opened = earlier.push(PanelInput::Opened);
    if later.len() == 0 {
        assert(opened + later =~= opened);
        assert(opened.drop_last() =~= earlier);
    } else {
        assert(forall|i: int|
            0 <= i < later.drop_last().len() ==> #[trigger] later.drop_last()[i] == later[i]);
        law_waits_double_until_open(backoff, initial, greatest, earlier, later.drop_last());
        assert((opened + later).drop_last() =~= opened + later.drop_last());
        assert((opened + later).last() == later.last());
        assert(!(later[later.len() - 1] is Opened));
    }
}

proof fn lemma_step_of_action(actions: Seq<PanelAction>, i: int)
    requires
        0 <= i < actions.len(),
    ensures
        steps_in_turn(actions).contains(steps_of(actions[i])[0]),
    decreases actions.len(),
{
    let rest = steps_in_turn(actions.drop_last());
    let last = steps_of(actions.last());
    let s = steps_in_turn(actions);
    if i == actions.len() - 1 {
        assert(s[rest.len() as int] == last[0]);
    } else {
        lemma_step_of_action(actions.drop_last(), i);
        let k = choose|k: int| 0 <= k < rest.len() && rest[k] == steps_of(actions[i])[0];
        assert(s[k] == rest[k]);
    }
}

/// When the device goes away, each channel that the panel kept keyed is released, and
/// no other is touched, before its loss is told of, which happens once.
pub proof fn law_release_precedes_the_loss(steps: Seq<PanelStep>, held: Set<u32>)
    requires
        steps.len() > 0,
        steps.last() is TellDisconnected,
        then_released(steps.drop_last(), Seq::empty(), held),
    ensures
        forall|channel: u32|
            held.contains(channel) ==> exists|k: int|
                0 <= k < steps.len() - 1 && #[trigger] steps[k] == (PanelStep::SetPtt {
                    channel,
                    active: false,
                }),
        forall|k: int|
            0 <= k < steps.len() - 1 ==> match #[trigger] steps[k] {
                PanelStep::SetPtt { channel, active } => !active && held.contains(channel),
                PanelStep::TellPtt { channel, active } => !active && held.contains(channel),
                _ => false,
            },
{
    let a = choose|a: Seq<PanelAction>| #[trigger]
        releases(a, held) && steps.drop_last() == Seq::<PanelStep>::empty() + steps_in_turn(a);
    let s = steps_in_turn(a);
    assert(steps.drop_last() =~= s);
    assert forall|channel: u32| held.contains(channel) implies exists|k: int|
        0 <= k < steps.len() - 1 && #[trigger] steps[k] == (PanelStep::SetPtt {
            channel,
            active: false,
        }) by {
        let x = PanelAction::SetPtt { channel, active: false };
        assert(a.contains(x));
        let i = choose|i: int| 0 <= i < a.len() && a[i] == x;
        lemma_step_of_action(a, i);
        let k = choose|k: int| 0 <= k < s.len() && s[k] == steps_of(x)[0];
        assert(steps[k] == s[k]);
    }
    assert forall|k: int| 0 <= k < steps.len() - 1 implies match #[trigger] steps[k] {
        PanelStep::SetPtt { channel, active } => !active && held.contains(channel),
        PanelStep::TellPtt { channel, active } => !active && held.contains(channel),
        _ => false,
    } by {
        assert(steps[k] == s[k]);
        lemma_release_steps(a, held, k);
    }
}

proof fn lemma_release_steps(actions: Seq<PanelAction>, held: Set<u32>, k: int)
    requires
        forall|a: PanelAction|
            actions.contains(a) ==> (a matches PanelAction::SetPtt { channel, active } && !active
                && held.contains(channel)),
        0 <= k < steps_in_turn(actions).len(),
    ensures
        match steps_in_turn(actions)[k] {
            PanelStep::SetPtt { channel, active } => !active && held.contains(channel),
            PanelStep::TellPtt { channel, active } => !active && held.contains(channel),
            _ => false,
        },
    decreases actions.len(),
{
    let rest = steps_in_turn(actions.drop_last());
    if k < rest.len() {
        assert forall|a: PanelAction| actions.drop_last().contains(a) implies (
        a matches PanelAction::SetPtt { channel, active } && !active && held.contains(channel)) by {
            let i = choose|i: int| 0 <= i < actions.drop_last().len() && actions.drop_last()[i]
                == a;
            assert(actions[i] == a);
            assert(actions.contains(a));
        }
        lemma_release_steps(actions.drop_last(), held, k);
    } else {
        assert(actions.contains(actions[actions.len() - 1]));
    }
}

// ---------------------------------------------------------------------------
// What a report brings about
// ---------------------------------------------------------------------------

/// Whether a bit of the last two bytes of a report is set: bits 0 to 7 are those of
/// the first of them, bits 8 to 15 those of the second.
pub open spec fn is_down(report: Seq<u8>, bit: int) -> bool {
    if bit < 8 {
        report[12] & (1u8 << (bit as u8)) != 0
    } else {
        report[13] & (1u8 << ((bit - 8) as u8)) != 0
    }
}

proof fn lemma_two_bytes(lo: u8, hi: u8, both: u16, bit: u16)
    by (bit_vector)
    requires
        both == lo + hi * 256,
        bit < 16,
    ensures
        bit < 8 ==> ((both & (1u16 << bit) != 0) <==> (lo & (1u8 << (bit as u8)) != 0)),
        bit >= 8 ==> ((both & (1u16 << bit) != 0) <==> (hi & (1u8 << ((bit - 8) as u8)) != 0)),
{
}

proof fn lemma_is_down(report: Seq<u8>, bit: int)
    requires
        0 <= bit < 16,
    ensures
        held_bit(buttons_in(report), bit) == is_down(report, bit),
{
    lemma_two_bytes(report[12], report[13], buttons_in(report), bit as u16);
}

proof fn lemma_action_of_edge(edges: Seq<ButtonEdge>, map: Seq<Option<u32>>, a: PanelAction)
    ensures
        edge_actions(edges, map).contains(a) <==> exists|e: ButtonEdge| #[trigger]
            edges.contains(e) && edge_action(e, map) == Some(a),
    decreases edges.len(),
{
    if edges.len() > 0 {
        let before = edges.drop_last();
        lemma_action_of_edge(before, map, a);
        let all = edge_actions(edges, map);
        let old_actions = edge_actions(before, map);
        assert(edges =~= before.push(edges.last()));
        if all.contains(a) {
            let k = choose|k: int| 0 <= k < all.len() && all[k] == a;
            if k < old_actions.len() {
                assert(old_actions[k] == a);
                assert(old_actions.contains(a));
                let e = choose|e: ButtonEdge| #[trigger]
                    before.contains(e) && edge_action(e, map) == Some(a);
                let j = choose|j: int| 0 <= j < before.len() && before[j] == e;
                assert(edges[j] == e);
                assert(edges.contains(e));
            } else {
                assert(edges.contains(edges.last()));
            }
        }
        if exists|e: ButtonEdge| #[trigger] edges.contains(e) && edge_action(e, map) == Some(a) {
            let e = choose|e: ButtonEdge| #[trigger]
                edges.contains(e) && edge_action(e, map) == Some(a);
            let j = choose|j: int| 0 <= j < edges.len() && edges[j] == e;
            if j < before.len() {
                assert(before[j] == e);
                assert(before.contains(e));
                assert(old_actions.contains(a));
                let k = choose|k: int| 0 <= k < old_actions.len() && old_actions[k] == a;
                assert(all[k] == a);
            } else {
                assert(all[all.len() - 1] == a);
            }
        }
    }
}

proof fn lemma_step_in_turn(actions: Seq<PanelAction>, s: PanelStep)
    ensures
        steps_in_turn(actions).contains(s) <==> exists|a: PanelAction| #[trigger]
            actions.contains(a) && steps_of(a).contains(s),
    decreases actions.len(),
{
    if actions.len() > 0 {
        let before = actions.drop_last();
        let last = steps_of(actions.last());
        lemma_step_in_turn(before, s);
        let all = steps_in_turn(actions);
        let old_steps = steps_in_turn(before);
        if all.contains(s) {
            let k = choose|k: int| 0 <= k < all.len() && all[k] == s;
            if k < old_steps.len() {
                assert(old_steps[k] == s);
                assert(old_steps.contains(s));
                let a = choose|a: PanelAction| #[trigger]
                    before.contains(a) && steps_of(a).contains(s);
                let j = choose|j: int| 0 <= j < before.len() && before[j] == a;
                assert(actions[j] == a);
                assert(actions.contains(a));
            } else {
                assert(last[k - old_steps.len()] == s);
                assert(actions.contains(actions.last()));
            }
        }
        if exists|a: PanelAction| #[trigger] actions.contains(a) && steps_of(a).contains(s) {
            let a = choose|a: PanelAction| #[trigger]
                actions.contains(a) && steps_of(a).contains(s);
            let j = choose|j: int| 0 <= j < actions.len() && actions[j] == a;
            if j < before.len() {
                assert(before[j] == a);
                assert(before.contains(a));
                assert(old_steps.contains(s));
                let k = choose|k: int| 0 <= k < old_steps.len() && old_steps[k] == s;
                assert(all[k] == s);
            } else {
                let k = choose|k: int| 0 <= k < last.len() && last[k] == s;
                assert(all[old_steps.len() + k] == s);
            }
        }
    }
}

proof fn lemma_concat_contains(a: Seq<PanelAction>, b: Seq<PanelAction>, x: PanelAction)
    ensures
        (a + b).contains(x) <==> a.contains(x) || b.contains(x),
{
    if a.contains(x) {
        let k = choose|k: int| 0 <= k < a.len() && a[k] == x;
        assert((a + b)[k] == x);
    }
    if b.contains(x) {
        let k = choose|k: int| 0 <= k < b.len() && b[k] == x;
        assert((a + b)[a.len() + k] == x);
    }
    if (a + b).contains(x) {
        let k = choose|k: int| 0 <= k < (a + b).len() && (a + b)[k] == x;
        if k < a.len() {
            assert(a[k] == x);
        } else {
            assert(b[k - a.len()] == x);
        }
    }
}

/// Whether encoder `i` of a report was turned by so many detents and has the channel.
spec fn was_turned(
    report: Seq<u8>,
    encoders: Seq<Option<u32>>,
    channel: u32,
    detents: i8,
    i: int,
) -> bool {
    encoders[i] == Some(channel) && report[i] != 0 && (report[i] == detents || report[i] == detents
        + 256)
}

proof fn lemma_delta(report: Seq<u8>, i: int, detents: i8)
    requires
        0 <= i < 12,
    ensures
        deltas_in(report)[i] == signed(report[i]),
        deltas_in(report)[i] != 0 <==> report[i] != 0,
        report[i] == detents || report[i] == detents + 256 ==> deltas_in(report)[i] == detents,
        report[i] == deltas_in(report)[i] || report[i] == deltas_in(report)[i] + 256,
{
}

proof fn lemma_gain_of_report(
    report: Seq<u8>,
    encoders: Seq<Option<u32>>,
    channel: u32,
    detents: i8,
)
    ensures
        gain_actions(deltas_in(report), encoders, 0).contains(
            PanelAction::AdjustGain { channel, detents },
        ) <==> exists|i: int|
            0 <= i < 12 && #[trigger] was_turned(report, encoders, channel, detents, i),
{
    let deltas = deltas_in(report);
    let gains = gain_actions(deltas, encoders, 0);
    let a = PanelAction::AdjustGain { channel, detents };
    law_turned_encoders_act(deltas, encoders);
    if gains.contains(a) {
        let i = choose|i: int|
            0 <= i < deltas.len() && deltas[i] != 0 && (#[trigger] encoders[i]) is Some && a == (
            PanelAction::AdjustGain { channel: encoders[i]->0, detents: deltas[i] });
        lemma_delta(report, i, detents);
        assert(was_turned(report, encoders, channel, detents, i));
    }
    if exists|i: int| 0 <= i < 12 && #[trigger] was_turned(report, encoders, channel, detents, i) {
        let i = choose|i: int|
            0 <= i < 12 && #[trigger] was_turned(report, encoders, channel, detents, i);
        lemma_delta(report, i, detents);
        assert(deltas[i] == detents);
        assert(encoders[i] == Some(channel));
        assert(gains.contains(PanelAction::AdjustGain { channel, detents: deltas[i] }));
    }
}

proof fn lemma_gain_step(
    gains: Seq<PanelAction>,
    edges: Seq<ButtonEdge>,
    keys: Seq<Option<u32>>,
    channel: u32,
    detents: i8,
)
    ensures
        steps_in_turn(gains + edge_actions(edges, keys)).contains(
            PanelStep::AdjustGain { channel, detents },
        ) <==> gains.contains(PanelAction::AdjustGain { channel, detents }),
{
    let pressed = edge_actions(edges, keys);
    let actions = gains + pressed;
    let a = PanelAction::AdjustGain { channel, detents };
    let s = PanelStep::AdjustGain { channel, detents };
    lemma_step_in_turn(actions, s);
    lemma_concat_contains(gains, pressed, a);
    lemma_action_of_edge(edges, keys, a);
    assert(steps_of(a)[0] == s);
    if steps_in_turn(actions).contains(s) {
        let b = choose|b: PanelAction| #[trigger] actions.contains(b) && steps_of(b).contains(s);
        assert(b == a);
    }
}

/// The gain that the engine is asked to turn for a report, byte by byte: encoder `i`
/// stands in byte `i`, a byte below 128 turns up by so many detents and one above
/// turns down by what it lacks to 256; a byte of zero and an encoder without a channel
/// turn nothing. A read that is too short brings about nothing at all.
#[verifier::rlimit(40)]
#[verifier::spinoff_prover]
pub proof fn law_report_turns_gain(
    report: Seq<u8>,
    buttons: u16,
    encoders: Seq<Option<u32>>,
    keys: Seq<Option<u32>>,
    channel: u32,
    detents: i8,
)
    ensures
        report.len() < 14 ==> steps_in_turn(read_actions(report, buttons, encoders, keys)).len()
            == 0,
        report.len() >= 14 ==> (steps_in_turn(
            read_actions(report, buttons, encoders, keys),
        ).contains(PanelStep::AdjustGain { channel, detents }) <==> exists|i: int|
            0 <= i < 12 && #[trigger] encoders[i] == Some(channel) && report[i] != 0 && (
            report[i] == detents || report[i] == detents + 256)),
{
    if report.len() >= 14 {
        let edges = edges_between(buttons, buttons_in(report));
        lemma_gain_of_report(report, encoders, channel, detents);
        lemma_gain_step(
            gain_actions(deltas_in(report), encoders, 0),
            edges,
            keys,
            channel,
            detents,
        );
        if exists|i: int|
            0 <= i < 12 && #[trigger] was_turned(report, encoders, channel, detents, i) {
            let i = choose|i: int|
                0 <= i < 12 && #[trigger] was_turned(report, encoders, channel, detents, i);
            assert(encoders[i] == Some(channel));
        }
        if exists|i: int|
            0 <= i < 12 && #[trigger] encoders[i] == Some(channel) && report[i] != 0 && (report[i]
                == detents || report[i] == detents + 256) {
            let i = choose|i: int|
                0 <= i < 12 && #[trigger] encoders[i] == Some(channel) && report[i] != 0 && (
                report[i] == detents || report[i] == detents + 256);
            assert(was_turned(report, encoders, channel, detents, i));
        }
    }
}

/// What two reports in a row bring about of the buttons: key `k` is bit `12 + k`, and
/// the engine is told to key or release its channel exactly where the second report
/// has the bit set or clear and the first has not; switch `i` is bit `i`, and the
/// console is told of it in the same way.
#[verifier::rlimit(40)]
#[verifier::spinoff_prover]
pub proof fn law_reports_key_channels(
    first: Seq<u8>,
    second: Seq<u8>,
    encoders: Seq<Option<u32>>,
    keys: Seq<Option<u32>>,
    channel: u32,
    index: u8,
    on: bool,
)
    requires
        second.len() >= 14,
    ensures
        ({
            let steps = steps_in_turn(read_actions(second, buttons_in(first), encoders, keys));
            &&& steps.contains(PanelStep::SetPtt { channel, active: on }) <==> exists|k: int|
                0 <= k < 4 && #[trigger] keys[k] == Some(channel) && is_down(second, 12 + k) == on
                    && is_down(first, 12 + k) != on
            &&& steps.contains(PanelStep::TellPtt { channel, active: on }) <==> steps.contains(
                PanelStep::SetPtt { channel, active: on },
            )
            &&& steps.contains(PanelStep::TellSwitch { index, pressed: on }) <==> index < 12
                && is_down(second, index as int) == on && is_down(first, index as int) != on
        }),
{
    let prev = buttons_in(first);
    let next = buttons_in(second);
    let actions = read_actions(second, prev, encoders, keys);
    let steps = steps_in_turn(actions);
    let gains = gain_actions(deltas_in(second), encoders, 0);
    let edges = edges_between(prev, next);
    let pressed = edge_actions(edges, keys);
    let key = PanelAction::SetPtt { channel, active: on };
    let switch = PanelAction::EncoderSwitch { index, pressed: on };
    assert forall|bit: int| 0 <= bit < 16 implies #[trigger] held_bit(prev, bit) == is_down(
        first,
        bit,
    ) && held_bit(next, bit) == is_down(second, bit) by {
        lemma_is_down(first, bit);
        lemma_is_down(second, bit);
    }
    law_turned_encoders_act(deltas_in(second), encoders);
    assert(!gains.contains(key) && !gains.contains(switch));
    lemma_concat_contains(gains, pressed, key);
    lemma_concat_contains(gains, pressed, switch);
    lemma_action_of_edge(edges, keys, key);
    lemma_action_of_edge(edges, keys, switch);
    lemma_step_in_turn(actions, PanelStep::SetPtt { channel, active: on });
    lemma_step_in_turn(actions, PanelStep::TellPtt { channel, active: on });
    lemma_step_in_turn(actions, PanelStep::TellSwitch { index, pressed: on });
    assert(steps_of(key)[0] == (PanelStep::SetPtt { channel, active: on }));
    assert(steps_of(key)[1] == (PanelStep::TellPtt { channel, active: on }));
    assert(steps_of(switch)[0] == (PanelStep::TellSwitch { index, pressed: on }));
    assert(steps.contains(PanelStep::SetPtt { channel, active: on }) <==> pressed.contains(key));
    assert(steps.contains(PanelStep::TellPtt { channel, active: on }) <==> pressed.contains(key));
    assert(steps.contains(PanelStep::TellSwitch { index, pressed: on }) <==> pressed.contains(
        switch,
    ));
    if pressed.contains(key) {
        let e = choose|e: ButtonEdge| #[trigger]
            edges.contains(e) && edge_action(e, keys) == Some(key);
        law_edges_are_the_changes(prev, next, e);
        let bit = choose|bit: int|
            0 <= bit < 16 && #[trigger] held_bit(prev, bit) != held_bit(next, bit) && e == (
            ButtonEdge { kind: kind_of_bit(bit), pressed: held_bit(next, bit) });
        assert(bit >= 12);
        let k = bit - 12;
        assert(keys[k] == Some(channel));
        assert(is_down(second, 12 + k) == on);
    }
    if exists|k: int|
        0 <= k < 4 && #[trigger] keys[k] == Some(channel) && is_down(second, 12 + k) == on
            && is_down(first, 12 + k) != on {
        let k = choose|k: int|
            0 <= k < 4 && #[trigger] keys[k] == Some(channel) && is_down(second, 12 + k) == on
                && is_down(first, 12 + k) != on;
        let bit = 12 + k;
        let e = ButtonEdge { kind: kind_of_bit(bit), pressed: held_bit(next, bit) };
        assert(held_bit(prev, bit) != held_bit(next, bit));
        law_edges_are_the_changes(prev, next, e);
        assert(edges.contains(e));
        assert(edge_action(e, keys) == Some(key));
    }
    if pressed.contains(switch) {
        let e = choose|e: ButtonEdge| #[trigger]
            edges.contains(e) && edge_action(e, keys) == Some(switch);
        law_edges_are_the_changes(prev, next, e);
        let bit = choose|bit: int|
            0 <= bit < 16 && #[trigger] held_bit(prev, bit) != held_bit(next, bit) && e == (
            ButtonEdge { kind: kind_of_bit(bit), pressed: held_bit(next, bit) });
        assert(bit < 12 && bit == index);
    }
    if index < 12 && is_down(second, index as int) == on && is_down(first, index as int) != on {
        let bit = index as int;
        let e = ButtonEdge { kind: kind_of_bit(bit), pressed: held_bit(next, bit) };
        assert(held_bit(prev, bit) != held_bit(next, bit));
        law_edges_are_the_changes(prev, next, e);
        assert(edges.contains(e));
        assert(edge_action(e, keys) == Some(switch));
    }
}

/// What the loop does next: it ends exactly where it is to end, opens the device at its
/// beginning and after a wait, reads it while it is open, and waits after a failure.
pub proof fn law_loop_goes_on(input: PanelInput, stopping: bool, backoff: u64)
    ensures
        next_of(input, stopping, backoff) == PanelNext::End <==> stopping,
        next_of(input, stopping, backoff) == PanelNext::Open <==> !stopping && (input is Begin
            || input is Waited),
        next_of(input, stopping, backoff) == PanelNext::Read <==> !stopping && (input is Opened
            || input is Read),
        !stopping && (input is OpenFailed || input is ReadFailed) ==> next_of(
            input,
            stopping,
            backoff,
        ) == (PanelNext::Wait { ms: backoff }),
{
}

/// The encoders of a report act before its buttons.
#[verifier::rlimit(40)]
#[verifier::spinoff_prover]
pub proof fn law_encoders_act_first(
    report: Seq<u8>,
    buttons: u16,
    encoders: Seq<Option<u32>>,
    keys: Seq<Option<u32>>,
    j: int,
    k: int,
)
    requires
        0 <= j < k < read_actions(report, buttons, encoders, keys).len(),
        read_actions(report, buttons, encoders, keys)[k] is AdjustGain,
    ensures
        read_actions(report, buttons, encoders, keys)[j] is AdjustGain,
{
    let gains = gain_actions(deltas_in(report), encoders, 0);
    let edges = edges_between(buttons, buttons_in(report));
    let pressed = edge_actions(edges, keys);
    let all = read_actions(report, buttons, encoders, keys);
    law_turned_encoders_act(deltas_in(report), encoders);
    if k >= gains.len() {
        let a = pressed[k - gains.len()];
        assert(all[k] == a);
        assert(pressed.contains(a));
        lemma_action_of_edge(edges, keys, a);
    } else {
        assert(all[j] == gains[j]);
        assert(gains.contains(gains[j]));
    }
}

} // verus!
