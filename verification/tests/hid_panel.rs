use aquilla::hid_panel::{
    bit_to_kind, parse_report, ButtonEdge, ButtonKind, EdgeDetector, HidPanelConfig, HidReport,
    PanelAction, PanelDispatcher, NUM_ENCODERS, PTT_BUTTON_BASE_BIT, REPORT_LEN,
};
use aquilla::panel_loop::{
    next_backoff_ms, panel_steps, PanelInput, PanelLoop, PanelNext, PanelStep,
};
use std::collections::HashMap;

#[derive(Debug, Clone, PartialEq)]
enum Shown {
    Ptt { channel: u32, active: bool },
    EncoderSwitch { index: u8, pressed: bool },
    GainChanged { channel: u32, gain_db: f32 },
}

#[derive(Default)]
struct MockEngine {
    ptt_calls: Vec<(u32, bool)>,
    gain_db: HashMap<u32, f32>,
    events: Vec<Shown>,
}

impl MockEngine {
    fn perform(&mut self, actions: &[PanelAction]) {
        for action in actions {
            match *action {
                PanelAction::AdjustGain { channel, detents } => {
                    let entry = self.gain_db.entry(channel).or_insert(0.0);
                    *entry = (*entry + 0.5 * detents as f32).clamp(-60.0, 0.0);
                    let gain_db = *entry;
                    self.events.push(Shown::GainChanged { channel, gain_db });
                }
                PanelAction::SetPtt { channel, active } => {
                    self.ptt_calls.push((channel, active));
                    self.events.push(Shown::Ptt { channel, active });
                }
                PanelAction::EncoderSwitch { index, pressed } => {
                    self.events.push(Shown::EncoderSwitch { index, pressed });
                }
            }
        }
    }
}

fn report_with_buttons(buttons: u16) -> HidReport {
    HidReport { deltas: [0; NUM_ENCODERS], buttons }
}

#[test]
fn parses_deltas_and_button_bitmap() {
    let mut buf = [0u8; REPORT_LEN];
    buf[0] = 3;
    buf[1] = (-2i8) as u8;
    buf[11] = (-1i8) as u8;
    buf[12..14].copy_from_slice(&0b0001_0000_0000_0001u16.to_le_bytes());

    let report = parse_report(&buf).unwrap();
    assert_eq!(report.deltas[0], 3);
    assert_eq!(report.deltas[1], -2);
    assert_eq!(report.deltas[11], -1);
    assert_eq!(report.buttons, 0b0001_0000_0000_0001);
}

#[test]
fn rejects_short_buffer() {
    let buf = [0u8; REPORT_LEN - 1];
    let err = parse_report(&buf).unwrap_err();
    assert_eq!(err.got_len, REPORT_LEN - 1);
}

#[test]
fn accepts_longer_buffer_using_first_report_len_bytes() {
    let mut buf = [0u8; REPORT_LEN + 1];
    buf[0] = 5;
    assert!(parse_report(&buf).is_ok());
}

#[test]
fn edge_detector_emits_only_on_transition() {
    let mut ed = EdgeDetector::new();
    assert!(ed.update(0).is_empty());

    let pressed = ed.update(1 << PTT_BUTTON_BASE_BIT);
    assert_eq!(pressed, vec![ButtonEdge { kind: ButtonKind::Ptt(0), pressed: true }]);

    assert!(ed.update(1 << PTT_BUTTON_BASE_BIT).is_empty());
    assert!(ed.update(1 << PTT_BUTTON_BASE_BIT).is_empty());

    let released = ed.update(0);
    assert_eq!(released, vec![ButtonEdge { kind: ButtonKind::Ptt(0), pressed: false }]);
}

#[test]
fn edge_detector_reports_multiple_simultaneous_transitions() {
    let mut ed = EdgeDetector::new();
    let edges = ed.update((1 << 0) | (1 << PTT_BUTTON_BASE_BIT));
    assert_eq!(edges.len(), 2);
    assert!(edges.contains(&ButtonEdge { kind: ButtonKind::EncoderSwitch(0), pressed: true }));
    assert!(edges.contains(&ButtonEdge { kind: ButtonKind::Ptt(0), pressed: true }));
}

#[test]
fn edge_detector_reset_clears_history_without_emitting() {
    let mut ed = EdgeDetector::new();
    ed.update(1 << PTT_BUTTON_BASE_BIT);
    ed.reset();
    assert!(ed.update(0).is_empty());
}

#[test]
fn dispatcher_maps_ptt_button_to_configured_channel() {
    let mut engine = MockEngine::default();
    let mut config = HidPanelConfig::default();
    config.ptt_channel_map[2] = Some(7);
    let mut dispatcher = PanelDispatcher::new(config);

    engine.perform(&dispatcher.handle_report(report_with_buttons(1 << (PTT_BUTTON_BASE_BIT + 2))));

    assert_eq!(engine.ptt_calls, vec![(7, true)]);
}

#[test]
fn dispatcher_ignores_unmapped_ptt_button() {
    let mut engine = MockEngine::default();
    let mut dispatcher = PanelDispatcher::new(HidPanelConfig::default());

    engine.perform(&dispatcher.handle_report(report_with_buttons(1 << PTT_BUTTON_BASE_BIT)));

    assert!(engine.ptt_calls.is_empty());
}

#[test]
fn dispatcher_does_not_retrigger_ptt_while_held() {
    let mut engine = MockEngine::default();
    let mut config = HidPanelConfig::default();
    config.ptt_channel_map[0] = Some(1);
    let mut dispatcher = PanelDispatcher::new(config);

    let held = report_with_buttons(1 << PTT_BUTTON_BASE_BIT);
    for _ in 0..5 {
        engine.perform(&dispatcher.handle_report(held));
    }

    assert_eq!(engine.ptt_calls, vec![(1, true)]);
}

#[test]
fn dispatcher_applies_gain_step_scaled_by_delta() {
    let mut engine = MockEngine::default();
    let mut dispatcher = PanelDispatcher::new(HidPanelConfig::default());

    let mut report = HidReport::default();
    report.deltas[0] = -2;
    engine.perform(&dispatcher.handle_report(report));

    let gain = *engine.gain_db.get(&1).unwrap();
    assert_eq!(gain, -1.0);
    assert_eq!(engine.events, vec![Shown::GainChanged { channel: 1, gain_db: -1.0 }]);
}

#[test]
fn dispatcher_skips_zero_delta_encoders() {
    let mut engine = MockEngine::default();
    let mut dispatcher = PanelDispatcher::new(HidPanelConfig::default());

    engine.perform(&dispatcher.handle_report(HidReport::default()));

    assert!(engine.gain_db.is_empty());
    assert!(engine.events.is_empty());
}

#[test]
fn disconnect_force_releases_only_channels_actually_held() {
    let mut engine = MockEngine::default();
    let mut config = HidPanelConfig::default();
    config.ptt_channel_map = [Some(1), Some(2), Some(3), Some(4)];
    let mut dispatcher = PanelDispatcher::new(config);

    let held = (1 << PTT_BUTTON_BASE_BIT) | (1 << (PTT_BUTTON_BASE_BIT + 2));
    engine.perform(&dispatcher.handle_report(report_with_buttons(held)));
    assert_eq!(engine.ptt_calls.len(), 2);

    engine.perform(&dispatcher.force_release_all_ptt());

    let calls = engine.ptt_calls.clone();
    assert!(calls.contains(&(1, false)));
    assert!(calls.contains(&(3, false)));
    assert!(!calls.iter().any(|(ch, active)| (*ch == 2 || *ch == 4) && *active));
    assert!(!calls.iter().any(|(ch, _)| *ch == 2 || *ch == 4));
}

#[test]
fn disconnect_with_nothing_held_is_a_no_op() {
    let mut engine = MockEngine::default();
    let mut dispatcher = PanelDispatcher::new(HidPanelConfig::default());

    engine.perform(&dispatcher.force_release_all_ptt());

    assert!(engine.ptt_calls.is_empty());
}

#[test]
fn reconnect_after_disconnect_does_not_replay_stale_release() {
    let mut engine = MockEngine::default();
    let mut config = HidPanelConfig::default();
    config.ptt_channel_map[0] = Some(1);
    let mut dispatcher = PanelDispatcher::new(config);

    engine.perform(&dispatcher.handle_report(report_with_buttons(1 << PTT_BUTTON_BASE_BIT)));
    engine.perform(&dispatcher.force_release_all_ptt());
    let count_after_disconnect = engine.ptt_calls.len();

    engine.perform(&dispatcher.handle_report(report_with_buttons(0)));

    assert_eq!(engine.ptt_calls.len(), count_after_disconnect);
}

#[test]
fn encoder_switches_are_announced_without_keying() {
    let mut engine = MockEngine::default();
    let mut config = HidPanelConfig::default();
    config.ptt_channel_map[3] = Some(9);
    let mut dispatcher = PanelDispatcher::new(config);
    engine.perform(&dispatcher.handle_report(report_with_buttons((1 << 11) | (1 << 15))));
    engine.perform(&dispatcher.handle_report(report_with_buttons(1 << 15)));
    assert_eq!(
        engine.events,
        vec![
            Shown::EncoderSwitch { index: 11, pressed: true },
            Shown::Ptt { channel: 9, active: true },
            Shown::EncoderSwitch { index: 11, pressed: false },
        ]
    );
}

#[test]
fn default_wiring_is_one_encoder_a_channel() {
    let config = HidPanelConfig::default();
    for i in 0..12u32 {
        assert_eq!(config.encoder_channel_map[i as usize], Some(i + 1));
    }
    assert_eq!(config.ptt_channel_map, [None; 4]);
    assert_eq!(config.vendor_id, 0x1209);
    assert_eq!(config.product_id, 0xA612);
    assert_eq!(config.reconnect_initial_backoff_ms, 250);
    assert_eq!(config.reconnect_max_backoff_ms, 10_000);
    assert_eq!(config.read_timeout_ms, 250);
    assert_eq!(bit_to_kind(11), ButtonKind::EncoderSwitch(11));
    assert_eq!(bit_to_kind(15), ButtonKind::Ptt(3));
}

#[test]
fn the_console_is_told_after_the_engine() {
    let steps = panel_steps(&vec![
        PanelAction::AdjustGain { channel: 2, detents: -3 },
        PanelAction::EncoderSwitch { index: 4, pressed: true },
        PanelAction::SetPtt { channel: 7, active: true },
    ]);
    assert_eq!(
        steps,
        vec![
            PanelStep::AdjustGain { channel: 2, detents: -3 },
            PanelStep::TellGain { channel: 2 },
            PanelStep::TellSwitch { index: 4, pressed: true },
            PanelStep::SetPtt { channel: 7, active: true },
            PanelStep::TellPtt { channel: 7, active: true },
        ]
    );
}

fn panel_loop() -> PanelLoop {
    let mut config = HidPanelConfig::default();
    config.ptt_channel_map[0] = Some(3);
    config.ptt_channel_map[2] = Some(8);
    PanelLoop::new(config)
}

fn report_bytes(buttons: u16) -> Vec<u8> {
    let mut bytes = vec![0u8; REPORT_LEN];
    bytes[12] = buttons as u8;
    bytes[13] = (buttons >> 8) as u8;
    bytes
}

#[test]
fn a_lost_device_releases_before_it_is_told_of() {
    let mut panel = panel_loop();
    assert_eq!(panel.turn(PanelInput::Begin, false).next, PanelNext::Open);
    let turn = panel.turn(PanelInput::Opened, false);
    assert_eq!(turn.steps, vec![PanelStep::TellConnected]);
    assert_eq!(turn.next, PanelNext::Read);
    let turn = panel.turn(PanelInput::Read(vec![]), false);
    assert!(turn.steps.is_empty());
    let turn = panel.turn(PanelInput::Read(vec![0xff; REPORT_LEN - 1]), false);
    assert!(turn.steps.is_empty());
    assert_eq!(turn.next, PanelNext::Read);
    let turn = panel.turn(PanelInput::Read(report_bytes(0x1003)), false);
    assert_eq!(
        turn.steps,
        vec![
            PanelStep::TellSwitch { index: 0, pressed: true },
            PanelStep::TellSwitch { index: 1, pressed: true },
            PanelStep::SetPtt { channel: 3, active: true },
            PanelStep::TellPtt { channel: 3, active: true },
        ]
    );
    let turn = panel.turn(PanelInput::ReadFailed, false);
    assert_eq!(
        turn.steps,
        vec![
            PanelStep::SetPtt { channel: 3, active: false },
            PanelStep::TellPtt { channel: 3, active: false },
            PanelStep::TellDisconnected,
        ]
    );
    assert_eq!(turn.next, PanelNext::Wait { ms: 250 });
    assert_eq!(panel.turn(PanelInput::Waited, false).next, PanelNext::Open);
}

#[test]
fn the_loop_waits_longer_until_the_device_is_open() {
    let mut panel = panel_loop();
    let mut waits = vec![];
    for _ in 0..7 {
        match panel.turn(PanelInput::OpenFailed, false).next {
            PanelNext::Wait { ms } => waits.push(ms),
            _ => panic!("a wait"),
        }
        assert_eq!(panel.turn(PanelInput::Waited, false).next, PanelNext::Open);
    }
    assert_eq!(waits, vec![250, 500, 1000, 2000, 4000, 8000, 10_000]);
    panel.turn(PanelInput::Opened, false);
    assert_eq!(panel.turn(PanelInput::ReadFailed, false).next, PanelNext::Wait { ms: 250 });
    assert_eq!(panel.turn(PanelInput::OpenFailed, false).next, PanelNext::Wait { ms: 500 });
}

#[test]
fn a_loop_that_ends_releases_what_it_keyed() {
    let mut panel = panel_loop();
    panel.turn(PanelInput::Opened, false);
    panel.turn(PanelInput::Read(report_bytes(1 << 14)), false);
    let turn = panel.turn(PanelInput::Read(vec![]), true);
    assert_eq!(
        turn.steps,
        vec![
            PanelStep::SetPtt { channel: 8, active: false },
            PanelStep::TellPtt { channel: 8, active: false },
        ]
    );
    assert_eq!(turn.next, PanelNext::End);
    let mut panel = panel_loop();
    assert_eq!(panel.turn(PanelInput::Begin, true).next, PanelNext::End);
    let turn = panel.turn(PanelInput::ReadFailed, true);
    assert_eq!(turn.steps, vec![PanelStep::TellDisconnected]);
    assert_eq!(turn.next, PanelNext::End);
}

#[test]
fn backoff_doubles_up_to_the_greatest() {
    let mut waits = vec![];
    let mut b = 250;
    for _ in 0..7 {
        waits.push(b);
        b = next_backoff_ms(b, 10_000);
    }
    assert_eq!(waits, vec![250, 500, 1000, 2000, 4000, 8000, 10_000]);
    assert_eq!(next_backoff_ms(u64::MAX, 10), 10);
}
