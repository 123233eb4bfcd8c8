use aquilla::calls::{
    branch_text, bye_for, call_id_text, rtp_call, tag_text, CallPlan, CallingSession,
    IncomingOutcome, Leg, ReplyAction,
};
use aquilla::config::default_config;
use aquilla::events::{Event, LogLevel};
use aquilla::state::{ActiveCall, ChannelStatus, Gateway, IncomingCallContext};

fn gateway() -> Gateway {
    let mut config = default_config();
    config.channels[1].protocol = "SIP".to_string();
    Gateway::from_config(&config)
}

fn session() -> CallingSession {
    CallingSession {
        user: "bob".to_string(),
        target_ip: "10.0.0.5".to_string(),
        target_port: 5060,
        local_ip: "10.0.0.2".to_string(),
        local_sip_port: 5062,
        local_rtp_port: 6004,
        call_id: "c1".to_string(),
        from_tag: "f1".to_string(),
        to_tag: None,
    }
}

fn logs(events: &Vec<Event>) -> Vec<String> {
    let mut out = Vec::new();
    for e in events {
        if let Event::Log { level, channel_id, message } = e {
            out.push(format!("{} {} {}", level.as_str(), channel_id, message));
        }
    }
    out
}

fn ringing_gateway() -> Gateway {
    let mut g = gateway();
    g.channels[3].status = ChannelStatus::Incoming;
    g.channels[3].incoming_call = Some(IncomingCallContext {
        call_id: "in1".to_string(),
        from: "<sip:x@y>;tag=q".to_string(),
        to: "<sip:104@z>".to_string(),
        via: "SIP/2.0/UDP y".to_string(),
        cseq: "7 INVITE".to_string(),
        remote_ip: "10.0.0.8".to_string(),
        remote_rtp_port: 7000,
        remote_sip_port: 5064,
    });
    g
}

#[test]
fn identifiers_are_hexadecimal() {
    assert_eq!(call_id_text(0xbeef), "000000000000beef");
    assert_eq!(tag_text(0xbeef), "0000beef");
    assert_eq!(branch_text(0xbeef), "z9hG4bKbeef");
}

#[test]
fn calls_are_planned_by_the_protocol() {
    let g = gateway();
    assert!(g.is_rtp(1));
    assert!(!g.is_rtp(2));
    assert!(!g.is_rtp(99));
    match g.plan_call(1, "rtp://10.0.0.5:6000") {
        CallPlan::Rtp { dest_ip, dest_port, local_port } => {
            assert_eq!(dest_ip, "10.0.0.5");
            assert_eq!(dest_port, 6000);
            assert_eq!(local_port, 6002);
        }
        _ => panic!("a direct session"),
    }
    match g.plan_call(2, "sip:bob@10.0.0.5") {
        CallPlan::Sip { user, ip, port } => {
            assert_eq!((user.as_str(), ip.as_str(), port), ("bob", "10.0.0.5", 5060));
        }
        _ => panic!("a call"),
    }
    assert!(matches!(g.plan_call(2, "nonsense"), CallPlan::BadUri));
}

#[test]
fn a_direct_session_connects() {
    let mut g = gateway();
    let events = g.connect_rtp(1, "rtp://10.0.0.5:6000", "G.722", 6002, "10.0.0.5:6000");
    let c = &g.channels[0];
    assert_eq!(c.status, ChannelStatus::Connected);
    assert_eq!(c.target_uri, "rtp://10.0.0.5:6000");
    assert_eq!(c.codec, "G.722");
    assert_eq!((c.latency, c.jitter, c.rx_kbps, c.tx_kbps), (5, 1, 80, 0));
    assert!(!events.is_empty());
    let call = rtp_call(1, "10.0.0.5", 6000, "10.0.0.2", 6002);
    assert_eq!(call.call_id, "rtp-1");
    assert_eq!(call.local_sip_port, 0);
    g.add_call(call);
    let h = g.hang_up(1);
    assert!(h.call.is_some());
    assert!(!h.send_bye);
    let events = h.events;
    assert_eq!(
        logs(&events),
        vec![
            "info 1 [RTP Stack] Direct RTP audio session closed.",
            "info 1 [rvoip] Channel mapping released. Audio slot I2S Slot 0 unlinked.",
        ]
    );
    assert_eq!(g.channels[0].status, ChannelStatus::Idle);
    assert!(g.active_calls.is_empty());
}

#[test]
fn dialing_needs_a_channel() {
    let mut g = gateway();
    assert!(g.dial(99, "sip:bob@10.0.0.5", "Opus", "10.0.0.5", 5060).is_none());
    assert!(g.dial(2, "sip:bob@10.0.0.5", "Opus", "10.0.0.5", 5060).is_some());
    assert_eq!(g.channels[1].status, ChannelStatus::Ringing);
}

#[test]
fn a_call_goes_through_its_replies() {
    let mut g = gateway();
    let mut s = session();
    g.dial(2, "sip:bob@10.0.0.5", "Opus", "10.0.0.5", 5060);
    g.add_call(s.active_call(2));
    assert!(s.invite(255).starts_with("INVITE sip:bob@10.0.0.5:5060 SIP/2.0\r\nVia: SIP/2.0/UDP 10.0.0.2:5062;branch=z9hG4bKff\r\n"));
    let (action, events) = g.handle_reply(2, &mut s, "SIP/2.0 100 Trying\r\n", 1);
    assert!(matches!(action, ReplyAction::Wait));
    assert_eq!(logs(&events), vec!["sip_rx 2 [rsipstack] SIP/2.0 100 Trying received"]);
    let (_, events) = g.handle_reply(2, &mut s, "SIP/2.0 180 Ringing\r\n", 1);
    assert_eq!(logs(&events), vec!["sip_rx 2 [rsipstack] SIP/2.0 180 Ringing received"]);
    let (action, events) = g.handle_reply(
        2,
        &mut s,
        "SIP/2.0 200 OK\r\nTo: <sip:bob@x>;tag=tt\r\n\r\nm=audio 7002 RTP/AVP 0\r\n",
        16,
    );
    match action {
        ReplyAction::Answered { ack, rtp_port } => {
            assert_eq!(rtp_port, 7002);
            assert!(ack.contains("branch=z9hG4bK10"));
            assert!(ack.contains("To: <sip:bob@10.0.0.5:5060>;tag=tt\r\n"));
        }
        _ => panic!("an answer"),
    }
    assert_eq!(s.to_tag, Some("tt".to_string()));
    assert_eq!(g.active_calls[0].to_tag, Some("tt".to_string()));
    assert_eq!(g.channels[1].status, ChannelStatus::Connected);
    assert_eq!(
        logs(&events),
        vec![
            "sip_rx 2 [rsipstack] SIP/2.0 200 OK received. Negotiated remote RTP port 7002",
            "sip_tx 2 [rsipstack] ACK sent. Audio session starting...",
        ]
    );
    let (action, _) = g.handle_reply(2, &mut s, "BYE sip:caller@x SIP/2.0\r\n", 1);
    match action {
        ReplyAction::Ended { call } => assert_eq!(call.unwrap().call_id, "c1"),
        _ => panic!("an end"),
    }
    assert_eq!(g.channels[1].status, ChannelStatus::Idle);
    assert!(g.active_calls.is_empty());
}

#[test]
fn a_refused_call_fails_the_channel() {
    let mut g = gateway();
    let mut s = session();
    g.dial(2, "sip:bob@10.0.0.5", "Opus", "10.0.0.5", 5060);
    g.add_call(s.active_call(2));
    let (action, events) = g.handle_reply(2, &mut s, "SIP/2.0 486 Busy Here\r\n", 1);
    assert!(matches!(action, ReplyAction::Failed));
    assert_eq!(logs(&events), vec!["error 2 [rsipstack] Outbound call failed with: SIP/2.0 486 Busy Here"]);
    assert_eq!(g.channels[1].status, ChannelStatus::Failed);
    assert!(g.active_calls.is_empty());
    assert!(g.channels[1].status.free());
}

#[test]
fn hanging_up_tells_the_other_side() {
    let mut g = gateway();
    let s = session();
    let mut call = s.active_call(2);
    call.to_tag = Some("tt".to_string());
    let bye = bye_for(&call, 1);
    assert!(bye.contains("Call-ID: c1\r\n"));
    assert!(bye.contains(">;tag=tt\r\n"));
    g.add_call(call);
    let h = g.hang_up(2);
    assert!(h.send_bye);
    assert_eq!(
        logs(&h.events),
        vec![
            "sip_tx 2 [rsipstack] Transmitting BYE message.",
            "info 2 [rsipstack] Call hung up.",
            "info 2 [rvoip] Channel mapping released. Audio slot I2S Slot 1 unlinked.",
        ]
    );
    assert!(h.found);
    let none = g.hang_up(99);
    assert!(!none.found && none.events.is_empty() && none.call.is_none() && !none.send_bye);
}

#[test]
fn keying_is_announced() {
    let mut g = gateway();
    let events = g.set_ptt(3, true);
    assert!(g.channels[2].ptt_active);
    assert_eq!(g.channels[2].tx_kbps, 80);
    assert_eq!(logs(&events), vec!["info 3 [PTT] Channel 3 PTT pressed (Transmitting)"]);
    let events = g.set_ptt(3, false);
    assert_eq!(logs(&events), vec!["info 3 [PTT] Channel 3 PTT released (Muted)"]);
    assert!(g.set_ptt(99, true).is_empty());
}

#[test]
fn a_ringing_call_is_accepted() {
    let mut g = ringing_gateway();
    match g.accept_call(4) {
        IncomingOutcome::Taken { call, update, patches, note } => {
            assert_eq!(call.call_id, "in1");
            match note {
                Event::Log { level, channel_id, message } => {
                    assert_eq!(level, LogLevel::Info);
                    assert_eq!(channel_id, 4);
                    assert_eq!(message, "[rsipstack] Call Accepted");
                }
                _ => panic!("a note"),
            }
            assert!(matches!(update, Event::Update { channel } if channel.status == ChannelStatus::Connected));
            assert!(patches.is_empty());
            let msg = call.accept_message(4, "10.0.0.2", 5062, 6008);
            assert!(msg.starts_with("SIP/2.0 200 OK\r\nVia: SIP/2.0/UDP y\r\nFrom: <sip:x@y>;tag=q\r\nTo: <sip:104@z>;tag=local-4\r\nCall-ID: in1\r\nCSeq: 7 INVITE\r\nContact: <sip:113@10.0.0.2:5062>\r\n"));
            let active = call.into_call(4, "10.0.0.2", 5062, 6008);
            assert_eq!(active.to_tag, Some("local-4".to_string()));
            assert_eq!(active.target_port, 5064);
        }
        _ => panic!("a call"),
    }
    assert!(matches!(g.accept_call(4), IncomingOutcome::NotRinging));
    assert!(matches!(g.accept_call(99), IncomingOutcome::NotFound));
}

#[test]
fn a_ringing_call_is_rejected() {
    let mut g = ringing_gateway();
    match g.reject_call(4) {
        IncomingOutcome::Taken { call, note, .. } => {
            match note {
                Event::Log { level, message, .. } => {
                    assert_eq!(level, LogLevel::Warn);
                    assert_eq!(message, "[rsipstack] Call Rejected");
                }
                _ => panic!("a note"),
            }
            assert_eq!(
                call.reject_message(),
                "SIP/2.0 486 Busy Here\r\nVia: SIP/2.0/UDP y\r\nFrom: <sip:x@y>;tag=q\r\nTo: <sip:104@z>;tag=busy\r\nCall-ID: in1\r\nCSeq: 7 INVITE\r\nContent-Length: 0\r\n\r\n"
            );
        }
        _ => panic!("a call"),
    }
    assert_eq!(g.channels[3].status, ChannelStatus::Idle);
    assert!(g.channels[3].incoming_call.is_none());
    let mut g = ringing_gateway();
    g.channels[3].incoming_call = None;
    assert!(matches!(g.reject_call(4), IncomingOutcome::NothingKept));
}

#[test]
fn legs_come_up_and_go_down() {
    let mut g = gateway();
    g.add_call(ActiveCall {
        channel_id: 1,
        target_ip: "a".to_string(),
        target_port: 1,
        local_ip: "b".to_string(),
        local_sip_port: 2,
        local_rtp_port: 3,
        call_id: "c".to_string(),
        from_tag: String::new(),
        to_tag: None,
    });
    g.add_call(session().active_call(2));
    g.dispatch_groups[0].member_ids = vec![1, 2];
    g.open_groups(1);
    assert_eq!(g.open_groups(2).len(), 2);
    assert!(g.leg_up(1, Leg::Recorder).is_some());
    assert!(g.leg_up(1, Leg::Bridge).is_some());
    assert!(g.leg_up(99, Leg::Bridge).is_none());
    g.set_link_alive(1, true);
    let c = &g.channels[0];
    assert!(c.amp_streaming && c.bridge_connected && c.dispatch_connected && c.bridge_link_alive);
    g.end_by_peer(1, true);
    let c = &g.channels[0];
    assert!(!c.amp_streaming && !c.bridge_connected && !c.dispatch_connected && !c.bridge_link_alive);
    assert!(!g.channels[1].dispatch_connected);
    assert_eq!(g.flags.len(), 4);
    g.end_by_peer(2, true);
    assert!(g.flags.is_empty());
}

#[test]
fn a_new_call_makes_the_old_one_go() {
    let mut g = gateway();
    g.add_call(session().active_call(2));
    let mut other = session().active_call(3);
    other.call_id = "c3".to_string();
    g.add_call(other);
    let start = g.begin_call(2, "sip:alice@10.0.0.6:5070");
    assert_eq!(start.ended.unwrap().call_id, "c1");
    assert!(start.events.is_empty());
    match start.plan {
        CallPlan::Sip { user, ip, port } => {
            assert_eq!((user.as_str(), ip.as_str(), port), ("alice", "10.0.0.6", 5070))
        }
        _ => panic!("a plan by SIP"),
    }
    assert_eq!(g.active_calls.len(), 1);
    assert_eq!(g.active_calls[0].call_id, "c3");
    g.add_call(session().active_call(2));
    assert_eq!(g.active_calls.iter().filter(|c| c.channel_id == 2).count(), 1);
    let start = g.begin_call(5, "nowhere");
    assert!(start.ended.is_none());
    assert!(matches!(start.plan, CallPlan::Rtp { dest_port: 5004, local_port: 6010, .. }));
    assert!(matches!(g.begin_call(2, "nowhere").plan, CallPlan::BadUri));
}

#[test]
fn a_call_that_fails_keeps_no_links() {
    let mut g = gateway();
    g.add_call(session().active_call(2));
    g.dispatch_groups[0].member_ids = vec![2];
    g.open_groups(2);
    assert_eq!(g.live_groups(2), vec![1]);
    let mut s = session();
    let (action, events) = g.handle_reply(2, &mut s, "SIP/2.0 503 Service Unavailable\r\n\r\n", 1);
    assert!(matches!(action, ReplyAction::Failed));
    assert_eq!(events.len(), 2);
    assert!(g.flags.is_empty());
    assert!(g.active_calls.is_empty());
    assert_eq!(g.channels[1].status, ChannelStatus::Failed);
}

#[test]
fn packets_of_a_session_are_read() {
    let mut g = gateway();
    g.add_call(session().active_call(2));
    let mut s = session();
    let (action, events) = g.handle_reply_packet(2, &mut s, b"SIP/2.0 180 Ringing\r\n\r\n", 1);
    assert!(matches!(action, ReplyAction::Wait));
    assert_eq!(logs(&events), vec!["sip_rx 2 [rsipstack] SIP/2.0 180 Ringing received"]);
    let answer = b"SIP/2.0 200 OK\r\nTo: <sip:bob@10.0.0.5>;tag=zz\r\nX: \xff\r\nCSeq: 1 INVITE\r\n\r\nm=audio 7100 RTP/AVP 0\r\n";
    let (action, _) = g.handle_reply_packet(2, &mut s, answer, 1);
    match action {
        ReplyAction::Answered { ack, rtp_port } => {
            assert_eq!(rtp_port, 7100);
            assert!(ack.starts_with("ACK sip:bob@10.0.0.5:5060 SIP/2.0\r\n"));
        }
        _ => panic!("an answer"),
    }
    assert_eq!(s.to_tag, Some("zz".to_string()));
    assert_eq!(g.channels[1].status, ChannelStatus::Connected);
}

#[test]
fn the_port_of_an_accepted_call_waits_for_its_end() {
    let mut g = gateway();
    g.add_call(session().active_call(2));
    assert!(g.handle_accepted_packet(2, b"ACK sip:x SIP/2.0\r\n\r\n", "10.0.0.2", 5062).is_none());
    assert_eq!(g.active_calls.len(), 1);
    let end = g.handle_accepted_packet(2, b"BYE sip:x SIP/2.0\r\n\r\n", "10.0.0.2", 5062).unwrap();
    assert_eq!(end.call.unwrap().channel_id, 2);
    assert!(end.reply.unwrap().starts_with("SIP/2.0 200 OK\r\n"));
    assert_eq!(logs(&end.events), vec!["sip_rx 2 [rsipstack] SIP BYE received from target (dedicated port)"]);
    let again = g.handle_accepted_packet(2, b"BYE sip:x SIP/2.0\r\n\r\n", "10.0.0.2", 5062).unwrap();
    assert!(again.reply.is_none() && again.call.is_none());
}

#[test]
fn legs_are_found_by_the_settings() {
    let mut g = gateway();
    assert_eq!(g.amp_settings_for(3), (true, "127.0.0.1".to_string(), 5008));
    assert_eq!(g.bridge_settings_for(3), (false, "127.0.0.1".to_string(), 6008, 8008));
    g.channels[2].bridge_enabled = true;
    g.channels[2].bridge_local_port = Some(7777);
    assert_eq!(g.bridge_settings_for(3), (true, "127.0.0.1".to_string(), 6008, 7777));
    g.amp_enabled = false;
    assert_eq!(g.amp_settings_for(3).0, false);
    assert_eq!(g.amp_settings_for(99), (false, "127.0.0.1".to_string(), 0));
}

#[test]
fn signalling_is_announced_where_it_changes() {
    let mut g = gateway();
    assert!(g.set_remote_signalling(1, true, false).is_some());
    assert!(g.set_remote_signalling(1, true, false).is_none());
    assert!(g.channels[0].ed137_remote_squelch);
    assert!(matches!(g.set_level(1, 42), Event::AudioLevel { id: 1, value: 42 }));
    assert_eq!(g.channels[0].audio_level, 42);
    assert!(matches!(
        g.select_device("Mic"),
        Event::DeviceUpdate { sip_port: 5060, selected_device } if selected_device == "Mic"
    ));
    assert_eq!(g.selected_device, Some("Mic".to_string()));
    assert_eq!(LogLevel::Warn.as_str(), "warn");
    assert_eq!(ChannelStatus::Incoming.as_str(), "INCOMING");
}
