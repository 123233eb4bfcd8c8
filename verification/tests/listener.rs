use aquilla::config::default_config;
use aquilla::crypto::compute_sip_digest_sha256;
use aquilla::events::Event;
use aquilla::listener::{authenticate, request_kind, NonceStore, RequestKind};
use aquilla::state::{ActiveCall, ChannelStatus, Gateway};

fn open_gateway() -> Gateway {
    let mut config = default_config();
    for c in config.channels.iter_mut() {
        c.sip_auth_required = false;
    }
    Gateway::from_config(&config)
}

fn request(ext: &str, call_id: &str, auth: &str) -> String {
    let auth_line = if auth.is_empty() { String::new() } else { format!("Authorization: {}\r\n", auth) };
    format!(
        "INVITE sip:{}@10.0.0.1 SIP/2.0\r\nVia: SIP/2.0/UDP 10.0.0.7:5060\r\nFrom: <sip:a@b>;tag=1\r\nTo: <sip:{}@c>\r\nCall-ID: {}\r\nCSeq: 1 INVITE\r\n{}\r\nm=audio 7100 RTP/AVP 0\r\n",
        ext, ext, call_id, auth_line
    )
}

fn invite(g: &mut Gateway, n: &mut NonceStore, msg: &str) -> (Option<String>, Vec<Event>) {
    g.handle_invite(n, msg, "10.0.0.7", 5061, "securepass123", "fresh")
}

#[test]
fn requests_are_told_apart() {
    assert_eq!(request_kind("INVITE sip:x"), RequestKind::Invite);
    assert_eq!(request_kind("CANCEL sip:x"), RequestKind::End);
    assert_eq!(request_kind("BYE sip:x"), RequestKind::End);
    assert_eq!(request_kind("ACK sip:x"), RequestKind::Other);
    assert_eq!(request_kind("INVITE"), RequestKind::Other);
}

#[test]
fn extensions_number_the_channels() {
    let mut g = open_gateway();
    assert_eq!(g.match_channel("105", "1.2.3.4"), Some(5));
    assert_eq!(g.match_channel("5", "1.2.3.4"), Some(5));
    assert_eq!(g.match_channel("receiver9", "1.2.3.4"), Some(9));
    assert_eq!(g.match_channel("nobody", "192.168.1.1011"), Some(11));
    assert_eq!(g.match_channel("nobody", "1.2.3.4"), Some(1));
    g.channels[4].status = ChannelStatus::Connected;
    assert_eq!(g.match_channel("105", "1.2.3.4"), Some(1));
    assert_eq!(g.match_channel("113", "1.2.3.4"), Some(1));
    for c in g.channels.iter_mut() {
        c.status = ChannelStatus::Ringing;
    }
    assert_eq!(g.match_channel("105", "1.2.3.4"), None);
    g.channels[7].status = ChannelStatus::Failed;
    assert_eq!(g.match_channel("105", "1.2.3.4"), Some(8));
}

#[test]
fn a_call_rings() {
    let mut g = open_gateway();
    let mut n = NonceStore::new();
    let (reply, events) = invite(&mut g, &mut n, &request("103", "c1", ""));
    assert_eq!(
        reply.unwrap(),
        "SIP/2.0 180 Ringing\r\nVia: SIP/2.0/UDP 10.0.0.7:5060\r\nFrom: <sip:a@b>;tag=1\r\nTo: <sip:103@c>;tag=local-3\r\nCall-ID: c1\r\nCSeq: 1 INVITE\r\nContact: <sip:113@10.0.0.7:5060>\r\nContent-Length: 0\r\n\r\n"
    );
    assert_eq!(events.len(), 2);
    match &events[1] {
        Event::Log { message, channel_id, .. } => {
            assert_eq!(*channel_id, 3);
            assert_eq!(
                message,
                "[rsipstack] Incoming INVITE from 10.0.0.7 (ext '103') → assigned to Channel 3"
            );
        }
        _ => panic!("a log line"),
    }
    assert_eq!(g.channels[2].status, ChannelStatus::Incoming);
    let kept = g.channels[2].incoming_call.as_ref().unwrap();
    assert_eq!(kept.call_id, "c1");
    assert_eq!(kept.remote_ip, "10.0.0.7");
    assert_eq!(kept.remote_sip_port, 5061);
    assert_eq!(kept.remote_rtp_port, 7100);
}

#[test]
fn a_repeated_request_is_answered_alike() {
    let mut g = open_gateway();
    let mut n = NonceStore::new();
    let (first, _) = invite(&mut g, &mut n, &request("103", "c1", ""));
    let (again, events) = invite(&mut g, &mut n, &request("103", "c1", ""));
    assert_eq!(first, again);
    assert!(events.is_empty());
    assert_eq!(g.channels.iter().filter(|c| c.status == ChannelStatus::Incoming).count(), 1);
}

#[test]
fn a_call_that_is_up_is_left_alone() {
    let mut g = open_gateway();
    g.add_call(active(2, "c9"));
    let mut n = NonceStore::new();
    let (reply, events) = invite(&mut g, &mut n, &request("103", "c9", ""));
    assert_eq!(reply, None);
    assert!(events.is_empty());
    assert_eq!(g.channels[2].status, ChannelStatus::Idle);
}

fn active(channel_id: u32, call_id: &str) -> ActiveCall {
    ActiveCall {
        channel_id,
        target_ip: "10.0.0.7".to_string(),
        target_port: 5060,
        local_ip: "10.0.0.1".to_string(),
        local_sip_port: 5062,
        local_rtp_port: 6004,
        call_id: call_id.to_string(),
        from_tag: String::new(),
        to_tag: None,
    }
}

#[test]
fn a_full_gateway_is_busy() {
    let mut g = open_gateway();
    for c in g.channels.iter_mut() {
        c.status = ChannelStatus::Connected;
    }
    let mut n = NonceStore::new();
    let (reply, events) = invite(&mut g, &mut n, &request("103", "c1", ""));
    assert_eq!(
        reply.unwrap(),
        "SIP/2.0 486 Busy Here\r\nVia: SIP/2.0/UDP 10.0.0.7:5061;branch=z9hG4bK-inc\r\nFrom: <sip:a@b>;tag=1\r\nTo: <sip:103@c>;tag=busy\r\nCall-ID: c1\r\nCSeq: 1 INVITE\r\nContent-Length: 0\r\n\r\n"
    );
    assert!(events.is_empty());
}

fn credentials(nonce: &str, password: &str) -> String {
    let response = compute_sip_digest_sha256("alice", "aquilla-12", password, nonce, "INVITE", "sip:101@10.0.0.1");
    format!(
        "Digest username=\"alice\", realm=\"aquilla-12\", nonce=\"{}\", uri=\"sip:101@10.0.0.1\", response=\"{}\"",
        nonce, response
    )
}

#[test]
fn a_caller_is_challenged_and_then_rings() {
    let mut g = Gateway::from_config(&default_config());
    let mut n = NonceStore::new();
    let (reply, events) = invite(&mut g, &mut n, &request("101", "c1", ""));
    assert_eq!(
        reply.unwrap(),
        "SIP/2.0 407 Proxy Authentication Required\r\nVia: SIP/2.0/UDP 10.0.0.7:5060\r\nFrom: <sip:a@b>;tag=1\r\nTo: <sip:101@c>\r\nCall-ID: c1\r\nCSeq: 1 INVITE\r\nProxy-Authenticate: Digest realm=\"aquilla-12\", nonce=\"fresh\", algorithm=SHA-256, qop=\"auth\"\r\nContent-Length: 0\r\n\r\n"
    );
    assert!(events.is_empty());
    assert_eq!(g.channels[0].status, ChannelStatus::Idle);
    let (reply, events) = invite(&mut g, &mut n, &request("101", "c1", &credentials("fresh", "securepass123")));
    assert!(reply.unwrap().starts_with("SIP/2.0 180 Ringing"));
    assert_eq!(events.len(), 2);
    assert_eq!(g.channels[0].status, ChannelStatus::Incoming);
}

#[test]
fn an_answer_to_a_challenge_works_once() {
    let mut n = NonceStore::new();
    n.issue("n1", "c1");
    let good = credentials("n1", "securepass123");
    assert!(authenticate(&mut n, &good, "securepass123"));
    assert!(!authenticate(&mut n, &good, "securepass123"));
}

#[test]
fn a_wrong_answer_uses_the_nonce_up() {
    let mut n = NonceStore::new();
    n.issue("n1", "c1");
    assert!(!authenticate(&mut n, &credentials("n1", "guess"), "securepass123"));
    assert!(!n.redeem("n1"));
    n.issue("n2", "c1");
    assert!(!authenticate(&mut n, "", "securepass123"));
    assert!(!authenticate(&mut n, "Digest username=\"alice\", nonce=\"n2\"", "securepass123"));
    assert!(n.redeem("n2"));
    assert!(!authenticate(&mut n, &credentials("never issued", "securepass123"), "securepass123"));
}

fn end(method: &str, call_id: &str) -> String {
    format!(
        "{} sip:103@10.0.0.1 SIP/2.0\r\nVia: v\r\nFrom: f\r\nTo: t\r\nCall-ID: {}\r\nCSeq: 2 {}\r\n\r\n",
        method, call_id, method
    )
}

#[test]
fn a_cancelled_call_leaves_no_trace() {
    let mut g = open_gateway();
    let mut n = NonceStore::new();
    invite(&mut g, &mut n, &request("103", "c1", ""));
    let out = g.handle_end(&end("CANCEL", "c1"), "10.0.0.7:5060");
    assert_eq!(
        out.reply.unwrap(),
        "SIP/2.0 200 OK\r\nVia: v\r\nFrom: f\r\nTo: t\r\nCall-ID: c1\r\nCSeq: 2 CANCEL\r\nContent-Length: 0\r\n\r\n"
    );
    assert!(out.call.is_none());
    match &out.events[1] {
        Event::Log { message, .. } => {
            assert_eq!(message, "[rsipstack] Received CANCEL from 10.0.0.7:5060 - call terminated")
        }
        _ => panic!("a log line"),
    }
    assert_eq!(g.channels[2].status, ChannelStatus::Idle);
    assert!(g.channels[2].incoming_call.is_none());
}

#[test]
fn a_call_that_is_up_is_ended() {
    let mut g = open_gateway();
    g.add_call(active(2, "c9"));
    g.open_groups(2);
    g.channels[1].status = ChannelStatus::Connected;
    g.channels[1].audio_level = 50;
    let out = g.handle_end(&end("BYE", "c9"), "10.0.0.7:5060");
    assert_eq!(out.call.unwrap().call_id, "c9");
    assert_eq!(g.channels[1].status, ChannelStatus::Idle);
    assert_eq!(g.channels[1].audio_level, 0);
    assert!(g.flags.is_empty());
    let out = g.handle_end(&end("BYE", "c9"), "10.0.0.7:5060");
    assert!(out.reply.is_none());
    assert!(out.events.is_empty());
    let out = g.handle_end("BYE sip:x SIP/2.0\r\n\r\n", "10.0.0.7:5060");
    assert!(out.reply.is_none());
}

#[test]
fn packets_to_the_listening_port_are_served() {
    let mut g = open_gateway();
    let mut n = NonceStore::new();
    let ask = request("103", "c1", "");
    let served = g.handle_packet(&mut n, ask.as_bytes(), "10.0.0.7", 5061, "10.0.0.7:5061", "securepass123", "fresh");
    assert!(served.reply.unwrap().starts_with("SIP/2.0 180 Ringing"));
    assert!(served.call.is_none());
    assert_eq!(served.events.len(), 2);
    assert_eq!(g.channels[2].status, ChannelStatus::Incoming);
    let mut cancel = end("CANCEL", "c1").into_bytes();
    cancel.extend_from_slice(&[0xff, 0xfe]);
    let served = g.handle_packet(&mut n, &cancel, "10.0.0.7", 5061, "10.0.0.7:5061", "securepass123", "fresh");
    assert!(served.reply.unwrap().starts_with("SIP/2.0 200 OK"));
    assert_eq!(g.channels[2].status, ChannelStatus::Idle);
    let served = g.handle_packet(&mut n, b"\x80INVITE x", "10.0.0.7", 5061, "10.0.0.7:5061", "securepass123", "fresh");
    assert!(served.reply.is_none() && served.call.is_none() && served.events.is_empty());
}

#[test]
fn a_call_that_ends_leaves_its_partner_alone() {
    let mut g = open_gateway();
    g.dispatch_groups[2].member_ids = vec![2, 6];
    g.add_call(active(2, "c2"));
    g.add_call(active(6, "c6"));
    g.open_groups(2);
    assert_eq!(g.open_groups(6).len(), 2);
    let bye = end("BYE", "c2");
    let mut n = NonceStore::new();
    let served = g.handle_packet(&mut n, bye.as_bytes(), "10.0.0.7", 5061, "10.0.0.7:5061", "p", "fresh");
    assert_eq!(served.call.unwrap().call_id, "c2");
    assert_eq!(served.events.len(), 3);
    assert!(matches!(&served.events[2], Event::Update { channel } if channel.id == 6 && !channel.dispatch_connected));
    assert!(!g.channels[5].dispatch_connected);
}
