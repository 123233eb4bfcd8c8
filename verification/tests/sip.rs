use aquilla::messages::{
    accept_response, ack_request, busy_response, bye_accepted_response, bye_request,
    challenge_response, host_port, invite_request, ok_response, rejected_response,
    ringing_response, rtp_uri, sdp_answer, sdp_offer, sip_uri, tag_param,
};
use aquilla::sip::{
    classify_reply, dialed_extension, parse_digest_auth, parse_rtp_target, parse_sip_uri,
    read_headers, SipReply,
};

fn sip(user: &str, ip: &str, port: u16) -> Option<(String, String, u16)> {
    Some((user.to_string(), ip.to_string(), port))
}

#[test]
fn sip_addresses_are_taken_apart() {
    assert_eq!(parse_sip_uri("sip:bob@10.0.0.5:5080"), sip("bob", "10.0.0.5", 5080));
    assert_eq!(parse_sip_uri("  sip:bob@10.0.0.5 "), sip("bob", "10.0.0.5", 5060));
    assert_eq!(parse_sip_uri("bob@host:notaport"), sip("bob", "host:notaport", 5060));
    assert_eq!(parse_sip_uri("sip:bob@[::1]:5070"), sip("bob", "[::1]", 5070));
    assert_eq!(parse_sip_uri("sip:bob@[::1]"), sip("bob", "[::1]", 5060));
    assert_eq!(parse_sip_uri("sip:bob"), None);
    assert_eq!(parse_sip_uri("sip:a@b@c"), None);
}

#[test]
fn sip_addresses_are_read_back() {
    assert_eq!(parse_sip_uri(&sip_uri("receiver", "192.168.1.101", 5060)), sip("receiver", "192.168.1.101", 5060));
    assert_eq!(parse_sip_uri(&sip_uri("bob", "::1", 5070)), sip("bob", "::1", 5070));
    assert_eq!(parse_sip_uri(&sip_uri("bob", "[::1]", 5070)), sip("bob", "[::1]", 5070));
    assert_eq!(parse_sip_uri("sip:bob@host"), sip("bob", "host", 5060));
    assert_eq!(sip_uri("receiver", "192.168.1.101", 5060), "sip:receiver@192.168.1.101:5060");
}

#[test]
fn rtp_addresses_are_taken_apart() {
    assert_eq!(parse_rtp_target("rtp://10.0.0.5:6000"), ("10.0.0.5".to_string(), 6000));
    assert_eq!(parse_rtp_target("10.0.0.5"), ("10.0.0.5".to_string(), 5004));
    assert_eq!(parse_rtp_target("rtp://10.0.0.5:x"), ("10.0.0.5".to_string(), 5004));
    assert_eq!(parse_rtp_target("a:b:c"), ("a:b:c".to_string(), 5004));
    assert_eq!(parse_rtp_target(&rtp_uri("10.0.0.7", 5010)), ("10.0.0.7".to_string(), 5010));
    assert_eq!(rtp_uri("10.0.0.7", 5010), "rtp://10.0.0.7:5010");
    assert_eq!(host_port("10.0.0.7", 80), "10.0.0.7:80");
}

#[test]
fn digest_fields_are_read() {
    let m = parse_digest_auth(
        "Digest username=\"alice\", realm=\"aquilla-12\", nonce=\"n1\", uri=\"sip:101@x\", response=\"ab\", algorithm=SHA-256",
    );
    assert_eq!(m.get("username").unwrap(), "alice");
    assert_eq!(m.get("realm").unwrap(), "aquilla-12");
    assert_eq!(m.get("nonce").unwrap(), "n1");
    assert_eq!(m.get("uri").unwrap(), "sip:101@x");
    assert_eq!(m.get("response").unwrap(), "ab");
    assert_eq!(m.get("algorithm").unwrap(), "SHA-256");
    assert!(m.get("qop").is_none());
}

#[test]
fn offers_and_answers_have_known_texts() {
    assert_eq!(
        sdp_offer("10.0.0.2", 6002),
        "v=0\r\no=sip-controller 123456 123456 IN IP4 10.0.0.2\r\ns=Talk\r\nc=IN IP4 10.0.0.2\r\nt=0 0\r\nm=audio 6002 RTP/AVP 0\r\na=rtpmap:0 PCMU/8000\r\n"
    );
    assert_eq!(
        sdp_answer("10.0.0.2", 6002),
        "v=0\r\no=- 123456 123457 IN IP4 10.0.0.2\r\ns=Session SIP\r\nc=IN IP4 10.0.0.2\r\nt=0 0\r\nm=audio 6002 RTP/AVP 0\r\na=rtpmap:0 PCMU/8000\r\na=sendrecv\r\n"
    );
}

fn invite() -> String {
    invite_request(
        "101",
        "10.0.0.1:5060",
        "10.0.0.2",
        5062,
        "z9hG4bKff",
        "0000000a",
        "00000000000000ff",
        &sdp_offer("10.0.0.2", 6002),
    )
}

#[test]
fn invites_have_a_known_text() {
    let sdp = sdp_offer("10.0.0.2", 6002);
    assert_eq!(
        invite(),
        format!(
            "INVITE sip:101@10.0.0.1:5060 SIP/2.0\r\nVia: SIP/2.0/UDP 10.0.0.2:5062;branch=z9hG4bKff\r\nMax-Forwards: 70\r\nTo: <sip:101@10.0.0.1:5060>\r\nFrom: <sip:caller@10.0.0.2:5062>;tag=0000000a\r\nCall-ID: 00000000000000ff\r\nCSeq: 1 INVITE\r\nContact: <sip:caller@10.0.0.2:5062>\r\nContent-Type: application/sdp\r\nContent-Length: {}\r\n\r\n{}",
            sdp.len(),
            sdp
        )
    );
}

#[test]
fn invites_are_understood() {
    let msg = invite();
    let h = read_headers(&msg);
    assert_eq!(h.call_id, "00000000000000ff");
    assert_eq!(h.via, "SIP/2.0/UDP 10.0.0.2:5062;branch=z9hG4bKff");
    assert_eq!(h.from, "<sip:caller@10.0.0.2:5062>;tag=0000000a");
    assert_eq!(h.to, "<sip:101@10.0.0.1:5060>");
    assert_eq!(h.cseq, "1 INVITE");
    assert_eq!(h.auth, "");
    assert_eq!(h.rtp_port, 6002);
    assert_eq!(dialed_extension(&msg), "101");
}

#[test]
fn byes_and_confirmations_have_known_texts() {
    let bye = bye_request("caller", "10.0.0.1", 5060, "10.0.0.2", 5062, "z9hG4bK1", ";tag=t", "f", "c1");
    assert_eq!(
        bye,
        "BYE sip:caller@10.0.0.1:5060 SIP/2.0\r\nVia: SIP/2.0/UDP 10.0.0.2:5062;branch=z9hG4bK1\r\nMax-Forwards: 70\r\nTo: <sip:caller@10.0.0.1:5060>;tag=t\r\nFrom: <sip:caller@10.0.0.2:5062>;tag=f\r\nCall-ID: c1\r\nCSeq: 2 BYE\r\nContent-Length: 0\r\n\r\n"
    );
    let h = read_headers(&bye);
    assert_eq!(h.call_id, "c1");
    assert_eq!(h.cseq, "2 BYE");
    assert_eq!(
        ack_request("101", "10.0.0.1:5060", "10.0.0.2", 5062, "z9hG4bK2", "", "f", "c1"),
        "ACK sip:101@10.0.0.1:5060 SIP/2.0\r\nVia: SIP/2.0/UDP 10.0.0.2:5062;branch=z9hG4bK2\r\nMax-Forwards: 70\r\nTo: <sip:101@10.0.0.1:5060>\r\nFrom: <sip:caller@10.0.0.2:5062>;tag=f\r\nCall-ID: c1\r\nCSeq: 1 ACK\r\nContent-Length: 0\r\n\r\n"
    );
    assert_eq!(
        bye_accepted_response("10.0.0.2", 5062),
        "SIP/2.0 200 OK\r\nVia: SIP/2.0/UDP 10.0.0.2:5062;branch=z9hG4bK-bye\r\nContent-Length: 0\r\n\r\n"
    );
    assert_eq!(tag_param(&Some("x".to_string())), ";tag=x");
    assert_eq!(tag_param(&None), "");
}

#[test]
fn replies_have_known_texts() {
    assert_eq!(
        ok_response("v", "f", "t", "c", "1 BYE"),
        "SIP/2.0 200 OK\r\nVia: v\r\nFrom: f\r\nTo: t\r\nCall-ID: c\r\nCSeq: 1 BYE\r\nContent-Length: 0\r\n\r\n"
    );
    assert_eq!(
        ringing_response("v", "f", "t", 3, "c", "1 INVITE", "10.0.0.9"),
        "SIP/2.0 180 Ringing\r\nVia: v\r\nFrom: f\r\nTo: t;tag=local-3\r\nCall-ID: c\r\nCSeq: 1 INVITE\r\nContact: <sip:113@10.0.0.9:5060>\r\nContent-Length: 0\r\n\r\n"
    );
    assert_eq!(
        challenge_response("v", "f", "t", "c", "1 INVITE", "n"),
        "SIP/2.0 407 Proxy Authentication Required\r\nVia: v\r\nFrom: f\r\nTo: t\r\nCall-ID: c\r\nCSeq: 1 INVITE\r\nProxy-Authenticate: Digest realm=\"aquilla-12\", nonce=\"n\", algorithm=SHA-256, qop=\"auth\"\r\nContent-Length: 0\r\n\r\n"
    );
    assert_eq!(
        rejected_response("v", "f", "t", "c", "1 INVITE"),
        "SIP/2.0 486 Busy Here\r\nVia: v\r\nFrom: f\r\nTo: t;tag=busy\r\nCall-ID: c\r\nCSeq: 1 INVITE\r\nContent-Length: 0\r\n\r\n"
    );
    assert_eq!(
        busy_response("10.0.0.9", 5060, "f", "t", "c"),
        "SIP/2.0 486 Busy Here\r\nVia: SIP/2.0/UDP 10.0.0.9:5060;branch=z9hG4bK-inc\r\nFrom: f\r\nTo: t;tag=busy\r\nCall-ID: c\r\nCSeq: 1 INVITE\r\nContent-Length: 0\r\n\r\n"
    );
    assert_eq!(
        accept_response("v", "f", "t", 3, "c", "1 INVITE", "10.0.0.2", 5062, "abc"),
        "SIP/2.0 200 OK\r\nVia: v\r\nFrom: f\r\nTo: t;tag=local-3\r\nCall-ID: c\r\nCSeq: 1 INVITE\r\nContact: <sip:113@10.0.0.2:5062>\r\nContent-Type: application/sdp\r\nContent-Length: 3\r\n\r\nabc"
    );
}

#[test]
fn replies_name_the_call_of_the_request() {
    let h = read_headers(&invite());
    let replies = [
        ok_response(&h.via, &h.from, &h.to, &h.call_id, &h.cseq),
        ringing_response(&h.via, &h.from, &h.to, 4, &h.call_id, &h.cseq, "10.0.0.2"),
        challenge_response(&h.via, &h.from, &h.to, &h.call_id, &h.cseq, "n"),
        rejected_response(&h.via, &h.from, &h.to, &h.call_id, &h.cseq),
    ];
    for reply in replies.iter() {
        let r = read_headers(reply);
        assert_eq!(r.call_id, h.call_id);
        assert_eq!(r.via, h.via);
        assert_eq!(r.from, h.from);
        assert_eq!(r.cseq, h.cseq);
        assert!(r.to.starts_with(&h.to));
    }
    let busy = read_headers(&busy_response("10.0.0.2", 5062, &h.from, &h.to, &h.call_id));
    assert_eq!(busy.call_id, h.call_id);
    assert_eq!(busy.to, format!("{};tag=busy", h.to));
}

#[test]
fn header_names_count_in_either_case() {
    let h = read_headers("INVITE sip:5@h SIP/2.0\r\nCALL-ID:  a b \r\nfrom: x\r\nProxy-Authorization: Digest q\r\nm=audio nothing\r\n");
    assert_eq!(h.call_id, "a b");
    assert_eq!(h.from, "x");
    assert_eq!(h.auth, "Digest q");
    assert_eq!(h.rtp_port, 5004);
}

#[test]
fn extensions_are_read_from_the_first_line() {
    assert_eq!(dialed_extension("INVITE <sip:7@h> SIP/2.0\r\n"), "7");
    assert_eq!(dialed_extension("INVITE sip:host SIP/2.0\r\n"), "");
    assert_eq!(dialed_extension("INVITE"), "");
    assert_eq!(dialed_extension(""), "");
}

#[test]
fn replies_to_a_call_are_told_apart() {
    assert!(matches!(classify_reply("SIP/2.0 100 Trying\r\n"), SipReply::Trying));
    assert!(matches!(classify_reply("SIP/2.0 180 Ringing\r\n"), SipReply::Ringing));
    assert!(matches!(classify_reply("BYE sip:a@b SIP/2.0\r\n"), SipReply::Bye));
    assert!(matches!(classify_reply("OPTIONS sip:a@b SIP/2.0\r\n"), SipReply::Other));
    match classify_reply("SIP/2.0 486 Busy Here\r\nVia: x\r\n") {
        SipReply::Failed { status } => assert_eq!(status, "SIP/2.0 486 Busy Here"),
        _ => panic!("a failure"),
    }
    match classify_reply("SIP/2.0 200 OK\r\nTo: <sip:a@b>;tag=local-3\r\n\r\nm=audio 7004 RTP/AVP 0\r\n") {
        SipReply::Answered { to_tag, rtp_port } => {
            assert_eq!(to_tag, Some("local-3".to_string()));
            assert_eq!(rtp_port, 7004);
        }
        _ => panic!("an answer"),
    }
    match classify_reply("SIP/2.0 200 OK\r\nTo: <sip:a@b>\r\n\r\n") {
        SipReply::Answered { to_tag, rtp_port } => {
            assert_eq!(to_tag, None);
            assert_eq!(rtp_port, 5004);
        }
        _ => panic!("an answer"),
    }
}
