//! The SIP messages and session descriptions that the gateway sends.

use crate::text::{decimal, decimal_string};
use vstd::prelude::*;
use vstd::string::*;
use vstd::utf8::*;

verus! {

/// The session description of an outgoing call.
pub open spec fn sdp_offer_text(local_ip: Seq<char>, rtp_port: u16) -> Seq<char> {
    "v=0\r\no=sip-controller 123456 123456 IN IP4 "@ + local_ip + "\r\ns=Talk\r\nc=IN IP4 "@
        + local_ip + "\r\nt=0 0\r\nm=audio "@ + decimal(rtp_port as nat)
        + " RTP/AVP 0\r\na=rtpmap:0 PCMU/8000\r\n"@
}

/// The session description of an outgoing call.
pub fn sdp_offer(local_ip: &str, rtp_port: u16) -> (r: String)
    ensures
        r@ == sdp_offer_text(local_ip@, rtp_port),
{
    let rtp_port_text = decimal_string(rtp_port as u64);
    let mut m = "v=0\r\no=sip-controller 123456 123456 IN IP4 ".to_owned();
    m.append(local_ip);
    m.append("\r\ns=Talk\r\nc=IN IP4 ");
    m.append(local_ip);
    m.append("\r\nt=0 0\r\nm=audio ");
    m.append(rtp_port_text.as_str());
    m.append(" RTP/AVP 0\r\na=rtpmap:0 PCMU/8000\r\n");
    m
}

/// The session description with which an incoming call is accepted.
pub open spec fn sdp_answer_text(local_ip: Seq<char>, rtp_port: u16) -> Seq<char> {
    "v=0\r\no=- 123456 123457 IN IP4 "@ + local_ip + "\r\ns=Session SIP\r\nc=IN IP4 "@
        + local_ip + "\r\nt=0 0\r\nm=audio "@ + decimal(rtp_port as nat)
        + " RTP/AVP 0\r\na=rtpmap:0 PCMU/8000\r\na=sendrecv\r\n"@
}

/// The session description with which an incoming call is accepted.
pub fn sdp_answer(local_ip: &str, rtp_port: u16) -> (r: String)
    ensures
        r@ == sdp_answer_text(local_ip@, rtp_port),
{
    let rtp_port_text = decimal_string(rtp_port as u64);
    let mut m = "v=0\r\no=- 123456 123457 IN IP4 ".to_owned();
    m.append(local_ip);
    m.append("\r\ns=Session SIP\r\nc=IN IP4 ");
    m.append(local_ip);
    m.append("\r\nt=0 0\r\nm=audio ");
    m.append(rtp_port_text.as_str());
    m.append(" RTP/AVP 0\r\na=rtpmap:0 PCMU/8000\r\na=sendrecv\r\n");
    m
}

/// The request that opens a call, with its session description.
pub open spec fn invite_text(
    user: Seq<char>,
    dest: Seq<char>,
    local_ip: Seq<char>,
    local_port: u16,
    branch: Seq<char>,
    from_tag: Seq<char>,
    call_id: Seq<char>,
    sdp: Seq<char>,
) -> Seq<char> {
    "INVITE sip:"@ + user + "@"@ + dest + " SIP/2.0\r\nVia: SIP/2.0/UDP "@ + local_ip + ":"@
        + decimal(local_port as nat) + ";branch="@ + branch
        + "\r\nMax-Forwards: 70\r\nTo: <sip:"@ + user + "@"@ + dest
        + ">\r\nFrom: <sip:caller@"@ + local_ip + ":"@ + decimal(local_port as nat) + ">;tag="@
        + from_tag + "\r\nCall-ID: "@ + call_id
        + "\r\nCSeq: 1 INVITE\r\nContact: <sip:caller@"@ + local_ip + ":"@
        + decimal(local_port as nat)
        + ">\r\nContent-Type: application/sdp\r\nContent-Length: "@
        + decimal(encode_utf8(sdp).len()) + "\r\n\r\n"@ + sdp
}

/// The request that opens a call, with its session description.
pub fn invite_request(
    user: &str,
    dest: &str,
    local_ip: &str,
    local_port: u16,
    branch: &str,
    from_tag: &str,
    call_id: &str,
    sdp: &str,
) -> (r: String)
    ensures
        r@ == invite_text(
            user@,
            dest@,
            local_ip@,
            local_port,
            branch@,
            from_tag@,
            call_id@,
            sdp@,
        ),
{
    let local_port_text = decimal_string(local_port as u64);
    let mut m = "INVITE sip:".to_owned();
    m.append(user);
    m.append("@");
    m.append(dest);
    m.append(" SIP/2.0\r\nVia: SIP/2.0/UDP ");
    m.append(local_ip);
    m.append(":");
    m.append(local_port_text.as_str());
    m.append(";branch=");
    m.append(branch);
    m.append("\r\nMax-Forwards: 70\r\nTo: <sip:");
    m.append(user);
    m.append("@");
    m.append(dest);
    m.append(">\r\nFrom: <sip:caller@");
    m.append(local_ip);
    m.append(":");
    m.append(local_port_text.as_str());
    m.append(">;tag=");
    m.append(from_tag);
    m.append("\r\nCall-ID: ");
    m.append(call_id);
    m.append("\r\nCSeq: 1 INVITE\r\nContact: <sip:caller@");
    m.append(local_ip);
    m.append(":");
    m.append(local_port_text.as_str());
    m.append(">\r\nContent-Type: application/sdp\r\nContent-Length: ");
    let sdp_len = decimal_string(sdp.as_bytes().len() as u64);
    m.append(sdp_len.as_str());
    m.append("\r\n\r\n");
    m.append(sdp);
    m
}

/// The request that confirms an answered call; `to_tag` is empty or a tag parameter.
pub open spec fn ack_text(
    user: Seq<char>,
    dest: Seq<char>,
    local_ip: Seq<char>,
    local_port: u16,
    branch: Seq<char>,
    to_tag: Seq<char>,
    from_tag: Seq<char>,
    call_id: Seq<char>,
) -> Seq<char> {
    "ACK sip:"@ + user + "@"@ + dest + " SIP/2.0\r\nVia: SIP/2.0/UDP "@ + local_ip + ":"@
        + decimal(local_port as nat) + ";branch="@ + branch
        + "\r\nMax-Forwards: 70\r\nTo: <sip:"@ + user + "@"@ + dest + ">"@ + to_tag
        + "\r\nFrom: <sip:caller@"@ + local_ip + ":"@ + decimal(local_port as nat) + ">;tag="@
        + from_tag + "\r\nCall-ID: "@ + call_id
        + "\r\nCSeq: 1 ACK\r\nContent-Length: 0\r\n\r\n"@
}

/// The request that confirms an answered call; `to_tag` is empty or a tag parameter.
pub fn ack_request(
    user: &str,
    dest: &str,
    local_ip: &str,
    local_port: u16,
    branch: &str,
    to_tag: &str,
    from_tag: &str,
    call_id: &str,
) -> (r: String)
    ensures
        r@ == ack_text(
            user@,
            dest@,
            local_ip@,
            local_port,
            branch@,
            to_tag@,
            from_tag@,
            call_id@,
        ),
{
    let local_port_text = decimal_string(local_port as u64);
    let mut m = "ACK sip:".to_owned();
    m.append(user);
    m.append("@");
    m.append(dest);
    m.append(" SIP/2.0\r\nVia: SIP/2.0/UDP ");
    m.append(local_ip);
    m.append(":");
    m.append(local_port_text.as_str());
    m.append(";branch=");
    m.append(branch);
    m.append("\r\nMax-Forwards: 70\r\nTo: <sip:");
    m.append(user);
    m.append("@");
    m.append(dest);
    m.append(">");
    m.append(to_tag);
    m.append("\r\nFrom: <sip:caller@");
    m.append(local_ip);
    m.append(":");
    m.append(local_port_text.as_str());
    m.append(">;tag=");
    m.append(from_tag);
    m.append("\r\nCall-ID: ");
    m.append(call_id);
    m.append("\r\nCSeq: 1 ACK\r\nContent-Length: 0\r\n\r\n");
    m
}

/// The request that ends a call; `to_tag` is empty or a tag parameter.
pub open spec fn bye_text(
    user: Seq<char>,
    target_ip: Seq<char>,
    target_port: u16,
    local_ip: Seq<char>,
    local_port: u16,
    branch: Seq<char>,
    to_tag: Seq<char>,
    from_tag: Seq<char>,
    call_id: Seq<char>,
) -> Seq<char> {
    "BYE sip:"@ + user + "@"@ + target_ip + ":"@ + decimal(target_port as nat)
        + " SIP/2.0\r\nVia: SIP/2.0/UDP "@ + local_ip + ":"@ + decimal(local_port as nat)
        + ";branch="@ + branch + "\r\nMax-Forwards: 70\r\nTo: <sip:"@ + user + "@"@ + target_ip
        + ":"@ + decimal(target_port as nat) + ">"@ + to_tag + "\r\nFrom: <sip:caller@"@
        + local_ip + ":"@ + decimal(local_port as nat) + ">;tag="@ + from_tag
        + "\r\nCall-ID: "@ + call_id + "\r\nCSeq: 2 BYE\r\nContent-Length: 0\r\n\r\n"@
}

/// The request that ends a call; `to_tag` is empty or a tag parameter.
pub fn bye_request(
    user: &str,
    target_ip: &str,
    target_port: u16,
    local_ip: &str,
    local_port: u16,
    branch: &str,
    to_tag: &str,
    from_tag: &str,
    call_id: &str,
) -> (r: String)
    ensures
        r@ == bye_text(
            user@,
            target_ip@,
            target_port,
            local_ip@,
            local_port,
            branch@,
            to_tag@,
            from_tag@,
            call_id@,
        ),
{
    let target_port_text = decimal_string(target_port as u64);
    let local_port_text = decimal_string(local_port as u64);
    let mut m = "BYE sip:".to_owned();
    m.append(user);
    m.append("@");
    m.append(target_ip);
    m.append(":");
    m.append(target_port_text.as_str());
    m.append(" SIP/2.0\r\nVia: SIP/2.0/UDP ");
    m.append(local_ip);
    m.append(":");
    m.append(local_port_text.as_str());
    m.append(";branch=");
    m.append(branch);
    m.append("\r\nMax-Forwards: 70\r\nTo: <sip:");
    m.append(user);
    m.append("@");
    m.append(target_ip);
    m.append(":");
    m.append(target_port_text.as_str());
    m.append(">");
    m.append(to_tag);
    m.append("\r\nFrom: <sip:caller@");
    m.append(local_ip);
    m.append(":");
    m.append(local_port_text.as_str());
    m.append(">;tag=");
    m.append(from_tag);
    m.append("\r\nCall-ID: ");
    m.append(call_id);
    m.append("\r\nCSeq: 2 BYE\r\nContent-Length: 0\r\n\r\n");
    m
}

/// The response that accepts a call on a channel, with its session description.
pub open spec fn accept_text(
    via: Seq<char>,
    from: Seq<char>,
    to: Seq<char>,
    channel: u32,
    call_id: Seq<char>,
    cseq: Seq<char>,
    local_ip: Seq<char>,
    local_port: u16,
    sdp: Seq<char>,
) -> Seq<char> {
    "SIP/2.0 200 OK\r\nVia: "@ + via + "\r\nFrom: "@ + from + "\r\nTo: "@ + to + ";tag=local-"@
        + decimal(channel as nat) + "\r\nCall-ID: "@ + call_id + "\r\nCSeq: "@ + cseq
        + "\r\nContact: <sip:113@"@ + local_ip + ":"@ + decimal(local_port as nat)
        + ">\r\nContent-Type: application/sdp\r\nContent-Length: "@
        + decimal(encode_utf8(sdp).len()) + "\r\n\r\n"@ + sdp
}

/// The response that accepts a call on a channel, with its session description.
pub fn accept_response(
    via: &str,
    from: &str,
    to: &str,
    channel: u32,
    call_id: &str,
    cseq: &str,
    local_ip: &str,
    local_port: u16,
    sdp: &str,
) -> (r: String)
    ensures
        r@ == accept_text(
            via@,
            from@,
            to@,
            channel,
            call_id@,
            cseq@,
            local_ip@,
            local_port,
            sdp@,
        ),
{
    let channel_text = decimal_string(channel as u64);
    let local_port_text = decimal_string(local_port as u64);
    let mut m = "SIP/2.0 200 OK\r\nVia: ".to_owned();
    m.append(via);
    m.append("\r\nFrom: ");
    m.append(from);
    m.append("\r\nTo: ");
    m.append(to);
    m.append(";tag=local-");
    m.append(channel_text.as_str());
    m.append("\r\nCall-ID: ");
    m.append(call_id);
    m.append("\r\nCSeq: ");
    m.append(cseq);
    m.append("\r\nContact: <sip:113@");
    m.append(local_ip);
    m.append(":");
    m.append(local_port_text.as_str());
    m.append(">\r\nContent-Type: application/sdp\r\nContent-Length: ");
    let sdp_len = decimal_string(sdp.as_bytes().len() as u64);
    m.append(sdp_len.as_str());
    m.append("\r\n\r\n");
    m.append(sdp);
    m
}

/// The response to a request that ends a call on its own port.
pub open spec fn bye_accepted_text(local_ip: Seq<char>, local_port: u16) -> Seq<char> {
    "SIP/2.0 200 OK\r\nVia: SIP/2.0/UDP "@ + local_ip + ":"@ + decimal(local_port as nat)
        + ";branch=z9hG4bK-bye\r\nContent-Length: 0\r\n\r\n"@
}

/// The response to a request that ends a call on its own port.
pub fn bye_accepted_response(local_ip: &str, local_port: u16) -> (r: String)
    ensures
        r@ == bye_accepted_text(local_ip@, local_port),
{
    let local_port_text = decimal_string(local_port as u64);
    let mut m = "SIP/2.0 200 OK\r\nVia: SIP/2.0/UDP ".to_owned();
    m.append(local_ip);
    m.append(":");
    m.append(local_port_text.as_str());
    m.append(";branch=z9hG4bK-bye\r\nContent-Length: 0\r\n\r\n");
    m
}

/// The response to a request that ends or cancels a call.
pub open spec fn ok_text(
    via: Seq<char>,
    from: Seq<char>,
    to: Seq<char>,
    call_id: Seq<char>,
    cseq: Seq<char>,
) -> Seq<char> {
    "SIP/2.0 200 OK\r\nVia: "@ + via + "\r\nFrom: "@ + from + "\r\nTo: "@ + to
        + "\r\nCall-ID: "@ + call_id + "\r\nCSeq: "@ + cseq + "\r\nContent-Length: 0\r\n\r\n"@
}

/// The response to a request that ends or cancels a call.
pub fn ok_response(via: &str, from: &str, to: &str, call_id: &str, cseq: &str) -> (r: String)
    ensures
        r@ == ok_text(via@, from@, to@, call_id@, cseq@),
{
    let mut m = "SIP/2.0 200 OK\r\nVia: ".to_owned();
    m.append(via);
    m.append("\r\nFrom: ");
    m.append(from);
    m.append("\r\nTo: ");
    m.append(to);
    m.append("\r\nCall-ID: ");
    m.append(call_id);
    m.append("\r\nCSeq: ");
    m.append(cseq);
    m.append("\r\nContent-Length: 0\r\n\r\n");
    m
}

/// The response that a call rings on a channel.
pub open spec fn ringing_text(
    via: Seq<char>,
    from: Seq<char>,
    to: Seq<char>,
    channel: u32,
    call_id: Seq<char>,
    cseq: Seq<char>,
    contact_ip: Seq<char>,
) -> Seq<char> {
    "SIP/2.0 180 Ringing\r\nVia: "@ + via + "\r\nFrom: "@ + from + "\r\nTo: "@ + to
        + ";tag=local-"@ + decimal(channel as nat) + "\r\nCall-ID: "@ + call_id + "\r\nCSeq: "@
        + cseq + "\r\nContact: <sip:113@"@ + contact_ip
        + ":5060>\r\nContent-Length: 0\r\n\r\n"@
}

/// The response that a call rings on a channel.
pub fn ringing_response(
    via: &str,
    from: &str,
    to: &str,
    channel: u32,
    call_id: &str,
    cseq: &str,
    contact_ip: &str,
) -> (r: String)
    ensures
        r@ == ringing_text(via@, from@, to@, channel, call_id@, cseq@, contact_ip@),
{
    let channel_text = decimal_string(channel as u64);
    let mut m = "SIP/2.0 180 Ringing\r\nVia: ".to_owned();
    m.append(via);
    m.append("\r\nFrom: ");
    m.append(from);
    m.append("\r\nTo: ");
    m.append(to);
    m.append(";tag=local-");
    m.append(channel_text.as_str());
    m.append("\r\nCall-ID: ");
    m.append(call_id);
    m.append("\r\nCSeq: ");
    m.append(cseq);
    m.append("\r\nContact: <sip:113@");
    m.append(contact_ip);
    m.append(":5060>\r\nContent-Length: 0\r\n\r\n");
    m
}

/// The response that asks the caller to authenticate, with a nonce.
pub open spec fn challenge_text(
    via: Seq<char>,
    from: Seq<char>,
    to: Seq<char>,
    call_id: Seq<char>,
    cseq: Seq<char>,
    nonce: Seq<char>,
) -> Seq<char> {
    "SIP/2.0 407 Proxy Authentication Required\r\nVia: "@ + via + "\r\nFrom: "@ + from
        + "\r\nTo: "@ + to + "\r\nCall-ID: "@ + call_id + "\r\nCSeq: "@ + cseq
        + "\r\nProxy-Authenticate: Digest realm=\"aquilla-12\", nonce=\""@ + nonce
        + "\", algorithm=SHA-256, qop=\"auth\"\r\nContent-Length: 0\r\n\r\n"@
}

/// The response that asks the caller to authenticate, with a nonce.
pub fn challenge_response(
    via: &str,
    from: &str,
    to: &str,
    call_id: &str,
    cseq: &str,
    nonce: &str,
) -> (r: String)
    ensures
        r@ == challenge_text(via@, from@, to@, call_id@, cseq@, nonce@),
{
    let mut m = "SIP/2.0 407 Proxy Authentication Required\r\nVia: ".to_owned();
    m.append(via);
    m.append("\r\nFrom: ");
    m.append(from);
    m.append("\r\nTo: ");
    m.append(to);
    m.append("\r\nCall-ID: ");
    m.append(call_id);
    m.append("\r\nCSeq: ");
    m.append(cseq);
    m.append("\r\nProxy-Authenticate: Digest realm=\"aquilla-12\", nonce=\"");
    m.append(nonce);
    m.append("\", algorithm=SHA-256, qop=\"auth\"\r\nContent-Length: 0\r\n\r\n");
    m
}

/// The response that an operator rejects a call.
pub open spec fn rejected_text(
    via: Seq<char>,
    from: Seq<char>,
    to: Seq<char>,
    call_id: Seq<char>,
    cseq: Seq<char>,
) -> Seq<char> {
    "SIP/2.0 486 Busy Here\r\nVia: "@ + via + "\r\nFrom: "@ + from + "\r\nTo: "@ + to
        + ";tag=busy\r\nCall-ID: "@ + call_id + "\r\nCSeq: "@ + cseq
        + "\r\nContent-Length: 0\r\n\r\n"@
}

/// The response that an operator rejects a call.
pub fn rejected_response(
    via: &str,
    from: &str,
    to: &str,
    call_id: &str,
    cseq: &str,
) -> (r: String)
    ensures
        r@ == rejected_text(via@, from@, to@, call_id@, cseq@),
{
    let mut m = "SIP/2.0 486 Busy Here\r\nVia: ".to_owned();
    m.append(via);
    m.append("\r\nFrom: ");
    m.append(from);
    m.append("\r\nTo: ");
    m.append(to);
    m.append(";tag=busy\r\nCall-ID: ");
    m.append(call_id);
    m.append("\r\nCSeq: ");
    m.append(cseq);
    m.append("\r\nContent-Length: 0\r\n\r\n");
    m
}

/// The response that no channel is free for a call.
pub open spec fn busy_text(
    src_ip: Seq<char>,
    src_port: u16,
    from: Seq<char>,
    to: Seq<char>,
    call_id: Seq<char>,
) -> Seq<char> {
    "SIP/2.0 486 Busy Here\r\nVia: SIP/2.0/UDP "@ + src_ip + ":"@ + decimal(src_port as nat)
        + ";branch=z9hG4bK-inc\r\nFrom: "@ + from + "\r\nTo: "@ + to
        + ";tag=busy\r\nCall-ID: "@ + call_id
        + "\r\nCSeq: 1 INVITE\r\nContent-Length: 0\r\n\r\n"@
}

/// The response that no channel is free for a call.
pub fn busy_response(
    src_ip: &str,
    src_port: u16,
    from: &str,
    to: &str,
    call_id: &str,
) -> (r: String)
    ensures
        r@ == busy_text(src_ip@, src_port, from@, to@, call_id@),
{
    let src_port_text = decimal_string(src_port as u64);
    let mut m = "SIP/2.0 486 Busy Here\r\nVia: SIP/2.0/UDP ".to_owned();
    m.append(src_ip);
    m.append(":");
    m.append(src_port_text.as_str());
    m.append(";branch=z9hG4bK-inc\r\nFrom: ");
    m.append(from);
    m.append("\r\nTo: ");
    m.append(to);
    m.append(";tag=busy\r\nCall-ID: ");
    m.append(call_id);
    m.append("\r\nCSeq: 1 INVITE\r\nContent-Length: 0\r\n\r\n");
    m
}

/// A host and a port, as an address to send to.
pub open spec fn host_port_text(host: Seq<char>, port: u16) -> Seq<char> {
    host + ":"@ + decimal(port as nat)
}

/// A host and a port, as an address to send to.
pub fn host_port(host: &str, port: u16) -> (r: String)
    ensures
        r@ == host_port_text(host@, port),
{
    let port_text = decimal_string(port as u64);
    let mut m = host.to_owned();
    m.append(":");
    m.append(port_text.as_str());
    m
}

/// The address of a direct RTP session.
pub open spec fn rtp_uri_text(ip: Seq<char>, port: u16) -> Seq<char> {
    "rtp://"@ + ip + ":"@ + decimal(port as nat)
}

/// The address of a direct RTP session.
pub fn rtp_uri(ip: &str, port: u16) -> (r: String)
    ensures
        r@ == rtp_uri_text(ip@, port),
{
    let port_text = decimal_string(port as u64);
    let mut m = "rtp://".to_owned();
    m.append(ip);
    m.append(":");
    m.append(port_text.as_str());
    m
}

/// The address of a SIP user.
pub open spec fn sip_uri_text(user: Seq<char>, ip: Seq<char>, port: u16) -> Seq<char> {
    "sip:"@ + user + "@"@ + ip + ":"@ + decimal(port as nat)
}

/// The address of a SIP user.
pub fn sip_uri(user: &str, ip: &str, port: u16) -> (r: String)
    ensures
        r@ == sip_uri_text(user@, ip@, port),
{
    let port_text = decimal_string(port as u64);
    let mut m = "sip:".to_owned();
    m.append(user);
    m.append("@");
    m.append(ip);
    m.append(":");
    m.append(port_text.as_str());
    m
}

/// A tag parameter, or nothing where there is no tag.
pub open spec fn tag_param_text(tag: Option<String>) -> Seq<char> {
    match tag {
        Some(t) => ";tag="@ + t@,
        None => ""@,
    }
}

/// A tag parameter, or nothing where there is no tag.
pub fn tag_param(tag: &Option<String>) -> (r: String)
    ensures
        r@ == tag_param_text(*tag),
{
    match tag {
        Some(t) => {
            let mut m = ";tag=".to_owned();
            m.append(t.as_str());
            m
        },
        None => "".to_owned(),
    }
}

} // verus!
