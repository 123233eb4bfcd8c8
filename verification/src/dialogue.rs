//! That messages are understood: what is read of a message is what was written
//! into it.

use crate::messages::{
    accept_text, ack_text, busy_text, bye_text, challenge_text, invite_text, ok_text, rejected_text, ringing_text,
    sdp_answer_text, sdp_offer_text,
};
use crate::sip::{
    answer_port, extension_of, headers_in, headers_of, rest_of_line, to_tag_of, with_line, HeaderFields,
};
use crate::text::{
    begins_with_any_case, decimal, index_of_char, is_digit, is_whitespace, law_decimal_round_trip,
    law_found_at_the_first_place, lemma_index_of_char, lemma_index_of_char_unique,
    lemma_split_head, lines_of, position_of, small, stands_at, stripped_of, trimmed, trimmed_end,
    trimmed_start, without_return, word_end, words,
};
use vstd::prelude::*;
use vstd::string::*;
use vstd::utf8::encode_utf8;

verus! {

// ---------------------------------------------------------------------------
// Lines
// ---------------------------------------------------------------------------

/// The end of a line.
pub open spec fn crlf() -> Seq<char> {
    seq!['\r', '\n']
}

/// Lines as a text, each with its end.
pub open spec fn text_of(ls: Seq<Seq<char>>) -> Seq<char>
    decreases ls.len(),
{
    if ls.len() == 0 {
        Seq::empty()
    } else {
        text_of(ls.drop_last()) + ls.last() + crlf()
    }
}

/// A text without a line feed.
pub open spec fn one_line(s: Seq<char>) -> bool {
    !s.contains('\n')
}

/// A text that is empty or ends with a line feed.
spec fn is_whole(s: Seq<char>) -> bool {
    s.len() == 0 || s.last() == '\n'
}

proof fn lemma_lines_concat(a: Seq<char>, b: Seq<char>)
    requires
        is_whole(a),
    ensures
        lines_of(a + b) == lines_of(a) + lines_of(b),
    decreases a.len(),
{
    if a.len() == 0 {
        assert(a + b =~= b);
        assert(lines_of(a) + lines_of(b) =~= lines_of(b));
    } else {
        let i = index_of_char(a, '\n') as int;
        lemma_index_of_char(a, '\n');
        assert(i < a.len());
        assert forall|k: int| 0 <= k < i implies (a + b)[k] != '\n' by {
            assert((a + b)[k] == a[k]);
        }
        lemma_index_of_char_unique(a + b, '\n', i);
        let rest = a.skip(i + 1);
        assert((a + b).skip(i + 1) =~= rest + b);
        assert((a + b).take(i) =~= a.take(i));
        if rest.len() > 0 {
            assert(rest.last() == a.last());
        }
        lemma_lines_concat(rest, b);
        assert(lines_of(a + b) =~= lines_of(a) + lines_of(b));
    }
}

proof fn lemma_one_line(l: Seq<char>)
    requires
        one_line(l),
    ensures
        lines_of(l + crlf()) == seq![l],
{
    let s = l + crlf();
    assert forall|k: int| 0 <= k < l.len() + 1 implies s[k] != '\n' by {
        if k < l.len() {
            assert(l.contains(l[k]));
        }
    }
    lemma_index_of_char_unique(s, '\n', l.len() as int + 1);
    assert(s.take(l.len() as int + 1) =~= l.push('\r'));
    assert(l.push('\r').drop_last() =~= l);
    assert(without_return(l.push('\r')) =~= l);
    assert(s.skip(l.len() as int + 2) =~= Seq::<char>::empty());
    assert(lines_of(Seq::<char>::empty()) =~= Seq::<Seq<char>>::empty());
    assert(lines_of(s) =~= seq![l]);
}

/// Lines that are written as a text are read from it, with those of what follows.
pub proof fn law_lines_are_read_back(ls: Seq<Seq<char>>, rest: Seq<char>)
    requires
        forall|k: int| 0 <= k < ls.len() ==> one_line(#[trigger] ls[k]),
    ensures
        lines_of(text_of(ls) + rest) == ls + lines_of(rest),
    decreases ls.len(),
{
    if ls.len() == 0 {
        assert(text_of(ls) + rest =~= rest);
        assert(ls + lines_of(rest) =~= lines_of(rest));
    } else {
        let head = ls.drop_last();
        let l = ls.last();
        let more = l + crlf() + rest;
        law_lines_are_read_back(head, more);
        assert(text_of(ls) + rest =~= text_of(head) + more);
        assert(is_whole(l + crlf()));
        lemma_lines_concat(l + crlf(), rest);
        lemma_one_line(l);
        assert(ls + lines_of(rest) =~= head + (seq![l] + lines_of(rest)));
    }
}

// ---------------------------------------------------------------------------
// The lines of the messages
// ---------------------------------------------------------------------------

/// The lines of such a message.
pub open spec fn ok_lines(
    via: Seq<char>,
    from: Seq<char>,
    to: Seq<char>,
    call_id: Seq<char>,
    cseq: Seq<char>,
) -> Seq<Seq<char>> {
    seq![
        "SIP/2.0 200 OK"@,
        "Via: "@ + via,
        "From: "@ + from,
        "To: "@ + to,
        "Call-ID: "@ + call_id,
        "CSeq: "@ + cseq,
        "Content-Length: 0"@,
        Seq::empty(),
    ]
}

proof fn lemma_ok_lines(
    via: Seq<char>,
    from: Seq<char>,
    to: Seq<char>,
    call_id: Seq<char>,
    cseq: Seq<char>,
)
    ensures
        ok_text(via, from, to, call_id, cseq) == text_of(ok_lines(via, from, to, call_id, cseq)),
{
    reveal_strlit("SIP/2.0 200 OK\r\nVia: ");
    reveal_strlit("SIP/2.0 200 OK");
    reveal_strlit("Via: ");
    reveal_strlit("\r\nFrom: ");
    reveal_strlit("From: ");
    reveal_strlit("\r\nTo: ");
    reveal_strlit("To: ");
    reveal_strlit("\r\nCall-ID: ");
    reveal_strlit("Call-ID: ");
    reveal_strlit("\r\nCSeq: ");
    reveal_strlit("CSeq: ");
    reveal_strlit("\r\nContent-Length: 0\r\n\r\n");
    reveal_strlit("Content-Length: 0");
    let ls = ok_lines(via, from, to, call_id, cseq);
    reveal_with_fuel(text_of, 9);
    assert(ok_text(via, from, to, call_id, cseq) =~= text_of(ls));
}

/// The lines of such a message.
pub open spec fn rejected_lines(
    via: Seq<char>,
    from: Seq<char>,
    to: Seq<char>,
    call_id: Seq<char>,
    cseq: Seq<char>,
) -> Seq<Seq<char>> {
    seq![
        "SIP/2.0 486 Busy Here"@,
        "Via: "@ + via,
        "From: "@ + from,
        "To: "@ + to + ";tag=busy"@,
        "Call-ID: "@ + call_id,
        "CSeq: "@ + cseq,
        "Content-Length: 0"@,
        Seq::empty(),
    ]
}

proof fn lemma_rejected_lines(
    via: Seq<char>,
    from: Seq<char>,
    to: Seq<char>,
    call_id: Seq<char>,
    cseq: Seq<char>,
)
    ensures
        rejected_text(via, from, to, call_id, cseq) == text_of(rejected_lines(via, from, to,
            call_id, cseq)),
{
    reveal_strlit("SIP/2.0 486 Busy Here\r\nVia: ");
    reveal_strlit("SIP/2.0 486 Busy Here");
    reveal_strlit("Via: ");
    reveal_strlit("\r\nFrom: ");
    reveal_strlit("From: ");
    reveal_strlit("\r\nTo: ");
    reveal_strlit("To: ");
    reveal_strlit(";tag=busy\r\nCall-ID: ");
    reveal_strlit(";tag=busy");
    reveal_strlit("Call-ID: ");
    reveal_strlit("\r\nCSeq: ");
    reveal_strlit("CSeq: ");
    reveal_strlit("\r\nContent-Length: 0\r\n\r\n");
    reveal_strlit("Content-Length: 0");
    let ls = rejected_lines(via, from, to, call_id, cseq);
    reveal_with_fuel(text_of, 9);
    assert(rejected_text(via, from, to, call_id, cseq) =~= text_of(ls));
}

/// The lines of such a message.
pub open spec fn busy_lines(
    src_ip: Seq<char>,
    src_port: u16,
    from: Seq<char>,
    to: Seq<char>,
    call_id: Seq<char>,
) -> Seq<Seq<char>> {
    seq![
        "SIP/2.0 486 Busy Here"@,
        "Via: SIP/2.0/UDP "@ + src_ip + ":"@ + decimal(src_port as nat) + ";branch=z9hG4bK-inc"@,
        "From: "@ + from,
        "To: "@ + to + ";tag=busy"@,
        "Call-ID: "@ + call_id,
        "CSeq: 1 INVITE"@,
        "Content-Length: 0"@,
        Seq::empty(),
    ]
}

proof fn lemma_busy_lines(
    src_ip: Seq<char>,
    src_port: u16,
    from: Seq<char>,
    to: Seq<char>,
    call_id: Seq<char>,
)
    ensures
        busy_text(src_ip, src_port, from, to, call_id) == text_of(busy_lines(src_ip, src_port,
            from, to, call_id)),
{
    reveal_strlit("SIP/2.0 486 Busy Here\r\nVia: SIP/2.0/UDP ");
    reveal_strlit("SIP/2.0 486 Busy Here");
    reveal_strlit("Via: SIP/2.0/UDP ");
    reveal_strlit(":");
    reveal_strlit(";branch=z9hG4bK-inc\r\nFrom: ");
    reveal_strlit(";branch=z9hG4bK-inc");
    reveal_strlit("From: ");
    reveal_strlit("\r\nTo: ");
    reveal_strlit("To: ");
    reveal_strlit(";tag=busy\r\nCall-ID: ");
    reveal_strlit(";tag=busy");
    reveal_strlit("Call-ID: ");
    reveal_strlit("\r\nCSeq: 1 INVITE\r\nContent-Length: 0\r\n\r\n");
    reveal_strlit("CSeq: 1 INVITE");
    reveal_strlit("Content-Length: 0");
    let ls = busy_lines(src_ip, src_port, from, to, call_id);
    reveal_with_fuel(text_of, 9);
    assert(busy_text(src_ip, src_port, from, to, call_id) =~= text_of(ls));
}

/// The lines of such a message.
pub open spec fn ringing_lines(
    via: Seq<char>,
    from: Seq<char>,
    to: Seq<char>,
    channel: u32,
    call_id: Seq<char>,
    cseq: Seq<char>,
    contact_ip: Seq<char>,
) -> Seq<Seq<char>> {
    seq![
        "SIP/2.0 180 Ringing"@,
        "Via: "@ + via,
        "From: "@ + from,
        "To: "@ + to + ";tag=local-"@ + decimal(channel as nat),
        "Call-ID: "@ + call_id,
        "CSeq: "@ + cseq,
        "Contact: <sip:113@"@ + contact_ip + ":5060>"@,
        "Content-Length: 0"@,
        Seq::empty(),
    ]
}

#[verifier::rlimit(60)]
#[verifier::spinoff_prover]
proof fn lemma_ringing_lines(
    via: Seq<char>,
    from: Seq<char>,
    to: Seq<char>,
    channel: u32,
    call_id: Seq<char>,
    cseq: Seq<char>,
    contact_ip: Seq<char>,
)
    ensures
        ringing_text(via, from, to, channel, call_id, cseq, contact_ip)
            == text_of(ringing_lines(via, from, to, channel, call_id, cseq, contact_ip)),
{
    reveal_strlit("SIP/2.0 180 Ringing\r\nVia: ");
    reveal_strlit("SIP/2.0 180 Ringing");
    reveal_strlit("Via: ");
    reveal_strlit("\r\nFrom: ");
    reveal_strlit("From: ");
    reveal_strlit("\r\nTo: ");
    reveal_strlit("To: ");
    reveal_strlit(";tag=local-");
    reveal_strlit("\r\nCall-ID: ");
    reveal_strlit("Call-ID: ");
    reveal_strlit("\r\nCSeq: ");
    reveal_strlit("CSeq: ");
    reveal_strlit("\r\nContact: <sip:113@");
    reveal_strlit("Contact: <sip:113@");
    reveal_strlit(":5060>\r\nContent-Length: 0\r\n\r\n");
    reveal_strlit(":5060>");
    reveal_strlit("Content-Length: 0");
    let ls = ringing_lines(via, from, to, channel, call_id, cseq, contact_ip);
    reveal_with_fuel(text_of, 10);
    assert(ringing_text(via, from, to, channel, call_id, cseq, contact_ip) =~= text_of(ls));
}

/// The lines of such a message.
pub open spec fn challenge_lines(
    via: Seq<char>,
    from: Seq<char>,
    to: Seq<char>,
    call_id: Seq<char>,
    cseq: Seq<char>,
    nonce: Seq<char>,
) -> Seq<Seq<char>> {
    seq![
        "SIP/2.0 407 Proxy Authentication Required"@,
        "Via: "@ + via,
        "From: "@ + from,
        "To: "@ + to,
        "Call-ID: "@ + call_id,
        "CSeq: "@ + cseq,
        "Proxy-Authenticate: Digest realm=\"aquilla-12\", nonce=\""@ + nonce
            + "\", algorithm=SHA-256, qop=\"auth\""@,
        "Content-Length: 0"@,
        Seq::empty(),
    ]
}

proof fn lemma_challenge_lines(
    via: Seq<char>,
    from: Seq<char>,
    to: Seq<char>,
    call_id: Seq<char>,
    cseq: Seq<char>,
    nonce: Seq<char>,
)
    ensures
        challenge_text(via, from, to, call_id, cseq, nonce) == text_of(challenge_lines(via, from,
            to, call_id, cseq, nonce)),
{
    reveal_strlit("SIP/2.0 407 Proxy Authentication Required\r\nVia: ");
    reveal_strlit("SIP/2.0 407 Proxy Authentication Required");
    reveal_strlit("Via: ");
    reveal_strlit("\r\nFrom: ");
    reveal_strlit("From: ");
    reveal_strlit("\r\nTo: ");
    reveal_strlit("To: ");
    reveal_strlit("\r\nCall-ID: ");
    reveal_strlit("Call-ID: ");
    reveal_strlit("\r\nCSeq: ");
    reveal_strlit("CSeq: ");
    reveal_strlit("\r\nProxy-Authenticate: Digest realm=\"aquilla-12\", nonce=\"");
    reveal_strlit("Proxy-Authenticate: Digest realm=\"aquilla-12\", nonce=\"");
    reveal_strlit("\", algorithm=SHA-256, qop=\"auth\"\r\nContent-Length: 0\r\n\r\n");
    reveal_strlit("\", algorithm=SHA-256, qop=\"auth\"");
    reveal_strlit("Content-Length: 0");
    let ls = challenge_lines(via, from, to, call_id, cseq, nonce);
    reveal_with_fuel(text_of, 10);
    assert(challenge_text(via, from, to, call_id, cseq, nonce) =~= text_of(ls));
}

/// The lines of such a message.
pub open spec fn invite_lines(
    user: Seq<char>,
    dest: Seq<char>,
    local_ip: Seq<char>,
    local_port: u16,
    branch: Seq<char>,
    from_tag: Seq<char>,
    call_id: Seq<char>,
    sdp: Seq<char>,
) -> Seq<Seq<char>> {
    seq![
        "INVITE sip:"@ + user + "@"@ + dest + " SIP/2.0"@,
        "Via: SIP/2.0/UDP "@ + local_ip + ":"@ + decimal(local_port as nat) + ";branch="@ + branch,
        "Max-Forwards: 70"@,
        "To: <sip:"@ + user + "@"@ + dest + ">"@,
        "From: <sip:caller@"@ + local_ip + ":"@ + decimal(local_port as nat) + ">;tag="@ + from_tag,
        "Call-ID: "@ + call_id,
        "CSeq: 1 INVITE"@,
        "Contact: <sip:caller@"@ + local_ip + ":"@ + decimal(local_port as nat) + ">"@,
        "Content-Type: application/sdp"@,
        "Content-Length: "@ + decimal(encode_utf8(sdp).len()),
        Seq::empty(),
    ]
}

#[verifier::rlimit(80)]
#[verifier::spinoff_prover]
proof fn lemma_invite_lines(
    user: Seq<char>,
    dest: Seq<char>,
    local_ip: Seq<char>,
    local_port: u16,
    branch: Seq<char>,
    from_tag: Seq<char>,
    call_id: Seq<char>,
    sdp: Seq<char>,
)
    ensures
        invite_text(user, dest, local_ip, local_port, branch, from_tag, call_id, sdp)
            == text_of(invite_lines(user, dest, local_ip, local_port, branch, from_tag, call_id,
            sdp)) + sdp,
{
    reveal_strlit("INVITE sip:");
    reveal_strlit("@");
    reveal_strlit(" SIP/2.0\r\nVia: SIP/2.0/UDP ");
    reveal_strlit(" SIP/2.0");
    reveal_strlit("Via: SIP/2.0/UDP ");
    reveal_strlit(":");
    reveal_strlit(";branch=");
    reveal_strlit("\r\nMax-Forwards: 70\r\nTo: <sip:");
    reveal_strlit("Max-Forwards: 70");
    reveal_strlit("To: <sip:");
    reveal_strlit(">\r\nFrom: <sip:caller@");
    reveal_strlit(">");
    reveal_strlit("From: <sip:caller@");
    reveal_strlit(">;tag=");
    reveal_strlit("\r\nCall-ID: ");
    reveal_strlit("Call-ID: ");
    reveal_strlit("\r\nCSeq: 1 INVITE\r\nContact: <sip:caller@");
    reveal_strlit("CSeq: 1 INVITE");
    reveal_strlit("Contact: <sip:caller@");
    reveal_strlit(">\r\nContent-Type: application/sdp\r\nContent-Length: ");
    reveal_strlit("Content-Type: application/sdp");
    reveal_strlit("Content-Length: ");
    reveal_strlit("\r\n\r\n");
    let ls = invite_lines(user, dest, local_ip, local_port, branch, from_tag, call_id, sdp);
    reveal_with_fuel(text_of, 12);
    assert(invite_text(user, dest, local_ip, local_port, branch, from_tag, call_id, sdp)
        =~= text_of(ls) + sdp);
}

/// The lines of such a message.
pub open spec fn bye_lines(
    user: Seq<char>,
    target_ip: Seq<char>,
    target_port: u16,
    local_ip: Seq<char>,
    local_port: u16,
    branch: Seq<char>,
    to_tag: Seq<char>,
    from_tag: Seq<char>,
    call_id: Seq<char>,
) -> Seq<Seq<char>> {
    seq![
        "BYE sip:"@ + user + "@"@ + target_ip + ":"@ + decimal(target_port as nat) + " SIP/2.0"@,
        "Via: SIP/2.0/UDP "@ + local_ip + ":"@ + decimal(local_port as nat) + ";branch="@ + branch,
        "Max-Forwards: 70"@,
        "To: <sip:"@ + user + "@"@ + target_ip + ":"@ + decimal(target_port as nat) + ">"@ + to_tag,
        "From: <sip:caller@"@ + local_ip + ":"@ + decimal(local_port as nat) + ">;tag="@ + from_tag,
        "Call-ID: "@ + call_id,
        "CSeq: 2 BYE"@,
        "Content-Length: 0"@,
        Seq::empty(),
    ]
}

#[verifier::rlimit(80)]
#[verifier::spinoff_prover]
proof fn lemma_bye_lines(
    user: Seq<char>,
    target_ip: Seq<char>,
    target_port: u16,
    local_ip: Seq<char>,
    local_port: u16,
    branch: Seq<char>,
    to_tag: Seq<char>,
    from_tag: Seq<char>,
    call_id: Seq<char>,
)
    ensures
        bye_text(user, target_ip, target_port, local_ip, local_port, branch, to_tag, from_tag,
            call_id) == text_of(bye_lines(user, target_ip, target_port, local_ip, local_port,
            branch, to_tag, from_tag, call_id)),
{
    reveal_strlit("BYE sip:");
    reveal_strlit("@");
    reveal_strlit(":");
    reveal_strlit(" SIP/2.0\r\nVia: SIP/2.0/UDP ");
    reveal_strlit(" SIP/2.0");
    reveal_strlit("Via: SIP/2.0/UDP ");
    reveal_strlit(";branch=");
    reveal_strlit("\r\nMax-Forwards: 70\r\nTo: <sip:");
    reveal_strlit("Max-Forwards: 70");
    reveal_strlit("To: <sip:");
    reveal_strlit(">");
    reveal_strlit("\r\nFrom: <sip:caller@");
    reveal_strlit("From: <sip:caller@");
    reveal_strlit(">;tag=");
    reveal_strlit("\r\nCall-ID: ");
    reveal_strlit("Call-ID: ");
    reveal_strlit("\r\nCSeq: 2 BYE\r\nContent-Length: 0\r\n\r\n");
    reveal_strlit("CSeq: 2 BYE");
    reveal_strlit("Content-Length: 0");
    let ls = bye_lines(user, target_ip, target_port, local_ip, local_port, branch, to_tag,
        from_tag, call_id);
    reveal_with_fuel(text_of, 10);
    assert(bye_text(user, target_ip, target_port, local_ip, local_port, branch, to_tag, from_tag,
        call_id) =~= text_of(ls));
}

/// The lines of such a message.
pub open spec fn sdp_offer_lines(local_ip: Seq<char>, rtp_port: u16) -> Seq<Seq<char>> {
    seq![
        "v=0"@,
        "o=sip-controller 123456 123456 IN IP4 "@ + local_ip,
        "s=Talk"@,
        "c=IN IP4 "@ + local_ip,
        "t=0 0"@,
        "m=audio "@ + decimal(rtp_port as nat) + " RTP/AVP 0"@,
        "a=rtpmap:0 PCMU/8000"@,
    ]
}

proof fn lemma_sdp_offer_lines(local_ip: Seq<char>, rtp_port: u16)
    ensures
        sdp_offer_text(local_ip, rtp_port) == text_of(sdp_offer_lines(local_ip, rtp_port)),
{
    reveal_strlit("v=0\r\no=sip-controller 123456 123456 IN IP4 ");
    reveal_strlit("v=0");
    reveal_strlit("o=sip-controller 123456 123456 IN IP4 ");
    reveal_strlit("\r\ns=Talk\r\nc=IN IP4 ");
    reveal_strlit("s=Talk");
    reveal_strlit("c=IN IP4 ");
    reveal_strlit("\r\nt=0 0\r\nm=audio ");
    reveal_strlit("t=0 0");
    reveal_strlit("m=audio ");
    reveal_strlit(" RTP/AVP 0\r\na=rtpmap:0 PCMU/8000\r\n");
    reveal_strlit(" RTP/AVP 0");
    reveal_strlit("a=rtpmap:0 PCMU/8000");
    let ls = sdp_offer_lines(local_ip, rtp_port);
    reveal_with_fuel(text_of, 8);
    assert(sdp_offer_text(local_ip, rtp_port) =~= text_of(ls));
}

// ---------------------------------------------------------------------------
// Headers
// ---------------------------------------------------------------------------

/// What a header can hold: one line, without whitespace at its ends.
pub open spec fn is_value(v: Seq<char>) -> bool {
    one_line(v) && trimmed(v) == v
}

/// A line that is none of the headers that name a call.
spec fn is_aside(line: Seq<char>) -> bool {
    line.len() < 2 || {
        let a = small(line[0]);
        let b = small(line[1]);
        !((a == 'c' && b == 'a') || (a == 'f' && b == 'r') || (a == 't' && b == 'o') || (a == 'v'
            && b == 'i') || (a == 'c' && b == 's'))
    }
}

/// A line that is none of the headers that are read, nor a session's audio line.
spec fn is_quiet(line: Seq<char>) -> bool {
    is_aside(line) && (line.len() < 2 || {
        let a = small(line[0]);
        let b = small(line[1]);
        !((a == 'a' && b == 'u') || (a == 'p' && b == 'r') || (a == 'm' && b == '='))
    })
}

/// Two readings that name the same call.
pub open spec fn same_call(a: HeaderFields, b: HeaderFields) -> bool {
    a.call_id == b.call_id && a.from == b.from && a.to == b.to && a.via == b.via && a.cseq
        == b.cseq
}

proof fn lemma_names()
    ensures
        "call-id:"@ == seq!['c', 'a', 'l', 'l', '-', 'i', 'd', ':'],
        "from:"@ == seq!['f', 'r', 'o', 'm', ':'],
        "to:"@ == seq!['t', 'o', ':'],
        "via:"@ == seq!['v', 'i', 'a', ':'],
        "cseq:"@ == seq!['c', 's', 'e', 'q', ':'],
        "authorization:"@.len() == 14,
        "authorization:"@[0] == 'a',
        "authorization:"@[1] == 'u',
        "proxy-authorization:"@.len() == 20,
        "proxy-authorization:"@[0] == 'p',
        "proxy-authorization:"@[1] == 'r',
        "m=audio "@ == seq!['m', '=', 'a', 'u', 'd', 'i', 'o', ' '],
{
    reveal_strlit("call-id:");
    reveal_strlit("from:");
    reveal_strlit("to:");
    reveal_strlit("via:");
    reveal_strlit("cseq:");
    reveal_strlit("authorization:");
    reveal_strlit("proxy-authorization:");
    reveal_strlit("m=audio ");
    assert("call-id:"@ =~= seq!['c', 'a', 'l', 'l', '-', 'i', 'd', ':']);
    assert("from:"@ =~= seq!['f', 'r', 'o', 'm', ':']);
    assert("to:"@ =~= seq!['t', 'o', ':']);
    assert("via:"@ =~= seq!['v', 'i', 'a', ':']);
    assert("cseq:"@ =~= seq!['c', 's', 'e', 'q', ':']);
    assert("m=audio "@ =~= seq!['m', '=', 'a', 'u', 'd', 'i', 'o', ' ']);
}

proof fn lemma_aside(h: HeaderFields, line: Seq<char>)
    requires
        is_aside(line),
    ensures
        same_call(with_line(h, line), h),
        is_quiet(line) ==> with_line(h, line) == h,
{
    lemma_names();
}

proof fn lemma_trimmed_space(v: Seq<char>)
    ensures
        trimmed(seq![' '] + v) == trimmed(v),
{
    let s = seq![' '] + v;
    assert(is_whitespace(s[0]));
    assert(s.skip(1) =~= v);
}

proof fn lemma_call_headers(h: HeaderFields, v: Seq<char>)
    ensures
        with_line(h, "Call-ID: "@ + v) == (HeaderFields { call_id: trimmed(v), ..h }),
        with_line(h, "From: "@ + v) == (HeaderFields { from: trimmed(v), ..h }),
        with_line(h, "To: "@ + v) == (HeaderFields { to: trimmed(v), ..h }),
        with_line(h, "Via: "@ + v) == (HeaderFields { via: trimmed(v), ..h }),
        with_line(h, "CSeq: "@ + v) == (HeaderFields { cseq: trimmed(v), ..h }),
{
    lemma_names();
    lemma_trimmed_space(v);
    reveal_strlit("Call-ID: ");
    reveal_strlit("From: ");
    reveal_strlit("To: ");
    reveal_strlit("Via: ");
    reveal_strlit("CSeq: ");
    let id = "Call-ID: "@ + v;
    assert(begins_with_any_case(id, "call-id:"@));
    assert(id.skip(8) =~= seq![' '] + v);
    let from = "From: "@ + v;
    assert(small(from[0]) == 'f');
    assert(begins_with_any_case(from, "from:"@));
    assert(from.skip(5) =~= seq![' '] + v);
    let to = "To: "@ + v;
    assert(small(to[0]) == 't');
    assert(begins_with_any_case(to, "to:"@));
    assert(to.skip(3) =~= seq![' '] + v);
    let via = "Via: "@ + v;
    assert(small(via[0]) == 'v');
    assert(begins_with_any_case(via, "via:"@));
    assert(via.skip(4) =~= seq![' '] + v);
    let cseq = "CSeq: "@ + v;
    assert(small(cseq[1]) == 's');
    assert(begins_with_any_case(cseq, "cseq:"@));
    assert(cseq.skip(5) =~= seq![' '] + v);
}

proof fn lemma_read_one(ls: Seq<Seq<char>>, k: int)
    requires
        0 <= k < ls.len(),
    ensures
        headers_in(ls.take(k + 1)) == with_line(headers_in(ls.take(k)), ls[k]),
{
    assert(ls.take(k + 1).drop_last() =~= ls.take(k));
}

proof fn lemma_asides(ls: Seq<Seq<char>>, from: int, to: int)
    requires
        0 <= from <= to <= ls.len(),
        forall|k: int| from <= k < to ==> is_aside(#[trigger] ls[k]),
    ensures
        same_call(headers_in(ls.take(to)), headers_in(ls.take(from))),
    decreases to - from,
{
    if from < to {
        lemma_asides(ls, from, to - 1);
        lemma_read_one(ls, to - 1);
        lemma_aside(headers_in(ls.take(to - 1)), ls[to - 1]);
    }
}

/// The headers of a reply whose lines name the call in the order in which the
/// gateway writes them.
proof fn lemma_reply_headers(
    ls: Seq<Seq<char>>,
    via: Seq<char>,
    from: Seq<char>,
    to: Seq<char>,
    call_id: Seq<char>,
    cseq: Seq<char>,
)
    requires
        ls.len() >= 6,
        is_aside(ls[0]),
        ls[1] == "Via: "@ + via,
        ls[2] == "From: "@ + from,
        ls[3] == "To: "@ + to,
        ls[4] == "Call-ID: "@ + call_id,
        ls[5] == "CSeq: "@ + cseq,
        forall|k: int| 6 <= k < ls.len() ==> is_aside(#[trigger] ls[k]),
    ensures
        ({
            let h = headers_in(ls);
            &&& h.via == trimmed(via)
            &&& h.from == trimmed(from)
            &&& h.to == trimmed(to)
            &&& h.call_id == trimmed(call_id)
            &&& h.cseq == trimmed(cseq)
        }),
{
    lemma_read_one(ls, 0);
    lemma_read_one(ls, 1);
    lemma_read_one(ls, 2);
    lemma_read_one(ls, 3);
    lemma_read_one(ls, 4);
    lemma_read_one(ls, 5);
    lemma_call_headers(headers_in(ls.take(1)), via);
    lemma_call_headers(headers_in(ls.take(2)), from);
    lemma_call_headers(headers_in(ls.take(3)), to);
    lemma_call_headers(headers_in(ls.take(4)), call_id);
    lemma_call_headers(headers_in(ls.take(5)), cseq);
    lemma_asides(ls, 6, ls.len() as int);
    assert(ls.take(ls.len() as int) =~= ls);
}

proof fn lemma_one_line_concat(a: Seq<char>, b: Seq<char>)
    requires
        one_line(a),
        one_line(b),
    ensures
        one_line(a + b),
{
    let s = a + b;
    if s.contains('\n') {
        let k = choose|k: int| 0 <= k < s.len() && s[k] == '\n';
        if k < a.len() {
            assert(a.contains(a[k]));
        } else {
            assert(b.contains(b[k - a.len()]));
        }
    }
}

/// A decimal number is one word.
pub proof fn lemma_decimal_plain(n: nat)
    ensures
        one_line(decimal(n)),
        decimal(n).len() > 0,
        forall|k: int| 0 <= k < decimal(n).len() ==> !is_whitespace(#[trigger] decimal(n)[k]),
{
    law_decimal_round_trip(n, n);
    let d = decimal(n);
    assert forall|k: int| 0 <= k < d.len() implies !is_whitespace(#[trigger] d[k]) && d[k]
        != '\n' by {
        assert(is_digit(d[k]));
    }
}

/// A trimmed text has no whitespace at its ends, and one without is not changed.
pub proof fn lemma_trimmed_ends(s: Seq<char>)
    ensures
        trimmed(s).len() > 0 ==> !is_whitespace(trimmed(s)[0]) && !is_whitespace(trimmed(s).last()),
        s.len() > 0 && !is_whitespace(s[0]) && !is_whitespace(s.last()) ==> trimmed(s) == s,
        one_line(s) ==> one_line(trimmed(s)),
{
    lemma_trimmed_start(s);
    lemma_trimmed_end(trimmed_start(s));
}

proof fn lemma_trimmed_start(s: Seq<char>)
    ensures
        trimmed_start(s).len() <= s.len(),
        trimmed_start(s).len() > 0 ==> !is_whitespace(trimmed_start(s)[0]),
        one_line(s) ==> one_line(trimmed_start(s)),
    decreases s.len(),
{
    if s.len() > 0 && is_whitespace(s[0]) {
        lemma_trimmed_start(s.skip(1));
        if one_line(s) && s.skip(1).contains('\n') {
            let k = choose|k: int| 0 <= k < s.skip(1).len() && s.skip(1)[k] == '\n';
            assert(s.contains(s[k + 1]));
        }
    }
}

proof fn lemma_trimmed_end(s: Seq<char>)
    ensures
        trimmed_end(s).len() <= s.len(),
        trimmed_end(s).len() > 0 ==> !is_whitespace(trimmed_end(s).last()) && trimmed_end(s)[0]
            == s[0],
        one_line(s) ==> one_line(trimmed_end(s)),
    decreases s.len(),
{
    if s.len() > 0 && is_whitespace(s.last()) {
        lemma_trimmed_end(s.drop_last());
        if one_line(s) && s.drop_last().contains('\n') {
            let k = choose|k: int| 0 <= k < s.drop_last().len() && s.drop_last()[k] == '\n';
            assert(s.contains(s[k]));
        }
    }
}

/// What is read as a header can be written as one: the headers of a request are
/// values.
pub proof fn law_headers_are_values(msg: Seq<char>)
    ensures
        is_value(headers_of(msg).call_id),
        is_value(headers_of(msg).from),
        is_value(headers_of(msg).to),
        is_value(headers_of(msg).via),
        is_value(headers_of(msg).cseq),
{
    lemma_lines_are_single(msg);
    lemma_values_in(lines_of(msg));
}

proof fn lemma_lines_are_single(s: Seq<char>)
    ensures
        forall|k: int| 0 <= k < lines_of(s).len() ==> one_line(#[trigger] lines_of(s)[k]),
    decreases s.len(),
{
    let i = index_of_char(s, '\n') as int;
    lemma_index_of_char(s, '\n');
    if s.len() > 0 {
        if i >= s.len() {
            assert(one_line(s));
        } else {
            let first = without_return(s.take(i));
            if first.contains('\n') {
                let k = choose|k: int| 0 <= k < first.len() && first[k] == '\n';
                assert(s[k] == '\n');
            }
            lemma_lines_are_single(s.skip(i + 1));
            let rest = lines_of(s.skip(i + 1));
            assert forall|k: int| 0 <= k < lines_of(s).len() implies one_line(
                #[trigger] lines_of(s)[k],
            ) by {
                if k > 0 {
                    assert(lines_of(s)[k] == rest[k - 1]);
                }
            }
        }
    }
}

proof fn lemma_skip_is_single(line: Seq<char>, n: int)
    requires
        one_line(line),
        0 <= n <= line.len(),
    ensures
        is_value(trimmed(line.skip(n))),
{
    let s = line.skip(n);
    if s.contains('\n') {
        let k = choose|k: int| 0 <= k < s.len() && s[k] == '\n';
        assert(line.contains(line[k + n]));
    }
    lemma_trimmed_ends(s);
    lemma_trimmed_ends(trimmed(s));
    if trimmed(s).len() == 0 {
        assert(trimmed(trimmed(s)) =~= trimmed(s));
    }
}

proof fn lemma_values_in(ls: Seq<Seq<char>>)
    requires
        forall|k: int| 0 <= k < ls.len() ==> one_line(#[trigger] ls[k]),
    ensures
        ({
            let h = headers_in(ls);
            is_value(h.call_id) && is_value(h.from) && is_value(h.to) && is_value(h.via)
                && is_value(h.cseq)
        }),
    decreases ls.len(),
{
    if ls.len() == 0 {
        let none = Seq::<char>::empty();
        assert(trimmed(none) =~= none);
    } else {
        lemma_values_in(ls.drop_last());
        let line = ls.last();
        lemma_names();
        if line.len() >= 8 {
            lemma_skip_is_single(line, 8);
        }
        if line.len() >= 5 {
            lemma_skip_is_single(line, 5);
        }
        if line.len() >= 4 {
            lemma_skip_is_single(line, 4);
        }
        if line.len() >= 3 {
            lemma_skip_is_single(line, 3);
        }
    }
}

// ---------------------------------------------------------------------------
// Replies
// ---------------------------------------------------------------------------

proof fn lemma_single_headers(v: Seq<char>)
    requires
        one_line(v),
    ensures
        one_line("Via: "@ + v),
        one_line("From: "@ + v),
        one_line("To: "@ + v),
        one_line("Call-ID: "@ + v),
        one_line("CSeq: "@ + v),
{
    reveal_strlit("Via: ");
    reveal_strlit("From: ");
    reveal_strlit("To: ");
    reveal_strlit("Call-ID: ");
    reveal_strlit("CSeq: ");
    lemma_one_line_concat("Via: "@, v);
    lemma_one_line_concat("From: "@, v);
    lemma_one_line_concat("To: "@, v);
    lemma_one_line_concat("Call-ID: "@, v);
    lemma_one_line_concat("CSeq: "@, v);
}

/// A value with a tag behind it is a value.
proof fn lemma_tagged(to: Seq<char>, tag: Seq<char>)
    requires
        is_value(to),
        one_line(tag),
        tag.len() > 0,
        !is_whitespace(tag[0]),
        !is_whitespace(tag.last()),
    ensures
        is_value(to + tag),
{
    lemma_one_line_concat(to, tag);
    lemma_trimmed_ends(to);
    lemma_trimmed_ends(to + tag);
    let s = to + tag;
    assert(s.last() == tag.last());
    assert(s[0] == if to.len() > 0 {
        to[0]
    } else {
        tag[0]
    });
}

proof fn lemma_read_lines(ls: Seq<Seq<char>>)
    requires
        forall|k: int| 0 <= k < ls.len() ==> one_line(#[trigger] ls[k]),
    ensures
        headers_of(text_of(ls)) == headers_in(ls),
{
    law_lines_are_read_back(ls, Seq::empty());
    assert(text_of(ls) + Seq::<char>::empty() =~= text_of(ls));
    assert(lines_of(Seq::<char>::empty()) =~= Seq::<Seq<char>>::empty());
    assert(ls + Seq::<Seq<char>>::empty() =~= ls);
}

/// The confirmation of a request names the same call as the request.
pub proof fn law_ok_names_the_call(msg: Seq<char>)
    ensures
        ({
            let h = headers_of(msg);
            same_call(headers_of(ok_text(h.via, h.from, h.to, h.call_id, h.cseq)), h)
        }),
{
    law_headers_are_values(msg);
    let h = headers_of(msg);
    lemma_ok_lines(h.via, h.from, h.to, h.call_id, h.cseq);
    let ls = ok_lines(h.via, h.from, h.to, h.call_id, h.cseq);
    reveal_strlit("SIP/2.0 200 OK");
    reveal_strlit("Content-Length: 0");
    lemma_single_headers(h.via);
    lemma_single_headers(h.from);
    lemma_single_headers(h.to);
    lemma_single_headers(h.call_id);
    lemma_single_headers(h.cseq);
    lemma_read_lines(ls);
    lemma_reply_headers(ls, h.via, h.from, h.to, h.call_id, h.cseq);
}

/// The refusal of a call names the same call as the request, with a tag.
pub proof fn law_rejection_names_the_call(msg: Seq<char>)
    ensures
        ({
            let h = headers_of(msg);
            same_call(
                headers_of(rejected_text(h.via, h.from, h.to, h.call_id, h.cseq)),
                HeaderFields { to: h.to + ";tag=busy"@, ..h },
            )
        }),
{
    law_headers_are_values(msg);
    let h = headers_of(msg);
    lemma_rejected_lines(h.via, h.from, h.to, h.call_id, h.cseq);
    let ls = rejected_lines(h.via, h.from, h.to, h.call_id, h.cseq);
    let to = h.to + ";tag=busy"@;
    reveal_strlit("SIP/2.0 486 Busy Here");
    reveal_strlit("Content-Length: 0");
    reveal_strlit(";tag=busy");
    lemma_tagged(h.to, ";tag=busy"@);
    assert("To: "@ + h.to + ";tag=busy"@ =~= "To: "@ + to);
    lemma_single_headers(h.via);
    lemma_single_headers(h.from);
    lemma_single_headers(to);
    lemma_single_headers(h.call_id);
    lemma_single_headers(h.cseq);
    lemma_read_lines(ls);
    lemma_reply_headers(ls, h.via, h.from, to, h.call_id, h.cseq);
}

/// The word that a call rings names the same call as the request, with the
/// channel's tag.
pub proof fn law_ringing_names_the_call(msg: Seq<char>, channel: u32, contact_ip: Seq<char>)
    requires
        one_line(contact_ip),
    ensures
        ({
            let h = headers_of(msg);
            same_call(
                headers_of(
                    ringing_text(h.via, h.from, h.to, channel, h.call_id, h.cseq, contact_ip),
                ),
                HeaderFields { to: h.to + ";tag=local-"@ + decimal(channel as nat), ..h },
            )
        }),
{
    law_headers_are_values(msg);
    let h = headers_of(msg);
    let n = decimal(channel as nat);
    lemma_ringing_lines(h.via, h.from, h.to, channel, h.call_id, h.cseq, contact_ip);
    let ls = ringing_lines(h.via, h.from, h.to, channel, h.call_id, h.cseq, contact_ip);
    let tag = ";tag=local-"@ + n;
    let to = h.to + tag;
    reveal_strlit("SIP/2.0 180 Ringing");
    reveal_strlit("Content-Length: 0");
    reveal_strlit(";tag=local-");
    reveal_strlit("Contact: <sip:113@");
    reveal_strlit(":5060>");
    lemma_decimal_plain(channel as nat);
    lemma_one_line_concat(";tag=local-"@, n);
    assert(tag.last() == n.last());
    lemma_tagged(h.to, tag);
    assert("To: "@ + h.to + ";tag=local-"@ + n =~= "To: "@ + to);
    assert(h.to + ";tag=local-"@ + n =~= to);
    lemma_one_line_concat("Contact: <sip:113@"@, contact_ip);
    lemma_one_line_concat("Contact: <sip:113@"@ + contact_ip, ":5060>"@);
    lemma_single_headers(h.via);
    lemma_single_headers(h.from);
    lemma_single_headers(to);
    lemma_single_headers(h.call_id);
    lemma_single_headers(h.cseq);
    lemma_read_lines(ls);
    lemma_reply_headers(ls, h.via, h.from, to, h.call_id, h.cseq);
}

/// The lines of such a session description.
pub open spec fn sdp_answer_lines(local_ip: Seq<char>, rtp_port: u16) -> Seq<Seq<char>> {
    seq![
        "v=0"@,
        "o=- 123456 123457 IN IP4 "@ + local_ip,
        "s=Session SIP"@,
        "c=IN IP4 "@ + local_ip,
        "t=0 0"@,
        "m=audio "@ + decimal(rtp_port as nat) + " RTP/AVP 0"@,
        "a=rtpmap:0 PCMU/8000"@,
        "a=sendrecv"@,
    ]
}

#[verifier::spinoff_prover]
proof fn lemma_sdp_answer_lines(local_ip: Seq<char>, rtp_port: u16)
    ensures
        sdp_answer_text(local_ip, rtp_port) == text_of(sdp_answer_lines(local_ip, rtp_port)),
{
    reveal_strlit("v=0\r\no=- 123456 123457 IN IP4 ");
    reveal_strlit("v=0");
    reveal_strlit("o=- 123456 123457 IN IP4 ");
    reveal_strlit("\r\ns=Session SIP\r\nc=IN IP4 ");
    reveal_strlit("s=Session SIP");
    reveal_strlit("c=IN IP4 ");
    reveal_strlit("\r\nt=0 0\r\nm=audio ");
    reveal_strlit("t=0 0");
    reveal_strlit("m=audio ");
    reveal_strlit(" RTP/AVP 0\r\na=rtpmap:0 PCMU/8000\r\na=sendrecv\r\n");
    reveal_strlit(" RTP/AVP 0");
    reveal_strlit("a=rtpmap:0 PCMU/8000");
    reveal_strlit("a=sendrecv");
    let ls = sdp_answer_lines(local_ip, rtp_port);
    reveal_with_fuel(text_of, 9);
    assert(sdp_answer_text(local_ip, rtp_port) =~= text_of(ls));
}

#[verifier::rlimit(40)]
#[verifier::spinoff_prover]
proof fn lemma_answer_single(local_ip: Seq<char>, rtp_port: u16)
    requires
        one_line(local_ip),
    ensures
        ({
            let ls = sdp_answer_lines(local_ip, rtp_port);
            &&& forall|k: int| 0 <= k < ls.len() ==> one_line(#[trigger] ls[k])
            &&& forall|k: int| 0 <= k < ls.len() ==> is_aside(#[trigger] ls[k])
            &&& forall|k: int| 0 <= k < ls.len() && k != 5 ==> !may_be_audio(#[trigger] ls[k])
        }),
{
    let ls = sdp_answer_lines(local_ip, rtp_port);
    let n = decimal(rtp_port as nat);
    reveal_strlit("v=0");
    reveal_strlit("o=- 123456 123457 IN IP4 ");
    reveal_strlit("s=Session SIP");
    reveal_strlit("c=IN IP4 ");
    reveal_strlit("t=0 0");
    reveal_strlit("m=audio ");
    reveal_strlit(" RTP/AVP 0");
    reveal_strlit("a=rtpmap:0 PCMU/8000");
    reveal_strlit("a=sendrecv");
    lemma_decimal_plain(rtp_port as nat);
    lemma_one_line_concat("o=- 123456 123457 IN IP4 "@, local_ip);
    lemma_one_line_concat("c=IN IP4 "@, local_ip);
    lemma_one_line_concat("m=audio "@, n);
    lemma_one_line_concat("m=audio "@ + n, " RTP/AVP 0"@);
    assert(one_line(ls[0]));
    assert(one_line(ls[1]));
    assert(one_line(ls[2]));
    assert(one_line(ls[3]));
    assert(one_line(ls[4]));
    assert(one_line(ls[5]));
    assert(one_line(ls[6]));
    assert(one_line(ls[7]));
    assert(small(ls[0][0]) == 'v' && small(ls[0][1]) == '=');
    assert(small(ls[1][0]) == 'o');
    assert(small(ls[2][0]) == 's');
    assert(small(ls[3][0]) == 'c' && small(ls[3][1]) == '=');
    assert(small(ls[4][0]) == 't' && small(ls[4][1]) == '=');
    assert(small(ls[5][0]) == 'm');
    assert(small(ls[6][0]) == 'a' && small(ls[6][1]) == '=');
    assert(small(ls[7][0]) == 'a' && small(ls[7][1]) == '=');
}

/// The lines of such a message, up to its session description.
pub open spec fn accept_lines(
    via: Seq<char>,
    from: Seq<char>,
    to: Seq<char>,
    channel: u32,
    call_id: Seq<char>,
    cseq: Seq<char>,
    local_ip: Seq<char>,
    local_port: u16,
    length: nat,
) -> Seq<Seq<char>> {
    seq![
        "SIP/2.0 200 OK"@,
        "Via: "@ + via,
        "From: "@ + from,
        "To: "@ + to + ";tag=local-"@ + decimal(channel as nat),
        "Call-ID: "@ + call_id,
        "CSeq: "@ + cseq,
        "Contact: <sip:113@"@ + local_ip + ":"@ + decimal(local_port as nat) + ">"@,
        "Content-Type: application/sdp"@,
        "Content-Length: "@ + decimal(length),
        Seq::empty(),
    ]
}

#[verifier::rlimit(80)]
#[verifier::spinoff_prover]
proof fn lemma_accept_lines(
    via: Seq<char>,
    from: Seq<char>,
    to: Seq<char>,
    channel: u32,
    call_id: Seq<char>,
    cseq: Seq<char>,
    local_ip: Seq<char>,
    local_port: u16,
    sdp: Seq<char>,
)
    ensures
        accept_text(via, from, to, channel, call_id, cseq, local_ip, local_port, sdp) == text_of(
            accept_lines(
                via,
                from,
                to,
                channel,
                call_id,
                cseq,
                local_ip,
                local_port,
                encode_utf8(sdp).len(),
            ),
        ) + sdp,
{
    reveal_strlit("SIP/2.0 200 OK\r\nVia: ");
    reveal_strlit("SIP/2.0 200 OK");
    reveal_strlit("Via: ");
    reveal_strlit("\r\nFrom: ");
    reveal_strlit("From: ");
    reveal_strlit("\r\nTo: ");
    reveal_strlit("To: ");
    reveal_strlit(";tag=local-");
    reveal_strlit("\r\nCall-ID: ");
    reveal_strlit("Call-ID: ");
    reveal_strlit("\r\nCSeq: ");
    reveal_strlit("CSeq: ");
    reveal_strlit("\r\nContact: <sip:113@");
    reveal_strlit("Contact: <sip:113@");
    reveal_strlit(":");
    reveal_strlit(">\r\nContent-Type: application/sdp\r\nContent-Length: ");
    reveal_strlit(">");
    reveal_strlit("Content-Type: application/sdp");
    reveal_strlit("Content-Length: ");
    reveal_strlit("\r\n\r\n");
    let ls = accept_lines(
        via,
        from,
        to,
        channel,
        call_id,
        cseq,
        local_ip,
        local_port,
        encode_utf8(sdp).len(),
    );
    reveal_with_fuel(text_of, 11);
    assert(accept_text(via, from, to, channel, call_id, cseq, local_ip, local_port, sdp)
        =~= text_of(ls) + sdp);
}

/// The acceptance of a call names the same call as the request, with the channel's
/// tag, and tells the port for its sound.
#[verifier::rlimit(60)]
#[verifier::spinoff_prover]
pub proof fn law_acceptance_names_the_call(
    msg: Seq<char>,
    channel: u32,
    local_ip: Seq<char>,
    local_port: u16,
    rtp_port: u16,
)
    requires
        one_line(local_ip),
    ensures
        ({
            let h = headers_of(msg);
            let read = headers_of(
                accept_text(
                    h.via,
                    h.from,
                    h.to,
                    channel,
                    h.call_id,
                    h.cseq,
                    local_ip,
                    local_port,
                    sdp_answer_text(local_ip, rtp_port),
                ),
            );
            &&& same_call(
                read,
                HeaderFields { to: h.to + ";tag=local-"@ + decimal(channel as nat), ..h },
            )
            &&& read.rtp_port == rtp_port
        }),
{
    law_headers_are_values(msg);
    let h = headers_of(msg);
    let n = decimal(channel as nat);
    let sdp = sdp_answer_text(local_ip, rtp_port);
    let length = encode_utf8(sdp).len();
    lemma_accept_lines(
        h.via,
        h.from,
        h.to,
        channel,
        h.call_id,
        h.cseq,
        local_ip,
        local_port,
        sdp,
    );
    lemma_sdp_answer_lines(local_ip, rtp_port);
    lemma_answer_single(local_ip, rtp_port);
    let heads = accept_lines(
        h.via,
        h.from,
        h.to,
        channel,
        h.call_id,
        h.cseq,
        local_ip,
        local_port,
        length,
    );
    let body = sdp_answer_lines(local_ip, rtp_port);
    let ls = heads + body;
    let tag = ";tag=local-"@ + n;
    let to = h.to + tag;
    let port = decimal(local_port as nat);
    reveal_strlit("SIP/2.0 200 OK");
    reveal_strlit(";tag=local-");
    reveal_strlit("Contact: <sip:113@");
    reveal_strlit(":");
    reveal_strlit(">");
    reveal_strlit("Content-Type: application/sdp");
    reveal_strlit("Content-Length: ");
    lemma_decimal_plain(channel as nat);
    lemma_decimal_plain(local_port as nat);
    lemma_decimal_plain(length);
    lemma_one_line_concat(";tag=local-"@, n);
    assert(tag.last() == n.last());
    lemma_tagged(h.to, tag);
    assert("To: "@ + h.to + ";tag=local-"@ + n =~= "To: "@ + to);
    assert(h.to + ";tag=local-"@ + n =~= to);
    lemma_one_line_concat("Contact: <sip:113@"@, local_ip);
    lemma_one_line_concat("Contact: <sip:113@"@ + local_ip, ":"@);
    lemma_one_line_concat("Contact: <sip:113@"@ + local_ip + ":"@, port);
    lemma_one_line_concat("Contact: <sip:113@"@ + local_ip + ":"@ + port, ">"@);
    lemma_one_line_concat("Content-Length: "@, decimal(length));
    lemma_single_headers(h.via);
    lemma_single_headers(h.from);
    lemma_single_headers(to);
    lemma_single_headers(h.call_id);
    lemma_single_headers(h.cseq);
    assert(one_line(heads[0]));
    assert(one_line(heads[7]));
    assert(one_line(heads[9]));
    assert forall|k: int| 0 <= k < heads.len() implies one_line(#[trigger] heads[k]) by {}
    lemma_joined_lines(heads, body);
    reveal_strlit("Via: ");
    reveal_strlit("From: ");
    reveal_strlit("To: ");
    reveal_strlit("Call-ID: ");
    reveal_strlit("CSeq: ");
    assert(small(heads[0][0]) == 's' && small(heads[0][1]) == 'i');
    assert(small(heads[6][0]) == 'c' && small(heads[6][1]) == 'o');
    assert(small(heads[7][0]) == 'c' && small(heads[7][1]) == 'o');
    assert(small(heads[8][0]) == 'c' && small(heads[8][1]) == 'o');
    assert forall|k: int| 6 <= k < ls.len() implies is_aside(#[trigger] ls[k]) by {
        if k >= heads.len() {
            assert(ls[k] == body[k - heads.len()]);
        } else {
            assert(ls[k] == heads[k]);
        }
    }
    lemma_reply_headers(ls, h.via, h.from, to, h.call_id, h.cseq);
    assert forall|k: int| 16 <= k < ls.len() implies !may_be_audio(#[trigger] ls[k]) by {
        assert(ls[k] == body[k - heads.len()]);
    }
    lemma_ports_kept(ls, 16, ls.len() as int);
    assert(ls[15] == body[5]);
    lemma_read_one(ls, 15);
    lemma_audio_line(headers_in(ls.take(15)), rtp_port);
    assert(ls.take(ls.len() as int) =~= ls);
}

/// Lines that are written in two parts are read as one.
proof fn lemma_joined_lines(heads: Seq<Seq<char>>, body: Seq<Seq<char>>)
    requires
        forall|k: int| 0 <= k < heads.len() ==> one_line(#[trigger] heads[k]),
        forall|k: int| 0 <= k < body.len() ==> one_line(#[trigger] body[k]),
    ensures
        headers_of(text_of(heads) + text_of(body)) == headers_in(heads + body),
{
    law_lines_are_read_back(heads, text_of(body));
    law_lines_are_read_back(body, Seq::empty());
    assert(text_of(body) + Seq::<char>::empty() =~= text_of(body));
    assert(lines_of(Seq::<char>::empty()) =~= Seq::<Seq<char>>::empty());
    assert(body + Seq::<Seq<char>>::empty() =~= body);
}

/// The demand that a caller authenticate names the same call as the request.
pub proof fn law_challenge_names_the_call(msg: Seq<char>, nonce: Seq<char>)
    requires
        one_line(nonce),
    ensures
        ({
            let h = headers_of(msg);
            same_call(
                headers_of(challenge_text(h.via, h.from, h.to, h.call_id, h.cseq, nonce)),
                h,
            )
        }),
{
    law_headers_are_values(msg);
    let h = headers_of(msg);
    lemma_challenge_lines(h.via, h.from, h.to, h.call_id, h.cseq, nonce);
    let ls = challenge_lines(h.via, h.from, h.to, h.call_id, h.cseq, nonce);
    reveal_strlit("SIP/2.0 407 Proxy Authentication Required");
    reveal_strlit("Content-Length: 0");
    reveal_strlit("Proxy-Authenticate: Digest realm=\"aquilla-12\", nonce=\"");
    reveal_strlit("\", algorithm=SHA-256, qop=\"auth\"");
    let head = "Proxy-Authenticate: Digest realm=\"aquilla-12\", nonce=\""@;
    lemma_one_line_concat(head, nonce);
    lemma_one_line_concat(head + nonce, "\", algorithm=SHA-256, qop=\"auth\""@);
    lemma_single_headers(h.via);
    lemma_single_headers(h.from);
    lemma_single_headers(h.to);
    lemma_single_headers(h.call_id);
    lemma_single_headers(h.cseq);
    lemma_read_lines(ls);
    lemma_reply_headers(ls, h.via, h.from, h.to, h.call_id, h.cseq);
}

/// The word that no channel is free names the same call as the request, with a
/// tag. It has a sequence number of its own, and goes by the caller's address.
pub proof fn law_busy_names_the_call(msg: Seq<char>, src_ip: Seq<char>, src_port: u16)
    requires
        one_line(src_ip),
    ensures
        ({
            let h = headers_of(msg);
            let r = headers_of(busy_text(src_ip, src_port, h.from, h.to, h.call_id));
            r.call_id == h.call_id && r.from == h.from && r.to == h.to + ";tag=busy"@ && r.cseq
                == "1 INVITE"@
        }),
{
    law_headers_are_values(msg);
    let h = headers_of(msg);
    let n = decimal(src_port as nat);
    lemma_busy_lines(src_ip, src_port, h.from, h.to, h.call_id);
    let ls = busy_lines(src_ip, src_port, h.from, h.to, h.call_id);
    let to = h.to + ";tag=busy"@;
    let via = "SIP/2.0/UDP "@ + src_ip + ":"@ + n + ";branch=z9hG4bK-inc"@;
    reveal_strlit("SIP/2.0 486 Busy Here");
    reveal_strlit("Content-Length: 0");
    reveal_strlit(";tag=busy");
    reveal_strlit("Via: SIP/2.0/UDP ");
    reveal_strlit("SIP/2.0/UDP ");
    reveal_strlit("Via: ");
    reveal_strlit("CSeq: ");
    reveal_strlit("CSeq: 1 INVITE");
    reveal_strlit("1 INVITE");
    reveal_strlit(":");
    reveal_strlit(";branch=z9hG4bK-inc");
    lemma_decimal_plain(src_port as nat);
    lemma_one_line_concat("SIP/2.0/UDP "@, src_ip);
    lemma_one_line_concat("SIP/2.0/UDP "@ + src_ip, ":"@);
    lemma_one_line_concat("SIP/2.0/UDP "@ + src_ip + ":"@, n);
    lemma_one_line_concat("SIP/2.0/UDP "@ + src_ip + ":"@ + n, ";branch=z9hG4bK-inc"@);
    assert("Via: SIP/2.0/UDP "@ + src_ip + ":"@ + n + ";branch=z9hG4bK-inc"@ =~= "Via: "@ + via);
    assert("CSeq: 1 INVITE"@ =~= "CSeq: "@ + "1 INVITE"@);
    lemma_tagged(h.to, ";tag=busy"@);
    assert("To: "@ + h.to + ";tag=busy"@ =~= "To: "@ + to);
    lemma_trimmed_ends("1 INVITE"@);
    lemma_single_headers(via);
    lemma_single_headers(h.from);
    lemma_single_headers(to);
    lemma_single_headers(h.call_id);
    lemma_single_headers("1 INVITE"@);
    lemma_read_lines(ls);
    lemma_reply_headers(ls, via, h.from, to, h.call_id, "1 INVITE"@);
}

// ---------------------------------------------------------------------------
// Requests
// ---------------------------------------------------------------------------

/// The headers of a request whose lines name the call in the order in which the
/// gateway writes them.
proof fn lemma_request_headers(
    ls: Seq<Seq<char>>,
    via: Seq<char>,
    to: Seq<char>,
    from: Seq<char>,
    call_id: Seq<char>,
    cseq: Seq<char>,
)
    requires
        ls.len() >= 7,
        is_aside(ls[0]),
        ls[1] == "Via: "@ + via,
        is_aside(ls[2]),
        ls[3] == "To: "@ + to,
        ls[4] == "From: "@ + from,
        ls[5] == "Call-ID: "@ + call_id,
        ls[6] == "CSeq: "@ + cseq,
        forall|k: int| 7 <= k < ls.len() ==> is_aside(#[trigger] ls[k]),
    ensures
        ({
            let h = headers_in(ls);
            &&& h.via == trimmed(via)
            &&& h.to == trimmed(to)
            &&& h.from == trimmed(from)
            &&& h.call_id == trimmed(call_id)
            &&& h.cseq == trimmed(cseq)
        }),
{
    lemma_read_one(ls, 1);
    lemma_read_one(ls, 2);
    lemma_read_one(ls, 3);
    lemma_read_one(ls, 4);
    lemma_read_one(ls, 5);
    lemma_read_one(ls, 6);
    lemma_call_headers(headers_in(ls.take(1)), via);
    lemma_aside(headers_in(ls.take(2)), ls[2]);
    lemma_call_headers(headers_in(ls.take(3)), to);
    lemma_call_headers(headers_in(ls.take(4)), from);
    lemma_call_headers(headers_in(ls.take(5)), call_id);
    lemma_call_headers(headers_in(ls.take(6)), cseq);
    lemma_asides(ls, 7, ls.len() as int);
    assert(ls.take(ls.len() as int) =~= ls);
}

/// Whether a line may be a session's audio line.
spec fn may_be_audio(line: Seq<char>) -> bool {
    line.len() >= 2 && small(line[0]) == 'm' && small(line[1]) == '='
}

proof fn lemma_ports_kept(ls: Seq<Seq<char>>, from: int, to: int)
    requires
        0 <= from <= to <= ls.len(),
        forall|k: int| from <= k < to ==> !may_be_audio(#[trigger] ls[k]),
    ensures
        headers_in(ls.take(to)).rtp_port == headers_in(ls.take(from)).rtp_port,
    decreases to - from,
{
    if from < to {
        lemma_ports_kept(ls, from, to - 1);
        lemma_read_one(ls, to - 1);
        lemma_names();
        let line = ls[to - 1];
        assert(!may_be_audio(line));
        if begins_with_any_case(line, "m=audio "@) {
            assert(small(line[0]) == 'm' && small(line[1]) == '=');
        }
    }
}

/// The words of a text that begins with a word.
proof fn lemma_first_word(w: Seq<char>, rest: Seq<char>)
    requires
        w.len() > 0,
        forall|k: int| 0 <= k < w.len() ==> !is_whitespace(#[trigger] w[k]),
        rest.len() == 0 || is_whitespace(rest[0]),
    ensures
        words(w + rest) == seq![w] + words(rest),
{
    let s = w + rest;
    assert(s[0] == w[0]);
    lemma_word_length(w, rest);
    assert(s.take(w.len() as int) =~= w);
    assert(s.skip(w.len() as int) =~= rest);
}

proof fn lemma_word_length(w: Seq<char>, rest: Seq<char>)
    requires
        forall|k: int| 0 <= k < w.len() ==> !is_whitespace(#[trigger] w[k]),
        rest.len() == 0 || is_whitespace(rest[0]),
    ensures
        word_end(w + rest) == w.len(),
    decreases w.len(),
{
    let s = w + rest;
    if w.len() == 0 {
        assert(s =~= rest);
    } else {
        assert(s[0] == w[0]);
        assert(s.skip(1) =~= w.skip(1) + rest);
        lemma_word_length(w.skip(1), rest);
    }
}

proof fn lemma_words_after_space(s: Seq<char>)
    ensures
        words(seq![' '] + s) == words(s),
{
    let t = seq![' '] + s;
    assert(is_whitespace(t[0]));
    assert(t.skip(1) =~= s);
    assert(trimmed_start(t) == trimmed_start(s));
}

/// The second word of a status line is its status.
#[verifier::rlimit(40)]
#[verifier::spinoff_prover]
pub proof fn law_words_of_a_line(code: nat, reason: Seq<char>)
    ensures
        ({
            let ws = words("SIP/2.0 "@ + (decimal(code) + seq![' '] + reason));
            ws.len() >= 2 && ws[1] == decimal(code)
        }),
        one_line(reason) ==> one_line("SIP/2.0 "@ + (decimal(code) + seq![' '] + reason)),
{
    reveal_strlit("SIP/2.0 ");
    let d = decimal(code);
    let tail = seq![' '] + reason;
    let m = seq!['S', 'I', 'P', '/', '2', '.', '0'];
    let line = "SIP/2.0 "@ + (d + seq![' '] + reason);
    lemma_decimal_plain(code);
    assert(d + seq![' '] + reason =~= d + tail);
    assert(line =~= m + (seq![' '] + (d + tail)));
    lemma_first_word(m, seq![' '] + (d + tail));
    lemma_words_after_space(d + tail);
    lemma_first_word(d, tail);
    if one_line(reason) {
        lemma_one_line_concat(seq![' '], reason);
        lemma_one_line_concat(d, tail);
        lemma_one_line_concat("SIP/2.0 "@, d + tail);
        assert(line =~= "SIP/2.0 "@ + (d + tail));
    }
}

proof fn lemma_audio_line(h: HeaderFields, port: u16)
    ensures
        with_line(h, "m=audio "@ + decimal(port as nat) + " RTP/AVP 0"@) == (HeaderFields {
            rtp_port: port,
            ..h
        }),
{
    let d = decimal(port as nat);
    let line = "m=audio "@ + d + " RTP/AVP 0"@;
    lemma_names();
    reveal_strlit(" RTP/AVP 0");
    assert(begins_with_any_case(line, "m=audio "@));
    assert(small(line[0]) == 'm');
    let m = seq!['m', '=', 'a', 'u', 'd', 'i', 'o'];
    let tail = " RTP/AVP 0"@;
    let after = d + tail;
    assert(line =~= m + (seq![' '] + after));
    lemma_first_word(m, seq![' '] + after);
    lemma_words_after_space(after);
    lemma_decimal_plain(port as nat);
    lemma_first_word(d, tail);
    law_decimal_round_trip(port as nat, 65535);
    assert(words(line)[1] == d);
}

/// A part of an address that can stand in a request's first line and be read from
/// it.
pub open spec fn is_plain_part(s: Seq<char>) -> bool {
    forall|k: int|
        0 <= k < s.len() ==> !is_whitespace(#[trigger] s[k]) && s[k] != '@' && s[k] != '<' && s[k]
            != '>' && s[k] != '"'
}

proof fn lemma_plain_is_single(s: Seq<char>)
    requires
        is_plain_part(s),
    ensures
        one_line(s),
{
    if s.contains('\n') {
        let k = choose|k: int| 0 <= k < s.len() && s[k] == '\n';
        assert(is_whitespace(s[k]));
    }
}

proof fn lemma_extension(first: Seq<char>, user: Seq<char>, dest: Seq<char>, rest: Seq<char>)
    requires
        first == "INVITE sip:"@ + user + "@"@ + dest + " SIP/2.0"@,
        is_plain_part(user),
        is_plain_part(dest),
        dest.len() > 0,
        one_line(first),
    ensures
        extension_of(first + crlf() + rest) == user,
{
    reveal_strlit("INVITE sip:");
    reveal_strlit("@");
    reveal_strlit(" SIP/2.0");
    reveal_strlit("sip:");
    let msg = first + crlf() + rest;
    lemma_lines_concat(first + crlf(), rest);
    lemma_one_line(first);
    assert(lines_of(msg)[0] == first);
    let verb = seq!['I', 'N', 'V', 'I', 'T', 'E'];
    let prefix = seq!['s', 'i', 'p', ':'];
    let address = user + seq!['@'] + dest;
    let uri = prefix + address;
    let tail = " SIP/2.0"@;
    assert(first =~= verb + (seq![' '] + (uri + tail)));
    lemma_first_word(verb, seq![' '] + (uri + tail));
    lemma_words_after_space(uri + tail);
    assert forall|k: int| 0 <= k < uri.len() implies !is_whitespace(#[trigger] uri[k]) by {
        if k >= 5 + user.len() {
            assert(uri[k] == dest[k - 5 - user.len()]);
        } else if 4 <= k < 4 + user.len() {
            assert(uri[k] == user[k - 4]);
        }
    }
    lemma_first_word(uri, tail);
    assert(words(first)[1] == uri);
    let set = seq!['<', '>', '"', ' '];
    assert(uri.last() == dest.last());
    assert(!set.contains(uri[0])) by {
        assert(uri[0] == 's');
    }
    assert(!set.contains(uri.last())) by {
        let c = dest[dest.len() - 1];
        assert(!is_whitespace(c) && c != '<' && c != '>' && c != '"');
    }
    assert(stripped_of(uri, set) == uri);
    assert("sip:"@ =~= prefix);
    assert(uri.subrange(0, 4) =~= prefix);
    assert(uri.skip(4) =~= address);
    assert forall|k: int| 0 <= k < user.len() implies address[k] != '@' by {
        assert(address[k] == user[k]);
    }
    assert(address[user.len() as int] == '@');
    lemma_index_of_char_unique(address, '@', user.len() as int);
    assert(address.take(user.len() as int) =~= user);
}

/// Where a request goes by.
pub open spec fn request_via(local_ip: Seq<char>, local_port: u16, branch: Seq<char>) -> Seq<char> {
    "SIP/2.0/UDP "@ + local_ip + ":"@ + decimal(local_port as nat) + ";branch="@ + branch
}

/// Who a request is from.
pub open spec fn request_from(local_ip: Seq<char>, local_port: u16, tag: Seq<char>) -> Seq<char> {
    "<sip:caller@"@ + local_ip + ":"@ + decimal(local_port as nat) + ">;tag="@ + tag
}

proof fn lemma_request_parts(
    local_ip: Seq<char>,
    local_port: u16,
    branch: Seq<char>,
    tag: Seq<char>,
)
    requires
        is_plain_part(local_ip),
        is_plain_part(branch),
        is_plain_part(tag),
    ensures
        is_value(request_via(local_ip, local_port, branch)),
        is_value(request_from(local_ip, local_port, tag)),
        "Via: SIP/2.0/UDP "@ + local_ip + ":"@ + decimal(local_port as nat) + ";branch="@ + branch
            == "Via: "@ + request_via(local_ip, local_port, branch),
        "From: <sip:caller@"@ + local_ip + ":"@ + decimal(local_port as nat) + ">;tag="@ + tag
            == "From: "@ + request_from(local_ip, local_port, tag),
{
    reveal_strlit("Via: SIP/2.0/UDP ");
    reveal_strlit("Via: ");
    reveal_strlit("SIP/2.0/UDP ");
    reveal_strlit("From: <sip:caller@");
    reveal_strlit("From: ");
    reveal_strlit("<sip:caller@");
    reveal_strlit(":");
    reveal_strlit(";branch=");
    reveal_strlit(">;tag=");
    let n = decimal(local_port as nat);
    lemma_decimal_plain(local_port as nat);
    lemma_plain_is_single(local_ip);
    lemma_plain_is_single(branch);
    lemma_plain_is_single(tag);
    let a = "SIP/2.0/UDP "@ + local_ip;
    lemma_one_line_concat("SIP/2.0/UDP "@, local_ip);
    lemma_one_line_concat(a, ":"@);
    lemma_one_line_concat(a + ":"@, n);
    lemma_one_line_concat(a + ":"@ + n, ";branch="@);
    lemma_one_line_concat(a + ":"@ + n + ";branch="@, branch);
    let via = request_via(local_ip, local_port, branch);
    assert(via[0] == 'S');
    assert(via.last() == if branch.len() > 0 {
        branch[branch.len() - 1]
    } else {
        '='
    });
    lemma_trimmed_ends(via);
    assert("Via: SIP/2.0/UDP "@ =~= "Via: "@ + "SIP/2.0/UDP "@);
    assert("Via: SIP/2.0/UDP "@ + local_ip + ":"@ + n + ";branch="@ + branch =~= "Via: "@ + via);
    let b = "<sip:caller@"@ + local_ip;
    lemma_one_line_concat("<sip:caller@"@, local_ip);
    lemma_one_line_concat(b, ":"@);
    lemma_one_line_concat(b + ":"@, n);
    lemma_one_line_concat(b + ":"@ + n, ">;tag="@);
    lemma_one_line_concat(b + ":"@ + n + ">;tag="@, tag);
    let from = request_from(local_ip, local_port, tag);
    assert(from[0] == '<');
    assert(from.last() == if tag.len() > 0 {
        tag[tag.len() - 1]
    } else {
        '='
    });
    lemma_trimmed_ends(from);
    assert("From: <sip:caller@"@ =~= "From: "@ + "<sip:caller@"@);
    assert("From: <sip:caller@"@ + local_ip + ":"@ + n + ">;tag="@ + tag =~= "From: "@ + from);
}

/// A gateway that is called by another understands what was asked for: the call,
/// who calls whom, the extension, and the port for the sound.
#[verifier::rlimit(60)]
#[verifier::spinoff_prover]
pub proof fn law_invite_is_understood(
    user: Seq<char>,
    dest: Seq<char>,
    local_ip: Seq<char>,
    local_port: u16,
    branch: Seq<char>,
    from_tag: Seq<char>,
    call_id: Seq<char>,
    rtp_port: u16,
)
    requires
        is_plain_part(user),
        is_plain_part(dest),
        dest.len() > 0,
        is_plain_part(local_ip),
        is_plain_part(branch),
        is_plain_part(from_tag),
        is_value(call_id),
    ensures
        ({
            let msg = invite_text(
                user,
                dest,
                local_ip,
                local_port,
                branch,
                from_tag,
                call_id,
                sdp_offer_text(local_ip, rtp_port),
            );
            let h = headers_of(msg);
            &&& h.call_id == call_id
            &&& h.via == request_via(local_ip, local_port, branch)
            &&& h.from == request_from(local_ip, local_port, from_tag)
            &&& h.to == "<sip:"@ + user + "@"@ + dest + ">"@
            &&& h.cseq == "1 INVITE"@
            &&& h.rtp_port == rtp_port
            &&& extension_of(msg) == user
        }),
{
    let sdp = sdp_offer_text(local_ip, rtp_port);
    let heads = invite_lines(
        user,
        dest,
        local_ip,
        local_port,
        branch,
        from_tag,
        call_id,
        sdp,
    );
    let body = sdp_offer_lines(local_ip, rtp_port);
    let ls = heads + body;
    lemma_invite_lines(user, dest, local_ip, local_port, branch, from_tag, call_id, sdp);
    lemma_sdp_offer_lines(local_ip, rtp_port);
    lemma_request_parts(local_ip, local_port, branch, from_tag);
    lemma_invite_single(user, dest, local_ip, local_port, branch, from_tag, call_id, sdp);
    lemma_offer_single(local_ip, rtp_port);
    let msg = text_of(heads) + sdp;
    law_lines_are_read_back(heads, sdp);
    law_lines_are_read_back(body, Seq::empty());
    assert(text_of(body) + Seq::<char>::empty() =~= sdp);
    assert(lines_of(Seq::<char>::empty()) =~= Seq::<Seq<char>>::empty());
    assert(lines_of(sdp) =~= body);
    assert(lines_of(msg) == ls);
    let to = "<sip:"@ + user + "@"@ + dest + ">"@;
    assert forall|k: int| 7 <= k < ls.len() implies is_aside(#[trigger] ls[k]) by {
        if k >= 11 {
            assert(ls[k] == body[k - 11]);
        }
    }
    lemma_request_headers(
        ls,
        request_via(local_ip, local_port, branch),
        to,
        request_from(local_ip, local_port, from_tag),
        call_id,
        "1 INVITE"@,
    );
    assert forall|k: int| 0 <= k < ls.len() && k != 16 implies !may_be_audio(#[trigger] ls[k]) by {
        if k >= 11 {
            assert(ls[k] == body[k - 11]);
        }
    }
    lemma_ports_kept(ls, 17, ls.len() as int);
    lemma_read_one(ls, 16);
    assert(ls[16] == body[5]);
    lemma_audio_line(headers_in(ls.take(16)), rtp_port);
    assert(ls.take(ls.len() as int) =~= ls);
    lemma_first_line(heads);
    assert(text_of(heads) + sdp =~= heads[0] + crlf() + (text_of(heads.skip(1)) + sdp));
    lemma_extension(heads[0], user, dest, text_of(heads.skip(1)) + sdp);
}

proof fn lemma_first_line(ls: Seq<Seq<char>>)
    requires
        ls.len() > 0,
    ensures
        text_of(ls) == ls[0] + crlf() + text_of(ls.skip(1)),
    decreases ls.len(),
{
    if ls.len() == 1 {
        assert(ls.drop_last() =~= Seq::<Seq<char>>::empty());
        assert(ls.skip(1) =~= Seq::<Seq<char>>::empty());
        assert(text_of(ls) =~= ls[0] + crlf() + text_of(ls.skip(1)));
    } else {
        lemma_first_line(ls.drop_last());
        assert(ls.drop_last().skip(1) =~= ls.skip(1).drop_last());
        assert(text_of(ls) =~= ls[0] + crlf() + text_of(ls.skip(1)));
    }
}

proof fn lemma_invite_single(
    user: Seq<char>,
    dest: Seq<char>,
    local_ip: Seq<char>,
    local_port: u16,
    branch: Seq<char>,
    from_tag: Seq<char>,
    call_id: Seq<char>,
    sdp: Seq<char>,
)
    requires
        is_plain_part(user),
        is_plain_part(dest),
        is_plain_part(local_ip),
        is_plain_part(branch),
        is_plain_part(from_tag),
        is_value(call_id),
    ensures
        ({
            let ls = invite_lines(
                user,
                dest,
                local_ip,
                local_port,
                branch,
                from_tag,
                call_id,
                sdp,
            );
            let to = "<sip:"@ + user + "@"@ + dest + ">"@;
            &&& forall|k: int| 0 <= k < ls.len() ==> one_line(#[trigger] ls[k])
            &&& forall|k: int| 0 <= k < ls.len() ==> !may_be_audio(#[trigger] ls[k])
            &&& is_aside(ls[0]) && is_aside(ls[2]) && is_aside(ls[7]) && is_aside(ls[8])
                && is_aside(ls[9]) && is_aside(ls[10])
            &&& ls[3] == "To: "@ + to
            &&& ls[6] == "CSeq: "@ + "1 INVITE"@
            &&& is_value(to)
            &&& is_value("1 INVITE"@)
        }),
{
    let n = decimal(local_port as nat);
    let size = decimal(encode_utf8(sdp).len());
    let ls = invite_lines(user, dest, local_ip, local_port, branch, from_tag, call_id, sdp);
    let to = "<sip:"@ + user + "@"@ + dest + ">"@;
    reveal_strlit("INVITE sip:");
    reveal_strlit("@");
    reveal_strlit(" SIP/2.0");
    reveal_strlit("Max-Forwards: 70");
    reveal_strlit("To: <sip:");
    reveal_strlit("To: ");
    reveal_strlit("<sip:");
    reveal_strlit(">");
    reveal_strlit(":");
    reveal_strlit("Via: ");
    reveal_strlit("From: ");
    reveal_strlit("Call-ID: ");
    reveal_strlit("CSeq: 1 INVITE");
    reveal_strlit("CSeq: ");
    reveal_strlit("1 INVITE");
    reveal_strlit("Contact: <sip:caller@");
    reveal_strlit("Content-Type: application/sdp");
    reveal_strlit("Content-Length: ");
    lemma_decimal_plain(local_port as nat);
    lemma_decimal_plain(encode_utf8(sdp).len());
    lemma_plain_is_single(user);
    lemma_plain_is_single(dest);
    lemma_plain_is_single(local_ip);
    lemma_request_parts(local_ip, local_port, branch, from_tag);
    let first = "INVITE sip:"@ + user;
    lemma_one_line_concat("INVITE sip:"@, user);
    lemma_one_line_concat(first, "@"@);
    lemma_one_line_concat(first + "@"@, dest);
    lemma_one_line_concat(first + "@"@ + dest, " SIP/2.0"@);
    lemma_one_line_concat("<sip:"@, user);
    lemma_one_line_concat("<sip:"@ + user, "@"@);
    lemma_one_line_concat("<sip:"@ + user + "@"@, dest);
    lemma_one_line_concat("<sip:"@ + user + "@"@ + dest, ">"@);
    lemma_trimmed_ends(to);
    assert("To: <sip:"@ =~= "To: "@ + "<sip:"@);
    assert("To: <sip:"@ + user + "@"@ + dest + ">"@ =~= "To: "@ + to);
    assert("CSeq: 1 INVITE"@ =~= "CSeq: "@ + "1 INVITE"@);
    lemma_trimmed_ends("1 INVITE"@);
    lemma_single_headers(to);
    lemma_single_headers(request_via(local_ip, local_port, branch));
    lemma_single_headers(request_from(local_ip, local_port, from_tag));
    lemma_single_headers(call_id);
    lemma_single_headers("1 INVITE"@);
    let contact = "Contact: <sip:caller@"@ + local_ip;
    lemma_one_line_concat("Contact: <sip:caller@"@, local_ip);
    lemma_one_line_concat(contact, ":"@);
    lemma_one_line_concat(contact + ":"@, n);
    lemma_one_line_concat(contact + ":"@ + n, ">"@);
    lemma_one_line_concat("Content-Length: "@, size);
    assert(one_line(ls[0]));
    assert(one_line(ls[1]));
    assert(one_line(ls[2]));
    assert(one_line(ls[3]));
    assert(one_line(ls[4]));
    assert(one_line(ls[5]));
    assert(one_line(ls[6]));
    assert(one_line(ls[7]));
    assert(one_line(ls[8]));
    assert(one_line(ls[9]));
    assert(one_line(ls[10]));
    assert(small(ls[0][0]) == 'i');
    assert(small(ls[1][0]) == 'v');
    assert(small(ls[2][0]) == 'm' && small(ls[2][1]) == 'a');
    assert(small(ls[3][0]) == 't');
    assert(small(ls[4][0]) == 'f');
    assert(small(ls[5][0]) == 'c');
    assert(small(ls[6][0]) == 'c');
    assert(small(ls[7][0]) == 'c' && small(ls[7][1]) == 'o');
    assert(small(ls[8][0]) == 'c' && small(ls[8][1]) == 'o');
    assert(small(ls[9][0]) == 'c' && small(ls[9][1]) == 'o');
}

proof fn lemma_offer_single(local_ip: Seq<char>, rtp_port: u16)
    requires
        is_plain_part(local_ip),
    ensures
        ({
            let ls = sdp_offer_lines(local_ip, rtp_port);
            &&& forall|k: int| 0 <= k < ls.len() ==> one_line(#[trigger] ls[k])
            &&& forall|k: int| 0 <= k < ls.len() ==> is_aside(#[trigger] ls[k])
            &&& forall|k: int| 0 <= k < ls.len() && k != 5 ==> !may_be_audio(#[trigger] ls[k])
        }),
{
    let ls = sdp_offer_lines(local_ip, rtp_port);
    let n = decimal(rtp_port as nat);
    reveal_strlit("v=0");
    reveal_strlit("o=sip-controller 123456 123456 IN IP4 ");
    reveal_strlit("s=Talk");
    reveal_strlit("c=IN IP4 ");
    reveal_strlit("t=0 0");
    reveal_strlit("m=audio ");
    reveal_strlit(" RTP/AVP 0");
    reveal_strlit("a=rtpmap:0 PCMU/8000");
    lemma_decimal_plain(rtp_port as nat);
    lemma_plain_is_single(local_ip);
    lemma_one_line_concat("o=sip-controller 123456 123456 IN IP4 "@, local_ip);
    lemma_one_line_concat("c=IN IP4 "@, local_ip);
    lemma_one_line_concat("m=audio "@, n);
    lemma_one_line_concat("m=audio "@ + n, " RTP/AVP 0"@);
    assert(one_line(ls[0]));
    assert(one_line(ls[1]));
    assert(one_line(ls[2]));
    assert(one_line(ls[3]));
    assert(one_line(ls[4]));
    assert(one_line(ls[5]));
    assert(one_line(ls[6]));
    assert(small(ls[0][0]) == 'v' && small(ls[0][1]) == '=');
    assert(small(ls[1][0]) == 'o');
    assert(small(ls[2][0]) == 's');
    assert(small(ls[3][0]) == 'c' && small(ls[3][1]) == '=');
    assert(small(ls[4][0]) == 't' && small(ls[4][1]) == '=');
    assert(small(ls[5][0]) == 'm');
    assert(small(ls[6][0]) == 'a' && small(ls[6][1]) == '=');
}

/// A gateway that another gateway tells that a call is over understands which.
pub proof fn law_bye_is_understood(
    user: Seq<char>,
    target_ip: Seq<char>,
    target_port: u16,
    local_ip: Seq<char>,
    local_port: u16,
    branch: Seq<char>,
    to_tag: Seq<char>,
    from_tag: Seq<char>,
    call_id: Seq<char>,
)
    requires
        is_plain_part(user),
        is_plain_part(target_ip),
        is_plain_part(local_ip),
        is_plain_part(branch),
        is_plain_part(to_tag),
        is_plain_part(from_tag),
        is_value(call_id),
    ensures
        ({
            let h = headers_of(
                bye_text(
                    user,
                    target_ip,
                    target_port,
                    local_ip,
                    local_port,
                    branch,
                    to_tag,
                    from_tag,
                    call_id,
                ),
            );
            &&& h.call_id == call_id
            &&& h.via == request_via(local_ip, local_port, branch)
            &&& h.from == request_from(local_ip, local_port, from_tag)
            &&& h.to == "<sip:"@ + user + "@"@ + target_ip + ":"@ + decimal(target_port as nat)
                + ">"@ + to_tag
            &&& h.cseq == "2 BYE"@
        }),
{
    let n = decimal(target_port as nat);
    let ls = bye_lines(
        user,
        target_ip,
        target_port,
        local_ip,
        local_port,
        branch,
        to_tag,
        from_tag,
        call_id,
    );
    lemma_bye_lines(
        user,
        target_ip,
        target_port,
        local_ip,
        local_port,
        branch,
        to_tag,
        from_tag,
        call_id,
    );
    reveal_strlit("BYE sip:");
    reveal_strlit("@");
    reveal_strlit(" SIP/2.0");
    reveal_strlit("Max-Forwards: 70");
    reveal_strlit("To: <sip:");
    reveal_strlit("To: ");
    reveal_strlit("<sip:");
    reveal_strlit(">");
    reveal_strlit(":");
    reveal_strlit("CSeq: 2 BYE");
    reveal_strlit("CSeq: ");
    reveal_strlit("2 BYE");
    reveal_strlit("Content-Length: 0");
    lemma_decimal_plain(target_port as nat);
    lemma_plain_is_single(user);
    lemma_plain_is_single(target_ip);
    lemma_plain_is_single(to_tag);
    lemma_request_parts(local_ip, local_port, branch, from_tag);
    let to = "<sip:"@ + user + "@"@ + target_ip + ":"@ + n + ">"@ + to_tag;
    let first = "BYE sip:"@ + user;
    lemma_one_line_concat("BYE sip:"@, user);
    lemma_one_line_concat(first, "@"@);
    lemma_one_line_concat(first + "@"@, target_ip);
    lemma_one_line_concat(first + "@"@ + target_ip, ":"@);
    lemma_one_line_concat(first + "@"@ + target_ip + ":"@, n);
    lemma_one_line_concat(first + "@"@ + target_ip + ":"@ + n, " SIP/2.0"@);
    let whom = "<sip:"@ + user;
    lemma_one_line_concat("<sip:"@, user);
    lemma_one_line_concat(whom, "@"@);
    lemma_one_line_concat(whom + "@"@, target_ip);
    lemma_one_line_concat(whom + "@"@ + target_ip, ":"@);
    lemma_one_line_concat(whom + "@"@ + target_ip + ":"@, n);
    lemma_one_line_concat(whom + "@"@ + target_ip + ":"@ + n, ">"@);
    lemma_one_line_concat(whom + "@"@ + target_ip + ":"@ + n + ">"@, to_tag);
    assert("To: <sip:"@ =~= "To: "@ + "<sip:"@);
    assert(ls[3] =~= "To: "@ + to);
    assert("CSeq: 2 BYE"@ =~= "CSeq: "@ + "2 BYE"@);
    lemma_trimmed_ends("2 BYE"@);
    lemma_trimmed_ends(to);
    assert(to[0] == '<');
    assert(to.last() == if to_tag.len() > 0 {
        to_tag.last()
    } else {
        '>'
    });
    lemma_single_headers(to);
    lemma_single_headers(request_via(local_ip, local_port, branch));
    lemma_single_headers(request_from(local_ip, local_port, from_tag));
    lemma_single_headers(call_id);
    lemma_single_headers("2 BYE"@);
    assert(one_line(ls[0]));
    assert(one_line(ls[1]));
    assert(one_line(ls[2]));
    assert(one_line(ls[3]));
    assert(one_line(ls[4]));
    assert(one_line(ls[5]));
    assert(one_line(ls[6]));
    assert(one_line(ls[7]));
    assert(one_line(ls[8]));
    assert(small(ls[0][0]) == 'b');
    assert(small(ls[2][0]) == 'm' && small(ls[2][1]) == 'a');
    assert(small(ls[7][0]) == 'c' && small(ls[7][1]) == 'o');
    lemma_read_lines(ls);
    lemma_request_headers(
        ls,
        request_via(local_ip, local_port, branch),
        to,
        request_from(local_ip, local_port, from_tag),
        call_id,
        "2 BYE"@,
    );
}

/// The lines of such a message.
pub open spec fn ack_lines(
    user: Seq<char>,
    dest: Seq<char>,
    local_ip: Seq<char>,
    local_port: u16,
    branch: Seq<char>,
    to_tag: Seq<char>,
    from_tag: Seq<char>,
    call_id: Seq<char>,
) -> Seq<Seq<char>> {
    seq![
        "ACK sip:"@ + user + "@"@ + dest + " SIP/2.0"@,
        "Via: SIP/2.0/UDP "@ + local_ip + ":"@ + decimal(local_port as nat) + ";branch="@ + branch,
        "Max-Forwards: 70"@,
        "To: <sip:"@ + user + "@"@ + dest + ">"@ + to_tag,
        "From: <sip:caller@"@ + local_ip + ":"@ + decimal(local_port as nat) + ">;tag="@ + from_tag,
        "Call-ID: "@ + call_id,
        "CSeq: 1 ACK"@,
        "Content-Length: 0"@,
        Seq::empty(),
    ]
}

#[verifier::rlimit(80)]
#[verifier::spinoff_prover]
proof fn lemma_ack_lines(
    user: Seq<char>,
    dest: Seq<char>,
    local_ip: Seq<char>,
    local_port: u16,
    branch: Seq<char>,
    to_tag: Seq<char>,
    from_tag: Seq<char>,
    call_id: Seq<char>,
)
    ensures
        ack_text(user, dest, local_ip, local_port, branch, to_tag, from_tag,
            call_id) == text_of(ack_lines(user, dest, local_ip, local_port,
            branch, to_tag, from_tag, call_id)),
{
    reveal_strlit("ACK sip:");
    reveal_strlit("@");
    reveal_strlit(":");
    reveal_strlit(" SIP/2.0\r\nVia: SIP/2.0/UDP ");
    reveal_strlit(" SIP/2.0");
    reveal_strlit("Via: SIP/2.0/UDP ");
    reveal_strlit(";branch=");
    reveal_strlit("\r\nMax-Forwards: 70\r\nTo: <sip:");
    reveal_strlit("Max-Forwards: 70");
    reveal_strlit("To: <sip:");
    reveal_strlit(">");
    reveal_strlit("\r\nFrom: <sip:caller@");
    reveal_strlit("From: <sip:caller@");
    reveal_strlit(">;tag=");
    reveal_strlit("\r\nCall-ID: ");
    reveal_strlit("Call-ID: ");
    reveal_strlit("\r\nCSeq: 1 ACK\r\nContent-Length: 0\r\n\r\n");
    reveal_strlit("CSeq: 1 ACK");
    reveal_strlit("Content-Length: 0");
    let ls = ack_lines(user, dest, local_ip, local_port, branch, to_tag,
        from_tag, call_id);
    reveal_with_fuel(text_of, 10);
    assert(ack_text(user, dest, local_ip, local_port, branch, to_tag, from_tag,
        call_id) =~= text_of(ls));
}

/// A gateway that another gateway confirms an answered call to understands which.
pub proof fn law_ack_is_understood(
    user: Seq<char>,
    dest: Seq<char>,
    local_ip: Seq<char>,
    local_port: u16,
    branch: Seq<char>,
    to_tag: Seq<char>,
    from_tag: Seq<char>,
    call_id: Seq<char>,
)
    requires
        is_plain_part(user),
        is_plain_part(dest),
        is_plain_part(local_ip),
        is_plain_part(branch),
        is_plain_part(to_tag),
        is_plain_part(from_tag),
        is_value(call_id),
    ensures
        ({
            let h = headers_of(
                ack_text(
                    user,
                    dest,
                    local_ip,
                    local_port,
                    branch,
                    to_tag,
                    from_tag,
                    call_id,
                ),
            );
            &&& h.call_id == call_id
            &&& h.via == request_via(local_ip, local_port, branch)
            &&& h.from == request_from(local_ip, local_port, from_tag)
            &&& h.to == "<sip:"@ + user + "@"@ + dest
                + ">"@ + to_tag
            &&& h.cseq == "1 ACK"@
        }),
{
    let ls = ack_lines(
        user,
        dest,
        local_ip,
        local_port,
        branch,
        to_tag,
        from_tag,
        call_id,
    );
    lemma_ack_lines(
        user,
        dest,
        local_ip,
        local_port,
        branch,
        to_tag,
        from_tag,
        call_id,
    );
    reveal_strlit("ACK sip:");
    reveal_strlit("@");
    reveal_strlit(" SIP/2.0");
    reveal_strlit("Max-Forwards: 70");
    reveal_strlit("To: <sip:");
    reveal_strlit("To: ");
    reveal_strlit("<sip:");
    reveal_strlit(">");
    reveal_strlit(":");
    reveal_strlit("CSeq: 1 ACK");
    reveal_strlit("CSeq: ");
    reveal_strlit("1 ACK");
    reveal_strlit("Content-Length: 0");
    lemma_plain_is_single(user);
    lemma_plain_is_single(dest);
    lemma_plain_is_single(to_tag);
    lemma_request_parts(local_ip, local_port, branch, from_tag);
    let to = "<sip:"@ + user + "@"@ + dest + ">"@ + to_tag;
    let first = "ACK sip:"@ + user;
    lemma_one_line_concat("ACK sip:"@, user);
    lemma_one_line_concat(first, "@"@);
    lemma_one_line_concat(first + "@"@, dest);
    lemma_one_line_concat(first + "@"@ + dest, " SIP/2.0"@);
    let whom = "<sip:"@ + user;
    lemma_one_line_concat("<sip:"@, user);
    lemma_one_line_concat(whom, "@"@);
    lemma_one_line_concat(whom + "@"@, dest);
    lemma_one_line_concat(whom + "@"@ + dest, ">"@);
    lemma_one_line_concat(whom + "@"@ + dest + ">"@, to_tag);
    assert("To: <sip:"@ =~= "To: "@ + "<sip:"@);
    assert(ls[3] =~= "To: "@ + to);
    assert("CSeq: 1 ACK"@ =~= "CSeq: "@ + "1 ACK"@);
    lemma_trimmed_ends("1 ACK"@);
    lemma_trimmed_ends(to);
    assert(to[0] == '<');
    assert(to.last() == if to_tag.len() > 0 {
        to_tag.last()
    } else {
        '>'
    });
    lemma_single_headers(to);
    lemma_single_headers(request_via(local_ip, local_port, branch));
    lemma_single_headers(request_from(local_ip, local_port, from_tag));
    lemma_single_headers(call_id);
    lemma_single_headers("1 ACK"@);
    assert(one_line(ls[0]));
    assert(one_line(ls[1]));
    assert(one_line(ls[2]));
    assert(one_line(ls[3]));
    assert(one_line(ls[4]));
    assert(one_line(ls[5]));
    assert(one_line(ls[6]));
    assert(one_line(ls[7]));
    assert(one_line(ls[8]));
    assert(small(ls[0][0]) == 'a' && small(ls[0][1]) == 'c');
    assert(small(ls[2][0]) == 'm' && small(ls[2][1]) == 'a');
    assert(small(ls[7][0]) == 'c' && small(ls[7][1]) == 'o');
    lemma_read_lines(ls);
    lemma_request_headers(
        ls,
        request_via(local_ip, local_port, branch),
        to,
        request_from(local_ip, local_port, from_tag),
        call_id,
        "1 ACK"@,
    );
}


/// The credentials of a caller are read from either of the two headers that hold them,
/// and each other header that is read keeps what it holds.
#[verifier::rlimit(40)]
#[verifier::spinoff_prover]
pub proof fn law_headers_are_read_by_name(h: HeaderFields, v: Seq<char>)
    ensures
        with_line(h, "Authorization: "@ + v) == (HeaderFields { auth: trimmed(v), ..h }),
        with_line(h, "Proxy-Authorization: "@ + v) == (HeaderFields { auth: trimmed(v), ..h }),
        with_line(h, "Call-ID: "@ + v) == (HeaderFields { call_id: trimmed(v), ..h }),
        with_line(h, "From: "@ + v) == (HeaderFields { from: trimmed(v), ..h }),
        with_line(h, "To: "@ + v) == (HeaderFields { to: trimmed(v), ..h }),
        with_line(h, "Via: "@ + v) == (HeaderFields { via: trimmed(v), ..h }),
        with_line(h, "CSeq: "@ + v) == (HeaderFields { cseq: trimmed(v), ..h }),
{
    lemma_names();
    lemma_call_headers(h, v);
    lemma_trimmed_space(v);
    reveal_strlit("Authorization: ");
    reveal_strlit("Proxy-Authorization: ");
    reveal_strlit("authorization:");
    reveal_strlit("proxy-authorization:");
    let auth = "Authorization: "@ + v;
    assert(small(auth[0]) == 'a' && small(auth[1]) == 'u');
    assert(begins_with_any_case(auth, "authorization:"@));
    assert(auth.skip(14) =~= seq![' '] + v);
    let proxy = "Proxy-Authorization: "@ + v;
    assert(small(proxy[0]) == 'p' && small(proxy[1]) == 'r');
    assert(begins_with_any_case(proxy, "proxy-authorization:"@));
    assert(proxy.skip(20) =~= seq![' '] + v);
}

// ---------------------------------------------------------------------------
// Answers
// ---------------------------------------------------------------------------

proof fn lemma_first_place(s: Seq<char>, p: Seq<char>, at: int)
    requires
        stands_at(s, p, at),
        forall|k: int| 0 <= k < at ==> !stands_at(s, p, k),
    ensures
        position_of(s, p) == Some(at),
{
    law_found_at_the_first_place(s, p);
}

/// The line of a message that begins with a text at its first place.
proof fn lemma_rest_of_line(pre: Seq<char>, what: Seq<char>, more: Seq<char>, rest: Seq<char>)
    requires
        one_line(what),
        one_line(more),
        forall|k: int|
            0 <= k < pre.len() ==> !stands_at(pre + (what + more) + crlf() + rest, what, k),
    ensures
        rest_of_line(pre + (what + more) + crlf() + rest, what) == Some(
            (what + more).push('\r'),
        ),
{
    let msg = pre + (what + more) + crlf() + rest;
    let n = pre.len() as int;
    assert(msg.subrange(n, n + what.len()) =~= what);
    lemma_first_place(msg, what, n);
    let line = (what + more).push('\r');
    lemma_one_line_concat(what, more);
    lemma_one_line_concat(what + more, seq!['\r']);
    assert(line =~= what + more + seq!['\r']);
    assert(msg.skip(n) =~= line + seq!['\n'] + rest);
    lemma_split_head(line, '\n', rest);
}

/// The tag of the called side is the one in the first line that holds its header, and is
/// read as it was written.
#[verifier::rlimit(40)]
#[verifier::spinoff_prover]
pub proof fn law_called_tag_is_read(
    pre: Seq<char>,
    value: Seq<char>,
    tag: Seq<char>,
    rest: Seq<char>,
)
    requires
        one_line(value),
        !value.contains(';'),
        is_value(tag),
        tag.len() > 0,
        forall|k: int|
            0 <= k < pre.len() ==> !stands_at(
                pre + ("To:"@ + (value + ";tag="@ + tag)) + crlf() + rest,
                "To:"@,
                k,
            ),
    ensures
        to_tag_of(pre + ("To:"@ + (value + ";tag="@ + tag)) + crlf() + rest) == Some(tag),
{
    reveal_strlit("To:");
    reveal_strlit(";tag=");
    let more = value + ";tag="@ + tag;
    lemma_one_line_concat(value, ";tag="@);
    lemma_one_line_concat(value + ";tag="@, tag);
    lemma_rest_of_line(pre, "To:"@, more, rest);
    let line = ("To:"@ + more).push('\r');
    let at = 3 + value.len() as int;
    assert(line.subrange(at, at + 5) =~= ";tag="@);
    assert forall|k: int| 0 <= k < at implies !stands_at(line, ";tag="@, k) by {
        if stands_at(line, ";tag="@, k) {
            assert(line.subrange(k, k + 5)[0] == ';');
            assert(line[k] == ';');
            assert(k >= 3);
            assert(value[k - 3] == ';');
        }
    }
    lemma_first_place(line, ";tag="@, at);
    let left = tag.push('\r');
    assert(line.skip(at + 5) =~= left);
    lemma_trimmed_ends(tag);
    assert(!is_whitespace(tag[0]) && !is_whitespace(tag.last()));
    assert(left[0] == tag[0]);
    assert(trimmed_start(left) == left);
    assert(left.last() == '\r');
    assert(left.drop_last() =~= tag);
    assert(trimmed_end(tag) == tag);
    assert(trimmed(left) == tag);
}

/// The port of the called side's sound is the one in the first audio line; where there is
/// none it is 5004.
#[verifier::rlimit(40)]
#[verifier::spinoff_prover]
pub proof fn law_called_port_is_read(pre: Seq<char>, port: u16, rest: Seq<char>)
    requires
        forall|k: int|
            0 <= k < pre.len() ==> !stands_at(
                pre + ("m=audio "@ + (decimal(port as nat) + " RTP/AVP 0"@)) + crlf() + rest,
                "m=audio "@,
                k,
            ),
    ensures
        answer_port(
            pre + ("m=audio "@ + (decimal(port as nat) + " RTP/AVP 0"@)) + crlf() + rest,
        ) == port,
{
    let d = decimal(port as nat);
    lemma_names();
    reveal_strlit(" RTP/AVP 0");
    lemma_decimal_plain(port as nat);
    lemma_one_line_concat(d, " RTP/AVP 0"@);
    lemma_rest_of_line(pre, "m=audio "@, d + " RTP/AVP 0"@, rest);
    let m = seq!['m', '=', 'a', 'u', 'd', 'i', 'o'];
    let tail = " RTP/AVP 0"@.push('\r');
    let line = ("m=audio "@ + (d + " RTP/AVP 0"@)).push('\r');
    assert(line =~= m + (seq![' '] + (d + tail)));
    lemma_first_word(m, seq![' '] + (d + tail));
    lemma_words_after_space(d + tail);
    lemma_first_word(d, tail);
    law_decimal_round_trip(port as nat, 65535);
    assert(words(line)[1] == d);
}

/// A message without an audio line tells the usual port, and one without the header tells
/// no tag.
pub proof fn law_nothing_told_nothing_read(msg: Seq<char>)
    ensures
        (forall|k: int| !stands_at(msg, "m=audio "@, k)) ==> answer_port(msg) == 5004,
        (forall|k: int| !stands_at(msg, "To:"@, k)) ==> to_tag_of(msg) is None,
{
    law_found_at_the_first_place(msg, "m=audio "@);
    law_found_at_the_first_place(msg, "To:"@);
}

} // verus!
