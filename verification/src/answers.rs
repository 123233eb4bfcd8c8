//! What a caller gets for a request: which channel rings, what the answers say of the
//! call, and what a request that ends it undoes.

use crate::calls::{
    accept_message_of, accepted_call, branch_of, bye_of, reject_message_of, CallingSession,
};
use crate::console::{keeps_settings, others_stay, tells_change};
use crate::crypto::sip_digest;
use crate::dialogue::{
    is_plain_part, is_value, law_acceptance_names_the_call, law_ack_is_understood,
    law_bye_is_understood, law_invite_is_understood, law_ok_names_the_call,
    law_rejection_names_the_call, law_ringing_names_the_call, lemma_trimmed_ends, one_line,
    request_from, same_call,
};
use crate::events::{EventView, LogLevel};
use crate::listener::{
    answers_challenge, belongs_to, channel_for, distinct_ids, free_from, kind_of, law_busy_means_no_free_channel,
    law_call_rings_on_a_free_channel, lemma_ringing_from, named_call_from, numbered_channel,
    offered_nonce,
    ringing_from, rings_for, served, RequestKind,
};
use crate::messages::{busy_text, challenge_text, host_port_text, tag_param_text};
use crate::sip::{auth_entries, auth_entry, extension_of, headers_of, sip_address, HeaderFields};
use crate::state::{
    channel_index, lemma_channel_from, CallView, ChannelStatus, ChannelView, GatewayView,
    IncomingView,
};
use crate::text::{
    begins_with, decimal, is_digit, is_whitespace, law_decimal_round_trip, lemma_split_head, lemma_split_whole,
    number, numeral, split_on, stripped_of, trimmed, trimmed_start, without_prefix,
    without_prefixes, zero_padded,
};
use vstd::prelude::*;
use vstd::string::*;

verus! {

/// Of two states, one with a call that rings on a channel and one without it: the
/// channel was free and holds the call, and all else is as it was.
pub open spec fn rings_there(
    before: GatewayView,
    after: GatewayView,
    i: int,
    call: IncomingView,
) -> bool {
    &&& 0 <= i < before.channels.len()
    &&& before.channels[i].status is Idle || before.channels[i].status is Failed
    &&& after == (GatewayView {
        channels: before.channels.update(
            i,
            ChannelView {
                status: ChannelStatus::Incoming,
                incoming_call: Some(call),
                ..before.channels[i]
            },
        ),
        ..before
    })
}

/// A request that rings leaves a call on one channel that was free, and nothing else
/// changes. The message that accepts that call names the call of the request: its
/// identifier, its way, its sender and its sequence are those of the request, and its
/// addressee has the channel's tag; the one that rejects it differs in the tag alone.
/// The caller is where the request came from, and its sound goes to the port that the
/// request tells.
#[verifier::rlimit(40)]
#[verifier::spinoff_prover]
pub proof fn law_answer_names_the_request(
    g: GatewayView,
    nonces: Map<Seq<char>, Seq<char>>,
    msg: Seq<char>,
    src_ip: Seq<char>,
    src_port: u16,
    src: Seq<char>,
    password: Seq<char>,
    fresh: Seq<char>,
    local_ip: Seq<char>,
    sip_port: u16,
    rtp_port: u16,
)
    requires
        distinct_ids(g.channels),
        begins_with(msg, "INVITE "@),
        one_line(src_ip),
        one_line(local_ip),
    ensures
        ({
            let h = headers_of(msg);
            let done = served(g, nonces, msg, src_ip, src_port, src, password, fresh);
            done.events.len() > 0 ==> exists|i: int, call: IncomingView|
                {
                    let id = g.channels[i].id;
                    let tagged = HeaderFields {
                        to: h.to + ";tag=local-"@ + decimal(id as nat),
                        ..h
                    };
                    let accept = headers_of(
                        accept_message_of(call, id, local_ip, sip_port, rtp_port),
                    );
                    &&& #[trigger] rings_there(g, done.gateway, i, call)
                    &&& same_call(accept, tagged)
                    &&& accept.rtp_port == rtp_port
                    &&& same_call(
                        headers_of(reject_message_of(call)),
                        HeaderFields { to: h.to + ";tag=busy"@, ..h },
                    )
                    &&& call.remote_ip == src_ip
                    &&& call.remote_sip_port == src_port
                    &&& call.remote_rtp_port == h.rtp_port
                    &&& done.reply matches Some(reply) && same_call(headers_of(reply), tagged)
                    &&& done.call is None
                }
        }),
{
    let h = headers_of(msg);
    let ext = extension_of(msg);
    let done = served(g, nonces, msg, src_ip, src_port, src, password, fresh);
    lemma_ends(msg);
    if done.events.len() > 0 {
        let id = channel_for(g.channels, ext, src_ip)->0;
        law_call_rings_on_a_free_channel(g.channels, ext, src_ip);
        let i = channel_index(g.channels, id)->0;
        lemma_channel_from(g.channels, id, 0);
        let call = done.gateway.channels[i].incoming_call->0;
        law_acceptance_names_the_call(msg, id, local_ip, sip_port, rtp_port);
        law_rejection_names_the_call(msg);
        law_ringing_names_the_call(msg, id, src_ip);
        assert(rings_there(g, done.gateway, i, call));
    }
}

// ---------------------------------------------------------------------------
// The messages of a call
// ---------------------------------------------------------------------------

proof fn lemma_numeral_plain(n: nat)
    ensures
        is_plain_part(numeral(n, 16)),
    decreases n,
{
    let s = numeral(n, 16);
    if n >= 16 {
        lemma_numeral_plain(n / 16);
        let head = numeral(n / 16, 16);
        assert forall|k: int| 0 <= k < s.len() implies !is_whitespace(#[trigger] s[k]) && s[k]
            != '@' && s[k] != '<' && s[k] != '>' && s[k] != '"' by {
            if k < head.len() {
                assert(s[k] == head[k]);
            }
        }
    }
}

proof fn lemma_plain_concat(a: Seq<char>, b: Seq<char>)
    requires
        is_plain_part(a),
        is_plain_part(b),
    ensures
        is_plain_part(a + b),
{
    let s = a + b;
    assert forall|k: int| 0 <= k < s.len() implies !is_whitespace(#[trigger] s[k]) && s[k] != '@'
        && s[k] != '<' && s[k] != '>' && s[k] != '"' by {
        if k < a.len() {
            assert(s[k] == a[k]);
        } else {
            assert(s[k] == b[k - a.len()]);
        }
    }
}

proof fn lemma_branch_plain(n: u32)
    ensures
        is_plain_part(branch_of(n)),
{
    reveal_strlit("z9hG4bK");
    assert(is_plain_part("z9hG4bK"@));
    lemma_numeral_plain(n as nat);
    lemma_plain_concat("z9hG4bK"@, numeral(n as nat, 16));
}

proof fn lemma_decimal_part(n: nat)
    ensures
        is_plain_part(decimal(n)),
{
    law_decimal_round_trip(n, n);
    let d = decimal(n);
    assert forall|k: int| 0 <= k < d.len() implies !is_whitespace(#[trigger] d[k]) && d[k] != '@'
        && d[k] != '<' && d[k] != '>' && d[k] != '"' by {
        assert(is_digit(d[k]));
    }
}

proof fn lemma_host_port_plain(ip: Seq<char>, port: u16)
    requires
        is_plain_part(ip),
    ensures
        is_plain_part(host_port_text(ip, port)),
        host_port_text(ip, port).len() > 0,
{
    reveal_strlit(":");
    lemma_decimal_part(port as nat);
    assert(is_plain_part(":"@));
    lemma_plain_concat(ip, ":"@);
    lemma_plain_concat(ip + ":"@, decimal(port as nat));
}

proof fn lemma_no_user(ip: Seq<char>)
    requires
        is_plain_part(ip),
    ensures
        sip_address(ip) is None,
{
    lemma_trimmed_ends(ip);
    let s = without_prefix(trimmed(ip), "sip:"@);
    if ip.len() == 0 {
        assert(trimmed(ip) =~= ip) by {
            assert(trimmed_start(ip) =~= ip);
        }
    }
    assert(trimmed(ip) == ip);
    assert forall|k: int| 0 <= k < s.len() implies s[k] != '@' by {
        if s != ip {
            assert(s[k] == ip[k + "sip:"@.len()]);
        } else {
            assert(s[k] == ip[k]);
        }
    }
    lemma_split_whole(s, '@');
}

#[verifier::rlimit(40)]
#[verifier::spinoff_prover]
proof fn lemma_bye_of(call: CallView, tag: Seq<char>, n: u32)
    requires
        is_plain_part(call.target_ip),
        is_plain_part(call.local_ip),
        is_plain_part(call.from_tag),
        is_plain_part(tag),
        is_value(call.call_id),
        call.to_tag matches Some(t) ==> tag == ";tag="@ + t,
        call.to_tag is None ==> tag == ""@,
    ensures
        ({
            let h = headers_of(bye_of(call, n));
            &&& h.call_id == call.call_id
            &&& h.from == request_from(call.local_ip, call.local_sip_port, call.from_tag)
            &&& h.to == "<sip:113@"@ + call.target_ip + ":"@ + decimal(call.target_port as nat)
                + ">"@ + tag
            &&& h.cseq == "2 BYE"@
        }),
{
    lemma_branch_plain(n);
    lemma_no_user(call.target_ip);
    assert(is_plain_part("113"@) && "<sip:"@ + "113"@ + "@"@ == "<sip:113@"@) by {
        reveal_strlit("113");
        reveal_strlit("@");
        reveal_strlit("<sip:");
        reveal_strlit("<sip:113@");
        assert("<sip:"@ + "113"@ + "@"@ =~= "<sip:113@"@);
    }
    law_bye_is_understood(
        "113"@,
        call.target_ip,
        call.target_port,
        call.local_ip,
        call.local_sip_port,
        branch_of(n),
        tag,
        call.from_tag,
        call.call_id,
    );
}

/// The messages of a call that the gateway places name one call and one caller: the
/// request, its confirmation and the request that ends it have the identifier and the
/// sender of the session, go to the address that is called, and the first tells the
/// port at which the call hears.
#[verifier::rlimit(40)]
#[verifier::spinoff_prover]
pub proof fn law_placed_call_is_named_throughout(
    session: CallingSession,
    id: u32,
    first: u32,
    second: u32,
    third: u32,
)
    requires
        is_plain_part(session.user@),
        is_plain_part(session.target_ip@),
        is_plain_part(session.local_ip@),
        is_plain_part(session.from_tag@),
        is_plain_part(tag_param_text(session.to_tag)),
        is_value(session.call_id@),
    ensures
        ({
            let invite = session.invite_of(first);
            let asked = headers_of(invite);
            let confirmed = headers_of(session.ack_of(second));
            let ended = headers_of(bye_of(session.call_of(id), third));
            let whom = "<sip:"@ + session.user@ + "@"@ + (session.target_ip@ + ":"@ + decimal(
                session.target_port as nat,
            )) + ">"@;
            &&& asked.call_id == session.call_id@
            &&& confirmed.call_id == session.call_id@
            &&& ended.call_id == session.call_id@
            &&& asked.from == confirmed.from && asked.from == ended.from
            &&& asked.from == "<sip:caller@"@ + session.local_ip@ + ":"@ + decimal(
                session.local_sip_port as nat,
            ) + ">;tag="@ + session.from_tag@
            &&& asked.to == whom
            &&& confirmed.to == whom + tag_param_text(session.to_tag)
            &&& ended.to == "<sip:113@"@ + session.target_ip@ + ":"@ + decimal(
                session.target_port as nat,
            ) + ">"@
            &&& asked.rtp_port == session.local_rtp_port
            &&& session.call_of(id).local_rtp_port == session.local_rtp_port
            &&& session.call_of(id).channel_id == id
            &&& extension_of(invite) == session.user@
            &&& asked.cseq == "1 INVITE"@ && confirmed.cseq == "1 ACK"@ && ended.cseq == "2 BYE"@
        }),
{
    let dest = session.dest_text();
    lemma_branch_plain(first);
    lemma_branch_plain(second);
    lemma_branch_plain(third);
    lemma_host_port_plain(session.target_ip@, session.target_port);
    law_invite_is_understood(
        session.user@,
        dest,
        session.local_ip@,
        session.local_sip_port,
        branch_of(first),
        session.from_tag@,
        session.call_id@,
        session.local_rtp_port,
    );
    law_ack_is_understood(
        session.user@,
        dest,
        session.local_ip@,
        session.local_sip_port,
        branch_of(second),
        tag_param_text(session.to_tag),
        session.from_tag@,
        session.call_id@,
    );
    assert(is_plain_part(""@)) by {
        reveal_strlit("");
    }
    lemma_bye_of(session.call_of(id), ""@, third);
    let whole = "<sip:113@"@ + session.target_ip@ + ":"@ + decimal(session.target_port as nat)
        + ">"@;
    assert(whole + ""@ == whole) by {
        reveal_strlit("");
        assert(whole + ""@ =~= whole);
    }
}

proof fn lemma_tag_text(whom: Seq<char>, number: Seq<char>)
    ensures
        whom + ">"@ + (";tag="@ + ("local-"@ + number)) == whom + ">;tag=local-"@ + number,
{
    reveal_strlit(">");
    reveal_strlit(">;tag=local-");
    reveal_strlit("local-");
    reveal_strlit(";tag=");
    let left = whom + ">"@ + (";tag="@ + ("local-"@ + number));
    assert(">"@ + ";tag="@ + "local-"@ =~= ">;tag=local-"@);
    assert(left =~= whom + (">"@ + ";tag="@ + "local-"@) + number);
}

/// An accepted call is ended with a message that names the call of the request, goes
/// where the request came from, and has the tag that the acceptance gave it.
#[verifier::rlimit(40)]
#[verifier::spinoff_prover]
pub proof fn law_accepted_call_is_ended_by_name(
    call: IncomingView,
    id: u32,
    local_ip: Seq<char>,
    sip_port: u16,
    rtp_port: u16,
    n: u32,
)
    requires
        is_plain_part(call.remote_ip),
        is_plain_part(local_ip),
        is_value(call.call_id),
    ensures
        ({
            let up = accepted_call(call, id, local_ip, sip_port, rtp_port);
            let ended = headers_of(bye_of(up, n));
            &&& ended.call_id == call.call_id
            &&& ended.to == "<sip:113@"@ + call.remote_ip + ":"@ + decimal(
                call.remote_sip_port as nat,
            ) + ">;tag=local-"@ + decimal(id as nat)
            &&& up.channel_id == id
            &&& up.local_rtp_port == rtp_port
        }),
{
    let number = decimal(id as nat);
    let tag = ";tag="@ + ("local-"@ + number);
    let up = accepted_call(call, id, local_ip, sip_port, rtp_port);
    lemma_decimal_part(id as nat);
    assert(is_plain_part(""@) && is_plain_part("local-"@) && is_plain_part(";tag="@)) by {
        reveal_strlit("");
        reveal_strlit("local-");
        reveal_strlit(";tag=");
    }
    lemma_plain_concat("local-"@, number);
    lemma_plain_concat(";tag="@, "local-"@ + number);
    lemma_bye_of(up, tag, n);
    let whom = "<sip:113@"@ + call.remote_ip + ":"@ + decimal(call.remote_sip_port as nat);
    lemma_tag_text(whom, number);
}

// ---------------------------------------------------------------------------
// Which channel rings
// ---------------------------------------------------------------------------

/// Whether a channel can be called.
pub open spec fn can_ring(c: ChannelView) -> bool {
    c.status is Idle || c.status is Failed
}

/// Whether a channel is that of a caller: its user is the extension that is called, or
/// it calls the address that the caller calls from.
pub open spec fn is_callers(c: ChannelView, ext: Seq<char>, src_ip: Seq<char>) -> bool {
    (ext.len() > 0 && c.sip_user == Some(ext)) || c.target_ip == src_ip
}

/// An extension of 1 to 12, or of 101 to 112, rings on the channel of that number where
/// it can ring.
pub proof fn law_extension_rings_its_channel(
    s: Seq<ChannelView>,
    src_ip: Seq<char>,
    n: u32,
    i: int,
)
    requires
        distinct_ids(s),
        1 <= n <= 12,
        0 <= i < s.len(),
        s[i].id == n,
        can_ring(s[i]),
    ensures
        channel_for(s, decimal(n as nat), src_ip) == Some(n),
        channel_for(s, decimal((100 + n) as nat), src_ip) == Some(n),
{
    law_decimal_round_trip(n as nat, 0xffff_ffff);
    law_decimal_round_trip((100 + n) as nat, 0xffff_ffff);
    lemma_channel_from(s, n, 0);
}

/// An extension that numbers no channel that can ring rings on the first one of the
/// caller's that can, and where there is none on the first that can.
#[verifier::rlimit(40)]
#[verifier::spinoff_prover]
pub proof fn law_caller_finds_a_channel(
    s: Seq<ChannelView>,
    ext: Seq<char>,
    src_ip: Seq<char>,
    i: int,
)
    requires
        distinct_ids(s),
        0 <= i < s.len(),
        can_ring(s[i]),
        forall|k: int|
            0 <= k < s.len() && 1 <= (#[trigger] s[k]).id <= 12 && (number(ext, 0xffff_ffff)
                == Some(s[k].id as nat) || number(ext, 0xffff_ffff) == Some((100 + s[k].id) as nat))
                ==> !can_ring(s[k]),
    ensures
        is_callers(s[i], ext, src_ip) && (forall|k: int|
            0 <= k < i ==> !(can_ring(#[trigger] s[k]) && is_callers(s[k], ext, src_ip)))
            ==> channel_for(s, ext, src_ip) == Some(s[i].id),
        (forall|k: int|
            0 <= k < s.len() ==> !(can_ring(#[trigger] s[k]) && is_callers(s[k], ext, src_ip)))
            && (forall|k: int| 0 <= k < i ==> !can_ring(#[trigger] s[k])) ==> channel_for(
            s,
            ext,
            src_ip,
        ) == Some(s[i].id),
{
    if let Some(n) = numbered_channel(ext) {
        lemma_channel_from(s, n, 0);
        if let Some(k) = channel_index(s, n) {
            assert(s[k].id == n);
            assert(!can_ring(s[k]));
        }
    }
    assert forall|k: int| 0 <= k < s.len() implies (#[trigger] belongs_to(s[k], ext, src_ip))
        == is_callers(s[k], ext, src_ip) by {}
    lemma_first_free(s, true, ext, src_ip, 0);
    lemma_first_free(s, false, ext, src_ip, 0);
}

proof fn lemma_first_free(
    s: Seq<ChannelView>,
    own: bool,
    ext: Seq<char>,
    src_ip: Seq<char>,
    from: int,
)
    requires
        0 <= from,
    ensures
        match free_from(s, own, ext, src_ip, from) {
            Some(i) => from <= i < s.len() && can_ring(s[i]) && (own ==> belongs_to(
                s[i],
                ext,
                src_ip,
            )) && forall|k: int|
                from <= k < i ==> !(can_ring(#[trigger] s[k]) && (own ==> belongs_to(
                    s[k],
                    ext,
                    src_ip,
                ))),
            None => forall|k: int|
                from <= k < s.len() ==> !(can_ring(#[trigger] s[k]) && (own ==> belongs_to(
                    s[k],
                    ext,
                    src_ip,
                ))),
        },
    decreases s.len() - from,
{
    if from < s.len() && !(can_ring(s[from]) && (own ==> belongs_to(s[from], ext, src_ip))) {
        lemma_first_free(s, own, ext, src_ip, from + 1);
    }
}

/// A new call is never passed over: where it is not known yet and its channel asks for
/// nothing, it rings if a channel can ring, and is told that all are busy if none can.
#[verifier::rlimit(40)]
#[verifier::spinoff_prover]
pub proof fn law_new_call_is_answered(
    g: GatewayView,
    nonces: Map<Seq<char>, Seq<char>>,
    msg: Seq<char>,
    src_ip: Seq<char>,
    src_port: u16,
    src: Seq<char>,
    password: Seq<char>,
    fresh: Seq<char>,
)
    requires
        distinct_ids(g.channels),
        begins_with(msg, "INVITE "@),
        forall|k: int|
            0 <= k < g.channels.len() ==> !((#[trigger] g.channels[k]).incoming_call matches Some(c)
                && c.call_id == headers_of(msg).call_id),
        forall|k: int|
            0 <= k < g.calls.len() ==> (#[trigger] g.calls[k]).call_id != headers_of(msg).call_id,
        forall|k: int| 0 <= k < g.channels.len() ==> !(#[trigger] g.channels[k]).sip_auth_required,
    ensures
        ({
            let h = headers_of(msg);
            let done = served(g, nonces, msg, src_ip, src_port, src, password, fresh);
            let free = exists|k: int| 0 <= k < g.channels.len() && can_ring(#[trigger] g.channels[k]);
            &&& free ==> done.events.len() == 2 && begins_with(done.reply->0, "SIP/2.0 180"@)
            &&& !free ==> done.events.len() == 0 && done.gateway == g && done.reply == Some(
                busy_text(src_ip, src_port, h.from, h.to, h.call_id),
            ) && begins_with(done.reply->0, "SIP/2.0 486"@)
            &&& done.reply is Some
            &&& done.nonces == nonces
        }),
{
    let h = headers_of(msg);
    let ext = extension_of(msg);
    let done = served(g, nonces, msg, src_ip, src_port, src, password, fresh);
    lemma_ends(msg);
    lemma_ringing_from(g.channels, h.call_id, 0);
    lemma_named_call(g.calls, h.call_id, 0);
    law_busy_means_no_free_channel(g.channels, ext, src_ip);
    law_call_rings_on_a_free_channel(g.channels, ext, src_ip);
    assert(ringing_from(g.channels, h.call_id, 0) is None);
    let free = exists|k: int| 0 <= k < g.channels.len() && can_ring(#[trigger] g.channels[k]);
    if free {
        let k = choose|k: int| 0 <= k < g.channels.len() && can_ring(#[trigger] g.channels[k]);
        assert(g.channels[k].status.is_free());
        let id = channel_for(g.channels, ext, src_ip)->0;
        lemma_channel_from(g.channels, id, 0);
        reveal_strlit("SIP/2.0 180");
        reveal_strlit("SIP/2.0 180 Ringing\r\nVia: ");
        let reply = done.reply->0;
        assert(reply.subrange(0, 11) =~= "SIP/2.0 180"@);
    } else {
        assert forall|k: int| 0 <= k < g.channels.len() implies !(
        #[trigger] g.channels[k]).status.is_free() by {
            assert(!can_ring(g.channels[k]));
        }
        reveal_strlit("SIP/2.0 486");
        reveal_strlit("SIP/2.0 486 Busy Here\r\nVia: SIP/2.0/UDP ");
        let reply = done.reply->0;
        assert(reply.subrange(0, 11) =~= "SIP/2.0 486"@);
    }
}

proof fn lemma_ends(msg: Seq<char>)
    ensures
        begins_with(msg, "CANCEL "@) || begins_with(msg, "BYE "@) ==> kind_of(msg)
            == RequestKind::End,
        begins_with(msg, "INVITE "@) ==> kind_of(msg) == RequestKind::Invite,
{
    reveal_strlit("INVITE ");
    reveal_strlit("CANCEL ");
    reveal_strlit("BYE ");
    if begins_with(msg, "INVITE "@) {
        assert(msg.subrange(0, 7)[0] == 'I');
    }
    if begins_with(msg, "CANCEL "@) {
        assert(msg.subrange(0, 7)[0] == 'C');
    }
    if begins_with(msg, "BYE "@) {
        assert(msg.subrange(0, 4)[0] == 'B');
    }
}

proof fn lemma_named_call(s: Seq<CallView>, call_id: Seq<char>, from: int)
    requires
        0 <= from,
    ensures
        match named_call_from(s, call_id, from) {
            Some(i) => from <= i < s.len() && s[i].call_id == call_id && forall|k: int|
                from <= k < i ==> (#[trigger] s[k]).call_id != call_id,
            None => forall|k: int| from <= k < s.len() ==> (#[trigger] s[k]).call_id != call_id,
        },
    decreases s.len() - from,
{
    if from < s.len() && s[from].call_id != call_id {
        lemma_named_call(s, call_id, from + 1);
    }
}

// ---------------------------------------------------------------------------
// The end of a call
// ---------------------------------------------------------------------------

/// Whether a call of an identifier rings on a channel.
pub open spec fn rings_by(c: ChannelView, call_id: Seq<char>) -> bool {
    c.incoming_call matches Some(x) && x.call_id == call_id
}

/// A request to end a call that rings frees the first channel on which it rings, with
/// the call no longer kept, and is confirmed by name; all else stays.
#[verifier::rlimit(40)]
#[verifier::spinoff_prover]
pub proof fn law_ringing_call_is_taken_back(
    g: GatewayView,
    nonces: Map<Seq<char>, Seq<char>>,
    msg: Seq<char>,
    src_ip: Seq<char>,
    src_port: u16,
    src: Seq<char>,
    password: Seq<char>,
    fresh: Seq<char>,
    i: int,
)
    requires
        begins_with(msg, "CANCEL "@) || begins_with(msg, "BYE "@),
        headers_of(msg).call_id.len() > 0,
        0 <= i < g.channels.len(),
        rings_by(g.channels[i], headers_of(msg).call_id),
        forall|k: int| 0 <= k < i ==> !rings_by(#[trigger] g.channels[k], headers_of(msg).call_id),
    ensures
        ({
            let done = served(g, nonces, msg, src_ip, src_port, src, password, fresh);
            let c = done.gateway.channels[i];
            &&& others_stay(g, done.gateway, i)
            &&& done.gateway.calls == g.calls
            &&& done.gateway.flags == g.flags
            &&& keeps_settings(g.channels[i], c)
            &&& c.status is Idle
            &&& c.incoming_call is None
            &&& done.call is None
            &&& done.reply matches Some(reply) && same_call(headers_of(reply), headers_of(msg))
            &&& done.nonces == nonces
            &&& done.events.len() >= 2
            &&& done.events[0] matches EventView::Patch { patch } && patch.id == c.id
                && patch.status == Some(ChannelStatus::Idle) && patch.audio_level == Some(0u32)
                && patch.ptt_active == Some(false)
            &&& done.events[1] == (EventView::Log {
                level: LogLevel::SipRx,
                channel_id: c.id,
                message: "[rsipstack] Received "@ + (if begins_with(msg, "CANCEL "@) {
                    "CANCEL"@
                } else {
                    "BYE"@
                }) + " from "@ + src + " - call terminated"@,
            })
        }),
{
    let h = headers_of(msg);
    lemma_ends(msg);
    lemma_ringing_from(g.channels, h.call_id, 0);
    let k = ringing_from(g.channels, h.call_id, 0);
    assert(rings_for(g.channels[i], h.call_id));
    assert(k == Some(i));
    law_ok_names_the_call(msg);
}

/// A request to end a call that is up takes the first call of its name out, hands it
/// back, frees and silences its channel, and is confirmed by name; all else stays.
#[verifier::rlimit(40)]
#[verifier::spinoff_prover]
pub proof fn law_call_is_ended_by_name(
    g: GatewayView,
    nonces: Map<Seq<char>, Seq<char>>,
    msg: Seq<char>,
    src_ip: Seq<char>,
    src_port: u16,
    src: Seq<char>,
    password: Seq<char>,
    fresh: Seq<char>,
    j: int,
    i: int,
)
    requires
        distinct_ids(g.channels),
        begins_with(msg, "CANCEL "@) || begins_with(msg, "BYE "@),
        headers_of(msg).call_id.len() > 0,
        forall|k: int|
            0 <= k < g.channels.len() ==> !rings_by(
                #[trigger] g.channels[k],
                headers_of(msg).call_id,
            ),
        0 <= j < g.calls.len(),
        g.calls[j].call_id == headers_of(msg).call_id,
        forall|k: int| 0 <= k < j ==> (#[trigger] g.calls[k]).call_id != headers_of(msg).call_id,
        0 <= i < g.channels.len(),
        g.channels[i].id == g.calls[j].channel_id,
    ensures
        ({
            let done = served(g, nonces, msg, src_ip, src_port, src, password, fresh);
            let c = done.gateway.channels[i];
            &&& others_stay(g, done.gateway, i)
            &&& done.gateway.calls == g.calls.remove(j)
            &&& done.call == Some(g.calls[j])
            &&& keeps_settings(g.channels[i], c)
            &&& c.status is Idle
            &&& c.audio_level == 0 && c.tx_kbps == 0
            &&& !c.ptt_active && !c.amp_streaming && !c.bridge_connected && !c.bridge_link_alive
            &&& done.reply matches Some(reply) && same_call(headers_of(reply), headers_of(msg))
            &&& done.nonces == nonces
            &&& done.events.len() >= 2
            &&& done.events[0] matches EventView::Patch { patch } && tells_change(
                patch,
                g.channels[i],
                c,
            )
        }),
{
    let h = headers_of(msg);
    lemma_ends(msg);
    lemma_ringing_from(g.channels, h.call_id, 0);
    assert(ringing_from(g.channels, h.call_id, 0) is None) by {
        if let Some(k) = ringing_from(g.channels, h.call_id, 0) {
            assert(rings_by(g.channels[k], h.call_id));
        }
    }
    lemma_named_call(g.calls, h.call_id, 0);
    assert(named_call_from(g.calls, h.call_id, 0) == Some(j));
    lemma_channel_from(g.channels, g.calls[j].channel_id, 0);
    law_ok_names_the_call(msg);
}

/// A request to end a call that is not known, or that names none, changes nothing and
/// is not answered; nor does any other request.
pub proof fn law_unknown_call_is_ignored(
    g: GatewayView,
    nonces: Map<Seq<char>, Seq<char>>,
    msg: Seq<char>,
    src_ip: Seq<char>,
    src_port: u16,
    src: Seq<char>,
    password: Seq<char>,
    fresh: Seq<char>,
)
    requires
        begins_with(msg, "CANCEL "@) || begins_with(msg, "BYE "@) ==> headers_of(msg).call_id.len()
            == 0 || ((forall|k: int|
            0 <= k < g.channels.len() ==> !rings_by(
                #[trigger] g.channels[k],
                headers_of(msg).call_id,
            )) && (forall|k: int|
            0 <= k < g.calls.len() ==> (#[trigger] g.calls[k]).call_id != headers_of(msg).call_id)),
        !begins_with(msg, "INVITE "@),
    ensures
        ({
            let done = served(g, nonces, msg, src_ip, src_port, src, password, fresh);
            &&& done.gateway == g
            &&& done.nonces == nonces
            &&& done.reply is None
            &&& done.call is None
            &&& done.events.len() == 0
        }),
{
    let h = headers_of(msg);
    lemma_ringing_from(g.channels, h.call_id, 0);
    lemma_named_call(g.calls, h.call_id, 0);
    if let Some(k) = ringing_from(g.channels, h.call_id, 0) {
        assert(rings_by(g.channels[k], h.call_id));
    }
}

// ---------------------------------------------------------------------------
// Who may call
// ---------------------------------------------------------------------------

/// The header with which a caller answers a challenge.
pub open spec fn credentials(
    user: Seq<char>,
    nonce: Seq<char>,
    uri: Seq<char>,
    response: Seq<char>,
) -> Seq<char> {
    "Digest username=\""@ + user + "\", realm=\"aquilla-12\", nonce=\""@ + nonce + "\", uri=\""@
        + uri + "\", response=\""@ + response + "\""@
}

/// A text that can stand between quotation marks in such a header.
pub open spec fn is_quotable(v: Seq<char>) -> bool {
    forall|k: int| 0 <= k < v.len() ==> #[trigger] v[k] != ',' && v[k] != '=' && v[k] != '"'
}

/// A value between quotation marks.
spec fn quoted(v: Seq<char>) -> Seq<char> {
    seq!['"'] + v + seq!['"']
}

proof fn lemma_unquoted(v: Seq<char>)
    requires
        is_quotable(v),
    ensures
        stripped_of(trimmed(quoted(v)), seq!['"']) == v,
{
    let q = quoted(v);
    let marks = seq!['"'];
    assert(marks[0] == '"');
    assert(marks.contains('"'));
    assert(forall|c: char| marks.contains(c) ==> c == '"');
    assert(q[0] == '"' && q.last() == '"');
    lemma_trimmed_ends(q);
    let rest = v + marks;
    assert(q.skip(1) =~= rest);
    assert(stripped_of(q, marks) == stripped_of(rest, marks));
    if v.len() == 0 {
        assert(rest =~= marks);
        assert(rest.skip(1) =~= v);
        assert(stripped_of(v, marks) == v);
    } else {
        assert(rest[0] == v[0] && v[0] != '"');
        assert(rest.last() == '"');
        assert(rest.drop_last() =~= v);
        assert(v.last() == v[v.len() - 1] && v.last() != '"');
        assert(stripped_of(v, marks) == v);
    }
}

proof fn lemma_entry(name: Seq<char>, v: Seq<char>)
    requires
        is_quotable(name),
        is_quotable(v),
    ensures
        auth_entry(name + seq!['='] + quoted(v)) == Some(
            (without_prefixes(without_prefixes(trimmed(name), "Digest "@), "Digest"@), v),
        ),
{
    let q = quoted(v);
    assert(!name.contains('='));
    assert(!q.contains('=')) by {
        if q.contains('=') {
            let k = choose|k: int| 0 <= k < q.len() && q[k] == '=';
            assert(k > 0 && k < q.len() - 1);
            assert(v[k - 1] == '=');
        }
    }
    lemma_split_head(name, '=', q);
    lemma_split_whole(q, '=');
    lemma_unquoted(v);
}

proof fn lemma_part_has_no_comma(name: Seq<char>, v: Seq<char>)
    requires
        is_quotable(name),
        is_quotable(v),
    ensures
        !(name + seq!['='] + quoted(v)).contains(','),
{
    let p = name + seq!['='] + quoted(v);
    if p.contains(',') {
        let k = choose|k: int| 0 <= k < p.len() && p[k] == ',';
        if k < name.len() {
            assert(name[k] == ',');
        } else {
            assert(k > name.len() + 1 && k < p.len() - 1);
            assert(v[k - name.len() - 2] == ',');
        }
    }
}

proof fn lemma_name(name: Seq<char>, key: Seq<char>)
    requires
        name == seq![' '] + key,
        key.len() > 0,
        !is_whitespace(key[0]),
        !is_whitespace(key.last()),
        key[0] != 'D',
    ensures
        without_prefixes(without_prefixes(trimmed(name), "Digest "@), "Digest"@) == key,
{
    reveal_strlit("Digest ");
    reveal_strlit("Digest");
    assert(is_whitespace(name[0]));
    assert(name.skip(1) =~= key);
    lemma_trimmed_ends(key);
    assert(trimmed_start(name) == trimmed_start(key));
    assert(trimmed(name) == key);
    if begins_with(key, "Digest "@) {
        assert(key.subrange(0, 7)[0] == 'D');
    }
    if begins_with(key, "Digest"@) {
        assert(key.subrange(0, 6)[0] == 'D');
    }
}

proof fn lemma_first_name()
    ensures
        without_prefixes(
            without_prefixes(trimmed("Digest username"@), "Digest "@),
            "Digest"@,
        ) == "username"@,
{
    reveal_strlit("Digest username");
    reveal_strlit("username");
    reveal_strlit("Digest ");
    reveal_strlit("Digest");
    let s = "Digest username"@;
    let key = "username"@;
    lemma_trimmed_ends(s);
    assert(s.subrange(0, 7) =~= "Digest "@);
    assert(s.skip(7) =~= key);
    if begins_with(key, "Digest "@) {
        assert(key.subrange(0, 7)[0] == 'D');
    }
    if begins_with(key, "Digest"@) {
        assert(key.subrange(0, 6)[0] == 'D');
    }
    assert(without_prefixes(s, "Digest "@) == without_prefixes(key, "Digest "@));
}

/// The names of the parts of such a header, each with what stands before it.
proof fn lemma_part_names()
    ensures
        "Digest username"@.len() == 15 && is_quotable("Digest username"@),
        " realm"@ == seq![' '] + "realm"@ && is_quotable(" realm"@),
        " nonce"@ == seq![' '] + "nonce"@ && is_quotable(" nonce"@),
        " uri"@ == seq![' '] + "uri"@ && is_quotable(" uri"@),
        " response"@ == seq![' '] + "response"@ && is_quotable(" response"@),
        is_quotable("aquilla-12"@),
        "realm"@.len() == 5 && "realm"@[0] == 'r' && "realm"@.last() == 'm',
        "nonce"@.len() == 5 && "nonce"@[0] == 'n' && "nonce"@.last() == 'e',
        "uri"@.len() == 3 && "uri"@[0] == 'u' && "uri"@.last() == 'i',
        "response"@.len() == 8 && "response"@[0] == 'r' && "response"@.last() == 'e',
        "username"@.len() == 8 && "username"@[0] == 'u',
{
    reveal_strlit("Digest username");
    reveal_strlit(" realm");
    reveal_strlit("realm");
    reveal_strlit(" nonce");
    reveal_strlit("nonce");
    reveal_strlit(" uri");
    reveal_strlit("uri");
    reveal_strlit(" response");
    reveal_strlit("response");
    reveal_strlit("username");
    reveal_strlit("aquilla-12");
    assert(" realm"@ =~= seq![' '] + "realm"@);
    assert(" nonce"@ =~= seq![' '] + "nonce"@);
    assert(" uri"@ =~= seq![' '] + "uri"@);
    assert(" response"@ =~= seq![' '] + "response"@);
}

#[verifier::rlimit(60)]
#[verifier::spinoff_prover]
proof fn lemma_credentials_parts(
    user: Seq<char>,
    nonce: Seq<char>,
    uri: Seq<char>,
    response: Seq<char>,
)
    ensures
        credentials(user, nonce, uri, response) == ("Digest username"@ + seq!['='] + quoted(user))
            + seq![','] + ((" realm"@ + seq!['='] + quoted("aquilla-12"@)) + seq![','] + ((
        " nonce"@ + seq!['='] + quoted(nonce)) + seq![','] + ((" uri"@ + seq!['='] + quoted(uri))
            + seq![','] + (" response"@ + seq!['='] + quoted(response))))),
{
    reveal_strlit("Digest username=\"");
    reveal_strlit("Digest username");
    reveal_strlit("\", realm=\"aquilla-12\", nonce=\"");
    reveal_strlit(" realm");
    reveal_strlit("aquilla-12");
    reveal_strlit(" nonce");
    reveal_strlit("\", uri=\"");
    reveal_strlit(" uri");
    reveal_strlit("\", response=\"");
    reveal_strlit(" response");
    reveal_strlit("\"");
    let q = seq!['"'];
    assert("Digest username=\""@ =~= "Digest username"@ + seq!['='] + q);
    assert("\", realm=\"aquilla-12\", nonce=\""@ =~= q + seq![','] + " realm"@ + seq!['='] + q
        + "aquilla-12"@ + q + seq![','] + " nonce"@ + seq!['='] + q);
    assert("\", uri=\""@ =~= q + seq![','] + " uri"@ + seq!['='] + q);
    assert("\", response=\""@ =~= q + seq![','] + " response"@ + seq!['='] + q);
    assert("\""@ =~= q);
    assert(credentials(user, nonce, uri, response) =~= ("Digest username"@ + seq!['='] + quoted(
        user,
    )) + seq![','] + ((" realm"@ + seq!['='] + quoted("aquilla-12"@)) + seq![','] + ((" nonce"@
        + seq!['='] + quoted(nonce)) + seq![','] + ((" uri"@ + seq!['='] + quoted(uri)) + seq![',']
        + (" response"@ + seq!['='] + quoted(response))))));
}

#[verifier::rlimit(40)]
#[verifier::spinoff_prover]
proof fn lemma_credentials_split(
    user: Seq<char>,
    nonce: Seq<char>,
    uri: Seq<char>,
    response: Seq<char>,
)
    requires
        is_quotable(user),
        is_quotable(nonce),
        is_quotable(uri),
        is_quotable(response),
    ensures
        split_on(credentials(user, nonce, uri, response), ',') == seq![
            "Digest username"@ + seq!['='] + quoted(user),
            " realm"@ + seq!['='] + quoted("aquilla-12"@),
            " nonce"@ + seq!['='] + quoted(nonce),
            " uri"@ + seq!['='] + quoted(uri),
            " response"@ + seq!['='] + quoted(response),
        ],
{
    let p0 = "Digest username"@ + seq!['='] + quoted(user);
    let p1 = " realm"@ + seq!['='] + quoted("aquilla-12"@);
    let p2 = " nonce"@ + seq!['='] + quoted(nonce);
    let p3 = " uri"@ + seq!['='] + quoted(uri);
    let p4 = " response"@ + seq!['='] + quoted(response);
    lemma_part_names();
    lemma_credentials_parts(user, nonce, uri, response);
    lemma_part_has_no_comma("Digest username"@, user);
    lemma_part_has_no_comma(" realm"@, "aquilla-12"@);
    lemma_part_has_no_comma(" nonce"@, nonce);
    lemma_part_has_no_comma(" uri"@, uri);
    lemma_part_has_no_comma(" response"@, response);
    let s3 = p3 + seq![','] + p4;
    let s2 = p2 + seq![','] + s3;
    let s1 = p1 + seq![','] + s2;
    lemma_split_head(p0, ',', s1);
    lemma_split_head(p1, ',', s2);
    lemma_split_head(p2, ',', s3);
    lemma_split_head(p3, ',', p4);
    lemma_split_whole(p4, ',');
    assert(seq![p0] + (seq![p1] + (seq![p2] + (seq![p3] + seq![p4]))) =~= seq![p0, p1, p2, p3, p4]);
}

/// What a caller answers a challenge with is read as it was written: the nonce is the one
/// that it names, and the answer is right exactly where its response is the digest of its
/// user, the gateway's realm, the password, that nonce, the method and its address.
#[verifier::rlimit(40)]
#[verifier::spinoff_prover]
pub proof fn law_credentials_are_read(
    user: Seq<char>,
    nonce: Seq<char>,
    uri: Seq<char>,
    response: Seq<char>,
    password: Seq<char>,
)
    requires
        is_quotable(user),
        is_quotable(nonce),
        is_quotable(uri),
        is_quotable(response),
    ensures
        offered_nonce(credentials(user, nonce, uri, response)) == Some(nonce),
        answers_challenge(credentials(user, nonce, uri, response), password) <==> response
            == sip_digest(user, "aquilla-12"@, password, nonce, "INVITE"@, uri),
{
    let auth = credentials(user, nonce, uri, response);
    let parts = split_on(auth, ',');
    lemma_credentials_split(user, nonce, uri, response);
    lemma_part_names();
    lemma_entry("Digest username"@, user);
    lemma_entry(" realm"@, "aquilla-12"@);
    lemma_entry(" nonce"@, nonce);
    lemma_entry(" uri"@, uri);
    lemma_entry(" response"@, response);
    lemma_first_name();
    lemma_name(" realm"@, "realm"@);
    lemma_name(" nonce"@, "nonce"@);
    lemma_name(" uri"@, "uri"@);
    lemma_name(" response"@, "response"@);
    let e1 = Map::<Seq<char>, Seq<char>>::empty().insert("username"@, user);
    let e2 = e1.insert("realm"@, "aquilla-12"@);
    let e3 = e2.insert("nonce"@, nonce);
    let e4 = e3.insert("uri"@, uri);
    let e5 = e4.insert("response"@, response);
    assert(parts.take(5) =~= parts);
    assert(parts.take(5).drop_last() =~= parts.take(4));
    assert(parts.take(4).drop_last() =~= parts.take(3));
    assert(parts.take(3).drop_last() =~= parts.take(2));
    assert(parts.take(2).drop_last() =~= parts.take(1));
    assert(parts.take(1).drop_last() =~= parts.take(0));
    assert(auth_entries(parts.take(0)) == Map::<Seq<char>, Seq<char>>::empty());
    assert(auth_entries(parts.take(1)) == e1);
    assert(auth_entries(parts.take(2)) == e2);
    assert(auth_entries(parts.take(3)) == e3);
    assert(auth_entries(parts.take(4)) == e4);
    assert(auth_entries(parts) == e5);
    assert("username"@ != "response"@) by {
        assert("username"@[0] != "response"@[0]);
    }
    assert("uri"@.len() != "response"@.len());
    assert("nonce"@.len() != "uri"@.len());
    assert("nonce"@[0] != "realm"@[0]);
    assert(auth.len() > 0) by {
        reveal_strlit("\"");
    }
}

/// A call to a channel that asks for it rings exactly where the caller answers a nonce
/// that was given out, and rightly; the nonce is then used up, as it is where the answer
/// is wrong. A caller that does not is challenged with a new one.
#[verifier::rlimit(40)]
#[verifier::spinoff_prover]
pub proof fn law_right_answer_rings(
    g: GatewayView,
    nonces: Map<Seq<char>, Seq<char>>,
    msg: Seq<char>,
    src_ip: Seq<char>,
    src_port: u16,
    src: Seq<char>,
    password: Seq<char>,
    fresh: Seq<char>,
    user: Seq<char>,
    nonce: Seq<char>,
    uri: Seq<char>,
    response: Seq<char>,
)
    requires
        distinct_ids(g.channels),
        begins_with(msg, "INVITE "@),
        forall|k: int| 0 <= k < g.channels.len() ==> !rings_by(
            #[trigger] g.channels[k],
            headers_of(msg).call_id,
        ),
        forall|k: int|
            0 <= k < g.calls.len() ==> (#[trigger] g.calls[k]).call_id != headers_of(msg).call_id,
        exists|k: int| 0 <= k < g.channels.len() && can_ring(#[trigger] g.channels[k]),
        forall|k: int| 0 <= k < g.channels.len() ==> (#[trigger] g.channels[k]).sip_auth_required,
        is_quotable(user),
        is_quotable(nonce),
        is_quotable(uri),
        is_quotable(response),
        headers_of(msg).auth == credentials(user, nonce, uri, response),
    ensures
        ({
            let h = headers_of(msg);
            let done = served(g, nonces, msg, src_ip, src_port, src, password, fresh);
            let right = nonces.contains_key(nonce) && response == sip_digest(
                user,
                "aquilla-12"@,
                password,
                nonce,
                "INVITE"@,
                uri,
            );
            &&& right ==> done.events.len() == 2 && begins_with(done.reply->0, "SIP/2.0 180"@)
                && done.nonces == nonces.remove(nonce)
            &&& !right ==> done.events.len() == 0 && done.gateway == g && done.nonces
                == nonces.remove(nonce).insert(fresh, h.call_id) && done.reply == Some(
                challenge_text(h.via, h.from, h.to, h.call_id, h.cseq, fresh),
            ) && begins_with(done.reply->0, "SIP/2.0 407"@)
            &&& done.reply is Some
        }),
{
    let h = headers_of(msg);
    let ext = extension_of(msg);
    let done = served(g, nonces, msg, src_ip, src_port, src, password, fresh);
    lemma_ends(msg);
    lemma_ringing_from(g.channels, h.call_id, 0);
    if let Some(k) = ringing_from(g.channels, h.call_id, 0) {
        assert(rings_by(g.channels[k], h.call_id));
    }
    lemma_named_call(g.calls, h.call_id, 0);
    law_busy_means_no_free_channel(g.channels, ext, src_ip);
    law_call_rings_on_a_free_channel(g.channels, ext, src_ip);
    let k = choose|k: int| 0 <= k < g.channels.len() && can_ring(#[trigger] g.channels[k]);
    assert(g.channels[k].status.is_free());
    let id = channel_for(g.channels, ext, src_ip)->0;
    lemma_channel_from(g.channels, id, 0);
    law_credentials_are_read(user, nonce, uri, response, password);
    reveal_strlit("SIP/2.0 180");
    reveal_strlit("SIP/2.0 180 Ringing\r\nVia: ");
    reveal_strlit("SIP/2.0 407");
    reveal_strlit("SIP/2.0 407 Proxy Authentication Required\r\nVia: ");
    let reply = done.reply->0;
    if done.events.len() > 0 {
        assert(reply.subrange(0, 11) =~= "SIP/2.0 180"@);
    } else {
        assert(reply.subrange(0, 11) =~= "SIP/2.0 407"@);
    }
}

/// A branch begins with the mark of the protocol, behind which its number stands.
pub proof fn law_branch_is_marked(n: u32)
    ensures
        begins_with(branch_of(n), "z9hG4bK"@),
        branch_of(n).skip(7) == numeral(n as nat, 16),
{
    reveal_strlit("z9hG4bK");
    assert(branch_of(n).subrange(0, 7) =~= "z9hG4bK"@);
    assert(branch_of(n).skip(7) =~= numeral(n as nat, 16));
}

/// What tells two calls apart, or two sides of one, is written with sixteen or eight
/// digits, whatever its number.
pub proof fn law_call_marks_have_their_length(n: u64, m: u32)
    ensures
        zero_padded(numeral(n as nat, 16), 16).len() == 16,
        zero_padded(numeral(m as nat, 16), 8).len() == 8,
{
    lemma_numeral_len(n as nat, 16);
    lemma_numeral_len(m as nat, 8);
    lemma_padded_len(numeral(n as nat, 16), 16);
    lemma_padded_len(numeral(m as nat, 16), 8);
}

/// Sixteen to a power.
spec fn sixteens(k: nat) -> nat
    decreases k,
{
    if k == 0 {
        1
    } else {
        16 * sixteens((k - 1) as nat)
    }
}

proof fn lemma_numeral_short(n: nat, k: nat)
    requires
        k > 0,
        n < sixteens(k),
    ensures
        numeral(n, 16).len() <= k,
    decreases k,
{
    if n >= 16 {
        if k == 1 {
            assert(sixteens(1) == 16 * sixteens(0));
        } else {
            lemma_numeral_short(n / 16, (k - 1) as nat);
        }
    }
}

proof fn lemma_numeral_len(n: nat, k: nat)
    requires
        (k == 16 && n <= u64::MAX) || (k == 8 && n <= u32::MAX),
    ensures
        numeral(n, 16).len() <= k,
{
    reveal_with_fuel(sixteens, 17);
    assert(sixteens(8) == 0x1_0000_0000);
    assert(sixteens(16) == 0x1_0000_0000_0000_0000);
    lemma_numeral_short(n, k);
}

proof fn lemma_padded_len(s: Seq<char>, width: nat)
    requires
        s.len() <= width,
    ensures
        zero_padded(s, width).len() == width,
    decreases width - s.len(),
{
    if s.len() < width {
        lemma_padded_len(seq!['0'] + s, width);
    }
}

} // verus!
