//! Calls that come in: which channel they ring on, who may call, and how they
//! are taken back or ended.

use crate::calls::{
    ended_patch, lemma_one_channel, make_ended_patch, no_longer_ringing, ringing_is_kept,
    step_peer_ended, stepped,
};
use crate::config::opt_text;
use crate::crypto::{
    compute_sip_digest_sha256, sip_digest, text_from_utf8_lossy, utf8_lossy,
};
use crate::dispatch::{is_patched, lemma_same_patches, patch_events, patches_shown, repatched};
use crate::events::{
    blank_patch, copy_or_empty, event_views, join_events, log_view, text_or_empty, ChannelPatch,
    Event, EventView, LogLevel, PatchView,
};
use crate::messages::{
    busy_response, busy_text, challenge_response, challenge_text, ok_response, ok_text,
    ringing_response, ringing_text,
};
use crate::sip::{
    auth_entries, dialed_extension, extension_of, headers_of, parse_digest_auth, read_headers,
    HeaderFields, SipHeaders,
};
use crate::state::{
    channel_index, flags_without, lemma_channel_from, opt_call, with_channel, ActiveCall, CallView,
    Channel, ChannelStatus, ChannelView, Gateway, GatewayView, IncomingCallContext, IncomingView,
};
use crate::text::{
    begins_with, chars_of, decimal, decimal_string, number, parse_u32, split_on, str_same,
    str_starts_with, TextMap,
};
use vstd::prelude::*;
use vstd::string::*;

verus! {

// ---------------------------------------------------------------------------
// Nonces
// ---------------------------------------------------------------------------

/// The nonces that callers were asked to authenticate with, and the calls that
/// they were given for.
pub struct NonceStore {
    nonces: TextMap,
}

impl View for NonceStore {
    type V = Map<Seq<char>, Seq<char>>;

    closed spec fn view(&self) -> Map<Seq<char>, Seq<char>> {
        self.nonces@
    }
}

impl NonceStore {
    /// A store without nonces.
    pub fn new() -> (r: Self)
        ensures
            r@ == Map::<Seq<char>, Seq<char>>::empty(),
    {
        NonceStore { nonces: TextMap::new() }
    }

    /// Notes a nonce that was given out for a call.
    pub fn issue(&mut self, nonce: &str, call_id: &str)
        ensures
            final(self)@ == old(self)@.insert(nonce@, call_id@),
    {
        self.nonces.insert(nonce.to_owned(), call_id.to_owned());
    }

    /// Uses a nonce up, and tells whether it was one that was given out.
    pub fn redeem(&mut self, nonce: &str) -> (r: bool)
        ensures
            r == old(self)@.contains_key(nonce@),
            final(self)@ == old(self)@.remove(nonce@),
    {
        self.nonces.remove(nonce)
    }
}

// ---------------------------------------------------------------------------
// Which channel
// ---------------------------------------------------------------------------

/// Whether a call of an identifier rings on the channel.
pub open spec fn rings_for(c: ChannelView, call_id: Seq<char>) -> bool {
    c.incoming_call matches Some(x) && x.call_id == call_id
}

/// The first channel on which a call rings, from a place on.
pub open spec fn ringing_from(s: Seq<ChannelView>, call_id: Seq<char>, from: int) -> Option<int>
    decreases s.len() - from,
{
    if from < 0 || from >= s.len() {
        None
    } else if rings_for(s[from], call_id) {
        Some(from)
    } else {
        ringing_from(s, call_id, from + 1)
    }
}

pub proof fn lemma_ringing_from(s: Seq<ChannelView>, call_id: Seq<char>, from: int)
    requires
        0 <= from,
    ensures
        match ringing_from(s, call_id, from) {
            Some(i) => from <= i < s.len() && rings_for(s[i], call_id) && forall|k: int|
                from <= k < i ==> !rings_for(#[trigger] s[k], call_id),
            None => forall|k: int| from <= k < s.len() ==> !rings_for(#[trigger] s[k], call_id),
        },
    decreases s.len() - from,
{
    if from < s.len() && !rings_for(s[from], call_id) {
        lemma_ringing_from(s, call_id, from + 1);
    }
}

/// The first call with an identifier, from a place on.
pub open spec fn named_call_from(s: Seq<CallView>, call_id: Seq<char>, from: int) -> Option<int>
    decreases s.len() - from,
{
    if from < 0 || from >= s.len() {
        None
    } else if s[from].call_id == call_id {
        Some(from)
    } else {
        named_call_from(s, call_id, from + 1)
    }
}

pub proof fn lemma_named_call_from(s: Seq<CallView>, call_id: Seq<char>, from: int)
    requires
        0 <= from,
    ensures
        named_call_from(s, call_id, from) matches Some(i) ==> from <= i < s.len(),
    decreases s.len() - from,
{
    if from < s.len() {
        lemma_named_call_from(s, call_id, from + 1);
    }
}

/// Whether a channel belongs to a caller: the extension is its user, or the
/// caller is where it calls.
pub open spec fn belongs_to(c: ChannelView, ext: Seq<char>, src_ip: Seq<char>) -> bool {
    (ext.len() > 0 && text_or_empty(c.sip_user) == ext) || c.target_ip == src_ip
}

/// The first free channel, from a place on; where `own` is set, the first that
/// also belongs to the caller.
pub open spec fn free_from(
    s: Seq<ChannelView>,
    own: bool,
    ext: Seq<char>,
    src_ip: Seq<char>,
    from: int,
) -> Option<int>
    decreases s.len() - from,
{
    if from < 0 || from >= s.len() {
        None
    } else if s[from].status.is_free() && (own ==> belongs_to(s[from], ext, src_ip)) {
        Some(from)
    } else {
        free_from(s, own, ext, src_ip, from + 1)
    }
}

pub proof fn lemma_free_from(
    s: Seq<ChannelView>,
    own: bool,
    ext: Seq<char>,
    src_ip: Seq<char>,
    from: int,
)
    requires
        0 <= from,
    ensures
        match free_from(s, own, ext, src_ip, from) {
            Some(i) => from <= i < s.len() && s[i].status.is_free() && (own ==> belongs_to(
                s[i],
                ext,
                src_ip,
            )),
            None => forall|k: int|
                from <= k < s.len() ==> !((#[trigger] s[k]).status.is_free() && (own ==> belongs_to(
                    s[k],
                    ext,
                    src_ip,
                ))),
        },
    decreases s.len() - from,
{
    if from < s.len() && !(s[from].status.is_free() && (own ==> belongs_to(s[from], ext, src_ip))) {
        lemma_free_from(s, own, ext, src_ip, from + 1);
    }
}

/// The channel that an extension names by its number: 101 to 112, or 1 to 12.
pub open spec fn numbered_channel(ext: Seq<char>) -> Option<u32> {
    match number(ext, 0xffff_ffff) {
        Some(n) => if 101 <= n <= 112 {
            Some((n - 100) as u32)
        } else if 1 <= n <= 12 {
            Some(n as u32)
        } else {
            None
        },
        None => None,
    }
}

/// The channel that a call from an address to an extension rings on: the one
/// that the extension numbers, if it is free; else the first free one that
/// belongs to the caller; else the first free one.
pub open spec fn channel_for(s: Seq<ChannelView>, ext: Seq<char>, src_ip: Seq<char>) -> Option<
    u32,
> {
    let direct = match numbered_channel(ext) {
        Some(id) => match channel_index(s, id) {
            Some(i) => if s[i].status.is_free() {
                Some(id)
            } else {
                None
            },
            None => None,
        },
        None => None,
    };
    match direct {
        Some(id) => Some(id),
        None => match free_from(s, true, ext, src_ip, 0) {
            Some(i) => Some(s[i].id),
            None => match free_from(s, false, ext, src_ip, 0) {
                Some(i) => Some(s[i].id),
                None => None,
            },
        },
    }
}

/// A call finds a channel exactly where one is free.
pub proof fn law_busy_means_no_free_channel(
    s: Seq<ChannelView>,
    ext: Seq<char>,
    src_ip: Seq<char>,
)
    ensures
        channel_for(s, ext, src_ip) is None <==> forall|k: int|
            0 <= k < s.len() ==> !(#[trigger] s[k]).status.is_free(),
{
    lemma_free_from(s, true, ext, src_ip, 0);
    lemma_free_from(s, false, ext, src_ip, 0);
    if let Some(id) = numbered_channel(ext) {
        lemma_channel_from(s, id, 0);
    }
}

/// No two channels have one number.
pub open spec fn distinct_ids(s: Seq<ChannelView>) -> bool {
    forall|i: int, j: int|
        0 <= i < s.len() && 0 <= j < s.len() && (#[trigger] s[i]).id == (#[trigger] s[j]).id ==> i
            == j
}

/// A call never rings on a channel that is not free.
pub proof fn law_call_rings_on_a_free_channel(
    s: Seq<ChannelView>,
    ext: Seq<char>,
    src_ip: Seq<char>,
)
    requires
        distinct_ids(s),
    ensures
        channel_for(s, ext, src_ip) matches Some(id) ==> (channel_index(s, id) matches Some(i)
            && s[i].status.is_free()),
{
    lemma_free_from(s, true, ext, src_ip, 0);
    lemma_free_from(s, false, ext, src_ip, 0);
    if let Some(id) = channel_for(s, ext, src_ip) {
        lemma_channel_from(s, id, 0);
    }
}

impl Gateway {
    fn find_ringing(&self, call_id: &str) -> (r: Option<usize>)
        ensures
            match r {
                Some(i) => ringing_from(self@.channels, call_id@, 0) == Some(i as int) && i
                    < self.channels@.len(),
                None => ringing_from(self@.channels, call_id@, 0) is None,
            },
    {
        let mut i: usize = 0;
        while i < self.channels.len()
            invariant
                i <= self.channels@.len(),
                ringing_from(self@.channels, call_id@, 0) == ringing_from(
                    self@.channels,
                    call_id@,
                    i as int,
                ),
            decreases self.channels@.len() - i,
        {
            assert(self@.channels[i as int] == self.channels@[i as int]@);
            if let Some(x) = &self.channels[i].incoming_call {
                if str_same(x.call_id.as_str(), call_id) {
                    return Some(i);
                }
            }
            i += 1;
        }
        None
    }

    fn find_named_call(&self, call_id: &str) -> (r: Option<usize>)
        ensures
            match r {
                Some(i) => named_call_from(self@.calls, call_id@, 0) == Some(i as int) && i
                    < self.active_calls@.len(),
                None => named_call_from(self@.calls, call_id@, 0) is None,
            },
    {
        let mut i: usize = 0;
        while i < self.active_calls.len()
            invariant
                i <= self.active_calls@.len(),
                named_call_from(self@.calls, call_id@, 0) == named_call_from(
                    self@.calls,
                    call_id@,
                    i as int,
                ),
            decreases self.active_calls@.len() - i,
        {
            assert(self@.calls[i as int] == self.active_calls@[i as int]@);
            if str_same(self.active_calls[i].call_id.as_str(), call_id) {
                return Some(i);
            }
            i += 1;
        }
        None
    }

    fn find_free(&self, own: bool, ext: &str, src_ip: &str) -> (r: Option<usize>)
        ensures
            match r {
                Some(i) => free_from(self@.channels, own, ext@, src_ip@, 0) == Some(i as int) && i
                    < self.channels@.len(),
                None => free_from(self@.channels, own, ext@, src_ip@, 0) is None,
            },
    {
        let mut i: usize = 0;
        while i < self.channels.len()
            invariant
                i <= self.channels@.len(),
                free_from(self@.channels, own, ext@, src_ip@, 0) == free_from(
                    self@.channels,
                    own,
                    ext@,
                    src_ip@,
                    i as int,
                ),
            decreases self.channels@.len() - i,
        {
            assert(self@.channels[i as int] == self.channels@[i as int]@);
            if self.channels[i].status.free() {
                let user = copy_or_empty(&self.channels[i].sip_user);
                let mine: bool = (!ext.is_empty() && str_same(user.as_str(), ext)) || str_same(
                    self.channels[i].target_ip.as_str(),
                    src_ip,
                );
                if !own || mine {
                    return Some(i);
                }
            }
            i += 1;
        }
        None
    }

    /// The channel that a call from an address to an extension rings on.
    pub fn match_channel(&self, ext: &str, src_ip: &str) -> (r: Option<u32>)
        ensures
            r == channel_for(self@.channels, ext@, src_ip@),
    {
        let cs = chars_of(ext);
        if let Some(n) = parse_u32(cs.as_slice()) {
            let wanted: Option<u32> = if 101 <= n && n <= 112 {
                Some(n - 100)
            } else if 1 <= n && n <= 12 {
                Some(n)
            } else {
                None
            };
            if let Some(id) = wanted {
                if let Some(i) = self.find_channel(id) {
                    assert(self@.channels[i as int] == self.channels@[i as int]@);
                    if self.channels[i].status.free() {
                        return Some(id);
                    }
                }
            }
        }
        if let Some(i) = self.find_free(true, ext, src_ip) {
            assert(self@.channels[i as int] == self.channels@[i as int]@);
            return Some(self.channels[i].id);
        }
        if let Some(i) = self.find_free(false, ext, src_ip) {
            assert(self@.channels[i as int] == self.channels@[i as int]@);
            return Some(self.channels[i].id);
        }
        None
    }
}

// ---------------------------------------------------------------------------
// Who may call
// ---------------------------------------------------------------------------

/// The realm of the gateway's authentication.
pub open spec fn realm() -> Seq<char> {
    "aquilla-12"@
}

/// The nonce of an authentication header that has all that it needs.
pub open spec fn offered_nonce(auth: Seq<char>) -> Option<Seq<char>> {
    let m = auth_entries(split_on(auth, ','));
    if auth.len() > 0 && m.contains_key("username"@) && m.contains_key("nonce"@) && m.contains_key(
        "uri"@,
    ) && m.contains_key("response"@) {
        Some(m["nonce"@])
    } else {
        None
    }
}

/// Whether an authentication header answers the challenge with the password.
pub open spec fn answers_challenge(auth: Seq<char>, password: Seq<char>) -> bool {
    let m = auth_entries(split_on(auth, ','));
    offered_nonce(auth) matches Some(nonce) && m["response"@] == sip_digest(
        m["username"@],
        realm(),
        password,
        nonce,
        "INVITE"@,
        m["uri"@],
    )
}

/// Checks an authentication header: it must answer the challenge with a nonce
/// that was given out. The nonce is then used up, right answer or not.
pub fn authenticate(nonces: &mut NonceStore, auth: &str, password: &str) -> (r: bool)
    ensures
        match offered_nonce(auth@) {
            Some(n) => final(nonces)@ == old(nonces)@.remove(n) && r == (old(nonces)@.contains_key(
                n,
            ) && answers_challenge(auth@, password@)),
            None => final(nonces)@ == old(nonces)@ && !r,
        },
{
    if auth.is_empty() {
        return false;
    }
    let map = parse_digest_auth(auth);
    let user = map.get("username");
    let nonce = map.get("nonce");
    let uri = map.get("uri");
    let response = map.get("response");
    match (user, nonce, uri, response) {
        (Some(user), Some(nonce), Some(uri), Some(response)) => {
            if nonces.redeem(nonce.as_str()) {
                let expected = compute_sip_digest_sha256(
                    user.as_str(),
                    "aquilla-12",
                    password,
                    nonce.as_str(),
                    "INVITE",
                    uri.as_str(),
                );
                str_same(expected.as_str(), response.as_str())
            } else {
                false
            }
        },
        _ => false,
    }
}

// ---------------------------------------------------------------------------
// Requests
// ---------------------------------------------------------------------------

/// A channel on which a call rings.
pub open spec fn ringing(c: ChannelView, call: IncomingView) -> ChannelView {
    ChannelView { status: ChannelStatus::Incoming, incoming_call: Some(call), ..c }
}

/// What is kept of a call that a request asks for.
pub open spec fn call_asked_for(h: HeaderFields, src_ip: Seq<char>, src_port: u16) -> IncomingView {
    IncomingView {
        call_id: h.call_id,
        from: h.from,
        to: h.to,
        via: h.via,
        cseq: h.cseq,
        remote_ip: src_ip,
        remote_rtp_port: h.rtp_port,
        remote_sip_port: src_port,
    }
}

/// The response that a call rings on a channel.
pub open spec fn ringing_reply(h: HeaderFields, id: u32, src_ip: Seq<char>) -> Seq<char> {
    ringing_text(h.via, h.from, h.to, id, h.call_id, h.cseq, src_ip)
}

/// What is announced of a call that begins to ring.
pub open spec fn ringing_events(id: u32, src_ip: Seq<char>, ext: Seq<char>) -> Seq<EventView> {
    seq![
        EventView::Patch {
            patch: PatchView { status: Some(ChannelStatus::Incoming), ..blank_patch(id) },
        },
        log_view(
            LogLevel::SipRx,
            id,
            "[rsipstack] Incoming INVITE from "@ + src_ip + " (ext '"@ + ext
                + "') → assigned to Channel "@ + decimal(id as nat),
        ),
    ]
}

/// What comes of a request for a call.
pub ghost struct InviteResult {
    pub gateway: GatewayView,
    pub nonces: Map<Seq<char>, Seq<char>>,
    pub reply: Option<Seq<char>>,
    pub events: Seq<EventView>,
}

/// Whether the channel that a call would ring on asks for authentication.
pub open spec fn asks_for_auth(g: GatewayView, matched: Option<u32>) -> bool {
    match matched {
        Some(id) => match channel_index(g.channels, id) {
            Some(i) => g.channels[i].sip_auth_required,
            None => false,
        },
        None => false,
    }
}

/// What comes of a request for a call.
///
/// One that rings already is told so again, and one that is up is ignored.
/// Another is asked to authenticate where its channel wants that and it does not
/// do so rightly, with a fresh nonce. It then rings on its channel, or is told
/// that none is free.
pub open spec fn invite_result(
    g: GatewayView,
    nonces: Map<Seq<char>, Seq<char>>,
    h: HeaderFields,
    ext: Seq<char>,
    src_ip: Seq<char>,
    src_port: u16,
    password: Seq<char>,
    fresh: Seq<char>,
) -> InviteResult {
    let matched = channel_for(g.channels, ext, src_ip);
    let wants_auth = asks_for_auth(g, matched);
    let offered = offered_nonce(h.auth);
    let used_up = match offered {
        Some(n) => nonces.remove(n),
        None => nonces,
    };
    let known = match offered {
        Some(n) => nonces.contains_key(n) && answers_challenge(h.auth, password),
        None => false,
    };
    match ringing_from(g.channels, h.call_id, 0) {
        Some(i) => InviteResult {
            gateway: g,
            nonces,
            reply: Some(ringing_reply(h, g.channels[i].id, src_ip)),
            events: Seq::empty(),
        },
        None => if named_call_from(g.calls, h.call_id, 0) is Some {
            InviteResult { gateway: g, nonces, reply: None, events: Seq::empty() }
        } else if wants_auth && !known {
            InviteResult {
                gateway: g,
                nonces: used_up.insert(fresh, h.call_id),
                reply: Some(challenge_text(h.via, h.from, h.to, h.call_id, h.cseq, fresh)),
                events: Seq::empty(),
            }
        } else {
            let left = if wants_auth {
                used_up
            } else {
                nonces
            };
            match matched {
                Some(id) => InviteResult {
                    gateway: match channel_index(g.channels, id) {
                        Some(i) => with_channel(
                            g,
                            i,
                            ringing(g.channels[i], call_asked_for(h, src_ip, src_port)),
                        ),
                        None => g,
                    },
                    nonces: left,
                    reply: Some(ringing_reply(h, id, src_ip)),
                    events: ringing_events(id, src_ip, ext),
                },
                None => InviteResult {
                    gateway: g,
                    nonces: left,
                    reply: Some(busy_text(src_ip, src_port, h.from, h.to, h.call_id)),
                    events: Seq::empty(),
                },
            }
        },
    }
}

impl Channel {
    fn set_ringing(&mut self, h: &SipHeaders, src_ip: &str, src_port: u16)
        ensures
            final(self)@ == ringing(old(self)@, call_asked_for(h@, src_ip@, src_port)),
    {
        self.status = ChannelStatus::Incoming;
        self.incoming_call = Some(
            IncomingCallContext {
                call_id: h.call_id.clone(),
                from: h.from.clone(),
                to: h.to.clone(),
                via: h.via.clone(),
                cseq: h.cseq.clone(),
                remote_ip: src_ip.to_owned(),
                remote_rtp_port: h.rtp_port,
                remote_sip_port: src_port,
            },
        );
    }
}

fn make_ringing_reply(h: &SipHeaders, id: u32, src_ip: &str) -> (r: String)
    ensures
        r@ == ringing_reply(h@, id, src_ip@),
{
    ringing_response(
        h.via.as_str(),
        h.from.as_str(),
        h.to.as_str(),
        id,
        h.call_id.as_str(),
        h.cseq.as_str(),
        src_ip,
    )
}

fn make_ringing_events(id: u32, src_ip: &str, ext: &str) -> (r: Vec<Event>)
    ensures
        event_views(r@) == ringing_events(id, src_ip@, ext@),
{
    let mut patch = ChannelPatch::blank(id);
    patch.status = Some(ChannelStatus::Incoming);
    let mut message = "[rsipstack] Incoming INVITE from ".to_owned();
    message.append(src_ip);
    message.append(" (ext '");
    message.append(ext);
    message.append("') → assigned to Channel ");
    let number = decimal_string(id as u64);
    message.append(number.as_str());
    let mut events: Vec<Event> = Vec::new();
    events.push(Event::Patch { patch });
    events.push(Event::Log { level: LogLevel::SipRx, channel_id: id, message });
    assert(event_views(events@) =~= ringing_events(id, src_ip@, ext@));
    events
}

impl Gateway {
    /// Acts on a request for a call: changes the state, and gives the reply to
    /// send, if any, and what is announced. `fresh` is the nonce of a challenge,
    /// should one be needed.
    pub fn handle_invite(
        &mut self,
        nonces: &mut NonceStore,
        msg: &str,
        src_ip: &str,
        src_port: u16,
        password: &str,
        fresh: &str,
    ) -> (r: (Option<String>, Vec<Event>))
        ensures
            ({
                let result = invite_result(
                    old(self)@,
                    old(nonces)@,
                    headers_of(msg@),
                    extension_of(msg@),
                    src_ip@,
                    src_port,
                    password@,
                    fresh@,
                );
                &&& final(self)@ == result.gateway
                &&& final(nonces)@ == result.nonces
                &&& opt_text(r.0) == result.reply
                &&& event_views(r.1@) == result.events
            }),
    {
        let h = read_headers(msg);
        let ext = dialed_extension(msg);
        let nothing: Vec<Event> = Vec::new();
        assert(event_views(nothing@) =~= Seq::<EventView>::empty());
        if let Some(i) = self.find_ringing(h.call_id.as_str()) {
            assert(self@.channels[i as int] == self.channels@[i as int]@);
            let reply = make_ringing_reply(&h, self.channels[i].id, src_ip);
            return (Some(reply), nothing);
        }
        if self.find_named_call(h.call_id.as_str()).is_some() {
            return (None, nothing);
        }
        let matched = self.match_channel(ext.as_str(), src_ip);
        let mut wants_auth = false;
        if let Some(id) = matched {
            if let Some(i) = self.find_channel(id) {
                assert(self@.channels[i as int] == self.channels@[i as int]@);
                wants_auth = self.channels[i].sip_auth_required;
            }
        }
        if wants_auth {
            let known = authenticate(nonces, h.auth.as_str(), password);
            if !known {
                nonces.issue(fresh, h.call_id.as_str());
                let reply = challenge_response(
                    h.via.as_str(),
                    h.from.as_str(),
                    h.to.as_str(),
                    h.call_id.as_str(),
                    h.cseq.as_str(),
                    fresh,
                );
                return (Some(reply), nothing);
            }
        }
        match matched {
            Some(id) => {
                if let Some(i) = self.find_channel(id) {
                    let ghost before = self.channels@;
                    self.channels[i].set_ringing(&h, src_ip, src_port);
                    proof {
                        lemma_one_channel(
                            before,
                            self.channels@,
                            i as int,
                            self.channels@[i as int],
                        );
                    }
                }
                let reply = make_ringing_reply(&h, id, src_ip);
                let events = make_ringing_events(id, src_ip, ext.as_str());
                (Some(reply), events)
            },
            None => {
                let reply = busy_response(
                    src_ip,
                    src_port,
                    h.from.as_str(),
                    h.to.as_str(),
                    h.call_id.as_str(),
                );
                (Some(reply), nothing)
            },
        }
    }
}

/// What comes of a request that cancels or ends a call.
pub ghost struct EndResult {
    /// The state before each channel shows whether it is patched.
    pub gateway: GatewayView,
    /// The channel of the call that was ended.
    pub channel: Option<u32>,
    pub call: Option<CallView>,
}

/// What comes of a request that cancels or ends a call: one that rings stops
/// ringing, or else one that is up is taken out. A request without an identifier
/// ends nothing.
pub open spec fn end_result(g: GatewayView, call_id: Seq<char>) -> EndResult {
    if call_id.len() == 0 {
        EndResult { gateway: g, channel: None, call: None }
    } else {
        match ringing_from(g.channels, call_id, 0) {
            Some(i) => EndResult {
                gateway: with_channel(g, i, no_longer_ringing(g.channels[i])),
                channel: Some(g.channels[i].id),
                call: None,
            },
            None => match named_call_from(g.calls, call_id, 0) {
                Some(j) => EndResult {
                    gateway: stepped(
                        GatewayView {
                            calls: g.calls.remove(j),
                            flags: flags_without(g.flags, g.calls[j].channel_id),
                            ..g
                        },
                        g.calls[j].channel_id,
                        step_peer_ended(true),
                    ),
                    channel: Some(g.calls[j].channel_id),
                    call: Some(g.calls[j]),
                },
                None => EndResult { gateway: g, channel: None, call: None },
            },
        }
    }
}

/// What is announced of a call that was cancelled or ended.
pub open spec fn end_events(id: u32, method: Seq<char>, src: Seq<char>) -> Seq<EventView> {
    seq![
        EventView::Patch { patch: ended_patch(id, ChannelStatus::Idle, Some(0)) },
        log_view(
            LogLevel::SipRx,
            id,
            "[rsipstack] Received "@ + method + " from "@ + src + " - call terminated"@,
        ),
    ]
}

/// What came of a request that cancels or ends a call.
pub struct EndOutcome {
    pub reply: Option<String>,
    /// The call that was taken out.
    pub call: Option<ActiveCall>,
    pub events: Vec<Event>,
}

impl Gateway {
    fn end_named(&mut self, call_id: &str) -> (r: (Option<u32>, Option<ActiveCall>))
        ensures
            ({
                let result = end_result(old(self)@, call_id@);
                &&& final(self)@ == result.gateway
                &&& r.0 == result.channel
                &&& opt_call(r.1) == result.call
            }),
    {
        if call_id.is_empty() {
            return (None, None);
        }
        if let Some(i) = self.find_ringing(call_id) {
            assert(self@.channels[i as int] == self.channels@[i as int]@);
            let id: u32 = self.channels[i].id;
            let ghost before = self.channels@;
            self.channels[i].set_no_longer_ringing();
            proof {
                lemma_one_channel(before, self.channels@, i as int, self.channels@[i as int]);
            }
            return (Some(id), None);
        }
        match self.find_named_call(call_id) {
            None => (None, None),
            Some(j) => {
                assert(self@.calls[j as int] == self.active_calls@[j as int]@);
                let call = self.active_calls.remove(j);
                assert(self@.calls =~= old(self)@.calls.remove(j as int));
                let id: u32 = call.channel_id;
                self.clear_flags(id);
                if let Some(i) = self.find_channel(id) {
                    let ghost before = self.channels@;
                    self.channels[i].set_peer_ended(true);
                    proof {
                        lemma_one_channel(
                            before,
                            self.channels@,
                            i as int,
                            self.channels@[i as int],
                        );
                    }
                }
                (Some(id), Some(call))
            },
        }
    }

    /// Acts on a request that cancels or ends a call, from `src`. Where it ended
    /// one, it is confirmed.
    pub fn handle_end(&mut self, msg: &str, src: &str) -> (r: EndOutcome)
        ensures
            ({
                let h = headers_of(msg@);
                let result = end_result(old(self)@, h.call_id);
                let method = if begins_with(msg@, "CANCEL "@) {
                    "CANCEL"@
                } else {
                    "BYE"@
                };
                &&& opt_call(r.call) == result.call
                &&& match result.channel {
                    Some(id) => final(self)@ == repatched(result.gateway) && opt_text(r.reply)
                        == Some(ok_text(h.via, h.from, h.to, h.call_id, h.cseq)) && event_views(
                        r.events@,
                    ) == end_events(id, method, src@) + patch_events(result.gateway),
                    None => final(self)@ == old(self)@ && r.reply is None && event_views(r.events@)
                        == Seq::<EventView>::empty(),
                }
            }),
    {
        let method = if str_starts_with(msg, "CANCEL ") {
            "CANCEL"
        } else {
            "BYE"
        };
        let h = read_headers(msg);
        let (channel, call) = self.end_named(h.call_id.as_str());
        let mut events: Vec<Event> = Vec::new();
        match channel {
            None => {
                assert(event_views(events@) =~= Seq::<EventView>::empty());
                EndOutcome { reply: None, call, events }
            },
            Some(id) => {
                let reply = ok_response(
                    h.via.as_str(),
                    h.from.as_str(),
                    h.to.as_str(),
                    h.call_id.as_str(),
                    h.cseq.as_str(),
                );
                let mut message = "[rsipstack] Received ".to_owned();
                message.append(method);
                message.append(" from ");
                message.append(src);
                message.append(" - call terminated");
                events.push(make_ended_patch(id, ChannelStatus::Idle, Some(0)));
                events.push(Event::Log { level: LogLevel::SipRx, channel_id: id, message });
                assert(event_views(events@) =~= end_events(id, method@, src@));
                let others = self.repatch();
                EndOutcome { reply: Some(reply), call, events: join_events(events, others) }
            },
        }
    }
}

/// What a message to the listening port asks for.
#[derive(Debug, Clone, Copy, PartialEq, Eq, Structural)]
pub enum RequestKind {
    Invite,
    /// A cancellation or an end.
    End,
    Other,
}

/// What a message to the listening port asks for.
pub open spec fn kind_of(msg: Seq<char>) -> RequestKind {
    if begins_with(msg, "INVITE "@) {
        RequestKind::Invite
    } else if begins_with(msg, "CANCEL "@) || begins_with(msg, "BYE "@) {
        RequestKind::End
    } else {
        RequestKind::Other
    }
}

/// What a message to the listening port asks for.
pub fn request_kind(msg: &str) -> (r: RequestKind)
    ensures
        r == kind_of(msg@),
{
    if str_starts_with(msg, "INVITE ") {
        RequestKind::Invite
    } else if str_starts_with(msg, "CANCEL ") || str_starts_with(msg, "BYE ") {
        RequestKind::End
    } else {
        RequestKind::Other
    }
}

/// What came of a packet to the listening port.
pub struct Served {
    /// The reply to send.
    pub reply: Option<String>,
    /// The call that was taken out.
    pub call: Option<ActiveCall>,
    pub events: Vec<Event>,
}

/// What comes of a packet to the listening port.
pub ghost struct ServedView {
    pub gateway: GatewayView,
    pub nonces: Map<Seq<char>, Seq<char>>,
    pub reply: Option<Seq<char>>,
    pub call: Option<CallView>,
    pub events: Seq<EventView>,
}

/// What comes of a message to the listening port: a request for a call, one that
/// cancels or ends a call, or one that is passed over.
pub open spec fn served(
    g: GatewayView,
    nonces: Map<Seq<char>, Seq<char>>,
    msg: Seq<char>,
    src_ip: Seq<char>,
    src_port: u16,
    src: Seq<char>,
    password: Seq<char>,
    fresh: Seq<char>,
) -> ServedView {
    let h = headers_of(msg);
    match kind_of(msg) {
        RequestKind::Invite => {
            let result = invite_result(
                g,
                nonces,
                h,
                extension_of(msg),
                src_ip,
                src_port,
                password,
                fresh,
            );
            ServedView {
                gateway: result.gateway,
                nonces: result.nonces,
                reply: result.reply,
                call: None,
                events: result.events,
            }
        },
        RequestKind::End => {
            let result = end_result(g, h.call_id);
            let method = if begins_with(msg, "CANCEL "@) {
                "CANCEL"@
            } else {
                "BYE"@
            };
            match result.channel {
                Some(id) => ServedView {
                    gateway: repatched(result.gateway),
                    nonces,
                    reply: Some(ok_text(h.via, h.from, h.to, h.call_id, h.cseq)),
                    call: result.call,
                    events: end_events(id, method, src) + patch_events(result.gateway),
                },
                None => ServedView {
                    gateway: g,
                    nonces,
                    reply: None,
                    call: None,
                    events: Seq::empty(),
                },
            }
        },
        RequestKind::Other => ServedView {
            gateway: g,
            nonces,
            reply: None,
            call: None,
            events: Seq::empty(),
        },
    }
}

impl Gateway {
    /// Acts on a packet to the listening port. `src` names its sender, and `fresh` is
    /// the nonce of a challenge, should one be needed.
    pub fn handle_packet(
        &mut self,
        nonces: &mut NonceStore,
        data: &[u8],
        src_ip: &str,
        src_port: u16,
        src: &str,
        password: &str,
        fresh: &str,
    ) -> (r: Served)
        ensures
            ({
                let result = served(
                    old(self)@,
                    old(nonces)@,
                    utf8_lossy(data@),
                    src_ip@,
                    src_port,
                    src@,
                    password@,
                    fresh@,
                );
                &&& final(self)@ == result.gateway
                &&& final(nonces)@ == result.nonces
                &&& opt_text(r.reply) == result.reply
                &&& opt_call(r.call) == result.call
                &&& event_views(r.events@) == result.events
            }),
    {
        let msg = text_from_utf8_lossy(data);
        match request_kind(msg.as_str()) {
            RequestKind::Invite => {
                let (reply, events) = self.handle_invite(
                    nonces,
                    msg.as_str(),
                    src_ip,
                    src_port,
                    password,
                    fresh,
                );
                Served { reply, call: None, events }
            },
            RequestKind::End => {
                let done = self.handle_end(msg.as_str(), src);
                Served { reply: done.reply, call: done.call, events: done.events }
            },
            RequestKind::Other => {
                let events: Vec<Event> = Vec::new();
                assert(event_views(events@) =~= Seq::<EventView>::empty());
                Served { reply: None, call: None, events }
            },
        }
    }
}

// ---------------------------------------------------------------------------
// Laws
// ---------------------------------------------------------------------------

/// A request that a caller repeats while its call rings changes nothing, and is
/// answered as the first one was.
pub proof fn law_repeated_invite_is_harmless(
    g: GatewayView,
    nonces: Map<Seq<char>, Seq<char>>,
    h: HeaderFields,
    ext: Seq<char>,
    src_ip: Seq<char>,
    src_port: u16,
    password: Seq<char>,
    fresh: Seq<char>,
    fresh_again: Seq<char>,
)
    requires
        distinct_ids(g.channels),
        ringing_from(g.channels, h.call_id, 0) is None,
        invite_result(g, nonces, h, ext, src_ip, src_port, password, fresh).events.len() > 0,
    ensures
        ({
            let first = invite_result(g, nonces, h, ext, src_ip, src_port, password, fresh);
            let again = invite_result(
                first.gateway,
                first.nonces,
                h,
                ext,
                src_ip,
                src_port,
                password,
                fresh_again,
            );
            &&& again.gateway == first.gateway
            &&& again.nonces == first.nonces
            &&& again.reply == first.reply
            &&& again.events.len() == 0
        }),
{
    let first = invite_result(g, nonces, h, ext, src_ip, src_port, password, fresh);
    let matched = channel_for(g.channels, ext, src_ip);
    assert(matched is Some);
    let id = matched->0;
    law_call_rings_on_a_free_channel(g.channels, ext, src_ip);
    let i = channel_index(g.channels, id)->0;
    lemma_channel_from(g.channels, id, 0);
    lemma_ringing_from(g.channels, h.call_id, 0);
    lemma_ringing_from(first.gateway.channels, h.call_id, 0);
    let after = first.gateway.channels;
    assert(rings_for(after[i], h.call_id));
    let k = ringing_from(after, h.call_id, 0)->0;
    assert(k == i) by {
        if k != i {
            assert(after[k] == g.channels[k]);
            assert(rings_for(g.channels[k], h.call_id));
        }
    }
}

proof fn lemma_unringing_keeps_patches(g: GatewayView, i: int)
    requires
        0 <= i < g.channels.len(),
        patches_shown(g),
        !is_patched(g, g.channels[i].id),
    ensures
        repatched(with_channel(g, i, no_longer_ringing(g.channels[i]))) == with_channel(
            g,
            i,
            no_longer_ringing(g.channels[i]),
        ),
{
    let ended = with_channel(g, i, no_longer_ringing(g.channels[i]));
    assert forall|k: int| 0 <= k < ended.channels.len() implies #[trigger] repatched(
        ended,
    ).channels[k] == ended.channels[k] by {
        assert(g.channels[k].id == ended.channels[k].id);
        assert(g.channels[k].dispatch_connected == is_patched(g, g.channels[k].id));
        lemma_same_patches(g, ended, ended.channels[k].id);
    }
    assert(repatched(ended).channels =~= ended.channels);
}

/// A caller who takes a ringing call back leaves no trace of it: the channel is
/// free again and keeps nothing of the call, and nothing else has changed; which
/// channels are patched stays as it was.
pub proof fn law_cancel_undoes_invite(
    g: GatewayView,
    nonces: Map<Seq<char>, Seq<char>>,
    h: HeaderFields,
    ext: Seq<char>,
    src_ip: Seq<char>,
    src_port: u16,
    password: Seq<char>,
    fresh: Seq<char>,
)
    requires
        distinct_ids(g.channels),
        h.call_id.len() > 0,
        ringing_from(g.channels, h.call_id, 0) is None,
        invite_result(g, nonces, h, ext, src_ip, src_port, password, fresh).events.len() > 0,
    ensures
        ({
            let first = invite_result(g, nonces, h, ext, src_ip, src_port, password, fresh);
            let id = channel_for(g.channels, ext, src_ip)->0;
            let i = channel_index(g.channels, id)->0;
            &&& end_result(first.gateway, h.call_id).channel == Some(id)
            &&& end_result(first.gateway, h.call_id).call is None
            &&& end_result(first.gateway, h.call_id).gateway == with_channel(
                g,
                i,
                no_longer_ringing(g.channels[i]),
            )
            &&& patches_shown(g) && !is_patched(g, id) ==> repatched(
                end_result(first.gateway, h.call_id).gateway,
            ) == end_result(first.gateway, h.call_id).gateway
        }),
{
    let first = invite_result(g, nonces, h, ext, src_ip, src_port, password, fresh);
    let matched = channel_for(g.channels, ext, src_ip);
    assert(matched is Some);
    let id = matched->0;
    law_call_rings_on_a_free_channel(g.channels, ext, src_ip);
    let i = channel_index(g.channels, id)->0;
    lemma_channel_from(g.channels, id, 0);
    lemma_ringing_from(g.channels, h.call_id, 0);
    lemma_ringing_from(first.gateway.channels, h.call_id, 0);
    let after = first.gateway.channels;
    assert(rings_for(after[i], h.call_id));
    let k = ringing_from(after, h.call_id, 0)->0;
    assert(k == i) by {
        if k != i {
            assert(after[k] == g.channels[k]);
            assert(rings_for(g.channels[k], h.call_id));
        }
    }
    let ended = end_result(first.gateway, h.call_id).gateway;
    assert(no_longer_ringing(after[i]) == no_longer_ringing(g.channels[i]));
    assert(ended.channels =~= with_channel(g, i, no_longer_ringing(g.channels[i])).channels);
    if patches_shown(g) && !is_patched(g, id) {
        lemma_unringing_keeps_patches(g, i);
    }
}

/// A call to a channel that wants authentication does not ring without it: its
/// request must answer a challenge with a nonce that was given out.
pub proof fn law_unauthenticated_call_does_not_ring(
    g: GatewayView,
    nonces: Map<Seq<char>, Seq<char>>,
    h: HeaderFields,
    ext: Seq<char>,
    src_ip: Seq<char>,
    src_port: u16,
    password: Seq<char>,
    fresh: Seq<char>,
)
    requires
        asks_for_auth(g, channel_for(g.channels, ext, src_ip)),
        !(offered_nonce(h.auth) matches Some(n) && nonces.contains_key(n) && answers_challenge(
            h.auth,
            password,
        )),
    ensures
        invite_result(g, nonces, h, ext, src_ip, src_port, password, fresh).gateway == g,
        invite_result(g, nonces, h, ext, src_ip, src_port, password, fresh).events.len() == 0,
{
}

/// A caller who is challenged and then answers with the password gets through: the
/// call rings on its channel.
pub proof fn law_answered_challenge_rings(
    g: GatewayView,
    nonces: Map<Seq<char>, Seq<char>>,
    h: HeaderFields,
    ext: Seq<char>,
    src_ip: Seq<char>,
    src_port: u16,
    password: Seq<char>,
    fresh: Seq<char>,
    answer: HeaderFields,
    fresh_again: Seq<char>,
)
    requires
        ringing_from(g.channels, h.call_id, 0) is None,
        named_call_from(g.calls, h.call_id, 0) is None,
        asks_for_auth(g, channel_for(g.channels, ext, src_ip)),
        !(offered_nonce(h.auth) matches Some(n) && nonces.contains_key(n) && answers_challenge(
            h.auth,
            password,
        )),
        answer.call_id == h.call_id,
        offered_nonce(answer.auth) == Some(fresh),
        answers_challenge(answer.auth, password),
    ensures
        ({
            let first = invite_result(g, nonces, h, ext, src_ip, src_port, password, fresh);
            let second = invite_result(
                first.gateway,
                first.nonces,
                answer,
                ext,
                src_ip,
                src_port,
                password,
                fresh_again,
            );
            let id = channel_for(g.channels, ext, src_ip)->0;
            let i = channel_index(g.channels, id)->0;
            &&& first.reply == Some(
                challenge_text(h.via, h.from, h.to, h.call_id, h.cseq, fresh),
            )
            &&& second.reply == Some(ringing_reply(answer, id, src_ip))
            &&& second.events == ringing_events(id, src_ip, ext)
            &&& second.gateway == with_channel(
                g,
                i,
                ringing(g.channels[i], call_asked_for(answer, src_ip, src_port)),
            )
        }),
{
}

/// An answer to a challenge works once: the request that used its nonce up, sent
/// again for another call, is challenged anew.
pub proof fn law_authentication_is_not_replayed(
    g: GatewayView,
    nonces: Map<Seq<char>, Seq<char>>,
    h: HeaderFields,
    ext: Seq<char>,
    src_ip: Seq<char>,
    src_port: u16,
    password: Seq<char>,
    fresh: Seq<char>,
    g2: GatewayView,
    h2: HeaderFields,
    ext2: Seq<char>,
    fresh2: Seq<char>,
)
    requires
        asks_for_auth(g, channel_for(g.channels, ext, src_ip)),
        invite_result(g, nonces, h, ext, src_ip, src_port, password, fresh).events.len() > 0,
        h2.auth == h.auth,
        asks_for_auth(g2, channel_for(g2.channels, ext2, src_ip)),
    ensures
        ({
            let left = invite_result(g, nonces, h, ext, src_ip, src_port, password, fresh).nonces;
            invite_result(g2, left, h2, ext2, src_ip, src_port, password, fresh2).events.len() == 0
        }),
{
}

/// A request for a call leaves a channel answerable that rings.
pub proof fn law_invite_keeps_ringing_answerable(c: ChannelView, call: IncomingView)
    ensures
        ringing_is_kept(ringing(c, call)),
{
}

} // verus!
