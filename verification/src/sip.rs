//! What is read of SIP addresses, requests and responses.

use crate::config::opt_text;
use crate::messages::{rtp_uri_text, sip_uri_text};
use crate::text::{
    all_digits, begins_with, begins_with_any_case, chars_of, decimal, drop_prefix, drop_prefixes,
    find, find_char, has, index_of_char, is_digit, is_whitespace, last_index_of_char,
    law_decimal_round_trip, lemma_last_index_of_char, lemma_split_head, lemma_split_whole, lines,
    lines_of, number, parse_u16, parse_u32, position_of, rfind_char, split, split_on, split_words,
    starts_with, starts_with_any_case, str_contains, string_of, strip_of, stripped_of, texts, trim,
    trimmed, trimmed_end, trimmed_start, without_prefix, without_prefixes, words, TextMap,
};
use vstd::prelude::*;
use vstd::slice::slice_subrange;
use vstd::string::*;

verus! {

// ---------------------------------------------------------------------------
// Addresses
// ---------------------------------------------------------------------------

/// The host and the port of the part of an address behind the at sign. A port
/// stands behind the last colon, or, where there is a closing bracket, behind a
/// colon right after the last one. Without a port that is a number the whole
/// part is the host, and the port is 5060.
pub open spec fn host_and_port(h: Seq<char>) -> (Seq<char>, nat) {
    match last_index_of_char(h, ']') {
        Some(b) => if b + 1 < h.len() && h[b + 1] == ':' {
            match number(h.skip(b + 2), 65535) {
                Some(p) => (h.take(b + 1), p),
                None => (h, 5060),
            }
        } else {
            (h, 5060)
        },
        None => match last_index_of_char(h, ':') {
            Some(c) => match number(h.skip(c + 1), 65535) {
                Some(p) => (h.take(c), p),
                None => (h, 5060),
            },
            None => (h, 5060),
        },
    }
}

/// The user, the host and the port of a SIP address; nothing where it has not
/// exactly one at sign.
pub open spec fn sip_address(uri: Seq<char>) -> Option<(Seq<char>, Seq<char>, nat)> {
    let parts = split_on(without_prefix(trimmed(uri), "sip:"@), '@');
    if parts.len() == 2 {
        let (host, port) = host_and_port(parts[1]);
        Some((parts[0], host, port))
    } else {
        None
    }
}

fn read_host_and_port(h: &[char]) -> (r: (String, u16))
    ensures
        (r.0@, r.1 as nat) == host_and_port(h@),
{
    proof {
        lemma_last_index_of_char(h@, ']');
        lemma_last_index_of_char(h@, ':');
    }
    let len: usize = h.len();
    match rfind_char(h, ']') {
        Some(b) => {
            if b + 1 < len && h[b + 1] == ':' {
                let tail = slice_subrange(h, b + 2, len);
                assert(tail@ =~= h@.skip(b + 2));
                if let Some(p) = parse_u16(tail) {
                    let head = slice_subrange(h, 0, b + 1);
                    assert(head@ =~= h@.take(b + 1));
                    return (string_of(head), p);
                }
            }
        },
        None => {
            if let Some(c) = rfind_char(h, ':') {
                let tail = slice_subrange(h, c + 1, len);
                assert(tail@ =~= h@.skip(c + 1));
                if let Some(p) = parse_u16(tail) {
                    let head = slice_subrange(h, 0, c);
                    assert(head@ =~= h@.take(c as int));
                    return (string_of(head), p);
                }
            }
        },
    }
    (string_of(h), 5060)
}

/// Reads the user, the host and the port of a SIP address.
pub fn parse_sip_uri(uri: &str) -> (r: Option<(String, String, u16)>)
    ensures
        match r {
            Some(t) => sip_address(uri@) == Some((t.0@, t.1@, t.2 as nat)),
            None => sip_address(uri@) is None,
        },
{
    let cs = chars_of(uri);
    let clean = drop_prefix(trim(cs.as_slice()), "sip:");
    let parts = split(clean, '@');
    let ghost pieces = split_on(clean@, '@');
    assert(pieces == texts(parts@));
    if parts.len() != 2 {
        return None;
    }
    assert(pieces[0] == parts@[0]@ && pieces[1] == parts@[1]@);
    let (host, port) = read_host_and_port(parts[1].as_slice());
    Some((string_of(parts[0].as_slice()), host, port))
}

proof fn lemma_digits_are_plain(s: Seq<char>)
    requires
        all_digits(s),
    ensures
        !s.contains('@') && !s.contains(':') && !s.contains(']'),
        forall|i: int| 0 <= i < s.len() ==> !is_whitespace(#[trigger] s[i]),
{
    assert forall|i: int| 0 <= i < s.len() implies !is_whitespace(#[trigger] s[i]) && s[i] != '@'
        && s[i] != ':' && s[i] != ']' by {
        assert(is_digit(s[i]));
    }
}

/// A host that an address can carry: it has no `@`, and no closing bracket or one at
/// its end, as in `[::1]`.
pub open spec fn is_host(s: Seq<char>) -> bool {
    !s.contains('@') && (s.contains(']') ==> s.last() == ']')
}

proof fn lemma_sip_uri_splits(user: Seq<char>, tail: Seq<char>)
    requires
        !user.contains('@'),
        !tail.contains('@'),
        tail.len() > 0 ==> !is_whitespace(tail.last()),
    ensures
        sip_address("sip:"@ + user + "@"@ + tail) == Some(
            (user, host_and_port(tail).0, host_and_port(tail).1),
        ),
{
    let uri = "sip:"@ + user + "@"@ + tail;
    reveal_strlit("sip:");
    reveal_strlit("@");
    assert("@"@ =~= seq!['@']);
    let clean = user + seq!['@'] + tail;
    assert(uri =~= "sip:"@ + clean);
    assert(uri[0] == 's');
    assert(trimmed_start(uri) == uri);
    assert(uri.last() == (if tail.len() > 0 {
        tail.last()
    } else {
        '@'
    }));
    assert(trimmed_end(uri) == uri);
    assert(uri.subrange(0, 4) =~= "sip:"@);
    assert(uri.skip(4) =~= clean);
    lemma_split_head(user, '@', tail);
    lemma_split_whole(tail, '@');
    assert(split_on(clean, '@') =~= seq![user, tail]);
}

/// The address of a SIP user reads back as the user, the host and the port that
/// it was made of.
pub proof fn law_sip_uri_round_trip(user: Seq<char>, host: Seq<char>, port: u16)
    requires
        !user.contains('@'),
        is_host(host),
    ensures
        sip_address(sip_uri_text(user, host, port)) == Some((user, host, port as nat)),
{
    let uri = sip_uri_text(user, host, port);
    let digits = decimal(port as nat);
    reveal_strlit(":");
    assert(":"@ =~= seq![':']);
    law_decimal_round_trip(port as nat, 65535);
    lemma_digits_are_plain(digits);
    let tail = host + seq![':'] + digits;
    assert(uri =~= "sip:"@ + user + "@"@ + tail);
    assert(!tail.contains('@')) by {
        if tail.contains('@') {
            let i = choose|i: int| 0 <= i < tail.len() && tail[i] == '@';
            if i < host.len() {
                assert(host[i] == '@');
            } else if i > host.len() {
                assert(digits[i - host.len() - 1] == '@');
            }
        }
    }
    assert(tail.last() == digits.last());
    lemma_sip_uri_splits(user, tail);
    assert(tail.skip(host.len() as int + 1) =~= digits);
    assert(tail.take(host.len() as int) =~= host);
    lemma_last_index_of_char(tail, ']');
    if let Some(i) = last_index_of_char(tail, ']') {
        if i > host.len() {
            assert(digits[i - host.len() - 1] == ']');
        }
        assert(host[i] == ']');
        assert(tail[host.len() - 1] == ']');
        assert(i == host.len() - 1);
        assert(tail[i + 1] == ':');
    } else {
        lemma_last_index_of_char(tail, ':');
        assert(last_index_of_char(tail, ':') == Some(host.len() as int)) by {
            assert(tail[host.len() as int] == ':');
            match last_index_of_char(tail, ':') {
                Some(i) => {
                    if i > host.len() {
                        assert(digits[i - host.len() - 1] == ':');
                    }
                },
                None => {},
            }
        }
    }
}

/// An address of a SIP user without a port reads back as the user and the host,
/// with the port 5060.
pub proof fn law_sip_uri_without_port(user: Seq<char>, host: Seq<char>)
    requires
        !user.contains('@'),
        is_host(host),
        host.contains(':') ==> host.last() == ']',
        host.len() > 0 ==> !is_whitespace(host.last()),
    ensures
        sip_address("sip:"@ + user + "@"@ + host) == Some((user, host, 5060nat)),
{
    lemma_sip_uri_splits(user, host);
    lemma_last_index_of_char(host, ']');
    lemma_last_index_of_char(host, ':');
    if host.len() > 0 && host.last() == ']' {
        assert(host.contains(host.last()));
    }
    if let Some(i) = last_index_of_char(host, ':') {
        assert(host[i] == ':');
    }
}

/// The host and the port of a direct RTP session. The address may begin with any
/// number of `rtp://`; with other than one colon it is all host, and the port is
/// 5004, as it is where the port is no number.
pub open spec fn rtp_address(uri: Seq<char>) -> (Seq<char>, nat) {
    let target = without_prefixes(uri, "rtp://"@);
    let parts = split_on(target, ':');
    if parts.len() == 2 {
        match number(parts[1], 65535) {
            Some(p) => (parts[0], p),
            None => (parts[0], 5004),
        }
    } else {
        (target, 5004)
    }
}

/// Reads the host and the port of a direct RTP session.
pub fn parse_rtp_target(uri: &str) -> (r: (String, u16))
    ensures
        (r.0@, r.1 as nat) == rtp_address(uri@),
{
    let cs = chars_of(uri);
    proof {
        reveal_strlit("rtp://");
    }
    let target = drop_prefixes(cs.as_slice(), "rtp://");
    let parts = split(target, ':');
    let ghost pieces = split_on(target@, ':');
    assert(pieces == texts(parts@));
    if parts.len() == 2 {
        assert(pieces[0] == parts@[0]@ && pieces[1] == parts@[1]@);
        let port: u16 = match parse_u16(parts[1].as_slice()) {
            Some(p) => p,
            None => 5004,
        };
        (string_of(parts[0].as_slice()), port)
    } else {
        (string_of(target), 5004)
    }
}

/// The address of a direct RTP session reads back as the host and the port that
/// it was made of.
pub proof fn law_rtp_uri_round_trip(ip: Seq<char>, port: u16)
    requires
        !ip.contains(':'),
    ensures
        rtp_address(rtp_uri_text(ip, port)) == (ip, port as nat),
{
    let uri = rtp_uri_text(ip, port);
    let digits = decimal(port as nat);
    reveal_strlit("rtp://");
    reveal_strlit(":");
    assert(":"@ =~= seq![':']);
    law_decimal_round_trip(port as nat, 65535);
    lemma_digits_are_plain(digits);
    let target = ip + seq![':'] + digits;
    assert(uri =~= "rtp://"@ + target);
    assert(uri.subrange(0, 6) =~= "rtp://"@);
    assert(uri.skip(6) =~= target);
    assert(!begins_with(target, "rtp://"@)) by {
        if begins_with(target, "rtp://"@) {
            let six = target.subrange(0, 6);
            assert(six[3] == ':' && six[4] == '/' && six[0] == 'r' && six[1] == 't' && six[2] == 'p');
            assert(target[3] == ':' && target[4] == '/');
            if ip.len() > 3 {
                assert(ip[3] == ':');
            } else if ip.len() < 3 {
                assert(target[3] == digits[3 - ip.len() - 1]);
            } else {
                assert(target[4] == digits[0]);
                assert(is_digit(digits[0]));
            }
        }
    }
    assert(without_prefixes(target, "rtp://"@) == target);
    lemma_split_head(ip, ':', digits);
    lemma_split_whole(digits, ':');
    assert(split_on(target, ':') =~= seq![ip, digits]);
}

// ---------------------------------------------------------------------------
// Digest authentication
// ---------------------------------------------------------------------------

/// The key and the value of one part of an authentication header: the texts
/// before and after the first equals sign, up to the next one; the key without
/// the word `Digest` before it, the value without quotation marks around it.
pub open spec fn auth_entry(part: Seq<char>) -> Option<(Seq<char>, Seq<char>)> {
    let sides = split_on(part, '=');
    if sides.len() >= 2 {
        Some(
            (
                without_prefixes(without_prefixes(trimmed(sides[0]), "Digest "@), "Digest"@),
                stripped_of(trimmed(sides[1]), seq!['"']),
            ),
        )
    } else {
        None
    }
}

/// The entries of the parts of an authentication header; of two with one key the
/// later counts.
pub open spec fn auth_entries(parts: Seq<Seq<char>>) -> Map<Seq<char>, Seq<char>>
    decreases parts.len(),
{
    if parts.len() == 0 {
        Map::empty()
    } else {
        let before = auth_entries(parts.drop_last());
        match auth_entry(parts.last()) {
            Some(e) => before.insert(e.0, e.1),
            None => before,
        }
    }
}

/// Reads the comma-separated entries of an authentication header.
pub fn parse_digest_auth(auth_header: &str) -> (r: TextMap)
    ensures
        r@ == auth_entries(split_on(auth_header@, ',')),
{
    let cs = chars_of(auth_header);
    let parts = split(cs.as_slice(), ',');
    let ghost pieces = split_on(auth_header@, ',');
    assert(pieces == texts(parts@));
    let mut map = TextMap::new();
    let quote: Vec<char> = vec!['"'];
    assert(quote@ =~= seq!['"']);
    let mut i: usize = 0;
    assert(pieces.take(0) =~= Seq::<Seq<char>>::empty());
    while i < parts.len()
        invariant
            i <= parts@.len(),
            pieces == texts(parts@),
            quote@ == seq!['"'],
            map@ == auth_entries(pieces.take(i as int)),
        decreases parts@.len() - i,
    {
        proof {
            assert(pieces.take(i as int + 1).drop_last() =~= pieces.take(i as int));
            assert(pieces[i as int] == parts@[i as int]@);
            reveal_strlit("Digest ");
            reveal_strlit("Digest");
        }
        let sides = split(parts[i].as_slice(), '=');
        let ghost two = split_on(parts@[i as int]@, '=');
        assert(two == texts(sides@));
        if sides.len() >= 2 {
            assert(two[0] == sides@[0]@ && two[1] == sides@[1]@);
            let key = drop_prefixes(
                drop_prefixes(trim(sides[0].as_slice()), "Digest "),
                "Digest",
            );
            let value = strip_of(trim(sides[1].as_slice()), quote.as_slice());
            map.insert(string_of(key), string_of(value));
        }
        i += 1;
    }
    assert(pieces.take(parts@.len() as int) =~= pieces);
    map
}

// ---------------------------------------------------------------------------
// Requests
// ---------------------------------------------------------------------------

/// The headers of a request that the gateway looks at.
pub ghost struct HeaderFields {
    pub call_id: Seq<char>,
    pub from: Seq<char>,
    pub to: Seq<char>,
    pub via: Seq<char>,
    pub cseq: Seq<char>,
    pub auth: Seq<char>,
    pub rtp_port: u16,
}

/// The port of an audio line of a session description, or `default` where its
/// second word is no number.
pub open spec fn audio_port(line: Seq<char>, default: u16) -> u16 {
    let ws = words(line);
    if ws.len() >= 2 {
        match number(ws[1], 65535) {
            Some(p) => p as u16,
            None => default,
        }
    } else {
        default
    }
}

/// The headers before any line was read; a session without an audio line has
/// port 5004.
pub open spec fn no_headers() -> HeaderFields {
    HeaderFields {
        call_id: Seq::empty(),
        from: Seq::empty(),
        to: Seq::empty(),
        via: Seq::empty(),
        cseq: Seq::empty(),
        auth: Seq::empty(),
        rtp_port: 5004,
    }
}

/// The headers with one more line read. Names count in either letter case; of
/// two headers with one name the later counts.
pub open spec fn with_line(h: HeaderFields, line: Seq<char>) -> HeaderFields {
    if begins_with_any_case(line, "call-id:"@) {
        HeaderFields { call_id: trimmed(line.skip(8)), ..h }
    } else if begins_with_any_case(line, "from:"@) {
        HeaderFields { from: trimmed(line.skip(5)), ..h }
    } else if begins_with_any_case(line, "to:"@) {
        HeaderFields { to: trimmed(line.skip(3)), ..h }
    } else if begins_with_any_case(line, "via:"@) {
        HeaderFields { via: trimmed(line.skip(4)), ..h }
    } else if begins_with_any_case(line, "cseq:"@) {
        HeaderFields { cseq: trimmed(line.skip(5)), ..h }
    } else if begins_with_any_case(line, "authorization:"@) {
        HeaderFields { auth: trimmed(line.skip(14)), ..h }
    } else if begins_with_any_case(line, "proxy-authorization:"@) {
        HeaderFields { auth: trimmed(line.skip(20)), ..h }
    } else if begins_with_any_case(line, "m=audio "@) {
        HeaderFields { rtp_port: audio_port(line, h.rtp_port), ..h }
    } else {
        h
    }
}

/// The headers that lines hold; of those that come twice, the last.
pub open spec fn headers_in(ls: Seq<Seq<char>>) -> HeaderFields
    decreases ls.len(),
{
    if ls.len() == 0 {
        no_headers()
    } else {
        with_line(headers_in(ls.drop_last()), ls.last())
    }
}

/// The headers of a request.
pub open spec fn headers_of(msg: Seq<char>) -> HeaderFields {
    headers_in(lines_of(msg))
}

/// The headers of a request that the gateway looks at.
pub struct SipHeaders {
    pub call_id: String,
    pub from: String,
    pub to: String,
    pub via: String,
    pub cseq: String,
    pub auth: String,
    pub rtp_port: u16,
}

impl View for SipHeaders {
    type V = HeaderFields;

    open spec fn view(&self) -> HeaderFields {
        HeaderFields {
            call_id: self.call_id@,
            from: self.from@,
            to: self.to@,
            via: self.via@,
            cseq: self.cseq@,
            auth: self.auth@,
            rtp_port: self.rtp_port,
        }
    }
}

fn value_after(line: &[char], n: usize) -> (r: String)
    requires
        n <= line@.len(),
    ensures
        r@ == trimmed(line@.skip(n as int)),
{
    let tail = slice_subrange(line, n, line.len());
    assert(tail@ =~= line@.skip(n as int));
    string_of(trim(tail))
}

fn read_audio_port(line: &[char], default: u16) -> (r: u16)
    ensures
        r == audio_port(line@, default),
{
    let ws = split_words(line);
    let ghost pieces = words(line@);
    assert(pieces == texts(ws@));
    if ws.len() >= 2 {
        assert(pieces[1] == ws@[1]@);
        if let Some(p) = parse_u16(ws[1].as_slice()) {
            return p;
        }
    }
    default
}

fn read_line(h: &mut SipHeaders, line: &[char])
    ensures
        final(h)@ == with_line(old(h)@, line@),
{
    proof {
        reveal_strlit("call-id:");
        reveal_strlit("from:");
        reveal_strlit("to:");
        reveal_strlit("via:");
        reveal_strlit("cseq:");
        reveal_strlit("authorization:");
        reveal_strlit("proxy-authorization:");
    }
    if starts_with_any_case(line, "call-id:") {
        h.call_id = value_after(line, 8);
    } else if starts_with_any_case(line, "from:") {
        h.from = value_after(line, 5);
    } else if starts_with_any_case(line, "to:") {
        h.to = value_after(line, 3);
    } else if starts_with_any_case(line, "via:") {
        h.via = value_after(line, 4);
    } else if starts_with_any_case(line, "cseq:") {
        h.cseq = value_after(line, 5);
    } else if starts_with_any_case(line, "authorization:") {
        h.auth = value_after(line, 14);
    } else if starts_with_any_case(line, "proxy-authorization:") {
        h.auth = value_after(line, 20);
    } else if starts_with_any_case(line, "m=audio ") {
        h.rtp_port = read_audio_port(line, h.rtp_port);
    }
}

/// Reads the headers of a request.
pub fn read_headers(msg: &str) -> (r: SipHeaders)
    ensures
        r@ == headers_of(msg@),
{
    let cs = chars_of(msg);
    let ls = lines(cs.as_slice());
    let ghost pieces = lines_of(msg@);
    assert(pieces == texts(ls@));
    let mut h = SipHeaders {
        call_id: String::new(),
        from: String::new(),
        to: String::new(),
        via: String::new(),
        cseq: String::new(),
        auth: String::new(),
        rtp_port: 5004,
    };
    let mut i: usize = 0;
    assert(pieces.take(0) =~= Seq::<Seq<char>>::empty());
    assert(h@ == no_headers());
    while i < ls.len()
        invariant
            i <= ls@.len(),
            pieces == texts(ls@),
            h@ == headers_in(pieces.take(i as int)),
        decreases ls@.len() - i,
    {
        proof {
            assert(pieces.take(i as int + 1).drop_last() =~= pieces.take(i as int));
            assert(pieces[i as int] == ls@[i as int]@);
        }
        read_line(&mut h, ls[i].as_slice());
        i += 1;
    }
    assert(pieces.take(ls@.len() as int) =~= pieces);
    h
}

/// The extension that a request's address names: what stands before the at sign
/// of its second word, without the scheme and without brackets and quotation
/// marks around the address; empty where there is none.
pub open spec fn extension_of(msg: Seq<char>) -> Seq<char> {
    let ls = lines_of(msg);
    let first = if ls.len() > 0 {
        ls[0]
    } else {
        Seq::empty()
    };
    let ws = words(first);
    if ws.len() >= 2 {
        let uri = without_prefix(stripped_of(ws[1], seq!['<', '>', '"', ' ']), "sip:"@);
        let at = index_of_char(uri, '@');
        if at < uri.len() {
            uri.take(at as int)
        } else {
            Seq::empty()
        }
    } else {
        Seq::empty()
    }
}

/// Reads the extension that a request dials.
pub fn dialed_extension(msg: &str) -> (r: String)
    ensures
        r@ == extension_of(msg@),
{
    let cs = chars_of(msg);
    let ls = lines(cs.as_slice());
    let ghost pieces = lines_of(msg@);
    assert(pieces == texts(ls@));
    if ls.len() == 0 {
        proof {
            assert(words(Seq::<char>::empty()).len() == 0) by {
                assert(trimmed_start(Seq::<char>::empty()).len() == 0);
            }
        }
        return String::new();
    }
    assert(pieces[0] == ls@[0]@);
    let ws = split_words(ls[0].as_slice());
    let ghost wp = words(ls@[0]@);
    assert(wp == texts(ws@));
    if ws.len() >= 2 {
        assert(wp[1] == ws@[1]@);
        let marks: Vec<char> = vec!['<', '>', '"', ' '];
        assert(marks@ =~= seq!['<', '>', '"', ' ']);
        let uri = drop_prefix(strip_of(ws[1].as_slice(), marks.as_slice()), "sip:");
        let at: usize = find_char(uri, '@');
        if at < uri.len() {
            let head = slice_subrange(uri, 0, at);
            assert(head@ =~= uri@.take(at as int));
            return string_of(head);
        }
    }
    String::new()
}

// ---------------------------------------------------------------------------
// Responses
// ---------------------------------------------------------------------------

/// What a message on a calling session means.
pub enum SipReply {
    Trying,
    Ringing,
    /// The call failed, with the status line.
    Failed { status: String },
    /// The call was answered, with the tag of the called side, if any, and the
    /// port of its audio.
    Answered { to_tag: Option<String>, rtp_port: u16 },
    /// The called side ended the call.
    Bye,
    Other,
}

/// The status line of a response whose code tells a failure: 300 or above.
pub open spec fn failure_line(msg: Seq<char>) -> Option<Seq<char>> {
    let ls = lines_of(msg);
    if ls.len() > 0 && begins_with(ls[0], "SIP/2.0 "@) {
        let ws = words(ls[0]);
        if ws.len() >= 2 {
            match number(ws[1], 0xffff_ffff) {
                Some(code) => if code >= 300 {
                    Some(ls[0])
                } else {
                    None
                },
                None => None,
            }
        } else {
            None
        }
    } else {
        None
    }
}

/// What stands in `msg` from the first place of `what` to the end of that line.
pub open spec fn rest_of_line(msg: Seq<char>, what: Seq<char>) -> Option<Seq<char>> {
    match position_of(msg, what) {
        Some(i) => Some(split_on(msg.skip(i), '\n')[0]),
        None => None,
    }
}

/// The tag in the first line that holds `To:`.
pub open spec fn to_tag_of(msg: Seq<char>) -> Option<Seq<char>> {
    match rest_of_line(msg, "To:"@) {
        Some(line) => match position_of(line, ";tag="@) {
            Some(j) => Some(trimmed(line.skip(j + 5))),
            None => None,
        },
        None => None,
    }
}

/// The port of the first audio line; 5004 without one.
pub open spec fn answer_port(msg: Seq<char>) -> u16 {
    match rest_of_line(msg, "m=audio "@) {
        Some(line) => audio_port(line, 5004),
        None => 5004,
    }
}

/// What a message on a calling session says, as a value.
pub ghost enum ReplyView {
    Trying,
    Ringing,
    Failed { status: Seq<char> },
    Answered { to_tag: Option<Seq<char>>, rtp_port: u16 },
    Bye,
    Other,
}

impl View for SipReply {
    type V = ReplyView;

    open spec fn view(&self) -> ReplyView {
        match *self {
            SipReply::Trying => ReplyView::Trying,
            SipReply::Ringing => ReplyView::Ringing,
            SipReply::Failed { status } => ReplyView::Failed { status: status@ },
            SipReply::Answered { to_tag, rtp_port } => ReplyView::Answered {
                to_tag: opt_text(to_tag),
                rtp_port,
            },
            SipReply::Bye => ReplyView::Bye,
            SipReply::Other => ReplyView::Other,
        }
    }
}

/// What a message on a calling session means, in the order in which the signs of
/// it are looked for.
pub open spec fn reply_of(msg: Seq<char>) -> ReplyView {
    if has(msg, "SIP/2.0 100"@) {
        ReplyView::Trying
    } else if has(msg, "SIP/2.0 180"@) {
        ReplyView::Ringing
    } else if failure_line(msg) is Some {
        ReplyView::Failed { status: failure_line(msg)->0 }
    } else if has(msg, "SIP/2.0 200"@) {
        ReplyView::Answered { to_tag: to_tag_of(msg), rtp_port: answer_port(msg) }
    } else if has(msg, "BYE"@) {
        ReplyView::Bye
    } else {
        ReplyView::Other
    }
}

fn read_failure(msg: &[char]) -> (r: Option<String>)
    ensures
        match r {
            Some(s) => failure_line(msg@) == Some(s@),
            None => failure_line(msg@) is None,
        },
{
    let ls = lines(msg);
    let ghost pieces = lines_of(msg@);
    assert(pieces == texts(ls@));
    if ls.len() > 0 {
        assert(pieces[0] == ls@[0]@);
        if starts_with(ls[0].as_slice(), "SIP/2.0 ") {
            let ws = split_words(ls[0].as_slice());
            let ghost wp = words(ls@[0]@);
            assert(wp == texts(ws@));
            if ws.len() >= 2 {
                assert(wp[1] == ws@[1]@);
                if let Some(code) = parse_u32(ws[1].as_slice()) {
                    if code >= 300 {
                        return Some(string_of(ls[0].as_slice()));
                    }
                }
            }
        }
    }
    None
}

fn read_rest_of_line(msg: &[char], what: &str) -> (r: Option<Vec<char>>)
    ensures
        match r {
            Some(line) => rest_of_line(msg@, what@) == Some(line@),
            None => rest_of_line(msg@, what@) is None,
        },
{
    match find(msg, what) {
        Some(i) => {
            let tail = slice_subrange(msg, i, msg.len());
            assert(tail@ =~= msg@.skip(i as int));
            let mut ls = split(tail, '\n');
            assert(texts(ls@)[0] == ls@[0]@);
            Some(ls.remove(0))
        },
        None => None,
    }
}

fn read_to_tag(msg: &[char]) -> (r: Option<String>)
    ensures
        match r {
            Some(t) => to_tag_of(msg@) == Some(t@),
            None => to_tag_of(msg@) is None,
        },
{
    proof {
        reveal_strlit(";tag=");
    }
    match read_rest_of_line(msg, "To:") {
        Some(line) => {
            let len: usize = line.len();
            match find(line.as_slice(), ";tag=") {
                Some(j) => {
                    assert(j + 5 <= len);
                    Some(value_after(line.as_slice(), j + 5))
                },
                None => None,
            }
        },
        None => None,
    }
}

/// Tells what a message on a calling session means.
pub fn classify_reply(msg: &str) -> (r: SipReply)
    ensures
        r@ == reply_of(msg@),
{
    if str_contains(msg, "SIP/2.0 100") {
        return SipReply::Trying;
    }
    if str_contains(msg, "SIP/2.0 180") {
        return SipReply::Ringing;
    }
    let cs = chars_of(msg);
    if let Some(status) = read_failure(cs.as_slice()) {
        return SipReply::Failed { status };
    }
    if str_contains(msg, "SIP/2.0 200") {
        let to_tag = read_to_tag(cs.as_slice());
        let rtp_port: u16 = match read_rest_of_line(cs.as_slice(), "m=audio ") {
            Some(line) => read_audio_port(line.as_slice(), 5004),
            None => 5004,
        };
        return SipReply::Answered { to_tag, rtp_port };
    }
    if str_contains(msg, "BYE") {
        return SipReply::Bye;
    }
    SipReply::Other
}

} // verus!
