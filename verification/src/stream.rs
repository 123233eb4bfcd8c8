//! Media streams: what is sent, what is received, and where it goes.

use crate::crypto::{
    aes256_gcm_seal, encrypt_rtp_gcm, decrypt_rtp_gcm, is_key_exchange, key_in_text,
    lemma_key_exchange_is_text, looks_like_key_exchange, opens, packet_aad, packet_nonce, parse_key_exchange, seals, utf8_lossy,
    SrtpKeys,
};
use crate::ed137::{
    as_received, encode_ed137b, extension_b, header_len, is_rtp, law_packet_round_trip,
    packet_fields, rtp_header_len, Ed137Fields, PttType,
};
use crate::messages::{host_port, host_port_text};
use crate::rtp::{
    be16, be32, fixed_header, law_header_fields_read_back, law_header_layout, parse_rtp_payload, push_bytes, read16,
    read32, start_packet, value16, value32,
};
use crate::text::{chars_of, decimal, trim, trimmed};
use crate::ulaw::{code_of, law_code_round_trip, law_sample_round_trip, linear_to_ulaw, sample_of, ulaw_to_linear};
use vstd::prelude::*;
use vstd::slice::slice_subrange;
use vstd::string::*;

verus! {

// ---------------------------------------------------------------------------
// Clock readings
// ---------------------------------------------------------------------------

/// A number that changes with the clock: the low 32 bits of its nanoseconds.
pub fn rand_u32(nanos: u128) -> (r: u32)
    ensures
        r == nanos % 0x1_0000_0000,
{
    (nanos % 0x1_0000_0000) as u32
}

/// A number that changes with the clock: the low 64 bits of its nanoseconds.
pub fn rand_u64(nanos: u128) -> (r: u64)
    ensures
        r == nanos % 0x1_0000_0000_0000_0000,
{
    (nanos % 0x1_0000_0000_0000_0000) as u64
}

/// The time of a clock reading in milliseconds; zero where there was none.
pub fn now_millis(millis: Option<u128>) -> (r: u64)
    ensures
        match millis {
            Some(m) => r == m % 0x1_0000_0000_0000_0000,
            None => r == 0,
        },
{
    match millis {
        Some(m) => (m % 0x1_0000_0000_0000_0000) as u64,
        None => 0,
    }
}

/// How long ago `then` was; zero where it lies ahead.
pub open spec fn elapsed(now: u64, then: u64) -> int {
    if now >= then {
        now - then
    } else {
        0
    }
}

fn elapsed_ms(now: u64, then: u64) -> (r: u64)
    ensures
        r == elapsed(now, then),
{
    if now >= then {
        now - then
    } else {
        0
    }
}

// ---------------------------------------------------------------------------
// Plain streams
// ---------------------------------------------------------------------------

/// The source number of a channel's own stream.
pub open spec fn channel_source(channel_id: u32) -> int {
    0xAC00_0000 + channel_id % 0x100_0000
}

/// The source number of a channel's own stream.
pub fn channel_rtp_ssrc(channel_id: u32) -> (r: u32)
    ensures
        r == channel_source(channel_id),
{
    0xAC00_0000 + channel_id % 0x100_0000
}

/// The counters of one RTP stream of PCMU sound.
#[derive(Debug, Clone, Copy, PartialEq, Eq, Structural)]
pub struct PcmuStream {
    pub seq: u16,
    pub ts: u32,
    pub ssrc: u32,
}

impl PcmuStream {
    /// The stream after a packet of so many samples.
    pub open spec fn advanced(self, samples: nat) -> PcmuStream {
        PcmuStream {
            seq: ((self.seq + 1) % 0x1_0000) as u16,
            ts: ((self.ts + samples) % 0x1_0000_0000) as u32,
            ssrc: self.ssrc,
        }
    }

    /// The packet of a payload; `marked` sets the marker bit.
    pub open spec fn packet(self, marked: bool, ulaw: Seq<u8>) -> Seq<u8> {
        fixed_header(
            0x80,
            if marked {
                0x80
            } else {
                0x00
            },
            self.seq,
            self.ts,
            self.ssrc,
        ) + ulaw
    }

    fn advance(&mut self, samples: usize)
        ensures
            *final(self) == old(self).advanced(samples as nat),
    {
        self.seq = ((self.seq as u32 + 1) % 0x1_0000) as u16;
        let step: u64 = samples as u64 % 0x1_0000_0000;
        self.ts = ((self.ts as u64 + step) % 0x1_0000_0000) as u32;
    }

    /// The next packet of the stream; `marked` sets the marker bit.
    pub fn next_packet(&mut self, marked: bool, ulaw: &[u8]) -> (r: Vec<u8>)
        ensures
            r@ == old(self).packet(marked, ulaw@),
            *final(self) == old(self).advanced(ulaw@.len()),
    {
        let second: u8 = if marked {
            0x80
        } else {
            0x00
        };
        let mut packet = start_packet(0x80, second, self.seq, self.ts, self.ssrc);
        push_bytes(&mut packet, ulaw);
        self.advance(ulaw.len());
        packet
    }
}

/// A frame of silence: 160 samples.
pub open spec fn silence_frame() -> Seq<u8> {
    Seq::new(160, |i: int| 0xffu8)
}

/// A frame of silence: 160 samples.
pub fn silence() -> (r: Vec<u8>)
    ensures
        r@ == silence_frame(),
{
    let mut r: Vec<u8> = Vec::new();
    let mut i: usize = 0;
    while i < 160
        invariant
            i <= 160,
            r@.len() == i,
            forall|k: int| 0 <= k < i ==> r@[k] == 0xff,
        decreases 160 - i,
    {
        r.push(0xff);
        i += 1;
    }
    assert(r@ =~= silence_frame());
    r
}

/// The codes of a frame of samples.
pub open spec fn codes_of(samples: Seq<i16>) -> Seq<u8> {
    samples.map_values(|s: i16| code_of(s as int) as u8)
}

/// Encodes a frame of samples.
pub fn encode_frame(samples: &[i16]) -> (r: Vec<u8>)
    ensures
        r@ == codes_of(samples@),
{
    let mut r: Vec<u8> = Vec::new();
    let mut i: usize = 0;
    while i < samples.len()
        invariant
            i <= samples@.len(),
            r@.len() == i,
            forall|k: int| 0 <= k < i ==> r@[k] == codes_of(samples@)[k],
        decreases samples@.len() - i,
    {
        r.push(linear_to_ulaw(samples[i]));
        i += 1;
    }
    assert(r@ =~= codes_of(samples@));
    r
}

/// The samples of a frame of codes.
pub open spec fn samples_of(codes: Seq<u8>) -> Seq<i16> {
    codes.map_values(|c: u8| sample_of(c) as i16)
}

/// Decodes a frame of codes.
pub fn decode_frame(ulaw: &[u8]) -> (r: Vec<i16>)
    ensures
        r@ == samples_of(ulaw@),
{
    let mut r: Vec<i16> = Vec::new();
    let mut i: usize = 0;
    while i < ulaw.len()
        invariant
            i <= ulaw@.len(),
            r@.len() == i,
            forall|k: int| 0 <= k < i ==> r@[k] == samples_of(ulaw@)[k],
        decreases ulaw@.len() - i,
    {
        r.push(ulaw_to_linear(ulaw[i]));
        i += 1;
    }
    assert(r@ =~= samples_of(ulaw@));
    r
}

// ---------------------------------------------------------------------------
// Taps: legs that get a copy of a call's sound
// ---------------------------------------------------------------------------

/// Where a tap binds and sends.
pub struct TapPlan {
    pub bind_addr: String,
    pub dest: String,
}

/// Whether a tap is to be made: it is enabled and has a port and an address.
pub open spec fn wants_tap(enabled: bool, ip: Seq<char>, port: u16) -> bool {
    enabled && port != 0 && trimmed(ip).len() > 0
}

/// Where a tap sends and what it is bound to, where it is wanted.
pub open spec fn tap_of(
    enabled: bool,
    ip: Seq<char>,
    port: u16,
    local_port: Option<u16>,
) -> Option<(Seq<char>, Seq<char>)> {
    if wants_tap(enabled, ip, port) {
        Some(
            (
                host_port_text(ip, port),
                host_port_text(
                    "0.0.0.0"@,
                    match local_port {
                        Some(p) => p,
                        None => 0,
                    },
                ),
            ),
        )
    } else {
        None
    }
}

/// Where a tap binds and sends, if it is to be made at all. Without a local port
/// the system picks one.
pub fn plan_tap(enabled: bool, ip: &str, port: u16, local_port: Option<u16>) -> (r: Option<TapPlan>)
    ensures
        match r {
            Some(plan) => tap_of(enabled, ip@, port, local_port) == Some(
                (plan.dest@, plan.bind_addr@),
            ),
            None => tap_of(enabled, ip@, port, local_port) is None,
        },
{
    let cs = chars_of(ip);
    if !enabled || port == 0 || trim(cs.as_slice()).len() == 0 {
        return None;
    }
    let bind_port: u16 = match local_port {
        Some(p) => p,
        None => 0,
    };
    Some(TapPlan { bind_addr: host_port("0.0.0.0", bind_port), dest: host_port(ip, port) })
}

/// A tap's stream and the time of its last packet.
#[derive(Debug, Clone, Copy, PartialEq, Eq, Structural)]
pub struct RecordingTap {
    pub stream: PcmuStream,
    pub last_activity_ms: u64,
}

impl RecordingTap {
    /// The tap once it was given sound at a moment, and the packet that it sends.
    pub open spec fn sent(self, ulaw: Seq<u8>, now_ms: u64) -> (RecordingTap, Option<Seq<u8>>) {
        if ulaw.len() == 0 {
            (self, None)
        } else {
            (
                RecordingTap {
                    stream: self.stream.advanced(ulaw.len()),
                    last_activity_ms: now_ms,
                },
                Some(self.stream.packet(false, ulaw)),
            )
        }
    }

    /// The next packet of the tap; an empty payload makes none and leaves the tap
    /// as it was.
    pub fn send_ulaw(&mut self, ulaw: &[u8], now_ms: u64) -> (r: Option<Vec<u8>>)
        ensures
            match r {
                Some(p) => old(self).sent(ulaw@, now_ms) == (*final(self), Some(p@)),
                None => old(self).sent(ulaw@, now_ms) == (*final(self), None::<Seq<u8>>),
            },
    {
        if ulaw.len() == 0 {
            return None;
        }
        let packet = self.stream.next_packet(false, ulaw);
        self.last_activity_ms = now_ms;
        Some(packet)
    }

    /// A packet of silence, which keeps the other end from giving up the link.
    pub fn send_keepalive_silence(&mut self, now_ms: u64) -> (r: Vec<u8>)
        ensures
            old(self).sent(silence_frame(), now_ms) == (*final(self), Some(r@)),
    {
        let frame = silence();
        let packet = self.stream.next_packet(false, frame.as_slice());
        self.last_activity_ms = now_ms;
        packet
    }
}

/// After so many milliseconds without a packet, a bridge sends silence.
pub const BRIDGE_KEEPALIVE_IDLE_MS: u64 = 4000;

/// After so many milliseconds without a packet from it, a bridge's peer counts as
/// gone.
pub const BRIDGE_LINK_STALE_MS: u64 = 6000;

/// What the monitor of a bridge does each second.
#[derive(Debug, Clone, Copy, PartialEq, Eq, Structural)]
pub struct BridgeTick {
    pub send_keepalive: bool,
    /// The state of the link, where it is to be announced.
    pub announce: Option<bool>,
}

/// Whether the peer of a bridge is heard: a packet of it came lately. Zero means
/// that none ever came.
pub open spec fn link_alive(now: u64, last_rx: u64) -> bool {
    last_rx != 0 && elapsed(now, last_rx) < BRIDGE_LINK_STALE_MS
}

/// What the monitor of a bridge does at a moment.
pub open spec fn tick_of(
    now: u64,
    last_activity: u64,
    last_rx: u64,
    announced: Option<bool>,
) -> BridgeTick {
    BridgeTick {
        send_keepalive: elapsed(now, last_activity) >= BRIDGE_KEEPALIVE_IDLE_MS,
        announce: if announced == Some(link_alive(now, last_rx)) {
            None
        } else {
            Some(link_alive(now, last_rx))
        },
    }
}

/// What the monitor of a bridge does now; `announced` is the state of the link
/// that was announced last.
pub fn bridge_tick(now: u64, last_activity: u64, last_rx: u64, announced: Option<bool>) -> (r:
    BridgeTick)
    ensures
        r == tick_of(now, last_activity, last_rx, announced),
{
    let idle: u64 = elapsed_ms(now, last_activity);
    let alive: bool = last_rx != 0 && elapsed_ms(now, last_rx) < BRIDGE_LINK_STALE_MS;
    let known: bool = match announced {
        Some(a) => a == alive,
        None => false,
    };
    BridgeTick {
        send_keepalive: idle >= BRIDGE_KEEPALIVE_IDLE_MS,
        announce: if known {
            None
        } else {
            Some(alive)
        },
    }
}

/// Whether a packet is RTP of version 2 with PCMU sound.
pub open spec fn is_pcmu(data: Seq<u8>) -> bool {
    is_rtp(data) && data[1] % 128 == 0
}

fn check_pcmu(data: &[u8]) -> (r: bool)
    ensures
        r == is_pcmu(data@),
{
    data.len() >= 12 && data[0] / 64 == 2 && data[1] % 128 == 0
}

/// What a bridge or a group's mirror received.
pub enum LegPacket {
    /// Something else than PCMU sound.
    Ignored,
    /// A sign of life without sound.
    Empty,
    /// Sound.
    Audio(Vec<u8>),
}

/// What a packet from the peer of a bridge or of a group's mirror comes to.
pub open spec fn leg_comes_to(data: Seq<u8>, r: LegPacket) -> bool {
    match r {
        LegPacket::Ignored => !is_pcmu(data),
        LegPacket::Empty => is_pcmu(data) && (header_len(data) is None || header_len(data) == Some(
            data.len(),
        )),
        LegPacket::Audio(p) => is_pcmu(data) && p@.len() > 0 && (header_len(data) matches Some(n)
            && p@ == data.skip(n as int)),
    }
}

/// Reads a packet that came from the peer of a bridge or of a group's mirror.
pub fn receive_leg(data: &[u8]) -> (r: LegPacket)
    ensures
        leg_comes_to(data@, r),
{
    if !check_pcmu(data) {
        return LegPacket::Ignored;
    }
    match parse_rtp_payload(data) {
        Some(p) => {
            if p.len() == 0 {
                return LegPacket::Empty;
            }
            let mut out: Vec<u8> = Vec::new();
            push_bytes(&mut out, p);
            assert(out@ =~= p@);
            LegPacket::Audio(out)
        },
        None => LegPacket::Empty,
    }
}

/// How many waiting samples a secondary leg may have: half a second.
pub fn max_queue_samples(out_sample_rate: u32) -> (r: usize)
    ensures
        r == (out_sample_rate as nat * 500) / 1000,
{
    (out_sample_rate as u64 * 500 / 1000) as usize
}

/// How many of the waiting samples are too many.
pub open spec fn excess_of(waiting: int, max: int) -> int {
    if waiting > max {
        waiting - max
    } else {
        0
    }
}

/// How many of the oldest waiting samples a secondary leg drops.
pub fn queue_excess(waiting: usize, max: usize) -> (r: usize)
    ensures
        r == excess_of(waiting as int, max as int),
{
    if waiting > max {
        waiting - max
    } else {
        0
    }
}

/// Whether a channel hears a group's sound: another's, and only as a member.
pub open spec fn relay_takes(source: u32, channel_id: u32, length: nat, is_member: bool) -> bool {
    source != channel_id && length > 0 && is_member
}

/// Whether a channel takes a frame off a group's bus: one that another source
/// published, that is not empty, while the channel is a member.
pub fn relay_accepts(source: u32, channel_id: u32, ulaw_len: usize, is_member: bool) -> (r: bool)
    ensures
        r == relay_takes(source, channel_id, ulaw_len as nat, is_member),
{
    source != channel_id && ulaw_len > 0 && is_member
}

// ---------------------------------------------------------------------------
// The operator's stream
// ---------------------------------------------------------------------------

/// After so many milliseconds without a packet, the operator's stream sends an
/// empty one.
pub const MIC_KEEPALIVE_IDLE_MS: u64 = 3000;

/// How many frames of the keyed burst open a link to a radio.
pub const ESTABLISH_FRAMES: u32 = 50;

/// The operator's stream of one call.
#[derive(Debug, Clone, Copy, PartialEq, Eq, Structural)]
pub struct MicStream {
    pub stream: PcmuStream,
    pub srtp_enabled: bool,
    pub ed137_enabled: bool,
    pub ed137_ptt_id: u8,
    pub last_tx_ms: u64,
}

/// The signalling of the operator's stream.
pub open spec fn mic_fields(ptt_id: u8, keyed: bool) -> Ed137Fields {
    Ed137Fields {
        ptt_type: if keyed {
            PttType::Normal
        } else {
            PttType::Off
        },
        squ: false,
        ptt_id,
        ptt_mute: false,
        ptt_summation: false,
        sct: false,
    }
}

/// A packet as it goes out: header, ciphertext and tag under encryption, header
/// and payload without.
pub open spec fn protected_packet(
    srtp: bool,
    keys: Option<SrtpKeys>,
    stream: PcmuStream,
    header: Seq<u8>,
    payload: Seq<u8>,
) -> Option<Seq<u8>> {
    if !srtp {
        Some(header + payload)
    } else {
        match keys {
            None => None,
            Some(k) => {
                let (sealed, tag) = aes256_gcm_seal(
                    k.tx_key@,
                    packet_nonce(k.tx_salt@, stream.seq, stream.ts, stream.ssrc),
                    packet_aad(stream.seq, stream.ts, stream.ssrc),
                    payload,
                );
                Some(header + sealed + tag)
            },
        }
    }
}

fn protect(
    srtp: bool,
    keys: &Option<SrtpKeys>,
    stream: PcmuStream,
    header: Vec<u8>,
    payload: &[u8],
) -> (r: Option<Vec<u8>>)
    requires
        payload@.len() <= 160,
    ensures
        match r {
            Some(p) => protected_packet(srtp, *keys, stream, header@, payload@) == Some(p@),
            None => protected_packet(srtp, *keys, stream, header@, payload@) is None,
        },
{
    let mut packet = header;
    if !srtp {
        push_bytes(&mut packet, payload);
        return Some(packet);
    }
    match keys {
        None => None,
        Some(k) => {
            let mut body: Vec<u8> = Vec::new();
            push_bytes(&mut body, payload);
            assert(body@ =~= payload@);
            match encrypt_rtp_gcm(k, stream.seq, stream.ts, stream.ssrc, &mut body) {
                Ok(tag) => {
                    push_bytes(&mut packet, body.as_slice());
                    push_bytes(&mut packet, tag.as_slice());
                    Some(packet)
                },
                Err(_) => None,
            }
        },
    }
}

/// What one frame of the operator's stream comes to.
pub struct MicStep {
    /// The packet for the call's other side.
    pub to_peer: Option<Vec<u8>>,
    /// The sound for the recorder, the bridge and the groups.
    pub to_taps: Option<Vec<u8>>,
}

/// What the opening of the operator's stream does next.
pub enum BurstStep {
    /// Goes on for the time of a frame, with this packet, if any, for the other side.
    Frame(Option<Vec<u8>>),
    /// Ends: the operator's sound follows.
    Done,
}

impl MicStream {
    /// What becomes of a frame of the operator's sound: of the stream, and where the frame
    /// goes.
    pub open spec fn steps_to(
        self,
        samples: Seq<i16>,
        ptt_on: bool,
        now_ms: u64,
        keys: Option<SrtpKeys>,
        after: MicStream,
        r: MicStep,
    ) -> bool {
        &&& after.stream == self.stream.advanced(160)
        &&& after.srtp_enabled == self.srtp_enabled
        &&& after.ed137_enabled == self.ed137_enabled
        &&& after.ed137_ptt_id == self.ed137_ptt_id
        &&& after.last_tx_ms == (if ptt_on || self.is_idle(now_ms) {
            now_ms
        } else {
            self.last_tx_ms
        })
        &&& match r.to_taps {
            Some(p) => ptt_on && p@ == codes_of(samples),
            None => !ptt_on,
        }
        &&& match r.to_peer {
            Some(p) => (ptt_on || self.is_idle(now_ms)) && protected_packet(
                self.srtp_enabled,
                keys,
                self.stream,
                self.header(ptt_on),
                if ptt_on {
                    codes_of(samples)
                } else {
                    Seq::empty()
                },
            ) == Some(p@),
            None => (!ptt_on && !self.is_idle(now_ms)) || (self.srtp_enabled && keys is None),
        }
    }

    /// What becomes of the stream while it is opened, and what is sent.
    pub open spec fn bursts_to(
        self,
        sent: u32,
        now_ms: u64,
        keys: Option<SrtpKeys>,
        after: MicStream,
        r: BurstStep,
    ) -> bool {
        &&& r is Frame == (self.ed137_enabled && sent < ESTABLISH_FRAMES)
        &&& after == (if !self.ed137_enabled {
            self
        } else if sent < ESTABLISH_FRAMES {
            MicStream { stream: self.stream.advanced(160), ..self }
        } else {
            MicStream { last_tx_ms: now_ms, ..self }
        })
        &&& match r {
            BurstStep::Frame(Some(p)) => protected_packet(
                self.srtp_enabled,
                keys,
                self.stream,
                self.header(true),
                silence_frame(),
            ) == Some(p@),
            BurstStep::Frame(None) => self.srtp_enabled && keys is None,
            BurstStep::Done => true,
        }
    }

    /// The header of the next packet, with the signalling where it is enabled.
    pub open spec fn header(self, keyed: bool) -> Seq<u8> {
        if self.ed137_enabled {
            fixed_header(0x90, 0x00, self.stream.seq, self.stream.ts, self.stream.ssrc)
                + extension_b(mic_fields(self.ed137_ptt_id, keyed))
        } else {
            fixed_header(0x80, 0x00, self.stream.seq, self.stream.ts, self.stream.ssrc)
        }
    }

    fn build_header(&self, keyed: bool) -> (r: Vec<u8>)
        ensures
            r@ == self.header(keyed),
    {
        let first: u8 = if self.ed137_enabled {
            0x90
        } else {
            0x80
        };
        let mut packet = start_packet(
            first,
            0x00,
            self.stream.seq,
            self.stream.ts,
            self.stream.ssrc,
        );
        if self.ed137_enabled {
            let fields = Ed137Fields {
                ptt_type: if keyed {
                    PttType::Normal
                } else {
                    PttType::Off
                },
                squ: false,
                ptt_id: self.ed137_ptt_id,
                ptt_mute: false,
                ptt_summation: false,
                sct: false,
            };
            let ext: [u8; 8] = encode_ed137b(&fields);
            push_bytes(&mut packet, ext.as_slice());
        }
        packet
    }

    /// One frame of the keyed burst of silence that opens a link to a radio.
    pub fn burst_frame(&mut self, keys: &Option<SrtpKeys>) -> (r: Option<Vec<u8>>)
        ensures
            *final(self) == (MicStream { stream: old(self).stream.advanced(160), ..*old(self) }),
            match r {
                Some(p) => protected_packet(
                    old(self).srtp_enabled,
                    *keys,
                    old(self).stream,
                    old(self).header(true),
                    silence_frame(),
                ) == Some(p@),
                None => old(self).srtp_enabled && *keys is None,
            },
    {
        let header = self.build_header(true);
        let frame = silence();
        let packet = protect(self.srtp_enabled, keys, self.stream, header, frame.as_slice());
        self.stream.advance(160);
        packet
    }

    /// What the opening of the stream does after so many frames of the burst: the
    /// burst is sent where signalling is enabled, to its last frame, and the stream
    /// counts as quiet only from its end on.
    pub fn burst_step(&mut self, sent: u32, now_ms: u64, keys: &Option<SrtpKeys>) -> (r: BurstStep)
        ensures
            old(self).bursts_to(sent, now_ms, *keys, *final(self), r),
    {
        if !self.ed137_enabled {
            return BurstStep::Done;
        }
        if sent < ESTABLISH_FRAMES {
            return BurstStep::Frame(self.burst_frame(keys));
        }
        self.last_tx_ms = now_ms;
        BurstStep::Done
    }

    /// Whether the stream has been quiet for so long that it sends an empty packet.
    pub open spec fn is_idle(self, now_ms: u64) -> bool {
        elapsed(now_ms, self.last_tx_ms) >= MIC_KEEPALIVE_IDLE_MS
    }

    /// One frame of 160 samples. While the channel is keyed the sound goes to the
    /// other side and to the taps. While it is not, no sound goes anywhere; a
    /// stream that has been quiet for long sends a packet without sound.
    pub fn step(
        &mut self,
        samples: &[i16],
        ptt_on: bool,
        now_ms: u64,
        keys: &Option<SrtpKeys>,
    ) -> (r: MicStep)
        requires
            samples@.len() == 160,
        ensures
            old(self).steps_to(samples@, ptt_on, now_ms, *keys, *final(self), r),
    {
        let stream = self.stream;
        let mut to_peer: Option<Vec<u8>> = None;
        let mut to_taps: Option<Vec<u8>> = None;
        if ptt_on {
            let payload = encode_frame(samples);
            let header = self.build_header(true);
            to_peer = protect(self.srtp_enabled, keys, stream, header, payload.as_slice());
            to_taps = Some(payload);
            self.last_tx_ms = now_ms;
        } else if elapsed_ms(now_ms, self.last_tx_ms) >= MIC_KEEPALIVE_IDLE_MS {
            let header = self.build_header(false);
            let empty: Vec<u8> = Vec::new();
            to_peer = protect(self.srtp_enabled, keys, stream, header, empty.as_slice());
            assert(empty@ =~= Seq::<u8>::empty());
            self.last_tx_ms = now_ms;
        }
        self.stream.advance(160);
        MicStep { to_peer, to_taps }
    }
}

// ---------------------------------------------------------------------------
// Receiving
// ---------------------------------------------------------------------------

/// What a packet on a call's media port is.
#[derive(Debug, Clone, Copy, PartialEq, Eq)]
pub enum MediaPacket {
    /// A key exchange message, with the key where it holds one.
    KeyExchange(Option<[u8; 32]>),
    /// PCMU sound.
    Sound,
    Ignored,
}

/// What a packet on a call's port is taken for.
pub open spec fn media_is(data: Seq<u8>, r: MediaPacket) -> bool {
    match r {
        MediaPacket::KeyExchange(key) => {
            &&& data.len() >= 12 && is_key_exchange(data)
            &&& match key {
                Some(k) => key_in_text(utf8_lossy(data)) == Some(k@),
                None => key_in_text(utf8_lossy(data)) is None,
            }
        },
        MediaPacket::Sound => is_pcmu(data) && !is_key_exchange(data),
        MediaPacket::Ignored => data.len() < 12 || (!is_pcmu(data) && !is_key_exchange(data)),
    }
}

/// Tells what a packet on a call's media port is.
pub fn classify_media(data: &[u8]) -> (r: MediaPacket)
    ensures
        media_is(data@, r),
{
    if data.len() < 12 {
        return MediaPacket::Ignored;
    }
    if looks_like_key_exchange(data) {
        return MediaPacket::KeyExchange(parse_key_exchange(data));
    }
    if check_pcmu(data) {
        MediaPacket::Sound
    } else {
        MediaPacket::Ignored
    }
}

/// The sequence number, the time stamp and the source of a header.
pub open spec fn header_stream(data: Seq<u8>) -> PcmuStream {
    PcmuStream {
        seq: value16(data[2], data[3]),
        ts: value32(data[4], data[5], data[6], data[7]),
        ssrc: value32(data[8], data[9], data[10], data[11]),
    }
}

/// What the bytes of a packet behind `h` come to where the last sixteen are the
/// tag: nothing where they fail to decrypt.
pub open spec fn opened_behind(
    data: Seq<u8>,
    h: int,
    keys: SrtpKeys,
    out: Option<Seq<u8>>,
) -> bool {
    let s = header_stream(data);
    let sealed = data.subrange(h, data.len() - 16);
    opens(
        keys.rx_key@,
        keys.rx_salt@,
        s.seq,
        s.ts,
        s.ssrc,
        sealed,
        data.skip(data.len() - 16),
        out is Some,
        match out {
            Some(p) => p,
            None => sealed,
        },
    )
}

/// What the payload of a packet comes to. Without encryption it is what stands
/// behind the header. With it the last sixteen bytes are the tag, and the rest
/// is decrypted; nothing comes of a packet without keys, or that fails to decrypt.
pub open spec fn payload_comes_to(
    data: Seq<u8>,
    srtp: bool,
    keys: Option<SrtpKeys>,
    out: Option<Seq<u8>>,
) -> bool {
    match header_len(data) {
        None => out is None,
        Some(h) => if !srtp {
            out == Some(data.skip(h as int))
        } else if data.len() < h + 16 || keys is None {
            out is None
        } else {
            opened_behind(data, h as int, keys->0, out)
        },
    }
}

/// What the payload of a packet comes to where encrypted packets carry the plain
/// twelve bytes of header and at least one byte of sound.
pub open spec fn plain_payload_comes_to(
    data: Seq<u8>,
    srtp: bool,
    keys: Option<SrtpKeys>,
    out: Option<Seq<u8>>,
) -> bool {
    if !srtp {
        payload_comes_to(data, false, keys, out)
    } else if data.len() <= 12 + 16 || keys is None {
        out is None
    } else {
        opened_behind(data, 12, keys->0, out)
    }
}

fn tag_at_end(data: &[u8]) -> (r: [u8; 16])
    requires
        data@.len() >= 16,
    ensures
        r@ == data@.skip(data@.len() - 16),
{
    let len: usize = data.len();
    let from: usize = len - 16;
    let mut r: [u8; 16] = [0u8; 16];
    let mut i: usize = 0;
    while i < 16
        invariant
            i <= 16,
            len == data@.len(),
            from + 16 == len,
            forall|k: int| 0 <= k < i ==> r@[k] == data@[from + k],
        decreases 16 - i,
    {
        r[i] = data[from + i];
        i += 1;
    }
    assert(r@ =~= data@.skip(from as int));
    r
}

/// The bytes of a packet behind `h`, decrypted.
fn open_behind(data: &[u8], h: usize, keys: &SrtpKeys) -> (r: Option<Vec<u8>>)
    requires
        12 <= h,
        h + 16 <= data@.len(),
    ensures
        opened_behind(
            data@,
            h as int,
            *keys,
            match r {
                Some(p) => Some(p@),
                None => None,
            },
        ),
{
    let len: usize = data.len();
    let seq: u16 = read16(data, 2);
    let ts: u32 = read32(data, 4);
    let ssrc: u32 = read32(data, 8);
    let mut payload: Vec<u8> = Vec::new();
    let body = slice_subrange(data, h, len - 16);
    push_bytes(&mut payload, body);
    assert(payload@ =~= data@.subrange(h as int, data@.len() - 16));
    let tag: [u8; 16] = tag_at_end(data);
    match decrypt_rtp_gcm(keys, seq, ts, ssrc, &mut payload, &tag) {
        Ok(_) => Some(payload),
        Err(_) => None,
    }
}

/// The payload of a packet with sound, decrypted where the call is encrypted.
pub fn receive_payload(data: &[u8], srtp_enabled: bool, keys: &Option<SrtpKeys>) -> (r: Option<
    Vec<u8>,
>)
    ensures
        payload_comes_to(
            data@,
            srtp_enabled,
            *keys,
            match r {
                Some(p) => Some(p@),
                None => None,
            },
        ),
{
    if !srtp_enabled {
        return match parse_rtp_payload(data) {
            Some(p) => {
                let mut out: Vec<u8> = Vec::new();
                push_bytes(&mut out, p);
                assert(out@ =~= p@);
                Some(out)
            },
            None => None,
        };
    }
    let h: usize = match rtp_header_len(data) {
        Some(h) => h,
        None => return None,
    };
    let len: usize = data.len();
    if len - h < 16 {
        return None;
    }
    match keys {
        None => None,
        Some(k) => open_behind(data, h, k),
    }
}

/// The payload of a packet with sound where encrypted packets carry a plain
/// header and never an empty payload.
pub fn receive_plain_payload(data: &[u8], srtp_enabled: bool, keys: &Option<SrtpKeys>) -> (r:
    Option<Vec<u8>>)
    ensures
        plain_payload_comes_to(
            data@,
            srtp_enabled,
            *keys,
            match r {
                Some(p) => Some(p@),
                None => None,
            },
        ),
{
    if !srtp_enabled {
        return receive_payload(data, false, keys);
    }
    if data.len() <= 12 + 16 {
        return None;
    }
    match keys {
        None => None,
        Some(k) => open_behind(data, 12, k),
    }
}

// ---------------------------------------------------------------------------
// Laws
// ---------------------------------------------------------------------------

proof fn lemma_mic_header(m: MicStream, keyed: bool, rest: Seq<u8>)
    ensures
        ({
            let data = m.header(keyed) + rest;
            &&& header_len(data) == Some(m.header(keyed).len())
            &&& header_stream(data) == m.stream
            &&& is_pcmu(data)
            &&& m.ed137_enabled ==> packet_fields(data) == Some(
                as_received(mic_fields(m.ed137_ptt_id, keyed)),
            )
        }),
{
    let s = m.stream;
    let first: u8 = if m.ed137_enabled {
        0x90
    } else {
        0x80
    };
    let fixed = fixed_header(first, 0x00, s.seq, s.ts, s.ssrc);
    let data = m.header(keyed) + rest;
    assert(fixed.len() == 12);
    law_header_fields_read_back(s.seq, s.ts);
    law_header_fields_read_back(s.seq, s.ssrc);
    assert forall|i: int| 0 <= i < 12 implies data[i] == fixed[i] by {}
    assert(fixed[2] == be16(s.seq)[0] && fixed[3] == be16(s.seq)[1]);
    assert forall|i: int| 0 <= i < 4 implies fixed[4 + i] == be32(s.ts)[i] by {}
    assert forall|i: int| 0 <= i < 4 implies fixed[8 + i] == be32(s.ssrc)[i] by {}
    assert(fixed[4] == be32(s.ts)[0] && fixed[5] == be32(s.ts)[1] && fixed[6] == be32(s.ts)[2]
        && fixed[7] == be32(s.ts)[3]);
    assert(fixed[8] == be32(s.ssrc)[0] && fixed[9] == be32(s.ssrc)[1] && fixed[10] == be32(
        s.ssrc,
    )[2] && fixed[11] == be32(s.ssrc)[3]);
    assert(data[0] == first);
    if m.ed137_enabled {
        law_packet_round_trip(fixed, mic_fields(m.ed137_ptt_id, keyed), rest);
    }
}

/// Sound reaches the other side as it was sent. A packet of the operator's
/// stream, sent without encryption, gives its payload back; one sent with it
/// does so to a receiver whose keys mirror the sender's.
pub proof fn law_sound_arrives(
    m: MicStream,
    keyed: bool,
    sender: SrtpKeys,
    receiver: SrtpKeys,
    payload: Seq<u8>,
    sealed: Seq<u8>,
    tag: Seq<u8>,
    packet: Seq<u8>,
    out: Option<Seq<u8>>,
)
    requires
        sender.mirrors(receiver),
        payload.len() <= 160,
        tag.len() == 16,
        seals(
            sender.tx_key@,
            sender.tx_salt@,
            m.stream.seq,
            m.stream.ts,
            m.stream.ssrc,
            payload,
            sealed,
            tag,
        ),
        protected_packet(m.srtp_enabled, Some(sender), m.stream, m.header(keyed), payload) == Some(
            packet,
        ),
        payload_comes_to(packet, m.srtp_enabled, Some(receiver), out),
    ensures
        out == Some(payload),
{
    let header = m.header(keyed);
    if m.srtp_enabled {
        assert(packet == header + sealed + tag);
        assert(packet =~= header + (sealed + tag));
        lemma_mic_header(m, keyed, sealed + tag);
        let h = header.len() as int;
        assert(packet.subrange(h, packet.len() - 16) =~= sealed);
        assert(packet.skip(packet.len() - 16) =~= tag);
    } else {
        lemma_mic_header(m, keyed, payload);
        assert(packet.skip(header.len() as int) =~= payload);
    }
}

/// Sound reaches a receiver that knows plain headers only, where the sender sends
/// no signalling and the payload is not empty.
pub proof fn law_plain_sound_arrives(
    m: MicStream,
    keyed: bool,
    sender: SrtpKeys,
    receiver: SrtpKeys,
    payload: Seq<u8>,
    sealed: Seq<u8>,
    tag: Seq<u8>,
    packet: Seq<u8>,
    out: Option<Seq<u8>>,
)
    requires
        !m.ed137_enabled,
        sender.mirrors(receiver),
        0 < payload.len() <= 160,
        tag.len() == 16,
        seals(
            sender.tx_key@,
            sender.tx_salt@,
            m.stream.seq,
            m.stream.ts,
            m.stream.ssrc,
            payload,
            sealed,
            tag,
        ),
        protected_packet(m.srtp_enabled, Some(sender), m.stream, m.header(keyed), payload) == Some(
            packet,
        ),
        plain_payload_comes_to(packet, m.srtp_enabled, Some(receiver), out),
    ensures
        out == Some(payload),
{
    if m.srtp_enabled {
        assert(packet =~= m.header(keyed) + (sealed + tag));
        lemma_mic_header(m, keyed, sealed + tag);
        assert(m.header(keyed).len() == 12);
    }
    law_sound_arrives(m, keyed, sender, receiver, payload, sealed, tag, packet, out);
}

/// The signalling of a packet of the operator's stream tells the other side
/// whether the channel is keyed.
pub proof fn law_signalling_arrives(m: MicStream, keyed: bool, rest: Seq<u8>)
    requires
        m.ed137_enabled,
    ensures
        packet_fields(m.header(keyed) + rest) matches Some(f) && (f.ptt_type != PttType::Off)
            == keyed && f.ptt_id == m.ed137_ptt_id % 64,
{
    lemma_mic_header(m, keyed, rest);
}

/// A bridge that is looked after each second never goes five seconds without a
/// packet: where it needs none yet, it still does not a second later.
pub proof fn law_bridge_link_is_kept(last_activity: u64, now: u64, next: u64)
    requires
        now <= next <= now + 1000,
        elapsed(now, last_activity) < BRIDGE_KEEPALIVE_IDLE_MS,
    ensures
        elapsed(next, last_activity) < 5000,
{
}

/// A call whose operator is silent never goes five seconds without a packet, where
/// its stream is looked after each second.
pub proof fn law_silent_call_is_kept(m: MicStream, now: u64, next: u64)
    requires
        now <= next <= now + 1000,
        !m.is_idle(now),
    ensures
        elapsed(next, m.last_tx_ms) < 5000,
{
}

/// The packets of a stream follow one another without a gap, and all bear its
/// source.
pub proof fn law_stream_is_contiguous(s: PcmuStream, first: nat, second: nat)
    ensures
        s.advanced(first).advanced(second).ts == s.advanced(first + second).ts,
        s.advanced(first).advanced(second).seq == (s.seq + 2) % 0x1_0000,
        s.advanced(first).advanced(second).ssrc == s.ssrc,
{
}

/// No two channels share a source, of those with numbers below 16777216.
pub proof fn law_channel_sources_differ(a: u32, b: u32)
    requires
        a < 0x100_0000,
        b < 0x100_0000,
        channel_source(a) == channel_source(b),
    ensures
        a == b,
{
}

/// The bytes of a packet of a stream: the version, whether it is marked, its number, its
/// time and its source, and then the sound.
#[verifier::rlimit(40)]
#[verifier::spinoff_prover]
pub proof fn law_packet_layout(s: PcmuStream, marked: bool, ulaw: Seq<u8>)
    ensures
        ({
            let p = s.packet(marked, ulaw);
            &&& p.len() == 12 + ulaw.len()
            &&& p[0] == 0x80
            &&& p[1] == (if marked {
                0x80
            } else {
                0x00int
            })
            &&& p[2] * 256 + p[3] == s.seq
            &&& p[4] * 0x100_0000 + p[5] * 0x1_0000 + p[6] * 256 + p[7] == s.ts
            &&& p[8] * 0x100_0000 + p[9] * 0x1_0000 + p[10] * 256 + p[11] == s.ssrc
            &&& p.skip(12) == ulaw
        }),
{
    let second: u8 = if marked {
        0x80
    } else {
        0x00
    };
    let h = fixed_header(0x80, second, s.seq, s.ts, s.ssrc);
    law_header_layout(0x80, second, s.seq, s.ts, s.ssrc);
    let p = s.packet(marked, ulaw);
    assert forall|k: int| 0 <= k < 12 implies p[k] == h[k] by {}
    assert(p.skip(12) =~= ulaw);
}

/// What one side of a bridge sends the other hears: sound comes as it was sent, and a
/// packet without sound is a sign of life.
pub proof fn law_leg_hears_what_was_sent(
    s: PcmuStream,
    marked: bool,
    ulaw: Seq<u8>,
    r: LegPacket,
)
    requires
        leg_comes_to(s.packet(marked, ulaw), r),
    ensures
        ulaw.len() > 0 ==> (r matches LegPacket::Audio(p) && p@ == ulaw),
        ulaw.len() == 0 ==> r is Empty,
{
    law_packet_layout(s, marked, ulaw);
    let p = s.packet(marked, ulaw);
    assert(header_len(p) == Some(12nat));
}

/// A packet that is too short, of another version or of another kind of sound is not
/// heard from a leg.
pub proof fn law_leg_ignores_the_rest(data: Seq<u8>, r: LegPacket)
    requires
        leg_comes_to(data, r),
    ensures
        r is Ignored <==> data.len() < 12 || data[0] / 64 != 2 || data[1] % 128 != 0,
{
}

/// A bridge sends silence once nothing was sent for four seconds, and its peer is heard
/// while less than six have passed since its last packet. A change is announced once:
/// right after it there is nothing to announce.
pub proof fn law_bridge_is_watched(
    now: u64,
    last_activity: u64,
    last_rx: u64,
    announced: Option<bool>,
)
    requires
        last_activity <= now,
        last_rx <= now,
    ensures
        ({
            let tick = tick_of(now, last_activity, last_rx, announced);
            let heard = last_rx != 0 && now - last_rx < 6000;
            &&& tick.send_keepalive <==> now - last_activity >= 4000
            &&& tick.announce matches Some(b) ==> b == heard && announced != Some(b)
            &&& tick.announce is None ==> announced == Some(heard)
            &&& tick_of(now, last_activity, last_rx, Some(heard)).announce is None
            &&& announced == Some(!heard) || announced is None ==> tick.announce == Some(heard)
        }),
{
}

/// A tap goes to the address and the port that are set, from the local port that is set
/// or from any, and only where it is on and both are given.
pub proof fn law_tap_follows_the_settings(
    enabled: bool,
    ip: Seq<char>,
    port: u16,
    local_port: Option<u16>,
)
    ensures
        ({
            let plan = tap_of(enabled, ip, port, local_port);
            &&& plan is Some <==> enabled && port >= 1 && trimmed(ip).len() > 0
            &&& plan matches Some(p) ==> p.0 == ip + ":"@ + decimal(port as nat)
            &&& plan matches Some(p) ==> (local_port matches Some(l) ==> p.1 == "0.0.0.0"@ + ":"@
                + decimal(l as nat))
            &&& plan matches Some(p) ==> (local_port is None ==> p.1 == "0.0.0.0"@ + ":"@
                + decimal(0))
        }),
{
}

/// Dropping the excess leaves no more than may wait, and drops nothing otherwise.
pub proof fn law_excess_is_what_is_too_much(waiting: nat, max: nat)
    ensures
        0 <= excess_of(waiting as int, max as int) <= waiting,
        waiting - excess_of(waiting as int, max as int) <= max,
        excess_of(waiting as int, max as int) > 0 ==> waiting - excess_of(
            waiting as int,
            max as int,
        ) == max,
{
}

/// A channel never hears itself in a group, hears nothing of a group that it is not in,
/// and hears all else that holds sound.
pub proof fn law_group_sound_is_others(source: u32, channel_id: u32, length: nat, member: bool)
    ensures
        !relay_takes(channel_id, channel_id, length, member),
        !relay_takes(source, channel_id, length, false),
        !relay_takes(source, channel_id, 0, member),
        source != channel_id && length > 0 ==> relay_takes(source, channel_id, length, true),
{
}

/// A keyed frame goes out: the recorder, the bridge and the groups get its codes, and the
/// other side a packet whose sound is the same codes; each frame advances the stream by
/// its 160 samples, keyed or not.
#[verifier::rlimit(40)]
#[verifier::spinoff_prover]
pub proof fn law_keyed_frame_goes_out(
    m: MicStream,
    samples: Seq<i16>,
    now_ms: u64,
    keys: Option<SrtpKeys>,
    after: MicStream,
    r: MicStep,
)
    requires
        samples.len() == 160,
        m.steps_to(samples, true, now_ms, keys, after, r),
        !m.srtp_enabled,
    ensures
        r.to_taps matches Some(t) && t@.len() == 160 && (forall|k: int|
            0 <= k < 160 ==> #[trigger] t@[k] == code_of(samples[k] as int)),
        r.to_peer matches Some(p) && is_pcmu(p@) && (header_len(p@) matches Some(h) && p@.skip(
            h as int,
        ) == codes_of(samples)) && header_stream(p@) == m.stream,
        after.last_tx_ms == now_ms,
        after.stream.seq == (m.stream.seq + 1) % 0x1_0000,
        after.stream.ts == (m.stream.ts + 160) % 0x1_0000_0000,
        after.stream.ssrc == m.stream.ssrc,
{
    let codes = codes_of(samples);
    lemma_mic_header(m, true, codes);
    let p = r.to_peer->0@;
    assert(p.skip(m.header(true).len() as int) =~= codes);
    assert forall|k: int| 0 <= k < 160 implies #[trigger] codes[k] == code_of(samples[k] as int) by {
        law_sample_round_trip(samples[k]);
    }
}

/// A frame of an operator who is not keyed goes nowhere, except that after three seconds
/// without a packet the other side gets one without sound.
pub proof fn law_silent_frame_stays(
    m: MicStream,
    samples: Seq<i16>,
    now_ms: u64,
    keys: Option<SrtpKeys>,
    after: MicStream,
    r: MicStep,
)
    requires
        m.steps_to(samples, false, now_ms, keys, after, r),
        !m.srtp_enabled,
        m.last_tx_ms <= now_ms,
    ensures
        r.to_taps is None,
        r.to_peer is Some <==> now_ms - m.last_tx_ms >= 3000,
        r.to_peer matches Some(p) ==> header_len(p@) == Some(p@.len()) && header_stream(p@)
            == m.stream && after.last_tx_ms == now_ms,
        r.to_peer is None ==> after.last_tx_ms == m.last_tx_ms,
        after.stream.seq == (m.stream.seq + 1) % 0x1_0000,
        after.stream.ts == (m.stream.ts + 160) % 0x1_0000_0000,
{
    let none = Seq::<u8>::empty();
    lemma_mic_header(m, false, none);
    assert(m.header(false) + none =~= m.header(false));
}

/// A link to a radio is opened with fifty keyed frames of silence, and any other without.
#[verifier::rlimit(40)]
#[verifier::spinoff_prover]
pub proof fn law_radio_is_opened_with_a_burst(
    m: MicStream,
    sent: u32,
    now_ms: u64,
    keys: Option<SrtpKeys>,
    after: MicStream,
    r: BurstStep,
)
    requires
        m.bursts_to(sent, now_ms, keys, after, r),
    ensures
        r is Done <==> !m.ed137_enabled || sent >= 50,
        !m.ed137_enabled ==> after == m,
        m.ed137_enabled && r is Done ==> after.last_tx_ms == now_ms && after.stream == m.stream,
        r is Frame && !m.srtp_enabled ==> (r matches BurstStep::Frame(Some(p)) && (packet_fields(
            p@,
        ) matches Some(f) && f.ptt_type != PttType::Off) && (header_len(p@) matches Some(h)
            && p@.len() == h + 160 && forall|k: int| h <= k < p@.len() ==> #[trigger] p@[k] == 0xff)),
        r is Frame ==> after.stream.seq == (m.stream.seq + 1) % 0x1_0000 && after.stream.ts == (
        m.stream.ts + 160) % 0x1_0000_0000,
{
    lemma_mic_header(m, true, silence_frame());
}

/// A packet that announces a key is heard as that key, and one with sound as sound: of
/// version two and with the type of its sound zero.
pub proof fn law_media_is_told_apart(data: Seq<u8>, r: MediaPacket)
    requires
        media_is(data, r),
    ensures
        r is Sound <==> data.len() >= 12 && data[0] / 64 == 2 && data[1] % 128 == 0,
        data.len() >= 12 && is_key_exchange(data) ==> r is KeyExchange,
        r matches MediaPacket::KeyExchange(Some(k)) ==> key_in_text(utf8_lossy(data)) == Some(k@),
{
    lemma_key_exchange_is_text(data);
}

/// The source of a channel's sound is its number behind a mark of the gateway.
pub proof fn law_source_tells_the_channel(channel_id: u32)
    requires
        channel_id < 0x100_0000,
    ensures
        channel_source(channel_id) / 0x100_0000 == 0xac,
        channel_source(channel_id) % 0x100_0000 == channel_id,
{
}

/// The operator's stream signals the key and the operator's number, and nothing else: a
/// normal key while it is pressed and none otherwise, no squelch and no other sign.
pub proof fn law_operator_signals_the_key_alone(m: MicStream, keyed: bool, rest: Seq<u8>)
    requires
        m.ed137_enabled,
    ensures
        packet_fields(m.header(keyed) + rest) == Some(
            Ed137Fields {
                ptt_type: if keyed {
                    PttType::Normal
                } else {
                    PttType::Off
                },
                squ: false,
                ptt_id: m.ed137_ptt_id % 64,
                ptt_mute: false,
                ptt_summation: false,
                sct: false,
            },
        ),
{
    lemma_mic_header(m, keyed, rest);
}

/// What a frame sounds like to the other side: each sample comes back with its sign and
/// within half a step of its segment, and silence as silence.
pub proof fn law_frame_is_heard_as_it_was(samples: Seq<i16>, k: int)
    requires
        0 <= k < samples.len(),
        -32635 <= samples[k] <= 32635,
    ensures
        codes_of(samples).len() == samples.len(),
        samples_of(codes_of(samples)).len() == samples.len(),
        samples[k] >= 0 ==> samples_of(codes_of(samples))[k] >= 0,
        samples[k] <= 0 ==> samples_of(codes_of(samples))[k] <= 0,
        -512 <= samples_of(codes_of(samples))[k] - samples[k] <= 512,
        samples[k] == 0 ==> codes_of(samples)[k] == 0xff && samples_of(codes_of(samples))[k] == 0,
{
    law_sample_round_trip(samples[k]);
    law_code_round_trip(codes_of(samples)[k]);
}

/// A tap sends what it is given, as one packet of its stream, and notes the moment; given
/// nothing it sends nothing and notes nothing. To keep its link alive it sends a frame of
/// silence.
pub proof fn law_tap_sends_what_it_is_given(tap: RecordingTap, ulaw: Seq<u8>, now_ms: u64)
    ensures
        ulaw.len() == 0 ==> tap.sent(ulaw, now_ms) == (tap, None::<Seq<u8>>),
        ulaw.len() > 0 ==> {
            let (after, out) = tap.sent(ulaw, now_ms);
            &&& out matches Some(p) && p.len() == 12 + ulaw.len() && p.skip(12) == ulaw && p[0]
                == 0x80 && p[1] == 0 && p[2] * 256 + p[3] == tap.stream.seq
            &&& after.last_activity_ms == now_ms
            &&& after.stream.seq == (tap.stream.seq + 1) % 0x1_0000
            &&& after.stream.ts == (tap.stream.ts + ulaw.len()) % 0x1_0000_0000
            &&& after.stream.ssrc == tap.stream.ssrc
        },
        silence_frame().len() == 160,
        forall|k: int| 0 <= k < 160 ==> #[trigger] silence_frame()[k] == 0xff,
{
    law_packet_layout(tap.stream, false, ulaw);
}

} // verus!
