//! What comes of a packet on a call's media port: what it signals, and where its
//! sound goes.

use crate::crypto::{
    is_key_exchange, key_in_text, lemma_key_exchange_is_text, utf8_lossy, SrtpKeys,
};
use crate::dispatch::shares_mirror;
use crate::ed137::{
    extension_b, fixed_len, has_extension, header_len, is_rtp, law_packet_round_trip, packet_fields,
    parse_rtp_ed137, Ed137Fields, PttType,
};
use crate::stream::{
    classify_media, is_pcmu, payload_comes_to, plain_payload_comes_to, receive_payload,
    receive_plain_payload, MediaPacket,
};
use vstd::prelude::*;

verus! {

/// How much a gateway makes of the media of its calls.
#[derive(Debug, Clone, Copy, PartialEq, Eq, Structural)]
pub enum MediaMode {
    /// Signalling is read, and the sound goes to legs and groups too.
    Full,
    /// The sound is played. Encrypted packets carry a plain header, and keys are
    /// heard of only where the call is encrypted.
    Plain,
}

/// One step of what is done with a packet.
#[derive(Debug, Clone, Copy, PartialEq, Eq)]
pub enum MediaStep {
    /// Hands the key that the other side announces to the key exchange.
    HearKey { key: [u8; 32] },
    /// Notes what the other side signals.
    Signal { squelch: bool, keyed: bool },
    /// Sends the sound to the recorder.
    Record,
    /// Sends the sound to the bridge.
    Bridge,
    /// Puts the sound on the buses of the groups, and sends it to their outside
    /// parties where `share` says so.
    Publish { share: bool },
    /// Plays the sound.
    Play,
}

/// A step as a value.
pub ghost enum MediaStepView {
    HearKey { key: Seq<u8> },
    Signal { squelch: bool, keyed: bool },
    Record,
    Bridge,
    Publish { share: bool },
    Play,
}

impl View for MediaStep {
    type V = MediaStepView;

    open spec fn view(&self) -> MediaStepView {
        match *self {
            MediaStep::HearKey { key } => MediaStepView::HearKey { key: key@ },
            MediaStep::Signal { squelch, keyed } => MediaStepView::Signal { squelch, keyed },
            MediaStep::Record => MediaStepView::Record,
            MediaStep::Bridge => MediaStepView::Bridge,
            MediaStep::Publish { share } => MediaStepView::Publish { share },
            MediaStep::Play => MediaStepView::Play,
        }
    }
}

/// The views of a list of steps.
pub open spec fn step_views(s: Seq<MediaStep>) -> Seq<MediaStepView> {
    s.map_values(|x: MediaStep| x@)
}

/// What is done with a packet, in turn, and its sound.
pub struct Reception {
    pub steps: Vec<MediaStep>,
    /// The codes of the sound.
    pub sound: Option<Vec<u8>>,
}

impl Reception {
    /// The codes of the sound as a value.
    pub open spec fn heard(self) -> Option<Seq<u8>> {
        match self.sound {
            Some(p) => Some(p@),
            None => None,
        }
    }
}

/// Whether a packet is one with sound.
pub open spec fn is_sound(data: Seq<u8>) -> bool {
    is_pcmu(data) && !is_key_exchange(data)
}

/// What the sound of a packet comes to: nothing where it is no packet with sound, or
/// cannot be made out.
pub open spec fn sound_comes_to(
    data: Seq<u8>,
    mode: MediaMode,
    srtp: bool,
    keys: Option<SrtpKeys>,
    out: Option<Seq<u8>>,
) -> bool {
    if !is_sound(data) {
        out is None
    } else if mode is Full {
        payload_comes_to(data, srtp, keys, out)
    } else {
        plain_payload_comes_to(data, srtp, keys, out)
    }
}

/// What is done with the key of a packet.
pub open spec fn key_steps(data: Seq<u8>, mode: MediaMode, srtp: bool) -> Seq<MediaStepView> {
    if data.len() >= 12 && is_key_exchange(data) && (mode is Full || srtp) {
        match key_in_text(utf8_lossy(data)) {
            Some(key) => seq![MediaStepView::HearKey { key }],
            None => Seq::empty(),
        }
    } else {
        Seq::empty()
    }
}

/// What is done with the signalling of a packet.
pub open spec fn signal_steps(data: Seq<u8>, mode: MediaMode) -> Seq<MediaStepView> {
    if is_sound(data) && mode is Full {
        match packet_fields(data) {
            Some(f) => seq![
                MediaStepView::Signal { squelch: f.squ, keyed: f.ptt_type != PttType::Off },
            ],
            None => Seq::empty(),
        }
    } else {
        Seq::empty()
    }
}

/// Where the sound of a packet goes. The recorder, the bridge and the outside parties
/// of the groups, which both directions of a call share, hear it while the operator
/// is silent; the other members of the groups and the speaker always.
pub open spec fn sound_steps(mode: MediaMode, operator_keyed: bool) -> Seq<MediaStepView> {
    if mode is Plain {
        seq![MediaStepView::Play]
    } else if operator_keyed {
        seq![MediaStepView::Publish { share: false }, MediaStepView::Play]
    } else {
        seq![
            MediaStepView::Record,
            MediaStepView::Bridge,
            MediaStepView::Publish { share: true },
            MediaStepView::Play,
        ]
    }
}

/// What is done with a packet, in turn.
pub open spec fn reception_steps(
    data: Seq<u8>,
    mode: MediaMode,
    srtp: bool,
    operator_keyed: bool,
    heard: bool,
) -> Seq<MediaStepView> {
    key_steps(data, mode, srtp) + signal_steps(data, mode) + (if heard {
        sound_steps(mode, operator_keyed)
    } else {
        Seq::empty()
    })
}

fn push_sound_steps(steps: &mut Vec<MediaStep>, mode: MediaMode, operator_keyed: bool)
    ensures
        step_views(final(steps)@) == step_views(old(steps)@) + sound_steps(mode, operator_keyed),
{
    let ghost before = steps@;
    if mode == MediaMode::Full {
        let share = shares_mirror(true, operator_keyed);
        if share {
            steps.push(MediaStep::Record);
            steps.push(MediaStep::Bridge);
        }
        steps.push(MediaStep::Publish { share });
    }
    steps.push(MediaStep::Play);
    assert(step_views(steps@) =~= step_views(before) + sound_steps(mode, operator_keyed));
}

/// What is done with a packet on a call's media port. `operator_keyed` tells whether
/// the operator speaks.
pub fn receive(
    data: &[u8],
    mode: MediaMode,
    srtp_enabled: bool,
    keys: &Option<SrtpKeys>,
    operator_keyed: bool,
) -> (r: Reception)
    ensures
        sound_comes_to(data@, mode, srtp_enabled, *keys, r.heard()),
        step_views(r.steps@) == reception_steps(
            data@,
            mode,
            srtp_enabled,
            operator_keyed,
            r.sound is Some,
        ),
{
    let mut steps: Vec<MediaStep> = Vec::new();
    let mut sound: Option<Vec<u8>> = None;
    assert(step_views(steps@) =~= Seq::<MediaStepView>::empty());
    match classify_media(data) {
        MediaPacket::Ignored => {},
        MediaPacket::KeyExchange(key) => {
            if mode == MediaMode::Full || srtp_enabled {
                if let Some(k) = key {
                    steps.push(MediaStep::HearKey { key: k });
                }
            }
            assert(step_views(steps@) =~= key_steps(data@, mode, srtp_enabled));
        },
        MediaPacket::Sound => {
            if mode == MediaMode::Full {
                if let Some(f) = parse_rtp_ed137(data) {
                    steps.push(
                        MediaStep::Signal { squelch: f.squ, keyed: f.ptt_type.is_keyed() },
                    );
                }
                sound = receive_payload(data, srtp_enabled, keys);
            } else {
                sound = receive_plain_payload(data, srtp_enabled, keys);
            }
            assert(step_views(steps@) =~= signal_steps(data@, mode));
            if sound.is_some() {
                push_sound_steps(&mut steps, mode, operator_keyed);
            }
        },
    }
    let r = Reception { steps, sound };
    assert(step_views(r.steps@) =~= reception_steps(
        data@,
        mode,
        srtp_enabled,
        operator_keyed,
        r.sound is Some,
    ));
    r
}

/// While the operator speaks, nothing that comes in goes to the recorder, the bridge
/// or the outside party of a group: their stream carries one direction at a time.
pub proof fn law_shared_streams_carry_one_direction(
    data: Seq<u8>,
    mode: MediaMode,
    srtp: bool,
    heard: bool,
)
    ensures
        ({
            let steps = reception_steps(data, mode, srtp, true, heard);
            !steps.contains(MediaStepView::Record) && !steps.contains(MediaStepView::Bridge)
                && !steps.contains(MediaStepView::Publish { share: true })
        }),
{
}

/// Sound that is made out is played, last of all, whatever else is done with it.
pub proof fn law_sound_is_played(
    data: Seq<u8>,
    mode: MediaMode,
    srtp: bool,
    operator_keyed: bool,
)
    ensures
        ({
            let steps = reception_steps(data, mode, srtp, operator_keyed, true);
            steps.len() > 0 && steps.last() == MediaStepView::Play
        }),
{
}

// ---------------------------------------------------------------------------
// What a radio signals
// ---------------------------------------------------------------------------

/// A packet of PCMU sound with a header extension that fits: version 2, the bit of
/// the extension, payload type 0, and behind the fixed header and `sources` sources
/// the identifier, the number of words, and the words.
pub open spec fn has_extended_header(data: Seq<u8>, sources: int, id: int, words: int) -> bool {
    let at = 12 + 4 * sources;
    &&& 0 <= sources < 16
    &&& 0 <= words
    &&& data.len() >= at + 4 + 4 * words
    &&& data[0] / 64 == 2
    &&& data[0] / 16 % 2 == 1
    &&& data[0] % 16 == sources
    &&& data[1] % 128 == 0
    &&& data[at] * 256 + data[at + 1] == id
    &&& data[at + 2] * 256 + data[at + 3] == words
}

/// What a radio signals is noted first of all, as the first byte of its word says it,
/// whatever the other bits are: in either form of the word its bit 4 is the squelch,
/// and its three highest bits are the keying, of which 1 to 5 mean that it is keyed.
#[verifier::rlimit(40)]
#[verifier::spinoff_prover]
pub proof fn law_radio_signalling_is_noted(
    data: Seq<u8>,
    sources: int,
    id: int,
    words: int,
    srtp: bool,
    operator_keyed: bool,
    heard: bool,
)
    requires
        has_extended_header(data, sources, id, words),
        id == 0x0167 || id == 0x0067,
        words >= 1,
    ensures
        ({
            let steps = reception_steps(data, MediaMode::Full, srtp, operator_keyed, heard);
            let first = data[12 + 4 * sources + 4];
            &&& steps.len() >= 1
            &&& steps[0] == (MediaStepView::Signal {
                squelch: first / 16 % 2 == 1,
                keyed: 1 <= first / 32 <= 5,
            })
            &&& forall|k: int| 1 <= k < steps.len() ==> !((#[trigger] steps[k]) is Signal)
        }),
{
    lemma_not_a_key(data);
    let at = 12 + 4 * sources;
    assert(fixed_len(data) == at);
    let b4 = data[at + 4] as nat;
    let b5 = data[at + 5] as nat;
    let b6 = data[at + 6] as nat;
    let b7 = data[at + 7] as nat;
    let short = b4 * 256 + b5;
    let long = b4 * 0x100_0000 + b5 * 0x1_0000 + b6 * 256 + b7;
    assert(short / 4096 == b4 / 16 && short / 8192 == b4 / 32);
    assert(long / 0x1000_0000 == b4 / 16 && long / 0x2000_0000 == b4 / 32);
    assert(is_pcmu(data));
    let fields = packet_fields(data);
    assert(fields is Some);
    assert(fields->0.squ == (b4 / 16 % 2 == 1));
    assert((fields->0.ptt_type != PttType::Off) == (1 <= b4 / 32 <= 5));
    assert(key_steps(data, MediaMode::Full, srtp) =~= Seq::<MediaStepView>::empty());
}

/// What one side encodes the other notes: a packet with an encoded extension signals
/// the squelch that was encoded, and that it is keyed where the keying is not off.
#[verifier::rlimit(40)]
#[verifier::spinoff_prover]
pub proof fn law_encoded_signalling_is_noted(
    header: Seq<u8>,
    f: Ed137Fields,
    payload: Seq<u8>,
    srtp: bool,
    operator_keyed: bool,
    heard: bool,
)
    requires
        is_rtp(header),
        has_extension(header),
        header.len() == fixed_len(header),
        header[1] % 128 == 0,
    ensures
        ({
            let steps = reception_steps(
                header + extension_b(f) + payload,
                MediaMode::Full,
                srtp,
                operator_keyed,
                heard,
            );
            steps.len() >= 1 && steps[0] == (MediaStepView::Signal {
                squelch: f.squ,
                keyed: f.ptt_type != PttType::Off,
            })
        }),
{
    let data = header + extension_b(f) + payload;
    law_packet_round_trip(header, f, payload);
    assert(data[0] == header[0] && data[1] == header[1]);
    lemma_not_a_key(data);
    assert(is_pcmu(data));
    assert(key_steps(data, MediaMode::Full, srtp) =~= Seq::<MediaStepView>::empty());
}

proof fn lemma_not_a_key(data: Seq<u8>)
    requires
        data.len() >= 1,
        data[0] / 64 == 2,
    ensures
        !is_key_exchange(data),
{
    lemma_key_exchange_is_text(data);
}

/// A packet without an extension signals nothing, and a gateway that makes little of
/// its media never notes a signal.
pub proof fn law_nothing_is_noted_without_a_signal(
    data: Seq<u8>,
    mode: MediaMode,
    srtp: bool,
    operator_keyed: bool,
    heard: bool,
)
    requires
        mode is Plain || data.len() == 0 || data[0] / 16 % 2 == 0,
    ensures
        forall|k: int|
            0 <= k < reception_steps(data, mode, srtp, operator_keyed, heard).len() ==> !((
            #[trigger] reception_steps(data, mode, srtp, operator_keyed, heard)[k]) is Signal),
{
}

// ---------------------------------------------------------------------------
// Where sound goes
// ---------------------------------------------------------------------------

/// The sound of a packet without encryption is what stands behind its header, and it
/// is played.
pub proof fn law_plain_sound_is_heard(
    header: Seq<u8>,
    payload: Seq<u8>,
    mode: MediaMode,
    keys: Option<SrtpKeys>,
    operator_keyed: bool,
    out: Option<Seq<u8>>,
)
    requires
        header.len() == 12,
        header[0] == 0x80,
        header[1] % 128 == 0,
        sound_comes_to(header + payload, mode, false, keys, out),
    ensures
        out == Some(payload),
        reception_steps(header + payload, mode, false, operator_keyed, out is Some).contains(
            MediaStepView::Play,
        ),
{
    let data = header + payload;
    assert(data[0] == 0x80 && data[1] == header[1]);
    lemma_not_a_key(data);
    assert(is_pcmu(data));
    assert(header_len(data) == Some(12nat));
    assert(data.skip(12) =~= payload);
    law_sound_is_played(data, mode, false, operator_keyed);
    let steps = reception_steps(data, mode, false, operator_keyed, true);
    assert(steps[steps.len() - 1] == MediaStepView::Play);
}

/// In a gateway that makes much of its media, sound that is made out goes to the
/// recorder and to the bridge exactly while the operator is silent, always to the
/// groups, and to their outside parties exactly while the operator is silent; each
/// once. Sound that is not made out goes nowhere.
pub proof fn law_legs_hear_the_silent_operator(
    data: Seq<u8>,
    srtp: bool,
    operator_keyed: bool,
    heard: bool,
)
    ensures
        ({
            let steps = reception_steps(data, MediaMode::Full, srtp, operator_keyed, heard);
            &&& steps.contains(MediaStepView::Record) == (heard && !operator_keyed)
            &&& steps.contains(MediaStepView::Bridge) == (heard && !operator_keyed)
            &&& steps.contains(MediaStepView::Publish { share: true }) == (heard
                && !operator_keyed)
            &&& steps.contains(MediaStepView::Publish { share: false }) == (heard
                && operator_keyed)
            &&& steps.contains(MediaStepView::Play) == heard
            &&& steps.no_duplicates()
        }),
{
    let first = key_steps(data, MediaMode::Full, srtp) + signal_steps(data, MediaMode::Full);
    let sound = sound_steps(MediaMode::Full, operator_keyed);
    let steps = reception_steps(data, MediaMode::Full, srtp, operator_keyed, heard);
    let n = first.len() as int;
    if heard {
        assert(steps =~= first + sound);
        assert(forall|k: int| 0 <= k < sound.len() ==> steps[n + k] == #[trigger] sound[k]);
        assert(sound[sound.len() - 1] == MediaStepView::Play);
        if operator_keyed {
            assert(sound[0] == (MediaStepView::Publish { share: false }));
        } else {
            assert(sound[0] == MediaStepView::Record && sound[1] == MediaStepView::Bridge
                && sound[2] == (MediaStepView::Publish { share: true }));
        }
    } else {
        assert(steps =~= first);
    }
}

/// A packet that announces a key is heard as that key and nothing else, on every call that
/// is encrypted and on every full one.
pub proof fn law_announced_key_is_heard(
    data: Seq<u8>,
    mode: MediaMode,
    srtp: bool,
    operator_keyed: bool,
    key: Seq<u8>,
    heard: bool,
)
    requires
        data.len() >= 12,
        is_key_exchange(data),
        key_in_text(utf8_lossy(data)) == Some(key),
        !heard,
    ensures
        mode == MediaMode::Full || srtp ==> reception_steps(
            data,
            mode,
            srtp,
            operator_keyed,
            heard,
        ) == seq![MediaStepView::HearKey { key }],
        mode != MediaMode::Full && !srtp ==> reception_steps(
            data,
            mode,
            srtp,
            operator_keyed,
            heard,
        ).len() == 0,
{
    lemma_key_exchange_is_text(data);
    let steps = reception_steps(data, mode, srtp, operator_keyed, heard);
    assert(signal_steps(data, mode).len() == 0);
    if mode == MediaMode::Full || srtp {
        assert(steps =~= seq![MediaStepView::HearKey { key }]);
    }
}

} // verus!
