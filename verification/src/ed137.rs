//! The ED-137 extension of the RTP header, which carries push-to-talk and
//! squelch signalling between voice equipment and radios.
//!
//! An extension is a 16-bit identifier, a 16-bit length in 32-bit words, and
//! that many words. The first edition (identifier `0x0067`) has a word of 32
//! bits; editions A, B and C (identifier `0x0167`) have one of 16 bits, padded to
//! a full word. The later form is sent; both are understood.

use vstd::prelude::*;

verus! {

/// The identifier of the first edition's extension.
pub const ED137_SIG: u16 = 0x0067;

/// The identifier of the extension of editions A, B and C.
pub const ED137B_SIG: u16 = 0x0167;

/// How a transmitter is keyed.
#[derive(Debug, Clone, Copy, PartialEq, Eq, Structural)]
pub enum PttType {
    Off,
    Normal,
    Coupling,
    Priority,
    Emergency,
    Test,
}

impl PttType {
    /// The number that stands for the type on the wire.
    pub open spec fn code(self) -> nat {
        match self {
            PttType::Off => 0,
            PttType::Normal => 1,
            PttType::Coupling => 2,
            PttType::Priority => 3,
            PttType::Emergency => 4,
            PttType::Test => 5,
        }
    }

    /// The type that a number stands for; the unused numbers mean `Off`.
    pub open spec fn of_code(code: nat) -> PttType {
        if code == 1 {
            PttType::Normal
        } else if code == 2 {
            PttType::Coupling
        } else if code == 3 {
            PttType::Priority
        } else if code == 4 {
            PttType::Emergency
        } else if code == 5 {
            PttType::Test
        } else {
            PttType::Off
        }
    }

    /// The type that the low three bits stand for.
    pub fn from_bits(bits: u8) -> (r: PttType)
        ensures
            r == PttType::of_code((bits % 8) as nat),
    {
        match bits % 8 {
            1 => PttType::Normal,
            2 => PttType::Coupling,
            3 => PttType::Priority,
            4 => PttType::Emergency,
            5 => PttType::Test,
            _ => PttType::Off,
        }
    }

    fn to_bits(self) -> (r: u16)
        ensures
            r == self.code(),
    {
        match self {
            PttType::Off => 0,
            PttType::Normal => 1,
            PttType::Coupling => 2,
            PttType::Priority => 3,
            PttType::Emergency => 4,
            PttType::Test => 5,
        }
    }

    /// Whether the transmitter is keyed at all.
    pub fn is_keyed(self) -> (r: bool)
        ensures
            r == (self != PttType::Off),
    {
        match self {
            PttType::Off => false,
            _ => true,
        }
    }
}

/// The fields of an extension's fixed word.
#[derive(Debug, Clone, Copy, PartialEq, Eq, Structural)]
pub struct Ed137Fields {
    pub ptt_type: PttType,
    /// The radio reports a signal.
    pub squ: bool,
    /// Who keys: six bits in editions A, B and C.
    pub ptt_id: u8,
    /// Editions A, B and C only.
    pub ptt_mute: bool,
    /// Editions A, B and C only.
    pub ptt_summation: bool,
    /// Simultaneous call transmissions.
    pub sct: bool,
}

impl Default for Ed137Fields {
    fn default() -> (r: Self)
        ensures
            r == (Ed137Fields {
                ptt_type: PttType::Off,
                squ: false,
                ptt_id: 0,
                ptt_mute: false,
                ptt_summation: false,
                sct: false,
            }),
    {
        Ed137Fields {
            ptt_type: PttType::Off,
            squ: false,
            ptt_id: 0,
            ptt_mute: false,
            ptt_summation: false,
            sct: false,
        }
    }
}

/// A flag as a bit.
pub open spec fn flag(b: bool) -> nat {
    if b {
        1
    } else {
        0
    }
}

/// The 16-bit word of editions A, B and C: from the high end three bits of type,
/// one of squelch, six of identifier, one each of mute, summation and
/// simultaneous calls, and three that are zero.
pub open spec fn word_b(f: Ed137Fields) -> nat {
    f.ptt_type.code() * 8192 + flag(f.squ) * 4096 + (f.ptt_id as nat % 64) * 64 + flag(f.ptt_mute)
        * 32 + flag(f.ptt_summation) * 16 + flag(f.sct) * 8
}

/// The extension with the word of editions A, B and C.
pub open spec fn extension_b(f: Ed137Fields) -> Seq<u8> {
    seq![
        0x01u8,
        0x67u8,
        0u8,
        1u8,
        (word_b(f) / 256) as u8,
        (word_b(f) % 256) as u8,
        0u8,
        0u8,
    ]
}

fn bit(b: bool) -> (r: u16)
    ensures
        r == flag(b),
{
    if b {
        1
    } else {
        0
    }
}

/// Encodes the extension of editions A, B and C: the eight bytes that stand
/// behind the fixed header and its list of sources.
pub fn encode_ed137b(fields: &Ed137Fields) -> (r: [u8; 8])
    ensures
        r@ == extension_b(*fields),
{
    let code: u16 = fields.ptt_type.to_bits();
    let id: u16 = (fields.ptt_id % 64) as u16;
    let word: u16 = code * 8192 + bit(fields.squ) * 4096 + id * 64 + bit(fields.ptt_mute) * 32
        + bit(fields.ptt_summation) * 16 + bit(fields.sct) * 8;
    let out: [u8; 8] = [
        0x01,
        0x67,
        0x00,
        0x01,
        (word / 256) as u8,
        (word % 256) as u8,
        0x00,
        0x00,
    ];
    assert(out@ =~= extension_b(*fields));
    out
}

/// The fields that a word of editions A, B and C holds.
pub open spec fn fields_b(word: nat) -> Ed137Fields {
    Ed137Fields {
        ptt_type: PttType::of_code(word / 8192 % 8),
        squ: word / 4096 % 2 == 1,
        ptt_id: (word / 64 % 64) as u8,
        ptt_mute: word / 32 % 2 == 1,
        ptt_summation: word / 16 % 2 == 1,
        sct: word / 8 % 2 == 1,
    }
}

/// The fields that a word of the first edition holds.
pub open spec fn fields_first(word: nat) -> Ed137Fields {
    Ed137Fields {
        ptt_type: PttType::of_code(word / 0x2000_0000 % 8),
        squ: word / 0x1000_0000 % 2 == 1,
        ptt_id: (word / 0x100_0000 % 16) as u8,
        ptt_mute: false,
        ptt_summation: false,
        sct: word / 0x80_0000 % 2 == 1,
    }
}

/// Decodes the word of editions A, B and C.
pub fn decode_word_b(word: u16) -> (r: Ed137Fields)
    ensures
        r == fields_b(word as nat),
{
    Ed137Fields {
        ptt_type: PttType::from_bits((word / 8192) as u8),
        squ: word / 4096 % 2 == 1,
        ptt_id: (word / 64 % 64) as u8,
        ptt_mute: word / 32 % 2 == 1,
        ptt_summation: word / 16 % 2 == 1,
        sct: word / 8 % 2 == 1,
    }
}

/// Decodes the word of the first edition.
pub fn decode_word_orig(word: u32) -> (r: Ed137Fields)
    ensures
        r == fields_first(word as nat),
{
    Ed137Fields {
        ptt_type: PttType::from_bits((word / 0x2000_0000) as u8),
        squ: word / 0x1000_0000 % 2 == 1,
        ptt_id: (word / 0x100_0000 % 16) as u8,
        ptt_mute: false,
        ptt_summation: false,
        sct: word / 0x80_0000 % 2 == 1,
    }
}

/// Whether the packet has a version 2 header of at least twelve bytes.
pub open spec fn is_rtp(data: Seq<u8>) -> bool {
    data.len() >= 12 && data[0] / 64 == 2
}

/// Whether the header has an extension.
pub open spec fn has_extension(data: Seq<u8>) -> bool {
    data[0] / 16 % 2 == 1
}

/// Where the fixed header and its list of sources end.
pub open spec fn fixed_len(data: Seq<u8>) -> nat {
    12 + (data[0] as nat % 16) * 4
}

/// The length of the extension's data, in bytes.
pub open spec fn extension_len(data: Seq<u8>) -> nat {
    let at = fixed_len(data) as int;
    (data[at + 2] as nat * 256 + data[at + 3] as nat) * 4
}

/// The length of the whole header; nothing where the packet is too short for it
/// or is not of version 2.
pub open spec fn header_len(data: Seq<u8>) -> Option<nat> {
    if !is_rtp(data) {
        None
    } else {
        let fixed = fixed_len(data);
        if !has_extension(data) {
            if data.len() < fixed {
                None
            } else {
                Some(fixed)
            }
        } else if data.len() < fixed + 4 || data.len() < fixed + 4 + extension_len(data) {
            None
        } else {
            Some(fixed + 4 + extension_len(data))
        }
    }
}

/// The length of the RTP header: twelve bytes, the list of sources, and the
/// extension where there is one.
pub fn rtp_header_len(data: &[u8]) -> (r: Option<usize>)
    ensures
        match r {
            Some(n) => header_len(data@) == Some(n as nat) && n <= data@.len(),
            None => header_len(data@) is None,
        },
{
    if data.len() < 12 || data[0] / 64 != 2 {
        return None;
    }
    let fixed: usize = 12 + (data[0] % 16) as usize * 4;
    let mut len: usize = fixed;
    if data[0] / 16 % 2 == 1 {
        if data.len() < fixed + 4 {
            return None;
        }
        let words: usize = data[fixed + 2] as usize * 256 + data[fixed + 3] as usize;
        len = fixed + 4 + words * 4;
    }
    if data.len() < len {
        return None;
    }
    Some(len)
}

/// The fields of the ED-137 extension of a packet; nothing where it has no
/// extension, one of another kind, or one that does not fit.
pub open spec fn packet_fields(data: Seq<u8>) -> Option<Ed137Fields> {
    if !is_rtp(data) || !has_extension(data) {
        None
    } else {
        let at = fixed_len(data) as int;
        if data.len() < at + 4 || data.len() < at + 4 + extension_len(data) {
            None
        } else {
            let sig = data[at] * 256 + data[at + 1];
            if sig == ED137B_SIG && extension_len(data) >= 2 {
                Some(fields_b((data[at + 4] * 256 + data[at + 5]) as nat))
            } else if sig == ED137_SIG && extension_len(data) >= 4 {
                Some(
                    fields_first(
                        (data[at + 4] * 0x100_0000 + data[at + 5] * 0x1_0000 + data[at + 6] * 256
                            + data[at + 7]) as nat,
                    ),
                )
            } else {
                None
            }
        }
    }
}

/// Finds and decodes the ED-137 extension of a packet.
pub fn parse_rtp_ed137(data: &[u8]) -> (r: Option<Ed137Fields>)
    ensures
        r == packet_fields(data@),
{
    if data.len() < 12 || data[0] / 64 != 2 {
        return None;
    }
    if data[0] / 16 % 2 != 1 {
        return None;
    }
    let at: usize = 12 + (data[0] % 16) as usize * 4;
    if data.len() < at + 4 {
        return None;
    }
    let sig: u16 = data[at] as u16 * 256 + data[at + 1] as u16;
    let words: usize = data[at + 2] as usize * 256 + data[at + 3] as usize;
    let ext_len: usize = words * 4;
    if data.len() < at + 4 + ext_len {
        return None;
    }
    if sig == ED137B_SIG {
        if ext_len < 2 {
            return None;
        }
        let word: u16 = data[at + 4] as u16 * 256 + data[at + 5] as u16;
        Some(decode_word_b(word))
    } else if sig == ED137_SIG {
        if ext_len < 4 {
            return None;
        }
        let word: u32 = data[at + 4] as u32 * 0x100_0000 + data[at + 5] as u32 * 0x1_0000 + data[at
            + 6] as u32 * 256 + data[at + 7] as u32;
        Some(decode_word_orig(word))
    } else {
        None
    }
}

/// The fields as they arrive: the identifier keeps its low six bits.
pub open spec fn as_received(f: Ed137Fields) -> Ed137Fields {
    Ed137Fields { ptt_id: f.ptt_id % 64, ..f }
}

proof fn lemma_word_parts(c: nat, s: nat, i: nat, m: nat, u: nat, t: nat)
    requires
        c < 8,
        s < 2,
        i < 64,
        m < 2,
        u < 2,
        t < 2,
    ensures
        ({
            let w = c * 8192 + s * 4096 + i * 64 + m * 32 + u * 16 + t * 8;
            &&& w < 65536
            &&& w / 8192 % 8 == c
            &&& w / 4096 % 2 == s
            &&& w / 64 % 64 == i
            &&& w / 32 % 2 == m
            &&& w / 16 % 2 == u
            &&& w / 8 % 2 == t
        }),
{
    let w = c * 8192 + s * 4096 + i * 64 + m * 32 + u * 16 + t * 8;
    assert(w / 8192 == c);
    assert(w / 4096 == c * 2 + s);
    assert(w / 64 == c * 128 + s * 64 + i);
    assert(w / 32 == c * 256 + s * 128 + i * 2 + m);
    assert(w / 16 == c * 512 + s * 256 + i * 4 + m * 2 + u);
    assert(w / 8 == c * 1024 + s * 512 + i * 8 + m * 4 + u * 2 + t);
    assert((c * 2 + s) % 2 == s);
    assert((c * 128 + s * 64 + i) % 64 == i);
}

/// What the word of editions A, B and C carries is what it was made of.
pub proof fn law_word_round_trip(f: Ed137Fields)
    ensures
        word_b(f) < 65536,
        fields_b(word_b(f)) == as_received(f),
{
    lemma_word_parts(
        f.ptt_type.code(),
        flag(f.squ),
        f.ptt_id as nat % 64,
        flag(f.ptt_mute),
        flag(f.ptt_summation),
        flag(f.sct),
    );
}

/// A packet with an encoded extension behind its header, whatever follows it,
/// decodes to the fields that were encoded, and its payload begins behind the
/// extension.
pub proof fn law_packet_round_trip(header: Seq<u8>, f: Ed137Fields, payload: Seq<u8>)
    requires
        is_rtp(header),
        has_extension(header),
        header.len() == fixed_len(header),
    ensures
        packet_fields(header + extension_b(f) + payload) == Some(as_received(f)),
        header_len(header + extension_b(f) + payload) == Some((header.len() + 8) as nat),
{
    law_word_round_trip(f);
    let ext = extension_b(f);
    let data = header + ext + payload;
    let at = header.len() as int;
    assert(data[0] == header[0]);
    assert forall|i: int| 0 <= i < 8 implies data[at + i] == ext[i] by {}
    assert(data[at] == 1 && data[at + 1] == 0x67 && data[at + 2] == 0 && data[at + 3] == 1);
    assert(data[at + 4] * 256 + data[at + 5] == word_b(f)) by {
        assert(data[at + 4] == ext[4] && data[at + 5] == ext[5]);
    }
}

proof fn lemma_word_bits(hi: u8, lo: u8, w: u32)
    by (bit_vector)
    requires
        w == hi * 256 + lo,
    ensures
        w / 8192 % 8 == hi / 32,
        w / 4096 % 2 == hi / 16 % 2,
        w / 64 % 64 == hi % 16 * 4 + lo / 64,
        w / 32 % 2 == lo / 32 % 2,
        w / 16 % 2 == lo / 16 % 2,
        w / 8 % 2 == lo / 8 % 2,
{
}

proof fn lemma_first_word_bits(hi: u8, lo: u8, third: u8, fourth: u8, w: u32)
    by (bit_vector)
    requires
        w == hi * 0x100_0000 + lo * 0x1_0000 + third * 256 + fourth,
    ensures
        w / 0x2000_0000 % 8 == hi / 32,
        w / 0x1000_0000 % 2 == hi / 16 % 2,
        w / 0x100_0000 % 16 == hi % 16,
        w / 0x80_0000 % 2 == lo / 128,
{
}

proof fn lemma_laid_out(t: u32, s: u32, id: u32, m: u32, a: u32, c: u32, w: u32)
    by (bit_vector)
    requires
        t <= 5,
        s <= 1,
        id < 64,
        m <= 1,
        a <= 1,
        c <= 1,
        w == t * 8192 + s * 4096 + id * 64 + m * 32 + a * 16 + c * 8,
    ensures
        w < 65536,
        w / 256 / 32 == t,
        w / 256 / 16 % 2 == s,
        w / 256 % 16 * 4 + w % 256 / 64 == id,
        w % 256 / 32 % 2 == m,
        w % 256 / 16 % 2 == a,
        w % 256 / 8 % 2 == c,
        w % 256 % 8 == 0,
{
}

/// The signalling by its bytes. In the edition that is sent, the first byte holds the
/// type in its upper three bits, the squelch in the next and the upper four bits of the
/// number below; the second holds the lower two, then whether the operator is muted, heard
/// in a sum and transmitting by sect. In the first edition the number is the lower four
/// bits of the first byte.
#[verifier::rlimit(40)]
#[verifier::spinoff_prover]
pub proof fn law_signalling_bits(hi: u8, lo: u8, third: u8, fourth: u8)
    ensures
        ({
            let f = fields_b((hi * 256 + lo) as nat);
            let g = fields_first(
                (hi * 0x100_0000 + lo * 0x1_0000 + third * 256 + fourth) as nat,
            );
            &&& hi / 32 <= 5 ==> f.ptt_type.code() == hi / 32 && g.ptt_type.code() == hi / 32
            &&& hi / 32 > 5 ==> f.ptt_type == PttType::Off && g.ptt_type == PttType::Off
            &&& f.squ == (hi / 16 % 2 == 1) && g.squ == (hi / 16 % 2 == 1)
            &&& f.ptt_id == hi % 16 * 4 + lo / 64
            &&& g.ptt_id == hi % 16
            &&& f.ptt_mute == (lo / 32 % 2 == 1)
            &&& f.ptt_summation == (lo / 16 % 2 == 1)
            &&& f.sct == (lo / 8 % 2 == 1)
            &&& g.sct == (lo / 128 == 1)
            &&& !g.ptt_mute && !g.ptt_summation
        }),
        PttType::Off.code() == 0,
        PttType::Normal.code() == 1,
        PttType::Coupling.code() == 2,
        PttType::Priority.code() == 3,
        PttType::Emergency.code() == 4,
        PttType::Test.code() == 5,
{
    let w = (hi * 256 + lo) as u32;
    let v = (hi * 0x100_0000 + lo * 0x1_0000 + third * 256 + fourth) as u32;
    lemma_word_bits(hi, lo, w);
    lemma_first_word_bits(hi, lo, third, fourth, v);
    assert(w as nat == (hi * 256 + lo) as nat);
    assert(v as nat == (hi * 0x100_0000 + lo * 0x1_0000 + third * 256 + fourth) as nat);
}

/// The signalling as it is sent: the mark of the edition, one word, and in it the type,
/// the squelch, the number and the three other bits, each at its place.
#[verifier::rlimit(40)]
#[verifier::spinoff_prover]
pub proof fn law_signalling_is_laid_out(f: Ed137Fields)
    ensures
        ({
            let e = extension_b(f);
            &&& e.len() == 8
            &&& e[0] == 0x01 && e[1] == 0x67 && e[2] == 0 && e[3] == 1
            &&& e[4] / 32 == f.ptt_type.code()
            &&& (e[4] / 16 % 2 == 1) == f.squ
            &&& e[4] % 16 * 4 + e[5] / 64 == f.ptt_id % 64
            &&& (e[5] / 32 % 2 == 1) == f.ptt_mute
            &&& (e[5] / 16 % 2 == 1) == f.ptt_summation
            &&& (e[5] / 8 % 2 == 1) == f.sct
            &&& e[5] % 8 == 0
            &&& e[6] == 0 && e[7] == 0
        }),
{
    let w = word_b(f) as u32;
    lemma_laid_out(
        f.ptt_type.code() as u32,
        flag(f.squ) as u32,
        (f.ptt_id % 64) as u32,
        flag(f.ptt_mute) as u32,
        flag(f.ptt_summation) as u32,
        flag(f.sct) as u32,
        w,
    );
}

/// Where the sound of a packet begins: behind twelve bytes, four for each source that is
/// listed, and an extension with as many words as its length tells. A packet that is too
/// short for it, or of another version, has none.
#[verifier::rlimit(40)]
#[verifier::spinoff_prover]
pub proof fn law_sound_begins_behind_the_header(data: Seq<u8>)
    requires
        data.len() >= 12,
    ensures
        ({
            let fixed = 12 + 4 * (data[0] % 16);
            let words = data[fixed + 2] * 256 + data[fixed + 3];
            let extended = data[0] / 16 % 2 == 1;
            let whole = if extended {
                fixed + 4 + 4 * words
            } else {
                fixed
            };
            &&& data[0] / 64 != 2 ==> header_len(data) is None
            &&& data[0] / 64 == 2 && data.len() >= whole && (extended ==> data.len() >= fixed + 4)
                ==> header_len(data) == Some(whole as nat)
            &&& data.len() < whole || (extended && data.len() < fixed + 4) ==> header_len(data)
                is None
        }),
{
}

} // verus!
