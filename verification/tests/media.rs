use aquilla::crypto::{split_key_material, SecureChannelContext, SrtpKeys};
use aquilla::ed137::{parse_rtp_ed137, PttType};
use aquilla::jitter::{AdaptiveJitterBuffer, JitterStep};
use aquilla::reception::{receive, MediaMode, MediaStep};
use aquilla::rtp::{parse_rtp_payload, push_be16, push_be32, read16, read32, start_packet};
use aquilla::stream::{
    bridge_tick, channel_rtp_ssrc, classify_media, decode_frame, encode_frame, max_queue_samples,
    now_millis, plan_tap, queue_excess, rand_u32, rand_u64, receive_leg, receive_payload, receive_plain_payload,
    relay_accepts, silence, BridgeTick, BurstStep, LegPacket, MediaPacket, MicStream, PcmuStream,
    RecordingTap,
};
use aquilla::ulaw::{frame_peak, linear_to_ulaw, ulaw_to_linear};
use std::collections::VecDeque;

fn key_pair() -> (SrtpKeys, SrtpKeys) {
    let mut okm = [0u8; 88];
    for i in 0..88 {
        okm[i] = 3 * i as u8;
    }
    (split_key_material(&okm, true), split_key_material(&okm, false))
}

fn mic(srtp: bool, ed137: bool) -> MicStream {
    MicStream {
        stream: PcmuStream { seq: 0x0102, ts: 0x0a0b0c0d, ssrc: 0xac000003 },
        srtp_enabled: srtp,
        ed137_enabled: ed137,
        ed137_ptt_id: 9,
        last_tx_ms: 1000,
    }
}

#[test]
fn samples_have_known_codes() {
    assert_eq!(linear_to_ulaw(0), 0xff);
    assert_eq!(linear_to_ulaw(-1), 0x7f);
    assert_eq!(linear_to_ulaw(32767), 0x80);
    assert_eq!(linear_to_ulaw(-32767), 0x00);
    assert_eq!(linear_to_ulaw(-32768), 0x00);
    assert_eq!(encode_frame(&[-32768, 0, 32767]), vec![0x00, 0xff, 0x80]);
    assert_eq!(linear_to_ulaw(1000), 0xce);
    assert_eq!(ulaw_to_linear(0xff), 0);
    assert_eq!(ulaw_to_linear(0x80), 32124);
    assert_eq!(ulaw_to_linear(0x00), -32124);
}

#[test]
fn codes_are_kept_by_decoding_and_encoding() {
    for code in 0..=255u8 {
        if code != 0x7f {
            assert_eq!(linear_to_ulaw(ulaw_to_linear(code)), code);
        }
    }
    assert_eq!(linear_to_ulaw(ulaw_to_linear(0x7f)), 0xff);
}

#[test]
fn frames_are_coded_sample_by_sample() {
    let frame = vec![0i16, 1000, -1000, 32767];
    let codes = encode_frame(&frame);
    assert_eq!(codes, vec![0xff, 0xce, 0x4e, 0x80]);
    assert_eq!(decode_frame(&codes), codes.iter().map(|&c| ulaw_to_linear(c)).collect::<Vec<_>>());
    assert_eq!(silence(), vec![0xffu8; 160]);
    assert_eq!(frame_peak(&[3, -70, 60]), 70);
    assert_eq!(frame_peak(&[]), 0);
}

#[test]
fn headers_are_big_endian() {
    let mut v = Vec::new();
    push_be16(&mut v, 0x1234);
    push_be32(&mut v, 0x56789abc);
    assert_eq!(v, vec![0x12, 0x34, 0x56, 0x78, 0x9a, 0xbc]);
    assert_eq!(read16(&v, 0), 0x1234);
    assert_eq!(read32(&v, 2), 0x56789abc);
    assert_eq!(
        start_packet(0x80, 0x00, 1, 2, 3),
        vec![0x80, 0, 0, 1, 0, 0, 0, 2, 0, 0, 0, 3]
    );
}

#[test]
fn payload_stands_behind_the_header() {
    let mut packet = start_packet(0x80, 0x00, 1, 2, 3);
    packet.extend_from_slice(&[9, 8, 7]);
    assert_eq!(parse_rtp_payload(&packet), Some(&[9u8, 8, 7][..]));
    packet[0] = 0x40;
    assert_eq!(parse_rtp_payload(&packet), None);
    assert_eq!(parse_rtp_payload(&[0x80; 11]), None);
}

#[test]
fn streams_count_packets_and_samples() {
    let mut s = PcmuStream { seq: 0xffff, ts: 0xffff_ff9c, ssrc: 7 };
    let p = s.next_packet(true, &[1, 2, 3]);
    assert_eq!(p, vec![0x80, 0x80, 0xff, 0xff, 0xff, 0xff, 0xff, 0x9c, 0, 0, 0, 7, 1, 2, 3]);
    assert_eq!(s.seq, 0);
    assert_eq!(s.ts, 0xffff_ff9f);
    let p = s.next_packet(false, &[4; 160]);
    assert_eq!(p[1], 0);
    assert_eq!(s.ts, 0x3f);
}

#[test]
fn clock_readings_are_cut() {
    assert_eq!(rand_u32(0x1_0000_0005), 5);
    assert_eq!(rand_u64(0x1_0000_0000_0000_0005), 5);
    assert_eq!(now_millis(Some(12)), 12);
    assert_eq!(now_millis(None), 0);
    assert_eq!(channel_rtp_ssrc(12), 0xac00_000c);
    assert_ne!(channel_rtp_ssrc(1), channel_rtp_ssrc(2));
}

#[test]
fn taps_are_planned() {
    let plan = plan_tap(true, "10.0.0.9", 5004, None).unwrap();
    assert_eq!(plan.bind_addr, "0.0.0.0:0");
    assert_eq!(plan.dest, "10.0.0.9:5004");
    assert_eq!(plan_tap(true, "10.0.0.9", 5004, Some(8004)).unwrap().bind_addr, "0.0.0.0:8004");
    assert!(plan_tap(false, "10.0.0.9", 5004, None).is_none());
    assert!(plan_tap(true, "10.0.0.9", 0, None).is_none());
    assert!(plan_tap(true, " \t", 5004, None).is_none());
}

#[test]
fn taps_pass_sound_and_silence_on() {
    let mut tap = RecordingTap {
        stream: PcmuStream { seq: 1, ts: 100, ssrc: 5 },
        last_activity_ms: 10,
    };
    assert_eq!(tap.send_ulaw(&[], 99), None);
    assert_eq!(tap.last_activity_ms, 10);
    let p = tap.send_ulaw(&[1, 2], 99).unwrap();
    assert_eq!(p, vec![0x80, 0, 0, 1, 0, 0, 0, 100, 0, 0, 0, 5, 1, 2]);
    assert_eq!(tap.last_activity_ms, 99);
    let p = tap.send_keepalive_silence(5000);
    assert_eq!(p.len(), 172);
    assert_eq!(&p[4..8], &[0, 0, 0, 102]);
    assert_eq!(tap.stream.ts, 262);
    assert_eq!(tap.stream.seq, 3);
}

#[test]
fn bridges_are_watched() {
    let quiet = bridge_tick(10_000, 6_000, 9_000, Some(true));
    assert_eq!(quiet, BridgeTick { send_keepalive: true, announce: None });
    let gone = bridge_tick(10_000, 9_999, 4_000, Some(true));
    assert_eq!(gone, BridgeTick { send_keepalive: false, announce: Some(false) });
    let never = bridge_tick(10_000, 9_999, 0, None);
    assert_eq!(never.announce, Some(false));
    let back = bridge_tick(10_000, 9_999, 4_001, Some(false));
    assert_eq!(back.announce, Some(true));
}

#[test]
fn leg_packets_are_told_apart() {
    let mut packet = start_packet(0x80, 0x00, 1, 2, 3);
    assert!(matches!(receive_leg(&packet), LegPacket::Empty));
    packet.push(0x55);
    match receive_leg(&packet) {
        LegPacket::Audio(p) => assert_eq!(p, vec![0x55]),
        _ => panic!("sound"),
    }
    packet[1] = 8;
    assert!(matches!(receive_leg(&packet), LegPacket::Ignored));
    assert!(matches!(receive_leg(&[0x80; 5]), LegPacket::Ignored));
}

#[test]
fn secondary_queues_are_bounded() {
    assert_eq!(max_queue_samples(48000), 24000);
    assert_eq!(queue_excess(24010, 24000), 10);
    assert_eq!(queue_excess(5, 24000), 0);
    assert!(relay_accepts(0, 3, 160, true));
    assert!(!relay_accepts(3, 3, 160, true));
    assert!(!relay_accepts(2, 3, 0, true));
    assert!(!relay_accepts(2, 3, 160, false));
}

#[test]
fn keyed_sound_goes_out_plain() {
    let mut m = mic(false, false);
    let step = m.step(&[1000i16; 160], true, 2000, &None);
    let packet = step.to_peer.unwrap();
    assert_eq!(&packet[..12], &[0x80, 0, 1, 2, 0x0a, 0x0b, 0x0c, 0x0d, 0xac, 0, 0, 3]);
    assert_eq!(&packet[12..], &[0xceu8; 160][..]);
    assert_eq!(step.to_taps.unwrap(), vec![0xceu8; 160]);
    assert_eq!(m.last_tx_ms, 2000);
    assert_eq!(m.stream.seq, 0x0103);
    assert_eq!(m.stream.ts, 0x0a0b0c0d + 160);
}

#[test]
fn a_released_channel_is_quiet_until_it_idles() {
    let mut m = mic(false, true);
    let step = m.step(&[1000i16; 160], false, 1001, &None);
    assert!(step.to_peer.is_none());
    assert!(step.to_taps.is_none());
    let step = m.step(&[1000i16; 160], false, 1_000_000, &None);
    let packet = step.to_peer.unwrap();
    assert!(step.to_taps.is_none());
    assert_eq!(packet.len(), 20);
    let fields = parse_rtp_ed137(&packet).unwrap();
    assert_eq!(fields.ptt_type, PttType::Off);
    assert_eq!(fields.ptt_id, 9);
    assert_eq!(m.last_tx_ms, 1_000_000);
}

#[test]
fn sound_under_encryption_arrives() {
    let (server, client) = key_pair();
    let mut m = mic(true, true);
    let step = m.step(&[1000i16; 160], true, 2000, &Some(server));
    let packet = step.to_peer.unwrap();
    assert_eq!(packet.len(), 12 + 8 + 160 + 16);
    assert_eq!(parse_rtp_ed137(&packet).unwrap().ptt_type, PttType::Normal);
    assert_eq!(receive_payload(&packet, true, &Some(client)), Some(vec![0xceu8; 160]));
    let (server, _) = key_pair();
    assert_eq!(receive_payload(&packet, true, &Some(server)), None);
    assert_eq!(receive_payload(&packet, true, &None), None);
    assert_eq!(receive_payload(&packet[..20], true, &None), None);
}

#[test]
fn no_link_is_silent_for_five_seconds() {
    let mut last_activity = 10_000u64;
    let mut m = mic(false, false);
    m.last_tx_ms = 10_000;
    let mut sent = 0;
    for second in 1..60u64 {
        let now = 10_000 + second * 1000;
        assert!(now - last_activity < 5000);
        assert!(now - m.last_tx_ms < 5000);
        if bridge_tick(now, last_activity, 0, Some(false)).send_keepalive {
            last_activity = now;
        }
        if m.step(&[0i16; 160], false, now, &None).to_peer.is_some() {
            sent += 1;
        }
    }
    assert_eq!(sent, 19);
}

#[test]
fn sound_arrives_behind_a_plain_header() {
    let (server, client) = key_pair();
    let mut m = mic(true, false);
    let packet = m.step(&[1000i16; 160], true, 2000, &Some(server)).to_peer.unwrap();
    assert_eq!(packet.len(), 12 + 160 + 16);
    let keys = Some(client);
    assert_eq!(receive_plain_payload(&packet, true, &keys), Some(vec![0xceu8; 160]));
    assert_eq!(receive_plain_payload(&packet, true, &None), None);
    assert_eq!(receive_plain_payload(&packet[..28], true, &keys), None);
    let (server, _) = key_pair();
    let mut m = mic(true, true);
    let signalled = m.step(&[1000i16; 160], true, 2000, &Some(server)).to_peer.unwrap();
    assert_eq!(receive_payload(&signalled, true, &keys), Some(vec![0xceu8; 160]));
    assert_eq!(receive_plain_payload(&signalled, true, &keys), None);
    let mut m = mic(false, true);
    let clear = m.step(&[1000i16; 160], true, 2000, &None).to_peer.unwrap();
    assert_eq!(receive_plain_payload(&clear, false, &None), Some(vec![0xceu8; 160]));
}

#[test]
fn without_keys_no_sound_goes_out() {
    let mut m = mic(true, false);
    let step = m.step(&[1000i16; 160], true, 2000, &None);
    assert!(step.to_peer.is_none());
    assert_eq!(step.to_taps.unwrap().len(), 160);
}

#[test]
fn a_link_opens_with_keyed_silence() {
    let mut m = mic(false, true);
    let packet = m.burst_frame(&None).unwrap();
    assert_eq!(&packet[20..], &[0xffu8; 160][..]);
    assert_eq!(parse_rtp_ed137(&packet).unwrap().ptt_type, PttType::Normal);
    assert_eq!(m.stream.seq, 0x0103);
}

#[test]
fn the_opening_burst_ends() {
    let mut m = mic(false, true);
    m.last_tx_ms = 7;
    let mut frames = 0;
    while let BurstStep::Frame(packet) = m.burst_step(frames, 900, &None) {
        assert_eq!(packet.unwrap().len(), 20 + 160);
        assert_eq!(m.last_tx_ms, 7);
        frames += 1;
    }
    assert_eq!(frames, 50);
    assert_eq!(m.last_tx_ms, 900);
    assert_eq!(m.stream.seq, 0x0102 + 50);
    let mut encrypted = mic(true, true);
    assert!(matches!(encrypted.burst_step(0, 900, &None), BurstStep::Frame(None)));
    let mut silent = mic(false, false);
    silent.last_tx_ms = 7;
    assert!(matches!(silent.burst_step(0, 900, &None), BurstStep::Done));
    assert_eq!(silent.last_tx_ms, 7);
}

#[test]
fn received_sound_goes_where_it_should() {
    let mut m = mic(false, true);
    let packet = m.step(&[1000i16; 160], true, 2000, &None).to_peer.unwrap();
    let r = receive(&packet, MediaMode::Full, false, &None, false);
    assert_eq!(r.sound, Some(vec![0xceu8; 160]));
    assert_eq!(
        r.steps,
        vec![
            MediaStep::Signal { squelch: false, keyed: true },
            MediaStep::Record,
            MediaStep::Bridge,
            MediaStep::Publish { share: true },
            MediaStep::Play,
        ]
    );
    let r = receive(&packet, MediaMode::Full, false, &None, true);
    assert_eq!(
        r.steps,
        vec![
            MediaStep::Signal { squelch: false, keyed: true },
            MediaStep::Publish { share: false },
            MediaStep::Play,
        ]
    );
    let r = receive(&packet, MediaMode::Full, true, &None, false);
    assert_eq!(r.steps, vec![MediaStep::Signal { squelch: false, keyed: true }]);
    assert_eq!(r.sound, None);
    let r = receive(&packet, MediaMode::Plain, false, &None, false);
    assert_eq!(r.steps, vec![MediaStep::Play]);
    assert_eq!(r.sound, Some(vec![0xceu8; 160]));
}

#[test]
fn keys_are_heard_of() {
    let mut context = SecureChannelContext::new();
    context.initialize_keypair_from([7u8; 32]);
    let key = context.local_public.unwrap();
    let hex: String = key.iter().map(|b| format!("{:02x}", b)).collect();
    let message = format!("AQUILLA12_KEY_EXCHANGE:x:{}", hex);
    let heard = |mode, srtp| receive(message.as_bytes(), mode, srtp, &None, false).steps;
    assert_eq!(heard(MediaMode::Full, false), vec![MediaStep::HearKey { key }]);
    assert_eq!(heard(MediaMode::Plain, true), vec![MediaStep::HearKey { key }]);
    assert!(heard(MediaMode::Plain, false).is_empty());
    let broken = receive(b"AQUILLA12_KEY_EXCHANGE:", MediaMode::Full, true, &None, false);
    assert!(broken.steps.is_empty() && broken.sound.is_none());
    let other = receive(&start_packet(0x80, 0x08, 1, 2, 3), MediaMode::Full, false, &None, false);
    assert!(other.steps.is_empty() && other.sound.is_none());
}

#[test]
fn media_packets_are_told_apart() {
    let mut context = SecureChannelContext::new();
    context.initialize_keypair_from([7u8; 32]);
    let public = context.local_public.unwrap();
    let hex: String = public.iter().map(|b| format!("{:02x}", b)).collect();
    let message = format!("AQUILLA12_KEY_EXCHANGE:x:{}", hex);
    assert_eq!(classify_media(message.as_bytes()), MediaPacket::KeyExchange(Some(public)));
    assert_eq!(
        classify_media(b"AQUILLA12_KEY_EXCHANGE:"),
        MediaPacket::KeyExchange(None)
    );
    assert_eq!(classify_media(&start_packet(0x80, 0x80, 1, 2, 3)), MediaPacket::Sound);
    assert_eq!(classify_media(&start_packet(0x80, 0x08, 1, 2, 3)), MediaPacket::Ignored);
    assert_eq!(classify_media(&[0x80; 11]), MediaPacket::Ignored);
}

#[test]
fn playing_starts_when_enough_has_gathered() {
    let mut b = AdaptiveJitterBuffer::new(1000);
    assert_eq!(b.min_buffer_samples, 40);
    assert_eq!(b.max_buffer_samples, 200);
    assert_eq!(b.crossfade_len, 5);
    let mut q: VecDeque<u32> = (0..39).collect();
    for position in 0..5 {
        assert_eq!(b.next_sample(&mut q), JitterStep::FadeOut { position });
    }
    assert_eq!(b.next_sample(&mut q), JitterStep::Silence);
    assert_eq!(q.len(), 39);
    q.push_back(39);
    for position in 0..5 {
        assert_eq!(
            b.next_sample(&mut q),
            JitterStep::FadeIn { position, sample: position as u32 }
        );
    }
    assert_eq!(b.next_sample(&mut q), JitterStep::Play { sample: 5 });
}

#[test]
fn too_much_waiting_sound_is_dropped() {
    let mut b = AdaptiveJitterBuffer::with_depths(1000, 80, 500);
    let mut q: VecDeque<u32> = (0..600).collect();
    assert_eq!(b.next_sample(&mut q), JitterStep::FadeIn { position: 0, sample: 100 });
    assert_eq!(q.len(), 499);
    assert_eq!(q.front(), Some(&101));
}

#[test]
fn an_empty_queue_holds_and_waits_again() {
    let mut b = AdaptiveJitterBuffer::new(1000);
    b.buffering = false;
    let mut q: VecDeque<u32> = VecDeque::new();
    assert_eq!(b.next_sample(&mut q), JitterStep::Hold);
    assert!(b.buffering);
    assert_eq!(b.next_sample(&mut q), JitterStep::FadeOut { position: 0 });
}

#[test]
fn a_slow_device_still_fades() {
    let b = AdaptiveJitterBuffer::new(100);
    assert_eq!(b.crossfade_len, 1);
    assert_eq!(b.min_buffer_samples, 4);
}
