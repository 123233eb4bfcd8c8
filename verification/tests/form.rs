use aquilla::config::default_config;
use aquilla::events::Event;
use aquilla::form_errors::FormError;
use aquilla::state::{ChannelStatus, Gateway};
use aquilla::text::TextMap;

fn gateway() -> Gateway {
    Gateway::from_config(&default_config())
}

fn form(fields: &[(&str, &str)]) -> TextMap {
    let mut m = TextMap::new();
    for (k, v) in fields {
        m.insert(k.to_string(), v.to_string());
    }
    m
}

fn refusal(fields: &[(&str, &str)]) -> FormError {
    let mut g = gateway();
    let r = g.save_form(&form(fields));
    assert_eq!(g.sip_port, 5060);
    assert!(g.amp_enabled && g.bridge_enabled);
    match r {
        Err(e) => e,
        Ok(_) => panic!("a refusal"),
    }
}

#[test]
fn an_empty_form_keeps_the_channels() {
    let mut g = gateway();
    let events = g.save_form(&form(&[])).unwrap();
    assert_eq!(events.len(), 13);
    assert!(!g.amp_enabled);
    assert!(!g.bridge_enabled);
    assert_eq!(g.channels[0].label, "CH 01");
    assert!(!g.channels[0].srtp_enabled);
    assert_eq!(g.dispatch_groups[0].name, "Patch 1");
    assert!(matches!(
        &events[12],
        Event::ConfigUpdate { sip_port: 5060, amp_enabled: false, bridge_enabled: false, .. }
    ));
}

#[test]
fn the_listening_port_is_checked() {
    assert_eq!(refusal(&[("sip_port", "80")]), FormError::ListeningPortRange);
    assert_eq!(refusal(&[("sip_port", "x")]), FormError::ListeningPortInvalid);
    assert_eq!(
        FormError::ListeningPortRange.message(),
        "Listening Port must be between 1024 and 65535"
    );
    assert_eq!(FormError::ListeningPortInvalid.message(), "Invalid Listening Port");
}

#[test]
fn targets_are_checked() {
    assert_eq!(refusal(&[("label_3", "  ")]).message(), "Channel 03 Alias cannot be empty");
    assert_eq!(refusal(&[("target_ip_12", "")]).message(), "Channel 12 Destination IP cannot be empty");
    assert_eq!(
        refusal(&[("target_port_2", "0")]).message(),
        "Channel 02 Destination Port must be between 1 and 65535"
    );
    assert_eq!(refusal(&[("target_port_2", "65536")]).message(), "Invalid Destination Port for Channel 02");
}

#[test]
fn local_ports_are_checked() {
    assert_eq!(
        refusal(&[("local_port_1", "1023")]).message(),
        "Channel 01 Local Port must be between 1024 and 65535"
    );
    assert_eq!(refusal(&[("local_port_1", " ")]).message(), "Invalid Local Port for Channel 01");
    assert_eq!(
        refusal(&[("local_port_1", "5060")]).message(),
        "Channel 01 Local Port (5060) conflicts with SIP Listening Port"
    );
    assert_eq!(
        refusal(&[("local_port_1", "7000"), ("local_port_9", "7000")]).message(),
        "Duplicate Local Port (7000) between Channel 01 and Channel 09"
    );
    assert_eq!(
        refusal(&[("local_port_4", "7000"), ("bridge_local_port_4", "7000")]).message(),
        "Duplicate Local Port (7000) between Channel 04 and Channel 04"
    );
}

#[test]
fn recorder_ports_are_checked() {
    assert_eq!(
        refusal(&[("amp_enabled", "on"), ("amp_channel_enabled_2", "on"), ("amp_port_2", "0")]).message(),
        "Channel 02 Mirror Port must be between 1 and 65535 when mirroring is enabled"
    );
    assert_eq!(
        refusal(&[
            ("amp_enabled", "on"),
            ("amp_channel_enabled_2", "on"),
            ("amp_channel_enabled_3", "on"),
            ("amp_port_3", "5006"),
        ])
        .message(),
        "Duplicate Mirror Port (5006) between Channel 02 and Channel 03"
    );
}

#[test]
fn bridge_ports_are_checked() {
    assert_eq!(
        refusal(&[("bridge_enabled", "on"), ("bridge_channel_enabled_2", "on"), ("bridge_port_2", "x")]).message(),
        "Channel 02 AMP Bridge Port must be between 1 and 65535 when AMP Bridge is enabled"
    );
    assert_eq!(
        refusal(&[
            ("bridge_enabled", "on"),
            ("bridge_channel_enabled_2", "on"),
            ("bridge_channel_enabled_3", "on"),
            ("bridge_port_3", "6006"),
        ])
        .message(),
        "Duplicate AMP Bridge Port (6006) between Channel 02 and Channel 03"
    );
    assert_eq!(
        refusal(&[("bridge_local_port_2", "80")]).message(),
        "Channel 02 AMP Bridge Local Port must be between 1024 and 65535"
    );
    assert_eq!(
        refusal(&[("bridge_local_port_2", "x")]).message(),
        "Invalid AMP Bridge Local Port for Channel 02"
    );
    assert_eq!(
        refusal(&[("bridge_local_port_2", "5060")]).message(),
        "Channel 02 AMP Bridge Local Port (5060) conflicts with SIP Listening Port"
    );
}

#[test]
fn groups_are_checked() {
    assert_eq!(
        refusal(&[("dispatch_mirror_enabled_2", "on")]).message(),
        "Dispatcher Group 2 Mirror Port must be between 1 and 65535 when the mirror is enabled"
    );
    assert_eq!(
        refusal(&[
            ("dispatch_mirror_enabled_1", "on"),
            ("dispatch_mirror_port_1", "9"),
            ("dispatch_mirror_enabled_2", "on"),
            ("dispatch_mirror_port_2", "9"),
        ])
        .message(),
        "Duplicate Dispatcher Mirror Port (9) between Group 1 and Group 2"
    );
    assert_eq!(
        refusal(&[("dispatch_mirror_local_port_2", "80")]).message(),
        "Dispatcher Group 2 Local Port must be between 1024 and 65535"
    );
    assert_eq!(
        refusal(&[("dispatch_mirror_local_port_2", "x")]).message(),
        "Invalid Dispatcher Group 2 Local Port"
    );
    assert_eq!(
        refusal(&[("dispatch_mirror_local_port_2", "5060")]).message(),
        "Dispatcher Group 2 Local Port (5060) conflicts with primary Listening Port"
    );
    assert_eq!(
        refusal(&[("local_port_7", "7000"), ("dispatch_mirror_local_port_2", "7000")]).message(),
        "Duplicate Local Port (7000) between Dispatcher Group 2 and Channel 07"
    );
    assert_eq!(
        refusal(&[("dispatch_mirror_local_port_1", "7000"), ("dispatch_mirror_local_port_2", "7000")]).message(),
        "Duplicate Local Port (7000) between Dispatcher Group 2 and Dispatcher Group 1"
    );
}

#[test]
fn names_are_cut_between_characters_only() {
    assert_eq!(refusal(&[("label_1", "abcdefäx")]), FormError::UncutName);
    assert_eq!(refusal(&[("dispatch_name_1", "12345678901234567890123€")]), FormError::UncutName);
    let mut g = gateway();
    g.save_form(&form(&[("label_1", " Tower North "), ("dispatch_name_1", " A very long name for a group ")]))
        .unwrap();
    assert_eq!(g.channels[0].label, "Tower N");
    assert_eq!(g.dispatch_groups[0].name, "A very long name for a g");
}

#[test]
fn a_form_changes_a_free_channel() {
    let mut g = gateway();
    let events = g
        .save_form(&form(&[
            ("sip_port", "5070"),
            ("selected_device", "Headset"),
            ("amp_enabled", "on"),
            ("label_2", "North"),
            ("protocol_2", "SIP"),
            ("target_ip_2", "10.0.0.9"),
            ("target_port_2", "5080"),
            ("sip_user_2", ""),
            ("srtp_enabled_2", "on"),
            ("ed137_enabled_2", "on"),
            ("ed137_ptt_id_2", "200"),
            ("local_port_2", "6500"),
            ("codec_2", "Opus"),
            ("amp_ip_2", "  "),
            ("amp_port_2", "4000"),
            ("bridge_ip_2", " 10.1.1.1 "),
            ("bridge_local_port_2", "8500"),
        ]))
        .unwrap();
    assert_eq!(g.sip_port, 5070);
    assert_eq!(g.selected_device, Some("Headset".to_string()));
    let c = &g.channels[1];
    assert_eq!(c.label, "North");
    assert_eq!(c.target_uri, "sip:receiver@10.0.0.9:5080");
    assert_eq!(c.sip_user, None);
    assert!(c.srtp_enabled && !c.sip_auth_required && !c.amp_enabled && c.ed137_enabled);
    assert_eq!(c.ed137_ptt_id, 63);
    assert_eq!(c.local_port, Some(6500));
    assert_eq!(c.codec, "Opus");
    assert_eq!(c.amp_ip, "127.0.0.1");
    assert_eq!(c.amp_port, 4000);
    assert_eq!(c.bridge_ip, "10.1.1.1");
    assert_eq!(c.bridge_local_port, Some(8500));
    assert!(matches!(&events[1], Event::Update { channel } if channel.label == "North"));
}

#[test]
fn a_form_leaves_a_call_alone() {
    let mut g = gateway();
    g.channels[1].status = ChannelStatus::Connected;
    g.channels[1].amp_streaming = true;
    let events = g
        .save_form(&form(&[("label_2", ""), ("target_ip_2", ""), ("target_port_2", "x"), ("amp_ip_2", "10.2.2.2")]))
        .unwrap();
    let c = &g.channels[1];
    assert_eq!(c.status, ChannelStatus::Connected);
    assert_eq!(c.label, "CH 02");
    assert!(c.srtp_enabled && c.amp_enabled);
    assert_eq!(c.amp_ip, "10.2.2.2");
    assert!(!c.amp_streaming);
    assert_eq!(events.len(), 14);
    assert!(matches!(&events[13], Event::Update { channel } if channel.id == 2 && !channel.amp_streaming));
    g.save_form(&form(&[("amp_enabled", "on")])).unwrap();
    assert!(g.channels[1].amp_streaming);
}

#[test]
fn a_form_keeps_the_rosters() {
    let mut g = gateway();
    g.dispatch_groups[2].member_ids = vec![4, 7];
    g.save_form(&form(&[
        ("dispatch_name_3", "South"),
        ("dispatch_mirror_enabled_3", "on"),
        ("dispatch_mirror_port_3", "9100"),
        ("dispatch_mirror_ip_3", " 10.3.3.3 "),
        ("dispatch_mirror_local_port_3", " "),
    ]))
    .unwrap();
    let group = &g.dispatch_groups[2];
    assert_eq!(group.member_ids, vec![4, 7]);
    assert_eq!(group.name, "South");
    assert!(group.mirror_enabled);
    assert_eq!(group.mirror_port, 9100);
    assert_eq!(group.mirror_ip, "10.3.3.3");
    assert_eq!(group.mirror_local_port, None);
    assert_eq!(g.dispatch_groups[0].mirror_ip, "127.0.0.1");
    assert_eq!(g.dispatch_groups[0].mirror_port, 0);
}

#[test]
fn saved_local_ports_differ() {
    let mut g = gateway();
    g.save_form(&form(&[
        ("local_port_1", "7000"),
        ("local_port_2", "7002"),
        ("bridge_local_port_1", "7004"),
        ("dispatch_mirror_local_port_4", "7006"),
    ]))
    .unwrap();
    let mut ports: Vec<u16> = Vec::new();
    for c in g.channels.iter() {
        ports.extend(c.local_port.iter());
        ports.extend(c.bridge_local_port.iter());
    }
    for group in g.dispatch_groups.iter() {
        ports.extend(group.mirror_local_port.iter());
    }
    assert_eq!(ports, vec![7000, 7004, 7002, 7006]);
    assert!(!ports.contains(&g.sip_port));
}

#[test]
fn a_device_can_be_unchosen() {
    let mut g = gateway();
    g.selected_device = Some("Mic".to_string());
    g.save_form(&form(&[])).unwrap();
    assert_eq!(g.selected_device, Some("Mic".to_string()));
    g.save_form(&form(&[("selected_device", "none")])).unwrap();
    assert_eq!(g.selected_device, None);
}

#[test]
fn a_plain_form_is_never_refused() {
    let mut g = gateway();
    let events = g.save_plain_form(&form(&[
        ("sip_port", "80"),
        ("label_1", "  A label of any length "),
        ("target_port_1", "x"),
        ("local_port_1", ""),
        ("sip_user_1", "bob"),
        ("protocol_1", "SIP"),
    ]));
    assert_eq!(g.sip_port, 80);
    assert_eq!(g.channels[0].label, "  A label of any length ");
    assert_eq!(g.channels[0].target_uri, "sip:bob@192.168.1.101:5004");
    assert!(g.channels[0].amp_enabled);
    assert_eq!(events.len(), 13);
    assert!(matches!(&events[12], Event::DeviceUpdate { sip_port: 80, .. }));
}
