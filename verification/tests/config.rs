use aquilla::config::{
    channel_from_row, channel_to_row, default_config, default_dispatch_groups, load_config,
    numbered_port, read_device, read_sip_port, read_switch, save_config, write_device,
    write_switch, ChannelRow, DispatchGroup, StoredConfig,
};
use aquilla::state::{compute_uri, ChannelStatus, Gateway};

fn nothing_stored() -> StoredConfig {
    StoredConfig {
        sip_port: None,
        selected_device: None,
        amp_enabled: None,
        bridge_enabled: None,
        dispatch_groups: None,
        rows: Vec::new(),
    }
}

fn old_row() -> ChannelRow {
    ChannelRow {
        id: 3,
        label: "Tower".to_string(),
        protocol: "SIP".to_string(),
        target_ip: "10.0.0.3".to_string(),
        target_port: 65536 + 5070,
        sip_user: None,
        codec: "Opus".to_string(),
        local_port: Some(65536 + 7000),
        volume: 80,
        srtp_enabled: 2,
        sip_auth_required: 0,
        amp_ip: None,
        amp_port: None,
        amp_enabled: None,
        bridge_ip: None,
        bridge_port: None,
        bridge_enabled: None,
        bridge_local_port: None,
        ed137_enabled: None,
        ed137_ptt_id: Some(256 + 7),
    }
}

#[test]
fn defaults_have_known_values() {
    let c = default_config();
    assert_eq!(c.sip_port, 5060);
    assert_eq!(c.selected_device, None);
    assert!(c.amp_enabled);
    assert!(c.bridge_enabled);
    assert_eq!(c.channels.len(), 12);
    let last = &c.channels[11];
    assert_eq!(last.id, 12);
    assert_eq!(last.label, "CH 12");
    assert_eq!(last.protocol, "RTP");
    assert_eq!(last.target_ip, "192.168.1.1012");
    assert_eq!(last.target_port, 5004);
    assert_eq!(last.sip_user, Some("receiver12".to_string()));
    assert_eq!(last.codec, "Opus");
    assert_eq!(c.channels[0].codec, "G.711µ");
    assert_eq!(c.channels[1].codec, "G.722");
    assert_eq!(c.channels[0].label, "CH 01");
    assert_eq!(last.volume, 100);
    assert!(last.srtp_enabled && last.sip_auth_required && last.amp_enabled);
    assert!(!last.bridge_enabled && !last.ed137_enabled);
    assert_eq!(last.amp_port, 5026);
    assert_eq!(last.bridge_port, 6026);
    assert_eq!(last.bridge_local_port, None);
}

#[test]
fn default_groups_have_letters() {
    let groups = default_dispatch_groups();
    let names: Vec<&str> = groups.iter().map(|g| g.name.as_str()).collect();
    assert_eq!(names, vec!["Patch A", "Patch B", "Patch C", "Patch D"]);
    assert_eq!(groups[3].mirror_port, 9010);
    assert!(groups.iter().all(|g| !g.mirror_enabled && g.member_ids.is_empty()));
    assert_eq!(groups[0].mirror_ip, "127.0.0.1");
}

#[test]
fn default_ports_differ() {
    let c = default_config();
    let mut ports: Vec<u16> = c.channels.iter().map(|x| x.amp_port).collect();
    ports.extend(c.channels.iter().map(|x| x.bridge_port));
    ports.sort();
    ports.dedup();
    assert_eq!(ports.len(), 24);
    assert_eq!(numbered_port(8004, 3), 8008);
}

#[test]
fn an_empty_store_gives_the_defaults() {
    let (c, fresh) = load_config(nothing_stored());
    assert!(fresh);
    assert_eq!(c.channels.len(), 12);
}

#[test]
fn what_an_old_store_lacks_is_made_up() {
    let mut stored = nothing_stored();
    stored.rows.push(old_row());
    stored.sip_port = Some("nonsense".to_string());
    stored.selected_device = Some(String::new());
    stored.amp_enabled = Some("0".to_string());
    let (c, fresh) = load_config(stored);
    assert!(!fresh);
    assert_eq!(c.sip_port, 5060);
    assert_eq!(c.selected_device, None);
    assert!(!c.amp_enabled);
    assert!(c.bridge_enabled);
    assert_eq!(c.dispatch_groups.len(), 4);
    let ch = &c.channels[0];
    assert_eq!(ch.target_port, 5070);
    assert_eq!(ch.local_port, Some(7000));
    assert!(ch.srtp_enabled);
    assert!(!ch.sip_auth_required);
    assert_eq!(ch.amp_ip, "127.0.0.1");
    assert_eq!(ch.amp_port, 0);
    assert!(ch.amp_enabled);
    assert!(!ch.bridge_enabled);
    assert_eq!(ch.ed137_ptt_id, 7);
}

#[test]
fn settings_survive_storage() {
    let mut config = default_config();
    config.sip_port = 5099;
    config.selected_device = Some("Headset".to_string());
    config.bridge_enabled = false;
    config.channels[4].local_port = Some(6100);
    config.channels[4].ed137_enabled = true;
    config.channels[4].ed137_ptt_id = 63;
    let saved = save_config(&config);
    assert_eq!(saved.sip_port, "5099");
    assert_eq!(saved.selected_device, "Headset");
    assert_eq!(saved.amp_enabled, "true");
    assert_eq!(saved.bridge_enabled, "false");
    assert_eq!(saved.rows[4].ed137_enabled, Some(1));
    let stored = StoredConfig {
        sip_port: Some(saved.sip_port),
        selected_device: Some(saved.selected_device),
        amp_enabled: Some(saved.amp_enabled),
        bridge_enabled: Some(saved.bridge_enabled),
        dispatch_groups: Some(default_dispatch_groups()),
        rows: saved.rows,
    };
    let (back, _) = load_config(stored);
    assert_eq!(back.sip_port, 5099);
    assert_eq!(back.selected_device, Some("Headset".to_string()));
    assert!(!back.bridge_enabled);
    assert_eq!(back.channels[4].local_port, Some(6100));
    assert_eq!(back.channels[4].ed137_ptt_id, 63);
    assert_eq!(back.channels[11].target_ip, "192.168.1.1012");
}

#[test]
fn single_settings_are_read() {
    assert_eq!(read_sip_port(&Some("70000".to_string())), 5060);
    assert_eq!(read_sip_port(&Some("5070".to_string())), 5070);
    assert_eq!(read_device(&Some("x".to_string())), Some("x".to_string()));
    assert!(read_switch(&Some("yes".to_string())));
    assert!(!read_switch(&Some("false".to_string())));
    assert!(read_switch(&None));
    assert_eq!(write_switch(false), "false");
    assert_eq!(write_device(&None), "");
}

#[test]
fn rows_read_back() {
    let config = default_config();
    let ch = channel_from_row(&channel_to_row(&config.channels[6]));
    assert_eq!(ch.id, 7);
    assert_eq!(ch.label, "CH 07");
    assert_eq!(ch.sip_user, Some("receiver7".to_string()));
    assert_eq!(ch.bridge_port, 6016);
}

#[test]
fn the_state_starts_idle_with_the_settings() {
    let mut config = default_config();
    config.channels[0].amp_ip = String::new();
    config.channels[0].amp_port = 0;
    config.channels[1].protocol = "SIP".to_string();
    config.channels[1].sip_user = None;
    let g = Gateway::from_config(&config);
    assert_eq!(g.channels.len(), 12);
    assert!(g.channels.iter().all(|c| c.status == ChannelStatus::Idle && !c.ptt_active));
    assert_eq!(g.channels[0].amp_ip, "127.0.0.1");
    assert_eq!(g.channels[0].amp_port, 0);
    assert_eq!(g.channels[1].amp_port, 5006);
    assert_eq!(g.channels[0].target_uri, "rtp://192.168.1.101:5004");
    assert_eq!(g.channels[1].target_uri, "sip:receiver@192.168.1.102:5004");
    assert!(g.active_calls.is_empty());
    let back = g.to_config();
    assert_eq!(back.sip_port, 5060);
    assert_eq!(back.channels[0].amp_port, 0);
    assert_eq!(back.channels[11].bridge_port, 6026);
    assert_eq!(back.dispatch_groups.len(), 4);
    assert_eq!(compute_uri("SIP", &Some("a".to_string()), "h", 1), "sip:a@h:1");
}

#[test]
fn a_recorder_that_is_switched_off_stays_off() {
    let mut config = default_config();
    config.channels[4].amp_port = 0;
    config.channels[4].bridge_port = 0;
    let first = Gateway::from_config(&config);
    assert_eq!(first.channels[4].amp_port, 0);
    assert_eq!(first.channels[4].bridge_port, 6012);
    let again = Gateway::from_config(&first.to_config());
    assert_eq!(again.channels[4].amp_port, 0);
    assert_eq!(again.amp_settings_for(5).2, 0);
}

#[test]
fn groups_are_copied() {
    let g = DispatchGroup {
        id: 2,
        name: "North".to_string(),
        member_ids: vec![1, 5],
        mirror_enabled: true,
        mirror_ip: "10.1.1.1".to_string(),
        mirror_port: 9,
        mirror_local_port: Some(7),
    };
    let c = g.copy();
    assert_eq!(c.member_ids, vec![1, 5]);
    assert_eq!(c.name, "North");
    assert_eq!(c.mirror_local_port, Some(7));
}
