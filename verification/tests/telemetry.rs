use aquilla::assets::{asset_path, asset_reply, stored_certificate, AssetBody};
use aquilla::config::default_config;
use aquilla::events::Event;
use aquilla::state::{ChannelStatus, Gateway};
use aquilla::telemetry::{show_devices, LevelStep};

fn gateway() -> Gateway {
    let mut g = Gateway::from_config(&default_config());
    g.channels[0].status = ChannelStatus::Connected;
    g
}

#[test]
fn levels_move_on_calls_that_are_up() {
    let mut g = gateway();
    g.channels[0].audio_level = 50;
    assert!(matches!(g.move_channel_level(0, LevelStep::Drift(14)), Some(Event::AudioLevel { id: 1, value: 64 })));
    g.move_channel_level(0, LevelStep::Drift(30));
    assert_eq!(g.channels[0].audio_level, 80);
    g.move_channel_level(0, LevelStep::Jump(95));
    assert_eq!(g.channels[0].audio_level, 95);
    g.move_channel_level(0, LevelStep::Fall);
    assert_eq!(g.channels[0].audio_level, 75);
    g.channels[0].audio_level = 5;
    g.move_channel_level(0, LevelStep::Fall);
    assert_eq!(g.channels[0].audio_level, 0);
    g.move_channel_level(0, LevelStep::Drift(-15));
    assert_eq!(g.channels[0].audio_level, 20);
    assert!(g.move_channel_level(1, LevelStep::Jump(9)).is_none());
    assert_eq!(g.channels[1].audio_level, 0);
}

#[test]
fn seconds_pass_on_calls_that_are_up() {
    let mut g = gateway();
    g.channels[0].ptt_active = true;
    g.channels[0].latency = 12;
    g.channels[0].jitter = 20;
    match g.pass_second(0, -1, 1) {
        Some(Event::Patch { patch }) => {
            assert_eq!(patch.duration, Some(1));
            assert_eq!(patch.latency, Some(11));
            assert_eq!(patch.jitter, Some(20));
            assert_eq!(patch.tx_kbps, Some(80));
            assert_eq!(patch.ptt_active, Some(true));
            assert_eq!(patch.status, None);
        }
        _ => panic!("a patch"),
    }
    g.channels[0].latency = 3;
    g.channels[0].jitter = 0;
    g.pass_second(0, 0, 0);
    assert_eq!((g.channels[0].latency, g.channels[0].jitter), (10, 1));
    assert!(g.pass_second(1, 0, 0).is_none());
    assert_eq!(g.connected_count(), 1);
}

#[test]
fn a_new_console_is_told_everything() {
    let g = gateway();
    let events = g.all_updates();
    assert_eq!(events.len(), 12);
    assert!(matches!(&events[11], Event::Update { channel } if channel.id == 12));
}

#[test]
fn devices_are_shown_once_in_a_row() {
    let v = |a: &[&str]| a.iter().map(|s| s.to_string()).collect::<Vec<String>>();
    assert_eq!(show_devices(&v(&["a", "a", "b", "a", "a", "a"])), v(&["a", "b", "a"]));
    assert_eq!(show_devices(&v(&[])), v(&["Default System Audio Input"]));
    assert_eq!(show_devices(&v(&["a"])), v(&["a"]));
}

#[test]
fn files_are_found_by_their_path() {
    assert_eq!(asset_path("/"), "index.html");
    assert_eq!(asset_path(""), "index.html");
    assert_eq!(asset_path("//app/main.js"), "app/main.js");
}

#[test]
fn files_have_their_media_types() {
    let r = asset_reply("/", true, true);
    assert_eq!((r.status, r.content_type.as_str(), r.body), (200, "text/html", AssetBody::Asset));
    let r = asset_reply("/style/site.css", true, true);
    assert_eq!((r.status, r.content_type.as_str(), r.body), (200, "text/css", AssetBody::Asset));
    let r = asset_reply("///style//site.css", true, true);
    assert_eq!((r.status, r.content_type.as_str()), (200, "text/css"));
    let r = asset_reply("/noextension", true, true);
    assert_eq!(r.content_type, "application/octet-stream");
    let r = asset_reply("/gone.css", false, true);
    assert_eq!((r.status, r.content_type.as_str(), r.body), (404, "text/html", AssetBody::NotFoundPage));
    let r = asset_reply("/gone.css", false, false);
    assert_eq!((r.status, r.content_type.as_str(), r.body), (404, "text/plain", AssetBody::NotFoundText));
}

#[test]
fn a_certificate_needs_its_key() {
    let s = |t: &str| Some(t.to_string());
    assert_eq!(stored_certificate(s("c"), s("k")), Some(("c".to_string(), "k".to_string())));
    assert_eq!(stored_certificate(s("c"), None), None);
    assert_eq!(stored_certificate(None, s("k")), None);
}
