use aquilla::config::default_config;
use aquilla::page::{fill, html_escape, list_devices, make_notice, RowKind};
use aquilla::state::{ChannelStatus, Gateway};
use aquilla::text::TextMap;

fn gateway() -> Gateway {
    Gateway::from_config(&default_config())
}

fn losses() -> Vec<String> {
    (0..12).map(|_| "0.0".to_string()).collect()
}

#[test]
fn marks_are_filled_in_turn() {
    let v = |a: &[&str]| a.iter().map(|s| s.to_string()).collect::<Vec<String>>();
    assert_eq!(fill("a§b§c", &v(&["1", "§"])), "a1b§c");
    assert_eq!(fill("a§b§c", &v(&["1"])), "a1b§c");
    assert_eq!(fill("abc", &v(&["1"])), "abc");
    assert_eq!(fill("", &v(&[])), "");
}

#[test]
fn text_is_escaped() {
    assert_eq!(html_escape("<a href=\"x\">'&'</a>"), "&lt;a href=&quot;x&quot;&gt;&#x27;&amp;&#x27;&lt;/a&gt;");
    assert_eq!(html_escape("plain µ"), "plain µ");
}

#[test]
fn devices_are_listed() {
    let devices = vec!["Mic <1>".to_string(), "Line".to_string()];
    assert_eq!(
        list_devices(&devices, "Line"),
        "<option value=\"\" >None (Default System Audio)</option><option value=\"Mic &lt;1&gt;\" >Mic &lt;1&gt;</option><option value=\"Line\" selected>Line</option>"
    );
    assert_eq!(
        list_devices(&Vec::new(), ""),
        "<option value=\"\" selected>None (Default System Audio)</option>"
    );
}

#[test]
fn a_channel_row_shows_the_settings() {
    let mut g = gateway();
    g.channels[0].label = "T&1".to_string();
    g.channels[0].local_port = Some(6500);
    g.channels[0].duration = 61;
    let row = g.channels[0].settings_row("1.5");
    assert!(row.contains("<span class=\"slot\">01</span>"));
    assert!(row.contains("<select name=\"protocol_1\" >"));
    assert!(row.contains("<option value=\"SIP\" >SIP</option>"));
    assert!(row.contains("<option value=\"RTP\" selected>RTP</option>"));
    assert!(row.contains("<span class=\"status-badge status-idle\">STANDBY</span>"));
    assert!(row.contains("name=\"label_1\" value=\"T&amp;1\"  maxlength=\"7\""));
    assert!(row.contains("name=\"srtp_enabled_1\" checked  />"));
    assert!(row.contains("name=\"sip_user_1\" value=\"receiver1\""));
    assert!(row.contains("name=\"local_port_1\" value=\"6500\""));
    assert!(row.contains("<option value=\"G.711µ\" selected>G.711µ</option>"));
    assert!(row.contains("<span class=\"k\">DUR</span><span class=\"v\">61s</span>"));
    assert!(row.contains("<span class=\"k\">PL</span><span class=\"v\">1.5%</span>"));
    assert!(!row.contains('§'));
    g.channels[0].status = ChannelStatus::Incoming;
    let row = g.channels[0].settings_row("0.0");
    assert!(row.contains("<select name=\"protocol_1\" disabled>"));
    assert!(row.contains("<span class=\"status-badge status-ringing\">INCOMING</span>"));
}

#[test]
fn a_plain_channel_row_shows_the_settings() {
    let g = gateway();
    let row = g.channels[4].plain_settings_row("0.0");
    assert!(row.contains("text-align: center;\">05</td>"));
    assert!(row.contains("name=\"target_ip_5\" value=\"192.168.1.105\""));
    assert!(row.contains("Dur: 0s | Rx: 0kbps | Tx: 0kbps | PL: 0.0% | Jit: 0ms | Lat: 0ms"));
    assert!(!row.contains("ed137"));
    assert!(!row.contains('§'));
}

#[test]
fn leg_rows_show_where_the_legs_go() {
    let mut g = gateway();
    g.channels[2].amp_streaming = true;
    g.channels[2].bridge_local_port = Some(8008);
    let row = g.channels[2].recorder_row();
    assert!(row.contains("name=\"amp_port_3\" value=\"5008\""));
    assert!(row.contains("<span class=\"amp-dot amp-dot-live\"></span><span class=\"amp-txt\">STREAMING</span>"));
    let row = g.channels[2].bridge_row();
    assert!(row.contains("name=\"bridge_local_port_3\" value=\"8008\""));
    assert!(row.contains("<span class=\"amp-dot\"></span><span class=\"amp-txt\">IDLE</span>"));
}

#[test]
fn tables_have_a_row_for_each_channel() {
    let g = gateway();
    assert_eq!(g.table_rows(RowKind::Settings, &losses()).matches("<tr>").count(), 12);
    assert_eq!(g.table_rows(RowKind::PlainSettings, &losses()).matches("<tr>").count(), 12);
    assert_eq!(g.table_rows(RowKind::Recorder, &losses()).matches("<tr>").count(), 12);
    assert_eq!(g.table_rows(RowKind::Bridge, &losses()).matches("<tr>").count(), 12);
    assert_eq!(g.table_rows(RowKind::Matrix, &losses()).matches("<tr>").count(), 12);
}

#[test]
fn the_matrix_shows_who_takes_part() {
    let mut g = gateway();
    g.dispatch_groups[1].member_ids = vec![3];
    g.dispatch_groups[1].name = "N<".to_string();
    let rows = g.table_rows(RowKind::Matrix, &losses());
    assert_eq!(rows.matches(" matrix-on").count(), 1);
    assert!(rows.contains("<div class=\"matrix-cell matrix-on\" data-channel=\"3\" data-group=\"2\" onclick=\"toggleDispatchCell(this)\" title=\"CH03 &lt;-&gt; N&lt;\">"));
    assert_eq!(rows.matches("matrix-cell-td").count(), 48);
}

#[test]
fn the_page_gets_its_values() {
    let mut g = gateway();
    g.selected_device = Some("Mic".to_string());
    g.bridge_enabled = false;
    g.dispatch_groups[3].mirror_local_port = Some(11010);
    g.dispatch_groups.remove(0);
    let v = g.settings_page("note!", &vec!["Mic".to_string()], &losses());
    assert!(v.trim_start().starts_with("<!DOCTYPE html>"));
    assert!(v.trim_end().ends_with("</html>"));
    assert!(!v.contains('§'));
    assert_eq!(v.matches("note!").count(), 1);
    assert!(v.contains("name=\"sip_port\" value=\"5060\" min=\"1024\""));
    assert!(v.contains("<option value=\"Mic\" selected>Mic</option></select>"));
    assert!(v.contains("name=\"amp_enabled\" checked />"));
    assert!(v.contains("name=\"bridge_enabled\"  />"));
    assert!(v.contains("<th>Patch 1</th><th>Patch B</th><th>Patch C</th><th>Patch D</th>"));
    assert!(v.contains("name=\"dispatch_name_1\" value=\"Patch 1\""));
    assert!(v.contains("name=\"dispatch_mirror_port_1\" value=\"0\""));
    assert!(v.contains("name=\"dispatch_mirror_port_4\" value=\"9010\""));
    assert!(v.contains("name=\"dispatch_mirror_local_port_4\" value=\"11010\""));
    assert_eq!(v.matches("<tr>").count(), v.matches("</tr>").count());
    let notice = "<div class=\"alert-success\">Configuration saved successfully and synced to console panel.</div>";
    let plain = g.plain_settings_page(true, &vec![], &losses());
    assert!(!plain.contains('§'));
    assert!(plain.contains(notice));
    assert!(plain.contains("name=\"sip_port\" value=\"5060\" min=\"1\""));
    assert!(!g.plain_settings_page(false, &vec![], &losses()).contains(notice));
}

#[test]
fn recorder_fields_stay_open_during_a_call() {
    let mut g = gateway();
    g.channels[2].status = ChannelStatus::Connected;
    let rows = g.table_rows(RowKind::Recorder, &losses());
    assert_eq!(rows.matches("disabled").count(), 1);
    assert!(rows.contains("name=\"amp_ip_3\" value=\"127.0.0.1\" placeholder"));
    assert!(rows.contains("name=\"amp_port_3\" value=\"5008\" min=\"0\""));
    assert!(rows.contains("name=\"amp_channel_enabled_3\" checked disabled />"));
    assert!(rows.contains("name=\"amp_channel_enabled_4\" checked  />"));
    assert!(g.table_rows(RowKind::Bridge, &losses()).contains("disabled"));
}

#[test]
fn notices_quote_their_text() {
    let mut params = TextMap::new();
    assert_eq!(make_notice(&params), "");
    params.insert("saved".to_string(), "true".to_string());
    assert_eq!(
        make_notice(&params),
        "<script>window.__initialToast = { message: \"Configuration saved successfully and synced to console panel.\", type: \"success\" };</script>"
    );
    params.insert("error".to_string(), "a \"b\" \\ \n\t\u{1} ä".to_string());
    assert_eq!(
        make_notice(&params),
        "<script>window.__initialToast = { message: \"a \\\"b\\\" \\\\ \\n\\t\\u0001 ä\", type: \"error\" };</script>"
    );
}
