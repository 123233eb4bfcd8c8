//! The texts of the settings pages. A `§` marks a place to fill in.

use vstd::prelude::*;

verus! {

/// An entry of the list of devices.
pub const DEVICE_OPTION: &'static str = r##"<option value="§" §>§</option>"##;

/// The entry of the list of devices for the default device.
pub const DEFAULT_DEVICE_OPTION: &'static str = r##"<option value="" §>None (Default System Audio)</option>"##;

/// A channel's row: its settings and how its call goes.
pub const CHANNEL_ROW: &'static str = r##"
            <tr>
                <td class="col-c"><span class="slot">§</span></td>
                <td>
                    <select name="protocol_§" §>
                        <option value="SIP" §>SIP</option>
                        <option value="RTP" §>RTP</option>
                    </select>
                </td>
                <td>
                    <span class="status-badge §">§</span>
                </td>
                <td>
                    <input type="text" name="label_§" value="§" § maxlength="7" required />
                </td>
                <td class="col-c">
                    <input type="checkbox" class="chk" name="srtp_enabled_§" § § />
                </td>
                <td class="col-c">
                    <input type="checkbox" class="chk" name="sip_auth_required_§" § § />
                </td>
                <td class="col-c">
                    <input type="checkbox" class="chk" name="ed137_enabled_§" § § title="Tag outgoing RTP with the ED-137A/B/C PTT/SQU header extension for interop with a real radio/VCS" />
                </td>
                <td>
                    <input type="number" name="ed137_ptt_id_§" value="§" § min="0" max="63" style="width:5em;" />
                </td>
                <td>
                    <input type="text" name="sip_user_§" value="§" § placeholder="receiver" />
                </td>
                <td>
                    <input type="text" name="target_ip_§" value="§" § placeholder="192.168.1.1" required />
                </td>
                <td>
                    <input type="number" name="target_port_§" value="§" § min="1" max="65535" required />
                </td>
                <td>
                    <input type="number" name="local_port_§" value="§" § placeholder="Auto" min="1024" max="65535" />
                </td>
                <td>
                    <select name="codec_§" §>
                        <option value="Opus" §>Opus</option>
                        <option value="G.722" §>G.722</option>
                        <option value="G.711µ" §>G.711µ</option>
                    </select>
                </td>
                <td>
                    <div class="tel">
                        <div class="m"><span class="k">DUR</span><span class="v">§s</span></div>
                        <div class="m"><span class="k">RX</span><span class="v">§k</span></div>
                        <div class="m"><span class="k">TX</span><span class="v">§k</span></div>
                        <div class="m"><span class="k">PL</span><span class="v">§%</span></div>
                        <div class="m"><span class="k">JIT</span><span class="v">§ms</span></div>
                        <div class="m"><span class="k">LAT</span><span class="v">§ms</span></div>
                    </div>
                </td>
            </tr>
            "##;

/// A channel's row in the table of recorders.
pub const RECORDER_ROW: &'static str = r##"
            <tr>
                <td class="col-c"><span class="slot">§</span></td>
                <td style="color:var(--muted);">§</td>
                <td class="col-c">
                    <input type="checkbox" class="chk" name="amp_channel_enabled_§" § § />
                </td>
                <td>
                    <input type="text" name="amp_ip_§" value="§" placeholder="127.0.0.1" />
                </td>
                <td>
                    <input type="number" name="amp_port_§" value="§" min="0" max="65535" />
                </td>
                <td class="col-c">
                    <span class="§"></span><span class="amp-txt">§</span>
                </td>
            </tr>
            "##;

/// A channel's row in the table of bridges.
pub const BRIDGE_ROW: &'static str = r##"
            <tr>
                <td class="col-c"><span class="slot">§</span></td>
                <td style="color:var(--muted);">§</td>
                <td class="col-c">
                    <input type="checkbox" class="chk" name="bridge_channel_enabled_§" § § />
                </td>
                <td>
                    <input type="text" name="bridge_ip_§" value="§" placeholder="127.0.0.1" />
                </td>
                <td>
                    <input type="number" name="bridge_port_§" value="§" min="0" max="65535" />
                </td>
                <td>
                    <input type="number" name="bridge_local_port_§" value="§" § placeholder="Auto" min="1024" max="65535" />
                </td>
                <td class="col-c">
                    <span class="§"></span><span class="amp-txt">§</span>
                </td>
            </tr>
            "##;

/// The head of a group's column.
pub const MATRIX_HEAD: &'static str = r##"<th>§</th>"##;

/// The cell of a channel and a group.
pub const MATRIX_CELL: &'static str = r##"<td class="matrix-cell-td"><div class="matrix-cell§" data-channel="§" data-group="§" onclick="toggleDispatchCell(this)" title="CH§ &lt;-&gt; §"></div></td>"##;

/// A channel's row of cells.
pub const MATRIX_ROW: &'static str = r##"<tr><td class="matrix-label-col">§</td>§</tr>"##;

/// The matrix of channels and groups.
pub const MATRIX_CARD: &'static str = r##"
        <div class="card card-flat">
          <div class="card-head">
            <div class="card-ico"><svg viewBox="0 0 24 24" fill="none" stroke="currentColor" stroke-width="2"><circle cx="6" cy="6" r="3"/><circle cx="6" cy="18" r="3"/><path d="M20 4L8.12 15.88"/><path d="M14.47 14.48L20 20"/><path d="M8.12 8.12L12 12"/></svg></div>
            <div><div class="card-title">Patch Matrix</div><div class="card-desc">Click a cell to instantly patch/unpatch a channel into a group &mdash; takes effect immediately, even on calls already in progress. No Apply/reload needed.</div></div>
          </div>
          <div class="card-body">
            <div class="table-scroll">
              <table class="matrix-grid">
                <thead>
                  <tr><th class="matrix-label-col">CH</th>§</tr>
                </thead>
                <tbody>
                  §
                </tbody>
              </table>
            </div>
            <div class="note"><svg viewBox="0 0 24 24" fill="none" stroke="currentColor" stroke-width="2"><circle cx="12" cy="12" r="10"/><path d="M12 16v-4M12 8h.01"/></svg><span>Only channels that are already on a live call actually hear/talk to the rest of a patch. A green cell means that channel is currently patched into that group.</span></div>
          </div>
        </div>
        "##;

/// A group's row of settings.
pub const GROUP_ROW: &'static str = r##"
            <tr>
                <td class="col-c"><span class="slot">P§</span></td>
                <td><input type="text" name="dispatch_name_§" value="§" maxlength="24" /></td>
                <td class="col-c"><input type="checkbox" class="chk" name="dispatch_mirror_enabled_§" § /></td>
                <td><input type="text" name="dispatch_mirror_ip_§" value="§" placeholder="127.0.0.1" /></td>
                <td><input type="number" name="dispatch_mirror_port_§" value="§" min="0" max="65535" /></td>
                <td><input type="number" name="dispatch_mirror_local_port_§" value="§" placeholder="Auto" min="1024" max="65535" /></td>
            </tr>
            "##;

/// The table of the groups' settings.
pub const GROUP_CARD: &'static str = r##"
        <div class="card">
          <div class="card-head">
            <div class="card-ico"><svg viewBox="0 0 24 24" fill="none" stroke="currentColor" stroke-width="2"><path d="M17 1l4 4-4 4"/><path d="M3 11V9a4 4 0 0 1 4-4h14"/><path d="M7 23l-4-4 4-4"/><path d="M21 13v2a4 4 0 0 1-4 4H3"/></svg></div>
            <div><div class="card-title">Patch Group Settings</div><div class="card-desc">Rename groups and configure each group's optional external mirror (e.g. a two-way headset resource) &mdash; same idea as AMP Bridge, shared across the whole group</div></div>
          </div>
          <div class="card-body">
            <div class="table-scroll">
              <table class="grid">
                <thead>
                  <tr>
                    <th class="col-c">Group</th>
                    <th>Name</th>
                    <th class="col-c">Mirror Enable</th>
                    <th>Mirror Destination IP</th>
                    <th>Mirror UDP Port</th>
                    <th>Local Port (tell the external party to send here)</th>
                  </tr>
                </thead>
                <tbody>
                  §
                </tbody>
              </table>
            </div>
          </div>
        </div>
        "##;

/// A notice of an error.
pub const ERROR_NOTICE: &'static str = r##"<script>window.__initialToast = { message: §, type: "error" };</script>"##;

/// The notice that the settings were saved.
pub const SAVED_NOTICE: &'static str = r##"<script>window.__initialToast = { message: "Configuration saved successfully and synced to console panel.", type: "success" };</script>"##;

/// A channel's row on the plain page.
pub const PLAIN_CHANNEL_ROW: &'static str = r##"
            <tr>
                <td style="font-weight: bold; text-align: center;">§</td>
                <td>
                    <select name="protocol_§" § style="width: 70px;">
                        <option value="SIP" §>SIP</option>
                        <option value="RTP" §>RTP</option>
                    </select>
                </td>
                <td>
                    <span class="status-badge §">§</span>
                </td>
                <td>
                    <input type="text" name="label_§" value="§" § style="width: 100px;" required />
                </td>
                <td style="text-align: center;">
                    <input type="checkbox" name="srtp_enabled_§" § § style="width: 20px; height: 20px; cursor: pointer;" />
                </td>
                <td style="text-align: center;">
                    <input type="checkbox" name="sip_auth_required_§" § § style="width: 20px; height: 20px; cursor: pointer;" />
                </td>
                <td>
                    <input type="text" name="sip_user_§" value="§" § style="width: 90px;" placeholder="receiver" />
                </td>
                <td>
                    <input type="text" name="target_ip_§" value="§" § style="width: 125px;" placeholder="192.168.1.1" required />
                </td>
                <td>
                    <input type="number" name="target_port_§" value="§" § style="width: 90px;" min="1" max="65535" required />
                </td>
                <td>
                    <input type="number" name="local_port_§" value="§" § style="width: 90px;" placeholder="Auto" min="1024" max="65535" />
                </td>
                <td>
                    <select name="codec_§" §>
                        <option value="Opus" §>Opus</option>
                        <option value="G.722" §>G.722</option>
                        <option value="G.711µ" §>G.711µ</option>
                    </select>
                </td>
                <td style="font-size: 11px; font-family: monospace; color: #9ca3af;">
                    Dur: §s | Rx: §kbps | Tx: §kbps | PL: §% | Jit: §ms | Lat: §ms
                </td>
            </tr>
            "##;

/// The notice on the plain page that the settings were saved.
pub const PLAIN_SAVED_NOTICE: &'static str = r##"<div class="alert-success">Configuration saved successfully and synced to console panel.</div>"##;

} // verus!
