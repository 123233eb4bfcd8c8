//! The frames of the settings pages, in pieces. A `§` marks a place to fill in.

use vstd::prelude::*;
use vstd::string::*;

verus! {

/// The head of the settings page.
pub const PAGE_HEAD: &'static str = r##"

        <!DOCTYPE html>
        <html lang="en">
        <head>
            <meta charset="UTF-8">
            <meta name="viewport" content="width=device-width, initial-scale=1.0">
            <title>Gateway Configuration</title>
"##;

/// The style of the settings page, part 1 of 5.
pub const PAGE_STYLE_1: &'static str = r##"            <style>
                :root{
                    --primary:#2563eb; --primary-hover:#1d4fd7; --primary-soft:#eff4ff;
                    --page:#eef1f5; --card:#ffffff; --ink:#0f172a; --muted:#5b6472; --faint:#8a94a3;
                    --line:#e4e8ee; --line-soft:#eef1f5; --track:#f5f7fa;
                    --ok:#0f7a4d; --ok-bg:#e9f7ef; --ok-line:#b7e2c8;
                    --warn:#b25e09; --warn-bg:#fdf3e6; --warn-line:#f4d9ac;
                    --err:#c02626; --err-bg:#fdecec; --err-line:#f5c4c4;
                    --mono:"SF Mono",ui-monospace,"Cascadia Mono",Menlo,Consolas,monospace;
                }
                *{ box-sizing:border-box; }
                body{ margin:0; background:var(--page); color:var(--ink);
                    font-family:-apple-system,BlinkMacSystemFont,"Segoe UI",Roboto,Helvetica,Arial,sans-serif;
                    font-size:14px; line-height:1.5; -webkit-font-smoothing:antialiased; }
                a{ color:inherit; }
                .topbar{ position:sticky; top:0; z-index:20; background:var(--card);
                    border-bottom:1px solid var(--line); box-shadow:0 1px 2px rgba(15,23,42,.03); }
                .topbar-inner{ max-width:100%; margin:0 auto; padding:14px 28px; display:flex; align-items:center; gap:16px; }
                .brand{ display:flex; align-items:center; gap:12px; }
                .brand-mark{ width:38px; height:38px; border-radius:0; background:var(--ink); color:#fff;
                    display:flex; align-items:center; justify-content:center; font-weight:700; font-size:13px; letter-spacing:.02em; }
                .brand-mark span{ color:#7ab0ff; }
                .brand-name{ font-size:15px; font-weight:700; letter-spacing:-.01em; line-height:1.1; }
                .brand-sub{ font-size:11.5px; color:var(--faint); font-weight:500; letter-spacing:.02em; }
                .topbar-spacer{ flex:1; }
                .pill{ display:inline-flex; align-items:center; gap:7px; font-size:12px; font-weight:600;
                    padding:6px 12px; border-radius:0; background:var(--ok-bg); color:var(--ok); border:1px solid var(--ok-line); }
                .pill .dot{ width:7px; height:7px; border-radius:0; background:var(--ok); box-shadow:0 0 0 3px rgba(15,122,77,.15); }
                .btn-ghost{ display:inline-flex; align-items:center; gap:7px; font-size:13px; font-weight:600; color:var(--muted);
                    background:transparent; border:1px solid var(--line); border-radius:0; padding:8px 14px; cursor:pointer; text-decoration:none; transition:.15s; }
                .btn-ghost:hover{ color:var(--ink); border-color:#cfd6e0; background:var(--track); }
                .wrap{ max-width:100%; margin:0 auto; padding:28px 28px 100px; }
"##;

/// The style of the settings page, part 2 of 5.
pub const PAGE_STYLE_2: &'static str = r##"                .tabs{ display:flex; gap:4px; background:var(--card); border:1px solid var(--line); border-radius:0; padding:5px; margin-bottom:24px; width:fit-content; }
                .tab-btn{ background:transparent; border:none; padding:9px 20px; font-family:inherit; font-size:13.5px; font-weight:600;
                    color:var(--muted); cursor:pointer; border-radius:0; transition:.15s; }
                .tab-btn:hover{ color:var(--ink); }
                .tab-btn.active{ color:var(--primary); background:var(--primary-soft); }
                .tab-panel{ display:none; }
                .tab-panel.active{ display:block; }
                .card{ background:var(--card); border:1px solid var(--line); border-radius:0; margin-bottom:20px; overflow:hidden; }
                .card.card-flat{ border-radius:0; }
                .card.card-flat .card-body{ padding:14px; }
                .card-head{ display:flex; align-items:center; gap:12px; padding:18px 22px; border-bottom:1px solid var(--line-soft); }
                .card-ico{ width:34px; height:34px; border-radius:0; background:var(--primary-soft); color:var(--primary);
                    display:flex; align-items:center; justify-content:center; flex:0 0 auto; }
                .card-ico svg{ width:18px; height:18px; }
                .card-title{ font-size:14.5px; font-weight:700; letter-spacing:-.01em; }
                .card-desc{ font-size:12px; color:var(--faint); font-weight:500; margin-top:1px; }
                .card-body{ padding:22px; }
                .grid2{ display:grid; grid-template-columns:1fr 1fr; gap:22px; }
                .grid3{ display:grid; grid-template-columns:1fr 1fr 1fr; gap:22px; }
                .field{ display:flex; flex-direction:column; gap:7px; }
                .field label{ font-size:11px; font-weight:700; color:var(--muted); text-transform:uppercase; letter-spacing:.06em; }
                input,select{ width:100%; height:38px; background:#fff; border:1px solid var(--line); color:var(--ink);
                    padding:0 12px; font-family:inherit; font-size:13.5px; border-radius:0; transition:.15s; }
                input::placeholder{ color:var(--faint); }
                input:focus,select:focus{ outline:none; border-color:var(--primary); box-shadow:0 0 0 3px rgba(37,99,235,.14); }
                input:disabled,select:disabled{ background:var(--track); color:var(--faint); cursor:not-allowed; }
                .table-scroll{ width:100%; overflow-x:auto; }
                table.grid{ width:100%; border-collapse:separate; border-spacing:0; min-width:1060px; }
                table.grid th{ background:var(--track); color:var(--muted); font-size:10.5px; font-weight:700;
                    text-transform:uppercase; letter-spacing:.05em; text-align:left; padding:11px 14px; border-bottom:1px solid var(--line); white-space:nowrap; }
"##;

/// The style of the settings page, part 3 of 5.
pub const PAGE_STYLE_3: &'static str = r##"                table.grid td{ padding:9px 14px; border-bottom:1px solid var(--line-soft); vertical-align:middle; }
                table.grid tr:last-child td{ border-bottom:none; }
                table.grid tbody tr:hover td{ background:#fafbfd; }
                table.grid input,table.grid select{ height:34px; font-size:13px; }
                .col-c{ text-align:center; }
                .slot{ font-family:var(--mono); font-weight:700; font-size:12.5px; color:var(--ink);
                    background:var(--track); border:1px solid var(--line); border-radius:0; padding:3px 8px; display:inline-block; }
                .status-badge{ display:inline-block; min-width:76px; text-align:center; font-size:10.5px; font-weight:700; letter-spacing:.04em;
                    padding:5px 8px; border-radius:0; border:1px solid var(--line); }
                .status-idle{ color:var(--muted); background:var(--track); border-color:var(--line); }
                .status-connected{ color:var(--ok); background:var(--ok-bg); border-color:var(--ok-line); }
                .status-ringing{ color:var(--warn); background:var(--warn-bg); border-color:var(--warn-line); }
                .status-failed{ color:var(--err); background:var(--err-bg); border-color:var(--err-line); }
                .chk{ width:18px; height:18px; accent-color:var(--primary); cursor:pointer; }
                .tel{ display:grid; grid-template-columns:repeat(3,minmax(44px,1fr)); gap:3px 10px; min-width:150px; }
                .tel .m{ display:flex; align-items:baseline; gap:5px; white-space:nowrap; }
                .tel .k{ font-size:9.5px; font-weight:700; color:var(--faint); letter-spacing:.04em; width:22px; }
                .tel .v{ font-family:var(--mono); font-size:11.5px; font-weight:600; color:var(--muted); }
                .switch-row{ display:flex; align-items:center; gap:14px; padding:16px 18px; background:var(--primary-soft);
                    border:1px solid #d3e0fb; border-radius:0; margin-bottom:16px; }
                .switch{ position:relative; display:inline-block; width:44px; height:24px; flex:0 0 auto; }
                .switch input{ opacity:0; width:0; height:0; }
                .slider{ position:absolute; inset:0; background:#c3cbd8; border-radius:0; transition:.18s; cursor:pointer; }
                .slider:before{ content:""; position:absolute; height:18px; width:18px; left:3px; top:3px; background:#fff; border-radius:0; transition:.18s; box-shadow:0 1px 2px rgba(0,0,0,.2); }
                .switch input:checked + .slider{ background:var(--primary); }
                .switch input:checked + .slider:before{ transform:translateX(20px); }
                .switch-row .txt b{ font-size:13.5px; font-weight:700; }
                .switch-row .txt p{ margin:2px 0 0; font-size:12px; color:var(--muted); }
"##;

/// The style of the settings page, part 4 of 5.
pub const PAGE_STYLE_4: &'static str = r##"                .amp-dot{ display:inline-block; width:8px; height:8px; border-radius:0; background:#cbd3de; margin-right:7px; vertical-align:middle; }
                .amp-dot-live{ background:var(--err); box-shadow:0 0 0 0 rgba(192,38,38,.4); animation:amp-pulse 1.4s infinite; }
                .amp-txt{ font-size:11px; font-weight:700; color:var(--muted); letter-spacing:.03em; }
                @keyframes amp-pulse{ 0%{ box-shadow:0 0 0 0 rgba(192,38,38,.4);} 70%{ box-shadow:0 0 0 6px rgba(192,38,38,0);} 100%{ box-shadow:0 0 0 0 rgba(192,38,38,0);} }
                .note{ display:flex; align-items:flex-start; gap:7px; font-size:12px; color:var(--faint); line-height:1.5; padding:14px 22px 18px; }
                .note svg{ width:15px; height:15px; flex:0 0 auto; margin-top:1px; color:var(--faint); }
                .matrix-grid{ width:auto; border-collapse:collapse; border-spacing:0; min-width:0; }
                .matrix-grid th{ background:var(--track); color:var(--muted); font-size:10px; font-weight:700;
                    text-transform:uppercase; letter-spacing:.04em; text-align:center; padding:5px 8px; border:1px solid var(--line); white-space:nowrap; }
                .matrix-label-col{ text-align:center !important; white-space:nowrap; font-size:11.5px; font-weight:700; color:var(--ink);
                    padding:0 !important; width:30px; background:var(--track); border:1px solid var(--line); }
                .matrix-cell-td{ text-align:center; padding:0 !important; border:1px solid var(--line); }
                .matrix-cell{ width:28px; height:28px; display:block; margin:0; border-radius:0; background:var(--track); border:none; cursor:pointer; transition:.1s; }
                .matrix-cell:hover{ box-shadow:inset 0 0 0 2px var(--primary); }
                .matrix-cell.matrix-on{ background:var(--ok); }
                .matrix-cell.matrix-on:hover{ background:var(--ok); }
                .matrix-cell.matrix-pending{ opacity:.5; cursor:wait; }
                .actionbar{ position:fixed; left:50%; bottom:22px; z-index:30;
                    transform:translate(-50%, 140%); opacity:0; pointer-events:none;
                    background:var(--card); border:1px solid var(--line); box-shadow:0 8px 24px rgba(15,23,42,.16);
                    transition:transform .2s ease, opacity .2s ease; }
                .actionbar.visible{ transform:translate(-50%, 0); opacity:1; pointer-events:auto; }
                .actionbar-inner{ padding:12px 16px 12px 20px; display:flex; align-items:center; gap:16px; }
                .action-hint{ font-size:12px; color:var(--faint); white-space:nowrap; }
                .btn-primary{ background:var(--primary); color:#fff; border:none; padding:11px 26px; font-family:inherit; font-weight:700;
"##;

/// The style of the settings page, part 5 of 5.
pub const PAGE_STYLE_5: &'static str = r##"                    font-size:14px; border-radius:0; cursor:pointer; transition:.15s; box-shadow:0 1px 2px rgba(37,99,235,.25); white-space:nowrap; }
                .btn-primary:hover{ background:var(--primary-hover); }
                .btn-primary:active{ transform:scale(.98); }
                .toast-container{ position:fixed; top:20px; right:20px; z-index:50; display:flex; flex-direction:column; gap:10px; max-width:380px; }
                .toast{ padding:14px 18px; font-weight:600; font-size:13.5px; border-radius:0; box-shadow:0 6px 20px rgba(15,23,42,.14);
                    opacity:0; transform:translateY(-10px); transition:opacity .2s ease, transform .2s ease; }
                .toast.show{ opacity:1; transform:translateY(0); }
                .toast-ok{ color:var(--ok); background:var(--ok-bg); border:1px solid var(--ok-line); }
                .toast-err{ color:var(--err); background:var(--err-bg); border:1px solid var(--err-line); }
            </style>
        </head>
"##;

/// The top of the settings page, with its notice.
pub const PAGE_TOP: &'static str = r##"        <body>
            <div id="toast-container" class="toast-container"></div>
            <div class="topbar">
                <div class="topbar-inner">
                    <div class="brand">
                        <div class="brand-mark">A<span>12</span></div>
                        <div>
                            <div class="brand-name">Aquilla 12 Gateway</div>
                            <div class="brand-sub">Secure Voice Configuration Console</div>
                        </div>
                    </div>
                    <div class="topbar-spacer"></div>
                    <div class="pill"><span class="dot"></span> System Active</div>
                    <a href="/config" class="btn-ghost"><svg viewBox="0 0 24 24" fill="none" stroke="currentColor" stroke-width="2"><path d="M23 4v6h-6M1 20v-6h6"/><path d="M3.5 9a9 9 0 0 1 14.9-3.4L23 10M1 14l4.6 4.4A9 9 0 0 0 20.5 15"/></svg> Refresh</a>
                </div>
            </div>

            <div class="wrap">
                §

                <div class="tabs">
                    <button type="button" class="tab-btn active" data-tab="tab-channels" onclick="switchTab('tab-channels', this)">Channels</button>
                    <button type="button" class="tab-btn" data-tab="tab-amp" onclick="switchTab('tab-amp', this)">A-MP</button>
                    <button type="button" class="tab-btn" data-tab="tab-bridge" onclick="switchTab('tab-bridge', this)">AMP Bridge</button>
                    <button type="button" class="tab-btn" data-tab="tab-dispatch" onclick="switchTab('tab-dispatch', this)">Dispatcher</button>
                </div>

"##;

/// The card of the listening port and the device.
pub const PAGE_SYSTEM: &'static str = r##"                <form id="config-form" method="POST" action="/config/save" onsubmit="handleSubmit(event)">
                  <div id="tab-channels" class="tab-panel active">
                    <div class="card">
                      <div class="card-head">
                        <div class="card-ico"><svg viewBox="0 0 24 24" fill="none" stroke="currentColor" stroke-width="2"><circle cx="12" cy="12" r="3"/><path d="M19.4 15a1.65 1.65 0 0 0 .33 1.82l.06.06a2 2 0 1 1-2.83 2.83l-.06-.06a1.65 1.65 0 0 0-1.82-.33 1.65 1.65 0 0 0-1 1.51V21a2 2 0 0 1-4 0v-.09A1.65 1.65 0 0 0 9 19.4a1.65 1.65 0 0 0-1.82.33l-.06.06a2 2 0 1 1-2.83-2.83l.06-.06a1.65 1.65 0 0 0 .33-1.82 1.65 1.65 0 0 0-1.51-1H3a2 2 0 0 1 0-4h.09A1.65 1.65 0 0 0 4.6 9a1.65 1.65 0 0 0-.33-1.82l-.06-.06a2 2 0 1 1 2.83-2.83l.06.06a1.65 1.65 0 0 0 1.82.33H9a1.65 1.65 0 0 0 1-1.51V3a2 2 0 0 1 4 0v.09a1.65 1.65 0 0 0 1 1.51 1.65 1.65 0 0 0 1.82-.33l.06-.06a2 2 0 1 1 2.83 2.83l-.06.06a1.65 1.65 0 0 0-.33 1.82V9a1.65 1.65 0 0 0 1.51 1H21a2 2 0 0 1 0 4h-.09a1.65 1.65 0 0 0-1.51 1z"/></svg></div>
                        <div><div class="card-title">System Interface</div><div class="card-desc">Primary signalling port and audio capture device</div></div>
                      </div>
                      <div class="card-body">
                        <div class="grid2">
                          <div class="field">
                            <label for="sip_port">Listening Port</label>
                            <input type="number" id="sip_port" name="sip_port" value="§" min="1024" max="65535" required />
                          </div>
                          <div class="field">
                            <label for="selected_device">Active Audio Input Interface</label>
                            <select id="selected_device" name="selected_device">§</select>
                          </div>
                        </div>
                      </div>
                    </div>

"##;

/// The card of the channels.
pub const PAGE_CHANNELS: &'static str = r##"                    <div class="card">
                      <div class="card-head">
                        <div class="card-ico"><svg viewBox="0 0 24 24" fill="none" stroke="currentColor" stroke-width="2"><rect x="2" y="7" width="20" height="14" rx="2"/><path d="M16 3v4M8 3v4M2 11h20"/></svg></div>
                        <div><div class="card-title">Port Mapping</div><div class="card-desc">Per-channel protocol, destination and live telemetry</div></div>
                      </div>
                      <div class="table-scroll">
                        <table class="grid">
                          <thead>
                            <tr>
                              <th class="col-c">Slot</th>
                              <th>Protocol</th>
                              <th>Status</th>
                              <th>Channel Alias</th>
                              <th class="col-c">SRTP</th>
                              <th class="col-c">SIP Auth</th>
                              <th class="col-c">ED-137</th>
                              <th class="col-c">PTT ID</th>
                              <th>Receiver / User</th>
                              <th>Destination IP</th>
                              <th>Dest Port</th>
                              <th>Local Port</th>
                              <th>Codec</th>
                              <th>Stream Quality</th>
                            </tr>
                          </thead>
                          <tbody>
                            §
                          </tbody>
                        </table>
                      </div>
                      <div class="note"><svg viewBox="0 0 24 24" fill="none" stroke="currentColor" stroke-width="2"><circle cx="12" cy="12" r="10"/><path d="M12 16v-4M12 8h.01"/></svg><span>Channel parameters (alias, destination, codec) cannot be modified while a channel is active (routing or dialing).</span></div>
                    </div>
                  </div>

"##;

/// The tab of the recorders.
pub const PAGE_RECORDERS: &'static str = r##"                  <div id="tab-amp" class="tab-panel">
                    <div class="card">
                      <div class="card-head">
                        <div class="card-ico"><svg viewBox="0 0 24 24" fill="none" stroke="currentColor" stroke-width="2"><circle cx="12" cy="12" r="3"/><circle cx="12" cy="12" r="9"/></svg></div>
                        <div><div class="card-title">A-MP (Aquilla Multiduplex Protocol)</div><div class="card-desc">Duplicate active calls to a recording destination</div></div>
                      </div>
                      <div class="card-body">
                        <div class="switch-row">
                          <label class="switch"><input type="checkbox" id="amp_enabled" name="amp_enabled" § /><span class="slider"></span></label>
                          <div class="txt"><b>Enable audio stream mirroring</b><p>Global master switch. Set a channel port to 0 to disable mirroring for that channel.</p></div>
                        </div>
                        <div class="table-scroll">
                          <table class="grid">
                            <thead>
                              <tr>
                                <th class="col-c">Slot</th>
                                <th>Channel Alias</th>
                                <th class="col-c">Enable</th>
                                <th>Recorder Destination IP</th>
                                <th>Recorder UDP Port</th>
                                <th class="col-c">Mirror State</th>
                              </tr>
                            </thead>
                            <tbody>
                              §
                            </tbody>
                          </table>
                        </div>
                      </div>
                    </div>
                  </div>

"##;

/// The tab of the bridges.
pub const PAGE_BRIDGES: &'static str = r##"                  <div id="tab-bridge" class="tab-panel">
                    <div class="card">
                      <div class="card-head">
                        <div class="card-ico"><svg viewBox="0 0 24 24" fill="none" stroke="currentColor" stroke-width="2"><path d="M17 1l4 4-4 4"/><path d="M3 11V9a4 4 0 0 1 4-4h14"/><path d="M7 23l-4-4 4-4"/><path d="M21 13v2a4 4 0 0 1-4 4H3"/></svg></div>
                        <div><div class="card-title">AMP Bridge</div><div class="card-desc">Two-way interop leg mixed live into the call &mdash; not just a recording tap</div></div>
                      </div>
                      <div class="card-body">
                        <div class="switch-row">
                          <label class="switch"><input type="checkbox" id="bridge_enabled" name="bridge_enabled" § /><span class="slider"></span></label>
                          <div class="txt"><b>Enable AMP Bridge</b><p>Global master switch. The bridge leg is started/stopped with the call and is heard on, and can talk into, both ends of the primary channel.</p></div>
                        </div>
                        <div class="table-scroll">
                          <table class="grid">
                            <thead>
                              <tr>
                                <th class="col-c">Slot</th>
                                <th>Channel Alias</th>
                                <th class="col-c">Enable</th>
                                <th>AMP Bridge Destination IP</th>
                                <th>AMP Bridge UDP Port</th>
                                <th>Local Port (tell the AMP Bridge peer to send here)</th>
                                <th class="col-c">Bridge State</th>
                              </tr>
                            </thead>
                            <tbody>
                              §
                            </tbody>
                          </table>
                        </div>
                        <div class="note"><svg viewBox="0 0 24 24" fill="none" stroke="currentColor" stroke-width="2"><circle cx="12" cy="12" r="10"/><path d="M12 16v-4M12 8h.01"/></svg><span>Unlike A-MP, this is a live two-way leg: the AMP Bridge party is mixed into the local speaker output and forwarded to the primary destination as its own RTP stream.</span></div>
                      </div>
                    </div>
                  </div>

"##;

/// The tab of the groups.
pub const PAGE_GROUPS: &'static str = r##"                  <div id="tab-dispatch" class="tab-panel">
                    §
                    §
                  </div>

                  <div id="actionbar" class="actionbar">
                    <div class="actionbar-inner">
                      <span class="action-hint">Unsaved changes &mdash; new calls only</span>
                      <button type="submit" class="btn-primary">Apply Configuration</button>
                    </div>
                  </div>
                </form>
            </div>
"##;

/// The script of the settings page, part 1 of 7.
pub const PAGE_SCRIPT_1: &'static str = r##"            <script>
            // Toast notifications — replaces the old full-width alert banner
            // that required a page reload (?saved=true / ?error=...) to show.
            function showToast(message, type) {
                const container = document.getElementById("toast-container");
                if (!container) return;
                const toast = document.createElement("div");
                toast.className = "toast " + (type === "error" ? "toast-err" : "toast-ok");
                toast.textContent = message;
                container.appendChild(toast);
                requestAnimationFrame(() => toast.classList.add("show"));
                setTimeout(() => {
                    toast.classList.remove("show");
                    setTimeout(() => toast.remove(), 250);
                }, 5000);
            }

            // Floating "Apply Configuration" button — only shown once the form
            // has unsaved changes, hidden again right after a successful save.
            const configForm = document.getElementById("config-form");
            const actionbar = document.getElementById("actionbar");
            let formIsDirty = false;
            function markFormDirty() {
                if (!formIsDirty) {
                    formIsDirty = true;
                    if (actionbar) actionbar.classList.add("visible");
                }
            }
            function clearFormDirty() {
                formIsDirty = false;
                if (actionbar) actionbar.classList.remove("visible");
            }
            if (configForm) {
                configForm.addEventListener("input", markFormDirty);
                configForm.addEventListener("change", markFormDirty);
            }

            function switchTab(tabId, btn) {
                document.querySelectorAll(".tab-panel").forEach((p) => p.classList.remove("active"));
                document.querySelectorAll(".tab-btn").forEach((b) => b.classList.remove("active"));
                const panel = document.getElementById(tabId);
                if (panel) panel.classList.add("active");
                if (btn) btn.classList.add("active");
            }

            // Dispatcher patch matrix — instant toggle, no Apply/reload.
            function toggleDispatchCell(el) {
                if (el.classList.contains("matrix-pending")) return;
                const channelId = parseInt(el.dataset.channel, 10);
                const groupId = parseInt(el.dataset.group, 10);
                el.classList.add("matrix-pending");
                fetch("/api/dispatch/toggle", {
                    method: "POST",
                    headers: { "Content-Type": "application/json" },
                    body: JSON.stringify({ groupId: groupId, channelId: channelId })
                }).then((r) => r.json()).then((data) => {
"##;

/// The script of the settings page, part 2 of 7.
pub const PAGE_SCRIPT_2: &'static str = r##"                    el.classList.remove("matrix-pending");
                    if (data && data.success) {
                        el.classList.toggle("matrix-on", !!data.isMember);
                    }
                }).catch(() => {
                    el.classList.remove("matrix-pending");
                });
            }

            // Keep the matrix in sync with changes made from elsewhere (the
            // console app's own quick-access matrix, or another admin tab).
            (function connectDispatchMatrixSync() {
                function connect() {
                    try {
                        const proto = window.location.protocol === "https:" ? "wss:" : "ws:";
                        const ws = new WebSocket(proto + "//" + window.location.host + "/events");
                        ws.onmessage = function (evt) {
                            try {
                                const payload = JSON.parse(evt.data);
                                if (payload.type === "dispatch_matrix_update") {
                                    const groups = payload.data.groups || [];
                                    groups.forEach(function (g) {
                                        document.querySelectorAll('.matrix-cell[data-group="' + g.id + '"]').forEach(function (cell) {
                                            const chId = parseInt(cell.dataset.channel, 10);
                                            const isMember = (g.memberIds || []).indexOf(chId) !== -1;
                                            cell.classList.toggle("matrix-on", isMember);
                                        });
                                    });
                                }
                            } catch (e) { /* ignore malformed message */ }
                        };
                        ws.onclose = function () { setTimeout(connect, 3000); };
                        ws.onerror = function () { ws.close(); };
                    } catch (e) { /* WebSocket unavailable, matrix still works via direct clicks */ }
                }
                connect();
            })();
            function updateSipUserState(id) {
                const protoSelect = document.getElementsByName("protocol_" + id)[0];
                const sipUserInput = document.getElementsByName("sip_user_" + id)[0];
                const targetPortInput = document.getElementsByName("target_port_" + id)[0];
                if (protoSelect && sipUserInput) {
                    if (protoSelect.value === "RTP") {
                        sipUserInput.disabled = true;
                        sipUserInput.style.backgroundColor = "var(--track)";
                        sipUserInput.style.cursor = "not-allowed";
                        sipUserInput.value = "";
"##;

/// The script of the settings page, part 3 of 7.
pub const PAGE_SCRIPT_3: &'static str = r##"                        if (targetPortInput && (targetPortInput.value === "5060" || targetPortInput.value === "")) {
                            targetPortInput.value = "5004";
                        }
                    } else {
                        sipUserInput.disabled = false;
                        sipUserInput.style.backgroundColor = "#ffffff";
                        sipUserInput.style.cursor = "text";
                        if (targetPortInput && (targetPortInput.value === "5004" || targetPortInput.value === "")) {
                            targetPortInput.value = "5060";
                        }
                    }
                }
            }
            window.addEventListener("DOMContentLoaded", () => {
                for (let id = 1; id <= 12; id++) {
                    const protoSelect = document.getElementsByName("protocol_" + id)[0];
                    if (protoSelect) {
                        protoSelect.addEventListener("change", () => updateSipUserState(id));
                        updateSipUserState(id);
                    }
                }
                if (window.__initialToast) {
                    showToast(window.__initialToast.message, window.__initialToast.type);
                }
            });
            function handleSubmit(event) {
                event.preventDefault();
                document.querySelectorAll("input").forEach(i => i.style.borderColor = "");
                const errors = [];
                const sipPort = parseInt(document.getElementById("sip_port").value, 10);
                if (isNaN(sipPort) || sipPort < 1024 || sipPort > 65535) {
                    errors.push("Listening Port must be between 1024 and 65535.");
                    document.getElementById("sip_port").style.borderColor = "var(--err)";
                }
                const localPorts = {};
                const mirrorPorts = {};
                const bridgePorts = {};
                const ampEnabled = document.getElementById("amp_enabled").checked;
                const bridgeEnabled = document.getElementById("bridge_enabled").checked;
                for (let id = 1; id <= 12; id++) {
                    const labelInput = document.getElementsByName("label_" + id)[0];
                    const localPortInput = document.getElementsByName("local_port_" + id)[0];
                    const targetIpInput = document.getElementsByName("target_ip_" + id)[0];
                    const targetPortInput = document.getElementsByName("target_port_" + id)[0];
                    if (labelInput && !labelInput.disabled) {
                        const labelVal = labelInput.value.trim();
                        if (labelVal.length === 0) {
                            errors.push("Channel " + id + " Alias cannot be empty.");
                            labelInput.style.borderColor = "var(--err)";
"##;

/// The script of the settings page, part 4 of 7.
pub const PAGE_SCRIPT_4: &'static str = r##"                        }
                        const targetIpVal = targetIpInput.value.trim();
                        if (targetIpVal.length === 0) {
                            errors.push("Channel " + id + " Destination IP cannot be empty.");
                            targetIpInput.style.borderColor = "var(--err)";
                        }
                        const targetPortVal = parseInt(targetPortInput.value, 10);
                        if (isNaN(targetPortVal) || targetPortVal < 1 || targetPortVal > 65535) {
                            errors.push("Channel " + id + " Destination Port must be between 1 and 65535.");
                            targetPortInput.style.borderColor = "var(--err)";
                        }
                        if (localPortInput && localPortInput.value.trim() !== "") {
                            const localPortVal = parseInt(localPortInput.value, 10);
                            if (isNaN(localPortVal) || localPortVal < 1024 || localPortVal > 65535) {
                                errors.push("Channel " + id + " Local Port must be between 1024 and 65535.");
                                localPortInput.style.borderColor = "var(--err)";
                            } else if (localPortVal === sipPort) {
                                errors.push("Channel " + id + " Local Port (" + localPortVal + ") conflicts with primary Listening Port.");
                                localPortInput.style.borderColor = "var(--err)";
                            } else if (localPorts[localPortVal]) {
                                errors.push("Channel " + id + " Local Port (" + localPortVal + ") is duplicated with Channel " + localPorts[localPortVal] + ".");
                                localPortInput.style.borderColor = "var(--err)";
                                document.getElementsByName("local_port_" + localPorts[localPortVal])[0].style.borderColor = "var(--err)";
                            } else {
                                localPorts[localPortVal] = id;
                            }
                        }
                    }
                    const ampChanEnabledInput = document.getElementsByName("amp_channel_enabled_" + id)[0];
                    const ampPortInput = document.getElementsByName("amp_port_" + id)[0];
                    if (ampEnabled && ampChanEnabledInput && ampChanEnabledInput.checked) {
                        if (ampPortInput) {
                            const ampPortVal = parseInt(ampPortInput.value, 10);
                            if (isNaN(ampPortVal) || ampPortVal < 1 || ampPortVal > 65535) {
                                errors.push("Channel " + id + " Mirror Port must be between 1 and 65535 when mirroring is enabled.");
                                ampPortInput.style.borderColor = "var(--err)";
"##;

/// The script of the settings page, part 5 of 7.
pub const PAGE_SCRIPT_5: &'static str = r##"                            } else if (mirrorPorts[ampPortVal]) {
                                errors.push("Channel " + id + " Mirror Port (" + ampPortVal + ") is duplicated with Channel " + mirrorPorts[ampPortVal] + ".");
                                ampPortInput.style.borderColor = "var(--err)";
                                document.getElementsByName("amp_port_" + mirrorPorts[ampPortVal])[0].style.borderColor = "var(--err)";
                            } else {
                                mirrorPorts[ampPortVal] = id;
                            }
                        }
                    }

                    const bridgeChanEnabledInput = document.getElementsByName("bridge_channel_enabled_" + id)[0];
                    const bridgePortInput = document.getElementsByName("bridge_port_" + id)[0];
                    if (bridgeEnabled && bridgeChanEnabledInput && bridgeChanEnabledInput.checked) {
                        if (bridgePortInput) {
                            const bridgePortVal = parseInt(bridgePortInput.value, 10);
                            if (isNaN(bridgePortVal) || bridgePortVal < 1 || bridgePortVal > 65535) {
                                errors.push("Channel " + id + " Bridge Port must be between 1 and 65535 when AMP Bridge is enabled.");
                                bridgePortInput.style.borderColor = "var(--err)";
                            } else if (bridgePorts[bridgePortVal]) {
                                errors.push("Channel " + id + " Bridge Port (" + bridgePortVal + ") is duplicated with Channel " + bridgePorts[bridgePortVal] + ".");
                                bridgePortInput.style.borderColor = "var(--err)";
                                document.getElementsByName("bridge_port_" + bridgePorts[bridgePortVal])[0].style.borderColor = "var(--err)";
                            } else {
                                bridgePorts[bridgePortVal] = id;
                            }
                        }
                    }

                    const bridgeLocalPortInput = document.getElementsByName("bridge_local_port_" + id)[0];
                    if (bridgeLocalPortInput && bridgeLocalPortInput.value.trim() !== "") {
                        const bridgeLocalPortVal = parseInt(bridgeLocalPortInput.value, 10);
                        if (isNaN(bridgeLocalPortVal) || bridgeLocalPortVal < 1024 || bridgeLocalPortVal > 65535) {
                            errors.push("Channel " + id + " Bridge Local Port must be between 1024 and 65535.");
                            bridgeLocalPortInput.style.borderColor = "var(--err)";
                        } else if (bridgeLocalPortVal === sipPort) {
                            errors.push("Channel " + id + " Bridge Local Port (" + bridgeLocalPortVal + ") conflicts with primary Listening Port.");
"##;

/// The script of the settings page, part 6 of 7.
pub const PAGE_SCRIPT_6: &'static str = r##"                            bridgeLocalPortInput.style.borderColor = "var(--err)";
                        } else if (localPorts[bridgeLocalPortVal]) {
                            errors.push("Channel " + id + " Bridge Local Port (" + bridgeLocalPortVal + ") is duplicated with another Local Port on Channel " + localPorts[bridgeLocalPortVal] + ".");
                            bridgeLocalPortInput.style.borderColor = "var(--err)";
                        } else {
                            localPorts[bridgeLocalPortVal] = id;
                        }
                    }
                }
                const dispatchMirrorPorts = {};
                for (let gid = 1; gid <= 4; gid++) {
                    const mirrorEnabledInput = document.getElementsByName("dispatch_mirror_enabled_" + gid)[0];
                    const mirrorPortInput = document.getElementsByName("dispatch_mirror_port_" + gid)[0];
                    if (mirrorEnabledInput && mirrorEnabledInput.checked && mirrorPortInput) {
                        const mirrorPortVal = parseInt(mirrorPortInput.value, 10);
                        if (isNaN(mirrorPortVal) || mirrorPortVal < 1 || mirrorPortVal > 65535) {
                            errors.push("Dispatcher Group " + gid + " Mirror Port must be between 1 and 65535 when the mirror is enabled.");
                            mirrorPortInput.style.borderColor = "var(--err)";
                        } else if (dispatchMirrorPorts[mirrorPortVal]) {
                            errors.push("Dispatcher Group " + gid + " Mirror Port (" + mirrorPortVal + ") is duplicated with Group " + dispatchMirrorPorts[mirrorPortVal] + ".");
                            mirrorPortInput.style.borderColor = "var(--err)";
                            document.getElementsByName("dispatch_mirror_port_" + dispatchMirrorPorts[mirrorPortVal])[0].style.borderColor = "var(--err)";
                        } else {
                            dispatchMirrorPorts[mirrorPortVal] = gid;
                        }
                    }
                    const mirrorLocalPortInput = document.getElementsByName("dispatch_mirror_local_port_" + gid)[0];
                    if (mirrorLocalPortInput && mirrorLocalPortInput.value.trim() !== "") {
                        const mirrorLocalPortVal = parseInt(mirrorLocalPortInput.value, 10);
                        if (isNaN(mirrorLocalPortVal) || mirrorLocalPortVal < 1024 || mirrorLocalPortVal > 65535) {
                            errors.push("Dispatcher Group " + gid + " Local Port must be between 1024 and 65535.");
                            mirrorLocalPortInput.style.borderColor = "var(--err)";
                        } else if (mirrorLocalPortVal === sipPort) {
                            errors.push("Dispatcher Group " + gid + " Local Port (" + mirrorLocalPortVal + ") conflicts with primary Listening Port.");
"##;

/// The script of the settings page, part 7 of 7.
pub const PAGE_SCRIPT_7: &'static str = r##"                            mirrorLocalPortInput.style.borderColor = "var(--err)";
                        } else if (localPorts[mirrorLocalPortVal]) {
                            errors.push("Dispatcher Group " + gid + " Local Port (" + mirrorLocalPortVal + ") is duplicated with another Local Port on Channel " + localPorts[mirrorLocalPortVal] + ".");
                            mirrorLocalPortInput.style.borderColor = "var(--err)";
                        } else {
                            localPorts[mirrorLocalPortVal] = "Dispatcher Group " + gid;
                        }
                    }
                }
                if (errors.length > 0) {
                    const summary = errors.length === 1
                        ? errors[0]
                        : errors.length + " issues found: " + errors[0] + (errors.length > 1 ? " (+" + (errors.length - 1) + " more)" : "");
                    showToast(summary, "error");
                    const firstBad = document.querySelector('input[style*="border-color"]');
                    if (firstBad) firstBad.scrollIntoView({ behavior: "smooth", block: "center" });
                    return;
                }

                // Client-side validation passed — submit via fetch so the page
                // never reloads. Disabled fields and unchecked checkboxes are
                // automatically left out of FormData, same as a normal submit.
                const submitBtn = configForm.querySelector('button[type="submit"]');
                if (submitBtn) submitBtn.disabled = true;
                fetch(configForm.action || "/config/save", {
                    method: "POST",
                    headers: { "Accept": "application/json" },
                    body: new URLSearchParams(new FormData(configForm))
                }).then((r) => r.json().catch(() => ({})).then((data) => ({ ok: r.ok, data: data })))
                  .then(({ ok, data }) => {
                    if (ok && data && data.success) {
                        showToast(data.message || "Configuration saved successfully and synced to console panel.", "success");
                        clearFormDirty();
                    } else {
                        showToast((data && data.error) || "Failed to save configuration.", "error");
                    }
                }).catch(() => {
                    showToast("Failed to save configuration. Check the connection and try again.", "error");
                }).finally(() => {
                    if (submitBtn) submitBtn.disabled = false;
                });
            }
            </script>
        </body>
        </html>
        
        "##;

/// The head of the plain settings page.
pub const PLAIN_HEAD: &'static str = r##"
        <!DOCTYPE html>
        <html lang="en">
        <head>
            <meta charset="UTF-8">
            <meta name="viewport" content="width=device-width, initial-scale=1.0">
            <title>AQUILLA-12 GATEWAY CONFIGURATION</title>
"##;

/// The style of the plain settings page, part 1 of 3.
pub const PLAIN_STYLE_1: &'static str = r##"            <style>
                body {
                    background-color: #f3f4f6;
                    color: #1f2937;
                    font-family: -apple-system, BlinkMacSystemFont, "Segoe UI", Roboto, Helvetica, Arial, sans-serif;
                    margin: 0;
                    padding: 20px;
                    font-size: 14px;
                    line-height: 1.5;
                }
                h1, h2 {
                    color: #111827;
                    border-bottom: 1px solid #e5e7eb;
                    padding-bottom: 8px;
                    margin-top: 0;
                    font-weight: 600;
                }
                h1 {
                    font-size: 20px;
                }
                h2 {
                    font-size: 16px;
                }
                .container {
                    max-width: 98%;
                    width: 98%;
                    margin: 0 auto;
                    border: 1px solid #e5e7eb;
                    background: #ffffff;
                    padding: 24px;
                    box-shadow: 0 1px 3px rgba(0, 0, 0, 0.05);
                    border-radius: 6px;
                }
                .header-meta {
                    display: flex;
                    justify-content: space-between;
                    background: #f9fafb;
                    padding: 12px 16px;
                    border: 1px solid #e5e7eb;
                    margin-bottom: 24px;
                    border-radius: 4px;
                }
                .meta-item {
                    font-size: 12px;
                    color: #4b5563;
                }
                .meta-item span {
                    color: #111827;
                    font-weight: 600;
                }
                .section {
                    background: #ffffff;
                    border: 1px solid #e5e7eb;
                    padding: 20px;
                    margin-bottom: 24px;
                    border-radius: 4px;
                }
                .grid-settings {
                    display: grid;
                    grid-template-columns: 1fr 1fr;
                    gap: 20px;
                }
                .form-group {
                    display: flex;
                    flex-direction: column;
                    gap: 6px;
                }
                label {
                    color: #4b5563;
                    font-size: 12px;
                    font-weight: 600;
                }
                input, select {
                    background: #ffffff;
                    border: 1px solid #d1d5db;
                    color: #111827;
                    padding: 8px 12px;
                    font-family: inherit;
                    font-size: 14px;
                    border-radius: 4px;
                    box-sizing: border-box;
                    width: 100%;
"##;

/// The style of the plain settings page, part 2 of 3.
pub const PLAIN_STYLE_2: &'static str = r##"                }
                input:focus, select:focus {
                    border-color: #3b82f6;
                    outline: none;
                    box-shadow: 0 0 0 2px rgba(59, 130, 246, 0.1);
                }
                .channels-table {
                    width: 100%;
                    border-collapse: collapse;
                    margin-top: 12px;
                }
                .channels-table th, .channels-table td {
                    border: 1px solid #e5e7eb;
                    padding: 10px 12px;
                    text-align: left;
                    vertical-align: middle;
                }
                .channels-table th {
                    background: #f9fafb;
                    color: #4b5563;
                    font-size: 12px;
                    font-weight: 600;
                }
                .channels-table tr:nth-child(even) {
                    background: #fcfdfe;
                }
                .status-badge {
                    display: inline-block;
                    padding: 3px 8px;
                    font-size: 11px;
                    font-weight: 600;
                    text-align: center;
                    width: 75px;
                    border-radius: 4px;
                    border: 1px solid #d1d5db;
                }
                .status-idle { color: #4b5563; border-color: #d1d5db; background: #f3f4f6; }
                .status-ringing { color: #b45309; border-color: #fcd34d; background: #fef3c7; }
                .status-connected { color: #047857; border-color: #6ee7b7; background: #d1fae5; }
                .status-failed { color: #b91c1c; border-color: #fca5a5; background: #fee2e2; }
                
                .btn-submit {
                    background: #2563eb;
                    color: #ffffff;
                    border: none;
                    padding: 10px 24px;
                    font-family: inherit;
                    font-weight: 600;
                    font-size: 14px;
                    cursor: pointer;
                    border-radius: 4px;
                    transition: background 0.15s;
                }
                .btn-submit:hover {
                    background: #1d4ed8;
                }
                .alert-success {
                    border: 1px solid #6ee7b7;
                    background: #d1fae5;
                    color: #065f46;
                    padding: 12px 16px;
                    margin-bottom: 24px;
                    font-weight: 600;
                    border-radius: 4px;
                }
                .info-note {
                    font-size: 12px;
                    color: #6b7280;
                    margin-top: 15px;
                    line-height: 1.4;
                }
                .refresh-link {
                    color: #2563eb;
"##;

/// The style of the plain settings page, part 3 of 3.
pub const PLAIN_STYLE_3: &'static str = r##"                    text-decoration: none;
                }
                .refresh-link:hover {
                    text-decoration: underline;
                }
            </style>
        </head>
"##;

/// The form of the plain settings page, part 1 of 2.
pub const PLAIN_FORM_1: &'static str = r##"        <body>
            <div class="container">
                <h1>AQUILLA-12 :: Web Config Gateway</h1>
                
                <div class="header-meta">
                    <div class="meta-item">STATE: <span>ACTIVE</span></div>
                    <div class="meta-item"><a href="/config" class="refresh-link">Refresh Diagnostics</a></div>
                </div>

                §

                <form method="POST" action="/config/save">
                    <div class="section">
                        <h2>General Interface Configuration</h2>
                        <div class="grid-settings">
                            <div class="form-group">
                                <label for="sip_port">Local SIP Listening Port</label>
                                <input type="number" id="sip_port" name="sip_port" value="§" min="1" max="65535" required />
                            </div>
                            <div class="form-group">
                                <label for="selected_device">Active Audio Input Interface</label>
                                <select id="selected_device" name="selected_device">
                                    §
                                </select>
                            </div>
                        </div>
                    </div>

                    <div class="section">
                        <h2>Hardware Audio Channel Mapping</h2>
                        <table class="channels-table">
                            <thead>
                                <tr>
                                    <th style="width: 4%; text-align: center;">Slot</th>
                                    <th style="width: 8%;">Protocol</th>
                                    <th style="width: 8%;">Status</th>
                                    <th style="width: 12%;">Channel Alias</th>
                                    <th style="width: 6%; text-align: center;">SRTP</th>
                                    <th style="width: 6%; text-align: center;">SIP Auth</th>
                                    <th style="width: 10%;">SIP User</th>
                                    <th style="width: 14%;">Destination IP</th>
                                    <th style="width: 8%;">Dest Port</th>
                                    <th style="width: 8%;">Local Port</th>
                                    <th style="width: 8%;">Codec</th>
                                    <th style="width: 14%;">Live Telemetry Stream</th>
                                </tr>
                            </thead>
                            <tbody>
                                §
                            </tbody>
                        </table>
                        <div class="info-note">
"##;

/// The form of the plain settings page, part 2 of 2.
pub const PLAIN_FORM_2: &'static str = r##"                            * Note: Channel parameters (Alias, Destination, Codec) cannot be modified while the respective channel is active (Routing or Dialing).
                        </div>
                    </div>

                    <div style="text-align: right;">
                        <button type="submit" class="btn-submit">Apply Configuration</button>
                    </div>
                </form>
            </div>
"##;

/// The script of the plain settings page.
pub const PLAIN_SCRIPT: &'static str = r##"            <script>
            function updateSipUserState(id) {
                const protoSelect = document.getElementsByName("protocol_" + id)[0];
                const sipUserInput = document.getElementsByName("sip_user_" + id)[0];
                const targetPortInput = document.getElementsByName("target_port_" + id)[0];
                if (protoSelect && sipUserInput) {
                    if (protoSelect.value === "RTP") {
                        sipUserInput.disabled = true;
                        sipUserInput.style.backgroundColor = "#f3f4f6";
                        sipUserInput.style.cursor = "not-allowed";
                        sipUserInput.value = "";
                        if (targetPortInput && (targetPortInput.value === "5060" || targetPortInput.value === "")) {
                            targetPortInput.value = "5004";
                        }
                    } else {
                        sipUserInput.disabled = false;
                        sipUserInput.style.backgroundColor = "#ffffff";
                        sipUserInput.style.cursor = "text";
                        if (targetPortInput && (targetPortInput.value === "5004" || targetPortInput.value === "")) {
                            targetPortInput.value = "5060";
                        }
                    }
                }
            }
            window.addEventListener("DOMContentLoaded", () => {
                for (let id = 1; id <= 12; id++) {
                    const protoSelect = document.getElementsByName("protocol_" + id)[0];
                    if (protoSelect) {
                        protoSelect.addEventListener("change", () => updateSipUserState(id));
                        updateSipUserState(id);
                    }
                }
            });
            </script>
        </body>
        </html>
        "##;

/// The text of the settings page, with its marks.
pub open spec fn page_frame() -> Seq<char> {
    PAGE_HEAD@ + PAGE_STYLE_1@ + PAGE_STYLE_2@ + PAGE_STYLE_3@ + PAGE_STYLE_4@ + PAGE_STYLE_5@
        + PAGE_TOP@ + PAGE_SYSTEM@ + PAGE_CHANNELS@ + PAGE_RECORDERS@ + PAGE_BRIDGES@
        + PAGE_GROUPS@ + PAGE_SCRIPT_1@ + PAGE_SCRIPT_2@ + PAGE_SCRIPT_3@ + PAGE_SCRIPT_4@
        + PAGE_SCRIPT_5@ + PAGE_SCRIPT_6@ + PAGE_SCRIPT_7@
}

/// The text of the settings page, with its marks.
pub(crate) fn page_frame_text() -> (r: String)
    ensures
        r@ == page_frame(),
{
    let mut r = PAGE_HEAD.to_owned();
    r.append(PAGE_STYLE_1);
    r.append(PAGE_STYLE_2);
    r.append(PAGE_STYLE_3);
    r.append(PAGE_STYLE_4);
    r.append(PAGE_STYLE_5);
    r.append(PAGE_TOP);
    r.append(PAGE_SYSTEM);
    r.append(PAGE_CHANNELS);
    r.append(PAGE_RECORDERS);
    r.append(PAGE_BRIDGES);
    r.append(PAGE_GROUPS);
    r.append(PAGE_SCRIPT_1);
    r.append(PAGE_SCRIPT_2);
    r.append(PAGE_SCRIPT_3);
    r.append(PAGE_SCRIPT_4);
    r.append(PAGE_SCRIPT_5);
    r.append(PAGE_SCRIPT_6);
    r.append(PAGE_SCRIPT_7);
    r
}

/// The text of the plain settings page, with its marks.
pub open spec fn plain_page_frame() -> Seq<char> {
    PLAIN_HEAD@ + PLAIN_STYLE_1@ + PLAIN_STYLE_2@ + PLAIN_STYLE_3@ + PLAIN_FORM_1@ + PLAIN_FORM_2@
        + PLAIN_SCRIPT@
}

/// The text of the plain settings page, with its marks.
pub(crate) fn plain_page_frame_text() -> (r: String)
    ensures
        r@ == plain_page_frame(),
{
    let mut r = PLAIN_HEAD.to_owned();
    r.append(PLAIN_STYLE_1);
    r.append(PLAIN_STYLE_2);
    r.append(PLAIN_STYLE_3);
    r.append(PLAIN_FORM_1);
    r.append(PLAIN_FORM_2);
    r.append(PLAIN_SCRIPT);
    r
}

} // verus!
