//! The settings pages: what is filled into their texts.

use crate::config::{default_amp_ip, opt_text, DispatchGroup, GroupView, DISPATCH_GROUP_COUNT};
use crate::dispatch::on_roster;
use crate::events::{copy_or_empty, text_or_empty};
use crate::form_errors::two_digits;
use crate::page_frame::{
    page_frame, page_frame_text, plain_page_frame, plain_page_frame_text,
};
use crate::page_text::{
    BRIDGE_ROW, CHANNEL_ROW, DEFAULT_DEVICE_OPTION, DEVICE_OPTION, ERROR_NOTICE, GROUP_CARD,
    GROUP_ROW, MATRIX_CARD, MATRIX_CELL, MATRIX_HEAD, MATRIX_ROW, PLAIN_CHANNEL_ROW,
    PLAIN_SAVED_NOTICE, RECORDER_ROW, SAVED_NOTICE,
};
use crate::state::{
    group_index, lemma_group_from, Channel, ChannelStatus, ChannelView, Gateway, GatewayView,
};
use crate::text::{
    chars_of, decimal, decimal_string, digit_char, padded_number, str_same, strings, TextMap,
};
use vstd::prelude::*;
use vstd::string::*;

verus! {

// ---------------------------------------------------------------------------
// Filling in
// ---------------------------------------------------------------------------

/// A text with values in place of its marks, in turn. Marks that are left over
/// stay.
pub open spec fn filled(text: Seq<char>, values: Seq<Seq<char>>) -> Seq<char>
    decreases text.len(),
{
    if text.len() == 0 {
        Seq::empty()
    } else if text[0] == '§' && values.len() > 0 {
        values[0] + filled(text.skip(1), values.skip(1))
    } else {
        seq![text[0]] + filled(text.skip(1), values)
    }
}

/// Puts values in place of the marks of a text, in turn.
pub fn fill(text: &str, values: &Vec<String>) -> (r: String)
    ensures
        r@ == filled(text@, strings(values@)),
{
    let cs = chars_of(text);
    let len: usize = cs.len();
    let mut r = String::new();
    let mut i: usize = 0;
    let mut k: usize = 0;
    assert(cs@.skip(0) =~= cs@);
    assert(strings(values@).skip(0) =~= strings(values@));
    assert(r@ + filled(text@, strings(values@)) =~= filled(text@, strings(values@)));
    while i < len
        invariant
            len == cs@.len(),
            cs@ == text@,
            i <= len,
            k <= values@.len(),
            r@ + filled(cs@.skip(i as int), strings(values@).skip(k as int)) == filled(
                text@,
                strings(values@),
            ),
        decreases len - i,
    {
        let ghost before = r@;
        let ghost rest = cs@.skip(i as int);
        let ghost left = strings(values@).skip(k as int);
        assert(rest.skip(1) =~= cs@.skip(i as int + 1));
        assert(rest[0] == cs@[i as int]);
        if cs[i] == '§' && k < values.len() {
            assert(left[0] == values@[k as int]@);
            assert(left.skip(1) =~= strings(values@).skip(k as int + 1));
            r.append(values[k].as_str());
            assert(before + (left[0] + filled(rest.skip(1), left.skip(1))) =~= r@ + filled(
                rest.skip(1),
                left.skip(1),
            ));
            k += 1;
        } else {
            r.push(cs[i]);
            assert(before + (seq![rest[0]] + filled(rest.skip(1), left)) =~= r@ + filled(
                rest.skip(1),
                left,
            ));
        }
        i += 1;
    }
    assert(r@ + Seq::<char>::empty() =~= r@);
    r
}

/// A character as it is written in a page.
pub open spec fn escape_of(c: char) -> Seq<char> {
    if c == '<' {
        "&lt;"@
    } else if c == '>' {
        "&gt;"@
    } else if c == '"' {
        "&quot;"@
    } else if c == '\'' {
        "&#x27;"@
    } else if c == '&' {
        "&amp;"@
    } else {
        seq![c]
    }
}

/// A text as it is written in a page.
pub open spec fn escaped(s: Seq<char>) -> Seq<char>
    decreases s.len(),
{
    if s.len() == 0 {
        Seq::empty()
    } else {
        escaped(s.drop_last()) + escape_of(s.last())
    }
}

/// Writes a text so that it can stand in a page.
pub fn html_escape(input: &str) -> (r: String)
    ensures
        r@ == escaped(input@),
{
    let cs = chars_of(input);
    let mut r = String::new();
    let mut i: usize = 0;
    assert(cs@.take(0) =~= Seq::empty());
    while i < cs.len()
        invariant
            i <= cs@.len(),
            r@ == escaped(cs@.take(i as int)),
        decreases cs@.len() - i,
    {
        assert(cs@.take(i as int + 1).drop_last() =~= cs@.take(i as int));
        let c = cs[i];
        if c == '<' {
            r.append("&lt;");
        } else if c == '>' {
            r.append("&gt;");
        } else if c == '"' {
            r.append("&quot;");
        } else if c == '\'' {
            r.append("&#x27;");
        } else if c == '&' {
            r.append("&amp;");
        } else {
            let ghost before = r@;
            r.push(c);
            assert(before.push(c) =~= before + seq![c]);
        }
        i += 1;
    }
    assert(cs@.take(cs@.len() as int) =~= cs@);
    r
}

// ---------------------------------------------------------------------------
// Values
// ---------------------------------------------------------------------------

/// A word where a condition holds, and nothing else.
pub open spec fn word_if(on: bool, word: Seq<char>) -> Seq<char> {
    if on {
        word
    } else {
        Seq::empty()
    }
}

fn if_word(on: bool, word: &str) -> (r: String)
    ensures
        r@ == word_if(on, word@),
{
    if on {
        word.to_owned()
    } else {
        String::new()
    }
}

/// One of two words.
pub open spec fn word_or(on: bool, word: Seq<char>, other: Seq<char>) -> Seq<char> {
    if on {
        word
    } else {
        other
    }
}

fn pick_word(on: bool, word: &str, other: &str) -> (r: String)
    ensures
        r@ == word_or(on, word@, other@),
{
    if on {
        word.to_owned()
    } else {
        other.to_owned()
    }
}

/// A port, or nothing.
pub open spec fn port_or_empty(port: Option<u16>) -> Seq<char> {
    match port {
        Some(p) => decimal(p as nat),
        None => Seq::empty(),
    }
}

fn optional_port(port: Option<u16>) -> (r: String)
    ensures
        r@ == port_or_empty(port),
{
    match port {
        Some(p) => decimal_string(p as u64),
        None => String::new(),
    }
}

fn two_digit_string(n: u32) -> (r: String)
    ensures
        r@ == two_digits(n),
{
    padded_number(n as u64, 10, 2)
}

/// How a status is coloured.
pub open spec fn status_class(status: ChannelStatus) -> Seq<char> {
    match status {
        ChannelStatus::Connected => "status-connected"@,
        ChannelStatus::Ringing => "status-ringing"@,
        ChannelStatus::Incoming => "status-ringing"@,
        ChannelStatus::Failed => "status-failed"@,
        ChannelStatus::Idle => "status-idle"@,
    }
}

fn class_of(status: ChannelStatus) -> (r: &'static str)
    ensures
        r@ == status_class(status),
{
    match status {
        ChannelStatus::Connected => "status-connected",
        ChannelStatus::Ringing => "status-ringing",
        ChannelStatus::Incoming => "status-ringing",
        ChannelStatus::Failed => "status-failed",
        ChannelStatus::Idle => "status-idle",
    }
}

/// What a status is called on a page.
pub open spec fn status_word(status: ChannelStatus) -> Seq<char> {
    match status {
        ChannelStatus::Connected => "ROUTING"@,
        ChannelStatus::Ringing => "DIALING"@,
        ChannelStatus::Incoming => "INCOMING"@,
        ChannelStatus::Failed => "FAILED"@,
        ChannelStatus::Idle => "STANDBY"@,
    }
}

fn word_of(status: ChannelStatus) -> (r: &'static str)
    ensures
        r@ == status_word(status),
{
    match status {
        ChannelStatus::Connected => "ROUTING",
        ChannelStatus::Ringing => "DIALING",
        ChannelStatus::Incoming => "INCOMING",
        ChannelStatus::Failed => "FAILED",
        ChannelStatus::Idle => "STANDBY",
    }
}

/// A channel with a call cannot be edited.
pub open spec fn disabled(c: ChannelView) -> Seq<char> {
    word_if(!c.status.is_free(), "disabled"@)
}

impl Channel {
    fn disabled_word(&self) -> (r: String)
        ensures
            r@ == disabled(self@),
    {
        if_word(!self.status.free(), "disabled")
    }
}

// ---------------------------------------------------------------------------
// Rows
// ---------------------------------------------------------------------------

/// What stands in a channel's row of its identity.
pub open spec fn identity_values(c: ChannelView) -> Seq<Seq<char>> {
    seq![
        two_digits(c.id),
        decimal(c.id as nat),
        disabled(c),
        word_if(c.protocol == "SIP"@, "selected"@),
        word_if(c.protocol == "RTP"@, "selected"@),
        status_class(c.status),
        status_word(c.status),
        decimal(c.id as nat),
        escaped(c.label),
        disabled(c),
        decimal(c.id as nat),
        word_if(c.srtp_enabled, "checked"@),
        disabled(c),
        decimal(c.id as nat),
        word_if(c.sip_auth_required, "checked"@),
        disabled(c),
    ]
}

impl Channel {
    fn push_identity_values(&self, v: &mut Vec<String>)
        ensures
            strings(final(v)@) == strings(old(v)@) + identity_values(self@),
    {
        let ghost before = v@;
        v.push(two_digit_string(self.id));
        v.push(decimal_string(self.id as u64));
        v.push(self.disabled_word());
        v.push(if_word(str_same(self.protocol.as_str(), "SIP"), "selected"));
        v.push(if_word(str_same(self.protocol.as_str(), "RTP"), "selected"));
        v.push(class_of(self.status).to_owned());
        v.push(word_of(self.status).to_owned());
        v.push(decimal_string(self.id as u64));
        v.push(html_escape(self.label.as_str()));
        v.push(self.disabled_word());
        v.push(decimal_string(self.id as u64));
        v.push(if_word(self.srtp_enabled, "checked"));
        v.push(self.disabled_word());
        v.push(decimal_string(self.id as u64));
        v.push(if_word(self.sip_auth_required, "checked"));
        v.push(self.disabled_word());
        assert(strings(v@) =~= strings(before) + identity_values(self@));
    }
}

/// What stands in a channel's row of its radio.
pub open spec fn radio_values(c: ChannelView) -> Seq<Seq<char>> {
    seq![
        decimal(c.id as nat),
        word_if(c.ed137_enabled, "checked"@),
        disabled(c),
        decimal(c.id as nat),
        decimal(c.ed137_ptt_id as nat),
        disabled(c),
    ]
}

impl Channel {
    fn push_radio_values(&self, v: &mut Vec<String>)
        ensures
            strings(final(v)@) == strings(old(v)@) + radio_values(self@),
    {
        let ghost before = v@;
        v.push(decimal_string(self.id as u64));
        v.push(if_word(self.ed137_enabled, "checked"));
        v.push(self.disabled_word());
        v.push(decimal_string(self.id as u64));
        v.push(decimal_string(self.ed137_ptt_id as u64));
        v.push(self.disabled_word());
        assert(strings(v@) =~= strings(before) + radio_values(self@));
    }
}

/// What stands in a channel's row of where it calls.
pub open spec fn target_values(c: ChannelView) -> Seq<Seq<char>> {
    seq![
        decimal(c.id as nat),
        escaped(text_or_empty(c.sip_user)),
        disabled(c),
        decimal(c.id as nat),
        escaped(c.target_ip),
        disabled(c),
        decimal(c.id as nat),
        decimal(c.target_port as nat),
        disabled(c),
        decimal(c.id as nat),
        port_or_empty(c.local_port),
        disabled(c),
        decimal(c.id as nat),
        disabled(c),
        word_if(c.codec == "Opus"@, "selected"@),
        word_if(c.codec == "G.722"@, "selected"@),
        word_if(c.codec == "G.711µ"@, "selected"@),
    ]
}

impl Channel {
    fn push_target_values(&self, v: &mut Vec<String>)
        ensures
            strings(final(v)@) == strings(old(v)@) + target_values(self@),
    {
        let ghost before = v@;
        v.push(decimal_string(self.id as u64));
        v.push(html_escape(copy_or_empty(&self.sip_user).as_str()));
        v.push(self.disabled_word());
        v.push(decimal_string(self.id as u64));
        v.push(html_escape(self.target_ip.as_str()));
        v.push(self.disabled_word());
        v.push(decimal_string(self.id as u64));
        v.push(decimal_string(self.target_port as u64));
        v.push(self.disabled_word());
        v.push(decimal_string(self.id as u64));
        v.push(optional_port(self.local_port));
        v.push(self.disabled_word());
        v.push(decimal_string(self.id as u64));
        v.push(self.disabled_word());
        v.push(if_word(str_same(self.codec.as_str(), "Opus"), "selected"));
        v.push(if_word(str_same(self.codec.as_str(), "G.722"), "selected"));
        v.push(if_word(str_same(self.codec.as_str(), "G.711µ"), "selected"));
        assert(strings(v@) =~= strings(before) + target_values(self@));
    }
}

/// What stands in a channel's row of how its call goes.
pub open spec fn quality_values(c: ChannelView, loss: Seq<char>) -> Seq<Seq<char>> {
    seq![
        decimal(c.duration as nat),
        decimal(c.rx_kbps as nat),
        decimal(c.tx_kbps as nat),
        loss,
        decimal(c.jitter as nat),
        decimal(c.latency as nat),
    ]
}

impl Channel {
    fn push_quality_values(&self, v: &mut Vec<String>, loss: &str)
        ensures
            strings(final(v)@) == strings(old(v)@) + quality_values(self@, loss@),
    {
        let ghost before = v@;
        v.push(decimal_string(self.duration as u64));
        v.push(decimal_string(self.rx_kbps as u64));
        v.push(decimal_string(self.tx_kbps as u64));
        v.push(loss.to_owned());
        v.push(decimal_string(self.jitter as u64));
        v.push(decimal_string(self.latency as u64));
        assert(strings(v@) =~= strings(before) + quality_values(self@, loss@));
    }
}

/// What stands in a channel's row of its recorder. Its address and its port are open
/// while a call is up, too.
pub open spec fn recorder_values(c: ChannelView) -> Seq<Seq<char>> {
    seq![
        two_digits(c.id),
        escaped(c.label),
        decimal(c.id as nat),
        word_if(c.amp_enabled, "checked"@),
        disabled(c),
        decimal(c.id as nat),
        escaped(c.amp_ip),
        decimal(c.id as nat),
        decimal(c.amp_port as nat),
        word_or(c.amp_streaming, "amp-dot amp-dot-live"@, "amp-dot"@),
        word_or(c.amp_streaming, "STREAMING"@, "IDLE"@),
    ]
}

impl Channel {
    fn push_recorder_values(&self, v: &mut Vec<String>)
        ensures
            strings(final(v)@) == strings(old(v)@) + recorder_values(self@),
    {
        let ghost before = v@;
        v.push(two_digit_string(self.id));
        v.push(html_escape(self.label.as_str()));
        v.push(decimal_string(self.id as u64));
        v.push(if_word(self.amp_enabled, "checked"));
        v.push(self.disabled_word());
        v.push(decimal_string(self.id as u64));
        v.push(html_escape(self.amp_ip.as_str()));
        v.push(decimal_string(self.id as u64));
        v.push(decimal_string(self.amp_port as u64));
        v.push(pick_word(self.amp_streaming, "amp-dot amp-dot-live", "amp-dot"));
        v.push(pick_word(self.amp_streaming, "STREAMING", "IDLE"));
        assert(strings(v@) =~= strings(before) + recorder_values(self@));
    }
}

/// What stands in a channel's row of its bridge.
pub open spec fn bridge_values(c: ChannelView) -> Seq<Seq<char>> {
    seq![
        two_digits(c.id),
        escaped(c.label),
        decimal(c.id as nat),
        word_if(c.bridge_enabled, "checked"@),
        disabled(c),
        decimal(c.id as nat),
        escaped(c.bridge_ip),
        decimal(c.id as nat),
        decimal(c.bridge_port as nat),
        decimal(c.id as nat),
        port_or_empty(c.bridge_local_port),
        disabled(c),
        word_or(c.bridge_connected, "amp-dot amp-dot-live"@, "amp-dot"@),
        word_or(c.bridge_connected, "CONNECTED"@, "IDLE"@),
    ]
}

impl Channel {
    fn push_bridge_values(&self, v: &mut Vec<String>)
        ensures
            strings(final(v)@) == strings(old(v)@) + bridge_values(self@),
    {
        let ghost before = v@;
        v.push(two_digit_string(self.id));
        v.push(html_escape(self.label.as_str()));
        v.push(decimal_string(self.id as u64));
        v.push(if_word(self.bridge_enabled, "checked"));
        v.push(self.disabled_word());
        v.push(decimal_string(self.id as u64));
        v.push(html_escape(self.bridge_ip.as_str()));
        v.push(decimal_string(self.id as u64));
        v.push(decimal_string(self.bridge_port as u64));
        v.push(decimal_string(self.id as u64));
        v.push(optional_port(self.bridge_local_port));
        v.push(self.disabled_word());
        v.push(pick_word(self.bridge_connected, "amp-dot amp-dot-live", "amp-dot"));
        v.push(pick_word(self.bridge_connected, "CONNECTED", "IDLE"));
        assert(strings(v@) =~= strings(before) + bridge_values(self@));
    }
}

/// A channel's row of the settings page.
pub open spec fn channel_row(c: ChannelView, loss: Seq<char>) -> Seq<char> {
    filled(
        CHANNEL_ROW@,
        identity_values(c) + radio_values(c) + target_values(c) + quality_values(c, loss),
    )
}

/// A channel's row of the plain settings page, which knows no radio.
pub open spec fn plain_channel_row(c: ChannelView, loss: Seq<char>) -> Seq<char> {
    filled(
        PLAIN_CHANNEL_ROW@,
        identity_values(c) + target_values(c) + quality_values(c, loss),
    )
}

/// A channel's row in the table of recorders.
pub open spec fn recorder_row(c: ChannelView) -> Seq<char> {
    filled(RECORDER_ROW@, recorder_values(c))
}

/// A channel's row in the table of bridges.
pub open spec fn bridge_row(c: ChannelView) -> Seq<char> {
    filled(BRIDGE_ROW@, bridge_values(c))
}

impl Channel {
    /// The channel's row of the settings page; `loss` is the packet loss in words.
    pub fn settings_row(&self, loss: &str) -> (r: String)
        ensures
            r@ == channel_row(self@, loss@),
    {
        let mut v: Vec<String> = Vec::new();
        self.push_identity_values(&mut v);
        self.push_radio_values(&mut v);
        self.push_target_values(&mut v);
        self.push_quality_values(&mut v, loss);
        assert(strings(v@) =~= identity_values(self@) + radio_values(self@) + target_values(self@)
            + quality_values(self@, loss@));
        fill(CHANNEL_ROW, &v)
    }

    /// The channel's row of the plain settings page.
    pub fn plain_settings_row(&self, loss: &str) -> (r: String)
        ensures
            r@ == plain_channel_row(self@, loss@),
    {
        let mut v: Vec<String> = Vec::new();
        self.push_identity_values(&mut v);
        self.push_target_values(&mut v);
        self.push_quality_values(&mut v, loss);
        assert(strings(v@) =~= identity_values(self@) + target_values(self@) + quality_values(
            self@,
            loss@,
        ));
        fill(PLAIN_CHANNEL_ROW, &v)
    }

    /// The channel's row in the table of recorders.
    pub fn recorder_row(&self) -> (r: String)
        ensures
            r@ == recorder_row(self@),
    {
        let mut v: Vec<String> = Vec::new();
        self.push_recorder_values(&mut v);
        assert(strings(v@) =~= recorder_values(self@));
        fill(RECORDER_ROW, &v)
    }

    /// The channel's row in the table of bridges.
    pub fn bridge_row(&self) -> (r: String)
        ensures
            r@ == bridge_row(self@),
    {
        let mut v: Vec<String> = Vec::new();
        self.push_bridge_values(&mut v);
        assert(strings(v@) =~= bridge_values(self@));
        fill(BRIDGE_ROW, &v)
    }
}

/// What a table shows of each channel.
#[derive(Debug, Clone, Copy, PartialEq, Eq, Structural)]
pub enum RowKind {
    Settings,
    PlainSettings,
    Recorder,
    Bridge,
    Matrix,
}

/// A channel's row of a table. The packet loss is a text of its own.
pub open spec fn row(kind: RowKind, g: GatewayView, c: ChannelView, loss: Seq<char>) -> Seq<char> {
    match kind {
        RowKind::Settings => channel_row(c, loss),
        RowKind::PlainSettings => plain_channel_row(c, loss),
        RowKind::Recorder => recorder_row(c),
        RowKind::Bridge => bridge_row(c),
        RowKind::Matrix => matrix_row(g, c.id),
    }
}

/// The rows of the first so many channels.
pub open spec fn rows(
    kind: RowKind,
    g: GatewayView,
    losses: Seq<Seq<char>>,
    count: int,
) -> Seq<char>
    decreases count,
{
    if count <= 0 {
        Seq::empty()
    } else {
        let loss = if count <= losses.len() {
            losses[count - 1]
        } else {
            Seq::empty()
        };
        rows(kind, g, losses, count - 1) + row(kind, g, g.channels[count - 1], loss)
    }
}

// ---------------------------------------------------------------------------
// Groups
// ---------------------------------------------------------------------------

/// A group as the page shows it.
pub open spec fn group_of(g: GatewayView, id: u32) -> Option<GroupView> {
    match group_index(g.groups, id) {
        Some(i) => Some(g.groups[i]),
        None => None,
    }
}

/// The name of a group.
pub open spec fn group_title(g: GatewayView, id: u32) -> Seq<char> {
    match group_of(g, id) {
        Some(x) => x.name,
        None => "Patch "@ + decimal(id as nat),
    }
}

/// The heads of the columns of the first so many groups.
pub open spec fn matrix_heads(g: GatewayView, count: nat) -> Seq<char>
    decreases count,
{
    if count == 0 {
        Seq::empty()
    } else {
        matrix_heads(g, (count - 1) as nat) + filled(
            MATRIX_HEAD@,
            seq![escaped(group_title(g, count as u32))],
        )
    }
}

/// What stands in the cell of a channel and a group.
pub open spec fn cell_values(g: GatewayView, channel: u32, group: u32) -> Seq<Seq<char>> {
    seq![
        word_if(on_roster(g.groups, group, channel), " matrix-on"@),
        decimal(channel as nat),
        decimal(group as nat),
        two_digits(channel),
        escaped(group_title(g, group)),
    ]
}

/// The cells of a channel and the first so many groups.
pub open spec fn matrix_cells(g: GatewayView, channel: u32, count: nat) -> Seq<char>
    decreases count,
{
    if count == 0 {
        Seq::empty()
    } else {
        matrix_cells(g, channel, (count - 1) as nat) + filled(
            MATRIX_CELL@,
            cell_values(g, channel, count as u32),
        )
    }
}

/// A channel's row of the matrix.
pub open spec fn matrix_row(g: GatewayView, channel: u32) -> Seq<char> {
    filled(
        MATRIX_ROW@,
        seq![two_digits(channel), matrix_cells(g, channel, DISPATCH_GROUP_COUNT as nat)],
    )
}

/// What stands in a group's row of settings.
pub open spec fn group_values(g: GatewayView, id: u32) -> Seq<Seq<char>> {
    let n = decimal(id as nat);
    let x = group_of(g, id);
    seq![
        n,
        n,
        escaped(group_title(g, id)),
        n,
        word_if(x matches Some(y) && y.mirror_enabled, "checked"@),
        n,
        escaped(
            match x {
                Some(y) => y.mirror_ip,
                None => "127.0.0.1"@,
            },
        ),
        n,
        decimal(
            match x {
                Some(y) => y.mirror_port as nat,
                None => 0,
            },
        ),
        n,
        port_or_empty(
            match x {
                Some(y) => y.mirror_local_port,
                None => None,
            },
        ),
    ]
}

/// The rows of the settings of the first so many groups.
pub open spec fn group_rows(g: GatewayView, count: nat) -> Seq<char>
    decreases count,
{
    if count == 0 {
        Seq::empty()
    } else {
        group_rows(g, (count - 1) as nat) + filled(GROUP_ROW@, group_values(g, count as u32))
    }
}

impl Gateway {
    fn group_with(&self, id: u32) -> (r: Option<&DispatchGroup>)
        ensures
            match r {
                Some(x) => group_of(self@, id) == Some(x@),
                None => group_of(self@, id) is None,
            },
    {
        match self.find_group(id) {
            Some(i) => {
                assert(self@.groups[i as int] == self.dispatch_groups@[i as int]@);
                Some(&self.dispatch_groups[i])
            },
            None => None,
        }
    }

    fn title_of_group(&self, id: u32) -> (r: String)
        ensures
            r@ == group_title(self@, id),
    {
        match self.group_with(id) {
            Some(x) => x.name.clone(),
            None => {
                let mut r = "Patch ".to_owned();
                let n = decimal_string(id as u64);
                r.append(n.as_str());
                r
            },
        }
    }

    fn heads_of_matrix(&self) -> (r: String)
        ensures
            r@ == matrix_heads(self@, DISPATCH_GROUP_COUNT as nat),
    {
        let mut r = String::new();
        let mut id: u32 = 1;
        while id <= DISPATCH_GROUP_COUNT
            invariant
                1 <= id <= 5,
                r@ == matrix_heads(self@, (id - 1) as nat),
            decreases 5 - id,
        {
            let mut v: Vec<String> = Vec::new();
            let title = self.title_of_group(id);
            v.push(html_escape(title.as_str()));
            assert(strings(v@) =~= seq![escaped(group_title(self@, id))]);
            let head = fill(MATRIX_HEAD, &v);
            r.append(head.as_str());
            id += 1;
        }
        r
    }

    fn row_of_matrix(&self, channel: u32) -> (r: String)
        ensures
            r@ == matrix_row(self@, channel),
    {
        let mut cells = String::new();
        let mut id: u32 = 1;
        while id <= DISPATCH_GROUP_COUNT
            invariant
                1 <= id <= 5,
                cells@ == matrix_cells(self@, channel, (id - 1) as nat),
            decreases 5 - id,
        {
            let mut v: Vec<String> = Vec::new();
            let title = self.title_of_group(id);
            v.push(if_word(self.is_on_roster(id, channel), " matrix-on"));
            v.push(decimal_string(channel as u64));
            v.push(decimal_string(id as u64));
            v.push(two_digit_string(channel));
            v.push(html_escape(title.as_str()));
            assert(strings(v@) =~= cell_values(self@, channel, id));
            let cell = fill(MATRIX_CELL, &v);
            cells.append(cell.as_str());
            id += 1;
        }
        let mut v: Vec<String> = Vec::new();
        v.push(two_digit_string(channel));
        v.push(cells);
        assert(strings(v@) =~= seq![
            two_digits(channel),
            matrix_cells(self@, channel, DISPATCH_GROUP_COUNT as nat),
        ]);
        fill(MATRIX_ROW, &v)
    }

    fn rows_of_groups(&self) -> (r: String)
        ensures
            r@ == group_rows(self@, DISPATCH_GROUP_COUNT as nat),
    {
        let mut r = String::new();
        let mut id: u32 = 1;
        while id <= DISPATCH_GROUP_COUNT
            invariant
                1 <= id <= 5,
                r@ == group_rows(self@, (id - 1) as nat),
            decreases 5 - id,
        {
            let v = self.values_of_group(id);
            let row = fill(GROUP_ROW, &v);
            r.append(row.as_str());
            id += 1;
        }
        r
    }

    fn values_of_group(&self, id: u32) -> (r: Vec<String>)
        ensures
            strings(r@) == group_values(self@, id),
    {
        let title = self.title_of_group(id);
        let (enabled, ip, port, local_port) = match self.group_with(id) {
            Some(x) => (x.mirror_enabled, x.mirror_ip.clone(), x.mirror_port, x.mirror_local_port),
            None => (false, default_amp_ip(), 0, None),
        };
        let mut v: Vec<String> = Vec::new();
        v.push(decimal_string(id as u64));
        v.push(decimal_string(id as u64));
        v.push(html_escape(title.as_str()));
        v.push(decimal_string(id as u64));
        v.push(if_word(enabled, "checked"));
        v.push(decimal_string(id as u64));
        v.push(html_escape(ip.as_str()));
        v.push(decimal_string(id as u64));
        v.push(decimal_string(port as u64));
        v.push(decimal_string(id as u64));
        v.push(optional_port(local_port));
        assert(strings(v@) =~= group_values(self@, id));
        v
    }

    /// The rows of a table, one for each channel; `losses` holds the packet loss of
    /// each in words.
    pub fn table_rows(&self, kind: RowKind, losses: &Vec<String>) -> (r: String)
        ensures
            r@ == rows(kind, self@, strings(losses@), self@.channels.len() as int),
    {
        let mut r = String::new();
        let mut i: usize = 0;
        while i < self.channels.len()
            invariant
                i <= self.channels@.len(),
                r@ == rows(kind, self@, strings(losses@), i as int),
            decreases self.channels@.len() - i,
        {
            assert(self@.channels[i as int] == self.channels@[i as int]@);
            let c = &self.channels[i];
            let loss = if i < losses.len() {
                losses[i].as_str()
            } else {
                ""
            };
            proof {
                reveal_strlit("");
                assert(""@ =~= Seq::<char>::empty());
            }
            let row = match kind {
                RowKind::Settings => c.settings_row(loss),
                RowKind::PlainSettings => c.plain_settings_row(loss),
                RowKind::Recorder => c.recorder_row(),
                RowKind::Bridge => c.bridge_row(),
                RowKind::Matrix => self.row_of_matrix(c.id),
            };
            r.append(row.as_str());
            i += 1;
        }
        r
    }
}

// ---------------------------------------------------------------------------
// Devices and notices
// ---------------------------------------------------------------------------

/// What stands in the entry of a device.
pub open spec fn device_values(device: Seq<char>, current: Seq<char>) -> Seq<Seq<char>> {
    seq![escaped(device), word_if(device == current, "selected"@), escaped(device)]
}

/// The list of devices: the default one, and the first so many of the others.
pub open spec fn device_options(devices: Seq<Seq<char>>, current: Seq<char>, count: int) -> Seq<
    char,
>
    decreases count,
{
    if count <= 0 {
        filled(DEFAULT_DEVICE_OPTION@, seq![word_if(current.len() == 0, "selected"@)])
    } else {
        device_options(devices, current, count - 1) + filled(
            DEVICE_OPTION@,
            device_values(devices[count - 1], current),
        )
    }
}

/// The list of devices, with the current one chosen.
pub fn list_devices(devices: &Vec<String>, current: &str) -> (r: String)
    ensures
        r@ == device_options(strings(devices@), current@, devices@.len() as int),
{
    let mut v: Vec<String> = Vec::new();
    v.push(if_word(current.is_empty(), "selected"));
    assert(strings(v@) =~= seq![word_if(current@.len() == 0, "selected"@)]);
    let mut r = fill(DEFAULT_DEVICE_OPTION, &v);
    let mut i: usize = 0;
    while i < devices.len()
        invariant
            i <= devices@.len(),
            r@ == device_options(strings(devices@), current@, i as int),
        decreases devices@.len() - i,
    {
        let device = devices[i].as_str();
        let mut v: Vec<String> = Vec::new();
        v.push(html_escape(device));
        v.push(if_word(str_same(device, current), "selected"));
        v.push(html_escape(device));
        assert(strings(v@) =~= device_values(strings(devices@)[i as int], current@));
        let option = fill(DEVICE_OPTION, &v);
        r.append(option.as_str());
        i += 1;
    }
    r
}

/// A character as it is written in a JSON string.
pub open spec fn json_char(c: char) -> Seq<char> {
    if c == '"' {
        seq!['\\', '"']
    } else if c == '\\' {
        seq!['\\', '\\']
    } else if c == '\u{8}' {
        seq!['\\', 'b']
    } else if c == '\t' {
        seq!['\\', 't']
    } else if c == '\n' {
        seq!['\\', 'n']
    } else if c == '\u{c}' {
        seq!['\\', 'f']
    } else if c == '\r' {
        seq!['\\', 'r']
    } else if (c as u32) < 0x20 {
        seq!['\\', 'u', '0', '0', digit_char(c as nat / 16), digit_char(c as nat % 16)]
    } else {
        seq![c]
    }
}

/// The characters of a text as they are written in a JSON string.
pub open spec fn json_chars(s: Seq<char>) -> Seq<char>
    decreases s.len(),
{
    if s.len() == 0 {
        Seq::empty()
    } else {
        json_chars(s.drop_last()) + json_char(s.last())
    }
}

/// A text as a JSON string.
pub open spec fn json_string(s: Seq<char>) -> Seq<char> {
    seq!['"'] + json_chars(s) + seq!['"']
}

/// `serde_json::to_string` of a text: the text in quotes, with quotes, backslashes
/// and control characters escaped. It does not fail for a text.
#[verifier::external_body]
fn to_json(s: &str) -> (r: Option<String>)
    ensures
        opt_text(r) == Some(json_string(s@)),
{
    serde_json::to_string(s).ok()
}

/// The notice at the top of the settings page: of an error, or that the settings
/// were saved.
pub open spec fn notice(error: Option<Seq<char>>, saved: bool) -> Seq<char> {
    match error {
        Some(e) => filled(ERROR_NOTICE@, seq![json_string(e)]),
        None => word_if(saved, SAVED_NOTICE@),
    }
}

/// The notice at the top of the settings page, by the page's parameters.
pub fn make_notice(params: &TextMap) -> (r: String)
    ensures
        r@ == notice(
            if params@.contains_key("error"@) {
                Some(params@["error"@])
            } else {
                None
            },
            params@.contains_key("saved"@),
        ),
{
    match params.get("error") {
        Some(e) => {
            let json = match to_json(e.as_str()) {
                Some(t) => t,
                None => "\"Configuration error\"".to_owned(),
            };
            let mut v: Vec<String> = Vec::new();
            v.push(json);
            assert(strings(v@) =~= seq![json_string(e@)]);
            fill(ERROR_NOTICE, &v)
        },
        None => if_word(params.contains("saved"), SAVED_NOTICE),
    }
}

// ---------------------------------------------------------------------------
// Pages
// ---------------------------------------------------------------------------

/// The cards of the groups: the matrix, and the groups' settings.
pub open spec fn matrix_card(g: GatewayView) -> Seq<char> {
    filled(
        MATRIX_CARD@,
        seq![
            matrix_heads(g, DISPATCH_GROUP_COUNT as nat),
            rows(RowKind::Matrix, g, Seq::empty(), g.channels.len() as int),
        ],
    )
}

/// The card with the settings of the groups.
pub open spec fn group_card(g: GatewayView) -> Seq<char> {
    filled(GROUP_CARD@, seq![group_rows(g, DISPATCH_GROUP_COUNT as nat)])
}

/// What stands in the settings page, in turn: the notice, the listening port, the
/// devices, the channels, the recorders and whether they are on, the bridges and
/// whether they are on, the matrix and the groups.
pub open spec fn page_values(
    g: GatewayView,
    notice: Seq<char>,
    devices: Seq<Seq<char>>,
    losses: Seq<Seq<char>>,
) -> Seq<Seq<char>> {
    let n = g.channels.len() as int;
    seq![
        notice,
        decimal(g.sip_port as nat),
        device_options(devices, text_or_empty(g.selected_device), devices.len() as int),
        rows(RowKind::Settings, g, losses, n),
        word_if(g.amp_enabled, "checked"@),
        rows(RowKind::Recorder, g, losses, n),
        word_if(g.bridge_enabled, "checked"@),
        rows(RowKind::Bridge, g, losses, n),
        matrix_card(g),
        group_card(g),
    ]
}

/// What stands in the plain settings page, in turn: the notice, the listening port,
/// the devices and the channels.
pub open spec fn plain_page_values(
    g: GatewayView,
    saved: bool,
    devices: Seq<Seq<char>>,
    losses: Seq<Seq<char>>,
) -> Seq<Seq<char>> {
    seq![
        word_if(saved, PLAIN_SAVED_NOTICE@),
        decimal(g.sip_port as nat),
        device_options(devices, text_or_empty(g.selected_device), devices.len() as int),
        rows(RowKind::PlainSettings, g, losses, g.channels.len() as int),
    ]
}

impl Gateway {
    fn card_of_matrix(&self) -> (r: String)
        ensures
            r@ == matrix_card(self@),
    {
        let none: Vec<String> = Vec::new();
        assert(strings(none@) =~= Seq::<Seq<char>>::empty());
        let mut v: Vec<String> = Vec::new();
        v.push(self.heads_of_matrix());
        v.push(self.table_rows(RowKind::Matrix, &none));
        assert(strings(v@) =~= seq![
            matrix_heads(self@, DISPATCH_GROUP_COUNT as nat),
            rows(RowKind::Matrix, self@, Seq::empty(), self@.channels.len() as int),
        ]);
        fill(MATRIX_CARD, &v)
    }

    fn card_of_groups(&self) -> (r: String)
        ensures
            r@ == group_card(self@),
    {
        let mut v: Vec<String> = Vec::new();
        v.push(self.rows_of_groups());
        assert(strings(v@) =~= seq![group_rows(self@, DISPATCH_GROUP_COUNT as nat)]);
        fill(GROUP_CARD, &v)
    }

    /// The settings page.
    pub fn settings_page(&self, notice: &str, devices: &Vec<String>, losses: &Vec<String>) -> (r:
        String)
        ensures
            r@ == filled(
                page_frame(),
                page_values(self@, notice@, strings(devices@), strings(losses@)),
            ),
    {
        let current = copy_or_empty(&self.selected_device);
        let mut v: Vec<String> = Vec::new();
        v.push(notice.to_owned());
        v.push(decimal_string(self.sip_port as u64));
        v.push(list_devices(devices, current.as_str()));
        v.push(self.table_rows(RowKind::Settings, losses));
        v.push(if_word(self.amp_enabled, "checked"));
        v.push(self.table_rows(RowKind::Recorder, losses));
        v.push(if_word(self.bridge_enabled, "checked"));
        v.push(self.table_rows(RowKind::Bridge, losses));
        v.push(self.card_of_matrix());
        v.push(self.card_of_groups());
        assert(strings(v@) =~= page_values(self@, notice@, strings(devices@), strings(losses@)));
        let frame = page_frame_text();
        fill(frame.as_str(), &v)
    }

    /// The plain settings page.
    pub fn plain_settings_page(
        &self,
        saved: bool,
        devices: &Vec<String>,
        losses: &Vec<String>,
    ) -> (r: String)
        ensures
            r@ == filled(
                plain_page_frame(),
                plain_page_values(self@, saved, strings(devices@), strings(losses@)),
            ),
    {
        let current = copy_or_empty(&self.selected_device);
        let mut v: Vec<String> = Vec::new();
        v.push(if_word(saved, PLAIN_SAVED_NOTICE));
        v.push(decimal_string(self.sip_port as u64));
        v.push(list_devices(devices, current.as_str()));
        v.push(self.table_rows(RowKind::PlainSettings, losses));
        assert(strings(v@) =~= plain_page_values(
            self@,
            saved,
            strings(devices@),
            strings(losses@),
        ));
        let frame = plain_page_frame_text();
        fill(frame.as_str(), &v)
    }
}

// ---------------------------------------------------------------------------
// Laws
// ---------------------------------------------------------------------------

/// A text that was escaped holds no character that could end the place where it
/// stands in a page.
pub proof fn law_escaped_text_stays_in_place(s: Seq<char>, i: int)
    requires
        0 <= i < escaped(s).len(),
    ensures
        escaped(s)[i] != '<',
        escaped(s)[i] != '>',
        escaped(s)[i] != '"',
        escaped(s)[i] != '\'',
    decreases s.len(),
{
    reveal_strlit("&lt;");
    reveal_strlit("&gt;");
    reveal_strlit("&quot;");
    reveal_strlit("&#x27;");
    reveal_strlit("&amp;");
    let head = escaped(s.drop_last());
    if i < head.len() {
        law_escaped_text_stays_in_place(s.drop_last(), i);
    } else {
        assert(escaped(s)[i] == escape_of(s.last())[i - head.len()]);
    }
}

// ---------------------------------------------------------------------------
// What the pages show
// ---------------------------------------------------------------------------

/// A text is filled from its beginning: the first mark becomes the first value, what
/// stands before it stays, and the rest is filled with the other values. A text without
/// marks stays as it is, and so does one for which no value is left.
pub proof fn law_marks_become_values(
    head: Seq<char>,
    tail: Seq<char>,
    value: Seq<char>,
    others: Seq<Seq<char>>,
)
    requires
        !head.contains('§'),
    ensures
        filled(head + seq!['§'] + tail, seq![value] + others) == head + value + filled(tail, others),
        filled(head, others) == head,
        filled(tail, Seq::<Seq<char>>::empty()) == tail,
    decreases head.len(),
{
    lemma_nothing_filled(tail);
    lemma_head_kept(head, Seq::empty(), others);
    assert(head + Seq::<char>::empty() =~= head);
    assert(filled(Seq::<char>::empty(), others) =~= Seq::<char>::empty());
    assert(head + filled(Seq::<char>::empty(), others) =~= head);
    let rest = seq!['§'] + tail;
    let values = seq![value] + others;
    lemma_head_kept(head, rest, values);
    assert(head + seq!['§'] + tail =~= head + rest);
    assert(rest[0] == '§');
    assert(rest.skip(1) =~= tail);
    assert(values.skip(1) =~= others);
    assert(filled(rest, values) == value + filled(tail, others));
    assert(head + (value + filled(tail, others)) =~= head + value + filled(tail, others));
}

proof fn lemma_head_kept(head: Seq<char>, rest: Seq<char>, values: Seq<Seq<char>>)
    requires
        !head.contains('§'),
    ensures
        filled(head + rest, values) == head + filled(rest, values),
    decreases head.len(),
{
    let s = head + rest;
    if head.len() == 0 {
        assert(s =~= rest);
        assert(head + filled(rest, values) =~= filled(rest, values));
    } else {
        assert(s[0] == head[0] && head[0] != '§') by {
            assert(head.contains(head[0]));
        }
        let more = head.skip(1);
        assert(!more.contains('§')) by {
            if more.contains('§') {
                let k = choose|k: int| 0 <= k < more.len() && more[k] == '§';
                assert(head[k + 1] == '§');
            }
        }
        assert(s.skip(1) =~= more + rest);
        lemma_head_kept(more, rest, values);
        assert(seq![head[0]] + (more + filled(rest, values)) =~= head + filled(rest, values));
    }
}

proof fn lemma_nothing_filled(text: Seq<char>)
    ensures
        filled(text, Seq::<Seq<char>>::empty()) == text,
    decreases text.len(),
{
    if text.len() > 0 {
        lemma_nothing_filled(text.skip(1));
        assert(seq![text[0]] + text.skip(1) =~= text);
    } else {
        assert(text =~= Seq::<char>::empty());
    }
}

/// What is escaped: the five characters that mean something in a page, each by its own
/// name, and no other character.
pub proof fn law_escapes_by_name(s: Seq<char>, c: char)
    ensures
        escaped(s.push('<')) == escaped(s) + "&lt;"@,
        escaped(s.push('>')) == escaped(s) + "&gt;"@,
        escaped(s.push('"')) == escaped(s) + "&quot;"@,
        escaped(s.push('\'')) == escaped(s) + "&#x27;"@,
        escaped(s.push('&')) == escaped(s) + "&amp;"@,
        c != '<' && c != '>' && c != '"' && c != '\'' && c != '&' ==> escaped(s.push(c))
            == escaped(s) + seq![c],
        escaped(Seq::empty()) == Seq::<char>::empty(),
{
    assert(s.push('<').drop_last() =~= s);
    assert(s.push('>').drop_last() =~= s);
    assert(s.push('"').drop_last() =~= s);
    assert(s.push('\'').drop_last() =~= s);
    assert(s.push('&').drop_last() =~= s);
    assert(s.push(c).drop_last() =~= s);
}

/// A text in a script stands between quotation marks; those in it and backslashes are
/// marked by a backslash, line ends and the like by their letters, and what is printed
/// stays.
pub proof fn law_script_text_is_quoted(s: Seq<char>, c: char)
    ensures
        json_string(s) == seq!['"'] + json_chars(s) + seq!['"'],
        json_chars(s.push('"')) == json_chars(s) + seq!['\\', '"'],
        json_chars(s.push('\\')) == json_chars(s) + seq!['\\', '\\'],
        json_chars(s.push('\n')) == json_chars(s) + seq!['\\', 'n'],
        json_chars(s.push('\r')) == json_chars(s) + seq!['\\', 'r'],
        json_chars(s.push('\t')) == json_chars(s) + seq!['\\', 't'],
        (c as u32) >= 0x20 && c != '"' && c != '\\' ==> json_chars(s.push(c)) == json_chars(s)
            + seq![c],
        json_chars(Seq::empty()) == Seq::<char>::empty(),
{
    assert(s.push('"').drop_last() =~= s);
    assert(s.push('\\').drop_last() =~= s);
    assert(s.push('\n').drop_last() =~= s);
    assert(s.push('\r').drop_last() =~= s);
    assert(s.push('\t').drop_last() =~= s);
    assert(s.push(c).drop_last() =~= s);
}

/// A box of a page is ticked, a choice selected and a field closed exactly where the
/// channel says so; a channel with a call has its own fields closed.
#[verifier::rlimit(40)]
#[verifier::spinoff_prover]
pub proof fn law_row_shows_the_channel(c: ChannelView, loss: Seq<char>)
    ensures
        ({
            let closed = if c.status is Idle || c.status is Failed {
                Seq::empty()
            } else {
                "disabled"@
            };
            let first = identity_values(c);
            let radio = radio_values(c);
            let target = target_values(c);
            let quality = quality_values(c, loss);
            let id = decimal(c.id as nat);
            &&& first.len() == 16 && radio.len() == 6 && target.len() == 17 && quality.len() == 6
            &&& first[1] == id && first[7] == id && first[10] == id && first[13] == id
            &&& first[2] == closed && first[9] == closed && first[12] == closed && first[15]
                == closed
            &&& first[3] == "selected"@ <==> c.protocol == "SIP"@
            &&& first[4] == "selected"@ <==> c.protocol == "RTP"@
            &&& first[8] == escaped(c.label)
            &&& first[11] == "checked"@ <==> c.srtp_enabled
            &&& first[14] == "checked"@ <==> c.sip_auth_required
            &&& radio[0] == id && radio[3] == id
            &&& radio[1] == "checked"@ <==> c.ed137_enabled
            &&& radio[2] == closed && radio[5] == closed
            &&& radio[4] == decimal(c.ed137_ptt_id as nat)
            &&& c.sip_user matches Some(u) ==> target[1] == escaped(u)
            &&& target[4] == escaped(c.target_ip)
            &&& target[7] == decimal(c.target_port as nat)
            &&& c.local_port matches Some(p) ==> target[10] == decimal(p as nat)
            &&& c.local_port is None ==> target[10].len() == 0
            &&& target[14] == "selected"@ <==> c.codec == "Opus"@
            &&& target[15] == "selected"@ <==> c.codec == "G.722"@
            &&& target[16] == "selected"@ <==> c.codec == "G.711µ"@
            &&& quality[0] == decimal(c.duration as nat)
            &&& quality[1] == decimal(c.rx_kbps as nat)
            &&& quality[2] == decimal(c.tx_kbps as nat)
            &&& quality[3] == loss
            &&& quality[4] == decimal(c.jitter as nat)
            &&& quality[5] == decimal(c.latency as nat)
        }),
{
    reveal_strlit("selected");
    reveal_strlit("checked");
}

/// The rows of a recorder and of a bridge show the address and the ports of that leg, and
/// whether it is on and up.
#[verifier::rlimit(40)]
#[verifier::spinoff_prover]
pub proof fn law_leg_rows_show_the_legs(c: ChannelView)
    ensures
        ({
            let closed = if c.status is Idle || c.status is Failed {
                Seq::empty()
            } else {
                "disabled"@
            };
            let recorder = recorder_values(c);
            let bridge = bridge_values(c);
            let id = decimal(c.id as nat);
            &&& recorder.len() == 11 && bridge.len() == 14
            &&& recorder[1] == escaped(c.label) && bridge[1] == escaped(c.label)
            &&& recorder[2] == id && recorder[5] == id && recorder[7] == id
            &&& bridge[2] == id && bridge[5] == id && bridge[7] == id && bridge[9] == id
            &&& recorder[3] == "checked"@ <==> c.amp_enabled
            &&& bridge[3] == "checked"@ <==> c.bridge_enabled
            &&& recorder[4] == closed && bridge[4] == closed && bridge[11] == closed
            &&& recorder[6] == escaped(c.amp_ip) && bridge[6] == escaped(c.bridge_ip)
            &&& recorder[8] == decimal(c.amp_port as nat)
            &&& bridge[8] == decimal(c.bridge_port as nat)
            &&& c.bridge_local_port matches Some(p) ==> bridge[10] == decimal(p as nat)
            &&& c.bridge_local_port is None ==> bridge[10].len() == 0
            &&& recorder[10] == "STREAMING"@ <==> c.amp_streaming
            &&& recorder[10] == "IDLE"@ <==> !c.amp_streaming
            &&& bridge[13] == "CONNECTED"@ <==> c.bridge_connected
            &&& bridge[13] == "IDLE"@ <==> !c.bridge_connected
        }),
{
    reveal_strlit("checked");
    reveal_strlit("STREAMING");
    reveal_strlit("CONNECTED");
    reveal_strlit("IDLE");
    assert("STREAMING"@.len() != "IDLE"@.len());
    assert("CONNECTED"@.len() != "IDLE"@.len());
}

/// The page shows the port that the gateway listens on and its two switches, and in the
/// matrix a channel is marked in a group exactly where it is on its roster.
pub proof fn law_page_shows_the_gateway(
    g: GatewayView,
    note: Seq<char>,
    devices: Seq<Seq<char>>,
    losses: Seq<Seq<char>>,
    channel: u32,
    group: u32,
    saved: bool,
)
    ensures
        ({
            let page = page_values(g, note, devices, losses);
            let plain = plain_page_values(g, saved, devices, losses);
            let cell = cell_values(g, channel, group);
            &&& page.len() == 10 && plain.len() == 4
            &&& page[0] == note
            &&& page[1] == decimal(g.sip_port as nat) && plain[1] == decimal(g.sip_port as nat)
            &&& page[4] == "checked"@ <==> g.amp_enabled
            &&& page[6] == "checked"@ <==> g.bridge_enabled
            &&& cell[0] == " matrix-on"@ <==> on_roster(g.groups, group, channel)
            &&& cell[1] == decimal(channel as nat)
            &&& cell[2] == decimal(group as nat)
        }),
{
    reveal_strlit("checked");
    reveal_strlit(" matrix-on");
}

/// A group's row shows the group of that number.
pub proof fn law_group_row_shows_the_group(g: GatewayView, id: u32, i: int)
    requires
        0 <= i < g.groups.len(),
        g.groups[i].id == id,
        forall|k: int| 0 <= k < i ==> (#[trigger] g.groups[k]).id != id,
    ensures
        ({
            let set = g.groups[i];
            let shown = group_values(g, id);
            &&& shown.len() == 11
            &&& shown[0] == decimal(id as nat) && shown[1] == decimal(id as nat) && shown[3]
                == decimal(id as nat)
            &&& shown[2] == escaped(set.name)
            &&& shown[4] == "checked"@ <==> set.mirror_enabled
            &&& shown[6] == escaped(set.mirror_ip)
            &&& shown[8] == decimal(set.mirror_port as nat)
            &&& set.mirror_local_port matches Some(p) ==> shown[10] == decimal(p as nat)
            &&& set.mirror_local_port is None ==> shown[10].len() == 0
        }),
{
    reveal_strlit("checked");
    lemma_group_from(g.groups, id, 0);
}

/// What the state of a channel is called on the page.
pub proof fn law_states_are_named(status: ChannelStatus)
    ensures
        status is Idle ==> status_word(status) == "STANDBY"@ && status_class(status)
            == "status-idle"@,
        status is Ringing ==> status_word(status) == "DIALING"@ && status_class(status)
            == "status-ringing"@,
        status is Connected ==> status_word(status) == "ROUTING"@ && status_class(status)
            == "status-connected"@,
        status is Failed ==> status_word(status) == "FAILED"@ && status_class(status)
            == "status-failed"@,
        status is Incoming ==> status_word(status) == "INCOMING"@ && status_class(status)
            == "status-ringing"@,
{
}

/// The devices of the page: the first choice is the system's own, and each that is listed
/// follows in its order; the one that is set is selected, and the first where none is.
pub proof fn law_device_is_selected(device: Seq<char>, current: Seq<char>)
    ensures
        ({
            let shown = device_values(device, current);
            &&& shown.len() == 3
            &&& shown[0] == escaped(device) && shown[2] == escaped(device)
            &&& shown[1] == "selected"@ <==> device == current
        }),
{
    reveal_strlit("selected");
}

} // verus!
