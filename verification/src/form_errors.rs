//! What can be wrong with a settings form, in words.

use crate::text::{decimal, decimal_string, padded_number, zero_padded};
use vstd::prelude::*;
use vstd::string::*;

verus! {

/// Why a form is refused.
#[derive(Debug, Clone, Copy, PartialEq, Eq, Structural)]
pub enum FormError {
    ListeningPortRange,
    ListeningPortInvalid,
    AliasEmpty { id: u32 },
    TargetIpEmpty { id: u32 },
    TargetPortRange { id: u32 },
    TargetPortInvalid { id: u32 },
    LocalPortRange { id: u32 },
    LocalPortInvalid { id: u32 },
    LocalPortIsSip { id: u32, port: u16 },
    LocalPortTaken { port: u16, other: u32, id: u32 },
    MirrorPortRange { id: u32 },
    MirrorPortTaken { port: u16, other: u32, id: u32 },
    BridgePortRange { id: u32 },
    BridgePortTaken { port: u16, other: u32, id: u32 },
    BridgeLocalPortRange { id: u32 },
    BridgeLocalPortInvalid { id: u32 },
    BridgeLocalPortIsSip { id: u32, port: u16 },
    GroupMirrorRange { id: u32 },
    GroupMirrorTaken { port: u16, other: u32, id: u32 },
    GroupLocalPortRange { id: u32 },
    GroupLocalPortInvalid { id: u32 },
    GroupLocalPortIsSip { id: u32, port: u16 },
    /// `other` is a channel's number, or a hundred more than a group's.
    GroupLocalPortTaken { port: u16, id: u32, other: u32 },
    /// A name or an alias would be cut inside a character.
    UncutName,
}

/// A number with at least two digits.
pub open spec fn two_digits(n: u32) -> Seq<char> {
    zero_padded(decimal(n as nat), 2)
}

/// The holder of a local port.
pub open spec fn holder_text(other: u32) -> Seq<char> {
    if other > 100 {
        "Dispatcher Group "@ + decimal((other - 100) as nat)
    } else {
        "Channel "@ + two_digits(other)
    }
}

impl FormError {
    /// The error in words.
    pub open spec fn words(self) -> Seq<char> {
        match self {
            FormError::ListeningPortRange => "Listening Port must be between 1024 and 65535"@,
            FormError::ListeningPortInvalid => "Invalid Listening Port"@,
            FormError::AliasEmpty { id } => "Channel "@ + two_digits(id)
                + " Alias cannot be empty"@,
            FormError::TargetIpEmpty { id } => "Channel "@ + two_digits(id)
                + " Destination IP cannot be empty"@,
            FormError::TargetPortRange { id } => "Channel "@ + two_digits(id)
                + " Destination Port must be between 1 and 65535"@,
            FormError::TargetPortInvalid { id } => "Invalid Destination Port for Channel "@
                + two_digits(id),
            FormError::LocalPortRange { id } => "Channel "@ + two_digits(id)
                + " Local Port must be between 1024 and 65535"@,
            FormError::LocalPortInvalid { id } => "Invalid Local Port for Channel "@
                + two_digits(id),
            FormError::LocalPortIsSip { id, port } => "Channel "@ + two_digits(id)
                + " Local Port ("@ + decimal(port as nat) + ") conflicts with SIP Listening Port"@,
            FormError::LocalPortTaken { port, other, id } => "Duplicate Local Port ("@
                + decimal(port as nat) + ") between Channel "@ + two_digits(other)
                + " and Channel "@ + two_digits(id),
            FormError::MirrorPortRange { id } => "Channel "@ + two_digits(id)
                + " Mirror Port must be between 1 and 65535 when mirroring is enabled"@,
            FormError::MirrorPortTaken { port, other, id } => "Duplicate Mirror Port ("@
                + decimal(port as nat) + ") between Channel "@ + two_digits(other)
                + " and Channel "@ + two_digits(id),
            FormError::BridgePortRange { id } => "Channel "@ + two_digits(id)
                + " AMP Bridge Port must be between 1 and 65535 when AMP Bridge is enabled"@,
            FormError::BridgePortTaken { port, other, id } => "Duplicate AMP Bridge Port ("@
                + decimal(port as nat) + ") between Channel "@ + two_digits(other)
                + " and Channel "@ + two_digits(id),
            FormError::BridgeLocalPortRange { id } => "Channel "@ + two_digits(id)
                + " AMP Bridge Local Port must be between 1024 and 65535"@,
            FormError::BridgeLocalPortInvalid { id } =>
                "Invalid AMP Bridge Local Port for Channel "@ + two_digits(id),
            FormError::BridgeLocalPortIsSip { id, port } => "Channel "@ + two_digits(id)
                + " AMP Bridge Local Port ("@ + decimal(port as nat)
                + ") conflicts with SIP Listening Port"@,
            FormError::GroupMirrorRange { id } => "Dispatcher Group "@ + decimal(id as nat)
                + " Mirror Port must be between 1 and 65535 when the mirror is enabled"@,
            FormError::GroupMirrorTaken { port, other, id } =>
                "Duplicate Dispatcher Mirror Port ("@ + decimal(port as nat)
                + ") between Group "@ + decimal(other as nat) + " and Group "@ + decimal(id as nat),
            FormError::GroupLocalPortRange { id } => "Dispatcher Group "@ + decimal(id as nat)
                + " Local Port must be between 1024 and 65535"@,
            FormError::GroupLocalPortInvalid { id } => "Invalid Dispatcher Group "@
                + decimal(id as nat) + " Local Port"@,
            FormError::GroupLocalPortIsSip { id, port } => "Dispatcher Group "@
                + decimal(id as nat) + " Local Port ("@ + decimal(port as nat)
                + ") conflicts with primary Listening Port"@,
            FormError::GroupLocalPortTaken { port, id, other } => "Duplicate Local Port ("@
                + decimal(port as nat) + ") between Dispatcher Group "@ + decimal(id as nat)
                + " and "@ + holder_text(other),
            FormError::UncutName => "A name or alias ends inside a character when it is shortened"@,
        }
    }

    /// The error in words.
    pub fn message(self) -> (r: String)
        ensures
            r@ == self.words(),
    {
        match self {
            FormError::ListeningPortRange =>
                "Listening Port must be between 1024 and 65535".to_owned(),
            FormError::ListeningPortInvalid => "Invalid Listening Port".to_owned(),
            FormError::AliasEmpty { id } => {
                let mut r = "Channel ".to_owned();
                append_two_digits(&mut r, id);
                r.append(" Alias cannot be empty");
                r
            },
            FormError::TargetIpEmpty { id } => {
                let mut r = "Channel ".to_owned();
                append_two_digits(&mut r, id);
                r.append(" Destination IP cannot be empty");
                r
            },
            FormError::TargetPortRange { id } => {
                let mut r = "Channel ".to_owned();
                append_two_digits(&mut r, id);
                r.append(" Destination Port must be between 1 and 65535");
                r
            },
            FormError::TargetPortInvalid { id } => {
                let mut r = "Invalid Destination Port for Channel ".to_owned();
                append_two_digits(&mut r, id);
                r
            },
            FormError::LocalPortRange { id } => {
                let mut r = "Channel ".to_owned();
                append_two_digits(&mut r, id);
                r.append(" Local Port must be between 1024 and 65535");
                r
            },
            FormError::LocalPortInvalid { id } => {
                let mut r = "Invalid Local Port for Channel ".to_owned();
                append_two_digits(&mut r, id);
                r
            },
            FormError::LocalPortIsSip { id, port } => {
                let mut r = "Channel ".to_owned();
                append_two_digits(&mut r, id);
                r.append(" Local Port (");
                append_number(&mut r, port as u32);
                r.append(") conflicts with SIP Listening Port");
                r
            },
            FormError::LocalPortTaken { port, other, id } => {
                let mut r = "Duplicate Local Port (".to_owned();
                append_number(&mut r, port as u32);
                r.append(") between Channel ");
                append_two_digits(&mut r, other);
                r.append(" and Channel ");
                append_two_digits(&mut r, id);
                r
            },
            FormError::MirrorPortRange { id } => {
                let mut r = "Channel ".to_owned();
                append_two_digits(&mut r, id);
                r.append(" Mirror Port must be between 1 and 65535 when mirroring is enabled");
                r
            },
            FormError::MirrorPortTaken { port, other, id } => {
                let mut r = "Duplicate Mirror Port (".to_owned();
                append_number(&mut r, port as u32);
                r.append(") between Channel ");
                append_two_digits(&mut r, other);
                r.append(" and Channel ");
                append_two_digits(&mut r, id);
                r
            },
            FormError::BridgePortRange { id } => {
                let mut r = "Channel ".to_owned();
                append_two_digits(&mut r, id);
                r.append(" AMP Bridge Port must be between 1 and 65535 when AMP Bridge is enabled");
                r
            },
            FormError::BridgePortTaken { port, other, id } => {
                let mut r = "Duplicate AMP Bridge Port (".to_owned();
                append_number(&mut r, port as u32);
                r.append(") between Channel ");
                append_two_digits(&mut r, other);
                r.append(" and Channel ");
                append_two_digits(&mut r, id);
                r
            },
            FormError::BridgeLocalPortRange { id } => {
                let mut r = "Channel ".to_owned();
                append_two_digits(&mut r, id);
                r.append(" AMP Bridge Local Port must be between 1024 and 65535");
                r
            },
            FormError::BridgeLocalPortInvalid { id } => {
                let mut r = "Invalid AMP Bridge Local Port for Channel ".to_owned();
                append_two_digits(&mut r, id);
                r
            },
            FormError::BridgeLocalPortIsSip { id, port } => {
                let mut r = "Channel ".to_owned();
                append_two_digits(&mut r, id);
                r.append(" AMP Bridge Local Port (");
                append_number(&mut r, port as u32);
                r.append(") conflicts with SIP Listening Port");
                r
            },
            FormError::GroupMirrorRange { id } => {
                let mut r = "Dispatcher Group ".to_owned();
                append_number(&mut r, id);
                r.append(" Mirror Port must be between 1 and 65535 when the mirror is enabled");
                r
            },
            FormError::GroupMirrorTaken { port, other, id } => {
                let mut r = "Duplicate Dispatcher Mirror Port (".to_owned();
                append_number(&mut r, port as u32);
                r.append(") between Group ");
                append_number(&mut r, other);
                r.append(" and Group ");
                append_number(&mut r, id);
                r
            },
            FormError::GroupLocalPortRange { id } => {
                let mut r = "Dispatcher Group ".to_owned();
                append_number(&mut r, id);
                r.append(" Local Port must be between 1024 and 65535");
                r
            },
            FormError::GroupLocalPortInvalid { id } => {
                let mut r = "Invalid Dispatcher Group ".to_owned();
                append_number(&mut r, id);
                r.append(" Local Port");
                r
            },
            FormError::GroupLocalPortIsSip { id, port } => {
                let mut r = "Dispatcher Group ".to_owned();
                append_number(&mut r, id);
                r.append(" Local Port (");
                append_number(&mut r, port as u32);
                r.append(") conflicts with primary Listening Port");
                r
            },
            FormError::GroupLocalPortTaken { port, id, other } => {
                let mut r = "Duplicate Local Port (".to_owned();
                append_number(&mut r, port as u32);
                r.append(") between Dispatcher Group ");
                append_number(&mut r, id);
                r.append(" and ");
                append_holder(&mut r, other);
                r
            },
            FormError::UncutName =>
                "A name or alias ends inside a character when it is shortened".to_owned(),
        }
    }
}

fn append_number(s: &mut String, n: u32)
    ensures
        final(s)@ == old(s)@ + decimal(n as nat),
{
    let t = decimal_string(n as u64);
    s.append(t.as_str());
}

fn append_two_digits(s: &mut String, n: u32)
    ensures
        final(s)@ == old(s)@ + two_digits(n),
{
    let t = padded_number(n as u64, 10, 2);
    s.append(t.as_str());
}

fn append_holder(s: &mut String, other: u32)
    ensures
        final(s)@ == old(s)@ + holder_text(other),
{
    if other > 100 {
        let mut t = "Dispatcher Group ".to_owned();
        append_number(&mut t, other - 100);
        s.append(t.as_str());
    } else {
        let mut t = "Channel ".to_owned();
        append_two_digits(&mut t, other);
        s.append(t.as_str());
    }
}

/// An error that names two holders of a port names the port, the one that had it before
/// and the one that asks for it, in this order.
#[verifier::rlimit(40)]
#[verifier::spinoff_prover]
pub proof fn law_taken_port_is_named(port: u16, other: u32, id: u32)
    requires
        1 <= other <= 9,
        1 <= id <= 9,
    ensures
        ({
            let p = decimal(port as nat);
            let a = "0"@ + decimal(other as nat);
            let b = "0"@ + decimal(id as nat);
            &&& FormError::LocalPortTaken { port, other, id }.words() == "Duplicate Local Port ("@
                + p + ") between Channel "@ + a + " and Channel "@ + b
            &&& FormError::MirrorPortTaken { port, other, id }.words() == "Duplicate Mirror Port ("@
                + p + ") between Channel "@ + a + " and Channel "@ + b
            &&& FormError::BridgePortTaken { port, other, id }.words()
                == "Duplicate AMP Bridge Port ("@ + p + ") between Channel "@ + a
                + " and Channel "@ + b
            &&& FormError::GroupMirrorTaken { port, other, id }.words()
                == "Duplicate Dispatcher Mirror Port ("@ + p + ") between Group "@ + decimal(
                other as nat,
            ) + " and Group "@ + decimal(id as nat)
            &&& FormError::GroupLocalPortTaken { port, id, other }.words()
                == "Duplicate Local Port ("@ + p + ") between Dispatcher Group "@ + decimal(
                id as nat,
            ) + " and "@ + ("Channel "@ + a)
        }),
{
    lemma_one_digit(other);
    lemma_one_digit(id);
}

proof fn lemma_one_digit(n: u32)
    requires
        1 <= n <= 9,
    ensures
        two_digits(n) == "0"@ + decimal(n as nat),
{
    reveal_strlit("0");
    let d = decimal(n as nat);
    assert(d.len() == 1);
    assert(seq!['0'] + d =~= "0"@ + d);
    reveal_with_fuel(zero_padded, 3);
}

} // verus!
