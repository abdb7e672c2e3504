//! Reply interpretation for the command channel.
//!
//! The vehicle answers every command with plain text, but unsolicited
//! telemetry packets sometimes race ahead of the real acknowledgement on the
//! same channel.  A reply that carries all three telemetry markers is treated
//! as an implicit success for ordinary commands; for the data-bearing
//! commands (a file listing, a download handshake) the true answer is lost,
//! so a fixed "data unavailable" text is reported instead of a spoofed
//! success.  This is a best-effort heuristic for a genuine protocol race,
//! not a reliable demultiplexer: the shadowed acknowledgement can never be
//! recovered.

use vstd::prelude::*;

use crate::text::{
    split_string, split_text, str_contains, str_eq, str_starts_with, text_contains,
    text_starts_with,
};

verus! {

/// The error taxonomy of the crate.
///
/// `Connection`, `Timeout` and `NotConnected` are raised by the socket layer
/// around this crate; `Protocol` and `Validation` are produced here.
#[derive(Debug)]
pub enum TelloError {
    /// Binding a socket or the initial handshake failed; fatal to the session.
    Connection(String),
    /// No datagram arrived within the fixed receive window.
    Timeout,
    /// A command was attempted before a connection was established.
    NotConnected,
    /// The vehicle reported failure; the raw reply text is preserved.
    Protocol(String),
    /// A caller-supplied argument was rejected before any network traffic.
    Validation(String),
}

/// A reply that carries all three telemetry markers is a telemetry packet
/// that leaked onto the command channel, not an acknowledgement.
pub open spec fn is_telemetry_text(s: Seq<char>) -> bool {
    text_contains(s, "pitch:"@) && text_contains(s, "roll:"@) && text_contains(s, "yaw:"@)
}

/// A reply that mentions an error, in either spelling the vehicle uses.
pub open spec fn has_error_marker(s: Seq<char>) -> bool {
    text_contains(s, "error"@) || text_contains(s, "Error"@)
}

/// What a raw reply to `command` stands for once telemetry shadowing has
/// been accounted for.
pub open spec fn spec_classify(command: Seq<char>, response: Seq<char>) -> Seq<char> {
    if is_telemetry_text(response) {
        if command == "ls"@ {
            "No files found"@
        } else if text_starts_with(command, "download"@) || text_starts_with(
            command,
            "direct_transfer"@,
        ) {
            "File not found"@
        } else {
            "ok"@
        }
    } else {
        response
    }
}

/// Whether `reply` is a telemetry packet that leaked onto the command channel.
pub fn is_telemetry_reply(reply: &str) -> (r: bool)
    ensures
        r == is_telemetry_text(reply@),
{
    str_contains(reply, "pitch:") && str_contains(reply, "roll:") && str_contains(reply, "yaw:")
}

/// Whether `reply` mentions an error.
pub fn reply_has_error(reply: &str) -> (r: bool)
    ensures
        r == has_error_marker(reply@),
{
    str_contains(reply, "error") || str_contains(reply, "Error")
}

/// Settle what the raw `response` to `command` means.
///
/// Telemetry shadowing counts as an implicit `"ok"` for ordinary commands
/// and as an explicit data-unavailable text for the data-bearing ones; any
/// other reply is passed through unchanged.
pub fn classify_reply(command: &str, response: &str) -> (r: String)
    ensures
        r@ == spec_classify(command@, response@),
{
    if is_telemetry_reply(response) {
        if str_eq(command, "ls") {
            "No files found".to_owned()
        } else if str_starts_with(command, "download") || str_starts_with(
            command,
            "direct_transfer",
        ) {
            "File not found".to_owned()
        } else {
            "ok".to_owned()
        }
    } else {
        response.to_owned()
    }
}

/// A telemetry pair reporting battery or temperature.
pub open spec fn battery_marker(p: Seq<char>) -> bool {
    text_contains(p, "bat"@) || text_contains(p, "temp"@)
}

/// A telemetry pair reporting attitude or speed.
pub open spec fn flight_marker(p: Seq<char>) -> bool {
    text_contains(p, "pitch"@) || text_contains(p, "roll"@) || text_contains(p, "yaw"@)
        || text_contains(p, "vel"@) || text_contains(p, "spd"@)
}

/// A telemetry pair reporting position or height.
pub open spec fn position_marker(p: Seq<char>) -> bool {
    text_contains(p, "x"@) || text_contains(p, "y"@) || text_contains(p, "z"@) || text_contains(
        p,
        "h"@,
    ) || text_contains(p, "tof"@)
}

/// A non-empty pair sorted into the battery group.
pub open spec fn battery_pair(p: Seq<char>) -> bool {
    p.len() > 0 && battery_marker(p)
}

/// A non-empty pair sorted into the flight group.
pub open spec fn flight_pair(p: Seq<char>) -> bool {
    p.len() > 0 && !battery_marker(p) && flight_marker(p)
}

/// A non-empty pair sorted into the position group.
pub open spec fn position_pair(p: Seq<char>) -> bool {
    p.len() > 0 && !battery_marker(p) && !flight_marker(p) && position_marker(p)
}

/// A non-empty pair that fits no other group.
pub open spec fn other_pair(p: Seq<char>) -> bool {
    p.len() > 0 && !battery_marker(p) && !flight_marker(p) && !position_marker(p)
}

/// A telemetry string broken into display groups, in arrival order.
pub struct StateBreakdown {
    pub battery: Vec<String>,
    pub flight: Vec<String>,
    pub position: Vec<String>,
    pub other: Vec<String>,
}

/// The non-empty `key:value` pairs of a telemetry string.
pub fn state_pairs(state: &str) -> (r: Vec<String>)
    ensures
        r@.map_values(|p: String| p@) == split_text(state@, ';').filter(
            |p: Seq<char>| p.len() > 0,
        ),
{
    let raw = split_string(state, ';');
    let ghost fields = raw@.map_values(|p: String| p@);
    let ghost pred = |p: Seq<char>| p.len() > 0;
    let mut out: Vec<String> = Vec::new();
    proof {
        reveal(Seq::filter);
        assert(fields.subrange(0, 0) =~~= Seq::<Seq<char>>::empty());
        assert(out@.map_values(|p: String| p@) =~~= Seq::<Seq<char>>::empty().filter(pred));
    }
    let mut i: usize = 0;
    while i < raw.len()
        invariant
            0 <= i <= raw.len(),
            fields == raw@.map_values(|p: String| p@),
            pred == (|p: Seq<char>| p.len() > 0),
            out@.map_values(|p: String| p@) == fields.subrange(0, i as int).filter(pred),
        decreases raw.len() - i,
    {
        proof {
            reveal(Seq::filter);
            let prefix = fields.subrange(0, i as int);
            let next = fields.subrange(0, i + 1);
            assert(next.drop_last() =~~= prefix);
            assert(next.last() == fields[i as int]);
        }
        if !raw[i].as_str().is_empty() {
            out.push(raw[i].clone());
            proof {
                let m = out@.map_values(|p: String| p@);
                assert(m =~~= m.subrange(0, m.len() - 1).push(fields[i as int]));
            }
        }
        i += 1;
    }
    proof {
        assert(fields.subrange(0, fields.len() as int) =~~= fields);
    }
    out
}

/// Sort a telemetry string's pairs into display groups the way the
/// interactive `info` view presents them: battery and temperature first,
/// then attitude and speed, then position, then everything else.
pub fn categorize_state(state: &str) -> (r: StateBreakdown)
    ensures
        r.battery@.map_values(|p: String| p@) == split_text(state@, ';').filter(
            |p: Seq<char>| battery_pair(p),
        ),
        r.flight@.map_values(|p: String| p@) == split_text(state@, ';').filter(
            |p: Seq<char>| flight_pair(p),
        ),
        r.position@.map_values(|p: String| p@) == split_text(state@, ';').filter(
            |p: Seq<char>| position_pair(p),
        ),
        r.other@.map_values(|p: String| p@) == split_text(state@, ';').filter(
            |p: Seq<char>| other_pair(p),
        ),
{
    let raw = split_string(state, ';');
    let ghost fields = raw@.map_values(|p: String| p@);
    let ghost bat_p = |p: Seq<char>| battery_pair(p);
    let ghost fli_p = |p: Seq<char>| flight_pair(p);
    let ghost pos_p = |p: Seq<char>| position_pair(p);
    let ghost oth_p = |p: Seq<char>| other_pair(p);
    let mut battery: Vec<String> = Vec::new();
    let mut flight: Vec<String> = Vec::new();
    let mut position: Vec<String> = Vec::new();
    let mut other: Vec<String> = Vec::new();
    proof {
        reveal(Seq::filter);
        assert(fields.subrange(0, 0) =~~= Seq::<Seq<char>>::empty());
        assert(battery@.map_values(|p: String| p@) =~~= Seq::<Seq<char>>::empty().filter(bat_p));
        assert(flight@.map_values(|p: String| p@) =~~= Seq::<Seq<char>>::empty().filter(fli_p));
        assert(position@.map_values(|p: String| p@) =~~= Seq::<Seq<char>>::empty().filter(pos_p));
        assert(other@.map_values(|p: String| p@) =~~= Seq::<Seq<char>>::empty().filter(oth_p));
    }
    let mut i: usize = 0;
    while i < raw.len()
        invariant
            0 <= i <= raw.len(),
            fields == raw@.map_values(|p: String| p@),
            bat_p == (|p: Seq<char>| battery_pair(p)),
            fli_p == (|p: Seq<char>| flight_pair(p)),
            pos_p == (|p: Seq<char>| position_pair(p)),
            oth_p == (|p: Seq<char>| other_pair(p)),
            battery@.map_values(|p: String| p@) == fields.subrange(0, i as int).filter(bat_p),
            flight@.map_values(|p: String| p@) == fields.subrange(0, i as int).filter(fli_p),
            position@.map_values(|p: String| p@) == fields.subrange(0, i as int).filter(pos_p),
            other@.map_values(|p: String| p@) == fields.subrange(0, i as int).filter(oth_p),
        decreases raw.len() - i,
    {
        proof {
            reveal(Seq::filter);
            let prefix = fields.subrange(0, i as int);
            let next = fields.subrange(0, i + 1);
            assert(next.drop_last() =~~= prefix);
            assert(next.last() == fields[i as int]);
        }
        let pair = raw[i].as_str();
        if !pair.is_empty() {
            if str_contains(pair, "bat") || str_contains(pair, "temp") {
                battery.push(raw[i].clone());
                proof {
                    let m = battery@.map_values(|p: String| p@);
                    assert(m =~~= m.subrange(0, m.len() - 1).push(fields[i as int]));
                }
            } else if str_contains(pair, "pitch") || str_contains(pair, "roll") || str_contains(
                pair,
                "yaw",
            ) || str_contains(pair, "vel") || str_contains(pair, "spd") {
                flight.push(raw[i].clone());
                proof {
                    let m = flight@.map_values(|p: String| p@);
                    assert(m =~~= m.subrange(0, m.len() - 1).push(fields[i as int]));
                }
            } else if str_contains(pair, "x") || str_contains(pair, "y") || str_contains(pair, "z")
                || str_contains(pair, "h") || str_contains(pair, "tof") {
                position.push(raw[i].clone());
                proof {
                    let m = position@.map_values(|p: String| p@);
                    assert(m =~~= m.subrange(0, m.len() - 1).push(fields[i as int]));
                }
            } else {
                other.push(raw[i].clone());
                proof {
                    let m = other@.map_values(|p: String| p@);
                    assert(m =~~= m.subrange(0, m.len() - 1).push(fields[i as int]));
                }
            }
        }
        i += 1;
    }
    proof {
        assert(fields.subrange(0, fields.len() as int) =~~= fields);
    }
    StateBreakdown { battery, flight, position, other }
}

/// Judge a classified reply: exactly `"ok"` is success, anything else is a
/// protocol failure whose text is preserved.
pub fn interpret_reply(reply: &str) -> (r: Result<(), TelloError>)
    ensures
        reply@ == "ok"@ ==> r is Ok,
        reply@ != "ok"@ ==> (r matches Err(TelloError::Protocol(t)) && t@ == reply@),
{
    if str_eq(reply, "ok") {
        Ok(())
    } else {
        Err(TelloError::Protocol(reply.to_owned()))
    }
}

} // verus!
