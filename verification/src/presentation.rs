//! What the panel shows of a status: the label, the heading, the byte counts and
//! rates, and the message for an error code.
use vstd::prelude::*;
use vstd::string::*;

use crate::config::Config;
use crate::monitor::{counter, counter_value};
use crate::status::Status;
use crate::text::{occurs_in, same_text};

verus! {

/// The message shown for an error code; unknown codes (and no error) show nothing.
pub open spec fn message_for(code: Seq<char>) -> Seq<char> {
    if code == "forticlient_missing"@ {
        "FortiClient was not found. Install it and make sure it is on PATH."@
    } else if code == "forticlient_timeout"@ {
        "FortiClient did not respond within 3 seconds."@
    } else if code == "forticlient_failed"@ {
        "FortiClient status failed. Check the client and your user permissions."@
    } else if code == "ip_missing"@ {
        "The ip command was not found. Install iproute2."@
    } else if code == "ip_timeout"@ {
        "Reading network interfaces timed out after 2 seconds."@
    } else if code == "ip_failed"@ {
        "Network interfaces could not be read."@
    } else if code == "ip_invalid_json"@ {
        "The ip command returned an invalid interface list."@
    } else if code == "tunnel_unavailable"@ {
        "FortiClient reports connected, but no active addressed VPN tunnel was found."@
    } else if code == "status_unrecognized"@ {
        "FortiClient returned an unrecognized connection status."@
    } else if code == "config_unreadable"@ {
        "Could not read config.toml. Check that the file exists and is readable."@
    } else if code == "config_invalid"@ {
        "Invalid config.toml. Check option names, types and the 2–300 second interval."@
    } else if code == "invalid_arguments"@ {
        "Usage: fortinet-vpn-status [--watch] [--config PATH]"@
    } else {
        ""@
    }
}

/// The message shown for an error code.
pub fn error_message(code: &str) -> (m: &'static str)
    ensures
        m@ == message_for(code@),
{
    if same_text(code, "forticlient_missing") {
        "FortiClient was not found. Install it and make sure it is on PATH."
    } else if same_text(code, "forticlient_timeout") {
        "FortiClient did not respond within 3 seconds."
    } else if same_text(code, "forticlient_failed") {
        "FortiClient status failed. Check the client and your user permissions."
    } else if same_text(code, "ip_missing") {
        "The ip command was not found. Install iproute2."
    } else if same_text(code, "ip_timeout") {
        "Reading network interfaces timed out after 2 seconds."
    } else if same_text(code, "ip_failed") {
        "Network interfaces could not be read."
    } else if same_text(code, "ip_invalid_json") {
        "The ip command returned an invalid interface list."
    } else if same_text(code, "tunnel_unavailable") {
        "FortiClient reports connected, but no active addressed VPN tunnel was found."
    } else if same_text(code, "status_unrecognized") {
        "FortiClient returned an unrecognized connection status."
    } else if same_text(code, "config_unreadable") {
        "Could not read config.toml. Check that the file exists and is readable."
    } else if same_text(code, "config_invalid") {
        "Invalid config.toml. Check option names, types and the 2–300 second interval."
    } else if same_text(code, "invalid_arguments") {
        "Usage: fortinet-vpn-status [--watch] [--config PATH]"
    } else {
        ""
    }
}

/// The transfer rates of a connection, each already written as a byte amount
/// (such as "2.0 KiB").
pub struct RateText {
    pub sent: String,
    pub received: String,
}

/// What the panel shows.
pub struct Display {
    pub label: String,
    pub heading: &'static str,
    pub error: &'static str,
    pub sent: String,
    pub received: String,
    pub upload: Option<String>,
    pub download: Option<String>,
}

/// The short label for a state.
pub open spec fn base_label(state: Seq<char>) -> Seq<char> {
    if state == "connected"@ {
        "VPN ON"@
    } else if state == "disconnected"@ {
        "VPN OFF"@
    } else if state == "connecting"@ {
        "VPN …"@
    } else {
        "VPN ?"@
    }
}

/// The heading for a state.
pub open spec fn heading_for(state: Seq<char>) -> Seq<char> {
    if state == "connected"@ {
        "Connected"@
    } else if state == "disconnected"@ {
        "Disconnected"@
    } else if state == "connecting"@ {
        "Connecting"@
    } else if state == "degraded"@ {
        "Tunnel unavailable"@
    } else {
        "Status unavailable"@
    }
}

/// The rate texts (sent, received) that `rates` holds.
pub open spec fn rate_views(rates: Option<&RateText>) -> Option<(Seq<char>, Seq<char>)> {
    match rates {
        Some(r) => Some((r.sent@, r.received@)),
        None => None,
    }
}

/// The label: the short label, and for a connection the name and the rates where the
/// configuration asks for them.
pub open spec fn label_for(
    state: Seq<char>,
    name: Seq<char>,
    config: Config,
    rates: Option<(Seq<char>, Seq<char>)>,
) -> Seq<char> {
    if state == "connected"@ {
        let named = if config.show_connection_name {
            "VPN ON"@ + " · "@ + name
        } else {
            "VPN ON"@
        };
        match rates {
            Some((up, down)) => if config.show_rates {
                named + "  ↓ "@ + (down + "/s"@) + "  ↑ "@ + (up + "/s"@)
            } else {
                named
            },
            None => named,
        }
    } else {
        base_label(state)
    }
}

/// The text for a byte counter: `byte_text` of its value, or a dash where it is unreadable.
fn counter_text<F: Fn(u64) -> String>(value: &str, byte_text: &F) -> (r: String)
    requires
        forall|n: u64| call_requires(*byte_text, (n,)),
    ensures
        counter_value(value@) matches Some(n) ==> call_ensures(*byte_text, (n,), r),
        counter_value(value@) is None ==> r@ == "—"@,
{
    match counter(value) {
        Some(n) => byte_text(n),
        None => "—".to_owned(),
    }
}

impl Display {
    /// What the panel shows of `status` under `config`, where `rates` are the transfer
    /// rates and `byte_text` writes a byte count. Rates are shown only for a connection.
    pub fn new<F: Fn(u64) -> String>(
        status: &Status,
        config: &Config,
        rates: Option<&RateText>,
        byte_text: F,
    ) -> (d: Display)
        requires
            forall|n: u64| call_requires(byte_text, (n,)),
        ensures
            d.heading@ == heading_for(status.state@),
            d.error@ == message_for(status.error@),
            d.label@ == label_for(status.state@, status.name@, *config, rate_views(rates)),
            status.state@ == "connected"@ && rates is Some ==> (d.upload matches Some(u) && u@
                == rates.unwrap().sent@ + "/s"@),
            status.state@ == "connected"@ && rates is Some ==> (d.download matches Some(u) && u@
                == rates.unwrap().received@ + "/s"@),
            !(status.state@ == "connected"@ && rates is Some) ==> d.upload is None
                && d.download is None,
            counter_value(status.sent@) matches Some(n) ==> call_ensures(byte_text, (n,), d.sent),
            counter_value(status.sent@) is None ==> d.sent@ == "—"@,
            counter_value(status.received@) matches Some(n) ==> call_ensures(
                byte_text,
                (n,),
                d.received,
            ),
            counter_value(status.received@) is None ==> d.received@ == "—"@,
    {
        let state = status.state.as_str();
        let connected = same_text(state, "connected");
        let (short, heading): (&'static str, &'static str) = if connected {
            ("VPN ON", "Connected")
        } else if same_text(state, "disconnected") {
            ("VPN OFF", "Disconnected")
        } else if same_text(state, "connecting") {
            ("VPN …", "Connecting")
        } else if same_text(state, "degraded") {
            ("VPN ?", "Tunnel unavailable")
        } else {
            ("VPN ?", "Status unavailable")
        };
        let mut label = short.to_owned();
        let (upload, download) = match rates {
            Some(r) => if connected {
                (Some(r.sent.clone().concat("/s")), Some(r.received.clone().concat("/s")))
            } else {
                (None, None)
            },
            None => (None, None),
        };
        if connected {
            if config.show_connection_name {
                label.append(" · ");
                label.append(status.name.as_str());
            }
            if config.show_rates {
                if let (Some(down), Some(up)) = (&download, &upload) {
                    label.append("  ↓ ");
                    label.append(down.as_str());
                    label.append("  ↑ ");
                    label.append(up.as_str());
                }
            }
        }
        let sent = counter_text(status.sent.as_str(), &byte_text);
        let received = counter_text(status.received.as_str(), &byte_text);
        Display {
            label,
            heading,
            error: error_message(status.error.as_str()),
            sent,
            received,
            upload,
            download,
        }
    }
}

} // verus!

verus! {

/// A state other than connected shows its short label alone: never a name or a rate.
pub proof fn law_no_stale_speed(
    state: Seq<char>,
    name: Seq<char>,
    config: Config,
    rates: Option<(Seq<char>, Seq<char>)>,
)
    requires
        state != "connected"@,
    ensures
        label_for(state, name, config, rates) == base_label(state),
{
}

/// Every error code that the program reports has a message, and no error has none.
pub proof fn law_every_error_code_is_explained(code: Seq<char>)
    ensures
        code == "forticlient_missing"@ || code == "forticlient_timeout"@ || code
            == "forticlient_failed"@ || code == "ip_missing"@ || code == "ip_timeout"@ || code
            == "ip_failed"@ || code == "ip_invalid_json"@ || code == "tunnel_unavailable"@ || code
            == "status_unrecognized"@ || code == "config_unreadable"@ || code == "config_invalid"@
            || code == "invalid_arguments"@ ==> message_for(code).len() > 0,
        message_for(""@) == ""@,
{
    reveal_strlit("");
    reveal_strlit("forticlient_missing");
    reveal_strlit("forticlient_timeout");
    reveal_strlit("forticlient_failed");
    reveal_strlit("ip_missing");
    reveal_strlit("ip_timeout");
    reveal_strlit("ip_failed");
    reveal_strlit("ip_invalid_json");
    reveal_strlit("tunnel_unavailable");
    reveal_strlit("status_unrecognized");
    reveal_strlit("config_unreadable");
    reveal_strlit("config_invalid");
    reveal_strlit("invalid_arguments");
    reveal_strlit("FortiClient was not found. Install it and make sure it is on PATH.");
    reveal_strlit("FortiClient did not respond within 3 seconds.");
    reveal_strlit("FortiClient status failed. Check the client and your user permissions.");
    reveal_strlit("The ip command was not found. Install iproute2.");
    reveal_strlit("Reading network interfaces timed out after 2 seconds.");
    reveal_strlit("Network interfaces could not be read.");
    reveal_strlit("The ip command returned an invalid interface list.");
    reveal_strlit("FortiClient reports connected, but no active addressed VPN tunnel was found.");
    reveal_strlit("FortiClient returned an unrecognized connection status.");
    reveal_strlit("Could not read config.toml. Check that the file exists and is readable.");
    reveal_strlit("Invalid config.toml. Check option names, types and the 2–300 second interval.");
    reveal_strlit("Usage: fortinet-vpn-status [--watch] [--config PATH]");
}

} // verus!

verus! {

/// Each state has its own heading and its own short label: "Connected" and "VPN ON"
/// exactly for connected, "Disconnected" and "VPN OFF" exactly for disconnected,
/// "Connecting" and "VPN …" exactly for connecting, "Tunnel unavailable" exactly for
/// degraded; every other state shows "Status unavailable", and both degraded and
/// those show "VPN ?".
pub proof fn law_each_state_has_its_heading(state: Seq<char>)
    ensures
        (heading_for(state) == "Connected"@) == (state == "connected"@),
        (heading_for(state) == "Disconnected"@) == (state == "disconnected"@),
        (heading_for(state) == "Connecting"@) == (state == "connecting"@),
        (heading_for(state) == "Tunnel unavailable"@) == (state == "degraded"@),
        (heading_for(state) == "Status unavailable"@) == (state != "connected"@ && state
            != "disconnected"@ && state != "connecting"@ && state != "degraded"@),
        (base_label(state) == "VPN ON"@) == (state == "connected"@),
        (base_label(state) == "VPN OFF"@) == (state == "disconnected"@),
        (base_label(state) == "VPN …"@) == (state == "connecting"@),
        (base_label(state) == "VPN ?"@) == (state != "connected"@ && state != "disconnected"@
            && state != "connecting"@),
{
    reveal_strlit("connected");
    reveal_strlit("disconnected");
    reveal_strlit("connecting");
    reveal_strlit("degraded");
    assert("connected"@.len() == 9);
    assert("disconnected"@.len() == 12);
    assert("connecting"@.len() == 10);
    reveal_strlit("Connected");
    reveal_strlit("Disconnected");
    reveal_strlit("Connecting");
    reveal_strlit("Tunnel unavailable");
    reveal_strlit("Status unavailable");
    reveal_strlit("VPN ON");
    reveal_strlit("VPN OFF");
    reveal_strlit("VPN …");
    reveal_strlit("VPN ?");
    assert("Connected"@.len() == 9);
    assert("Disconnected"@.len() == 12);
    assert("Connecting"@.len() == 10);
    assert("Tunnel unavailable"@.len() == 18);
    assert("Status unavailable"@.len() == 18);
    assert("Tunnel unavailable"@[0] != "Status unavailable"@[0]);
    assert("VPN ON"@.len() == 6);
    assert("VPN OFF"@.len() == 7);
    assert("VPN …"@.len() == 5);
    assert("VPN ?"@.len() == 5);
    assert("VPN …"@[4] != "VPN ?"@[4]);
}

} // verus!

verus! {

/// Different error codes have different messages, and the messages point at the remedy:
/// a missing FortiClient at PATH, a missing `ip` at iproute2, an invalid configuration
/// at config.toml.
pub proof fn law_messages_tell_errors_apart(code: Seq<char>, other: Seq<char>)
    ensures
        message_for(code).len() > 0 && message_for(code) == message_for(other) ==> code == other,
        code == "forticlient_missing"@ ==> occurs_in(message_for(code), "PATH"@),
        code == "ip_missing"@ ==> occurs_in(message_for(code), "iproute2"@),
        code == "config_invalid"@ ==> occurs_in(message_for(code), "config.toml"@),
{
    law_every_error_code_is_explained(code);
    law_every_error_code_is_explained(other);
    reveal_strlit("");
    reveal_strlit("forticlient_missing");
    reveal_strlit("forticlient_timeout");
    reveal_strlit("forticlient_failed");
    reveal_strlit("ip_missing");
    reveal_strlit("ip_timeout");
    reveal_strlit("ip_failed");
    reveal_strlit("ip_invalid_json");
    reveal_strlit("tunnel_unavailable");
    reveal_strlit("status_unrecognized");
    reveal_strlit("config_unreadable");
    reveal_strlit("config_invalid");
    reveal_strlit("invalid_arguments");
    reveal_strlit("FortiClient was not found. Install it and make sure it is on PATH.");
    reveal_strlit("FortiClient did not respond within 3 seconds.");
    reveal_strlit("FortiClient status failed. Check the client and your user permissions.");
    reveal_strlit("The ip command was not found. Install iproute2.");
    reveal_strlit("Reading network interfaces timed out after 2 seconds.");
    reveal_strlit("Network interfaces could not be read.");
    reveal_strlit("The ip command returned an invalid interface list.");
    reveal_strlit("FortiClient reports connected, but no active addressed VPN tunnel was found.");
    reveal_strlit("FortiClient returned an unrecognized connection status.");
    reveal_strlit("Could not read config.toml. Check that the file exists and is readable.");
    reveal_strlit("Invalid config.toml. Check option names, types and the 2–300 second interval.");
    reveal_strlit("Usage: fortinet-vpn-status [--watch] [--config PATH]");
    reveal_strlit("PATH");
    reveal_strlit("iproute2");
    reveal_strlit("config.toml");
    if code == "forticlient_missing"@ {
        let m = message_for(code);
        assert(m.subrange(61, 61int + "PATH"@.len()) =~= "PATH"@);
    }
    if code == "ip_missing"@ {
        assert(code.len() == 10);
        assert(code != "forticlient_missing"@ && code != "forticlient_timeout"@ && code
            != "forticlient_failed"@);
        let m = message_for(code);
        assert(m == "The ip command was not found. Install iproute2."@);
        assert(m.subrange(38, 38int + "iproute2"@.len()) =~= "iproute2"@);
    }
    if code == "config_invalid"@ {
        assert(code.len() == 14);
        assert(code != "forticlient_missing"@ && code != "forticlient_timeout"@ && code
            != "forticlient_failed"@ && code != "ip_missing"@ && code != "ip_timeout"@ && code
            != "ip_failed"@ && code != "ip_invalid_json"@ && code != "tunnel_unavailable"@
            && code != "status_unrecognized"@ && code != "config_unreadable"@);
        let m = message_for(code);
        assert(m == "Invalid config.toml. Check option names, types and the 2–300 second interval."@);
        assert(m.subrange(8, 8int + "config.toml"@.len()) =~= "config.toml"@);
    }
}

/// The name and the rates appear in a connected label only where the configuration asks
/// for them: without either option the label is "VPN ON" whatever the name and rates,
/// without the name option the name does not matter, and without the rates option the
/// rates do not.
pub proof fn law_label_options(
    name: Seq<char>,
    other_name: Seq<char>,
    config: Config,
    rates: Option<(Seq<char>, Seq<char>)>,
    other_rates: Option<(Seq<char>, Seq<char>)>,
)
    ensures
        !config.show_connection_name && !config.show_rates ==> label_for(
            "connected"@,
            name,
            config,
            rates,
        ) == "VPN ON"@,
        !config.show_connection_name ==> label_for("connected"@, name, config, rates) == label_for(
            "connected"@,
            other_name,
            config,
            rates,
        ),
        !config.show_rates ==> label_for("connected"@, name, config, rates) == label_for(
            "connected"@,
            name,
            config,
            other_rates,
        ),
        config.show_connection_name ==> label_for("connected"@, name, config, rates)
            != label_for("connected"@, other_name, config, rates) || name == other_name,
{
    if config.show_connection_name && name != other_name {
        let a = label_for("connected"@, name, config, rates);
        let b = label_for("connected"@, other_name, config, rates);
        let head = "VPN ON"@ + " · "@;
        if a == b {
            let tail_a = match rates {
                Some((up, down)) => if config.show_rates {
                    "  ↓ "@ + (down + "/s"@) + "  ↑ "@ + (up + "/s"@)
                } else {
                    Seq::<char>::empty()
                },
                None => Seq::<char>::empty(),
            };
            assert(a =~= head + name + tail_a);
            assert(b =~= head + other_name + tail_a);
            assert(name.len() == other_name.len());
            assert(name =~= a.subrange(head.len() as int, (head.len() + name.len()) as int));
            assert(other_name =~= b.subrange(head.len() as int, (head.len() + name.len()) as int));
        }
    }
}

} // verus!

verus! {

/// Asking for rates appends them to the connected label, download first: "  ↓ " with the
/// received rate, then "  ↑ " with the sent rate, each per second; asking for the name
/// puts " · " and the name right after "VPN ON".
pub proof fn law_label_parts(name: Seq<char>, up: Seq<char>, down: Seq<char>)
    ensures
        label_for(
            "connected"@,
            name,
            Config { poll_interval_seconds: 5, show_rates: true, show_connection_name: false },
            Some((up, down)),
        ) == "VPN ON"@ + "  ↓ "@ + down + "/s"@ + "  ↑ "@ + up + "/s"@,
        label_for(
            "connected"@,
            name,
            Config { poll_interval_seconds: 5, show_rates: false, show_connection_name: true },
            Some((up, down)),
        ) == "VPN ON"@ + " · "@ + name,
        forall|config: Config|
            config.show_rates && config.show_connection_name ==> #[trigger] label_for(
                "connected"@,
                name,
                config,
                Some((up, down)),
            ) == "VPN ON"@ + " · "@ + name + "  ↓ "@ + down + "/s"@ + "  ↑ "@ + up + "/s"@,
{
    assert("VPN ON"@ + "  ↓ "@ + (down + "/s"@) + "  ↑ "@ + (up + "/s"@) =~= "VPN ON"@ + "  ↓ "@
        + down + "/s"@ + "  ↑ "@ + up + "/s"@);
    assert("VPN ON"@ + " · "@ + name + "  ↓ "@ + (down + "/s"@) + "  ↑ "@ + (up + "/s"@)
        =~= "VPN ON"@ + " · "@ + name + "  ↓ "@ + down + "/s"@ + "  ↑ "@ + up + "/s"@);
}

} // verus!
