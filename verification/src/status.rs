//! The VPN status: the interfaces that `ip -j address` lists, and the classification
//! of `forticlient vpn status` output against them.
use vstd::prelude::*;
use vstd::string::*;

use crate::text::{
    chars_of, contains, entry, entry_ranges, first_where, has_prefix, is_first, lemma_first_where_absent,
    lemma_first_where_found, line_ranges, lines, lowercase, occurs_in, pieces, range_is,
    ranges_within, same_text, starts_with, to_lowercase,
};

verus! {

/// A network interface as `ip -j address` reports it.
pub struct Interface {
    pub ifname: String,
    pub flags: Vec<String>,
    pub addr_info: Vec<Address>,
}

/// One address of an interface.
pub struct Address {
    pub scope: String,
    pub local: String,
}

impl Default for Interface {
    fn default() -> (i: Self)
        ensures
            i.ifname@ == Seq::<char>::empty(),
            i.flags@ == Seq::<String>::empty(),
            i.addr_info@ == Seq::<Address>::empty(),
    {
        Interface { ifname: String::new(), flags: Vec::new(), addr_info: Vec::new() }
    }
}

/// The reported status of the VPN connection.
#[derive(Clone, Debug)]
pub struct Status {
    pub state: String,
    pub name: String,
    pub ip: String,
    pub duration: String,
    pub sent: String,
    pub received: String,
    pub interface: String,
    pub error: String,
}

impl Default for Status {
    fn default() -> (s: Self)
        ensures
            s.state@ == Seq::<char>::empty(),
            s.name@ == Seq::<char>::empty(),
            s.ip@ == Seq::<char>::empty(),
            s.duration@ == Seq::<char>::empty(),
            s.sent@ == Seq::<char>::empty(),
            s.received@ == Seq::<char>::empty(),
            s.interface@ == Seq::<char>::empty(),
            s.error@ == Seq::<char>::empty(),
    {
        Status {
            state: String::new(),
            name: String::new(),
            ip: String::new(),
            duration: String::new(),
            sent: String::new(),
            received: String::new(),
            interface: String::new(),
            error: String::new(),
        }
    }
}

/// `s` is the status reported when the VPN state could not be determined because
/// of the failure `error`: state "unknown", name "Fortinet", the error code, and no
/// other detail.
pub open spec fn is_unavailable(s: Status, error: Seq<char>) -> bool {
    &&& s.state@ == "unknown"@
    &&& s.name@ == "Fortinet"@
    &&& s.error@ == error
    &&& s.ip@ == Seq::<char>::empty()
    &&& s.duration@ == Seq::<char>::empty()
    &&& s.sent@ == Seq::<char>::empty()
    &&& s.received@ == Seq::<char>::empty()
    &&& s.interface@ == Seq::<char>::empty()
}

impl Status {
    /// The status reported when the VPN state could not be determined, with the
    /// code of the failure.
    pub fn unavailable(error: &str) -> (s: Status)
        ensures
            is_unavailable(s, error@),
    {
        Status {
            state: "unknown".to_owned(),
            name: "Fortinet".to_owned(),
            ip: String::new(),
            duration: String::new(),
            sent: String::new(),
            received: String::new(),
            interface: String::new(),
            error: error.to_owned(),
        }
    }

    /// The status that a probe gives: the classified status, or where running the
    /// commands failed, the unavailable status with the failure's code.
    pub fn from_probe(result: Result<Status, &'static str>) -> (s: Status)
        ensures
            result matches Ok(classified) ==> s == classified,
            result matches Err(error) ==> is_unavailable(s, error@),
    {
        match result {
            Ok(classified) => classified,
            Err(error) => Status::unavailable(error),
        }
    }

    /// A copy of this status, field by field.
    pub(crate) fn snapshot(&self) -> (s: Status)
        ensures
            s == *self,
    {
        Status {
            state: self.state.clone(),
            name: self.name.clone(),
            ip: self.ip.clone(),
            duration: self.duration.clone(),
            sent: self.sent.clone(),
            received: self.received.clone(),
            interface: self.interface.clone(),
            error: self.error.clone(),
        }
    }
}

/// The value of the last line of `ls` whose key is `key`: where a key occurs on
/// several lines, the last one counts.
pub open spec fn lookup(ls: Seq<Seq<char>>, key: Seq<char>) -> Option<Seq<char>>
    decreases ls.len(),
{
    if ls.len() == 0 {
        None
    } else {
        match entry(ls.last()) {
            Some((k, value)) if k == key => Some(value),
            _ => lookup(ls.drop_last(), key),
        }
    }
}

/// The value that the lines of `output` give `key`, or `default`.
pub open spec fn field(output: Seq<char>, key: Seq<char>, default: Seq<char>) -> Seq<char> {
    match lookup(lines(output), key) {
        Some(value) => value,
        None => default,
    }
}

/// `i` is a live FortiClient tunnel: its name starts with "fctvpn", it is up and it
/// has a global address.
pub open spec fn is_tunnel(i: Interface) -> bool {
    &&& has_prefix(i.ifname@, "fctvpn"@)
    &&& exists|k: int| 0 <= k < i.flags@.len() && (#[trigger] i.flags@[k])@ == "UP"@
    &&& exists|k: int| 0 <= k < i.addr_info@.len() && (#[trigger] i.addr_info@[k]).scope@ == "global"@
}

/// The index of the first tunnel among `ifs`.
pub open spec fn first_tunnel(ifs: Seq<Interface>) -> Option<int> {
    first_where(ifs.len() as int, |k: int| is_tunnel(ifs[k]))
}

/// The index of the first global address that has a local address.
pub open spec fn first_global(addrs: Seq<Address>) -> Option<int> {
    first_where(
        addrs.len() as int,
        |k: int| addrs[k].scope@ == "global"@ && addrs[k].local@.len() > 0,
    )
}

/// The state that a lowercased "Status" value gives, where `tunnel` tells whether a
/// tunnel interface was found.
pub open spec fn state_for(lower: Seq<char>, tunnel: bool) -> Seq<char> {
    if lower == "connected"@ {
        if tunnel {
            "connected"@
        } else {
            "degraded"@
        }
    } else if lower == "disconnected"@ || lower == "not connected"@ {
        "disconnected"@
    } else if occurs_in(lower, "connecting"@) {
        "connecting"@
    } else {
        "unknown"@
    }
}

/// The error code that goes with a state.
pub open spec fn error_for(state: Seq<char>) -> Seq<char> {
    if state == "degraded"@ {
        "tunnel_unavailable"@
    } else if state == "unknown"@ {
        "status_unrecognized"@
    } else {
        ""@
    }
}

/// The state `classify` reports.
pub open spec fn classified_state(output: Seq<char>, ifs: Seq<Interface>) -> Seq<char> {
    state_for(lowercase(field(output, "Status"@, ""@)), first_tunnel(ifs) is Some)
}

/// The name of the tunnel interface, or nothing.
pub open spec fn tunnel_name(ifs: Seq<Interface>) -> Seq<char> {
    match first_tunnel(ifs) {
        Some(t) => ifs[t].ifname@,
        None => Seq::empty(),
    }
}

/// The local address of the first global address of the tunnel, or nothing.
pub open spec fn tunnel_ip(ifs: Seq<Interface>) -> Seq<char> {
    match first_tunnel(ifs) {
        Some(t) => match first_global(ifs[t].addr_info@) {
            Some(a) => ifs[t].addr_info@[a].local@,
            None => Seq::empty(),
        },
        None => Seq::empty(),
    }
}

/// The address `classify` reports: the "IP" value, or where that is empty, the tunnel's.
pub open spec fn classified_ip(output: Seq<char>, ifs: Seq<Interface>) -> Seq<char> {
    if field(output, "IP"@, ""@).len() == 0 {
        tunnel_ip(ifs)
    } else {
        field(output, "IP"@, ""@)
    }
}

/// `entry` of the line held in `line` is described by the key and value ranges `e` of `chars`.
pub open spec fn entry_held(
    chars: Seq<char>,
    e: Option<((usize, usize), (usize, usize))>,
    line: Seq<char>,
) -> bool {
    match entry(line) {
        Some((key, value)) => e matches Some((k, v)) && k.0 <= k.1 <= chars.len() && v.0 <= v.1
            <= chars.len() && chars.subrange(k.0 as int, k.1 as int) == key && chars.subrange(
            v.0 as int,
            v.1 as int,
        ) == value,
        None => e is None,
    }
}

/// The key and value ranges of every line of `chars`.
fn entries_of(chars: &Vec<char>) -> (r: Vec<Option<((usize, usize), (usize, usize))>>)
    ensures
        r@.len() == lines(chars@).len(),
        forall|k: int| 0 <= k < r@.len() ==> entry_held(chars@, #[trigger] r@[k], lines(chars@)[k]),
{
    let ranges = line_ranges(chars);
    let mut out: Vec<Option<((usize, usize), (usize, usize))>> = Vec::new();
    let mut k: usize = 0;
    while k < ranges.len()
        invariant
            ranges_within(chars@, ranges@),
            pieces(chars@, ranges@) == lines(chars@),
            k <= ranges@.len(),
            out@.len() == k,
            forall|j: int| 0 <= j < k ==> entry_held(chars@, #[trigger] out@[j], lines(chars@)[j]),
        decreases ranges@.len() - k,
    {
        let (s, e) = ranges[k];
        assert(ranges@[k as int].0 <= ranges@[k as int].1 <= chars@.len());
        assert(lines(chars@)[k as int] == chars@.subrange(s as int, e as int));
        let found = entry_ranges(chars, s, e);
        out.push(found);
        assert(out@[k as int] == found);
        k = k + 1;
    }
    out
}

/// The value that the lines of `output` (held in `chars`, with their `entries`) give
/// `key`, or `default`.
fn field_of(
    output: &str,
    chars: &Vec<char>,
    entries: &Vec<Option<((usize, usize), (usize, usize))>>,
    key: &str,
    default: &str,
) -> (r: String)
    requires
        chars@ == output@,
        entries@.len() == lines(chars@).len(),
        forall|k: int|
            0 <= k < entries@.len() ==> entry_held(chars@, #[trigger] entries@[k], lines(chars@)[k]),
    ensures
        r@ == field(output@, key@, default@),
{
    let word = chars_of(key);
    let ghost all = lines(chars@);
    let mut i = entries.len();
    assert(all.take(i as int) =~= all);
    while i > 0
        invariant
            i <= entries@.len() == all.len(),
            all == lines(chars@),
            chars@ == output@,
            word@ == key@,
            forall|k: int| 0 <= k < entries@.len() ==> entry_held(chars@, #[trigger] entries@[k], all[k]),
            lookup(all, key@) == lookup(all.take(i as int), key@),
        decreases i,
    {
        let ghost prefix = all.take(i as int);
        assert(prefix.drop_last() =~= all.take(i - 1));
        assert(prefix.last() == all[i - 1]);
        assert(entry_held(chars@, entries@[i - 1], all[i - 1]));
        if let Some((k, v)) = entries[i - 1] {
            let ghost line = all[i - 1];
            assert(entry(line) is Some);
            let ghost kv = entry(line).unwrap();
            assert(chars@.subrange(k.0 as int, k.1 as int) == kv.0);
            assert(chars@.subrange(v.0 as int, v.1 as int) == kv.1);
            assert(v.0 <= v.1 <= chars@.len());
            if range_is(chars, k.0, k.1, &word) {
                let value = output.substring_char(v.0, v.1);
                return value.to_owned();
            }
        }
        i = i - 1;
    }
    assert(all.take(0) =~= Seq::<Seq<char>>::empty());
    default.to_owned()
}

/// Whether `iface` is a live FortiClient tunnel.
fn tunnel_like(iface: &Interface) -> (b: bool)
    ensures
        b == is_tunnel(*iface),
{
    if !starts_with(iface.ifname.as_str(), "fctvpn") {
        return false;
    }
    let mut up = false;
    let mut k: usize = 0;
    while k < iface.flags.len()
        invariant
            k <= iface.flags@.len(),
            up == exists|j: int| 0 <= j < k && (#[trigger] iface.flags@[j])@ == "UP"@,
        decreases iface.flags@.len() - k,
    {
        if same_text(iface.flags[k].as_str(), "UP") {
            up = true;
        }
        k = k + 1;
    }
    if !up {
        return false;
    }
    let mut global = false;
    let mut k: usize = 0;
    while k < iface.addr_info.len()
        invariant
            k <= iface.addr_info@.len(),
            global == exists|j: int| 0 <= j < k && (#[trigger] iface.addr_info@[j]).scope@ == "global"@,
        decreases iface.addr_info@.len() - k,
    {
        if same_text(iface.addr_info[k].scope.as_str(), "global") {
            global = true;
        }
        k = k + 1;
    }
    global
}

/// The index of the first tunnel among `ifs`.
fn find_tunnel(ifs: &[Interface]) -> (r: Option<usize>)
    ensures
        match first_tunnel(ifs@) {
            Some(t) => r == Some(t as usize) && 0 <= t < ifs@.len(),
            None => r is None,
        },
{
    let ghost p = |k: int| is_tunnel(ifs@[k]);
    let mut k: usize = 0;
    while k < ifs.len()
        invariant
            k <= ifs@.len(),
            p == (|k: int| is_tunnel(ifs@[k])),
            forall|j: int| 0 <= j < k ==> !#[trigger] p(j),
        decreases ifs@.len() - k,
    {
        if tunnel_like(&ifs[k]) {
            proof {
                assert(p(k as int));
                lemma_first_where_found(ifs@.len() as int, p, k as int);
            }
            return Some(k);
        }
        assert(!p(k as int));
        k = k + 1;
    }
    proof {
        lemma_first_where_absent(ifs@.len() as int, p);
    }
    None
}

/// The local address of the first global address that has one, or nothing.
fn global_address(addrs: &Vec<Address>) -> (r: String)
    ensures
        r@ == match first_global(addrs@) {
            Some(a) => addrs@[a].local@,
            None => Seq::empty(),
        },
{
    let ghost p = |k: int| addrs@[k].scope@ == "global"@ && addrs@[k].local@.len() > 0;
    let mut k: usize = 0;
    while k < addrs.len()
        invariant
            k <= addrs@.len(),
            p == (|k: int| addrs@[k].scope@ == "global"@ && addrs@[k].local@.len() > 0),
            forall|j: int| 0 <= j < k ==> !#[trigger] p(j),
        decreases addrs@.len() - k,
    {
        if same_text(addrs[k].scope.as_str(), "global") && !addrs[k].local.as_str().is_empty() {
            proof {
                assert(p(k as int));
                lemma_first_where_found(addrs@.len() as int, p, k as int);
            }
            return addrs[k].local.clone();
        }
        assert(!p(k as int));
        k = k + 1;
    }
    proof {
        lemma_first_where_absent(addrs@.len() as int, p);
    }
    String::new()
}

/// The state for a lowercased "Status" value, where `tunnel` tells whether a tunnel
/// interface was found.
pub fn connection_state(lower: &str, tunnel: bool) -> (state: &'static str)
    ensures
        state@ == state_for(lower@, tunnel),
{
    if same_text(lower, "connected") {
        if tunnel {
            "connected"
        } else {
            "degraded"
        }
    } else if same_text(lower, "disconnected") || same_text(lower, "not connected") {
        "disconnected"
    } else if contains(lower, "connecting") {
        "connecting"
    } else {
        "unknown"
    }
}

/// The error code that goes with `state`.
fn error_code(state: &str) -> (code: &'static str)
    ensures
        code@ == error_for(state@),
{
    if same_text(state, "degraded") {
        "tunnel_unavailable"
    } else if same_text(state, "unknown") {
        "status_unrecognized"
    } else {
        ""
    }
}

/// Classifies the output of `forticlient vpn status` against the interfaces that
/// `ip -j address` lists: each "Key: value" line gives a field (the last one counts),
/// the "Status" field decides the state, a connection without a live tunnel
/// interface is "degraded", and a missing "IP" comes from the tunnel's global address.
pub fn classify(output: &str, interfaces: &[Interface]) -> (s: Status)
    ensures
        s.state@ == classified_state(output@, interfaces@),
        s.name@ == field(output@, "VPN name"@, "Fortinet"@),
        s.ip@ == classified_ip(output@, interfaces@),
        s.duration@ == field(output@, "Duration"@, ""@),
        s.sent@ == field(output@, "Sent bytes"@, "0"@),
        s.received@ == field(output@, "Recv bytes"@, "0"@),
        s.interface@ == tunnel_name(interfaces@),
        s.error@ == error_for(classified_state(output@, interfaces@)),
{
    let chars = chars_of(output);
    let entries = entries_of(&chars);
    let tunnel = find_tunnel(interfaces);
    let status_text = field_of(output, &chars, &entries, "Status", "");
    let lower = to_lowercase(status_text.as_str());
    let state = connection_state(lower.as_str(), tunnel.is_some());
    let listed_ip = field_of(output, &chars, &entries, "IP", "");
    let ip = if listed_ip.as_str().is_empty() {
        match tunnel {
            Some(t) => global_address(&interfaces[t].addr_info),
            None => String::new(),
        }
    } else {
        listed_ip
    };
    let interface = match tunnel {
        Some(t) => interfaces[t].ifname.clone(),
        None => String::new(),
    };
    Status {
        state: state.to_owned(),
        name: field_of(output, &chars, &entries, "VPN name", "Fortinet"),
        ip,
        duration: field_of(output, &chars, &entries, "Duration", ""),
        sent: field_of(output, &chars, &entries, "Sent bytes", "0"),
        received: field_of(output, &chars, &entries, "Recv bytes", "0"),
        interface,
        error: error_code(state).to_owned(),
    }
}

} // verus!

verus! {

/// A classification is connected only where a live tunnel interface was found, and
/// then it names that interface, whose name starts with "fctvpn".
pub proof fn law_connected_requires_tunnel(output: Seq<char>, ifs: Seq<Interface>)
    ensures
        classified_state(output, ifs) == "connected"@ ==> first_tunnel(ifs) is Some && has_prefix(
            tunnel_name(ifs),
            "fctvpn"@,
        ),
{
    reveal_strlit("connected");
    reveal_strlit("degraded");
    reveal_strlit("disconnected");
    reveal_strlit("connecting");
    reveal_strlit("unknown");
    if classified_state(output, ifs) == "connected"@ {
        let lower = lowercase(field(output, "Status"@, ""@));
        assert("degraded"@.len() == 8);
        assert("connected"@.len() == 9);
        assert(state_for(lower, false) != "connected"@);
        let t = first_tunnel(ifs);
        assert(t is Some);
        let i = t.unwrap();
        assert(is_tunnel(ifs[i]));
    }
}

/// The state is always one of "connected", "degraded", "disconnected", "connecting" and
/// "unknown", and an error code goes with exactly "degraded" and "unknown".
pub proof fn law_states_and_errors(output: Seq<char>, ifs: Seq<Interface>)
    ensures
        ({
            let state = classified_state(output, ifs);
            &&& state == "connected"@ || state == "degraded"@ || state == "disconnected"@
                || state == "connecting"@ || state == "unknown"@
            &&& (error_for(state).len() == 0 <==> !(state == "degraded"@ || state == "unknown"@))
        }),
{
    reveal_strlit("connected");
    reveal_strlit("degraded");
    reveal_strlit("disconnected");
    reveal_strlit("connecting");
    reveal_strlit("unknown");
    reveal_strlit("tunnel_unavailable");
    reveal_strlit("status_unrecognized");
    reveal_strlit("");
}

/// A "Status" of "Disconnected" or "Not connected" (in any case) is disconnected,
/// whatever interfaces remain.
pub proof fn law_disconnected_overrides_interfaces(output: Seq<char>, ifs: Seq<Interface>)
    requires
        lowercase(field(output, "Status"@, ""@)) == "disconnected"@ || lowercase(
            field(output, "Status"@, ""@),
        ) == "not connected"@,
    ensures
        classified_state(output, ifs) == "disconnected"@,
{
    reveal_strlit("connected");
    reveal_strlit("disconnected");
    reveal_strlit("not connected");
    let lower = lowercase(field(output, "Status"@, ""@));
    assert(lower.len() != 9);
    assert(lower != "connected"@);
}

} // verus!

verus! {

/// Only a "Status" value of "connected" (in any case) can classify as connected, and
/// the interfaces matter only for that value: every other value gives the same state
/// with or without a tunnel, and a value that mentions "connecting" (other than
/// "connected", "disconnected" and "not connected") is connecting.
pub proof fn law_state_follows_status_value(lower: Seq<char>, tunnel: bool)
    ensures
        state_for(lower, tunnel) == "connected"@ ==> lower == "connected"@ && tunnel,
        lower != "connected"@ ==> state_for(lower, true) == state_for(lower, false),
        lower != "connected"@ && lower != "disconnected"@ && lower != "not connected"@
            && occurs_in(lower, "connecting"@) ==> state_for(lower, tunnel) == "connecting"@,
        lower == "disconnected"@ || lower == "not connected"@ ==> state_for(lower, tunnel)
            == "disconnected"@,
        lower == "connected"@ && !tunnel ==> state_for(lower, tunnel) == "degraded"@,
        lower != "connected"@ && lower != "disconnected"@ && lower != "not connected"@
            && !occurs_in(lower, "connecting"@) ==> state_for(lower, tunnel) == "unknown"@,
{
    reveal_strlit("connected");
    reveal_strlit("degraded");
    reveal_strlit("disconnected");
    reveal_strlit("not connected");
    reveal_strlit("connecting");
    reveal_strlit("unknown");
    assert("degraded"@.len() == 8);
    assert("connected"@.len() == 9);
    assert("connecting"@.len() == 10);
    assert("disconnected"@.len() == 12);
    assert("unknown"@.len() == 7);
}

/// A connected classification comes from a "connected" status value and names an
/// interface that is live: its name starts with "fctvpn", it carries the flag "UP" and
/// it has a global address.
pub proof fn law_connected_names_a_live_interface(output: Seq<char>, ifs: Seq<Interface>)
    ensures
        classified_state(output, ifs) == "connected"@ ==> ({
            let t = first_tunnel(ifs).unwrap();
            &&& lowercase(field(output, "Status"@, ""@)) == "connected"@
            &&& first_tunnel(ifs) is Some
            &&& 0 <= t < ifs.len()
            &&& tunnel_name(ifs) == ifs[t].ifname@
            &&& has_prefix(ifs[t].ifname@, "fctvpn"@)
            &&& exists|k: int| 0 <= k < ifs[t].flags@.len() && ifs[t].flags@[k]@ == "UP"@
            &&& exists|k: int| 0 <= k < ifs[t].addr_info@.len() && ifs[t].addr_info@[k].scope@
                == "global"@
        }),
{
    law_state_follows_status_value(
        lowercase(field(output, "Status"@, ""@)),
        first_tunnel(ifs) is Some,
    );
    if classified_state(output, ifs) == "connected"@ {
        let t = first_tunnel(ifs).unwrap();
        assert(is_tunnel(ifs[t]));
    }
}

/// Without an interface that is named "fctvpn…", up and globally addressed, nothing is
/// connected and no interface is reported.
pub proof fn law_no_live_interface_no_connection(output: Seq<char>, ifs: Seq<Interface>)
    requires
        forall|j: int|
            0 <= j < ifs.len() ==> !(has_prefix(ifs[j].ifname@, "fctvpn"@) && (exists|k: int|
                0 <= k < ifs[j].flags@.len() && ifs[j].flags@[k]@ == "UP"@) && (exists|k: int|
                0 <= k < ifs[j].addr_info@.len() && ifs[j].addr_info@[k].scope@ == "global"@)),
    ensures
        classified_state(output, ifs) != "connected"@,
        tunnel_name(ifs) == Seq::<char>::empty(),
{
    let p = |k: int| is_tunnel(ifs[k]);
    assert forall|j: int| 0 <= j < ifs.len() implies !#[trigger] p(j) by {
        assert(!is_tunnel(ifs[j]));
    }
    lemma_first_where_absent(ifs.len() as int, p);
    assert(first_tunnel(ifs) is None);
    law_state_follows_status_value(lowercase(field(output, "Status"@, ""@)), false);
}

} // verus!

verus! {

/// "tunnel_unavailable" is the error of exactly the degraded state, "status_unrecognized"
/// of exactly the unknown state, and every other state has no error.
pub proof fn law_error_codes(state: Seq<char>)
    ensures
        (error_for(state) == "tunnel_unavailable"@) == (state == "degraded"@),
        (error_for(state) == "status_unrecognized"@) == (state == "unknown"@),
        (error_for(state).len() == 0) == (state != "degraded"@ && state != "unknown"@),
{
    reveal_strlit("degraded");
    reveal_strlit("unknown");
    reveal_strlit("tunnel_unavailable");
    reveal_strlit("status_unrecognized");
    reveal_strlit("");
    assert("tunnel_unavailable"@.len() == 18);
    assert("status_unrecognized"@.len() == 19);
    assert("degraded"@.len() == 8);
    assert("unknown"@.len() == 7);
    assert(""@.len() == 0);
}

/// Keys are read from the lines in order and the last line that gives a key its value
/// wins: a line for `key` sets the value whatever came before, any other line leaves it,
/// and no lines give no value.
pub proof fn law_last_line_wins(ls: Seq<Seq<char>>, line: Seq<char>, key: Seq<char>)
    ensures
        entry(line) is Some && entry(line).unwrap().0 == key ==> lookup(ls.push(line), key)
            == Some(entry(line).unwrap().1),
        !(entry(line) is Some && entry(line).unwrap().0 == key) ==> lookup(ls.push(line), key)
            == lookup(ls, key),
        lookup(Seq::<Seq<char>>::empty(), key) is None,
{
    assert(ls.push(line).drop_last() =~= ls);
    assert(ls.push(line).last() == line);
}

} // verus!

verus! {

/// The tunnel is the first live interface in the list, and it is the interface reported;
/// where there is none, no interface is reported.
pub proof fn law_first_live_interface(ifs: Seq<Interface>)
    ensures
        first_tunnel(ifs) is Some ==> ({
            let t = first_tunnel(ifs).unwrap();
            &&& 0 <= t < ifs.len()
            &&& is_tunnel(ifs[t])
            &&& forall|j: int| 0 <= j < t ==> !is_tunnel(#[trigger] ifs[j])
            &&& tunnel_name(ifs) == ifs[t].ifname@
        }),
        first_tunnel(ifs) is None ==> (forall|j: int| 0 <= j < ifs.len() ==> !is_tunnel(
            #[trigger] ifs[j],
        )) && tunnel_name(ifs) == Seq::<char>::empty(),
{
    let p = |k: int| is_tunnel(ifs[k]);
    if first_tunnel(ifs) is Some {
        let t = first_tunnel(ifs).unwrap();
        assert(is_first(ifs.len() as int, p, t));
        assert forall|j: int| 0 <= j < t implies !is_tunnel(#[trigger] ifs[j]) by {
            assert(!p(j));
        }
    } else {
        assert forall|j: int| 0 <= j < ifs.len() implies !is_tunnel(#[trigger] ifs[j]) by {
            if is_tunnel(ifs[j]) {
                lemma_least_match(ifs, j);
            }
        }
    }
}

proof fn lemma_least_match(ifs: Seq<Interface>, j: int)
    requires
        0 <= j < ifs.len(),
        is_tunnel(ifs[j]),
    ensures
        first_tunnel(ifs) is Some,
    decreases j,
{
    let p = |k: int| is_tunnel(ifs[k]);
    if forall|i: int| 0 <= i < j ==> !#[trigger] p(i) {
        assert(is_first(ifs.len() as int, p, j));
        lemma_first_where_found(ifs.len() as int, p, j);
    } else {
        let i = choose|i: int| 0 <= i < j && #[trigger] p(i);
        lemma_least_match(ifs, i);
    }
}

/// The address reported is the "IP" value where it is not empty; otherwise it is the local
/// address of the tunnel's first global address that has one, or nothing.
pub proof fn law_ip_source(output: Seq<char>, ifs: Seq<Interface>)
    ensures
        field(output, "IP"@, ""@).len() > 0 ==> classified_ip(output, ifs) == field(
            output,
            "IP"@,
            ""@,
        ),
        field(output, "IP"@, ""@).len() == 0 && first_tunnel(ifs) is None ==> classified_ip(
            output,
            ifs,
        ) == Seq::<char>::empty(),
        field(output, "IP"@, ""@).len() == 0 && first_tunnel(ifs) is Some && first_global(
            ifs[first_tunnel(ifs).unwrap()].addr_info@,
        ) is Some ==> ({
            let addrs = ifs[first_tunnel(ifs).unwrap()].addr_info@;
            let a = first_global(addrs).unwrap();
            &&& 0 <= a < addrs.len()
            &&& addrs[a].scope@ == "global"@
            &&& addrs[a].local@.len() > 0
            &&& classified_ip(output, ifs) == addrs[a].local@
            &&& forall|k: int|
                0 <= k < a ==> !((#[trigger] addrs[k]).scope@ == "global"@ && addrs[k].local@.len()
                    > 0)
        }),
{
    if field(output, "IP"@, ""@).len() == 0 && first_tunnel(ifs) is Some && first_global(
        ifs[first_tunnel(ifs).unwrap()].addr_info@,
    ) is Some {
        let addrs = ifs[first_tunnel(ifs).unwrap()].addr_info@;
        let p = |k: int| addrs[k].scope@ == "global"@ && addrs[k].local@.len() > 0;
        let a = first_global(addrs).unwrap();
        assert(is_first(addrs.len() as int, p, a));
        assert forall|k: int| 0 <= k < a implies !((#[trigger] addrs[k]).scope@ == "global"@
            && addrs[k].local@.len() > 0) by {
            assert(!p(k));
        }
    }
}

} // verus!
