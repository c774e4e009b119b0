//! The network broker: which CONNECT requests it serves, which addresses it
//! refuses to dial, and how its audit events name the matching rule.
use vstd::prelude::*;
use crate::text::{chars_of, trim, trim_chars, rfind_char, rfind_char_in, slice_chars, string_of, parse_unsigned, parse_unsigned_chars, concat, decimal, u64_to_string};
use crate::policy::{NetworkRule, NetRuleView, rules_view};

verus! {

/// An IP address: four octets, or eight 16-bit segments.
#[derive(Clone, Copy, PartialEq, Eq, Structural, Debug)]
pub enum IpAddress {
    V4(u8, u8, u8, u8),
    V6(u16, u16, u16, u16, u16, u16, u16, u16),
}

/// An address the broker never dials (outside the local test fixture):
/// for IPv4 private, loopback, link-local, broadcast, documentation and
/// unspecified addresses; for IPv6 loopback, unspecified, unique-local and
/// unicast link-local ones, as `std::net` classifies them.
pub open spec fn forbidden(ip: IpAddress) -> bool {
    match ip {
        IpAddress::V4(a, b, c, d) => {
            ||| a == 10
            ||| (a == 172 && 16 <= b && b <= 31)
            ||| (a == 192 && b == 168)
            ||| a == 127
            ||| (a == 169 && b == 254)
            ||| (a == 255 && b == 255 && c == 255 && d == 255)
            ||| (a == 192 && b == 0 && c == 2)
            ||| (a == 198 && b == 51 && c == 100)
            ||| (a == 203 && b == 0 && c == 113)
            ||| (a == 0 && b == 0 && c == 0 && d == 0)
        },
        IpAddress::V6(s0, s1, s2, s3, s4, s5, s6, s7) => {
            let zero6 = s1 == 0 && s2 == 0 && s3 == 0 && s4 == 0 && s5 == 0 && s6 == 0;
            ||| (s0 == 0 && zero6 && s7 == 1)
            ||| (s0 == 0 && zero6 && s7 == 0)
            ||| (0xfc00 <= s0 && s0 <= 0xfdff)
            ||| (0xfe80 <= s0 && s0 <= 0xfebf)
        },
    }
}

/// Whether the broker refuses to dial an address.
pub fn forbidden_ip(ip: IpAddress) -> (b: bool)
    ensures
        b == forbidden(ip),
{
    match ip {
        IpAddress::V4(a, b, c, d) => {
            a == 10 || (a == 172 && 16 <= b && b <= 31) || (a == 192 && b == 168) || a == 127 || (a == 169 && b == 254)
                || (a == 255 && b == 255 && c == 255 && d == 255) || (a == 192 && b == 0 && c == 2)
                || (a == 198 && b == 51 && c == 100) || (a == 203 && b == 0 && c == 113)
                || (a == 0 && b == 0 && c == 0 && d == 0)
        },
        IpAddress::V6(s0, s1, s2, s3, s4, s5, s6, s7) => {
            let zero6 = s1 == 0 && s2 == 0 && s3 == 0 && s4 == 0 && s5 == 0 && s6 == 0;
            (s0 == 0 && zero6 && s7 == 1) || (s0 == 0 && zero6 && s7 == 0) || (0xfc00 <= s0 && s0 <= 0xfdff)
                || (0xfe80 <= s0 && s0 <= 0xfebf)
        },
    }
}

/// Whether the broker may dial an address resolved for `host`: any
/// address of the local test fixture `localhost`, otherwise only the
/// addresses it does not refuse.
pub fn may_dial(host: &str, ip: IpAddress) -> (b: bool)
    ensures
        b == (!forbidden(ip) || host@ == "localhost"@),
{
    !forbidden_ip(ip) || crate::text::str_eq(host, "localhost")
}

/// Why the broker refused a request before resolving it.
#[derive(Clone, Copy, PartialEq, Eq, Structural, Debug)]
pub enum BrokerDenial {
    /// `request must be HOST:PORT`
    Malformed,
    /// `invalid destination port`
    BadPort,
    /// `destination is not allowlisted`
    NotAllowlisted,
}

/// The destination a request asks for, or why it is refused: the trimmed
/// request split at its last `:`, a `u16` port, and a rule allowing
/// exactly that host and port.
pub open spec fn broker_decision(request: Seq<char>, rules: Seq<NetRuleView>) -> Result<(Seq<char>, u16), BrokerDenial> {
    let t = trim(request);
    match rfind_char(t, ':') {
        None => Err(BrokerDenial::Malformed),
        Some(p) => {
            let host = t.subrange(0, p);
            match parse_unsigned(t.subrange(p + 1, t.len() as int), 65535) {
                None => Err(BrokerDenial::BadPort),
                Some(port) => if exists|i: int| 0 <= i < rules.len() && #[trigger] rules[i] == (NetRuleView { host, port: port as u16 }) {
                    Ok((host, port as u16))
                } else {
                    Err(BrokerDenial::NotAllowlisted)
                },
            }
        },
    }
}

/// Decides a broker request against the live network rules.
pub fn check_request(request: &str, rules: &Vec<NetworkRule>) -> (r: Result<(String, u16), BrokerDenial>)
    ensures
        r matches Ok(d) ==> broker_decision(request@, rules_view(rules@)) == Ok::<(Seq<char>, u16), BrokerDenial>((d.0@, d.1)),
        r matches Err(e) ==> broker_decision(request@, rules_view(rules@)) == Err::<(Seq<char>, u16), BrokerDenial>(e),
{
    let cs = chars_of(request);
    let t = trim_chars(cs.as_slice());
    let p = match rfind_char_in(t.as_slice(), ':') {
        None => {
            return Err(BrokerDenial::Malformed);
        },
        Some(p) => p,
    };
    let n = t.len();
    let host = slice_chars(t.as_slice(), 0, p);
    let port_text = slice_chars(t.as_slice(), p + 1, n);
    let port = match parse_unsigned_chars(port_text.as_slice(), 65535) {
        None => {
            return Err(BrokerDenial::BadPort);
        },
        Some(v) => v as u16,
    };
    let host_text = string_of(host.as_slice());
    let ghost rv = rules_view(rules@);
    let ghost target = NetRuleView { host: host@, port };
    assert(port as nat == parse_unsigned(t@.subrange(p + 1, t@.len() as int), 65535)->0);
    assert(broker_decision(request@, rv) == (if exists|i: int| 0 <= i < rv.len() && #[trigger] rv[i] == target {
        Ok::<(Seq<char>, u16), BrokerDenial>((host@, port))
    } else {
        Err(BrokerDenial::NotAllowlisted)
    }));
    let mut i: usize = 0;
    while i < rules.len()
        invariant
            rv == rules_view(rules@),
            target == (NetRuleView { host: host@, port }),
            host_text@ == host@,
            broker_decision(request@, rv) == (if exists|i: int| 0 <= i < rv.len() && #[trigger] rv[i] == target {
                Ok::<(Seq<char>, u16), BrokerDenial>((host@, port))
            } else {
                Err(BrokerDenial::NotAllowlisted)
            }),
            i <= rules@.len(),
            forall|k: int| 0 <= k < i ==> rv[k] != (NetRuleView { host: host@, port }),
        decreases rules@.len() - i,
    {
        assert(rv[i as int] == rules@[i as int]@);
        if crate::text::str_eq(rules[i].host.as_str(), host_text.as_str()) && rules[i].port == port {
            return Ok((host_text, port));
        }
        i = i + 1;
    }
    Err(BrokerDenial::NotAllowlisted)
}

/// The text a rule is matched against: `<host>:<port>`.
pub open spec fn rule_text(r: NetRuleView) -> Seq<char> {
    r.host + ":"@ + decimal(r.port as nat)
}

/// The audit rule id of a request: `network:<i>` for the first rule whose
/// text is the trimmed request, if any.
pub fn rule_id(request: &str, rules: &Vec<NetworkRule>) -> (r: Option<String>)
    ensures
        r is None <==> forall|i: int| 0 <= i < rules@.len() ==> rule_text(#[trigger] rules_view(rules@)[i]) != trim(request@),
        r matches Some(s) ==> exists|i: int| 0 <= i < rules@.len()
            && rule_text(#[trigger] rules_view(rules@)[i]) == trim(request@)
            && s@ == "network:"@ + decimal(i as nat)
            && forall|k: int| 0 <= k < i ==> rule_text(rules_view(rules@)[k]) != trim(request@),
{
    let cs = chars_of(request);
    let t = trim_chars(cs.as_slice());
    let ghost rv = rules_view(rules@);
    let mut i: usize = 0;
    while i < rules.len()
        invariant
            rv == rules_view(rules@),
            t@ == trim(request@),
            i <= rules@.len(),
            forall|k: int| 0 <= k < i ==> rule_text(#[trigger] rv[k]) != trim(request@),
        decreases rules@.len() - i,
    {
        assert(rv[i as int] == rules@[i as int]@);
        let text = concat(concat(rules[i].host.as_str(), ":").as_str(), u64_to_string(rules[i].port as u64).as_str());
        let tc = chars_of(text.as_str());
        if crate::text::chars_eq(tc.as_slice(), t.as_slice()) {
            let id = concat("network:", u64_to_string(i as u64).as_str());
            return Some(id);
        }
        i = i + 1;
    }
    None
}

/// The broker dials only destinations that a rule lists: a request it
/// grants names exactly the host and port of one of the live rules.
pub proof fn law_broker_allows_only_listed(request: Seq<char>, rules: Seq<NetRuleView>)
    ensures
        broker_decision(request, rules) matches Ok(d) ==> exists|i: int|
            0 <= i < rules.len() && #[trigger] rules[i] == (NetRuleView { host: d.0, port: d.1 }),
{
}

/// The text a [`BrokerDenial`] is reported with.
pub open spec fn denial_text(e: BrokerDenial) -> Seq<char> {
    match e {
        BrokerDenial::Malformed => "request must be HOST:PORT"@,
        BrokerDenial::BadPort => "invalid destination port"@,
        BrokerDenial::NotAllowlisted => "destination is not allowlisted"@,
    }
}

impl BrokerDenial {
    /// The error text.
    pub fn message(&self) -> (m: String)
        ensures
            m@ == denial_text(*self),
    {
        match self {
            BrokerDenial::Malformed => "request must be HOST:PORT".to_owned(),
            BrokerDenial::BadPort => "invalid destination port".to_owned(),
            BrokerDenial::NotAllowlisted => "destination is not allowlisted".to_owned(),
        }
    }
}

} // verus!
