//! Addresses and interface names of a sandbox's bridged network.
use vstd::prelude::*;
use crate::text::{decimal, u64_to_string, concat, all_digits, is_digit, lemma_decimal_value, lemma_decimal_injective};
use crate::policy::strings_view;

verus! {

/// The host bridge.
pub const BRIDGE_NAME: &'static str = "tinybox0";

/// The bridge's address, the sandboxes' gateway.
pub const BRIDGE_IP: &'static str = "172.20.0.1";

/// The sandboxes' subnet.
pub const BRIDGE_SUBNET: &'static str = "172.20.0.0/16";

/// The bridge, address and veth pair of one sandbox.
#[derive(Debug)]
pub struct NetworkConfig {
    pub bridge_name: String,
    pub container_ip: String,
    pub veth_host: String,
    pub veth_container: String,
}

/// The address of sandbox `id`: sandboxes fill `172.20.x.2` to
/// `172.20.x.255` in turn, from `x = 1`.
pub open spec fn container_ip(id: nat) -> Seq<char> {
    "172.20."@ + decimal(((id - 1) / 254 + 1) as nat) + "."@ + decimal(((id - 1) % 254 + 2) as nat)
}

/// Two dotted pairs of digit strings are equal only part for part.
proof fn lemma_dotted_parts(x1: Seq<char>, y1: Seq<char>, x2: Seq<char>, y2: Seq<char>)
    requires
        all_digits(x1),
        all_digits(x2),
        x1 + "."@ + y1 == x2 + "."@ + y2,
    ensures
        x1 == x2,
        y1 == y2,
{
    reveal_strlit(".");
    let s = x1 + "."@ + y1;
    assert(!is_digit('.'));
    if x1.len() < x2.len() {
        assert(s[x1.len() as int] == '.');
        assert(s[x1.len() as int] == x2[x1.len() as int]);
    } else if x2.len() < x1.len() {
        assert(s[x2.len() as int] == '.');
        assert(s[x2.len() as int] == x1[x2.len() as int]);
    }
    assert(x1 =~= s.subrange(0, x1.len() as int));
    assert(x2 =~= s.subrange(0, x2.len() as int));
    assert(y1 =~= s.subrange(x1.len() as int + 1, s.len() as int));
    assert(y2 =~= s.subrange(x2.len() as int + 1, s.len() as int));
}

/// Distinct sandboxes get distinct addresses.
pub proof fn law_distinct_addresses(a: nat, b: nat)
    requires
        a >= 1,
        b >= 1,
        a != b,
    ensures
        container_ip(a) != container_ip(b),
{
    let xa = decimal(((a - 1) / 254 + 1) as nat);
    let ya = decimal(((a - 1) % 254 + 2) as nat);
    let xb = decimal(((b - 1) / 254 + 1) as nat);
    let yb = decimal(((b - 1) % 254 + 2) as nat);
    let p = "172.20."@;
    if container_ip(a) == container_ip(b) {
        let sa = container_ip(a);
        assert(xa + "."@ + ya =~= sa.subrange(p.len() as int, sa.len() as int));
        assert(xb + "."@ + yb =~= sa.subrange(p.len() as int, sa.len() as int));
        lemma_decimal_value(((a - 1) / 254 + 1) as nat);
        lemma_decimal_value(((b - 1) / 254 + 1) as nat);
        lemma_dotted_parts(xa, ya, xb, yb);
        lemma_decimal_injective(((a - 1) / 254 + 1) as nat, ((b - 1) / 254 + 1) as nat);
        lemma_decimal_injective(((a - 1) % 254 + 2) as nat, ((b - 1) % 254 + 2) as nat);
        assert((a - 1) == 254 * ((a - 1) / 254) + (a - 1) % 254);
        assert((b - 1) == 254 * ((b - 1) / 254) + (b - 1) % 254);
    }
}

impl NetworkConfig {
    /// The network of sandbox `container_id` (numbered from 1).
    pub fn new(container_id: u32) -> (c: NetworkConfig)
        requires
            container_id >= 1,
        ensures
            c.bridge_name@ == BRIDGE_NAME@,
            c.container_ip@ == container_ip(container_id as nat),
            c.veth_host@ == "veth"@ + decimal(container_id as nat) + "h"@,
            c.veth_container@ == "veth"@ + decimal(container_id as nat) + "c"@,
    {
        let octet3 = (container_id - 1) / 254 + 1;
        let octet4 = (container_id - 1) % 254 + 2;
        let a = concat("172.20.", u64_to_string(octet3 as u64).as_str());
        let b = concat(a.as_str(), ".");
        let ip = concat(b.as_str(), u64_to_string(octet4 as u64).as_str());
        let id = u64_to_string(container_id as u64);
        let host = concat(concat("veth", id.as_str()).as_str(), "h");
        let container = concat(concat("veth", id.as_str()).as_str(), "c");
        NetworkConfig { bridge_name: BRIDGE_NAME.to_owned(), container_ip: ip, veth_host: host, veth_container: container }
    }
}


// ---------------------------------------------------------------------------
// Command lines

/// One command line: a program and its arguments.
#[derive(Debug)]
pub struct CommandLine {
    pub program: String,
    pub args: Vec<String>,
}

/// A command line as text: the program and each argument.
pub open spec fn line_view(c: CommandLine) -> (Seq<char>, Seq<Seq<char>>) {
    (c.program@, strings_view(c.args@))
}

pub open spec fn lines_view(v: Seq<CommandLine>) -> Seq<(Seq<char>, Seq<Seq<char>>)> {
    v.map_values(|c: CommandLine| line_view(c))
}

fn args_of(items: &[&str]) -> (v: Vec<String>)
    ensures
        strings_view(v@) == items@.map_values(|s: &str| s@),
{
    let mut v: Vec<String> = Vec::new();
    let mut i: usize = 0;
    while i < items.len()
        invariant
            i <= items@.len(),
            strings_view(v@) == items@.subrange(0, i as int).map_values(|s: &str| s@),
        decreases items@.len() - i,
    {
        let ghost before = strings_view(v@);
        v.push(items[i].to_owned());
        assert(strings_view(v@) =~= before.push(items@[i as int]@));
        assert(items@.subrange(0, i + 1).map_values(|s: &str| s@) =~= before.push(items@[i as int]@));
        i = i + 1;
    }
    assert(items@.subrange(0, items@.len() as int) =~= items@);
    v
}

fn line(program: &str, items: &[&str]) -> (c: CommandLine)
    ensures
        line_view(c) == (program@, items@.map_values(|s: &str| s@)),
{
    CommandLine { program: program.to_owned(), args: args_of(items) }
}

fn push_line(v: &mut Vec<CommandLine>, c: CommandLine)
    ensures
        lines_view(final(v)@) == lines_view(old(v)@).push(line_view(c)),
{
    let ghost before = lines_view(v@);
    v.push(c);
    assert(lines_view(v@) =~= before.push(line_view(c)));
}

/// The probe for an existing bridge: `ip link show tinybox0`.
pub fn bridge_probe() -> (c: CommandLine)
    ensures
        line_view(c) == ("ip"@, seq!["link"@, "show"@, BRIDGE_NAME@]),
{
    let c = line("ip", &["link", "show", BRIDGE_NAME]);
    assert(seq!["link", "show", BRIDGE_NAME].map_values(|s: &str| s@) =~= seq!["link"@, "show"@, BRIDGE_NAME@]);
    c
}

/// Creating the bridge: add it, give it the gateway address, bring it up.
pub open spec fn bridge_setup_lines() -> Seq<(Seq<char>, Seq<Seq<char>>)> {
    seq![
        ("ip"@, seq!["link"@, "add"@, BRIDGE_NAME@, "type"@, "bridge"@]),
        ("ip"@, seq!["addr"@, "add"@, BRIDGE_IP@ + "/16"@, "dev"@, BRIDGE_NAME@]),
        ("ip"@, seq!["link"@, "set"@, BRIDGE_NAME@, "up"@]),
    ]
}

/// The commands that create the bridge.
pub fn bridge_setup() -> (v: Vec<CommandLine>)
    ensures
        lines_view(v@) == bridge_setup_lines(),
{
    let mut v: Vec<CommandLine> = Vec::new();
    let a = line("ip", &["link", "add", BRIDGE_NAME, "type", "bridge"]);
    assert(seq!["link", "add", BRIDGE_NAME, "type", "bridge"].map_values(|s: &str| s@)
        =~= seq!["link"@, "add"@, BRIDGE_NAME@, "type"@, "bridge"@]);
    push_line(&mut v, a);
    let address = concat(BRIDGE_IP, "/16");
    let address = address.as_str();
    let b = line("ip", &["addr", "add", address, "dev", BRIDGE_NAME]);
    assert(seq!["addr", "add", address, "dev", BRIDGE_NAME].map_values(|s: &str| s@)
        =~= seq!["addr"@, "add"@, BRIDGE_IP@ + "/16"@, "dev"@, BRIDGE_NAME@]);
    push_line(&mut v, b);
    let c = line("ip", &["link", "set", BRIDGE_NAME, "up"]);
    assert(seq!["link", "set", BRIDGE_NAME, "up"].map_values(|s: &str| s@) =~= seq!["link"@, "set"@, BRIDGE_NAME@, "up"@]);
    push_line(&mut v, c);
    assert(lines_view(v@) =~= bridge_setup_lines());
    v
}

/// NAT for the subnet and forwarding through the bridge.
pub open spec fn nat_lines() -> Seq<(Seq<char>, Seq<Seq<char>>)> {
    seq![
        ("iptables"@, seq!["-t"@, "nat"@, "-A"@, "POSTROUTING"@, "-s"@, BRIDGE_SUBNET@, "!"@, "-d"@, BRIDGE_SUBNET@,
            "-j"@, "MASQUERADE"@]),
        ("iptables"@, seq!["-A"@, "FORWARD"@, "-i"@, BRIDGE_NAME@, "-j"@, "ACCEPT"@]),
        ("iptables"@, seq!["-A"@, "FORWARD"@, "-o"@, BRIDGE_NAME@, "-m"@, "state"@, "--state"@,
            "RELATED,ESTABLISHED"@, "-j"@, "ACCEPT"@]),
    ]
}

/// The firewall rules set up with the bridge.
pub fn nat_rules() -> (v: Vec<CommandLine>)
    ensures
        lines_view(v@) == nat_lines(),
{
    let mut v: Vec<CommandLine> = Vec::new();
    let a = line("iptables", &["-t", "nat", "-A", "POSTROUTING", "-s", BRIDGE_SUBNET, "!", "-d", BRIDGE_SUBNET, "-j", "MASQUERADE"]);
    assert(seq!["-t", "nat", "-A", "POSTROUTING", "-s", BRIDGE_SUBNET, "!", "-d", BRIDGE_SUBNET, "-j", "MASQUERADE"].map_values(
        |s: &str| s@,
    ) =~= seq!["-t"@, "nat"@, "-A"@, "POSTROUTING"@, "-s"@, BRIDGE_SUBNET@, "!"@, "-d"@, BRIDGE_SUBNET@, "-j"@, "MASQUERADE"@]);
    push_line(&mut v, a);
    let b = line("iptables", &["-A", "FORWARD", "-i", BRIDGE_NAME, "-j", "ACCEPT"]);
    assert(seq!["-A", "FORWARD", "-i", BRIDGE_NAME, "-j", "ACCEPT"].map_values(|s: &str| s@)
        =~= seq!["-A"@, "FORWARD"@, "-i"@, BRIDGE_NAME@, "-j"@, "ACCEPT"@]);
    push_line(&mut v, b);
    let c = line("iptables", &["-A", "FORWARD", "-o", BRIDGE_NAME, "-m", "state", "--state", "RELATED,ESTABLISHED", "-j", "ACCEPT"]);
    assert(seq!["-A", "FORWARD", "-o", BRIDGE_NAME, "-m", "state", "--state", "RELATED,ESTABLISHED", "-j", "ACCEPT"].map_values(
        |s: &str| s@,
    ) =~= seq!["-A"@, "FORWARD"@, "-o"@, BRIDGE_NAME@, "-m"@, "state"@, "--state"@, "RELATED,ESTABLISHED"@, "-j"@, "ACCEPT"@]);
    push_line(&mut v, c);
    assert(lines_view(v@) =~= nat_lines());
    v
}

/// Creating a sandbox's veth pair: add it, attach the host end to the
/// bridge, bring the host end up.
pub open spec fn veth_lines(c: NetworkConfig) -> Seq<(Seq<char>, Seq<Seq<char>>)> {
    seq![
        ("ip"@, seq!["link"@, "add"@, c.veth_host@, "type"@, "veth"@, "peer"@, "name"@, c.veth_container@]),
        ("ip"@, seq!["link"@, "set"@, c.veth_host@, "master"@, c.bridge_name@]),
        ("ip"@, seq!["link"@, "set"@, c.veth_host@, "up"@]),
    ]
}

/// The commands that create a sandbox's veth pair.
pub fn veth_pair(config: &NetworkConfig) -> (v: Vec<CommandLine>)
    ensures
        lines_view(v@) == veth_lines(*config),
{
    let host = config.veth_host.as_str();
    let peer = config.veth_container.as_str();
    let bridge = config.bridge_name.as_str();
    let mut v: Vec<CommandLine> = Vec::new();
    let a = line("ip", &["link", "add", host, "type", "veth", "peer", "name", peer]);
    assert(seq!["link", "add", host, "type", "veth", "peer", "name", peer].map_values(|s: &str| s@)
        =~= seq!["link"@, "add"@, host@, "type"@, "veth"@, "peer"@, "name"@, peer@]);
    push_line(&mut v, a);
    let b = line("ip", &["link", "set", host, "master", bridge]);
    assert(seq!["link", "set", host, "master", bridge].map_values(|s: &str| s@) =~= seq!["link"@, "set"@, host@, "master"@, bridge@]);
    push_line(&mut v, b);
    let c = line("ip", &["link", "set", host, "up"]);
    assert(seq!["link", "set", host, "up"].map_values(|s: &str| s@) =~= seq!["link"@, "set"@, host@, "up"@]);
    push_line(&mut v, c);
    assert(lines_view(v@) =~= veth_lines(*config));
    v
}

/// Moving the sandbox end of the pair into the network namespace of
/// process `pid`.
pub fn move_veth(config: &NetworkConfig, pid: u32) -> (c: CommandLine)
    ensures
        line_view(c) == ("ip"@, seq!["link"@, "set"@, config.veth_container@, "netns"@, decimal(pid as nat)]),
{
    let peer = config.veth_container.as_str();
    let number = u64_to_string(pid as u64);
    let number = number.as_str();
    let c = line("ip", &["link", "set", peer, "netns", number]);
    assert(seq!["link", "set", peer, "netns", number].map_values(|s: &str| s@)
        =~= seq!["link"@, "set"@, peer@, "netns"@, decimal(pid as nat)]);
    c
}

/// Inside the sandbox: loopback and the veth up, the sandbox's address,
/// and the default route through the bridge.
pub open spec fn container_lines(c: NetworkConfig) -> Seq<(Seq<char>, Seq<Seq<char>>)> {
    seq![
        ("ip"@, seq!["link"@, "set"@, "lo"@, "up"@]),
        ("ip"@, seq!["link"@, "set"@, c.veth_container@, "up"@]),
        ("ip"@, seq!["addr"@, "add"@, c.container_ip@ + "/16"@, "dev"@, c.veth_container@]),
        ("ip"@, seq!["route"@, "add"@, "default"@, "via"@, BRIDGE_IP@]),
    ]
}

/// The commands that configure the network inside a sandbox.
pub fn container_network(config: &NetworkConfig) -> (v: Vec<CommandLine>)
    ensures
        lines_view(v@) == container_lines(*config),
{
    let peer = config.veth_container.as_str();
    let mut v: Vec<CommandLine> = Vec::new();
    let a = line("ip", &["link", "set", "lo", "up"]);
    assert(seq!["link", "set", "lo", "up"].map_values(|s: &str| s@) =~= seq!["link"@, "set"@, "lo"@, "up"@]);
    push_line(&mut v, a);
    let b = line("ip", &["link", "set", peer, "up"]);
    assert(seq!["link", "set", peer, "up"].map_values(|s: &str| s@) =~= seq!["link"@, "set"@, peer@, "up"@]);
    push_line(&mut v, b);
    let address = concat(config.container_ip.as_str(), "/16");
    let address = address.as_str();
    let c = line("ip", &["addr", "add", address, "dev", peer]);
    assert(seq!["addr", "add", address, "dev", peer].map_values(|s: &str| s@)
        =~= seq!["addr"@, "add"@, config.container_ip@ + "/16"@, "dev"@, peer@]);
    push_line(&mut v, c);
    let d = line("ip", &["route", "add", "default", "via", BRIDGE_IP]);
    assert(seq!["route", "add", "default", "via", BRIDGE_IP].map_values(|s: &str| s@)
        =~= seq!["route"@, "add"@, "default"@, "via"@, BRIDGE_IP@]);
    push_line(&mut v, d);
    assert(lines_view(v@) =~= container_lines(*config));
    v
}

/// Deleting the host end of a sandbox's veth pair (which removes both).
pub fn veth_cleanup(config: &NetworkConfig) -> (c: CommandLine)
    ensures
        line_view(c) == ("ip"@, seq!["link"@, "del"@, config.veth_host@]),
{
    let host = config.veth_host.as_str();
    let c = line("ip", &["link", "del", host]);
    assert(seq!["link", "del", host].map_values(|s: &str| s@) =~= seq!["link"@, "del"@, host@]);
    c
}

/// Forwarding TCP port `host_port` of the host to `container_port` of a
/// sandbox address.
pub fn port_mapping(host_port: u16, container_ip: &str, container_port: u16) -> (c: CommandLine)
    ensures
        line_view(c) == ("iptables"@, seq!["-t"@, "nat"@, "-A"@, "PREROUTING"@, "-p"@, "tcp"@, "--dport"@,
            decimal(host_port as nat), "-j"@, "DNAT"@, "--to-destination"@,
            container_ip@ + ":"@ + decimal(container_port as nat)]),
{
    let port = u64_to_string(host_port as u64);
    let port = port.as_str();
    let target = concat(concat(container_ip, ":").as_str(), u64_to_string(container_port as u64).as_str());
    let target = target.as_str();
    let c = line("iptables", &["-t", "nat", "-A", "PREROUTING", "-p", "tcp", "--dport", port, "-j", "DNAT", "--to-destination", target]);
    assert(seq!["-t", "nat", "-A", "PREROUTING", "-p", "tcp", "--dport", port, "-j", "DNAT", "--to-destination", target].map_values(
        |s: &str| s@,
    ) =~= seq!["-t"@, "nat"@, "-A"@, "PREROUTING"@, "-p"@, "tcp"@, "--dport"@, decimal(host_port as nat), "-j"@, "DNAT"@,
        "--to-destination"@, container_ip@ + ":"@ + decimal(container_port as nat)]);
    c
}

} // verus!
