use tinybox::network::{
    bridge_probe, bridge_setup, container_network, move_veth, nat_rules, port_mapping, veth_cleanup, veth_pair,
    CommandLine, NetworkConfig,
};

#[test]
fn test_network_config_new() {
    let config = NetworkConfig::new(1);
    assert_eq!(config.container_ip, "172.20.1.2");
    assert_eq!(config.veth_host, "veth1h");
    assert_eq!(config.veth_container, "veth1c");

    let config2 = NetworkConfig::new(255);
    assert_eq!(config2.container_ip, "172.20.2.2");
}

#[test]
fn network_config_fills_the_third_octet() {
    assert_eq!(NetworkConfig::new(254).container_ip, "172.20.1.255");
    assert_eq!(NetworkConfig::new(508).container_ip, "172.20.2.255");
    assert_eq!(NetworkConfig::new(7).bridge_name, "tinybox0");
}

fn text(line: &CommandLine) -> String {
    format!("{} {}", line.program, line.args.join(" "))
}

fn texts(lines: &[CommandLine]) -> Vec<String> {
    lines.iter().map(text).collect()
}

#[test]
fn bridge_commands() {
    assert_eq!(text(&bridge_probe()), "ip link show tinybox0");
    assert_eq!(
        texts(&bridge_setup()),
        vec![
            "ip link add tinybox0 type bridge",
            "ip addr add 172.20.0.1/16 dev tinybox0",
            "ip link set tinybox0 up",
        ]
    );
    assert_eq!(
        texts(&nat_rules()),
        vec![
            "iptables -t nat -A POSTROUTING -s 172.20.0.0/16 ! -d 172.20.0.0/16 -j MASQUERADE",
            "iptables -A FORWARD -i tinybox0 -j ACCEPT",
            "iptables -A FORWARD -o tinybox0 -m state --state RELATED,ESTABLISHED -j ACCEPT",
        ]
    );
}

#[test]
fn sandbox_network_commands() {
    let config = NetworkConfig::new(3);
    assert_eq!(
        texts(&veth_pair(&config)),
        vec![
            "ip link add veth3h type veth peer name veth3c",
            "ip link set veth3h master tinybox0",
            "ip link set veth3h up",
        ]
    );
    assert_eq!(text(&move_veth(&config, 4242)), "ip link set veth3c netns 4242");
    assert_eq!(
        texts(&container_network(&config)),
        vec![
            "ip link set lo up",
            "ip link set veth3c up",
            "ip addr add 172.20.1.4/16 dev veth3c",
            "ip route add default via 172.20.0.1",
        ]
    );
    assert_eq!(text(&veth_cleanup(&config)), "ip link del veth3h");
    assert_eq!(
        text(&port_mapping(8080, "172.20.1.4", 80)),
        "iptables -t nat -A PREROUTING -p tcp --dport 8080 -j DNAT --to-destination 172.20.1.4:80"
    );
}

#[test]
fn sandbox_addresses_are_distinct() {
    let mut seen = std::collections::HashSet::new();
    for id in 1..=2000u32 {
        assert!(seen.insert(NetworkConfig::new(id).container_ip), "address of {id} repeats");
    }
}
