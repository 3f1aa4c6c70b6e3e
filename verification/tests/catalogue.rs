use iprfc::catalogue;
use iprfc::{Ipv4Addr, Ipv4Net, Ipv6Addr, Ipv6Net};

fn v4(s: &str) -> Ipv4Net {
    let net: ipnet::Ipv4Net = s.parse().unwrap();
    Ipv4Net::new(Ipv4Addr::from_bits(u32::from(net.addr())), net.prefix_len()).unwrap()
}

fn v6(s: &str) -> Ipv6Net {
    let net: ipnet::Ipv6Net = s.parse().unwrap();
    Ipv6Net::new(Ipv6Addr::from_bits(u128::from(net.addr())), net.prefix_len()).unwrap()
}

#[test]
fn rfc919_t() {
    let record = catalogue::rfc919();
    assert_eq!(record.ipv4_nets()[0], v4("255.255.255.255/32"));
}

#[test]
fn rfc1112_t() {
    let record = catalogue::rfc1112();
    assert_eq!(record.ipv4_nets()[0], v4("224.0.0.0/4"));
}

#[test]
fn rfc1122_t() {
    let record = catalogue::rfc1122();
    for (idx, s) in [
        "0.0.0.0/8",
        "127.0.0.0/8",
    ]
    .iter()
    .enumerate()
    {
        assert_eq!(record.ipv4_nets()[idx], v4(s), "{s}");
    }
}

#[test]
fn rfc1918_t() {
    let record = catalogue::rfc1918();
    for (idx, s) in [
        "10.0.0.0/8",
        "172.16.0.0/12",
        "192.168.0.0/16",
    ]
    .iter()
    .enumerate()
    {
        assert_eq!(record.ipv4_nets()[idx], v4(s));
    }
}

#[test]
fn rfc2544_t() {
    let record = catalogue::rfc2544();
    assert_eq!(record.ipv4_nets()[0], v4("198.18.0.0/15"));
}

#[test]
fn rfc2765_t() {
    let record = catalogue::rfc2765();
    assert_eq!(record.ipv6_nets()[0], v6("0:0:0:0:0:ffff:0:0/96"));
}

#[test]
fn rfc2928_t() {
    let record = catalogue::rfc2928();
    assert_eq!(record.ipv6_nets()[0], v6("2001::/16"));
}

#[test]
fn rfc3056_t() {
    let record = catalogue::rfc3056();
    assert_eq!(record.ipv6_nets()[0], v6("2002::/16"));
}

#[test]
fn rfc3068_t() {
    let record = catalogue::rfc3068();
    assert_eq!(record.ipv4_nets()[0], v4("192.88.99.0/24"));
    assert_eq!(record.ipv6_nets()[0], v6("2002:c058:6301::/120"));
}

#[test]
fn rfc3171_t() {
    let record = catalogue::rfc3171();
    assert_eq!(record.ipv4_nets()[0], v4("224.0.0.0/4"));
}

#[test]
fn rfc3330_t() {
    let record = catalogue::rfc3330();
    for (idx, s) in [
        "0.0.0.0/8",
        "10.0.0.0/8",
        "127.0.0.0/8",
        "169.254.0.0/16",
        "172.16.0.0/12",
        "192.0.2.0/24",
        "192.88.99.0/24",
        "192.168.0.0/16",
        "198.18.0.0/15",
        "224.0.0.0/4",
        "240.0.0.0/4",
    ]
    .iter()
    .enumerate()
    {
        assert_eq!(record.ipv4_nets()[idx], v4(s));
    }
}

#[test]
fn rfc3849_t() {
    let record = catalogue::rfc3849();
    assert_eq!(record.ipv6_nets()[0], v6("2001:db8::/32"));
}

#[test]
fn rfc3927_t() {
    let record = catalogue::rfc3927();
    assert_eq!(record.ipv4_nets()[0], v4("169.254.0.0/16"));
}

#[test]
fn rfc4038_t() {
    let record = catalogue::rfc4038();
    assert_eq!(record.ipv6_nets()[0], v6("0:0:0:0:0:ffff::/96"));
}

#[test]
fn rfc4193_t() {
    let record = catalogue::rfc4193();
    assert_eq!(record.ipv6_nets()[0], v6("fc00::/7"));
}

#[test]
fn rfc4291_t() {
    let record = catalogue::rfc4291();
    for (idx, s) in [
        "::/128",
        "::1/128",
        "::/96",
        "::ffff:0:0/96",
        "fe80::/10",
        "fec0::/10",
        "ff00::/8",
    ]
    .iter()
    .enumerate()
    {
        assert_eq!(record.ipv6_nets()[idx], v6(s));
    }
}

#[test]
fn rfc4380_t() {
    let record = catalogue::rfc4380();
    assert_eq!(record.ipv6_nets()[0], v6("2001:0000::/32"));
}

#[test]
fn rfc4773_t() {
    let record = catalogue::rfc4773();
    assert_eq!(record.ipv6_nets()[0], v6("2001:0000::/23"));
}

#[test]
fn rfc4843_t() {
    let record = catalogue::rfc4843();
    assert_eq!(record.ipv6_nets()[0], v6("2001:10::/28"));
}

#[test]
fn rfc5180_t() {
    let record = catalogue::rfc5180();
    assert_eq!(record.ipv6_nets()[0], v6("2001:0200::/48"));
}

#[test]
fn rfc5735_t() {
    let record = catalogue::rfc5735();
    for (idx, s) in [
        "192.0.2.0/24",
        "198.51.100.0/24",
        "203.0.113.0/24",
        "198.18.0.0/15",
    ]
    .iter()
    .enumerate()
    {
        assert_eq!(record.ipv4_nets()[idx], v4(s));
    }
}

#[test]
fn rfc5737_t() {
    let record = catalogue::rfc5737();
    for (idx, s) in [
        "192.0.2.0/24",
        "198.51.100.0/24",
        "203.0.113.0/24",
    ]
    .iter()
    .enumerate()
    {
        assert_eq!(record.ipv4_nets()[idx], v4(s));
    }
}

#[test]
fn rfc6052_t() {
    let record = catalogue::rfc6052();
    assert_eq!(record.ipv6_nets()[0], v6("64:ff9b::/96"));
}

#[test]
fn rfc6333_t() {
    let record = catalogue::rfc6333();
    assert_eq!(record.ipv4_nets()[0], v4("192.0.0.0/29"));
}

#[test]
fn rfc6598_t() {
    let record = catalogue::rfc6598();
    assert_eq!(record.ipv4_nets()[0], v4("100.64.0.0/10"));
}

#[test]
fn rfc6666_t() {
    let record = catalogue::rfc6666();
    assert_eq!(record.ipv6_nets()[0], v6("0100::/64"));
}

#[test]
fn rfc6890_t() {
    let record = catalogue::rfc6890();
    for (idx, s) in [
        "0.0.0.0/8",
        "10.0.0.0/8",
        "100.64.0.0/10",
        "127.0.0.0/8",
        "169.254.0.0/16",
        "172.16.0.0/12",
        "192.0.0.0/24",
        "192.0.0.0/29",
        "192.0.2.0/24",
        "192.88.99.0/24",
        "192.168.0.0/16",
        "198.18.0.0/15",
        "198.51.100.0/24",
        "203.0.113.0/24",
        "240.0.0.0/4",
        "255.255.255.255/32",
    ]
    .iter()
    .enumerate()
    {
        assert_eq!(record.ipv4_nets()[idx], v4(s));
    }
    for (idx, s) in [
        "::/128",
        "::1/128",
        "64:ff9b::/96",
        "::ffff:0:0/96",
        "100::/64",
        "2001::/16",
        "2002::/16",
        "fc00::/7",
        "fe80::/10",
    ]
    .iter()
    .enumerate()
    {
        assert_eq!(record.ipv6_nets()[idx], v6(s));
    }
}

#[test]
fn rfc7335_t() {
    let record = catalogue::rfc7335();
    assert_eq!(record.ipv4_nets()[0], v4("192.0.0.0/29"));
}

#[test]
fn forwarding_black_list_t() {
    let record = catalogue::forwarding_blacklist();
    for (idx, s) in [
        "0.0.0.0/8",
        "127.0.0.0/8",
        "169.254.0.0/16",
        "192.0.0.0/24",
        "192.0.2.0/24",
        "198.51.100.0/24",
        "203.0.113.0/24",
        "240.0.0.0/4",
        "255.255.255.255/32",
    ]
    .iter()
    .enumerate()
    {
        assert_eq!(record.ipv4_nets()[idx], v4(s));
    }
    for (idx, s) in [
        "::/128",
        "::1/128",
        "::ffff:0:0/96",
        "2001:db8::/32",
        "2001:10::/28",
        "fe80::/10",
    ]
    .iter()
    .enumerate()
    {
        assert_eq!(record.ipv6_nets()[idx], v6(s));
    }
}
