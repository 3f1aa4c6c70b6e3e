use iprfc::catalogue;
use iprfc::{IpAddr, IpNet, Ipv4Addr, Ipv4Net, Ipv6Addr, Ipv6Net, NetError, RFCs};

fn a4(s: &str) -> Ipv4Addr {
    let host: ipnet::Ipv4Net = format!("{s}/32").parse().unwrap();
    Ipv4Addr::from_bits(u32::from(host.addr()))
}

fn a6(s: &str) -> Ipv6Addr {
    let host: ipnet::Ipv6Net = format!("{s}/128").parse().unwrap();
    Ipv6Addr::from_bits(u128::from(host.addr()))
}

fn n4(s: &str) -> Ipv4Net {
    let net: ipnet::Ipv4Net = s.parse().unwrap();
    Ipv4Net::new(Ipv4Addr::from_bits(u32::from(net.addr())), net.prefix_len()).unwrap()
}

fn n6(s: &str) -> Ipv6Net {
    let net: ipnet::Ipv6Net = s.parse().unwrap();
    Ipv6Net::new(Ipv6Addr::from_bits(u128::from(net.addr())), net.prefix_len()).unwrap()
}

fn outside4(n: &Ipv4Net) -> ipnet::Ipv4Net {
    ipnet::Ipv4Net::new(n.addr().to_bits().into(), n.prefix_len()).unwrap()
}

fn outside6(n: &Ipv6Net) -> ipnet::Ipv6Net {
    ipnet::Ipv6Net::new(n.addr().to_bits().into(), n.prefix_len()).unwrap()
}

#[test]
fn rfc1918_contains_private_addresses_only() {
    let rfc = catalogue::rfc1918();
    assert!(rfc.contains(&Ipv4Addr::new(192, 168, 1, 1)));
    assert!(!rfc.contains(&Ipv4Addr::new(8, 8, 8, 8)));
    assert!(rfc.contains(&Ipv4Addr::new(10, 255, 255, 255)));
    assert!(rfc.contains(&Ipv4Addr::new(172, 31, 255, 255)));
    assert!(!rfc.contains(&Ipv4Addr::new(172, 32, 0, 0)));
    assert!(!rfc.contains(&Ipv4Addr::new(11, 0, 0, 0)));
}

#[test]
fn rfc6890_contains_subsumed_networks() {
    let rfc = catalogue::rfc6890();
    assert!(rfc.contains(&n4("192.0.2.0/28")));
    assert!(!rfc.contains(&n4("8.8.8.0/24")));
    assert!(rfc.contains(&n4("192.168.0.0/24")));
    assert!(rfc.contains(&n6("2001:db8::/48")));
    assert!(rfc.contains(&n6("fc00::/7")));
    assert!(!rfc.contains(&n6("2a00::/32")));
    assert!(rfc.contains(&IpNet::V4(n4("192.168.0.0/24"))));
    assert!(rfc.contains(&IpAddr::V4(Ipv4Addr::new(192, 168, 1, 1))));
}

#[test]
fn rfc6890_contains_addresses() {
    let rfc = catalogue::rfc6890();
    assert!(rfc.contains(&Ipv4Addr::new(192, 168, 1, 1)));
    assert!(rfc.contains(&Ipv4Addr::new(127, 0, 0, 1)));
    assert!(!rfc.contains(&Ipv4Addr::new(8, 8, 8, 8)));
    assert!(rfc.contains(&Ipv4Addr::new(192, 0, 2, 1)));
    assert!(rfc.contains(&Ipv6Addr::new(0, 0, 0, 0, 0, 0, 0, 1)));
    assert!(rfc.contains(&Ipv6Addr::new(0x2001, 0xdb8, 0, 0, 0, 0, 0, 1)));
    assert!(rfc.contains(&Ipv6Addr::new(0xfe80, 0, 0, 0, 0, 0, 0, 1)));
}

#[test]
fn overlap_is_not_containment() {
    let rfc = catalogue::rfc1918();
    assert!(!rfc.contains(&n4("10.0.0.0/7")));
    assert!(!rfc.contains(&n4("0.0.0.0/0")));
    assert!(rfc.contains(&n4("10.0.0.0/8")));
    assert!(rfc.contains(&n4("10.128.0.0/9")));
}

#[test]
fn blacklist_contains_localhost() {
    let blacklist = catalogue::forwarding_blacklist();
    let localhost = a6("::1");
    assert_eq!(localhost, Ipv6Addr::new(0, 0, 0, 0, 0, 0, 0, 1));
    assert!(blacklist.contains(&localhost));
    assert!(blacklist.contains(&IpAddr::V6(localhost)));
    assert!(!blacklist.contains(&a6("::2")));
}

#[test]
fn blacklist_ranges_are_the_fixed_list() {
    let blacklist = catalogue::forwarding_blacklist();
    let expected = [
        "0.0.0.0/8",
        "127.0.0.0/8",
        "169.254.0.0/16",
        "192.0.0.0/24",
        "192.0.2.0/24",
        "198.51.100.0/24",
        "203.0.113.0/24",
        "240.0.0.0/4",
        "255.255.255.255/32",
        "::/128",
        "::1/128",
        "::ffff:0:0/96",
        "2001:db8::/32",
        "2001:10::/28",
        "fe80::/10",
    ];
    let nets = blacklist.ip_nets();
    assert_eq!(nets.len(), expected.len());
    for (i, s) in expected.iter().enumerate() {
        let want = if s.contains(':') { IpNet::V6(n6(s)) } else { IpNet::V4(n4(s)) };
        assert_eq!(nets[i], want, "{s}");
    }
}

#[test]
fn lookup_by_id() {
    assert_eq!(RFCs::get(6890).unwrap().id(), 6890);
    assert!(RFCs::get(99999).is_none());
}

#[test]
fn lists_by_family_partition_the_unified_list() {
    for rfc in RFCs::iter() {
        let all = rfc.ip_nets();
        let v4: Vec<Ipv4Net> = all
            .iter()
            .filter_map(|n| match n {
                IpNet::V4(n) => Some(*n),
                IpNet::V6(_) => None,
            })
            .collect();
        let v6: Vec<Ipv6Net> = all
            .iter()
            .filter_map(|n| match n {
                IpNet::V6(n) => Some(*n),
                IpNet::V4(_) => None,
            })
            .collect();
        assert_eq!(all.len(), rfc.ipv4_nets().len() + rfc.ipv6_nets().len());
        assert_eq!(rfc.ipv4_nets(), &v4[..]);
        assert_eq!(rfc.ipv6_nets(), &v6[..]);
    }
}

#[test]
fn new_record_splits_by_family_in_order() {
    let nets = vec![
        IpNet::V6(n6("ff00::/8")),
        IpNet::V4(n4("10.0.0.0/8")),
        IpNet::V6(n6("::1/128")),
        IpNet::V4(n4("192.168.0.0/16")),
        IpNet::V4(n4("172.16.0.0/12")),
    ];
    let rfc = iprfc::RFC::new(42, nets.clone());
    assert_eq!(rfc.id(), 42);
    assert_eq!(rfc.ip_nets(), &nets[..]);
    assert_eq!(
        rfc.ipv4_nets(),
        &[n4("10.0.0.0/8"), n4("192.168.0.0/16"), n4("172.16.0.0/12")][..]
    );
    assert_eq!(rfc.ipv6_nets(), &[n6("ff00::/8"), n6("::1/128")][..]);
    assert_eq!(rfc.clone(), rfc);
    let none = iprfc::RFC::new(7, Vec::new());
    assert!(none.ip_nets().is_empty());
    assert!(!none.contains(&Ipv4Addr::new(10, 0, 0, 1)));
}

#[test]
fn no_record_lists_a_range_twice() {
    for rfc in RFCs::iter() {
        let all = rfc.ip_nets();
        for i in 0..all.len() {
            for j in 0..i {
                assert_ne!(all[i], all[j]);
            }
        }
    }
}

#[test]
fn every_catalogue_range_is_canonical() {
    for rfc in RFCs::iter() {
        for n in rfc.ipv4_nets() {
            assert!(n.prefix_len() <= 32);
            let host = 32 - n.prefix_len() as u32;
            let mask = if host == 32 { u32::MAX } else { (1u32 << host) - 1 };
            assert_eq!(n.addr().to_bits() & mask, 0);
            assert_eq!(outside4(n).trunc(), outside4(n));
        }
        for n in rfc.ipv6_nets() {
            assert!(n.prefix_len() <= 128);
            let host = 128 - n.prefix_len() as u32;
            let mask = if host == 128 { u128::MAX } else { (1u128 << host) - 1 };
            assert_eq!(n.addr().to_bits() & mask, 0);
            assert_eq!(outside6(n).trunc(), outside6(n));
        }
    }
}

#[test]
fn constructors_reject_what_is_not_a_range() {
    assert_eq!(Ipv4Net::new(Ipv4Addr::new(10, 0, 0, 0), 33), Err(NetError::PrefixLen));
    assert_eq!(Ipv4Net::new(Ipv4Addr::new(10, 0, 0, 1), 255), Err(NetError::PrefixLen));
    assert_eq!(Ipv4Net::new(Ipv4Addr::new(10, 0, 0, 1), 8), Err(NetError::HostBits));
    assert_eq!(Ipv4Net::new(Ipv4Addr::new(10, 0, 0, 1), 31), Err(NetError::HostBits));
    assert_eq!(Ipv4Net::new(Ipv4Addr::new(0, 0, 0, 1), 0), Err(NetError::HostBits));
    assert!(Ipv4Net::new(Ipv4Addr::new(0, 0, 0, 0), 0).is_ok());
    assert!(Ipv4Net::new(Ipv4Addr::new(10, 0, 0, 1), 32).is_ok());
    assert!(Ipv4Net::new(Ipv4Addr::new(10, 0, 0, 2), 31).is_ok());
    assert_eq!(Ipv6Net::new(a6("fe80::"), 129), Err(NetError::PrefixLen));
    assert_eq!(Ipv6Net::new(a6("fe80::1"), 10), Err(NetError::HostBits));
    assert_eq!(Ipv6Net::new(a6("::1"), 0), Err(NetError::HostBits));
    assert!(Ipv6Net::new(a6("::"), 0).is_ok());
    assert!(Ipv6Net::new(a6("fe80::"), 10).is_ok());
    assert!(Ipv6Net::new(a6("fe80::1"), 128).is_ok());
    let n = Ipv4Net::new_assert(Ipv4Addr::new(172, 16, 0, 0), 12);
    assert_eq!(n.addr(), Ipv4Addr::new(172, 16, 0, 0));
    assert_eq!(n.prefix_len(), 12);
    let m = Ipv6Net::new_assert(a6("2001:db8::"), 32);
    assert_eq!(m.addr(), a6("2001:db8::"));
    assert_eq!(m.prefix_len(), 32);
    assert_eq!(IpNet::V6(m).prefix_len(), 32);
}

#[test]
fn address_values() {
    assert_eq!(Ipv4Addr::new(10, 0, 0, 0).to_bits(), 0x0A00_0000);
    assert_eq!(Ipv4Addr::new(1, 2, 3, 4).to_bits(), 0x0102_0304);
    assert_eq!(Ipv4Addr::new(255, 255, 255, 255).to_bits(), u32::MAX);
    assert_eq!(Ipv4Addr::new(192, 168, 1, 1), a4("192.168.1.1"));
    assert_eq!(Ipv6Addr::new(0, 0, 0, 0, 0, 0, 0, 1).to_bits(), 1);
    assert_eq!(
        Ipv6Addr::new(0x2001, 0xdb8, 0, 0, 0, 0, 0, 1).to_bits(),
        0x2001_0db8_0000_0000_0000_0000_0000_0001
    );
    assert_eq!(
        Ipv6Addr::new(1, 2, 3, 4, 5, 6, 7, 8),
        a6("1:2:3:4:5:6:7:8")
    );
    assert_eq!(
        Ipv6Addr::new(0xffff, 0xffff, 0xffff, 0xffff, 0xffff, 0xffff, 0xffff, 0xffff).to_bits(),
        u128::MAX
    );
}

#[test]
fn a_range_contains_itself() {
    for rfc in RFCs::iter() {
        for n in rfc.ip_nets() {
            assert!(n.contains_net(n));
            assert!(rfc.contains(n));
        }
        for n in rfc.ipv4_nets() {
            assert!(n.contains_net(n));
            assert!(n.contains_addr(&n.addr()));
        }
        for n in rfc.ipv6_nets() {
            assert!(n.contains_net(n));
            assert!(n.contains_addr(&n.addr()));
        }
    }
    assert!(n4("0.0.0.0/0").contains_net(&n4("0.0.0.0/0")));
    assert!(n6("::/0").contains_net(&n6("::/0")));
}

#[test]
fn containment_is_not_symmetric() {
    let wide = n4("192.0.2.0/24");
    let narrow = n4("192.0.2.7/32");
    assert!(wide.contains_net(&narrow));
    assert!(!narrow.contains_net(&wide));
    let wide6 = n6("2001:db8::/32");
    let narrow6 = n6("2001:db8::1/128");
    assert!(wide6.contains_net(&narrow6));
    assert!(!narrow6.contains_net(&wide6));
}

#[test]
fn family_mismatch_is_false() {
    let everything4 = IpNet::V4(n4("0.0.0.0/0"));
    let everything6 = IpNet::V6(n6("::/0"));
    assert!(!everything4.contains_addr(&IpAddr::V6(a6("::1"))));
    assert!(!everything6.contains_addr(&IpAddr::V4(a4("127.0.0.1"))));
    assert!(!everything4.contains_net(&everything6));
    assert!(!everything6.contains_net(&everything4));
    assert!(everything4.contains_addr(&IpAddr::V4(a4("127.0.0.1"))));
    assert!(everything6.contains_addr(&IpAddr::V6(a6("::1"))));
    let v4_only = catalogue::rfc1918();
    assert!(!v4_only.contains(&a6("::a00:1")));
    assert!(!v4_only.contains(&IpAddr::V6(a6("::a00:1"))));
    assert!(!v4_only.contains(&n6("::/0")));
    assert!(!v4_only.contains(&IpNet::V6(n6("::a00:0/104"))));
    let v6_only = catalogue::rfc4291();
    assert!(!v6_only.contains(&a4("0.0.0.1")));
    assert!(!v6_only.contains(&IpNet::V4(n4("0.0.0.0/32"))));
}

#[test]
fn prefix_boundaries() {
    let n = n4("198.18.0.0/15");
    assert!(n.contains_addr(&a4("198.18.0.0")));
    assert!(n.contains_addr(&a4("198.19.255.255")));
    assert!(!n.contains_addr(&a4("198.20.0.0")));
    assert!(!n.contains_addr(&a4("198.17.255.255")));
    let host = n4("255.255.255.255/32");
    assert!(host.contains_addr(&a4("255.255.255.255")));
    assert!(!host.contains_addr(&a4("255.255.255.254")));
    let all = n4("0.0.0.0/0");
    assert!(all.contains_addr(&a4("255.255.255.255")));
    assert!(all.contains_addr(&a4("0.0.0.0")));
    let m = n6("fe80::/10");
    assert!(m.contains_addr(&a6("febf:ffff:ffff:ffff:ffff:ffff:ffff:ffff")));
    assert!(!m.contains_addr(&a6("fec0::")));
    assert!(!m.contains_addr(&a6("fe7f:ffff:ffff:ffff:ffff:ffff:ffff:ffff")));
    let all6 = n6("::/0");
    assert!(all6.contains_addr(&a6("ffff:ffff:ffff:ffff:ffff:ffff:ffff:ffff")));
    let one = n6("::1/128");
    assert!(one.contains_addr(&a6("::1")));
    assert!(!one.contains_addr(&a6("::")));
}

#[test]
fn containment_agrees_with_ipnet() {
    let mut nets4: Vec<Ipv4Net> = vec![n4("0.0.0.0/0"), n4("128.0.0.0/1"), n4("10.0.0.0/7")];
    let mut nets6: Vec<Ipv6Net> = vec![n6("::/0"), n6("8000::/1"), n6("2001:db8::/33")];
    for rfc in RFCs::iter() {
        nets4.extend_from_slice(rfc.ipv4_nets());
        nets6.extend_from_slice(rfc.ipv6_nets());
    }
    let mut addrs4: Vec<u32> = vec![0, 1, u32::MAX, 0x0808_0808, 0x7fff_ffff, 0x8000_0000];
    for n in nets4.iter() {
        let base = n.addr().to_bits();
        let host = 32 - n.prefix_len() as u32;
        let last = if host == 32 { u32::MAX } else { base | ((1u32 << host) - 1) };
        addrs4.extend([base, last, base.wrapping_sub(1), last.wrapping_add(1), base ^ 0x0100_0000]);
    }
    for n in nets4.iter() {
        let theirs = outside4(n);
        for a in addrs4.iter() {
            let host = ipnet::Ipv4Net::new((*a).into(), 32).unwrap();
            let expected = theirs.contains(&host.addr());
            assert_eq!(n.contains_addr(&Ipv4Addr::from_bits(*a)), expected);
        }
        for o in nets4.iter() {
            assert_eq!(n.contains_net(o), theirs.contains(&outside4(o)));
            assert_eq!(
                IpNet::V4(*n).contains_net(&IpNet::V4(*o)),
                ipnet::IpNet::V4(theirs).contains(&ipnet::IpNet::V4(outside4(o)))
            );
        }
        for o in nets6.iter() {
            assert_eq!(
                IpNet::V4(*n).contains_net(&IpNet::V6(*o)),
                ipnet::IpNet::V4(theirs).contains(&ipnet::IpNet::V6(outside6(o)))
            );
        }
    }
    let mut addrs6: Vec<u128> = vec![0, 1, u128::MAX, 1u128 << 127, (1u128 << 127) - 1];
    for n in nets6.iter() {
        let base = n.addr().to_bits();
        let host = 128 - n.prefix_len() as u32;
        let last = if host == 128 { u128::MAX } else { base | ((1u128 << host) - 1) };
        addrs6.extend([base, last, base.wrapping_sub(1), last.wrapping_add(1), base ^ (1 << 100)]);
    }
    for n in nets6.iter() {
        let theirs = outside6(n);
        for a in addrs6.iter() {
            let host = ipnet::Ipv6Net::new((*a).into(), 128).unwrap();
            let expected = theirs.contains(&host.addr());
            assert_eq!(n.contains_addr(&Ipv6Addr::from_bits(*a)), expected);
        }
        for o in nets6.iter() {
            assert_eq!(n.contains_net(o), theirs.contains(&outside6(o)));
        }
    }
}

#[test]
fn rfc6890_covers_the_blacklist() {
    let rfc = catalogue::rfc6890();
    for n in catalogue::forwarding_blacklist().ip_nets() {
        assert!(rfc.contains(n), "{n:?}");
    }
}

#[test]
fn contained_network_brings_its_addresses() {
    let wide = n4("172.16.0.0/12");
    let narrow = n4("172.20.4.0/22");
    assert!(wide.contains_net(&narrow));
    for a in [a4("172.20.4.0"), a4("172.20.7.255"), a4("172.20.5.9")] {
        assert!(narrow.contains_addr(&a));
        assert!(wide.contains_addr(&a));
    }
    assert!(!narrow.contains_addr(&a4("172.20.8.0")));
    assert!(wide.contains_addr(&a4("172.20.8.0")));
}

#[test]
fn mutual_containment_means_equality() {
    let mut nets4: Vec<Ipv4Net> = Vec::new();
    for rfc in RFCs::iter() {
        nets4.extend_from_slice(rfc.ipv4_nets());
    }
    for a in nets4.iter() {
        for b in nets4.iter() {
            if a.contains_net(b) && b.contains_net(a) {
                assert_eq!(a, b);
            }
        }
    }
}
