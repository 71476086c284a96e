use mdns_dns_proxy::addr::{IpAddress, Ipv4Address, Ipv6Address};
use mdns_dns_proxy::dns_handler::admin_records::{
    filter_suppressed_records, generate_domain_enumeration_records, generate_ns_record,
    generate_soa_record, is_admin_srv_query, is_delegation_query_below_apex,
    is_domain_enumeration_query, is_ipv4_link_local, is_ipv6_link_local, is_ipv6_ula,
    is_negative_admin_srv_query, is_same_link, is_zone_apex_query,
    should_suppress_address_record, should_suppress_srv_record, RecordSuppressionConfig,
    MAX_ADMIN_TTL,
};
use mdns_dns_proxy::rr::{Name, RData, Record, RecordType};

fn v6(a: u16, b: u16, h: u16) -> Ipv6Address {
    Ipv6Address::new(a, b, 0, 0, 0, 0, 0, h)
}

#[test]
fn test_is_domain_enumeration_query() {
    // Valid domain enumeration queries
    let name = Name::from_utf8("b._dns-sd._udp.local.").unwrap();
    assert!(is_domain_enumeration_query(&name, RecordType::PTR));

    let name = Name::from_utf8("db._dns-sd._udp.local.").unwrap();
    assert!(is_domain_enumeration_query(&name, RecordType::PTR));

    let name = Name::from_utf8("lb._dns-sd._udp.local.").unwrap();
    assert!(is_domain_enumeration_query(&name, RecordType::PTR));

    // Not domain enumeration (wrong type)
    let name = Name::from_utf8("b._dns-sd._udp.local.").unwrap();
    assert!(!is_domain_enumeration_query(&name, RecordType::A));

    // Not domain enumeration (wrong name)
    let name = Name::from_utf8("_http._tcp.local.").unwrap();
    assert!(!is_domain_enumeration_query(&name, RecordType::PTR));
}

#[test]
fn test_is_admin_srv_query() {
    // LLQ queries
    let name = Name::from_utf8("_dns-llq._udp.local.").unwrap();
    assert!(is_admin_srv_query(&name, RecordType::SRV));

    let name = Name::from_utf8("_dns-llq._tcp.local.").unwrap();
    assert!(is_admin_srv_query(&name, RecordType::SRV));

    let name = Name::from_utf8("_dns-llq-tls._tcp.local.").unwrap();
    assert!(is_admin_srv_query(&name, RecordType::SRV));

    // DNS Push query
    let name = Name::from_utf8("_dns-push-tls._tcp.local.").unwrap();
    assert!(is_admin_srv_query(&name, RecordType::SRV));

    // DNS Update queries
    let name = Name::from_utf8("_dns-update._udp.local.").unwrap();
    assert!(is_admin_srv_query(&name, RecordType::SRV));

    let name = Name::from_utf8("_dns-update._tcp.local.").unwrap();
    assert!(is_admin_srv_query(&name, RecordType::SRV));

    let name = Name::from_utf8("_dns-update-tls._tcp.local.").unwrap();
    assert!(is_admin_srv_query(&name, RecordType::SRV));

    // Not admin SRV (wrong type)
    let name = Name::from_utf8("_dns-llq._udp.local.").unwrap();
    assert!(!is_admin_srv_query(&name, RecordType::PTR));

    // Not admin SRV (regular service)
    let name = Name::from_utf8("_http._tcp.local.").unwrap();
    assert!(!is_admin_srv_query(&name, RecordType::SRV));
}

#[test]
fn test_is_delegation_query_below_apex() {
    let apex = Name::from_utf8("local.").unwrap();

    // Below apex - should return true
    let name = Name::from_utf8("test.local.").unwrap();
    assert!(is_delegation_query_below_apex(&name, RecordType::SOA, &apex));
    assert!(is_delegation_query_below_apex(&name, RecordType::NS, &apex));
    assert!(is_delegation_query_below_apex(&name, RecordType::DS, &apex));

    // At apex - should return false
    let name = Name::from_utf8("local.").unwrap();
    assert!(!is_delegation_query_below_apex(&name, RecordType::SOA, &apex));

    // Wrong type - should return false
    let name = Name::from_utf8("test.local.").unwrap();
    assert!(!is_delegation_query_below_apex(&name, RecordType::A, &apex));
}

#[test]
fn test_is_negative_admin_srv_query() {
    // DNS Update always negative
    let name = Name::from_utf8("_dns-update._udp.local.").unwrap();
    assert!(is_negative_admin_srv_query(&name));

    let name = Name::from_utf8("_dns-update._tcp.local.").unwrap();
    assert!(is_negative_admin_srv_query(&name));

    // LLQ (not supported currently)
    let name = Name::from_utf8("_dns-llq._udp.local.").unwrap();
    assert!(is_negative_admin_srv_query(&name));

    // Regular service - not negative
    let name = Name::from_utf8("_http._tcp.local.").unwrap();
    assert!(!is_negative_admin_srv_query(&name));
}

#[test]
fn test_generate_soa_record() {
    let name = Name::from_utf8("local.").unwrap();
    let record = generate_soa_record(&name);

    assert_eq!(record.name(), &name);
    assert_eq!(record.ttl(), MAX_ADMIN_TTL);

    if let RData::SOA { serial, refresh, retry, expire, minimum, .. } = record.data() {
        assert_eq!(*serial, 0);
        assert_eq!(*refresh, 7200);
        assert_eq!(*retry, 3600);
        assert_eq!(*expire, 86400);
        assert_eq!(*minimum, 10);
    } else {
        panic!("Expected SOA record");
    }
}

#[test]
fn test_generate_ns_record() {
    let name = Name::from_utf8("local.").unwrap();
    let record = generate_ns_record(&name);

    assert_eq!(record.name(), &name);
    assert_eq!(record.ttl(), MAX_ADMIN_TTL);
    assert!(matches!(record.data(), RData::NS(_)));
}

#[test]
fn test_is_ipv4_link_local() {
    assert!(is_ipv4_link_local(&Ipv4Address::new(169, 254, 0, 1)));
    assert!(is_ipv4_link_local(&Ipv4Address::new(169, 254, 255, 255)));
    assert!(!is_ipv4_link_local(&Ipv4Address::new(192, 168, 1, 1)));
    assert!(!is_ipv4_link_local(&Ipv4Address::new(10, 0, 0, 1)));
}

#[test]
fn test_is_ipv6_ula() {
    assert!(is_ipv6_ula(&v6(0xfc00, 0, 1)));
    assert!(is_ipv6_ula(&Ipv6Address::new(0xfd12, 0x3456, 0x789a, 0, 0, 0, 0, 1)));
    assert!(!is_ipv6_ula(&v6(0x2001, 0xdb8, 1)));
    assert!(!is_ipv6_ula(&v6(0xfe80, 0, 1)));
}

#[test]
fn test_is_ipv6_link_local() {
    assert!(is_ipv6_link_local(&v6(0xfe80, 0, 1)));
    assert!(is_ipv6_link_local(&Ipv6Address::new(
        0xfe80, 0, 0, 0, 0x1234, 0x5678, 0xabcd, 0xef01
    )));
    assert!(!is_ipv6_link_local(&v6(0x2001, 0xdb8, 1)));
    assert!(!is_ipv6_link_local(&v6(0xfc00, 0, 1)));
}

#[test]
fn test_should_suppress_address_record_disabled() {
    let config = RecordSuppressionConfig {
        enabled: false,
        client_ip: Some(IpAddress::V4(Ipv4Address::new(8, 8, 8, 8))),
    };

    let name = Name::from_utf8("test.local.").unwrap();
    let record = Record::from_rdata(name, 10, RData::A(Ipv4Address::new(169, 254, 1, 1)));

    // Should not suppress when disabled
    assert!(!should_suppress_address_record(&record, &config));
}

#[test]
fn test_should_suppress_ipv4_link_local() {
    let config = RecordSuppressionConfig {
        enabled: true,
        client_ip: Some(IpAddress::V4(Ipv4Address::new(8, 8, 8, 8))), // Remote client
    };

    let name = Name::from_utf8("test.local.").unwrap();
    let record = Record::from_rdata(name.clone(), 10, RData::A(Ipv4Address::new(169, 254, 1, 1)));

    // Should suppress link-local for remote client
    assert!(should_suppress_address_record(&record, &config));

    // Should not suppress regular private address
    let record = Record::from_rdata(name, 10, RData::A(Ipv4Address::new(192, 168, 1, 1)));
    assert!(!should_suppress_address_record(&record, &config));
}

#[test]
fn test_generate_domain_enumeration_records() {
    let name = Name::from_utf8("b._dns-sd._udp.local.").unwrap();
    let apex = Name::from_utf8("local.").unwrap();

    let records = generate_domain_enumeration_records(&name, &apex);

    assert_eq!(records.len(), 1);
    assert_eq!(records[0].name(), &name);

    if let RData::PTR(ptr) = records[0].data() {
        assert_eq!(*ptr, apex);
    } else {
        panic!("Expected PTR record");
    }
}

#[test]
fn test_domain_enumeration_query_detection() {
    // Browse domains query (b._dns-sd._udp)
    let name = Name::from_utf8("b._dns-sd._udp.local.").expect("invalid name");
    assert!(
        is_domain_enumeration_query(&name, RecordType::PTR),
        "b._dns-sd._udp.local. should be recognized as domain enumeration query"
    );

    // Default browse domain query (db._dns-sd._udp)
    let name = Name::from_utf8("db._dns-sd._udp.local.").expect("invalid name");
    assert!(
        is_domain_enumeration_query(&name, RecordType::PTR),
        "db._dns-sd._udp.local. should be recognized as domain enumeration query"
    );

    // Legacy browse domain query (lb._dns-sd._udp)
    let name = Name::from_utf8("lb._dns-sd._udp.local.").expect("invalid name");
    assert!(
        is_domain_enumeration_query(&name, RecordType::PTR),
        "lb._dns-sd._udp.local. should be recognized as domain enumeration query"
    );

    // Regular service query should not be domain enumeration
    let name = Name::from_utf8("_http._tcp.local.").expect("invalid name");
    assert!(
        !is_domain_enumeration_query(&name, RecordType::PTR),
        "_http._tcp.local. should NOT be recognized as domain enumeration query"
    );
}

#[test]
fn test_delegation_query_below_apex() {
    let apex = Name::from_utf8("local.").expect("invalid name");

    // SOA query below apex should return true (REQ-6.3.2)
    let name = Name::from_utf8("test.local.").expect("invalid name");
    assert!(
        is_delegation_query_below_apex(&name, RecordType::SOA, &apex),
        "SOA query below zone apex should be detected"
    );

    // NS query below apex should return true (REQ-6.3.3)
    assert!(
        is_delegation_query_below_apex(&name, RecordType::NS, &apex),
        "NS query below zone apex should be detected"
    );

    // DS query below apex should return true (REQ-6.3.4)
    assert!(
        is_delegation_query_below_apex(&name, RecordType::DS, &apex),
        "DS query below zone apex should be detected"
    );

    // Query at apex should return false
    let name = Name::from_utf8("local.").expect("invalid name");
    assert!(
        !is_delegation_query_below_apex(&name, RecordType::SOA, &apex),
        "SOA query at zone apex should NOT be detected as below apex"
    );

    // A query should return false regardless of position
    let name = Name::from_utf8("test.local.").expect("invalid name");
    assert!(
        !is_delegation_query_below_apex(&name, RecordType::A, &apex),
        "A query should NOT be detected as delegation query"
    );
}

#[test]
fn test_admin_srv_query_detection() {
    // LLQ SRV queries (REQ-6.4.2-6.4.4)
    let name = Name::from_utf8("_dns-llq._udp.local.").expect("invalid name");
    assert!(
        is_admin_srv_query(&name, RecordType::SRV),
        "_dns-llq._udp should be recognized as admin SRV query"
    );

    let name = Name::from_utf8("_dns-llq._tcp.local.").expect("invalid name");
    assert!(
        is_admin_srv_query(&name, RecordType::SRV),
        "_dns-llq._tcp should be recognized as admin SRV query"
    );

    let name = Name::from_utf8("_dns-llq-tls._tcp.local.").expect("invalid name");
    assert!(
        is_admin_srv_query(&name, RecordType::SRV),
        "_dns-llq-tls._tcp should be recognized as admin SRV query"
    );

    // DNS Push SRV query (REQ-6.4.5)
    let name = Name::from_utf8("_dns-push-tls._tcp.local.").expect("invalid name");
    assert!(
        is_admin_srv_query(&name, RecordType::SRV),
        "_dns-push-tls._tcp should be recognized as admin SRV query"
    );

    // DNS Update SRV queries - should be negative (REQ-6.4.6-6.4.8)
    let name = Name::from_utf8("_dns-update._udp.local.").expect("invalid name");
    assert!(
        is_admin_srv_query(&name, RecordType::SRV),
        "_dns-update._udp should be recognized as admin SRV query"
    );
    assert!(
        is_negative_admin_srv_query(&name),
        "_dns-update._udp should return negative response"
    );

    let name = Name::from_utf8("_dns-update._tcp.local.").expect("invalid name");
    assert!(
        is_negative_admin_srv_query(&name),
        "_dns-update._tcp should return negative response"
    );

    let name = Name::from_utf8("_dns-update-tls._tcp.local.").expect("invalid name");
    assert!(
        is_negative_admin_srv_query(&name),
        "_dns-update-tls._tcp should return negative response"
    );

    // Regular service SRV query should NOT be admin
    let name = Name::from_utf8("_http._tcp.local.").expect("invalid name");
    assert!(
        !is_admin_srv_query(&name, RecordType::SRV),
        "_http._tcp should NOT be recognized as admin SRV query"
    );
}

#[test]
fn test_ipv4_link_local_detection() {
    // Link-local addresses (169.254/16)
    assert!(is_ipv4_link_local(&Ipv4Address::new(169, 254, 0, 1)));
    assert!(is_ipv4_link_local(&Ipv4Address::new(169, 254, 255, 255)));
    assert!(is_ipv4_link_local(&Ipv4Address::new(169, 254, 100, 50)));

    // Non-link-local addresses
    assert!(!is_ipv4_link_local(&Ipv4Address::new(192, 168, 1, 1)));
    assert!(!is_ipv4_link_local(&Ipv4Address::new(10, 0, 0, 1)));
    assert!(!is_ipv4_link_local(&Ipv4Address::new(172, 16, 0, 1)));
    assert!(!is_ipv4_link_local(&Ipv4Address::new(8, 8, 8, 8)));
}

#[test]
fn test_ipv6_ula_detection() {
    // ULA addresses (fc00::/7 = fc00:: to fdff::)
    assert!(is_ipv6_ula(&v6(0xfc00, 0, 1)));
    assert!(is_ipv6_ula(&v6(0xfd00, 0, 1)));
    assert!(is_ipv6_ula(&Ipv6Address::new(0xfd12, 0x3456, 0x789a, 0, 0, 0, 0, 1)));

    // Non-ULA addresses
    assert!(!is_ipv6_ula(&v6(0x2001, 0xdb8, 1)));
    assert!(!is_ipv6_ula(&v6(0xfe80, 0, 1)));
    assert!(!is_ipv6_ula(&v6(0, 0, 1)));
}

#[test]
fn test_ipv6_link_local_detection() {
    // Link-local addresses (fe80::/10)
    assert!(is_ipv6_link_local(&v6(0xfe80, 0, 1)));
    assert!(is_ipv6_link_local(&Ipv6Address::new(
        0xfe80, 0, 0, 0, 0x1234, 0x5678, 0xabcd, 0xef01
    )));

    // Non-link-local addresses
    assert!(!is_ipv6_link_local(&v6(0x2001, 0xdb8, 1)));
    assert!(!is_ipv6_link_local(&v6(0xfc00, 0, 1)));
    assert!(!is_ipv6_link_local(&v6(0, 0, 1)));
}

#[test]
fn test_record_suppression_config() {
    let name = Name::from_utf8("test.local.").expect("invalid name");
    let link_local_record =
        Record::from_rdata(name.clone(), 10, RData::A(Ipv4Address::new(169, 254, 1, 1)));

    // With suppression disabled, link-local should NOT be suppressed
    let config = RecordSuppressionConfig {
        enabled: false,
        client_ip: Some(IpAddress::V4(Ipv4Address::new(8, 8, 8, 8))),
    };
    assert!(
        !should_suppress_address_record(&link_local_record, &config),
        "Link-local should NOT be suppressed when suppression is disabled"
    );

    // With suppression enabled and remote client, link-local SHOULD be suppressed
    let config = RecordSuppressionConfig {
        enabled: true,
        client_ip: Some(IpAddress::V4(Ipv4Address::new(8, 8, 8, 8))),
    };
    assert!(
        should_suppress_address_record(&link_local_record, &config),
        "Link-local SHOULD be suppressed for remote client"
    );

    // Regular private IP should NOT be suppressed
    let private_record = Record::from_rdata(name, 10, RData::A(Ipv4Address::new(192, 168, 1, 1)));
    assert!(
        !should_suppress_address_record(&private_record, &config),
        "Private IP should NOT be suppressed"
    );
}

#[test]
fn test_domain_enumeration_record_generation() {
    let query_name = Name::from_utf8("b._dns-sd._udp.local.").expect("invalid name");
    let apex = Name::from_utf8("local.").expect("invalid name");

    let records = generate_domain_enumeration_records(&query_name, &apex);

    assert_eq!(records.len(), 1, "Should return one PTR record");

    let ptr_record = &records[0];
    assert_eq!(ptr_record.name(), &query_name);

    if let RData::PTR(ptr) = ptr_record.data() {
        assert_eq!(*ptr, apex, "PTR should point to the zone apex");
    } else {
        panic!("Expected PTR record");
    }
}

#[test]
fn admin_names_match_by_label_without_regard_to_case() {
    let name = Name::from_labels(vec![b"LB".to_vec(), b"_DNS-SD".to_vec(), b"_UDP".to_vec()])
        .unwrap();
    assert!(is_domain_enumeration_query(&name, RecordType::PTR));
    // Two labels are not enough, and a longer first label is another name.
    let name = Name::from_utf8("b._dns-sd.local.").unwrap();
    assert!(!is_domain_enumeration_query(&name, RecordType::PTR));
    let name = Name::from_utf8("bb._dns-sd._udp.local.").unwrap();
    assert!(!is_domain_enumeration_query(&name, RecordType::PTR));
    // The TLS services are offered over TCP only.
    let name = Name::from_utf8("_dns-update-tls._udp.local.").unwrap();
    assert!(!is_negative_admin_srv_query(&name));
    let name = Name::from_utf8("_dns-push-tls._udp.local.").unwrap();
    assert!(!is_negative_admin_srv_query(&name));
    let name = Name::from_utf8("_dns-llq-tls._tcp.local.").unwrap();
    assert!(is_negative_admin_srv_query(&name));
}

#[test]
fn apex_and_below() {
    let apex = Name::from_utf8("mdns.home.arpa.").unwrap();
    assert!(is_zone_apex_query(&Name::from_utf8("MDNS.Home.Arpa.").unwrap(), &apex));
    // A name that is not fully qualified is another name.
    assert!(!is_zone_apex_query(&Name::from_utf8("mdns.home.arpa").unwrap(), &apex));
    assert!(!is_zone_apex_query(&Name::from_utf8("a.mdns.home.arpa.").unwrap(), &apex));
    let below = Name::from_utf8("a.b.mdns.home.arpa.").unwrap();
    assert!(is_delegation_query_below_apex(&below, RecordType::DS, &apex));
    let elsewhere = Name::from_utf8("a.b.c.home.arpa.").unwrap();
    assert!(!is_delegation_query_below_apex(&elsewhere, RecordType::DS, &apex));
    // A wildcard does not count as a label.
    let wildcard = Name::from_utf8("*.mdns.home.arpa.").unwrap();
    assert!(!is_delegation_query_below_apex(&wildcard, RecordType::NS, &apex));
    assert!(!is_delegation_query_below_apex(&below, RecordType::PTR, &apex));
}

#[test]
fn soa_and_ns_name_the_proxy_host() {
    let owner = Name::from_utf8("mdns.home.arpa.").unwrap();
    let proxy = Name::from_utf8("discovery-proxy.local.").unwrap();
    let hostmaster = Name::from_utf8("hostmaster.local.").unwrap();
    assert_eq!(
        generate_soa_record(&owner),
        Record::from_rdata(
            owner.clone(),
            10,
            RData::SOA {
                mname: proxy.clone(),
                rname: hostmaster,
                serial: 0,
                refresh: 7200,
                retry: 3600,
                expire: 86400,
                minimum: 10,
            }
        )
    );
    assert_eq!(generate_ns_record(&owner), Record::from_rdata(owner, 10, RData::NS(proxy)));
}

#[test]
fn same_link_heuristic() {
    let v4 = |a, b, c, d| IpAddress::V4(Ipv4Address::new(a, b, c, d));
    let ll6 = IpAddress::V6(v6(0xfe80, 0, 1));
    // A client on loopback is on every link.
    assert!(is_same_link(&v4(127, 0, 0, 1), &v4(169, 254, 1, 1)));
    assert!(is_same_link(&v4(127, 9, 9, 9), &ll6));
    assert!(is_same_link(&IpAddress::V6(v6(0, 0, 1)), &v4(169, 254, 1, 1)));
    // Both private and in one /24.
    assert!(is_same_link(&v4(192, 168, 1, 7), &v4(192, 168, 1, 200)));
    assert!(!is_same_link(&v4(192, 168, 1, 7), &v4(192, 168, 2, 7)));
    assert!(is_same_link(&v4(10, 1, 2, 3), &v4(10, 1, 2, 4)));
    assert!(is_same_link(&v4(172, 16, 0, 1), &v4(172, 16, 0, 2)));
    assert!(is_same_link(&v4(172, 31, 255, 1), &v4(172, 31, 255, 2)));
    assert!(!is_same_link(&v4(172, 32, 0, 1), &v4(172, 32, 0, 2)));
    // Same /24 but not private.
    assert!(!is_same_link(&v4(8, 8, 8, 8), &v4(8, 8, 8, 9)));
    assert!(!is_same_link(&v4(169, 254, 1, 2), &v4(169, 254, 1, 1)));
    // Both IPv6 link-local.
    assert!(is_same_link(&ll6, &IpAddress::V6(v6(0xfe80, 0, 2))));
    assert!(!is_same_link(&ll6, &IpAddress::V6(v6(0xfd00, 0, 2))));
    assert!(!is_same_link(&IpAddress::V6(v6(0x2001, 0xdb8, 1)), &ll6));
    // Different families.
    assert!(!is_same_link(&v4(192, 168, 1, 7), &ll6));
    assert!(!is_same_link(&ll6, &v4(192, 168, 1, 7)));
}

#[test]
fn suppression_of_addresses_and_of_srv_records() {
    let remote = RecordSuppressionConfig {
        enabled: true,
        client_ip: Some(IpAddress::V4(Ipv4Address::new(8, 8, 8, 8))),
    };
    let local6 = RecordSuppressionConfig {
        enabled: true,
        client_ip: Some(IpAddress::V6(v6(0xfe80, 0, 9))),
    };
    let unknown = RecordSuppressionConfig { enabled: true, client_ip: None };
    let host = Name::from_utf8("host.local.").unwrap();
    let other = Name::from_utf8("other.local.").unwrap();
    let ll4 = Record::from_rdata(host.clone(), 10, RData::A(Ipv4Address::new(169, 254, 1, 1)));
    let ll6 = Record::from_rdata(host.clone(), 10, RData::AAAA(v6(0xfe80, 0, 1)));
    let ula = Record::from_rdata(host.clone(), 10, RData::AAAA(v6(0xfd00, 0, 1)));
    let global6 = Record::from_rdata(other.clone(), 10, RData::AAAA(v6(0x2001, 0xdb8, 1)));
    let routable = Record::from_rdata(other.clone(), 10, RData::A(Ipv4Address::new(192, 0, 2, 1)));
    let srv_host = Record::from_rdata(
        Name::from_utf8("svc._http._tcp.local.").unwrap(),
        10,
        RData::SRV { priority: 0, weight: 0, port: 80, target: Name::from_utf8("HOST.local.").unwrap() },
    );
    let srv_other = Record::from_rdata(
        Name::from_utf8("svc2._http._tcp.local.").unwrap(),
        10,
        RData::SRV { priority: 0, weight: 0, port: 80, target: other.clone() },
    );

    assert!(should_suppress_address_record(&ll4, &remote));
    assert!(should_suppress_address_record(&ll6, &remote));
    assert!(should_suppress_address_record(&ula, &remote));
    assert!(!should_suppress_address_record(&global6, &remote));
    assert!(!should_suppress_address_record(&ll6, &local6));
    // A unique local address is kept only from clients that are not link-local.
    assert!(should_suppress_address_record(&ula, &local6));
    assert!(!should_suppress_address_record(&ll4, &unknown));
    assert!(!should_suppress_address_record(&srv_host, &remote));

    let all = vec![
        ll4.clone(),
        srv_host.clone(),
        routable.clone(),
        srv_other.clone(),
        ll6.clone(),
        global6.clone(),
    ];
    assert!(should_suppress_srv_record(&srv_host, &all, &remote));
    assert!(!should_suppress_srv_record(&srv_other, &all, &remote));
    assert!(!should_suppress_srv_record(&ll4, &all, &remote));
    assert!(!should_suppress_srv_record(&srv_host, &all, &unknown));

    // The records that stay keep their order.
    assert_eq!(
        filter_suppressed_records(all.clone(), &remote),
        vec![routable.clone(), srv_other.clone(), global6.clone()]
    );
    assert_eq!(filter_suppressed_records(all.clone(), &unknown), all);
    let off = RecordSuppressionConfig { enabled: false, client_ip: remote.client_ip };
    assert_eq!(filter_suppressed_records(all.clone(), &off), all);
    assert_eq!(
        filter_suppressed_records(all.clone(), &local6),
        vec![routable, srv_other, ll6, global6]
    );
    let defaults = RecordSuppressionConfig::default();
    assert!(defaults.enabled);
    assert_eq!(defaults.client_ip, None);
}
