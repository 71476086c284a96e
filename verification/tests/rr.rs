use mdns_dns_proxy::addr::{IpAddress, Ipv4Address, Ipv6Address};
use mdns_dns_proxy::rr::{
    ascii_label, clone_records, label_eq, Name, NameError, RData, Record, RecordType,
};

#[test]
fn tests_test_query_name_parsing() {
    // Test that Name parsing works correctly
    assert!(Name::from_utf8("test.local").is_ok());
    assert!(Name::from_utf8("test.local.").is_ok());
    assert!(Name::from_utf8("_http._tcp.local").is_ok());
    assert!(Name::from_utf8("MyService._http._tcp.local").is_ok());
}

#[test]
fn tests_test_name_parsing_variations() {
    // Test various valid name formats
    assert!(Name::from_utf8("a.local").is_ok());
    assert!(Name::from_utf8("a.b.local").is_ok());
    assert!(Name::from_utf8("a-b.local").is_ok());
    assert!(Name::from_utf8("a1.local").is_ok());
    assert!(Name::from_utf8("1a.local").is_ok());

    // Service discovery names
    assert!(Name::from_utf8("_http._tcp.local").is_ok());
    assert!(Name::from_utf8("MyService._http._tcp.local").is_ok());
}

#[test]
fn tests_test_record_creation_with_different_ttls() {
    let make = |ttl| {
        Record::from_rdata(
            Name::from_utf8("test.local").unwrap(),
            ttl,
            RData::A(Ipv4Address::new(192, 168, 1, 1)),
        )
    };
    let record1 = make(60);
    let record2 = make(120);
    let record3 = make(300);

    // All should be valid records
    assert!(record1.name().to_utf8().unwrap().starts_with("test.local"));
    assert!(record2.name().to_utf8().unwrap().starts_with("test.local"));
    assert!(record3.name().to_utf8().unwrap().starts_with("test.local"));
    assert_eq!(record1.ttl(), 60);
    assert_eq!(record3.ttl(), 300);
}

#[test]
fn parsed_names_hold_their_labels() {
    let name = Name::from_utf8("printer.mdns.home.arpa.").unwrap();
    assert_eq!(
        name.labels,
        vec![b"printer".to_vec(), b"mdns".to_vec(), b"home".to_vec(), b"arpa".to_vec()]
    );
    assert!(name.is_fqdn());
    assert_eq!(name.num_labels(), 4);

    let relative = Name::from_utf8("printer.local").unwrap();
    assert_eq!(relative.labels, vec![b"printer".to_vec(), b"local".to_vec()]);
    assert!(!relative.is_fqdn());

    let root = Name::from_utf8(".").unwrap();
    assert_eq!(root, Name::root());
    assert_eq!(root.num_labels(), 0);

    // A text that the parser refuses.
    assert_eq!(Name::from_utf8("bad name.local."), Err(NameError::Malformed));
    assert_eq!(Name::from_utf8("a..b"), Err(NameError::Malformed));
}

#[test]
fn names_are_written_as_text() {
    let name = Name::from_utf8("_http._tcp.local.").unwrap();
    assert_eq!(name.to_utf8().unwrap(), "_http._tcp.local.");
    let relative = Name::from_utf8("host.local").unwrap();
    assert_eq!(relative.to_utf8().unwrap(), "host.local");
    assert_eq!(Name::root().to_utf8().unwrap(), ".");
    // The text is not the one that went in: it is made from the labels.
    let mut fq = relative.clone();
    fq.fqdn = true;
    assert_eq!(fq.to_utf8().unwrap(), "host.local.");
    // Labels that make no name have no text.
    let empty_label = Name { labels: vec![Vec::new()], fqdn: true };
    assert_eq!(empty_label.to_utf8(), None);
    let long_label = Name { labels: vec![vec![b'a'; 64]], fqdn: true };
    assert_eq!(long_label.to_utf8(), None);
}

#[test]
fn from_labels_checks_the_limits() {
    let ok = Name::from_labels(vec![b"My Printer".to_vec(), b"local".to_vec()]).unwrap();
    assert!(ok.is_fqdn());
    assert_eq!(ok.labels[0], b"My Printer".to_vec());
    assert_eq!(Name::from_labels(Vec::new()), Ok(Name::root()));

    assert_eq!(
        Name::from_labels(vec![b"a".to_vec(), Vec::new()]),
        Err(NameError::EmptyLabel)
    );
    assert!(Name::from_labels(vec![vec![b'a'; 63]]).is_ok());
    assert_eq!(Name::from_labels(vec![vec![b'a'; 64]]), Err(NameError::LabelTooLong));
    // An empty label is reported before a long one.
    assert_eq!(
        Name::from_labels(vec![vec![b'a'; 64], Vec::new()]),
        Err(NameError::EmptyLabel)
    );
    // 3 * 64 + 62 + 1 = 255 bytes with the root label: the longest name.
    let longest = vec![vec![b'a'; 63], vec![b'b'; 63], vec![b'c'; 63], vec![b'd'; 61]];
    assert!(Name::from_labels(longest).is_ok());
    let too_long = vec![vec![b'a'; 63], vec![b'b'; 63], vec![b'c'; 63], vec![b'd'; 62]];
    assert_eq!(Name::from_labels(too_long), Err(NameError::NameTooLong));
    // 127 labels of one byte take 254 bytes, 128 take 256.
    assert!(Name::from_labels(vec![vec![b'x']; 127]).is_ok());
    assert_eq!(Name::from_labels(vec![vec![b'x']; 128]), Err(NameError::NameTooLong));
}

#[test]
fn names_compare_without_regard_to_ascii_case() {
    let lower = Name::from_utf8("host.example.com.").unwrap();
    let upper = Name::from_labels(vec![b"HOST".to_vec(), b"Example".to_vec(), b"COM".to_vec()])
        .unwrap();
    assert!(lower.same_as(&upper));
    assert!(upper.same_as(&lower));
    assert_ne!(lower, upper);
    assert!(!lower.same_as(&Name::from_utf8("host.example.com").unwrap()));
    assert!(!lower.same_as(&Name::from_utf8("host.example.org.").unwrap()));
    assert!(!lower.same_as(&Name::from_utf8("example.com.").unwrap()));

    assert!(label_eq(&b"aZ09-_".to_vec(), &b"Az09-_".to_vec()));
    // '@' and '`' differ by the case bit but are no letters; so do '[' and '{'.
    assert!(!label_eq(&b"@".to_vec(), &b"`".to_vec()));
    assert!(!label_eq(&b"[".to_vec(), &b"{".to_vec()));
    assert!(!label_eq(&b"ab".to_vec(), &b"abc".to_vec()));
    assert_eq!(ascii_label("local"), b"local".to_vec());
    assert_eq!(ascii_label(""), Vec::<u8>::new());
}

#[test]
fn zones_hold_the_names_below_them() {
    let zone = Name::from_utf8("example.com").unwrap();
    let name = Name::from_utf8("www.Example.COM.").unwrap();
    let another = Name::from_utf8("example.net").unwrap();
    assert!(zone.zone_of(&name));
    assert!(zone.zone_of(&zone));
    assert!(!name.zone_of(&zone));
    assert!(!another.zone_of(&name));
    assert!(Name::root().zone_of(&name));
    assert!(!zone.zone_of(&Name::root()));
    // A label that only ends like the zone's is another label.
    assert!(!zone.zone_of(&Name::from_utf8("www.notexample.com.").unwrap()));
    assert_eq!(Name::from_utf8("*.example.com.").unwrap().num_labels(), 2);
    assert_eq!(Name::from_utf8("a.*.example.com.").unwrap().num_labels(), 4);
}

#[test]
fn records_know_their_type_and_copy_deeply() {
    let owner = Name::from_utf8("svc._http._tcp.local.").unwrap();
    let target = Name::from_utf8("host.local.").unwrap();
    let data = vec![
        (RData::A(Ipv4Address::new(1, 2, 3, 4)), RecordType::A),
        (RData::AAAA(Ipv6Address::new(1, 2, 3, 4, 5, 6, 7, 8)), RecordType::AAAA),
        (RData::PTR(target.clone()), RecordType::PTR),
        (
            RData::SRV { priority: 1, weight: 2, port: 3, target: target.clone() },
            RecordType::SRV,
        ),
        (RData::TXT(vec!["a=b".to_string(), "c=".to_string()]), RecordType::TXT),
        (
            RData::SOA {
                mname: target.clone(),
                rname: owner.clone(),
                serial: 1,
                refresh: -2,
                retry: 3,
                expire: 4,
                minimum: 5,
            },
            RecordType::SOA,
        ),
        (RData::NS(target.clone()), RecordType::NS),
    ];
    let mut records = Vec::new();
    for (rdata, record_type) in data {
        assert_eq!(rdata.record_type(), record_type);
        let record = Record::from_rdata(owner.clone(), 77, rdata.clone());
        assert_eq!(record.record_type(), record_type);
        assert_eq!(record.data(), &rdata);
        assert_eq!(record.clone(), record);
        records.push(record);
    }
    assert_eq!(clone_records(&records), records);
    let mut first = records[0].clone();
    first.set_ttl(5);
    assert_eq!(first.ttl(), 5);
    assert_eq!(first.name(), &owner);
    assert_eq!(first.data(), records[0].data());
}

#[test]
fn addresses_are_their_bits() {
    assert_eq!(Ipv4Address::new(192, 0, 2, 17).bits, 0xc000_0211);
    assert_eq!(Ipv4Address::new(255, 255, 255, 255).bits, u32::MAX);
    assert_eq!(
        Ipv6Address::new(0xfe80, 0, 0, 0, 0x1234, 0x5678, 0xabcd, 0xef01).bits,
        0xfe80_0000_0000_0000_1234_5678_abcd_ef01
    );
    assert_eq!(
        Ipv6Address::new(0xffff, 0xffff, 0xffff, 0xffff, 0xffff, 0xffff, 0xffff, 0xffff).bits,
        u128::MAX
    );
    assert!(Ipv4Address::new(127, 255, 0, 1).is_loopback());
    assert!(!Ipv4Address::new(128, 0, 0, 1).is_loopback());
    assert!(Ipv4Address::new(10, 255, 0, 1).is_private());
    assert!(Ipv4Address::new(172, 16, 0, 1).is_private());
    assert!(Ipv4Address::new(172, 31, 0, 1).is_private());
    assert!(!Ipv4Address::new(172, 15, 0, 1).is_private());
    assert!(!Ipv4Address::new(172, 32, 0, 1).is_private());
    assert!(Ipv4Address::new(192, 168, 255, 255).is_private());
    assert!(!Ipv4Address::new(192, 169, 0, 0).is_private());
    assert!(Ipv4Address::new(169, 254, 0, 0).is_link_local());
    assert!(!Ipv4Address::new(169, 253, 255, 255).is_link_local());
    assert!(!Ipv4Address::new(169, 255, 0, 0).is_link_local());
    assert!(Ipv4Address::new(10, 1, 2, 3).shares_network24(&Ipv4Address::new(10, 1, 2, 255)));
    assert!(!Ipv4Address::new(10, 1, 2, 3).shares_network24(&Ipv4Address::new(10, 1, 3, 3)));
    // fc00::/7 spans fc00:: to fdff:ffff:..., fe80::/10 spans fe80:: to febf:ffff:...
    assert!(Ipv6Address::new(0xfdff, 0xffff, 0xffff, 0xffff, 0xffff, 0xffff, 0xffff, 0xffff)
        .is_unique_local());
    assert!(!Ipv6Address::new(0xfbff, 0xffff, 0, 0, 0, 0, 0, 0).is_unique_local());
    assert!(!Ipv6Address::new(0xfe00, 0, 0, 0, 0, 0, 0, 0).is_unique_local());
    assert!(Ipv6Address::new(0xfebf, 0xffff, 0, 0, 0, 0, 0, 0).is_link_local());
    assert!(!Ipv6Address::new(0xfec0, 0, 0, 0, 0, 0, 0, 0).is_link_local());
    assert!(!Ipv6Address::new(0xfe7f, 0xffff, 0, 0, 0, 0, 0, 0).is_link_local());
    assert!(Ipv6Address::new(0, 0, 0, 0, 0, 0, 0, 1).is_loopback());
    assert!(!Ipv6Address::new(0, 0, 0, 0, 0, 0, 0, 2).is_loopback());
    assert_ne!(
        IpAddress::V4(Ipv4Address::new(0, 0, 0, 1)),
        IpAddress::V6(Ipv6Address::new(0, 0, 0, 0, 0, 0, 0, 1))
    );
}

#[test]
fn mdns_resolver_test_query_name_parsing() {
    // Test that Name parsing works correctly
    assert!(Name::from_utf8("test.local").is_ok());
    assert!(Name::from_utf8("test.local.").is_ok());
    assert!(Name::from_utf8("_http._tcp.local").is_ok());
    assert!(Name::from_utf8("MyService._http._tcp.local").is_ok());
}

#[test]
fn mdns_resolver_test_name_parsing_variations() {
    // Test various valid name formats
    assert!(Name::from_utf8("a.local").is_ok());
    assert!(Name::from_utf8("a.b.local").is_ok());
    assert!(Name::from_utf8("a-b.local").is_ok());
    assert!(Name::from_utf8("a1.local").is_ok());
    assert!(Name::from_utf8("1a.local").is_ok());

    // Service discovery names
    assert!(Name::from_utf8("_http._tcp.local").is_ok());
    assert!(Name::from_utf8("MyService._http._tcp.local").is_ok());
}

#[test]
fn mdns_resolver_test_record_creation_with_different_ttls() {
    let make = |ttl| {
        Record::from_rdata(
            Name::from_utf8("test.local").unwrap(),
            ttl,
            RData::A(Ipv4Address::new(192, 168, 1, 1)),
        )
    };
    let record1 = make(60);
    let record2 = make(120);
    let record3 = make(300);

    // All should be valid records
    assert!(record1.name().to_utf8().unwrap().starts_with("test.local"));
    assert!(record2.name().to_utf8().unwrap().starts_with("test.local"));
    assert!(record3.name().to_utf8().unwrap().starts_with("test.local"));
}
