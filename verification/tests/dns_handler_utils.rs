use mdns_dns_proxy::addr::Ipv4Address;
use mdns_dns_proxy::dns_handler::handler::MdnsDnsHandler;
use mdns_dns_proxy::dns_handler::utils::{
    build_response_from_records, in_discovery_scope, parse_dns_request, should_handle_domain,
    Question, Request, ResponseCode,
};
use mdns_dns_proxy::mdns_resolver::query::QueryError;
use mdns_dns_proxy::rr::{Name, RData, Record, RecordType};

#[test]
fn test_should_handle_domain_with_trailing_dot() {
    let dom = "mdns.home.arpa.";
    assert!(should_handle_domain(&format!("hostname.{}", dom), dom));
    assert!(should_handle_domain(&format!("subdomain.hostname.{}", dom), dom));
    assert!(should_handle_domain(&format!("my-device.{}", dom), dom));
}

#[test]
fn test_should_handle_domain_without_trailing_dot() {
    let dom = "mdns.home.arpa.";
    assert!(should_handle_domain(&format!("hostname.{}", dom.trim_end_matches('.')), dom));
    assert!(should_handle_domain(
        &format!("subdomain.hostname.{}", dom.trim_end_matches('.')),
        dom
    ));
}

#[test]
fn tests_test_should_handle_service_discovery_tcp() {
    let dom = "mdns.home.arpa.";
    assert!(should_handle_domain(&format!("_http._tcp.{}", dom.trim_end_matches('.')), dom));
    assert!(should_handle_domain(&format!("_http._tcp.{}", dom), dom));
    assert!(should_handle_domain(
        &format!("MyService._http._tcp.{}", dom.trim_end_matches('.')),
        dom
    ));
    assert!(should_handle_domain(&format!("MyService._http._tcp.{}", dom), dom));
    assert!(should_handle_domain(&format!("_ssh._tcp.{}", dom.trim_end_matches('.')), dom));
}

#[test]
fn tests_test_should_handle_service_discovery_udp() {
    let dom = "mdns.home.arpa.";
    assert!(should_handle_domain(&format!("_dns._udp.{}", dom.trim_end_matches('.')), dom));
    assert!(should_handle_domain(&format!("_dns._udp.{}", dom), dom));
    assert!(should_handle_domain(
        &format!("MyService._dns._udp.{}", dom.trim_end_matches('.')),
        dom
    ));
}

#[test]
fn tests_test_should_not_handle_regular_domains() {
    let dom = "mdns.home.arpa.";
    assert!(!should_handle_domain("example.com", dom));
    assert!(!should_handle_domain("www.google.com", dom));
    assert!(!should_handle_domain("subdomain.example.org", dom));
    assert!(!should_handle_domain("192.168.1.1", dom));
}

#[test]
fn tests_test_should_not_handle_similar_but_different_domains() {
    let dom = "mdns.home.arpa.";
    assert!(!should_handle_domain("localhost", dom));
    assert!(!should_handle_domain("localnet", dom));
    assert!(!should_handle_domain("mylocal.com", dom));
    assert!(!should_handle_domain("tcp.local.com", dom));
}

#[test]
fn tests_test_should_handle_case_sensitivity() {
    let dom = "mdns.home.arpa.";
    assert!(should_handle_domain(&format!("hostname.{}", dom.trim_end_matches('.')), dom));
    assert!(should_handle_domain(&format!("hostname.{}", dom.to_uppercase()), dom));
    assert!(should_handle_domain(&format!("HOSTNAME.{}", dom.trim_end_matches('.')), dom));
}

#[test]
fn tests_test_should_handle_empty_and_edge_cases() {
    let dom = "mdns.home.arpa.";
    assert!(!should_handle_domain("", dom));
    assert!(!should_handle_domain(".", dom));
    assert!(!should_handle_domain("..", dom));
    assert!(should_handle_domain(dom.trim_start_matches('.'), dom));
    assert!(should_handle_domain(dom, dom));
}

#[test]
fn tests_test_should_handle_complex_service_names() {
    let dom = "mdns.home.arpa.";
    assert!(should_handle_domain(
        &format!("My Service (2)._http._tcp.{}", dom.trim_end_matches('.')),
        dom
    ));
    assert!(should_handle_domain(
        &format!("Office-Printer._ipp._tcp.{}", dom.trim_end_matches('.')),
        dom
    ));
    assert!(should_handle_domain(
        &format!("_device-info._tcp.{}", dom.trim_end_matches('.')),
        dom
    ));
}

#[test]
fn tests_test_should_handle_various_tlds() {
    let dom = "mdns.home.arpa.";
    assert!(should_handle_domain(&format!("test.{}", dom.trim_end_matches('.')), dom));
    assert!(should_handle_domain(&format!("test.{}", dom), dom));
    assert!(!should_handle_domain("test.com", dom));
    assert!(!should_handle_domain("test.org", dom));
    assert!(!should_handle_domain("test.net", dom));
}

#[test]
fn tests_test_should_handle_subdomain_levels() {
    let dom = "mdns.home.arpa.";
    assert!(should_handle_domain(&format!("a.{}", dom.trim_end_matches('.')), dom));
    assert!(should_handle_domain(&format!("a.b.{}", dom.trim_end_matches('.')), dom));
    assert!(should_handle_domain(&format!("a.b.c.{}", dom.trim_end_matches('.')), dom));
    assert!(should_handle_domain(&format!("a.b.c.d.{}", dom.trim_end_matches('.')), dom));
}

#[test]
fn tests_test_should_handle_service_instance_patterns() {
    // Standard service instance format: instance._service._proto.domain
    let dom = "mdns.home.arpa.";
    assert!(should_handle_domain(
        &format!("MyPrinter._ipp._tcp.{}", dom.trim_end_matches('.')),
        dom
    ));
    assert!(should_handle_domain(
        &format!("Living Room TV._googlecast._tcp.{}", dom.trim_end_matches('.')),
        dom
    ));
    assert!(should_handle_domain(
        &format!("Office-PC._smb._tcp.{}", dom.trim_end_matches('.')),
        dom
    ));
}

#[test]
fn tests_test_should_handle_mixed_case_protocols() {
    let dom = "mdns.home.arpa.";
    assert!(should_handle_domain(&format!("service._TCP.{}", dom.trim_end_matches('.')), dom));
    assert!(should_handle_domain(&format!("service._Tcp.{}", dom.trim_end_matches('.')), dom));
    assert!(should_handle_domain(&format!("service._UDP.{}", dom.trim_end_matches('.')), dom));
    assert!(should_handle_domain(&format!("service._Udp.{}", dom.trim_end_matches('.')), dom));
}

#[test]
fn tests_test_dns_handler_creation() {
    let discovery_domain = "mdns.home.arpa.".to_string();
    let handler = MdnsDnsHandler::new(discovery_domain.clone()).unwrap();

    // Test that handler correctly identifies domains
    let name = Name::from_utf8(&format!("test.{}", discovery_domain)).unwrap();
    assert!(handler.should_handle(&name));

    let name = Name::from_utf8("test.com").unwrap();
    assert!(!handler.should_handle(&name));
}

#[test]
fn dns_handler_test_dns_handler_creation() {
    let handler = MdnsDnsHandler::new("local.".to_string()).unwrap();

    // Test that handler correctly identifies domains
    let name = Name::from_utf8("test.local").unwrap();
    assert!(handler.should_handle(&name));

    let name = Name::from_utf8("test.com").unwrap();
    assert!(!handler.should_handle(&name));
}

#[test]
fn tests_test_should_handle_special_characters() {
    let dom = "mdns.home.arpa.";
    assert!(should_handle_domain(&format!("test-device.{}", dom.trim_end_matches('.')), dom));
    assert!(should_handle_domain(&format!("test_device.{}", dom.trim_end_matches('.')), dom));
    assert!(should_handle_domain(&format!("test123.{}", dom.trim_end_matches('.')), dom));
    assert!(should_handle_domain(&format!("123test.{}", dom.trim_end_matches('.')), dom));
}

#[test]
fn tests_test_should_handle_unicode() {
    // DNS allows unicode in domain names
    let dom = "mdns.home.arpa.";
    assert!(should_handle_domain(&format!("münchen.{}", dom.trim_end_matches('.')), dom));
    assert!(should_handle_domain(&format!("日本.{}", dom.trim_end_matches('.')), dom));
    assert!(should_handle_domain(&format!("test-ñ.{}", dom.trim_end_matches('.')), dom));
}

#[test]
fn tests_test_should_handle_max_length() {
    // DNS labels can be up to 63 characters
    let long_label = "a".repeat(63);
    let dom = "mdns.home.arpa.";
    assert!(should_handle_domain(
        &format!("{}.{}", long_label, dom.trim_end_matches('.')),
        dom
    ));

    // With service discovery
    assert!(should_handle_domain(
        &format!("{}._http._tcp.{}", long_label, dom.trim_end_matches('.')),
        dom
    ));
}

fn a_record(name: &str, ttl: u32, last: u8) -> Record {
    Record::from_rdata(
        Name::from_utf8(name).unwrap(),
        ttl,
        RData::A(Ipv4Address::new(192, 168, 1, last)),
    )
}

#[test]
fn tests_test_build_response_from_records_success_with_records() {
    let record = a_record("test.mdns.home.arpa.", 300, 1);

    let records = vec![record];
    let result = Ok(records.clone());

    let (response_code, records_opt) = build_response_from_records(result);

    assert_eq!(response_code, ResponseCode::NoError);
    assert!(records_opt.is_some());
    assert_eq!(records_opt.unwrap().len(), 1);
}

#[test]
fn tests_test_build_response_from_records_success_empty() {
    let records: Vec<Record> = vec![];
    let result = Ok(records);

    let (response_code, records_opt) = build_response_from_records(result);

    // Per RFC 8766 Section 5.6, empty responses should return NoError not NXDOMAIN
    assert_eq!(response_code, ResponseCode::NoError);
    assert!(records_opt.is_none());
}

#[test]
fn tests_test_build_response_from_records_error() {
    let result: Result<Vec<Record>, QueryError> = Err(QueryError::LinkFailure);

    let (response_code, records_opt) = build_response_from_records(result);

    assert_eq!(response_code, ResponseCode::ServFail);
    assert!(records_opt.is_none());
}

#[test]
fn tests_test_build_response_from_records_multiple_records() {
    let record1 = a_record("test.mdns.home.arpa.", 300, 1);
    let record2 = a_record("test.mdns.home.arpa.", 300, 2);

    let records = vec![record1, record2];
    let result = Ok(records);

    let (response_code, records_opt) = build_response_from_records(result);

    assert_eq!(response_code, ResponseCode::NoError);
    assert!(records_opt.is_some());
    assert_eq!(records_opt.unwrap().len(), 2);
}

#[test]
fn dns_handler_test_build_response_from_records_success_with_records() {
    let record = a_record("test.local.", 300, 1);

    let records = vec![record];
    let result = Ok(records.clone());

    let (response_code, records_opt) = build_response_from_records(result);

    assert_eq!(response_code, ResponseCode::NoError);
    assert!(records_opt.is_some());
    assert_eq!(records_opt.unwrap().len(), 1);
}

#[test]
fn dns_handler_test_build_response_from_records_error() {
    let result: Result<Vec<Record>, QueryError> = Err(QueryError::LinkFailure);

    let (response_code, records_opt) = build_response_from_records(result);

    assert_eq!(response_code, ResponseCode::ServFail);
    assert!(records_opt.is_none());
}

#[test]
fn dns_handler_test_build_response_from_records_multiple_records() {
    let record1 = a_record("test.local.", 300, 1);
    let record2 = a_record("test.local.", 300, 2);

    let records = vec![record1.clone(), record2.clone()];
    let result = Ok(records);

    let (response_code, records_opt) = build_response_from_records(result);

    assert_eq!(response_code, ResponseCode::NoError);
    assert!(records_opt.is_some());
    assert_eq!(records_opt.unwrap(), vec![record1, record2]);
}

#[test]
fn scope_is_told_on_lowered_texts() {
    assert!(in_discovery_scope("host.mdns.home.arpa.", "mdns.home.arpa."));
    assert!(in_discovery_scope("host.mdns.home.arpa", "mdns.home.arpa."));
    assert!(in_discovery_scope("host.mdns.home.arpa", "mdns.home.arpa..."));
    assert!(in_discovery_scope("x._tcp.example.com", "mdns.home.arpa."));
    assert!(!in_discovery_scope("host.MDNS.HOME.ARPA.", "mdns.home.arpa."));
    assert!(!in_discovery_scope("host.home.arpa.", "mdns.home.arpa."));
    assert!(!in_discovery_scope("_tcp.example.com", "mdns.home.arpa."));
    // Lowering both texts makes the difference.
    assert!(should_handle_domain("host.MDNS.HOME.ARPA.", "Mdns.Home.Arpa."));
}

#[test]
fn response_head_is_never_authoritative() {
    let unreadable = Request { question: None, client_ip: None };
    let head = parse_dns_request(&unreadable);
    assert_eq!(head.response_code, ResponseCode::FormErr);
    assert!(!head.authoritative);

    let readable = Request {
        question: Some(Question {
            name: Name::from_utf8("a.mdns.home.arpa.").unwrap(),
            record_type: RecordType::A,
        }),
        client_ip: None,
    };
    let head = parse_dns_request(&readable);
    assert_eq!(head.response_code, ResponseCode::NoError);
    assert!(!head.authoritative);
}

#[test]
fn test_noerror_for_empty_responses() {
    // Test empty result returns NoError
    let empty_result = Ok(Vec::new());
    let (code, records) = build_response_from_records(empty_result);

    assert_eq!(code, ResponseCode::NoError, "Empty responses should return NoError, not NXDOMAIN");
    assert!(records.is_none(), "Empty result should have no records");
}

#[test]
fn test_noerror_for_successful_responses() {
    // Create a dummy record
    let record = Record::from_rdata(
        Name::from_utf8("test.local.").expect("invalid name"),
        10,
        RData::A(Ipv4Address::new(192, 168, 1, 1)),
    );

    let result = Ok(vec![record]);
    let (code, records) = build_response_from_records(result);

    assert_eq!(code, ResponseCode::NoError, "Successful responses should return NoError");
    assert!(records.is_some(), "Successful result should have records");
    assert_eq!(records.unwrap().len(), 1, "Should have one record");
}

#[test]
fn test_servfail_for_errors() {
    let error_result: Result<Vec<Record>, QueryError> = Err(QueryError::LinkFailure);
    let (code, records) = build_response_from_records(error_result);

    assert_eq!(code, ResponseCode::ServFail, "Errors should return ServFail");
    assert!(records.is_none(), "Error result should have no records");
}
