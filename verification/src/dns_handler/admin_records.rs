//! Administrative answers and the suppression of unusable records.
//!
//! Questions about the zone itself (SOA, NS, delegation below the apex,
//! domain enumeration, and the SRV names of services the proxy does not
//! offer) are answered without asking the link. Address records that a client
//! off the link cannot use are taken out of an answer.

use crate::addr::{
    v4_link_local, v4_loopback, v4_network24, v4_private, v6_link_local, v6_loopback,
    v6_unique_local, IpAddress, Ipv4Address, Ipv6Address,
};
use crate::rr::{
    ascii_label, label_eq, label_of, models, name_eq, num_labels, same_label, zone_of, Name,
    NameModel, RData, RDataModel, Record, RecordModel, RecordType,
};
use vstd::prelude::*;

verus! {

/// Time to live, in seconds, of the records the proxy makes up itself.
pub const MAX_ADMIN_TTL: u32 = 10;

/// Whether unusable records are taken out of answers, and for which client.
#[derive(Clone, Copy, Debug, PartialEq, Eq, Structural)]
pub struct RecordSuppressionConfig {
    /// Suppression is switched on.
    pub enabled: bool,
    /// The address the question came from, where it is known.
    pub client_ip: Option<IpAddress>,
}

impl Default for RecordSuppressionConfig {
    fn default() -> (config: RecordSuppressionConfig)
        ensures
            config.enabled,
            config.client_ip is None,
    {
        RecordSuppressionConfig { enabled: true, client_ip: None }
    }
}

/// The label at `at` is the given ASCII text, but for case.
pub open spec fn label_is(name: NameModel, at: int, text: Seq<char>) -> bool {
    0 <= at < name.labels.len() && same_label(name.labels[at], label_of(text))
}

/// The name begins with `b._dns-sd._udp`, `db._dns-sd._udp` or
/// `lb._dns-sd._udp`.
pub open spec fn enumeration_name(name: NameModel) -> bool {
    &&& label_is(name, 0, "b"@) || label_is(name, 0, "db"@) || label_is(name, 0, "lb"@)
    &&& label_is(name, 1, "_dns-sd"@)
    &&& label_is(name, 2, "_udp"@)
}

/// The name begins with the service name of DNS Update, of Long-Lived
/// Queries or of DNS Push.
pub open spec fn admin_srv_name(name: NameModel) -> bool {
    ||| label_is(name, 0, "_dns-update"@) && label_is(name, 1, "_udp"@)
    ||| label_is(name, 0, "_dns-update"@) && label_is(name, 1, "_tcp"@)
    ||| label_is(name, 0, "_dns-update-tls"@) && label_is(name, 1, "_tcp"@)
    ||| label_is(name, 0, "_dns-llq"@) && label_is(name, 1, "_udp"@)
    ||| label_is(name, 0, "_dns-llq"@) && label_is(name, 1, "_tcp"@)
    ||| label_is(name, 0, "_dns-llq-tls"@) && label_is(name, 1, "_tcp"@)
    ||| label_is(name, 0, "_dns-push-tls"@) && label_is(name, 1, "_tcp"@)
}

/// The type is one of those that ask about a delegation.
pub open spec fn delegation_type(record_type: RecordType) -> bool {
    record_type == RecordType::SOA || record_type == RecordType::NS || record_type
        == RecordType::DS
}

/// The name lies strictly below the apex.
pub open spec fn below_apex(name: NameModel, apex: NameModel) -> bool {
    num_labels(name) > num_labels(apex) && zone_of(apex, name)
}

/// The name `discovery-proxy.local.`.
pub open spec fn proxy_host() -> NameModel {
    NameModel { labels: seq![label_of("discovery-proxy"@), label_of("local"@)], fqdn: true }
}

/// The name `hostmaster.local.`.
pub open spec fn hostmaster() -> NameModel {
    NameModel { labels: seq![label_of("hostmaster"@), label_of("local"@)], fqdn: true }
}

/// The SOA record of the zone, owned by `name`.
pub open spec fn soa_record(name: NameModel) -> RecordModel {
    RecordModel {
        name,
        ttl: MAX_ADMIN_TTL,
        data: RDataModel::SOA {
            mname: proxy_host(),
            rname: hostmaster(),
            serial: 0,
            refresh: 7200,
            retry: 3600,
            expire: 86400,
            minimum: 10,
        },
    }
}

/// The NS record of the zone, owned by `name`.
pub open spec fn ns_record(name: NameModel) -> RecordModel {
    RecordModel { name, ttl: MAX_ADMIN_TTL, data: RDataModel::NS(proxy_host()) }
}

/// The PTR record that names the zone as a domain to browse.
pub open spec fn enumeration_record(name: NameModel, apex: NameModel) -> RecordModel {
    RecordModel { name, ttl: MAX_ADMIN_TTL, data: RDataModel::PTR(apex) }
}

/// The client is taken to be on the link of the target address: it is on
/// loopback, or both are IPv4 in one private `/24`, or both are IPv6
/// link-local.
pub open spec fn same_link(client: IpAddress, target: IpAddress) -> bool {
    match (client, target) {
        (IpAddress::V4(c), IpAddress::V4(t)) => v4_loopback(c.bits) || (v4_private(c.bits)
            && v4_private(t.bits) && v4_network24(c.bits) == v4_network24(t.bits)),
        (IpAddress::V4(c), IpAddress::V6(_)) => v4_loopback(c.bits),
        (IpAddress::V6(c), IpAddress::V6(t)) => v6_loopback(c.bits) || (v6_link_local(c.bits)
            && v6_link_local(t.bits)),
        (IpAddress::V6(c), IpAddress::V4(_)) => v6_loopback(c.bits),
    }
}

/// The address in the data is of use on its link only, and the client is
/// known and not on that link.
pub open spec fn unusable_address(data: RDataModel, config: RecordSuppressionConfig) -> bool {
    &&& config.enabled
    &&& config.client_ip is Some
    &&& match data {
        RDataModel::A(addr) => v4_link_local(addr.bits) && !same_link(
            config.client_ip->0,
            IpAddress::V4(addr),
        ),
        RDataModel::AAAA(addr) => (v6_link_local(addr.bits) || v6_unique_local(addr.bits))
            && !same_link(config.client_ip->0, IpAddress::V6(addr)),
        _ => false,
    }
}

/// The record is an SRV record whose target owns, among `addresses`, an
/// address the client cannot use.
pub open spec fn unusable_srv(
    record: RecordModel,
    addresses: Seq<RecordModel>,
    config: RecordSuppressionConfig,
) -> bool {
    &&& config.enabled
    &&& record.data is SRV
    &&& exists|i: int|
        0 <= i < addresses.len() && name_eq((#[trigger] addresses[i]).name, record.data->SRV_target)
            && unusable_address(addresses[i].data, config)
}

/// The record is left out of an answer that holds `all`.
pub open spec fn suppressed(
    record: RecordModel,
    all: Seq<RecordModel>,
    config: RecordSuppressionConfig,
) -> bool {
    unusable_address(record.data, config) || unusable_srv(record, all, config)
}

/// The records of `records`, in order, that are not left out of an answer
/// that holds `all`.
pub open spec fn usable_among(
    records: Seq<RecordModel>,
    all: Seq<RecordModel>,
    config: RecordSuppressionConfig,
) -> Seq<RecordModel>
    decreases records.len(),
{
    if records.len() == 0 {
        Seq::empty()
    } else if suppressed(records.last(), all, config) {
        usable_among(records.drop_last(), all, config)
    } else {
        usable_among(records.drop_last(), all, config).push(records.last())
    }
}

/// The answer without the records the client cannot use.
pub open spec fn usable(records: Seq<RecordModel>, config: RecordSuppressionConfig) -> Seq<
    RecordModel,
> {
    usable_among(records, records, config)
}

/// Without a known client, or with suppression off, nothing is left out.
pub proof fn lemma_usable_without_client(
    records: Seq<RecordModel>,
    all: Seq<RecordModel>,
    config: RecordSuppressionConfig,
)
    requires
        !config.enabled || config.client_ip is None,
    ensures
        usable_among(records, all, config) == records,
    decreases records.len(),
{
    if records.len() > 0 {
        lemma_usable_without_client(records.drop_last(), all, config);
        assert(records.drop_last().push(records.last()) =~= records);
    }
}

/// What is left of an answer is part of it: each record that stays was in
/// it and is not suppressed, and no more records stay than there were.
pub proof fn lemma_usable_is_part(
    records: Seq<RecordModel>,
    all: Seq<RecordModel>,
    config: RecordSuppressionConfig,
)
    ensures
        usable_among(records, all, config).len() <= records.len(),
        forall|i: int|
            0 <= i < usable_among(records, all, config).len() ==> records.contains(
                #[trigger] usable_among(records, all, config)[i],
            ) && !suppressed(usable_among(records, all, config)[i], all, config),
    decreases records.len(),
{
    if records.len() > 0 {
        let front = records.drop_last();
        lemma_usable_is_part(front, all, config);
        let kept = usable_among(records, all, config);
        assert forall|i: int| 0 <= i < kept.len() implies records.contains(#[trigger] kept[i])
            && !suppressed(kept[i], all, config) by {
            if i < usable_among(front, all, config).len() {
                let r = usable_among(front, all, config)[i];
                assert(front.contains(r));
                let j = choose|j: int| 0 <= j < front.len() && front[j] == r;
                assert(records[j] == r);
            } else {
                assert(records[records.len() - 1] == records.last());
            }
        }
    }
}

/// Whether the label is the given ASCII text, but for case.
fn label_matches(label: &Vec<u8>, text: &str) -> (r: bool)
    ensures
        r == same_label(label@, label_of(text@)),
{
    let wanted = ascii_label(text);
    label_eq(label, &wanted)
}

/// Whether the label at `at` is the given ASCII text, but for case.
fn label_at_is(name: &Name, at: usize, text: &str) -> (r: bool)
    ensures
        r == label_is(name@, at as int, text@),
{
    if at >= name.labels.len() {
        return false;
    }
    assert(name@.labels[at as int] == name.labels@[at as int]@);
    label_matches(&name.labels[at], text)
}

/// Whether the question asks which domains to browse.
pub fn is_domain_enumeration_query(name: &Name, record_type: RecordType) -> (r: bool)
    ensures
        r == (record_type == RecordType::PTR && enumeration_name(name@)),
{
    if record_type != RecordType::PTR {
        return false;
    }
    (label_at_is(name, 0, "b") || label_at_is(name, 0, "db") || label_at_is(name, 0, "lb"))
        && label_at_is(name, 1, "_dns-sd") && label_at_is(name, 2, "_udp")
}

/// Whether the name is the SRV name of a service the proxy does not offer.
pub fn is_negative_admin_srv_query(name: &Name) -> (r: bool)
    ensures
        r == admin_srv_name(name@),
{
    let udp = label_at_is(name, 1, "_udp");
    let tcp = label_at_is(name, 1, "_tcp");
    (label_at_is(name, 0, "_dns-update") && (udp || tcp)) || (label_at_is(
        name,
        0,
        "_dns-update-tls",
    ) && tcp) || (label_at_is(name, 0, "_dns-llq") && (udp || tcp)) || (label_at_is(
        name,
        0,
        "_dns-llq-tls",
    ) && tcp) || (label_at_is(name, 0, "_dns-push-tls") && tcp)
}

/// Whether the question asks for the SRV record of an administrative
/// service.
pub fn is_admin_srv_query(name: &Name, record_type: RecordType) -> (r: bool)
    ensures
        r == (record_type == RecordType::SRV && admin_srv_name(name@)),
{
    if record_type != RecordType::SRV {
        return false;
    }
    is_negative_admin_srv_query(name)
}

/// Whether the question asks about a delegation strictly below the apex.
pub fn is_delegation_query_below_apex(name: &Name, record_type: RecordType, zone_apex: &Name) -> (r:
    bool)
    ensures
        r == (delegation_type(record_type) && below_apex(name@, zone_apex@)),
{
    match record_type {
        RecordType::SOA | RecordType::NS | RecordType::DS => {
            name.num_labels() > zone_apex.num_labels() && zone_apex.zone_of(name)
        },
        _ => false,
    }
}

/// Whether the name is the apex.
pub fn is_zone_apex_query(name: &Name, zone_apex: &Name) -> (r: bool)
    ensures
        r == name_eq(name@, zone_apex@),
{
    name.same_as(zone_apex)
}

/// The fully qualified name `<host>.local.`.
fn local_host(host: &str) -> (r: Name)
    ensures
        r@ == (NameModel { labels: seq![label_of(host@), label_of("local"@)], fqdn: true }),
{
    let mut labels: Vec<Vec<u8>> = Vec::new();
    labels.push(ascii_label(host));
    labels.push(ascii_label("local"));
    let r = Name { labels, fqdn: true };
    assert(r@.labels =~= seq![label_of(host@), label_of("local"@)]);
    r
}

/// The SOA record of the zone, owned by `name`.
pub fn generate_soa_record(name: &Name) -> (r: Record)
    ensures
        r@ == soa_record(name@),
{
    Record::from_rdata(
        name.clone(),
        MAX_ADMIN_TTL,
        RData::SOA {
            mname: local_host("discovery-proxy"),
            rname: local_host("hostmaster"),
            serial: 0,
            refresh: 7200,
            retry: 3600,
            expire: 86400,
            minimum: 10,
        },
    )
}

/// The NS record of the zone, owned by `name`.
pub fn generate_ns_record(name: &Name) -> (r: Record)
    ensures
        r@ == ns_record(name@),
{
    Record::from_rdata(name.clone(), MAX_ADMIN_TTL, RData::NS(local_host("discovery-proxy")))
}

/// The one PTR record that answers a domain enumeration question: it names
/// the apex.
pub fn generate_domain_enumeration_records(name: &Name, zone_apex: &Name) -> (r: Vec<Record>)
    ensures
        models(r@) == seq![enumeration_record(name@, zone_apex@)],
{
    let mut r: Vec<Record> = Vec::new();
    r.push(Record::from_rdata(name.clone(), MAX_ADMIN_TTL, RData::PTR(zone_apex.clone())));
    assert(models(r@) =~= seq![enumeration_record(name@, zone_apex@)]);
    r
}

/// Whether the address is in `169.254.0.0/16`.
pub fn is_ipv4_link_local(addr: &Ipv4Address) -> (r: bool)
    ensures
        r == v4_link_local(addr.bits),
{
    addr.is_link_local()
}

/// Whether the address is in `fc00::/7`.
pub fn is_ipv6_ula(addr: &Ipv6Address) -> (r: bool)
    ensures
        r == v6_unique_local(addr.bits),
{
    addr.is_unique_local()
}

/// Whether the address is in `fe80::/10`.
pub fn is_ipv6_link_local(addr: &Ipv6Address) -> (r: bool)
    ensures
        r == v6_link_local(addr.bits),
{
    addr.is_link_local()
}

/// Whether the client is taken to be on the link of the target address.
pub fn is_same_link(client_ip: &IpAddress, target_addr: &IpAddress) -> (r: bool)
    ensures
        r == same_link(*client_ip, *target_addr),
{
    match (client_ip, target_addr) {
        (IpAddress::V4(c), IpAddress::V4(t)) => {
            c.is_loopback() || (c.is_private() && t.is_private() && c.shares_network24(t))
        },
        (IpAddress::V4(c), IpAddress::V6(_)) => c.is_loopback(),
        (IpAddress::V6(c), IpAddress::V6(t)) => {
            c.is_loopback() || (is_ipv6_link_local(c) && is_ipv6_link_local(t))
        },
        (IpAddress::V6(c), IpAddress::V4(_)) => c.is_loopback(),
    }
}

/// Whether the record holds an address that the client cannot use.
pub fn should_suppress_address_record(record: &Record, config: &RecordSuppressionConfig) -> (r:
    bool)
    ensures
        r == unusable_address(record@.data, *config),
{
    if !config.enabled {
        return false;
    }
    let client_ip = match &config.client_ip {
        Some(ip) => ip,
        None => {
            return false;
        },
    };
    match &record.data {
        RData::A(addr) => {
            is_ipv4_link_local(addr) && !is_same_link(client_ip, &IpAddress::V4(*addr))
        },
        RData::AAAA(addr) => {
            (is_ipv6_link_local(addr) || is_ipv6_ula(addr)) && !is_same_link(
                client_ip,
                &IpAddress::V6(*addr),
            )
        },
        _ => false,
    }
}

/// Whether the record is an SRV record whose target owns, among
/// `address_records`, an address that the client cannot use.
pub fn should_suppress_srv_record(
    record: &Record,
    address_records: &Vec<Record>,
    config: &RecordSuppressionConfig,
) -> (r: bool)
    ensures
        r == unusable_srv(record@, models(address_records@), *config),
{
    if !config.enabled {
        return false;
    }
    if let RData::SRV { target, .. } = &record.data {
        let ghost addresses = models(address_records@);
        let mut i: usize = 0;
        while i < address_records.len()
            invariant
                i <= address_records.len(),
                addresses == models(address_records@),
                record@.data is SRV,
                target@ == record@.data->SRV_target,
                forall|j: int|
                    0 <= j < i ==> !(name_eq((#[trigger] addresses[j]).name, target@)
                        && unusable_address(addresses[j].data, *config)),
            decreases address_records.len() - i,
        {
            let candidate = &address_records[i];
            assert(addresses[i as int] == candidate@);
            if candidate.name.same_as(target) && should_suppress_address_record(candidate, config) {
                return true;
            }
            i += 1;
        }
    }
    false
}

/// The answer without the records the client cannot use, in order.
pub fn filter_suppressed_records(records: Vec<Record>, config: &RecordSuppressionConfig) -> (out:
    Vec<Record>)
    ensures
        models(out@) == usable(models(records@), *config),
{
    let ghost all = models(records@);
    if !config.enabled {
        proof {
            lemma_usable_without_client(all, all, *config);
        }
        return records;
    }
    let mut out: Vec<Record> = Vec::new();
    let mut i: usize = 0;
    assert(all.take(0) =~= Seq::empty());
    assert(models(out@) =~= Seq::empty());
    while i < records.len()
        invariant
            i <= records.len(),
            all == models(records@),
            models(out@) == usable_among(all.take(i as int), all, *config),
        decreases records.len() - i,
    {
        let record = &records[i];
        assert(all[i as int] == record@);
        assert(all.take(i + 1).drop_last() == all.take(i as int));
        assert(all.take(i + 1).last() == record@);
        let drop = should_suppress_address_record(record, config) || should_suppress_srv_record(
            record,
            &records,
            config,
        );
        if !drop {
            let ghost before = models(out@);
            out.push(record.clone());
            assert(models(out@) =~= before.push(record@));
        }
        i += 1;
    }
    assert(all.take(records.len() as int) == all);
    out
}

} // verus!
