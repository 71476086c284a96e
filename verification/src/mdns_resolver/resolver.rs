//! The resolver: maps a question into `local.`, consults the cache, folds
//! what the link delivers, and hands back records in the discovery domain
//! with capped times to live.

use crate::config::Config;
use crate::dns_handler::admin_records::{ns_record, soa_record};
use crate::mdns_resolver::cache::{lookup, stored, Cache, EntryModel};
use crate::mdns_resolver::query::{
    address_fold, address_plan, instance_plan, plan_address_query,
    plan_instance_query, ptr_fold, query_a_aaaa, query_ns, query_ptr, query_soa, query_srv,
    query_txt, srv_fold, txt_fold, without_repeats, BrowsePoll, HostnamePoll, QueryError,
};
use crate::rr::{
    ascii_label, clone_labels, clone_records, ends_with_labels, label_eq, label_of,
    labels_eq_from, labels_model, lemma_same_labels_equivalence, models, name_of_utf8,
    names_in_record, result_models, same_label, type_of, utf8_of_name, Name, NameError, NameModel, RData,
    RDataModel, Record, RecordModel, RecordType,
};
use crate::time::Duration;
use vstd::prelude::*;

verus! {

/// Highest time to live, in seconds, of a record in a unicast answer.
pub const MAX_UNICAST_TTL: u32 = 10;

/// The label `local`.
pub open spec fn local_label() -> Seq<u8> {
    label_of("local"@)
}

/// The name is fully qualified and its last label is `local`.
pub open spec fn ends_in_local(name: NameModel) -> bool {
    &&& name.fqdn
    &&& name.labels.len() > 0
    &&& same_label(name.labels.last(), local_label())
}

/// The name lies in the domain: its last labels are those of the domain.
pub open spec fn in_domain(name: NameModel, domain: NameModel) -> bool {
    ends_with_labels(name.labels, domain.labels)
}

/// The name as the clients of the proxy see it: `local.` at its end gives
/// way to the discovery domain.
pub open spec fn to_discovery(name: NameModel, domain: NameModel) -> NameModel {
    if ends_in_local(name) {
        NameModel { labels: name.labels.drop_last() + domain.labels, fqdn: true }
    } else {
        name
    }
}

/// The name as the link sees it: the discovery domain at its end gives way
/// to `local.`.
pub open spec fn to_local(name: NameModel, domain: NameModel) -> NameModel {
    if in_domain(name, domain) {
        NameModel {
            labels: name.labels.take(name.labels.len() - domain.labels.len()) + seq![local_label()],
            fqdn: true,
        }
    } else {
        name
    }
}

/// The data with every name in it taken to the discovery domain.
pub open spec fn data_to_discovery(data: RDataModel, domain: NameModel) -> RDataModel {
    match data {
        RDataModel::PTR(target) => RDataModel::PTR(to_discovery(target, domain)),
        RDataModel::SRV { priority, weight, port, target } => RDataModel::SRV {
            priority,
            weight,
            port,
            target: to_discovery(target, domain),
        },
        RDataModel::NS(target) => RDataModel::NS(to_discovery(target, domain)),
        RDataModel::SOA { mname, rname, serial, refresh, retry, expire, minimum } => RDataModel::SOA {
            mname: to_discovery(mname, domain),
            rname: to_discovery(rname, domain),
            serial,
            refresh,
            retry,
            expire,
            minimum,
        },
        other => other,
    }
}

/// The record with its owner and every name in its data taken to the
/// discovery domain; the time to live stays.
pub open spec fn record_to_discovery(record: RecordModel, domain: NameModel) -> RecordModel {
    RecordModel {
        name: to_discovery(record.name, domain),
        ttl: record.ttl,
        data: data_to_discovery(record.data, domain),
    }
}

/// Every record of the list taken to the discovery domain.
pub open spec fn records_to_discovery(records: Seq<RecordModel>, domain: NameModel) -> Seq<
    RecordModel,
> {
    records.map_values(|r: RecordModel| record_to_discovery(r, domain))
}

/// The record with its time to live held to the ceiling.
pub open spec fn capped(record: RecordModel) -> RecordModel {
    RecordModel {
        ttl: if record.ttl > MAX_UNICAST_TTL {
            MAX_UNICAST_TTL
        } else {
            record.ttl
        },
        ..record
    }
}

/// Every record of the list with its time to live held to the ceiling.
pub open spec fn all_capped(records: Seq<RecordModel>) -> Seq<RecordModel> {
    records.map_values(|r: RecordModel| capped(r))
}

/// No record of the list lives longer than the ceiling of ten seconds.
pub open spec fn all_within_ceiling(records: Seq<RecordModel>) -> bool {
    forall|i: int| 0 <= i < records.len() ==> (#[trigger] records[i]).ttl <= MAX_UNICAST_TTL
}

/// Taking a name that ends in `local.` to the discovery domain and back
/// gives a name equal to it, and the very same name where its last label is
/// written `local` in lower case.
pub proof fn lemma_to_local_inverts_to_discovery(name: NameModel, domain: NameModel)
    requires
        ends_in_local(name),
    ensures
        crate::rr::name_eq(to_local(to_discovery(name, domain), domain), name),
        name.labels.last() == local_label() ==> to_local(to_discovery(name, domain), domain)
            == name,
{
    let front = name.labels.drop_last();
    let there = to_discovery(name, domain);
    assert(there.labels.skip(there.labels.len() - domain.labels.len()) =~= domain.labels);
    lemma_same_labels_equivalence(domain.labels, domain.labels, domain.labels);
    assert(in_domain(there, domain));
    let back = to_local(there, domain);
    assert(there.labels.take(there.labels.len() - domain.labels.len()) =~= front);
    assert(back.labels =~= front + seq![local_label()]);
    assert forall|i: int| 0 <= i < back.labels.len() implies same_label(
        #[trigger] back.labels[i],
        name.labels[i],
    ) by {
        if i < front.len() {
            crate::rr::lemma_same_label_equivalence(name.labels[i], name.labels[i], name.labels[i]);
        } else {
            crate::rr::lemma_same_label_equivalence(
                name.labels.last(),
                local_label(),
                local_label(),
            );
        }
    }
    if name.labels.last() == local_label() {
        assert(back.labels =~= name.labels);
    }
}

/// In a record taken to a discovery domain that has labels and does not
/// itself end in `local`, no name ends in `local.`, and every name that did
/// now lies in the discovery domain.
pub proof fn lemma_no_local_name_after_rewrite(record: RecordModel, domain: NameModel, i: int)
    requires
        domain.labels.len() > 0,
        !same_label(domain.labels.last(), local_label()),
        0 <= i < names_in_record(record).len(),
    ensures
        names_in_record(record_to_discovery(record, domain)).len() == names_in_record(
            record,
        ).len(),
        names_in_record(record_to_discovery(record, domain))[i] == to_discovery(
            names_in_record(record)[i],
            domain,
        ),
        !ends_in_local(names_in_record(record_to_discovery(record, domain))[i]),
        ends_in_local(names_in_record(record)[i]) ==> in_domain(
            names_in_record(record_to_discovery(record, domain))[i],
            domain,
        ),
{
    let before = names_in_record(record)[i];
    let after = to_discovery(before, domain);
    if ends_in_local(before) {
        assert(after.labels.last() == domain.labels.last());
        assert(after.labels.skip(after.labels.len() - domain.labels.len()) =~= domain.labels);
        lemma_same_labels_equivalence(domain.labels, domain.labels, domain.labels);
    }
}

/// The name as the clients of the proxy see it.
pub fn rewrite_name_to_discovery(name: &Name, domain: &Name) -> (r: Name)
    ensures
        r@ == to_discovery(name@, domain@),
{
    let n: usize = name.labels.len();
    if !name.fqdn || n == 0 {
        return name.clone();
    }
    let local = ascii_label("local");
    assert(name@.labels.last() == name.labels@[n - 1]@);
    if !label_eq(&name.labels[n - 1], &local) {
        return name.clone();
    }
    let mut labels = clone_labels(&name.labels, 0, n - 1);
    let mut tail = clone_labels(&domain.labels, 0, domain.labels.len());
    let ghost front = labels@;
    let ghost back = tail@;
    labels.append(&mut tail);
    assert(labels_model(labels@) =~= labels_model(front) + labels_model(back));
    assert(labels_model(front) =~= name@.labels.drop_last());
    assert(labels_model(back) =~= domain@.labels);
    Name { labels, fqdn: true }
}

/// The name as the link sees it.
pub fn map_query_to_local(name: &Name, domain: &Name) -> (r: Name)
    ensures
        r@ == to_local(name@, domain@),
{
    let n: usize = name.labels.len();
    let d: usize = domain.labels.len();
    if d > n || !labels_eq_from(&name.labels, n - d, &domain.labels) {
        return name.clone();
    }
    let mut labels = clone_labels(&name.labels, 0, n - d);
    let ghost front = labels@;
    let local = ascii_label("local");
    labels.push(local);
    assert(labels_model(labels@) =~= labels_model(front) + seq![local_label()]);
    assert(labels_model(front) =~= name@.labels.take(n - d));
    Name { labels, fqdn: true }
}

/// The record with its owner and the names in its data taken to the
/// discovery domain.
pub fn rewrite_record_to_discovery(record: &Record, domain: &Name) -> (r: Record)
    ensures
        r@ == record_to_discovery(record@, domain@),
{
    let name = rewrite_name_to_discovery(&record.name, domain);
    let data = match &record.data {
        RData::PTR(target) => RData::PTR(rewrite_name_to_discovery(target, domain)),
        RData::SRV { priority, weight, port, target } => RData::SRV {
            priority: *priority,
            weight: *weight,
            port: *port,
            target: rewrite_name_to_discovery(target, domain),
        },
        RData::NS(target) => RData::NS(rewrite_name_to_discovery(target, domain)),
        RData::SOA { mname, rname, serial, refresh, retry, expire, minimum } => RData::SOA {
            mname: rewrite_name_to_discovery(mname, domain),
            rname: rewrite_name_to_discovery(rname, domain),
            serial: *serial,
            refresh: *refresh,
            retry: *retry,
            expire: *expire,
            minimum: *minimum,
        },
        other => other.clone(),
    };
    Record { name, ttl: record.ttl, data }
}

/// Every record of the list taken to the discovery domain, in order.
pub fn rewrite_records_to_discovery_domain(records: Vec<Record>, domain: &Name) -> (out: Vec<
    Record,
>)
    ensures
        models(out@) == records_to_discovery(models(records@), domain@),
{
    let mut out: Vec<Record> = Vec::new();
    let mut i: usize = 0;
    while i < records.len()
        invariant
            i <= records.len(),
            out@.len() == i,
            forall|k: int| 0 <= k < i ==> (#[trigger] out@[k])@ == record_to_discovery(
                records@[k]@,
                domain@,
            ),
        decreases records.len() - i,
    {
        out.push(rewrite_record_to_discovery(&records[i], domain));
        i += 1;
    }
    assert(models(out@) =~= records_to_discovery(models(records@), domain@));
    out
}

/// Holds the time to live of every record to the ceiling.
pub fn cap_ttls(records: &mut Vec<Record>)
    ensures
        models(final(records)@) == all_capped(models(old(records)@)),
{
    let mut i: usize = 0;
    while i < records.len()
        invariant
            i <= records.len(),
            records@.len() == old(records)@.len(),
            forall|k: int| 0 <= k < i ==> (#[trigger] records@[k])@ == capped(old(records)@[k]@),
            forall|k: int| i <= k < records@.len() ==> (#[trigger] records@[k])@ == old(
                records,
            )@[k]@,
        decreases records.len() - i,
    {
        if records[i].ttl > MAX_UNICAST_TTL {
            let mut record = records[i].clone();
            record.set_ttl(MAX_UNICAST_TTL);
            records.set(i, record);
        }
        i += 1;
    }
    assert(models(records@) =~= all_capped(models(old(records)@)));
}

/// The records of the list, in order, that are of the given type.
pub open spec fn of_type(records: Seq<RecordModel>, record_type: RecordType) -> Seq<RecordModel>
    decreases records.len(),
{
    if records.len() == 0 {
        Seq::empty()
    } else if type_of(records.last().data) == record_type {
        of_type(records.drop_last(), record_type).push(records.last())
    } else {
        of_type(records.drop_last(), record_type)
    }
}

/// The question is for addresses.
pub open spec fn for_addresses(record_type: RecordType) -> bool {
    record_type == RecordType::A || record_type == RecordType::AAAA
}

/// What the link gave, as the clients see it: in the discovery domain and
/// with capped times to live.
pub open spec fn presented(found: Seq<RecordModel>, domain: NameModel) -> Seq<RecordModel> {
    all_capped(records_to_discovery(found, domain))
}

/// The records that answer the question: for an address question those of
/// the type asked for, else all.
pub open spec fn served(records: Seq<RecordModel>, record_type: RecordType) -> Seq<RecordModel> {
    if for_addresses(record_type) {
        of_type(records, record_type)
    } else {
        records
    }
}

/// The entries after `records` were stored under `key`, or the entries as
/// they were where there is nothing to store.
pub open spec fn stored_if_any(
    entries: Map<(Seq<char>, RecordType), EntryModel>,
    key: (Seq<char>, RecordType),
    records: Seq<RecordModel>,
    now: nat,
    ttl: nat,
) -> Map<(Seq<char>, RecordType), EntryModel> {
    if records.len() > 0 {
        stored(entries, key, records, now, ttl)
    } else {
        entries
    }
}

/// The cache after a lookup for `query_name` and `record_type` gave
/// `records`: an address lookup stores the records of each family under
/// their own type, any other stores the records under the type asked for;
/// an empty list is not stored.
pub open spec fn cached_after(
    entries: Map<(Seq<char>, RecordType), EntryModel>,
    query_name: Seq<char>,
    record_type: RecordType,
    records: Seq<RecordModel>,
    now: nat,
    ttl: nat,
) -> Map<(Seq<char>, RecordType), EntryModel> {
    if for_addresses(record_type) {
        stored_if_any(
            stored_if_any(
                entries,
                (query_name, RecordType::A),
                of_type(records, RecordType::A),
                now,
                ttl,
            ),
            (query_name, RecordType::AAAA),
            of_type(records, RecordType::AAAA),
            now,
            ttl,
        )
    } else {
        stored_if_any(entries, (query_name, record_type), records, now, ttl)
    }
}

/// What the link delivered in answer to what it was asked.
pub struct LinkEvents {
    /// The run of events of the browse, where one was started.
    pub browse: Vec<BrowsePoll>,
    /// The run of events of the resolution of a host name, where one was
    /// started.
    pub hostname: Vec<HostnamePoll>,
}

/// What a lookup for `name`, a name of the link, and `record_type` reads
/// from the events: the addresses without repeats for an address question,
/// the folded browse for a PTR, SRV or TXT question, the record of the zone
/// for an SOA or NS question, and nothing for any other type.
pub open spec fn link_result(name: NameModel, record_type: RecordType, link: LinkEvents) -> Result<
    Seq<RecordModel>,
    QueryError,
> {
    match record_type {
        RecordType::A | RecordType::AAAA => match address_plan(name) {
            Err(e) => Err(e),
            Ok(None) => Ok(Seq::empty()),
            Ok(Some(hostname)) => match address_fold(hostname, Seq::empty(), link.hostname@) {
                Err(e) => Err(e),
                Ok(found) => Ok(without_repeats(found)),
            },
        },
        RecordType::PTR => ptr_fold(name, Seq::empty(), link.browse@),
        RecordType::SRV => match instance_plan(name) {
            Err(e) => Err(e),
            Ok(None) => Ok(Seq::empty()),
            Ok(Some(plan)) => srv_fold(name, plan.0, Seq::empty(), link.browse@),
        },
        RecordType::TXT => match instance_plan(name) {
            Err(e) => Err(e),
            Ok(None) => Ok(Seq::empty()),
            Ok(Some(plan)) => Ok(txt_fold(name, plan.0, Seq::empty(), link.browse@)),
        },
        RecordType::SOA => Ok(seq![soa_record(name)]),
        RecordType::NS => Ok(seq![ns_record(name)]),
        _ => Ok(Seq::empty()),
    }
}

/// What is to be asked of the link for a question.
#[derive(Debug, PartialEq, Eq)]
pub enum LinkRequest {
    /// Resolve the host name and fold the events with `address_step`.
    ResolveHostname(String),
    /// Browse the service type and fold the events with `ptr_step`.
    Browse(String),
    /// Browse the service type and fold the events with `srv_step` or
    /// `txt_step`, which look for the instance `service_name`.
    BrowseInstance { service_name: String, service_type: String },
    /// Nothing is to be asked: these are the records.
    Answered(Vec<Record>),
    /// Nothing is to be asked: the proxy does not resolve the type, and
    /// there are no records.
    Unsupported,
}

/// What is to be asked of the link, as the contracts see it.
pub enum RequestModel {
    ResolveHostname(Seq<char>),
    Browse(Seq<char>),
    BrowseInstance { service_name: Seq<char>, service_type: Seq<char> },
    Answered(Seq<RecordModel>),
    Unsupported,
}

impl View for LinkRequest {
    type V = RequestModel;

    open spec fn view(&self) -> RequestModel {
        match *self {
            LinkRequest::ResolveHostname(hostname) => RequestModel::ResolveHostname(hostname@),
            LinkRequest::Browse(service_type) => RequestModel::Browse(service_type@),
            LinkRequest::BrowseInstance { service_name, service_type } => {
                RequestModel::BrowseInstance {
                    service_name: service_name@,
                    service_type: service_type@,
                }
            },
            LinkRequest::Answered(records) => RequestModel::Answered(models(records@)),
            LinkRequest::Unsupported => RequestModel::Unsupported,
        }
    }
}

/// What is to be asked of the link for `name`, a name of the link, and
/// `record_type`: the resolution of a host name of `local` for an address
/// question, a browse of the service type for a PTR question, a browse of
/// the service type of the instance for an SRV or TXT question. An address
/// question for another host and an SRV or TXT question for a name of fewer
/// than four labels are answered with nothing, an SOA or NS question with the
/// record of the zone. Other types are not resolved.
pub open spec fn request_for(name: NameModel, record_type: RecordType) -> Result<
    RequestModel,
    QueryError,
> {
    match record_type {
        RecordType::A | RecordType::AAAA => match address_plan(name) {
            Err(e) => Err(e),
            Ok(None) => Ok(RequestModel::Answered(Seq::empty())),
            Ok(Some(hostname)) => Ok(RequestModel::ResolveHostname(hostname)),
        },
        RecordType::PTR => match utf8_of_name(name.labels, name.fqdn) {
            None => Err(QueryError::InvalidName(NameError::Malformed)),
            Some(service_type) => Ok(RequestModel::Browse(service_type)),
        },
        RecordType::SRV | RecordType::TXT => match instance_plan(name) {
            Err(e) => Err(e),
            Ok(None) => Ok(RequestModel::Answered(Seq::empty())),
            Ok(Some(plan)) => Ok(
                RequestModel::BrowseInstance { service_name: plan.0, service_type: plan.1 },
            ),
        },
        RecordType::SOA => Ok(RequestModel::Answered(seq![soa_record(name)])),
        RecordType::NS => Ok(RequestModel::Answered(seq![ns_record(name)])),
        _ => Ok(RequestModel::Unsupported),
    }
}

/// What is to be asked of the link for `name`, a name of the link, and
/// `record_type`; for a question that needs nothing of the link, the
/// records that answer it.
pub fn link_request(name: &Name, record_type: RecordType) -> (r: Result<LinkRequest, QueryError>)
    ensures
        match request_for(name@, record_type) {
            Ok(request) => r matches Ok(got) && got@ == request,
            Err(e) => r matches Err(got) && got == e,
        },
{
    match record_type {
        RecordType::A | RecordType::AAAA => match plan_address_query(name) {
            Ok(Some(hostname)) => Ok(LinkRequest::ResolveHostname(hostname)),
            Ok(None) => {
                let records: Vec<Record> = Vec::new();
                assert(models(records@) =~= Seq::empty());
                Ok(LinkRequest::Answered(records))
            },
            Err(e) => Err(e),
        },
        RecordType::PTR => match name.to_utf8() {
            Some(service_type) => Ok(LinkRequest::Browse(service_type)),
            None => Err(QueryError::InvalidName(NameError::Malformed)),
        },
        RecordType::SRV | RecordType::TXT => match plan_instance_query(name) {
            Ok(Some(plan)) => Ok(
                LinkRequest::BrowseInstance { service_name: plan.0, service_type: plan.1 },
            ),
            Ok(None) => {
                let records: Vec<Record> = Vec::new();
                assert(models(records@) =~= Seq::empty());
                Ok(LinkRequest::Answered(records))
            },
            Err(e) => Err(e),
        },
        RecordType::SOA => Ok(LinkRequest::Answered(query_soa(name))),
        RecordType::NS => Ok(LinkRequest::Answered(query_ns(name))),
        _ => Ok(LinkRequest::Unsupported),
    }
}

/// The records that a lookup for `name`, a name of the link, and
/// `record_type` reads from the events of the link.
pub fn lookup_on_link(name: &Name, record_type: RecordType, link: &LinkEvents) -> (r: Result<
    Vec<Record>,
    QueryError,
>)
    ensures
        result_models(r) == link_result(name@, record_type, *link),
{
    match record_type {
        RecordType::A | RecordType::AAAA => {
            let r = query_a_aaaa(name, &link.hostname);
            proof {
                if r is Ok && r->Ok_0@.len() == 0 {
                    assert(models(r->Ok_0@) =~= Seq::empty());
                }
            }
            r
        },
        RecordType::PTR => query_ptr(name, &link.browse),
        RecordType::SRV => {
            let r = query_srv(name, &link.browse);
            proof {
                if r is Ok && r->Ok_0@.len() == 0 {
                    assert(models(r->Ok_0@) =~= Seq::empty());
                }
            }
            r
        },
        RecordType::TXT => {
            let r = query_txt(name, &link.browse);
            proof {
                if r is Ok && r->Ok_0@.len() == 0 {
                    assert(models(r->Ok_0@) =~= Seq::empty());
                }
            }
            r
        },
        RecordType::SOA => Ok(query_soa(name)),
        RecordType::NS => Ok(query_ns(name)),
        _ => {
            let records: Vec<Record> = Vec::new();
            assert(models(records@) =~= Seq::empty());
            Ok(records)
        },
    }
}

/// The records of the list, in order, that are of the given type.
pub fn records_of_type(records: &Vec<Record>, record_type: RecordType) -> (out: Vec<Record>)
    ensures
        models(out@) == of_type(models(records@), record_type),
{
    let ghost all = models(records@);
    let mut out: Vec<Record> = Vec::new();
    let mut i: usize = 0;
    assert(all.take(0) =~= Seq::empty());
    assert(models(out@) =~= Seq::empty());
    while i < records.len()
        invariant
            i <= records.len(),
            all == models(records@),
            models(out@) == of_type(all.take(i as int), record_type),
        decreases records.len() - i,
    {
        assert(all[i as int] == records@[i as int]@);
        assert(all.take(i + 1).drop_last() == all.take(i as int));
        if records[i].record_type() == record_type {
            let ghost before = models(out@);
            out.push(records[i].clone());
            assert(models(out@) =~= before.push(all[i as int]));
        }
        i += 1;
    }
    assert(all.take(records.len() as int) == all);
    out
}

/// Every record of `of_type` is of the type, and stands in the list.
pub proof fn lemma_of_type_holds_the_type(records: Seq<RecordModel>, record_type: RecordType)
    ensures
        of_type(records, record_type).len() <= records.len(),
        forall|i: int|
            0 <= i < of_type(records, record_type).len() ==> type_of(
                (#[trigger] of_type(records, record_type)[i]).data,
            ) == record_type && records.contains(of_type(records, record_type)[i]),
    decreases records.len(),
{
    if records.len() > 0 {
        let front = records.drop_last();
        lemma_of_type_holds_the_type(front, record_type);
        let picked = of_type(records, record_type);
        assert forall|i: int| 0 <= i < picked.len() implies type_of((#[trigger] picked[i]).data)
            == record_type && records.contains(picked[i]) by {
            if i < of_type(front, record_type).len() {
                let r = of_type(front, record_type)[i];
                assert(front.contains(r));
                let j = choose|j: int| 0 <= j < front.len() && front[j] == r;
                assert(records[j] == r);
            } else {
                assert(records[records.len() - 1] == picked[i]);
            }
        }
    }
}

/// Every record of the list is of the given type.
pub open spec fn all_of_type(records: Seq<RecordModel>, record_type: RecordType) -> bool {
    forall|i: int| 0 <= i < records.len() ==> type_of((#[trigger] records[i]).data) == record_type
}

/// The records that answer a question for addresses are all of the type
/// asked for.
pub proof fn lemma_served_addresses_match_the_question(
    records: Seq<RecordModel>,
    record_type: RecordType,
)
    requires
        for_addresses(record_type),
    ensures
        all_of_type(served(records, record_type), record_type),
{
    lemma_of_type_holds_the_type(records, record_type);
}

/// What a valid entry of the cache gives as the answer: its records with
/// their times to live held to the ceiling, and of those a question for
/// addresses gets the records of its type.
pub open spec fn from_cache(cached: Seq<RecordModel>, record_type: RecordType) -> Seq<RecordModel> {
    served(all_capped(cached), record_type)
}

/// The records that answer a question, capped before they are served, live
/// no longer than the ceiling.
pub proof fn lemma_served_is_within_ceiling(records: Seq<RecordModel>, record_type: RecordType)
    ensures
        all_within_ceiling(served(all_capped(records), record_type)),
{
    let capped_all = all_capped(records);
    assert forall|i: int| 0 <= i < capped_all.len() implies (#[trigger] capped_all[i]).ttl
        <= MAX_UNICAST_TTL by {
        assert(capped_all[i] == capped(records[i]));
    }
    lemma_of_type_holds_the_type(capped_all, record_type);
    let out = served(capped_all, record_type);
    assert forall|i: int| 0 <= i < out.len() implies (#[trigger] out[i]).ttl
        <= MAX_UNICAST_TTL by {
        if for_addresses(record_type) {
            assert(capped_all.contains(out[i]));
            let j = choose|j: int| 0 <= j < capped_all.len() && capped_all[j] == out[i];
            assert(capped_all[j].ttl <= MAX_UNICAST_TTL);
        }
    }
}

/// The answer to a question at `now` and the cache it leaves. A name
/// without a text is refused. A valid entry under the text of the name and
/// the type gives the answer, and the cache stays. Else the answer is read
/// from the link for the name taken into `local.`: a failure is handed on
/// and the cache stays; records are presented, stored, and those that
/// answer the question handed back.
pub open spec fn answer_at(
    before: Map<(Seq<char>, RecordType), EntryModel>,
    ttl: nat,
    domain: NameModel,
    name: NameModel,
    record_type: RecordType,
    link: LinkEvents,
    now: nat,
) -> (Result<Seq<RecordModel>, QueryError>, Map<(Seq<char>, RecordType), EntryModel>) {
    match utf8_of_name(name.labels, name.fqdn) {
        None => (Err(QueryError::InvalidName(NameError::Malformed)), before),
        Some(query_name) => match lookup(before, (query_name, record_type), now, ttl) {
            Some(cached) => (Ok(from_cache(cached, record_type)), before),
            None => match link_result(to_local(name, domain), record_type, link) {
                Err(e) => (Err(e), before),
                Ok(found) => (
                    Ok(served(presented(found, domain), record_type)),
                    cached_after(
                        before,
                        query_name,
                        record_type,
                        presented(found, domain),
                        now,
                        ttl,
                    ),
                ),
            },
        },
    }
}

/// How the answer to a question starts.
#[derive(Debug, PartialEq, Eq)]
pub enum QueryStart {
    /// The cache holds the answer.
    Cached(Vec<Record>),
    /// The link is to be asked for `local_name`; what it gives is to be
    /// stored under `query_name`.
    Ask { query_name: String, local_name: Name },
}

/// How the answer to a question starts at `now`.
pub open spec fn starts(
    entries: Map<(Seq<char>, RecordType), EntryModel>,
    ttl: nat,
    domain: NameModel,
    name: NameModel,
    record_type: RecordType,
    now: nat,
    start: Result<QueryStart, QueryError>,
) -> bool {
    match utf8_of_name(name.labels, name.fqdn) {
        None => start matches Err(e) && e == QueryError::InvalidName(NameError::Malformed),
        Some(text) => match lookup(entries, (text, record_type), now, ttl) {
            Some(cached) => start matches Ok(QueryStart::Cached(records)) && models(records@)
                == from_cache(cached, record_type),
            None => start matches Ok(QueryStart::Ask { query_name, local_name }) && query_name@
                == text && local_name@ == to_local(name, domain),
        },
    }
}

/// The resolver: the cache, the configuration, and the discovery domain as
/// a name.
pub struct MdnsResolver {
    pub cache: Cache,
    pub config: Config,
    pub domain: Name,
}

impl MdnsResolver {
    /// A resolver with an empty cache. Fails where the configured discovery
    /// domain is no name.
    pub fn new(config: Config) -> (r: Result<MdnsResolver, QueryError>)
        ensures
            match r {
                Ok(resolver) => name_of_utf8(config.server.discovery_domain@) == Some(
                    (resolver.domain@.labels, resolver.domain@.fqdn),
                ) && resolver.cache@ == Map::<(Seq<char>, RecordType), EntryModel>::empty()
                    && resolver.cache.ttl_nanos() == config.cache.ttl_seconds * 1_000_000_000
                    && resolver.config == config,
                Err(e) => e == QueryError::InvalidName(NameError::Malformed) && name_of_utf8(
                    config.server.discovery_domain@,
                ) is None,
            },
    {
        let domain = match Name::from_utf8(config.discovery_domain()) {
            Ok(domain) => domain,
            Err(e) => {
                return Err(QueryError::InvalidName(e));
            },
        };
        let cache = Cache::new(config.cache_ttl());
        Ok(MdnsResolver { cache, config, domain })
    }

    /// Finishes a lookup: takes what the link gave to the discovery domain,
    /// caps the times to live, stores the result under the text of the
    /// question name, and hands back the records that answer the question.
    pub fn complete_query_at(
        &mut self,
        query_name: &str,
        record_type: RecordType,
        mdns_records: Vec<Record>,
        now: Duration,
    ) -> (r: Vec<Record>)
        ensures
            models(r@) == served(presented(models(mdns_records@), old(self).domain@), record_type),
            all_within_ceiling(models(r@)),
            final(self).cache@ == cached_after(
                old(self).cache@,
                query_name@,
                record_type,
                presented(models(mdns_records@), old(self).domain@),
                now.nanos as nat,
                old(self).cache.ttl_nanos(),
            ),
            final(self).cache.ttl_nanos() == old(self).cache.ttl_nanos(),
            final(self).domain@ == old(self).domain@,
            final(self).config == old(self).config,
    {
        proof {
            lemma_served_is_within_ceiling(
                records_to_discovery(models(mdns_records@), self.domain@),
                record_type,
            );
        }
        let mut records = rewrite_records_to_discovery_domain(mdns_records, &self.domain);
        cap_ttls(&mut records);
        match record_type {
            RecordType::A | RecordType::AAAA => {
                let a_records = records_of_type(&records, RecordType::A);
                let aaaa_records = records_of_type(&records, RecordType::AAAA);
                if !a_records.is_empty() {
                    self.cache.insert_at(query_name, RecordType::A, clone_records(&a_records), now);
                }
                if !aaaa_records.is_empty() {
                    self.cache.insert_at(
                        query_name,
                        RecordType::AAAA,
                        clone_records(&aaaa_records),
                        now,
                    );
                }
                match record_type {
                    RecordType::A => a_records,
                    _ => aaaa_records,
                }
            },
            _ => {
                if !records.is_empty() {
                    self.cache.insert_at(query_name, record_type, clone_records(&records), now);
                }
                records
            },
        }
    }

    /// Finishes a lookup at the present time.
    pub fn complete_query(&mut self, query_name: &str, record_type: RecordType, mdns_records: Vec<
        Record,
    >) -> (r: Vec<Record>)
        ensures
            models(r@) == served(presented(models(mdns_records@), old(self).domain@), record_type),
            all_within_ceiling(models(r@)),
            exists|now: nat|
                final(self).cache@ == #[trigger] cached_after(
                    old(self).cache@,
                    query_name@,
                    record_type,
                    presented(models(mdns_records@), old(self).domain@),
                    now,
                    old(self).cache.ttl_nanos(),
                ),
            final(self).cache.ttl_nanos() == old(self).cache.ttl_nanos(),
            final(self).domain@ == old(self).domain@,
            final(self).config == old(self).config,
    {
        let now = self.cache.now();
        self.complete_query_at(query_name, record_type, mdns_records, now)
    }

    /// Starts the answer to a question at `now`: a valid entry of the cache
    /// under the text of the name and the type gives the answer, with the
    /// times to live held to the ceiling, and of it a question for addresses
    /// gets the records of its type; else the link is to be asked for the
    /// name taken into `local.`.
    pub fn begin_query_at(&self, name: &Name, record_type: RecordType, now: Duration) -> (start:
        Result<QueryStart, QueryError>)
        ensures
            starts(
                self.cache@,
                self.cache.ttl_nanos(),
                self.domain@,
                name@,
                record_type,
                now.nanos as nat,
                start,
            ),
    {
        let query_name = match name.to_utf8() {
            Some(text) => text,
            None => {
                return Err(QueryError::InvalidName(NameError::Malformed));
            },
        };
        if let Some(cached) = self.cache.get_at(query_name.as_str(), record_type, now) {
            let mut cached = cached;
            cap_ttls(&mut cached);
            return match record_type {
                RecordType::A | RecordType::AAAA => Ok(
                    QueryStart::Cached(records_of_type(&cached, record_type)),
                ),
                _ => Ok(QueryStart::Cached(cached)),
            };
        }
        let local_name = map_query_to_local(name, &self.domain);
        Ok(QueryStart::Ask { query_name, local_name })
    }

    /// Starts the answer to a question at the present time; see
    /// `begin_query_at`.
    pub fn begin_query(&self, name: &Name, record_type: RecordType) -> (start: Result<
        QueryStart,
        QueryError,
    >)
        ensures
            exists|now: nat| #[trigger]
                starts(
                    self.cache@,
                    self.cache.ttl_nanos(),
                    self.domain@,
                    name@,
                    record_type,
                    now,
                    start,
                ),
    {
        let now = self.cache.now();
        self.begin_query_at(name, record_type, now)
    }

    /// Answers a question at `now` from the cache or, where the cache holds
    /// nothing valid, from the events that the link delivered for the
    /// question taken into `local.`. The answer to a question for addresses
    /// holds records of the type asked for only, and no record of an answer
    /// lives longer than the ceiling.
    pub fn query_at(&mut self, name: &Name, record_type: RecordType, link: &LinkEvents, now: Duration) -> (r:
        Result<Vec<Record>, QueryError>)
        ensures
            final(self).cache.ttl_nanos() == old(self).cache.ttl_nanos(),
            final(self).domain@ == old(self).domain@,
            final(self).config == old(self).config,
            (result_models(r), final(self).cache@) == answer_at(
                old(self).cache@,
                old(self).cache.ttl_nanos(),
                old(self).domain@,
                name@,
                record_type,
                *link,
                now.nanos as nat,
            ),
            for_addresses(record_type) ==> (r matches Ok(records) ==> all_of_type(
                models(records@),
                record_type,
            )),
            r matches Ok(records) ==> all_within_ceiling(models(records@)),
    {
        let (query_name, local_name) = match self.begin_query_at(name, record_type, now) {
            Ok(QueryStart::Cached(records)) => {
                proof {
                    let text = utf8_of_name(name@.labels, name@.fqdn)->0;
                    let cached = lookup(
                        self.cache@,
                        (text, record_type),
                        now.nanos as nat,
                        self.cache.ttl_nanos(),
                    )->0;
                    lemma_served_is_within_ceiling(cached, record_type);
                    if for_addresses(record_type) {
                        lemma_served_addresses_match_the_question(
                            all_capped(cached),
                            record_type,
                        );
                    }
                }
                return Ok(records);
            },
            Ok(QueryStart::Ask { query_name, local_name }) => (query_name, local_name),
            Err(e) => {
                return Err(e);
            },
        };
        let mdns_records = match lookup_on_link(&local_name, record_type, link) {
            Ok(records) => records,
            Err(e) => {
                return Err(e);
            },
        };
        let ghost found = models(mdns_records@);
        let records = self.complete_query_at(query_name.as_str(), record_type, mdns_records, now);
        proof {
            if for_addresses(record_type) {
                lemma_served_addresses_match_the_question(
                    presented(found, old(self).domain@),
                    record_type,
                );
            }
        }
        Ok(records)
    }

    /// Answers a question at the present time; see `query_at`.
    pub fn query(&mut self, name: &Name, record_type: RecordType, link: &LinkEvents) -> (r: Result<
        Vec<Record>,
        QueryError,
    >)
        ensures
            final(self).cache.ttl_nanos() == old(self).cache.ttl_nanos(),
            final(self).domain@ == old(self).domain@,
            final(self).config == old(self).config,
            exists|now: nat|
                (result_models(r), final(self).cache@) == #[trigger] answer_at(
                    old(self).cache@,
                    old(self).cache.ttl_nanos(),
                    old(self).domain@,
                    name@,
                    record_type,
                    *link,
                    now,
                ),
            for_addresses(record_type) ==> (r matches Ok(records) ==> all_of_type(
                models(records@),
                record_type,
            )),
            r matches Ok(records) ==> all_within_ceiling(models(records@)),
    {
        let now = self.cache.now();
        self.query_at(name, record_type, link, now)
    }
}

} // verus!
