//! The handler: for each request, the decision whether to refuse it, to
//! answer it from the zone's own records or to resolve it on the link, and
//! the shape of the response.

use crate::addr::IpAddress;
use crate::dns_handler::admin_records::{
    admin_srv_name, below_apex, delegation_type, enumeration_name, enumeration_record,
    filter_suppressed_records, generate_domain_enumeration_records, generate_ns_record,
    generate_soa_record, is_admin_srv_query, is_delegation_query_below_apex,
    is_domain_enumeration_query, is_zone_apex_query, lemma_usable_is_part, ns_record, soa_record,
    usable, RecordSuppressionConfig,
};
use crate::dns_handler::utils::{
    build_response_from_records, in_scope, parse_dns_request, should_handle_domain, Request,
    ResponseCode,
};
use crate::mdns_resolver::query::QueryError;
use crate::mdns_resolver::resolver::{
    all_capped, all_within_ceiling, cap_ttls, capped, ends_in_local,
    lemma_no_local_name_after_rewrite,
    local_label, record_to_discovery, records_to_discovery, rewrite_records_to_discovery_domain,
    MAX_UNICAST_TTL,
};
use crate::rr::{
    models, name_eq, name_of_utf8, names_in_record, same_label, utf8_of_name, Name, NameError,
    NameModel, Record, RecordModel, RecordType,
};
use crate::text::lowercase;
use vstd::prelude::*;

verus! {

/// The kinds of question that the proxy answers on its own.
#[derive(Clone, Copy, Debug, PartialEq, Eq, Structural)]
pub enum AdminKind {
    DomainEnumeration,
    NegativeSrv,
    ZoneSoa,
    ZoneNs,
    DelegationBelowApex,
}

/// What is done with a question.
#[derive(Clone, Copy, Debug, PartialEq, Eq, Structural)]
pub enum Classification {
    /// The question is not for the proxy.
    Refuse,
    /// The proxy answers on its own.
    Admin(AdminKind),
    /// The question goes to the link.
    Resolve,
}

/// A response: its code, the authoritative bit, and the answer records.
#[derive(Debug, PartialEq, Eq)]
pub struct Response {
    pub code: ResponseCode,
    pub authoritative: bool,
    pub answers: Vec<Record>,
}

/// What the handler does with a request before anything is asked of the
/// link.
#[derive(Debug, PartialEq, Eq)]
pub enum Dispatch {
    /// The response is ready.
    Respond(Response),
    /// The question is to be resolved; the response follows from the
    /// outcome.
    Resolve,
}

/// The handler of unicast requests.
#[derive(Debug)]
pub struct MdnsDnsHandler {
    /// The discovery domain as text.
    pub discovery_domain: String,
    /// The discovery domain as the apex of the zone.
    pub zone_apex: Name,
    /// Which records are kept from clients that cannot use them.
    pub suppression_config: RecordSuppressionConfig,
}

/// The name has a text, and the text is in the scope of the proxy.
pub open spec fn handled(name: NameModel, discovery_domain: Seq<char>) -> bool {
    match utf8_of_name(name.labels, name.fqdn) {
        Some(text) => in_scope(lowercase(text), lowercase(discovery_domain)),
        None => false,
    }
}

/// What is done with a question for `name` and `record_type`, where
/// `in_scope` says whether the name is in the scope of the proxy.
pub open spec fn classification(
    in_scope: bool,
    name: NameModel,
    record_type: RecordType,
    apex: NameModel,
) -> Classification {
    if !in_scope {
        Classification::Refuse
    } else if record_type == RecordType::PTR && enumeration_name(name) {
        Classification::Admin(AdminKind::DomainEnumeration)
    } else if record_type == RecordType::SRV && admin_srv_name(name) {
        Classification::Admin(AdminKind::NegativeSrv)
    } else if record_type == RecordType::SOA && name_eq(name, apex) {
        Classification::Admin(AdminKind::ZoneSoa)
    } else if record_type == RecordType::NS && name_eq(name, apex) {
        Classification::Admin(AdminKind::ZoneNs)
    } else if delegation_type(record_type) && below_apex(name, apex) {
        Classification::Admin(AdminKind::DelegationBelowApex)
    } else {
        Classification::Resolve
    }
}

/// The records that the proxy makes up for an administrative question.
pub open spec fn admin_answer(kind: AdminKind, name: NameModel, apex: NameModel) -> Seq<
    RecordModel,
> {
    match kind {
        AdminKind::ZoneSoa => seq![soa_record(name)],
        AdminKind::ZoneNs => seq![ns_record(name)],
        AdminKind::DomainEnumeration => seq![enumeration_record(name, apex)],
        AdminKind::NegativeSrv => Seq::empty(),
        AdminKind::DelegationBelowApex => Seq::empty(),
    }
}

/// The records as they leave the proxy: times to live capped, records the
/// client cannot use taken out, names taken to the discovery domain.
pub open spec fn shaped(
    records: Seq<RecordModel>,
    config: RecordSuppressionConfig,
    domain: NameModel,
) -> Seq<RecordModel> {
    records_to_discovery(usable(all_capped(records), config), domain)
}

/// The response that carries no records.
pub open spec fn bare_response(response: Response, code: ResponseCode) -> bool {
    response.code == code && !response.authoritative && response.answers@.len() == 0
}

/// The suppression in force for a client: that of the handler, for the
/// address of the client where it is known.
pub open spec fn suppression_for(
    config: RecordSuppressionConfig,
    client_ip: Option<IpAddress>,
) -> RecordSuppressionConfig {
    RecordSuppressionConfig {
        enabled: config.enabled,
        client_ip: if client_ip is Some {
            client_ip
        } else {
            config.client_ip
        },
    }
}

/// The domain has labels and its last label is not `local`.
pub open spec fn proper_domain(domain: NameModel) -> bool {
    domain.labels.len() > 0 && !same_label(domain.labels.last(), local_label())
}

/// No name in any record of the list ends in `local.`.
pub open spec fn free_of_local(records: Seq<RecordModel>) -> bool {
    forall|i: int, k: int|
        0 <= i < records.len() && 0 <= k < names_in_record(records[i]).len() ==> !ends_in_local(
            #[trigger] names_in_record(records[i])[k],
        )
}

/// The records can be sent: none lives longer than the ceiling, and where
/// the discovery domain has labels and does not itself end in `local`, no
/// name in them ends in `local.`.
pub open spec fn fit_to_send(records: Seq<RecordModel>, domain: NameModel) -> bool {
    all_within_ceiling(records) && (proper_domain(domain) ==> free_of_local(records))
}

/// Shaped records can be sent.
pub proof fn lemma_shaped_is_fit_to_send(
    records: Seq<RecordModel>,
    config: RecordSuppressionConfig,
    domain: NameModel,
)
    ensures
        fit_to_send(shaped(records, config, domain), domain),
{
    let out = shaped(records, config, domain);
    assert forall|i: int| 0 <= i < out.len() implies (#[trigger] out[i]).ttl
        <= MAX_UNICAST_TTL by {
        lemma_shaped_is_capped(records, config, domain, i);
    }
    if proper_domain(domain) {
        assert forall|i: int, k: int|
            0 <= i < out.len() && 0 <= k < names_in_record(out[i]).len() implies !ends_in_local(
            #[trigger] names_in_record(out[i])[k],
        ) by {
            lemma_shaped_has_no_local_name(records, config, domain, i, k);
        }
    }
}

/// No record that leaves the proxy lives longer than the ceiling.
pub proof fn lemma_shaped_is_capped(
    records: Seq<RecordModel>,
    config: RecordSuppressionConfig,
    domain: NameModel,
    i: int,
)
    requires
        0 <= i < shaped(records, config, domain).len(),
    ensures
        shaped(records, config, domain)[i].ttl <= MAX_UNICAST_TTL,
        shaped(records, config, domain).len() <= records.len(),
{
    let capped_all = all_capped(records);
    lemma_usable_is_part(capped_all, capped_all, config);
    let kept = usable(capped_all, config);
    assert(capped_all.contains(kept[i]));
    let j = choose|j: int| 0 <= j < capped_all.len() && capped_all[j] == kept[i];
    assert(capped_all[j] == capped(records[j]));
}

/// Where the discovery domain has labels and does not itself end in
/// `local`, no name in a record that leaves the proxy ends in `local.`.
pub proof fn lemma_shaped_has_no_local_name(
    records: Seq<RecordModel>,
    config: RecordSuppressionConfig,
    domain: NameModel,
    i: int,
    k: int,
)
    requires
        proper_domain(domain),
        0 <= i < shaped(records, config, domain).len(),
        0 <= k < names_in_record(shaped(records, config, domain)[i]).len(),
    ensures
        !ends_in_local(names_in_record(shaped(records, config, domain)[i])[k]),
{
    let kept = usable(all_capped(records), config);
    assert(shaped(records, config, domain)[i] == record_to_discovery(kept[i], domain));
    assert(names_in_record(record_to_discovery(kept[i], domain)).len() == names_in_record(
        kept[i],
    ).len());
    lemma_no_local_name_after_rewrite(kept[i], domain, k);
}

impl MdnsDnsHandler {
    /// The handler for a discovery domain. Records are kept from clients
    /// that cannot use them. Fails where the domain is no name.
    pub fn new(discovery_domain: String) -> (r: Result<MdnsDnsHandler, NameError>)
        ensures
            match r {
                Ok(handler) => name_of_utf8(discovery_domain@) == Some(
                    (handler.zone_apex@.labels, handler.zone_apex@.fqdn),
                ) && handler.discovery_domain@ == discovery_domain@
                    && handler.suppression_config.enabled
                    && handler.suppression_config.client_ip is None,
                Err(e) => e == NameError::Malformed && name_of_utf8(discovery_domain@) is None,
            },
    {
        match Name::from_utf8(discovery_domain.as_str()) {
            Ok(zone_apex) => Ok(
                MdnsDnsHandler {
                    discovery_domain,
                    zone_apex,
                    suppression_config: RecordSuppressionConfig::default(),
                },
            ),
            Err(e) => Err(e),
        }
    }

    /// The handler for a discovery domain given as text and as a name.
    pub fn with_zone_apex(discovery_domain: String, zone_apex: Name) -> (handler: MdnsDnsHandler)
        ensures
            handler.discovery_domain@ == discovery_domain@,
            handler.zone_apex@ == zone_apex@,
            handler.suppression_config.enabled,
            handler.suppression_config.client_ip is None,
    {
        MdnsDnsHandler {
            discovery_domain,
            zone_apex,
            suppression_config: RecordSuppressionConfig::default(),
        }
    }

    /// Whether a question for the name is one for the proxy.
    pub fn should_handle(&self, name: &Name) -> (r: bool)
        ensures
            r == handled(name@, self.discovery_domain@),
    {
        match name.to_utf8() {
            Some(text) => should_handle_domain(text.as_str(), self.discovery_domain.as_str()),
            None => false,
        }
    }

    /// What is done with a question.
    pub fn classify(&self, name: &Name, record_type: RecordType) -> (r: Classification)
        ensures
            r == classification(
                handled(name@, self.discovery_domain@),
                name@,
                record_type,
                self.zone_apex@,
            ),
    {
        let in_scope = self.should_handle(name);
        classify_question(in_scope, name, record_type, &self.zone_apex)
    }

    /// The records for a question that the proxy answers on its own;
    /// nothing for a question that goes to the link.
    pub fn handle_admin_query(&self, name: &Name, record_type: RecordType) -> (r: Option<
        Vec<Record>,
    >)
        ensures
            match classification(true, name@, record_type, self.zone_apex@) {
                Classification::Admin(kind) => r matches Some(records) && models(records@)
                    == admin_answer(kind, name@, self.zone_apex@),
                _ => r is None,
            },
    {
        match classify_question(true, name, record_type, &self.zone_apex) {
            Classification::Admin(kind) => Some(answer_admin(kind, name, &self.zone_apex)),
            _ => None,
        }
    }

    /// The suppression in force for the client of a request.
    pub fn suppression_for(&self, client_ip: Option<IpAddress>) -> (config:
        RecordSuppressionConfig)
        ensures
            config == suppression_for(self.suppression_config, client_ip),
    {
        RecordSuppressionConfig {
            enabled: self.suppression_config.enabled,
            client_ip: if client_ip.is_some() {
                client_ip
            } else {
                self.suppression_config.client_ip
            },
        }
    }

    /// The records as they leave the proxy for the given client.
    pub fn shape(&self, records: Vec<Record>, client_ip: Option<IpAddress>) -> (out: Vec<Record>)
        ensures
            models(out@) == shaped(
                models(records@),
                suppression_for(self.suppression_config, client_ip),
                self.zone_apex@,
            ),
            fit_to_send(models(out@), self.zone_apex@),
    {
        proof {
            lemma_shaped_is_fit_to_send(
                models(records@),
                suppression_for(self.suppression_config, client_ip),
                self.zone_apex@,
            );
        }
        let mut records = records;
        cap_ttls(&mut records);
        let config = self.suppression_for(client_ip);
        let kept = filter_suppressed_records(records, &config);
        rewrite_records_to_discovery_domain(kept, &self.zone_apex)
    }

    /// Takes a request as far as it goes without the link: a request that
    /// could not be read is answered with `FormErr`, a question that is not
    /// for the proxy with `NXDomain`, an administrative question with the
    /// records made up for it; any other question is to be resolved. No
    /// response is authoritative, and the records of every response can be
    /// sent.
    pub fn handle_request(&self, request: &Request) -> (r: Dispatch)
        ensures
            match request.question {
                None => r matches Dispatch::Respond(response) && bare_response(
                    response,
                    ResponseCode::FormErr,
                ),
                Some(question) => match classification(
                    handled(question.name@, self.discovery_domain@),
                    question.name@,
                    question.record_type,
                    self.zone_apex@,
                ) {
                    Classification::Refuse => r matches Dispatch::Respond(response)
                        && bare_response(response, ResponseCode::NXDomain),
                    Classification::Admin(kind) => r matches Dispatch::Respond(response)
                        && response.code == ResponseCode::NoError && !response.authoritative
                        && models(response.answers@) == shaped(
                        admin_answer(kind, question.name@, self.zone_apex@),
                        suppression_for(self.suppression_config, request.client_ip),
                        self.zone_apex@,
                    ),
                    Classification::Resolve => r is Resolve,
                },
            },
            r matches Dispatch::Respond(response) ==> fit_to_send(
                models(response.answers@),
                self.zone_apex@,
            ),
    {
        let header = parse_dns_request(request);
        let question = match &request.question {
            Some(question) => question,
            None => {
                return Dispatch::Respond(
                    Response {
                        code: header.response_code,
                        authoritative: header.authoritative,
                        answers: Vec::new(),
                    },
                );
            },
        };
        match self.classify(&question.name, question.record_type) {
            Classification::Refuse => Dispatch::Respond(
                Response {
                    code: ResponseCode::NXDomain,
                    authoritative: header.authoritative,
                    answers: Vec::new(),
                },
            ),
            Classification::Admin(kind) => {
                let records = answer_admin(kind, &question.name, &self.zone_apex);
                Dispatch::Respond(
                    Response {
                        code: ResponseCode::NoError,
                        authoritative: header.authoritative,
                        answers: self.shape(records, request.client_ip),
                    },
                )
            },
            Classification::Resolve => Dispatch::Resolve,
        }
    }

    /// The response to a question that was resolved: `NoError` with the
    /// shaped records where the lookup went through, however many records
    /// there are; `ServFail` without records where it failed. The records
    /// of the response can be sent.
    pub fn finish_request(&self, request: &Request, outcome: Result<Vec<Record>, QueryError>) -> (response:
        Response)
        ensures
            !response.authoritative,
            match outcome {
                Ok(records) => response.code == ResponseCode::NoError && models(response.answers@)
                    == shaped(
                    models(records@),
                    suppression_for(self.suppression_config, request.client_ip),
                    self.zone_apex@,
                ),
                Err(_) => response.code == ResponseCode::ServFail && response.answers@.len() == 0,
            },
            fit_to_send(models(response.answers@), self.zone_apex@),
    {
        let header = parse_dns_request(request);
        let ghost found = if outcome is Ok {
            models(outcome->Ok_0@)
        } else {
            Seq::empty()
        };
        let (code, records) = build_response_from_records(outcome);
        let answers = match records {
            Some(records) => self.shape(records, request.client_ip),
            None => {
                let none: Vec<Record> = Vec::new();
                proof {
                    assert(models(none@) =~= Seq::empty());
                    if outcome is Ok {
                        assert(found =~= Seq::empty());
                        assert(all_capped(found) =~= Seq::empty());
                        assert(shaped(
                            found,
                            suppression_for(self.suppression_config, request.client_ip),
                            self.zone_apex@,
                        ) =~= Seq::empty());
                    }
                }
                none
            },
        };
        Response { code, authoritative: false, answers }
    }
}

/// What is done with a question for `name` and `record_type`, where
/// `in_scope` says whether the name is in the scope of the proxy.
pub fn classify_question(in_scope: bool, name: &Name, record_type: RecordType, zone_apex: &Name) -> (r:
    Classification)
    ensures
        r == classification(in_scope, name@, record_type, zone_apex@),
{
    if !in_scope {
        return Classification::Refuse;
    }
    if is_domain_enumeration_query(name, record_type) {
        return Classification::Admin(AdminKind::DomainEnumeration);
    }
    if is_admin_srv_query(name, record_type) {
        return Classification::Admin(AdminKind::NegativeSrv);
    }
    if record_type == RecordType::SOA && is_zone_apex_query(name, zone_apex) {
        return Classification::Admin(AdminKind::ZoneSoa);
    }
    if record_type == RecordType::NS && is_zone_apex_query(name, zone_apex) {
        return Classification::Admin(AdminKind::ZoneNs);
    }
    if is_delegation_query_below_apex(name, record_type, zone_apex) {
        return Classification::Admin(AdminKind::DelegationBelowApex);
    }
    Classification::Resolve
}

/// The records that the proxy makes up for an administrative question.
pub fn answer_admin(kind: AdminKind, name: &Name, zone_apex: &Name) -> (r: Vec<Record>)
    ensures
        models(r@) == admin_answer(kind, name@, zone_apex@),
{
    let mut r: Vec<Record> = Vec::new();
    match kind {
        AdminKind::ZoneSoa => {
            r.push(generate_soa_record(name));
            assert(models(r@) =~= seq![soa_record(name@)]);
        },
        AdminKind::ZoneNs => {
            r.push(generate_ns_record(name));
            assert(models(r@) =~= seq![ns_record(name@)]);
        },
        AdminKind::DomainEnumeration => {
            return generate_domain_enumeration_records(name, zone_apex);
        },
        AdminKind::NegativeSrv => {
            assert(models(r@) =~= Seq::empty());
        },
        AdminKind::DelegationBelowApex => {
            assert(models(r@) =~= Seq::empty());
        },
    }
    r
}

} // verus!
