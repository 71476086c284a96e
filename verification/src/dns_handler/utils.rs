//! Scope of the proxy and the response code of an answer.

use crate::addr::IpAddress;
use crate::mdns_resolver::query::QueryError;
use crate::rr::{option_models, result_models, Name, Record, RecordModel, RecordType};
use crate::text::{
    chars_of, contains, ends_with, is_suffix, len_without_trailing, lowercase, occurs_in,
    strip_trailing,
};
use vstd::prelude::*;

verus! {

/// The response code of an answer.
#[derive(Clone, Copy, Debug, PartialEq, Eq, Structural)]
pub enum ResponseCode {
    NoError,
    FormErr,
    ServFail,
    NXDomain,
}

/// A question: the name and the type asked for.
#[derive(Debug, PartialEq, Eq)]
pub struct Question {
    pub name: Name,
    pub record_type: RecordType,
}

/// A request as the transport hands it over.
#[derive(Debug, PartialEq, Eq)]
pub struct Request {
    /// The question, or nothing where the request could not be read.
    pub question: Option<Question>,
    /// The address the request came from, where it is known.
    pub client_ip: Option<IpAddress>,
}

/// The head of a response.
#[derive(Clone, Copy, Debug, PartialEq, Eq, Structural)]
pub struct ResponseHeader {
    pub response_code: ResponseCode,
    pub authoritative: bool,
}

/// The lower-case name holds `._tcp.` or `._udp.`: it names a service or an
/// instance of one.
pub open spec fn service_name(name_lower: Seq<char>) -> bool {
    occurs_in("._tcp."@, name_lower) || occurs_in("._udp."@, name_lower)
}

/// The lower-case name belongs to the proxy: it ends in the lower-case
/// discovery domain, with or without the dots at its end, or it is a service
/// name.
pub open spec fn in_scope(name_lower: Seq<char>, domain_lower: Seq<char>) -> bool {
    ||| is_suffix(domain_lower, name_lower)
    ||| is_suffix(strip_trailing(domain_lower, '.'), name_lower)
    ||| service_name(name_lower)
}

/// The code and the records that answer a finished lookup: a lookup that
/// went through gives `NoError`, with the records where there are any; one
/// that failed gives `ServFail`.
pub open spec fn response_of(outcome: Result<Seq<RecordModel>, QueryError>) -> (
    ResponseCode,
    Option<Seq<RecordModel>>,
) {
    match outcome {
        Ok(records) => if records.len() == 0 {
            (ResponseCode::NoError, None)
        } else {
            (ResponseCode::NoError, Some(records))
        },
        Err(_) => (ResponseCode::ServFail, None),
    }
}

/// Whether a lower-case name is a service name.
pub fn is_service_name(name_lower: &Vec<char>) -> (r: bool)
    ensures
        r == service_name(name_lower@),
{
    let tcp = chars_of("._tcp.");
    let udp = chars_of("._udp.");
    contains(name_lower, &tcp) || contains(name_lower, &udp)
}

/// Whether a name belongs to the proxy, both texts given in lower case.
pub fn in_discovery_scope(name_lower: &str, domain_lower: &str) -> (r: bool)
    ensures
        r == in_scope(name_lower@, domain_lower@),
{
    let name = chars_of(name_lower);
    let mut domain = chars_of(domain_lower);
    if ends_with(&name, &domain) {
        return true;
    }
    let bare: usize = len_without_trailing(&domain, '.');
    domain.truncate(bare);
    if ends_with(&name, &domain) {
        return true;
    }
    is_service_name(&name)
}

/// Whether a question for `name` belongs to the proxy that serves
/// `discovery_domain`. Case does not count.
pub fn should_handle_domain(name: &str, discovery_domain: &str) -> (r: bool)
    ensures
        r == in_scope(lowercase(name@), lowercase(discovery_domain@)),
{
    let name_lower = name.to_lowercase();
    let domain_lower = discovery_domain.to_lowercase();
    in_discovery_scope(name_lower.as_str(), domain_lower.as_str())
}

/// The head with which the response to a request starts: `FormErr` where
/// the request could not be read, else `NoError`; never authoritative.
pub fn parse_dns_request(request: &Request) -> (header: ResponseHeader)
    ensures
        !header.authoritative,
        header.response_code == if request.question is None {
            ResponseCode::FormErr
        } else {
            ResponseCode::NoError
        },
{
    match &request.question {
        None => ResponseHeader { response_code: ResponseCode::FormErr, authoritative: false },
        Some(_) => ResponseHeader { response_code: ResponseCode::NoError, authoritative: false },
    }
}

/// The response code for a finished lookup, and the records to send where
/// there are any.
pub fn build_response_from_records(records: Result<Vec<Record>, QueryError>) -> (r: (
    ResponseCode,
    Option<Vec<Record>>,
))
    ensures
        (r.0, option_models(r.1)) == response_of(result_models(records)),
{
    match records {
        Ok(found) => {
            if found.is_empty() {
                (ResponseCode::NoError, None)
            } else {
                (ResponseCode::NoError, Some(found))
            }
        },
        Err(_) => (ResponseCode::ServFail, None),
    }
}

} // verus!
