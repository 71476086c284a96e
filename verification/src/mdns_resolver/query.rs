//! Folding of link events into resource records.
//!
//! A lookup on the link is a finite run of events. Each routine here takes
//! the events one at a time: it says what the records are after the event
//! and whether the lookup is over. The whole-run functions apply the steps
//! in order and stop at the first event that ends the lookup.

use crate::addr::IpAddress;
use crate::config::Config;
use crate::rr::{
    clone_labels, labels_fault, labels_model, models, name_of_utf8, utf8_of_name, Name, NameError,
    NameModel, RData, RDataModel, Record, RecordModel,
};
use crate::text::{
    chars_of, ends_with, find_char, first_index_of, is_prefix, is_suffix, lowercase, matches_at,
    string_of,
};
use crate::time::Duration;
use vstd::prelude::*;
use vstd::string::StrSliceExecFns;
use vstd::utf8::encode_utf8;

verus! {

/// Time to live, in seconds, of a record made from a link event.
pub const LINK_TTL: u32 = 120;

/// Why a lookup on the link failed.
#[derive(Clone, Copy, Debug, PartialEq, Eq, Structural)]
pub enum QueryError {
    /// A name that the link delivered, or one to ask for, is no name.
    InvalidName(NameError),
    /// The link could not be asked.
    LinkFailure,
}

/// The labels that were closed by a dot, and the bytes since the last dot.
pub open spec fn scan_labels(bytes: Seq<u8>) -> (Seq<Seq<u8>>, Seq<u8>)
    decreases bytes.len(),
{
    if bytes.len() == 0 {
        (Seq::empty(), Seq::empty())
    } else {
        let (closed, open) = scan_labels(bytes.drop_last());
        if bytes.last() == 0x2e {
            if open.len() > 0 {
                (closed.push(open), Seq::empty())
            } else {
                (closed, Seq::empty())
            }
        } else {
            (closed, open.push(bytes.last()))
        }
    }
}

/// The runs of bytes between the dots of a text, in order, without the
/// empty ones.
pub open spec fn dotted_labels(bytes: Seq<u8>) -> Seq<Seq<u8>> {
    let (closed, open) = scan_labels(bytes);
    if open.len() > 0 {
        closed.push(open)
    } else {
        closed
    }
}

/// The escape `\032` that stands for a space in a label.
pub open spec fn space_escape() -> Seq<char> {
    seq!['\\', '0', '3', '2']
}

/// The text with `\032` for every space.
pub open spec fn escape_spaces(s: Seq<char>) -> Seq<char>
    decreases s.len(),
{
    if s.len() == 0 {
        Seq::empty()
    } else if s[0] == ' ' {
        space_escape() + escape_spaces(s.drop_first())
    } else {
        seq![s[0]] + escape_spaces(s.drop_first())
    }
}

/// The text with a space for every `\032`, read from the left.
pub open spec fn unescape_spaces(s: Seq<char>) -> Seq<char>
    decreases s.len(),
{
    if s.len() == 0 {
        Seq::empty()
    } else if is_prefix(space_escape(), s) {
        seq![' '] + unescape_spaces(s.skip(4))
    } else {
        seq![s[0]] + unescape_spaces(s.drop_first())
    }
}

/// The name with the spaces of its first label escaped.
pub open spec fn escape_instance(fullname: Seq<char>) -> Seq<char> {
    let dot = first_index_of(fullname, '.');
    escape_spaces(fullname.take(dot)) + fullname.skip(dot)
}

/// The name with the escaped spaces of its first label put back.
pub open spec fn unescape_instance(fullname: Seq<char>) -> Seq<char> {
    let dot = first_index_of(fullname, '.');
    unescape_spaces(fullname.take(dot)) + fullname.skip(dot)
}

/// The name of a service instance on the link is the one that was asked
/// for, both in lower case: as they stand, or with the spaces of the first
/// label escaped.
pub open spec fn same_instance(asked_lower: Seq<char>, found_lower: Seq<char>) -> bool {
    found_lower == asked_lower || escape_instance(found_lower) == escape_instance(asked_lower)
}

/// The event name is the instance that the question asks for.
pub open spec fn instance_matches(service_name: Seq<char>, fullname: Seq<char>) -> bool {
    same_instance(lowercase(unescape_instance(service_name)), lowercase(fullname))
}

/// The last label of the host name is `local`.
pub open spec fn local_host(hostname: Seq<char>) -> bool {
    let bare = if is_suffix("."@, hostname) {
        hostname.drop_last()
    } else {
        hostname
    };
    bare == "local"@ || is_suffix(".local"@, bare)
}

/// The name whose labels are the runs of bytes between the dots of the
/// text, taken as they are. The name is fully qualified.
pub fn name_from_labels_str(fullname: &str) -> (r: Result<Name, NameError>)
    ensures
        match r {
            Ok(name) => labels_fault(dotted_labels(encode_utf8(fullname@))) is None && name@ == (
            NameModel { labels: dotted_labels(encode_utf8(fullname@)), fqdn: true }),
            Err(e) => labels_fault(dotted_labels(encode_utf8(fullname@))) == Some(e),
        },
{
    let bytes = fullname.as_bytes_vec();
    let mut closed: Vec<Vec<u8>> = Vec::new();
    let mut open: Vec<u8> = Vec::new();
    let mut i: usize = 0;
    assert(labels_model(closed@) =~= Seq::empty());
    while i < bytes.len()
        invariant
            i <= bytes.len(),
            (labels_model(closed@), open@) == scan_labels(bytes@.take(i as int)),
        decreases bytes.len() - i,
    {
        assert(bytes@.take(i + 1).drop_last() == bytes@.take(i as int));
        let ghost before = labels_model(closed@);
        if bytes[i] == 0x2e {
            if open.len() > 0 {
                let ghost label = open@;
                closed.push(open);
                open = Vec::new();
                assert(labels_model(closed@) =~= before.push(label));
            } else {
                open = Vec::new();
            }
        } else {
            open.push(bytes[i]);
        }
        i += 1;
    }
    assert(bytes@.take(bytes.len() as int) == bytes@);
    if open.len() > 0 {
        let ghost before = labels_model(closed@);
        let ghost label = open@;
        closed.push(open);
        assert(labels_model(closed@) =~= before.push(label));
    }
    Name::from_labels(closed)
}

/// The text `v[from..to]` with `\032` for every space, added to `out`.
fn push_escaped(out: &mut Vec<char>, v: &Vec<char>, to: usize)
    requires
        to <= v.len(),
    ensures
        final(out)@ == old(out)@ + escape_spaces(v@.take(to as int)),
{
    let mut i: usize = 0;
    let ghost part = v@.take(to as int);
    assert(part.skip(0) == part);
    while i < to
        invariant
            i <= to <= v.len(),
            part == v@.take(to as int),
            out@ + escape_spaces(part.skip(i as int)) == old(out)@ + escape_spaces(part),
        decreases to - i,
    {
        let ghost rest = part.skip(i as int);
        assert(rest.drop_first() == part.skip(i + 1));
        assert(rest[0] == v@[i as int]);
        let ghost before = out@;
        if v[i] == ' ' {
            out.push('\\');
            out.push('0');
            out.push('3');
            out.push('2');
            assert(out@ =~= before + space_escape());
            assert(out@ + escape_spaces(part.skip(i + 1)) =~= before + escape_spaces(rest));
        } else {
            out.push(v[i]);
            assert(out@ =~= before + seq![rest[0]]);
            assert(out@ + escape_spaces(part.skip(i + 1)) =~= before + escape_spaces(rest));
        }
        i += 1;
    }
    assert(escape_spaces(part.skip(to as int)) =~= Seq::empty());
    assert(out@ =~= old(out)@ + escape_spaces(part));
}

/// The text `v[..to]` with a space for every `\032`, added to `out`.
fn push_unescaped(out: &mut Vec<char>, v: &Vec<char>, to: usize)
    requires
        to <= v.len(),
    ensures
        final(out)@ == old(out)@ + unescape_spaces(v@.take(to as int)),
{
    let mut part: Vec<char> = Vec::new();
    let mut k: usize = 0;
    while k < to
        invariant
            k <= to <= v.len(),
            part@ == v@.take(k as int),
        decreases to - k,
    {
        part.push(v[k]);
        k += 1;
        assert(part@ =~= v@.take(k as int));
    }
    let escape = chars_of("\\032");
    proof {
        reveal_strlit("\\032");
        assert(escape@ =~= space_escape());
    }
    let mut i: usize = 0;
    assert(part@.skip(0) == part@);
    while i < to
        invariant
            i <= to,
            part@.len() == to,
            escape@ == space_escape(),
            out@ + unescape_spaces(part@.skip(i as int)) == old(out)@ + unescape_spaces(part@),
        decreases to - i,
    {
        let ghost rest = part@.skip(i as int);
        let ghost before = out@;
        assert(rest[0] == part@[i as int]);
        let escaped = matches_at(&part, &escape, i);
        proof {
            if escaped {
                assert(rest.subrange(0, 4) =~= part@.subrange(i as int, i + 4));
            } else if 4 <= rest.len() {
                assert(rest.subrange(0, 4) =~= part@.subrange(i as int, i + 4));
            }
            assert(escaped == is_prefix(space_escape(), rest));
        }
        if escaped {
            out.push(' ');
            assert(rest.skip(4) == part@.skip(i + 4));
            assert(out@ =~= before + seq![' ']);
            assert(out@ + unescape_spaces(part@.skip(i + 4)) =~= before + unescape_spaces(rest));
            i += 4;
        } else {
            out.push(part[i]);
            assert(rest.drop_first() == part@.skip(i + 1));
            assert(out@ =~= before + seq![rest[0]]);
            assert(out@ + unescape_spaces(part@.skip(i + 1)) =~= before + unescape_spaces(rest));
            i += 1;
        }
    }
    assert(unescape_spaces(part@.skip(to as int)) =~= Seq::empty());
    assert(out@ =~= old(out)@ + unescape_spaces(part@));
}

/// Adds `v[from..]` to `out`.
fn push_rest(out: &mut Vec<char>, v: &Vec<char>, from: usize)
    requires
        from <= v.len(),
    ensures
        final(out)@ == old(out)@ + v@.skip(from as int),
{
    let mut i: usize = from;
    while i < v.len()
        invariant
            from <= i <= v.len(),
            out@ == old(out)@ + v@.subrange(from as int, i as int),
        decreases v.len() - i,
    {
        let ghost before = out@;
        out.push(v[i]);
        i += 1;
        assert(out@ =~= old(out)@ + v@.subrange(from as int, i as int));
    }
    assert(v@.subrange(from as int, v.len() as int) =~= v@.skip(from as int));
}

/// The name of a service instance with the spaces of its first label
/// written as `\032`; the other labels stay.
pub fn escape_instance_label(fullname: &str) -> (r: String)
    ensures
        r@ == escape_instance(fullname@),
{
    let v = chars_of(fullname);
    let dot = find_char(&v, '.');
    let mut out: Vec<char> = Vec::new();
    push_escaped(&mut out, &v, dot);
    push_rest(&mut out, &v, dot);
    string_of(&out)
}

/// The name of a service instance with every `\032` of its first label
/// written as a space; the other labels stay.
pub fn unescape_instance_label(fullname: &str) -> (r: String)
    ensures
        r@ == unescape_instance(fullname@),
{
    let v = chars_of(fullname);
    let dot = find_char(&v, '.');
    let mut out: Vec<char> = Vec::new();
    push_unescaped(&mut out, &v, dot);
    push_rest(&mut out, &v, dot);
    string_of(&out)
}

/// Whether an instance found on the link is the one asked for, both names
/// given in lower case and the one asked for without escapes.
pub fn is_same_instance(asked_lower: &str, found_lower: &str) -> (r: bool)
    ensures
        r == same_instance(asked_lower@, found_lower@),
{
    let asked = asked_lower.to_owned();
    let found = found_lower.to_owned();
    if found == asked {
        return true;
    }
    let found_escaped = escape_instance_label(found_lower);
    let asked_escaped = escape_instance_label(asked_lower);
    found_escaped == asked_escaped
}

/// Whether the name of a resolved service is the instance that
/// `service_name` asks for. Case does not count, and a space may stand as
/// `\032`.
pub fn matches_instance(service_name: &str, fullname: &str) -> (r: bool)
    ensures
        r == instance_matches(service_name@, fullname@),
{
    let unescaped = unescape_instance_label(service_name);
    let asked = unescaped.as_str().to_lowercase();
    let found = fullname.to_lowercase();
    is_same_instance(asked.as_str(), found.as_str())
}

/// Whether the last label of a host name is `local`.
pub fn is_local_host(hostname: &str) -> (r: bool)
    ensures
        r == local_host(hostname@),
{
    let mut v = chars_of(hostname);
    let dot = chars_of(".");
    proof {
        reveal_strlit(".");
    }
    if ends_with(&v, &dot) {
        let n: usize = v.len() - 1;
        v.truncate(n);
    }
    let local = chars_of("local");
    let dot_local = chars_of(".local");
    if ends_with(&v, &dot_local) {
        return true;
    }
    proof {
        if v@ == local@ {
            assert(v@.subrange(0, v@.len() as int) == v@);
        }
    }
    v.len() == local.len() && matches_at(&v, &local, 0)
}

/// What the link knows of a resolved service instance.
#[derive(Clone, Debug, PartialEq, Eq)]
pub struct ServiceInfo {
    /// The instance name, `<instance>.<service>.<protocol>.local.`.
    pub fullname: String,
    /// The host that offers the service.
    pub hostname: String,
    /// The port of the service.
    pub port: u16,
    /// The properties of the service, each a key and a value.
    pub properties: Vec<(String, String)>,
    /// The addresses of the host.
    pub addresses: Vec<IpAddress>,
}

/// An event of a browse for a service type.
#[derive(Clone, Debug, PartialEq, Eq)]
pub enum ServiceEvent {
    ServiceResolved(ServiceInfo),
    SearchStarted(String),
    SearchStopped(String),
    /// Any other event.
    Other,
}

/// What one wait on a browse gave.
#[derive(Clone, Debug, PartialEq, Eq)]
pub enum BrowsePoll {
    Event(ServiceEvent),
    /// The link failed or was shut down.
    Closed,
    /// No event came within the poll interval.
    TimedOut,
}

/// An event of the resolution of a host name.
#[derive(Clone, Debug, PartialEq, Eq)]
pub enum HostnameResolutionEvent {
    SearchStarted(String),
    AddressesFound(String, Vec<IpAddress>),
    AddressesRemoved(String, Vec<IpAddress>),
    SearchStopped(String),
    SearchTimeout(String),
    /// Any other event.
    Other,
}

/// What one wait on the resolution of a host name gave.
#[derive(Clone, Debug, PartialEq, Eq)]
pub enum HostnamePoll {
    Event(HostnameResolutionEvent),
    /// The link failed or was shut down.
    Closed,
}

/// Whether a lookup goes on after an event.
#[derive(Clone, Copy, Debug, PartialEq, Eq, Structural)]
pub enum Flow {
    Continue,
    Done,
}

/// The name that `name_from_labels_str` makes of a text.
pub open spec fn raw_name(text: Seq<char>) -> NameModel {
    NameModel { labels: dotted_labels(encode_utf8(text)), fqdn: true }
}

/// The fault that keeps a text from being a name of raw labels.
pub open spec fn raw_name_fault(text: Seq<char>) -> Option<NameError> {
    labels_fault(dotted_labels(encode_utf8(text)))
}

/// The PTR record for a resolved instance of the service type `owner`.
pub open spec fn ptr_record(owner: NameModel, fullname: Seq<char>) -> RecordModel {
    RecordModel { name: owner, ttl: LINK_TTL, data: RDataModel::PTR(raw_name(fullname)) }
}

/// The SRV record for the instance `owner` on the given port of `target`.
pub open spec fn srv_record(owner: NameModel, port: u16, target: NameModel) -> RecordModel {
    RecordModel {
        name: owner,
        ttl: LINK_TTL,
        data: RDataModel::SRV { priority: 0, weight: 0, port, target },
    }
}

/// The TXT record for the instance `owner` with the given texts.
pub open spec fn txt_record(owner: NameModel, texts: Seq<Seq<char>>) -> RecordModel {
    RecordModel { name: owner, ttl: LINK_TTL, data: RDataModel::TXT(texts) }
}

/// The address record of `owner` for one address.
pub open spec fn address_record(owner: NameModel, addr: IpAddress) -> RecordModel {
    RecordModel {
        name: owner,
        ttl: LINK_TTL,
        data: match addr {
            IpAddress::V4(a) => RDataModel::A(a),
            IpAddress::V6(a) => RDataModel::AAAA(a),
        },
    }
}

/// The text `key=value` of each property, in order.
pub open spec fn property_texts(properties: Seq<(String, String)>) -> Seq<Seq<char>> {
    Seq::new(properties.len(), |i: int| properties[i].0@ + seq!['='] + properties[i].1@)
}

/// The records and the flow after one event of a browse for a service type.
pub open spec fn ptr_after(owner: NameModel, records: Seq<RecordModel>, event: BrowsePoll) -> Result<
    (Seq<RecordModel>, Flow),
    QueryError,
> {
    match event {
        BrowsePoll::Event(ServiceEvent::ServiceResolved(info)) => match raw_name_fault(
            info.fullname@,
        ) {
            Some(fault) => Err(QueryError::InvalidName(fault)),
            None => Ok((records.push(ptr_record(owner, info.fullname@)), Flow::Continue)),
        },
        BrowsePoll::Event(ServiceEvent::SearchStopped(_)) => Ok((records, Flow::Done)),
        BrowsePoll::Event(_) => Ok((records, Flow::Continue)),
        BrowsePoll::Closed => Ok((records, Flow::Done)),
        BrowsePoll::TimedOut => Ok((records, Flow::Continue)),
    }
}

/// The records and the flow after one event of a browse for the service
/// type of the instance `service_name`, where an SRV record is wanted.
pub open spec fn srv_after(
    owner: NameModel,
    service_name: Seq<char>,
    records: Seq<RecordModel>,
    event: BrowsePoll,
) -> Result<(Seq<RecordModel>, Flow), QueryError> {
    match event {
        BrowsePoll::Event(ServiceEvent::ServiceResolved(info)) => if instance_matches(
            service_name,
            info.fullname@,
        ) {
            match name_of_utf8(info.hostname@) {
                Some(target) => Ok(
                    (
                        records.push(
                            srv_record(
                                owner,
                                info.port,
                                NameModel { labels: target.0, fqdn: target.1 },
                            ),
                        ),
                        Flow::Done,
                    ),
                ),
                None => Err(QueryError::InvalidName(NameError::Malformed)),
            }
        } else {
            Ok((records, Flow::Continue))
        },
        BrowsePoll::Event(ServiceEvent::SearchStopped(_)) => Ok((records, Flow::Done)),
        BrowsePoll::Event(_) => Ok((records, Flow::Continue)),
        BrowsePoll::Closed => Ok((records, Flow::Done)),
        BrowsePoll::TimedOut => Ok((records, Flow::Continue)),
    }
}

/// The records and the flow after one event of a browse for the service
/// type of the instance `service_name`, where a TXT record is wanted.
pub open spec fn txt_after(
    owner: NameModel,
    service_name: Seq<char>,
    records: Seq<RecordModel>,
    event: BrowsePoll,
) -> (Seq<RecordModel>, Flow) {
    match event {
        BrowsePoll::Event(ServiceEvent::ServiceResolved(info)) => if instance_matches(
            service_name,
            info.fullname@,
        ) {
            if info.properties@.len() > 0 {
                (records.push(txt_record(owner, property_texts(info.properties@))), Flow::Done)
            } else {
                (records, Flow::Done)
            }
        } else {
            (records, Flow::Continue)
        },
        BrowsePoll::Event(ServiceEvent::SearchStopped(_)) => (records, Flow::Done),
        BrowsePoll::Event(_) => (records, Flow::Continue),
        BrowsePoll::Closed => (records, Flow::Done),
        BrowsePoll::TimedOut => (records, Flow::Continue),
    }
}

/// The data holds the given address.
pub open spec fn holds_address(data: RDataModel, addr: IpAddress) -> bool {
    match (data, addr) {
        (RDataModel::A(a), IpAddress::V4(b)) => a == b,
        (RDataModel::AAAA(a), IpAddress::V6(b)) => a == b,
        _ => false,
    }
}

/// The data holds one of the given addresses.
pub open spec fn withdrawn(data: RDataModel, addrs: Seq<IpAddress>) -> bool {
    exists|i: int| 0 <= i < addrs.len() && holds_address(data, #[trigger] addrs[i])
}

/// The records, in order, whose address is none of those given.
pub open spec fn without(records: Seq<RecordModel>, addrs: Seq<IpAddress>) -> Seq<RecordModel>
    decreases records.len(),
{
    if records.len() == 0 {
        Seq::empty()
    } else if withdrawn(records.last().data, addrs) {
        without(records.drop_last(), addrs)
    } else {
        without(records.drop_last(), addrs).push(records.last())
    }
}

/// The address records of `owner` for the given addresses, in order.
pub open spec fn found(owner: NameModel, addrs: Seq<IpAddress>) -> Seq<RecordModel> {
    Seq::new(addrs.len(), |i: int| address_record(owner, addrs[i]))
}

/// The records and the flow after one event of the resolution of
/// `hostname`.
pub open spec fn address_after(
    hostname: Seq<char>,
    records: Seq<RecordModel>,
    event: HostnamePoll,
) -> Result<(Seq<RecordModel>, Flow), QueryError> {
    match event {
        HostnamePoll::Event(HostnameResolutionEvent::AddressesFound(_, addrs)) => if addrs@.len()
            == 0 {
            Ok((records, Flow::Continue))
        } else {
            match raw_name_fault(hostname) {
                Some(fault) => Err(QueryError::InvalidName(fault)),
                None => Ok((records + found(raw_name(hostname), addrs@), Flow::Continue)),
            }
        },
        HostnamePoll::Event(HostnameResolutionEvent::AddressesRemoved(_, addrs)) => Ok(
            (without(records, addrs@), Flow::Continue),
        ),
        HostnamePoll::Event(HostnameResolutionEvent::SearchTimeout(_)) => Ok((records, Flow::Done)),
        HostnamePoll::Event(HostnameResolutionEvent::SearchStopped(_)) => Ok((records, Flow::Done)),
        HostnamePoll::Event(_) => Ok((records, Flow::Continue)),
        HostnamePoll::Closed => Ok((records, Flow::Done)),
    }
}

/// The records after a run of browse events for a service type.
pub open spec fn ptr_fold(owner: NameModel, records: Seq<RecordModel>, events: Seq<BrowsePoll>) -> Result<
    Seq<RecordModel>,
    QueryError,
>
    decreases events.len(),
{
    if events.len() == 0 {
        Ok(records)
    } else {
        match ptr_after(owner, records, events[0]) {
            Err(e) => Err(e),
            Ok((next, Flow::Done)) => Ok(next),
            Ok((next, Flow::Continue)) => ptr_fold(owner, next, events.drop_first()),
        }
    }
}

/// The records after a run of browse events, where an SRV record is wanted.
pub open spec fn srv_fold(
    owner: NameModel,
    service_name: Seq<char>,
    records: Seq<RecordModel>,
    events: Seq<BrowsePoll>,
) -> Result<Seq<RecordModel>, QueryError>
    decreases events.len(),
{
    if events.len() == 0 {
        Ok(records)
    } else {
        match srv_after(owner, service_name, records, events[0]) {
            Err(e) => Err(e),
            Ok((next, Flow::Done)) => Ok(next),
            Ok((next, Flow::Continue)) => srv_fold(owner, service_name, next, events.drop_first()),
        }
    }
}

/// The records after a run of browse events, where a TXT record is wanted.
pub open spec fn txt_fold(
    owner: NameModel,
    service_name: Seq<char>,
    records: Seq<RecordModel>,
    events: Seq<BrowsePoll>,
) -> Seq<RecordModel>
    decreases events.len(),
{
    if events.len() == 0 {
        records
    } else {
        match txt_after(owner, service_name, records, events[0]) {
            (next, Flow::Done) => next,
            (next, Flow::Continue) => txt_fold(owner, service_name, next, events.drop_first()),
        }
    }
}

/// The records after a run of events of the resolution of `hostname`.
pub open spec fn address_fold(
    hostname: Seq<char>,
    records: Seq<RecordModel>,
    events: Seq<HostnamePoll>,
) -> Result<Seq<RecordModel>, QueryError>
    decreases events.len(),
{
    if events.len() == 0 {
        Ok(records)
    } else {
        match address_after(hostname, records, events[0]) {
            Err(e) => Err(e),
            Ok((next, Flow::Done)) => Ok(next),
            Ok((next, Flow::Continue)) => address_fold(hostname, next, events.drop_first()),
        }
    }
}

/// Takes one event of a browse for the service type `owner`: a resolved
/// instance adds a PTR record; the end of the search or a failure of the
/// link ends the lookup.
pub fn ptr_step(owner: &Name, records: &mut Vec<Record>, event: &BrowsePoll) -> (r: Result<
    Flow,
    QueryError,
>)
    ensures
        match ptr_after(owner@, models(old(records)@), *event) {
            Ok((next, flow)) => r == Ok::<Flow, QueryError>(flow) && models(final(records)@)
                == next,
            Err(e) => r == Err::<Flow, QueryError>(e) && models(final(records)@) == models(
                old(records)@,
            ),
        },
{
    match event {
        BrowsePoll::Event(ServiceEvent::ServiceResolved(info)) => {
            match name_from_labels_str(info.fullname.as_str()) {
                Ok(target) => {
                    let ghost before = models(records@);
                    let record = Record::from_rdata(owner.clone(), LINK_TTL, RData::PTR(target));
                    records.push(record);
                    assert(models(records@) =~= before.push(ptr_record(owner@, info.fullname@)));
                    Ok(Flow::Continue)
                },
                Err(fault) => Err(QueryError::InvalidName(fault)),
            }
        },
        BrowsePoll::Event(ServiceEvent::SearchStopped(_)) => Ok(Flow::Done),
        BrowsePoll::Event(_) => Ok(Flow::Continue),
        BrowsePoll::Closed => Ok(Flow::Done),
        BrowsePoll::TimedOut => Ok(Flow::Continue),
    }
}

/// Takes one event of a browse for the service type of the instance
/// `service_name`: the first resolved instance of that name gives the SRV
/// record and ends the lookup.
pub fn srv_step(
    owner: &Name,
    service_name: &str,
    records: &mut Vec<Record>,
    event: &BrowsePoll,
) -> (r: Result<Flow, QueryError>)
    ensures
        match srv_after(owner@, service_name@, models(old(records)@), *event) {
            Ok((next, flow)) => r == Ok::<Flow, QueryError>(flow) && models(final(records)@)
                == next,
            Err(e) => r == Err::<Flow, QueryError>(e) && models(final(records)@) == models(
                old(records)@,
            ),
        },
{
    match event {
        BrowsePoll::Event(ServiceEvent::ServiceResolved(info)) => {
            if !matches_instance(service_name, info.fullname.as_str()) {
                return Ok(Flow::Continue);
            }
            match Name::from_utf8(info.hostname.as_str()) {
                Ok(target) => {
                    let ghost before = models(records@);
                    let ghost target_model = target@;
                    let record = Record::from_rdata(
                        owner.clone(),
                        LINK_TTL,
                        RData::SRV { priority: 0, weight: 0, port: info.port, target },
                    );
                    records.push(record);
                    assert(models(records@) =~= before.push(
                        srv_record(owner@, info.port, target_model),
                    ));
                    Ok(Flow::Done)
                },
                Err(fault) => Err(QueryError::InvalidName(fault)),
            }
        },
        BrowsePoll::Event(ServiceEvent::SearchStopped(_)) => Ok(Flow::Done),
        BrowsePoll::Event(_) => Ok(Flow::Continue),
        BrowsePoll::Closed => Ok(Flow::Done),
        BrowsePoll::TimedOut => Ok(Flow::Continue),
    }
}

/// The text `key=value` of each property, in order.
pub fn texts_of_properties(properties: &Vec<(String, String)>) -> (texts: Vec<String>)
    ensures
        crate::rr::texts_model(texts@) == property_texts(properties@),
{
    let mut texts: Vec<String> = Vec::new();
    let mut i: usize = 0;
    while i < properties.len()
        invariant
            i <= properties.len(),
            texts@.len() == i,
            forall|k: int|
                0 <= k < i ==> (#[trigger] texts@[k])@ == properties@[k].0@ + seq!['=']
                    + properties@[k].1@,
        decreases properties.len() - i,
    {
        let mut text = properties[i].0.clone();
        text.push('=');
        text.append(properties[i].1.as_str());
        texts.push(text);
        i += 1;
    }
    assert(crate::rr::texts_model(texts@) =~= property_texts(properties@));
    texts
}

/// Takes one event of a browse for the service type of the instance
/// `service_name`: the first resolved instance of that name gives the TXT
/// record, if it has properties, and ends the lookup.
pub fn txt_step(
    owner: &Name,
    service_name: &str,
    records: &mut Vec<Record>,
    event: &BrowsePoll,
) -> (flow: Flow)
    ensures
        txt_after(owner@, service_name@, models(old(records)@), *event) == (
            models(final(records)@),
            flow,
        ),
{
    match event {
        BrowsePoll::Event(ServiceEvent::ServiceResolved(info)) => {
            if !matches_instance(service_name, info.fullname.as_str()) {
                return Flow::Continue;
            }
            let texts = texts_of_properties(&info.properties);
            assert(crate::rr::texts_model(texts@).len() == texts@.len());
            assert(property_texts(info.properties@).len() == info.properties@.len());
            if !texts.is_empty() {
                let ghost before = models(records@);
                let record = Record::from_rdata(owner.clone(), LINK_TTL, RData::TXT(texts));
                records.push(record);
                assert(models(records@) =~= before.push(
                    txt_record(owner@, property_texts(info.properties@)),
                ));
            }
            Flow::Done
        },
        BrowsePoll::Event(ServiceEvent::SearchStopped(_)) => Flow::Done,
        BrowsePoll::Event(_) => Flow::Continue,
        BrowsePoll::Closed => Flow::Done,
        BrowsePoll::TimedOut => Flow::Continue,
    }
}

/// Whether the record holds one of the addresses.
fn is_withdrawn(record: &Record, addrs: &Vec<IpAddress>) -> (r: bool)
    ensures
        r == withdrawn(record@.data, addrs@),
{
    let mut i: usize = 0;
    while i < addrs.len()
        invariant
            i <= addrs.len(),
            forall|k: int| 0 <= k < i ==> !holds_address(record@.data, #[trigger] addrs@[k]),
        decreases addrs.len() - i,
    {
        let hit = match (&record.data, &addrs[i]) {
            (RData::A(a), IpAddress::V4(b)) => a.bits == b.bits,
            (RData::AAAA(a), IpAddress::V6(b)) => a.bits == b.bits,
            _ => false,
        };
        if hit {
            return true;
        }
        i += 1;
    }
    false
}

/// Takes one event of the resolution of `hostname`: found addresses add an
/// address record each, removed addresses take theirs away, and the end of
/// the search or a failure of the link ends the lookup.
pub fn address_step(hostname: &str, records: &mut Vec<Record>, event: &HostnamePoll) -> (r: Result<
    Flow,
    QueryError,
>)
    ensures
        match address_after(hostname@, models(old(records)@), *event) {
            Ok((next, flow)) => r == Ok::<Flow, QueryError>(flow) && models(final(records)@)
                == next,
            Err(e) => r == Err::<Flow, QueryError>(e) && models(final(records)@) == models(
                old(records)@,
            ),
        },
{
    match event {
        HostnamePoll::Event(HostnameResolutionEvent::AddressesFound(_, addrs)) => {
            if addrs.len() == 0 {
                return Ok(Flow::Continue);
            }
            let owner = match name_from_labels_str(hostname) {
                Ok(owner) => owner,
                Err(fault) => {
                    return Err(QueryError::InvalidName(fault));
                },
            };
            let ghost before = models(records@);
            let mut i: usize = 0;
            while i < addrs.len()
                invariant
                    i <= addrs.len(),
                    owner@ == raw_name(hostname@),
                    models(records@) == before + found(owner@, addrs@).take(i as int),
                decreases addrs.len() - i,
            {
                let data = match &addrs[i] {
                    IpAddress::V4(a) => RData::A(*a),
                    IpAddress::V6(a) => RData::AAAA(*a),
                };
                let ghost so_far = models(records@);
                records.push(Record::from_rdata(owner.clone(), LINK_TTL, data));
                assert(models(records@) =~= so_far.push(address_record(owner@, addrs@[i as int])));
                i += 1;
                assert(models(records@) =~= before + found(owner@, addrs@).take(i as int));
            }
            assert(found(owner@, addrs@).take(addrs.len() as int) =~= found(owner@, addrs@));
            Ok(Flow::Continue)
        },
        HostnamePoll::Event(HostnameResolutionEvent::AddressesRemoved(_, addrs)) => {
            let ghost before = models(records@);
            let mut kept: Vec<Record> = Vec::new();
            let mut i: usize = 0;
            assert(before.take(0) =~= Seq::empty());
            assert(models(kept@) =~= Seq::empty());
            while i < records.len()
                invariant
                    i <= records.len(),
                    before == models(records@),
                    models(kept@) == without(before.take(i as int), addrs@),
                decreases records.len() - i,
            {
                assert(before[i as int] == records@[i as int]@);
                assert(before.take(i + 1).drop_last() == before.take(i as int));
                if !is_withdrawn(&records[i], addrs) {
                    let ghost so_far = models(kept@);
                    kept.push(records[i].clone());
                    assert(models(kept@) =~= so_far.push(before[i as int]));
                }
                i += 1;
            }
            assert(before.take(records.len() as int) == before);
            *records = kept;
            Ok(Flow::Continue)
        },
        HostnamePoll::Event(HostnameResolutionEvent::SearchTimeout(_)) => Ok(Flow::Done),
        HostnamePoll::Event(HostnameResolutionEvent::SearchStopped(_)) => Ok(Flow::Done),
        HostnamePoll::Event(_) => Ok(Flow::Continue),
        HostnamePoll::Closed => Ok(Flow::Done),
    }
}

/// The data is an address.
pub open spec fn is_address(data: RDataModel) -> bool {
    data is A || data is AAAA
}

/// Every record of the list holds an address.
pub open spec fn all_addresses(records: Seq<RecordModel>) -> bool {
    forall|i: int| 0 <= i < records.len() ==> is_address(#[trigger] records[i].data)
}

/// The first four octets of an IPv6 address, as a number.
pub open spec fn leading_octets(bits: u128) -> int {
    bits as int / 0x1_0000_0000_0000_0000_0000_0000
}

/// The address of `a` stands before that of `b` in the order of record
/// data: the octets of the two, four of an IPv4 and sixteen of an IPv6
/// address, are compared from the left, and where one run of octets begins
/// the other, the shorter one stands first.
pub open spec fn stands_before(a: RDataModel, b: RDataModel) -> bool {
    match (a, b) {
        (RDataModel::A(x), RDataModel::A(y)) => x.bits < y.bits,
        (RDataModel::AAAA(x), RDataModel::AAAA(y)) => x.bits < y.bits,
        (RDataModel::A(x), RDataModel::AAAA(y)) => x.bits <= leading_octets(y.bits),
        (RDataModel::AAAA(x), RDataModel::A(y)) => leading_octets(x.bits) < y.bits,
        _ => false,
    }
}

/// The place of an address in the order of record data, as a number: the
/// sixteen octets of the address, an IPv4 address filled up with zeros,
/// then one bit more that tells the longer run from the shorter.
pub open spec fn rank(data: RDataModel) -> int {
    match data {
        RDataModel::A(a) => a.bits as int * 0x2_0000_0000_0000_0000_0000_0000,
        RDataModel::AAAA(a) => 2 * a.bits as int + 1,
        _ => -1,
    }
}

/// The ranks of two addresses stand as their octets do, and two addresses
/// of one rank are one address.
pub proof fn lemma_rank_follows_the_octets(a: RDataModel, b: RDataModel)
    requires
        is_address(a),
        is_address(b),
    ensures
        rank(a) < rank(b) <==> stands_before(a, b),
        rank(a) == rank(b) <==> a == b,
{
}

/// `record` stands in `input`, and no record before it there has its
/// address.
pub open spec fn first_of_its_rank(input: Seq<RecordModel>, record: RecordModel) -> bool {
    exists|i: int|
        0 <= i < input.len() && #[trigger] input[i] == record && forall|k: int|
            0 <= k < i ==> rank(#[trigger] input[k].data) != rank(record.data)
}

/// Some record of `out` has the address of the given rank.
pub open spec fn has_rank(out: Seq<RecordModel>, wanted: int) -> bool {
    exists|j: int| 0 <= j < out.len() && rank(#[trigger] out[j].data) == wanted
}

/// `out` is `input` without repeated addresses: its records stand in the
/// order of record data, each is the first of `input` with its address, and
/// every address of `input` is there.
pub open spec fn deduplicated(out: Seq<RecordModel>, input: Seq<RecordModel>) -> bool {
    &&& forall|i: int, j: int|
        0 <= i < j < out.len() ==> rank(#[trigger] out[i].data) < rank(#[trigger] out[j].data)
    &&& forall|j: int| 0 <= j < out.len() ==> first_of_its_rank(input, #[trigger] out[j])
    &&& forall|i: int| 0 <= i < input.len() ==> has_rank(out, rank(#[trigger] input[i].data))
}

/// The list without repeated addresses: the one list that `deduplicated`
/// relates to `input`.
pub open spec fn without_repeats(input: Seq<RecordModel>) -> Seq<RecordModel> {
    choose|out: Seq<RecordModel>| deduplicated(out, input)
}

/// Two lists without the repeated addresses of one input hold addresses of
/// the same rank at each place of the first.
proof fn lemma_deduplicated_ranks_agree(
    a: Seq<RecordModel>,
    b: Seq<RecordModel>,
    input: Seq<RecordModel>,
    upto: int,
)
    requires
        deduplicated(a, input),
        deduplicated(b, input),
        0 <= upto <= a.len(),
    ensures
        upto <= b.len(),
        forall|k: int| 0 <= k < upto ==> rank(#[trigger] a[k].data) == rank(b[k].data),
    decreases upto,
{
    if upto > 0 {
        lemma_deduplicated_ranks_agree(a, b, input, upto - 1);
        let k = upto - 1;
        assert(first_of_its_rank(input, a[k]));
        let ia = choose|i: int|
            0 <= i < input.len() && #[trigger] input[i] == a[k] && forall|m: int|
                0 <= m < i ==> rank(#[trigger] input[m].data) != rank(a[k].data);
        assert(has_rank(b, rank(input[ia].data)));
        let p = choose|p: int| 0 <= p < b.len() && rank(#[trigger] b[p].data) == rank(a[k].data);
        if p < k {
            assert(rank(a[p].data) == rank(b[p].data));
            assert(rank(a[p].data) < rank(a[k].data));
        }
        assert(k < b.len());
        if k < p {
            assert(rank(b[k].data) < rank(b[p].data));
        }
        assert(first_of_its_rank(input, b[k]));
        let ib = choose|i: int|
            0 <= i < input.len() && #[trigger] input[i] == b[k] && forall|m: int|
                0 <= m < i ==> rank(#[trigger] input[m].data) != rank(b[k].data);
        assert(has_rank(a, rank(input[ib].data)));
        let q = choose|q: int| 0 <= q < a.len() && rank(#[trigger] a[q].data) == rank(b[k].data);
        if q < k {
            assert(rank(a[q].data) == rank(b[q].data));
            assert(rank(b[q].data) < rank(b[k].data));
        }
        if k < q {
            assert(rank(a[k].data) < rank(a[q].data));
        }
        assert(rank(a[k].data) == rank(b[k].data));
    }
}

/// The list without the repeated addresses of an input is determined by
/// the input.
pub proof fn lemma_deduplicated_is_determined(
    a: Seq<RecordModel>,
    b: Seq<RecordModel>,
    input: Seq<RecordModel>,
)
    requires
        deduplicated(a, input),
        deduplicated(b, input),
    ensures
        a == b,
{
    lemma_deduplicated_ranks_agree(a, b, input, a.len() as int);
    lemma_deduplicated_ranks_agree(b, a, input, b.len() as int);
    assert forall|k: int| 0 <= k < a.len() implies a[k] == b[k] by {
        assert(rank(a[k].data) == rank(b[k].data));
        assert(first_of_its_rank(input, a[k]));
        let ia = choose|i: int|
            0 <= i < input.len() && #[trigger] input[i] == a[k] && forall|m: int|
                0 <= m < i ==> rank(#[trigger] input[m].data) != rank(a[k].data);
        assert(first_of_its_rank(input, b[k]));
        let ib = choose|i: int|
            0 <= i < input.len() && #[trigger] input[i] == b[k] && forall|m: int|
                0 <= m < i ==> rank(#[trigger] input[m].data) != rank(b[k].data);
        if ia < ib {
            assert(rank(input[ia].data) != rank(b[k].data));
        } else if ib < ia {
            assert(rank(input[ib].data) != rank(a[k].data));
        }
    }
    assert(a =~= b);
}

/// A list that is `input` without repeated addresses is `without_repeats`
/// of it.
pub proof fn lemma_without_repeats(out: Seq<RecordModel>, input: Seq<RecordModel>)
    requires
        deduplicated(out, input),
    ensures
        out == without_repeats(input),
{
    lemma_deduplicated_is_determined(out, without_repeats(input), input);
}

/// A step of the resolution of a host name adds and removes address
/// records only.
pub proof fn lemma_address_after_keeps_addresses(
    hostname: Seq<char>,
    records: Seq<RecordModel>,
    event: HostnamePoll,
)
    requires
        all_addresses(records),
    ensures
        address_after(hostname, records, event) matches Ok(next) ==> all_addresses(next.0),
{
    match event {
        HostnamePoll::Event(HostnameResolutionEvent::AddressesRemoved(_, addrs)) => {
            lemma_without_keeps_addresses(records, addrs@);
        },
        _ => {},
    }
}

/// Taking records away leaves address records where there were only such.
pub proof fn lemma_without_keeps_addresses(records: Seq<RecordModel>, addrs: Seq<IpAddress>)
    requires
        all_addresses(records),
    ensures
        all_addresses(without(records, addrs)),
    decreases records.len(),
{
    if records.len() > 0 {
        let front = records.drop_last();
        assert forall|i: int| 0 <= i < front.len() implies is_address(#[trigger] front[i].data) by {
            assert(front[i] == records[i]);
        }
        lemma_without_keeps_addresses(front, addrs);
        assert(is_address(records[records.len() - 1].data));
    }
}

/// Whether the address of `a` stands before that of `b`.
fn rank_less(a: &RData, b: &RData) -> (r: bool)
    requires
        is_address(a@),
        is_address(b@),
    ensures
        r == stands_before(a@, b@),
        r == (rank(a@) < rank(b@)),
{
    proof {
        lemma_rank_follows_the_octets(a@, b@);
    }
    match (a, b) {
        (RData::A(x), RData::A(y)) => x.bits < y.bits,
        (RData::A(x), RData::AAAA(y)) => x.bits as u128 <= y.bits / 0x1_0000_0000_0000_0000_0000_0000,
        (RData::AAAA(x), RData::A(y)) => x.bits / 0x1_0000_0000_0000_0000_0000_0000 < y.bits as u128,
        (RData::AAAA(x), RData::AAAA(y)) => x.bits < y.bits,
        _ => false,
    }
}

/// The address records without repeated addresses, in the order of the
/// addresses; of records with one address the first stays.
fn dedup_addresses(records: &Vec<Record>) -> (out: Vec<Record>)
    requires
        all_addresses(models(records@)),
    ensures
        deduplicated(models(out@), models(records@)),
        models(out@) == without_repeats(models(records@)),
{
    let ghost input = models(records@);
    let mut out: Vec<Record> = Vec::new();
    let mut i: usize = 0;
    while i < records.len()
        invariant
            i <= records.len(),
            input == models(records@),
            all_addresses(input),
            all_addresses(models(out@)),
            deduplicated(models(out@), input.take(i as int)),
        decreases records.len() - i,
    {
        let record = &records[i];
        let ghost seen = input.take(i as int);
        let ghost next = input.take(i + 1);
        let ghost old_out = models(out@);
        let ghost wanted = rank(record@.data);
        assert(input[i as int] == record@);
        assert(next[i as int] == record@);
        assert(is_address(input[i as int].data));
        let mut p: usize = 0;
        while p < out.len() && rank_less(&out[p].data, &record.data)
            invariant
                p <= out.len(),
                old_out == models(out@),
                all_addresses(old_out),
                is_address(record@.data),
                wanted == rank(record@.data),
                forall|q: int| 0 <= q < p ==> rank(#[trigger] old_out[q].data) < wanted,
            decreases out.len() - p,
        {
            assert(old_out[p as int] == out@[p as int]@);
            assert(is_address(old_out[p as int].data));
            p += 1;
            assert(old_out[p as int] == out@[p as int]@ || p == out.len());
            proof {
                if p < out.len() {
                    assert(is_address(old_out[p as int].data));
                }
            }
        }
        proof {
            if p < out.len() {
                assert(old_out[p as int] == out@[p as int]@);
                assert(is_address(old_out[p as int].data));
            }
        }
        let present = p < out.len() && !rank_less(&record.data, &out[p].data);
        proof {
            assert forall|j: int| 0 <= j < old_out.len() implies first_of_its_rank(
                next,
                #[trigger] old_out[j],
            ) by {
                assert(first_of_its_rank(seen, old_out[j]));
                let w = choose|w: int|
                    0 <= w < seen.len() && #[trigger] seen[w] == old_out[j] && forall|k: int|
                        0 <= k < w ==> rank(#[trigger] seen[k].data) != rank(old_out[j].data);
                assert(next[w] == old_out[j]);
                assert forall|k: int| 0 <= k < w implies rank(#[trigger] next[k].data) != rank(
                    old_out[j].data,
                ) by {
                    assert(next[k] == seen[k]);
                }
            }
        }
        if present {
            proof {
                assert(rank(old_out[p as int].data) == wanted);
                assert forall|k: int| 0 <= k < next.len() implies has_rank(
                    old_out,
                    rank(#[trigger] next[k].data),
                ) by {
                    if k < i {
                        assert(next[k] == seen[k]);
                        assert(has_rank(old_out, rank(seen[k].data)));
                    } else {
                        assert(rank(old_out[p as int].data) == rank(next[k].data));
                    }
                }
            }
        } else {
            out.insert(p, record.clone());
            proof {
                let new_out = models(out@);
                assert(new_out.len() == old_out.len() + 1);
                assert forall|q: int| 0 <= q < new_out.len() implies #[trigger] new_out[q] == (if q
                    < p {
                    old_out[q]
                } else if q == p {
                    record@
                } else {
                    old_out[q - 1]
                }) by {
                    if q < p {
                        assert(out@[q]@ == old_out[q]);
                    } else if q > p {
                        assert(out@[q]@ == old_out[q - 1]);
                    }
                }
                assert forall|q: int| p <= q < old_out.len() implies rank(
                    #[trigger] old_out[q].data,
                ) > wanted by {
                    assert(is_address(old_out[p as int].data));
                    if q > p {
                        assert(rank(old_out[p as int].data) < rank(old_out[q].data));
                    }
                }
                assert forall|a: int, b: int| 0 <= a < b < new_out.len() implies rank(
                    #[trigger] new_out[a].data,
                ) < rank(#[trigger] new_out[b].data) by {
                    if b < p {
                        assert(rank(old_out[a].data) < rank(old_out[b].data));
                    } else if b == p {
                        assert(rank(old_out[a].data) < wanted);
                    } else if a < p {
                        assert(rank(old_out[a].data) < wanted);
                        assert(rank(old_out[b - 1].data) > wanted);
                    } else if a == p {
                        assert(rank(old_out[b - 1].data) > wanted);
                    } else {
                        assert(rank(old_out[a - 1].data) < rank(old_out[b - 1].data));
                    }
                }
                assert forall|k: int| 0 <= k < i implies rank(#[trigger] next[k].data)
                    != wanted by {
                    assert(next[k] == seen[k]);
                    assert(has_rank(old_out, rank(seen[k].data)));
                    let j = choose|j: int|
                        0 <= j < old_out.len() && rank(#[trigger] old_out[j].data) == rank(
                            seen[k].data,
                        );
                    if j < p {
                        assert(rank(old_out[j].data) < wanted);
                    } else {
                        assert(rank(old_out[j].data) > wanted);
                    }
                }
                assert forall|j: int| 0 <= j < new_out.len() implies first_of_its_rank(
                    next,
                    #[trigger] new_out[j],
                ) by {
                    if j < p {
                        assert(first_of_its_rank(next, old_out[j]));
                    } else if j == p {
                        assert(next[i as int] == new_out[j]);
                    } else {
                        assert(first_of_its_rank(next, old_out[j - 1]));
                    }
                }
                assert forall|k: int| 0 <= k < next.len() implies has_rank(
                    new_out,
                    rank(#[trigger] next[k].data),
                ) by {
                    if k < i {
                        assert(next[k] == seen[k]);
                        assert(has_rank(old_out, rank(seen[k].data)));
                        let j = choose|j: int|
                            0 <= j < old_out.len() && rank(#[trigger] old_out[j].data) == rank(
                                seen[k].data,
                            );
                        if j < p {
                            assert(rank(new_out[j].data) == rank(next[k].data));
                        } else {
                            assert(rank(new_out[j + 1].data) == rank(next[k].data));
                        }
                    } else {
                        assert(rank(new_out[p as int].data) == rank(next[k].data));
                    }
                }
                assert forall|q: int| 0 <= q < new_out.len() implies is_address(
                    #[trigger] new_out[q].data,
                ) by {
                    if q < p {
                        assert(is_address(old_out[q].data));
                    } else if q > p {
                        assert(is_address(old_out[q - 1].data));
                    }
                }
            }
        }
        i += 1;
    }
    assert(input.take(records.len() as int) == input);
    proof {
        lemma_without_repeats(models(out@), input);
    }
    out
}

/// Whether every record of the list holds an address.
pub fn holds_only_addresses(records: &Vec<Record>) -> (r: bool)
    ensures
        r == all_addresses(models(records@)),
{
    let mut i: usize = 0;
    while i < records.len()
        invariant
            i <= records.len(),
            forall|k: int| 0 <= k < i ==> is_address(#[trigger] models(records@)[k].data),
        decreases records.len() - i,
    {
        assert(models(records@)[i as int] == records@[i as int]@);
        match &records[i].data {
            RData::A(_) => {},
            RData::AAAA(_) => {},
            _ => {
                assert(!is_address(models(records@)[i as int].data));
                return false;
            },
        }
        i += 1;
    }
    true
}

/// The records of a finished resolution without repeated addresses; a list
/// that holds anything but addresses is handed back as it is.
pub fn finish_addresses(records: Vec<Record>) -> (out: Vec<Record>)
    ensures
        all_addresses(models(records@)) ==> deduplicated(models(out@), models(records@))
            && models(out@) == without_repeats(models(records@)),
        !all_addresses(models(records@)) ==> models(out@) == models(records@),
{
    if holds_only_addresses(&records) {
        dedup_addresses(&records)
    } else {
        records
    }
}

/// The PTR records for a run of events of a browse for the service type
/// `name`, one for each instance that was resolved before the search
/// stopped or the link failed.
pub fn query_ptr(name: &Name, events: &Vec<BrowsePoll>) -> (r: Result<Vec<Record>, QueryError>)
    ensures
        match ptr_fold(name@, Seq::empty(), events@) {
            Ok(found) => r matches Ok(records) && models(records@) == found,
            Err(e) => r matches Err(got) && got == e,
        },
{
    let mut records: Vec<Record> = Vec::new();
    let mut i: usize = 0;
    assert(models(records@) =~= Seq::empty());
    assert(events@.skip(0) == events@);
    while i < events.len()
        invariant
            i <= events.len(),
            ptr_fold(name@, models(records@), events@.skip(i as int)) == ptr_fold(
                name@,
                Seq::empty(),
                events@,
            ),
        decreases events.len() - i,
    {
        assert(events@.skip(i as int)[0] == events@[i as int]);
        assert(events@.skip(i as int).drop_first() == events@.skip(i + 1));
        match ptr_step(name, &mut records, &events[i]) {
            Ok(Flow::Continue) => {},
            Ok(Flow::Done) => {
                return Ok(records);
            },
            Err(e) => {
                return Err(e);
            },
        }
        i += 1;
    }
    Ok(records)
}

/// The fewest labels of the name of a service instance: the instance, the
/// service, the protocol and the domain.
pub const INSTANCE_LABELS: usize = 4;

/// The service type of an instance: the name without its first label.
pub open spec fn enclosing_type(name: NameModel) -> NameModel {
    NameModel { labels: name.labels.skip(1), fqdn: name.fqdn }
}

/// What a question for an SRV or TXT record of `name` asks of the link: the
/// text of the name and the text of its service type. A name of fewer than
/// four labels has no service type, and nothing is asked.
pub open spec fn instance_plan(name: NameModel) -> Result<Option<(Seq<char>, Seq<char>)>, QueryError> {
    if name.labels.len() < INSTANCE_LABELS {
        Ok(None)
    } else {
        match (
            utf8_of_name(name.labels, name.fqdn),
            utf8_of_name(enclosing_type(name).labels, name.fqdn),
        ) {
            (Some(service_name), Some(service_type)) => Ok(Some((service_name, service_type))),
            _ => Err(QueryError::InvalidName(NameError::Malformed)),
        }
    }
}

/// The text of an instance name and of the service type to browse for it;
/// nothing where the name has fewer than four labels.
pub fn plan_instance_query(name: &Name) -> (r: Result<Option<(String, String)>, QueryError>)
    ensures
        match instance_plan(name@) {
            Ok(Some(plan)) => r matches Ok(Some(got)) && got.0@ == plan.0 && got.1@ == plan.1,
            Ok(None) => r matches Ok(None),
            Err(e) => r matches Err(got) && got == e,
        },
{
    let n: usize = name.labels.len();
    if n < INSTANCE_LABELS {
        return Ok(None);
    }
    let service_name = match name.to_utf8() {
        Some(text) => text,
        None => {
            return Err(QueryError::InvalidName(NameError::Malformed));
        },
    };
    let service_type = Name { labels: clone_labels(&name.labels, 1, n), fqdn: name.fqdn };
    assert(service_type@.labels =~= name@.labels.skip(1));
    match service_type.to_utf8() {
        Some(text) => Ok(Some((service_name, text))),
        None => Err(QueryError::InvalidName(NameError::Malformed)),
    }
}

/// The SRV record of the instance `name` for a run of events of a browse
/// for its service type: that of the first resolved instance of that name,
/// if one came before the search stopped or the link failed. A name of
/// fewer than four labels gives no records.
pub fn query_srv(name: &Name, events: &Vec<BrowsePoll>) -> (r: Result<Vec<Record>, QueryError>)
    ensures
        match instance_plan(name@) {
            Err(e) => r matches Err(got) && got == e,
            Ok(None) => r matches Ok(records) && records@.len() == 0,
            Ok(Some(plan)) => match srv_fold(name@, plan.0, Seq::empty(), events@) {
                Ok(found) => r matches Ok(records) && models(records@) == found,
                Err(e) => r matches Err(got) && got == e,
            },
        },
{
    let service_name = match plan_instance_query(name) {
        Ok(Some(plan)) => plan.0,
        Ok(None) => {
            return Ok(Vec::new());
        },
        Err(e) => {
            return Err(e);
        },
    };
    let mut records: Vec<Record> = Vec::new();
    let mut i: usize = 0;
    assert(models(records@) =~= Seq::empty());
    assert(events@.skip(0) == events@);
    while i < events.len()
        invariant
            i <= events.len(),
            instance_plan(name@) matches Ok(Some(plan)) && plan.0 == service_name@,
            srv_fold(name@, service_name@, models(records@), events@.skip(i as int)) == srv_fold(
                name@,
                service_name@,
                Seq::empty(),
                events@,
            ),
        decreases events.len() - i,
    {
        assert(events@.skip(i as int)[0] == events@[i as int]);
        assert(events@.skip(i as int).drop_first() == events@.skip(i + 1));
        match srv_step(name, service_name.as_str(), &mut records, &events[i]) {
            Ok(Flow::Continue) => {},
            Ok(Flow::Done) => {
                return Ok(records);
            },
            Err(e) => {
                return Err(e);
            },
        }
        i += 1;
    }
    Ok(records)
}

/// The TXT record of the instance `name` for a run of events of a browse
/// for its service type: that of the first resolved instance of that name,
/// if one came and has properties. A name of fewer than four labels gives
/// no records.
pub fn query_txt(name: &Name, events: &Vec<BrowsePoll>) -> (r: Result<Vec<Record>, QueryError>)
    ensures
        match instance_plan(name@) {
            Err(e) => r matches Err(got) && got == e,
            Ok(None) => r matches Ok(records) && records@.len() == 0,
            Ok(Some(plan)) => r matches Ok(records) && models(records@) == txt_fold(
                name@,
                plan.0,
                Seq::empty(),
                events@,
            ),
        },
{
    let service_name = match plan_instance_query(name) {
        Ok(Some(plan)) => plan.0,
        Ok(None) => {
            return Ok(Vec::new());
        },
        Err(e) => {
            return Err(e);
        },
    };
    let mut records: Vec<Record> = Vec::new();
    let mut i: usize = 0;
    assert(models(records@) =~= Seq::empty());
    assert(events@.skip(0) == events@);
    while i < events.len()
        invariant
            i <= events.len(),
            instance_plan(name@) matches Ok(Some(plan)) && plan.0 == service_name@,
            txt_fold(name@, service_name@, models(records@), events@.skip(i as int)) == txt_fold(
                name@,
                service_name@,
                Seq::empty(),
                events@,
            ),
        decreases events.len() - i,
    {
        assert(events@.skip(i as int)[0] == events@[i as int]);
        assert(events@.skip(i as int).drop_first() == events@.skip(i + 1));
        match txt_step(name, service_name.as_str(), &mut records, &events[i]) {
            Flow::Continue => {},
            Flow::Done => {
                return Ok(records);
            },
        }
        i += 1;
    }
    Ok(records)
}

/// The address records of `hostname` for a run of events of its
/// resolution, without repeated addresses.
pub fn resolve_hostname(hostname: &str, events: &Vec<HostnamePoll>) -> (r: Result<
    Vec<Record>,
    QueryError,
>)
    ensures
        match address_fold(hostname@, Seq::empty(), events@) {
            Ok(found) => r matches Ok(records) && models(records@) == without_repeats(found)
                && deduplicated(models(records@), found),
            Err(e) => r matches Err(got) && got == e,
        },
{
    let mut records: Vec<Record> = Vec::new();
    let mut i: usize = 0;
    assert(models(records@) =~= Seq::empty());
    assert(events@.skip(0) == events@);
    while i < events.len()
        invariant
            i <= events.len(),
            all_addresses(models(records@)),
            address_fold(hostname@, models(records@), events@.skip(i as int)) == address_fold(
                hostname@,
                Seq::empty(),
                events@,
            ),
        decreases events.len() - i,
    {
        assert(events@.skip(i as int)[0] == events@[i as int]);
        assert(events@.skip(i as int).drop_first() == events@.skip(i + 1));
        proof {
            lemma_address_after_keeps_addresses(hostname@, models(records@), events@[i as int]);
        }
        match address_step(hostname, &mut records, &events[i]) {
            Ok(Flow::Continue) => {},
            Ok(Flow::Done) => {
                return Ok(dedup_addresses(&records));
            },
            Err(e) => {
                return Err(e);
            },
        }
        i += 1;
    }
    Ok(dedup_addresses(&records))
}

/// The host name that a question for the addresses of `name` asks the link
/// to resolve: the lower-case text of the name with the escapes of its
/// first label put back, where the last label is `local`.
pub open spec fn address_plan(name: NameModel) -> Result<Option<Seq<char>>, QueryError> {
    match utf8_of_name(name.labels, name.fqdn) {
        None => Err(QueryError::InvalidName(NameError::Malformed)),
        Some(text) => if local_host(lowercase(text)) {
            Ok(Some(unescape_instance(lowercase(text))))
        } else {
            Ok(None)
        },
    }
}

/// The host name to resolve for a question for the addresses of `name`;
/// nothing where the name is not one of `local`.
pub fn plan_address_query(name: &Name) -> (r: Result<Option<String>, QueryError>)
    ensures
        match address_plan(name@) {
            Ok(Some(hostname)) => r matches Ok(Some(got)) && got@ == hostname,
            Ok(None) => r matches Ok(None),
            Err(e) => r matches Err(got) && got == e,
        },
{
    let text = match name.to_utf8() {
        Some(text) => text,
        None => {
            return Err(QueryError::InvalidName(NameError::Malformed));
        },
    };
    let hostname = text.as_str().to_lowercase();
    if !is_local_host(hostname.as_str()) {
        return Ok(None);
    }
    Ok(Some(unescape_instance_label(hostname.as_str())))
}

/// The address records of `name`, of both families, for a run of events of
/// the resolution of its host name. A name that is not one of `local` gives
/// no records.
pub fn query_a_aaaa(name: &Name, events: &Vec<HostnamePoll>) -> (r: Result<Vec<Record>, QueryError>)
    ensures
        match address_plan(name@) {
            Err(e) => r matches Err(got) && got == e,
            Ok(None) => r matches Ok(records) && records@.len() == 0,
            Ok(Some(hostname)) => match address_fold(hostname, Seq::empty(), events@) {
                Ok(found) => r matches Ok(records) && models(records@) == without_repeats(found)
                    && deduplicated(models(records@), found),
                Err(e) => r matches Err(got) && got == e,
            },
        },
{
    match plan_address_query(name) {
        Ok(Some(hostname)) => resolve_hostname(hostname.as_str(), events),
        Ok(None) => Ok(Vec::new()),
        Err(e) => Err(e),
    }
}

/// The SOA record of the zone, owned by `name`.
pub fn query_soa(name: &Name) -> (r: Vec<Record>)
    ensures
        models(r@) == seq![crate::dns_handler::admin_records::soa_record(name@)],
{
    let mut r: Vec<Record> = Vec::new();
    r.push(crate::dns_handler::admin_records::generate_soa_record(name));
    assert(models(r@) =~= seq![crate::dns_handler::admin_records::soa_record(name@)]);
    r
}

/// The NS record of the zone, owned by `name`.
pub fn query_ns(name: &Name) -> (r: Vec<Record>)
    ensures
        models(r@) == seq![crate::dns_handler::admin_records::ns_record(name@)],
{
    let mut r: Vec<Record> = Vec::new();
    r.push(crate::dns_handler::admin_records::generate_ns_record(name));
    assert(models(r@) =~= seq![crate::dns_handler::admin_records::ns_record(name@)]);
    r
}

/// How long to wait for the next event of a browse that has run for
/// `elapsed`: the poll interval, or nothing once the browse has run for
/// longer than it may.
pub open spec fn browse_wait(config: Config, elapsed: Duration) -> Option<Duration> {
    if elapsed.nanos > config.mdns.service_query_timeout_ms * 1_000_000 {
        None
    } else {
        Some(Duration { nanos: (config.mdns.service_poll_interval_ms * 1_000_000) as u128 })
    }
}

/// How long to wait for the next event of a resolution that has run for
/// `elapsed`: what is left of the time it may take, or nothing once none
/// is left.
pub open spec fn hostname_wait(config: Config, elapsed: Duration) -> Option<Duration> {
    if elapsed.nanos >= config.mdns.hostname_resolution_timeout_ms * 1_000_000 {
        None
    } else {
        Some(
            Duration {
                nanos: (config.mdns.hostname_resolution_timeout_ms * 1_000_000
                    - elapsed.nanos) as u128,
            },
        )
    }
}

/// How long to wait for the next event of a browse that has run for
/// `elapsed`; nothing where the browse is to end.
pub fn next_browse_wait(config: &Config, elapsed: Duration) -> (wait: Option<Duration>)
    ensures
        wait == browse_wait(*config, elapsed),
{
    if elapsed.nanos > config.service_query_timeout().nanos {
        None
    } else {
        Some(config.service_poll_interval())
    }
}

/// How long to wait for the next event of a resolution that has run for
/// `elapsed`; nothing where the resolution is to end.
pub fn next_hostname_wait(config: &Config, elapsed: Duration) -> (wait: Option<Duration>)
    ensures
        wait == hostname_wait(*config, elapsed),
{
    let limit = config.hostname_resolution_timeout();
    if elapsed.nanos >= limit.nanos {
        None
    } else {
        Some(limit.saturating_sub(elapsed))
    }
}

} // verus!
