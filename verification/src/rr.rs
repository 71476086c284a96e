//! Domain names and resource records.
//!
//! A name is a sequence of labels, each a run of raw bytes, and a flag that
//! says whether the name is fully qualified. Labels compare without regard to
//! ASCII case. Records carry an owner name, a time to live and typed data.

use crate::addr::{Ipv4Address, Ipv6Address};
use crate::text::chars_of;
use vstd::prelude::*;

verus! {

/// Longest label, in bytes.
pub const MAX_LABEL_LEN: usize = 63;

/// Longest name in its encoded form, in bytes.
pub const MAX_NAME_LEN: usize = 255;

/// A domain name as the contracts see it.
pub struct NameModel {
    pub labels: Seq<Seq<u8>>,
    pub fqdn: bool,
}

/// A domain name.
#[derive(Debug, PartialEq, Eq)]
pub struct Name {
    pub labels: Vec<Vec<u8>>,
    pub fqdn: bool,
}

/// Why a text or a list of labels is no name.
#[derive(Clone, Copy, Debug, PartialEq, Eq, Structural)]
pub enum NameError {
    /// A label without bytes.
    EmptyLabel,
    /// A label of more than 63 bytes.
    LabelTooLong,
    /// More than 255 bytes in the encoded name, or more than 255 labels.
    NameTooLong,
    /// The text is not in the presentation format.
    Malformed,
}

/// The labels of a list of byte vectors.
pub open spec fn labels_model(labels: Seq<Vec<u8>>) -> Seq<Seq<u8>> {
    labels.map_values(|l: Vec<u8>| l@)
}

impl View for Name {
    type V = NameModel;

    open spec fn view(&self) -> NameModel {
        NameModel { labels: labels_model(self.labels@), fqdn: self.fqdn }
    }
}

/// The ASCII lower-case form of a byte.
pub open spec fn lower_byte(b: u8) -> u8 {
    if 0x41 <= b <= 0x5a {
        (b + 0x20) as u8
    } else {
        b
    }
}

/// Two labels are the same but for ASCII case.
pub open spec fn same_label(a: Seq<u8>, b: Seq<u8>) -> bool {
    &&& a.len() == b.len()
    &&& forall|i: int| 0 <= i < a.len() ==> lower_byte(#[trigger] a[i]) == lower_byte(b[i])
}

/// Two label lists are the same, label by label, but for ASCII case.
pub open spec fn same_labels(a: Seq<Seq<u8>>, b: Seq<Seq<u8>>) -> bool {
    &&& a.len() == b.len()
    &&& forall|i: int| 0 <= i < a.len() ==> same_label(#[trigger] a[i], b[i])
}

/// Two names are equal: both or neither fully qualified, and the same labels
/// but for ASCII case.
pub open spec fn name_eq(a: NameModel, b: NameModel) -> bool {
    a.fqdn == b.fqdn && same_labels(a.labels, b.labels)
}

/// The last labels of `name` are those of `suffix`, but for ASCII case.
pub open spec fn ends_with_labels(name: Seq<Seq<u8>>, suffix: Seq<Seq<u8>>) -> bool {
    &&& suffix.len() <= name.len()
    &&& same_labels(name.skip(name.len() - suffix.len()), suffix)
}

/// The bytes of an ASCII text.
pub open spec fn label_of(s: Seq<char>) -> Seq<u8> {
    Seq::new(s.len(), |i: int| (s[i] as u32 % 0x100) as u8)
}

/// The wildcard label `*`.
pub open spec fn is_wildcard(label: Seq<u8>) -> bool {
    label == seq![0x2au8]
}

/// The number of labels, not counting a leading `*`.
pub open spec fn num_labels(name: NameModel) -> nat {
    if name.labels.len() > 0 && is_wildcard(name.labels[0]) {
        (name.labels.len() - 1) as nat
    } else {
        name.labels.len()
    }
}

/// `zone` holds `name`: the labels of `zone` end `name`.
pub open spec fn zone_of(zone: NameModel, name: NameModel) -> bool {
    ends_with_labels(name.labels, zone.labels)
}

/// The bytes the labels take in the encoded name: each label with its
/// length byte.
pub open spec fn encoded_len(labels: Seq<Seq<u8>>) -> nat
    decreases labels.len(),
{
    if labels.len() == 0 {
        0
    } else {
        encoded_len(labels.drop_last()) + labels.last().len() + 1
    }
}

/// The first fault in a list of labels, as `Name::from_labels` reports it:
/// an empty label, a label of more than 63 bytes, or more than 255 labels or
/// bytes in the encoded name, the closing root label counted. Labels without
/// a fault can stand in a name on the wire.
pub open spec fn labels_fault(labels: Seq<Seq<u8>>) -> Option<NameError> {
    if exists|i: int| 0 <= i < labels.len() && (#[trigger] labels[i]).len() == 0 {
        Some(NameError::EmptyLabel)
    } else if exists|i: int| 0 <= i < labels.len() && (#[trigger] labels[i]).len() > MAX_LABEL_LEN {
        Some(NameError::LabelTooLong)
    } else if labels.len() > 255 || encoded_len(labels) + 1 > MAX_NAME_LEN {
        Some(NameError::NameTooLong)
    } else {
        None
    }
}

/// `same_label` is an equivalence.
pub proof fn lemma_same_label_equivalence(a: Seq<u8>, b: Seq<u8>, c: Seq<u8>)
    ensures
        same_label(a, a),
        same_label(a, b) ==> same_label(b, a),
        same_label(a, b) && same_label(b, c) ==> same_label(a, c),
{
    if same_label(a, b) && same_label(b, c) {
        assert forall|i: int| 0 <= i < a.len() implies lower_byte(#[trigger] a[i]) == lower_byte(
            c[i],
        ) by {
            assert(lower_byte(a[i]) == lower_byte(b[i]));
            assert(lower_byte(b[i]) == lower_byte(c[i]));
        }
    }
    if same_label(a, b) {
        assert forall|i: int| 0 <= i < b.len() implies lower_byte(#[trigger] b[i]) == lower_byte(
            a[i],
        ) by {
            assert(lower_byte(a[i]) == lower_byte(b[i]));
        }
    }
}

/// `same_labels` is an equivalence.
pub proof fn lemma_same_labels_equivalence(a: Seq<Seq<u8>>, b: Seq<Seq<u8>>, c: Seq<Seq<u8>>)
    ensures
        same_labels(a, a),
        same_labels(a, b) ==> same_labels(b, a),
        same_labels(a, b) && same_labels(b, c) ==> same_labels(a, c),
{
    assert forall|i: int| 0 <= i < a.len() implies same_label(#[trigger] a[i], a[i]) by {
        lemma_same_label_equivalence(a[i], a[i], a[i]);
    }
    if same_labels(a, b) {
        assert forall|i: int| 0 <= i < b.len() implies same_label(#[trigger] b[i], a[i]) by {
            assert(same_label(a[i], b[i]));
            lemma_same_label_equivalence(a[i], b[i], b[i]);
        }
    }
    if same_labels(a, b) && same_labels(b, c) {
        assert forall|i: int| 0 <= i < a.len() implies same_label(#[trigger] a[i], c[i]) by {
            assert(same_label(a[i], b[i]));
            assert(same_label(b[i], c[i]));
            lemma_same_label_equivalence(a[i], b[i], c[i]);
        }
    }
}

/// The ASCII lower-case form of a byte.
pub fn to_lower_byte(b: u8) -> (r: u8)
    ensures
        r == lower_byte(b),
{
    if 0x41 <= b && b <= 0x5a {
        b + 0x20
    } else {
        b
    }
}

/// Whether two labels are the same but for ASCII case.
pub fn label_eq(a: &Vec<u8>, b: &Vec<u8>) -> (r: bool)
    ensures
        r == same_label(a@, b@),
{
    if a.len() != b.len() {
        return false;
    }
    let mut i: usize = 0;
    while i < a.len()
        invariant
            i <= a.len(),
            a.len() == b.len(),
            forall|j: int| 0 <= j < i ==> lower_byte(#[trigger] a@[j]) == lower_byte(b@[j]),
        decreases a.len() - i,
    {
        if to_lower_byte(a[i]) != to_lower_byte(b[i]) {
            return false;
        }
        i += 1;
    }
    true
}

/// The bytes of a text, one for each character.
pub fn ascii_label(s: &str) -> (l: Vec<u8>)
    ensures
        l@ == label_of(s@),
{
    let chars = chars_of(s);
    let mut l: Vec<u8> = Vec::new();
    let mut i: usize = 0;
    while i < chars.len()
        invariant
            i <= chars.len(),
            chars@ == s@,
            l@ == label_of(s@.take(i as int)),
        decreases chars.len() - i,
    {
        let code: u32 = chars[i] as u32;
        l.push((code % 0x100) as u8);
        i += 1;
        assert(l@ =~= label_of(s@.take(i as int)));
    }
    assert(s@.take(chars.len() as int) == s@);
    l
}

/// A copy of a label.
pub fn clone_label(l: &Vec<u8>) -> (r: Vec<u8>)
    ensures
        r@ == l@,
{
    let mut r: Vec<u8> = Vec::new();
    let mut i: usize = 0;
    while i < l.len()
        invariant
            i <= l.len(),
            r@ == l@.take(i as int),
        decreases l.len() - i,
    {
        r.push(l[i]);
        i += 1;
    }
    assert(l@.take(l.len() as int) == l@);
    r
}

/// A copy of the labels `labels[from..to]`.
pub(crate) fn clone_labels(labels: &Vec<Vec<u8>>, from: usize, to: usize) -> (r: Vec<Vec<u8>>)
    requires
        from <= to <= labels.len(),
    ensures
        labels_model(r@) == labels_model(labels@).subrange(from as int, to as int),
{
    let mut r: Vec<Vec<u8>> = Vec::new();
    let mut i: usize = from;
    let ghost all = labels_model(labels@);
    while i < to
        invariant
            from <= i <= to <= labels.len(),
            all == labels_model(labels@),
            r@.len() == i - from,
            forall|k: int| 0 <= k < r@.len() ==> (#[trigger] r@[k])@ == all[from + k],
        decreases to - i,
    {
        assert(all[i as int] == labels@[i as int]@);
        r.push(clone_label(&labels[i]));
        i += 1;
    }
    assert(labels_model(r@) =~= all.subrange(from as int, to as int));
    r
}

/// Whether the labels `a[a_from..]` are those of `b`, but for ASCII case.
pub(crate) fn labels_eq_from(a: &Vec<Vec<u8>>, a_from: usize, b: &Vec<Vec<u8>>) -> (r: bool)
    requires
        a_from <= a.len(),
    ensures
        r == same_labels(labels_model(a@).skip(a_from as int), labels_model(b@)),
{
    if a.len() - a_from != b.len() {
        return false;
    }
    let ghost left = labels_model(a@).skip(a_from as int);
    let ghost right = labels_model(b@);
    let mut i: usize = 0;
    while i < b.len()
        invariant
            i <= b.len(),
            a_from + b.len() == a.len(),
            left == labels_model(a@).skip(a_from as int),
            right == labels_model(b@),
            forall|j: int| 0 <= j < i ==> same_label(#[trigger] left[j], right[j]),
        decreases b.len() - i,
    {
        assert(left[i as int] == a@[a_from + i]@);
        assert(right[i as int] == b@[i as int]@);
        if !label_eq(&a[a_from + i], &b[i]) {
            return false;
        }
        i += 1;
    }
    true
}

/// The error type of `hickory_proto`.
#[verifier::external_type_specification]
#[verifier::external_body]
pub struct ExProtoError(hickory_proto::ProtoError);

/// What `hickory_proto::rr::Name::from_utf8` makes of a text: the labels and
/// whether the name is fully qualified, or nothing where it refuses the text.
pub uninterp spec fn name_of_utf8(text: Seq<char>) -> Option<(Seq<Seq<u8>>, bool)>;

/// The text that `hickory_proto::rr::Name::to_utf8` gives for a name of the
/// given labels, or nothing where the labels have a fault.
pub uninterp spec fn utf8_of_name(labels: Seq<Seq<u8>>, fqdn: bool) -> Option<Seq<char>>;

/// `hickory_proto::rr::Name::from_utf8`: parses a name in presentation
/// format. The labels and the flag of the parsed name are handed back as
/// they are; which text gives which name is left to the parser. Every name
/// it makes passes the length checks of `Label::from_raw_bytes` and of
/// `Name::append_label`, so its labels are without a fault.
#[verifier::external_body]
fn parse_utf8(text: &str) -> (r: Result<(Vec<Vec<u8>>, bool), hickory_proto::ProtoError>)
    ensures
        match r {
            Ok(parsed) => name_of_utf8(text@) == Some((labels_model(parsed.0@), parsed.1))
                && labels_fault(labels_model(parsed.0@)) is None,
            Err(_) => name_of_utf8(text@) is None,
        },
{
    let name = hickory_proto::rr::Name::from_utf8(text)?;
    Ok((name.iter().map(|label| label.to_vec()).collect(), name.is_fqdn()))
}

/// `hickory_proto::rr::Name::to_utf8`: the presentation text of the name
/// with the given labels. The name is made with `Name::from_labels`, which
/// takes exactly the labels that are without a fault; other labels give
/// nothing.
#[verifier::external_body]
fn format_utf8(labels: &Vec<Vec<u8>>, fqdn: bool) -> (r: Option<String>)
    ensures
        match r {
            Some(text) => utf8_of_name(labels_model(labels@), fqdn) == Some(text@),
            None => utf8_of_name(labels_model(labels@), fqdn) is None,
        },
        r is Some <==> labels_fault(labels_model(labels@)) is None,
{
    let mut name = hickory_proto::rr::Name::from_labels(
        labels.iter().map(|label| label.as_slice()),
    ).ok()?;
    name.set_fqdn(fqdn);
    Some(name.to_utf8())
}

impl Clone for Name {
    fn clone(&self) -> (r: Name)
        ensures
            r@ == self@,
    {
        let labels = clone_labels(&self.labels, 0, self.labels.len());
        assert(labels_model(self.labels@).subrange(0, self.labels.len() as int) == labels_model(
            self.labels@,
        ));
        Name { labels, fqdn: self.fqdn }
    }
}

impl Name {
    /// The root name: no labels, fully qualified.
    pub fn root() -> (r: Name)
        ensures
            r@.labels.len() == 0,
            r@.fqdn,
    {
        let r = Name { labels: Vec::new(), fqdn: true };
        assert(r@.labels =~= Seq::empty());
        r
    }

    /// The fully qualified name of the given labels, if they are valid.
    pub fn from_labels(labels: Vec<Vec<u8>>) -> (r: Result<Name, NameError>)
        ensures
            match r {
                Ok(name) => labels_fault(labels_model(labels@)) is None && name@ == (NameModel {
                    labels: labels_model(labels@),
                    fqdn: true,
                }),
                Err(e) => labels_fault(labels_model(labels@)) == Some(e),
            },
    {
        let ghost model = labels_model(labels@);
        let mut i: usize = 0;
        while i < labels.len()
            invariant
                i <= labels.len(),
                model == labels_model(labels@),
                forall|j: int| 0 <= j < i ==> (#[trigger] model[j]).len() != 0,
            decreases labels.len() - i,
        {
            assert(model[i as int] == labels@[i as int]@);
            if labels[i].len() == 0 {
                return Err(NameError::EmptyLabel);
            }
            i += 1;
        }
        i = 0;
        while i < labels.len()
            invariant
                i <= labels.len(),
                model == labels_model(labels@),
                forall|j: int| 0 <= j < labels.len() ==> (#[trigger] model[j]).len() != 0,
                forall|j: int| 0 <= j < i ==> (#[trigger] model[j]).len() <= MAX_LABEL_LEN,
            decreases labels.len() - i,
        {
            assert(model[i as int] == labels@[i as int]@);
            if labels[i].len() > MAX_LABEL_LEN {
                return Err(NameError::LabelTooLong);
            }
            i += 1;
        }
        if labels.len() > 255 {
            return Err(NameError::NameTooLong);
        }
        let mut total: usize = 0;
        i = 0;
        while i < labels.len()
            invariant
                i <= labels.len() <= 255,
                model == labels_model(labels@),
                forall|j: int| 0 <= j < labels.len() ==> 1 <= (#[trigger] model[j]).len() <= MAX_LABEL_LEN,
                total == encoded_len(model.take(i as int)),
                total <= 64 * i,
            decreases labels.len() - i,
        {
            assert(model[i as int] == labels@[i as int]@);
            assert(model.take(i + 1).drop_last() == model.take(i as int));
            total = total + labels[i].len() + 1;
            i += 1;
        }
        assert(model.take(labels.len() as int) == model);
        if total + 1 > MAX_NAME_LEN {
            return Err(NameError::NameTooLong);
        }
        Ok(Name { labels, fqdn: true })
    }

    /// The name that the presentation text stands for. Its labels are
    /// without a fault.
    pub fn from_utf8(text: &str) -> (r: Result<Name, NameError>)
        ensures
            match r {
                Ok(name) => name_of_utf8(text@) == Some((name@.labels, name@.fqdn))
                    && labels_fault(name@.labels) is None,
                Err(e) => e == NameError::Malformed && name_of_utf8(text@) is None,
            },
    {
        match parse_utf8(text) {
            Ok(parsed) => Ok(Name { labels: parsed.0, fqdn: parsed.1 }),
            Err(_) => Err(NameError::Malformed),
        }
    }

    /// The presentation text of the name; nothing where its labels have a
    /// fault.
    pub fn to_utf8(&self) -> (r: Option<String>)
        ensures
            match r {
                Some(text) => utf8_of_name(self@.labels, self@.fqdn) == Some(text@),
                None => utf8_of_name(self@.labels, self@.fqdn) is None,
            },
            r is Some <==> labels_fault(self@.labels) is None,
    {
        format_utf8(&self.labels, self.fqdn)
    }

    /// Whether the name is fully qualified.
    pub fn is_fqdn(&self) -> (r: bool)
        ensures
            r == self@.fqdn,
    {
        self.fqdn
    }

    /// The number of labels, not counting a leading `*`.
    pub fn num_labels(&self) -> (n: usize)
        ensures
            n == num_labels(self@),
    {
        if self.labels.len() > 0 {
            let first = &self.labels[0];
            assert(self@.labels[0] == first@);
            if first.len() == 1 && first[0] == 0x2a {
                assert(first@ =~= seq![0x2au8]);
                return self.labels.len() - 1;
            }
            assert(first@ != seq![0x2au8]) by {
                if first@.len() == 1 {
                    assert(seq![0x2au8][0] == 0x2au8);
                }
            }
        }
        self.labels.len()
    }

    /// Whether the two names are equal.
    pub fn same_as(&self, other: &Name) -> (r: bool)
        ensures
            r == name_eq(self@, other@),
    {
        if self.fqdn != other.fqdn {
            return false;
        }
        assert(self@.labels.skip(0) == self@.labels);
        labels_eq_from(&self.labels, 0, &other.labels)
    }

    /// Whether this name, as a zone, holds `name`.
    pub fn zone_of(&self, name: &Name) -> (r: bool)
        ensures
            r == zone_of(self@, name@),
    {
        if self.labels.len() > name.labels.len() {
            return false;
        }
        labels_eq_from(&name.labels, name.labels.len() - self.labels.len(), &self.labels)
    }
}

/// The type of a resource record or of a question.
#[derive(Clone, Copy, Debug, PartialEq, Eq, Structural)]
pub enum RecordType {
    A,
    AAAA,
    CNAME,
    DS,
    MX,
    NS,
    PTR,
    SOA,
    SRV,
    TXT,
    /// Any other type, by its number.
    Unknown(u16),
}

/// The data of a resource record as the contracts see it.
pub enum RDataModel {
    A(Ipv4Address),
    AAAA(Ipv6Address),
    PTR(NameModel),
    SRV { priority: u16, weight: u16, port: u16, target: NameModel },
    TXT(Seq<Seq<char>>),
    SOA {
        mname: NameModel,
        rname: NameModel,
        serial: u32,
        refresh: i32,
        retry: i32,
        expire: i32,
        minimum: u32,
    },
    NS(NameModel),
}

/// The data of a resource record.
#[derive(Debug, PartialEq, Eq)]
pub enum RData {
    A(Ipv4Address),
    AAAA(Ipv6Address),
    PTR(Name),
    SRV { priority: u16, weight: u16, port: u16, target: Name },
    TXT(Vec<String>),
    SOA {
        mname: Name,
        rname: Name,
        serial: u32,
        refresh: i32,
        retry: i32,
        expire: i32,
        minimum: u32,
    },
    NS(Name),
}

/// A resource record as the contracts see it.
pub struct RecordModel {
    pub name: NameModel,
    pub ttl: u32,
    pub data: RDataModel,
}

/// A resource record of class IN.
#[derive(Debug, PartialEq, Eq)]
pub struct Record {
    pub name: Name,
    pub ttl: u32,
    pub data: RData,
}

/// The texts of a list of strings.
pub open spec fn texts_model(texts: Seq<String>) -> Seq<Seq<char>> {
    texts.map_values(|t: String| t@)
}

impl View for RData {
    type V = RDataModel;

    open spec fn view(&self) -> RDataModel {
        match *self {
            RData::A(addr) => RDataModel::A(addr),
            RData::AAAA(addr) => RDataModel::AAAA(addr),
            RData::PTR(target) => RDataModel::PTR(target@),
            RData::SRV { priority, weight, port, target } => RDataModel::SRV {
                priority,
                weight,
                port,
                target: target@,
            },
            RData::TXT(texts) => RDataModel::TXT(texts_model(texts@)),
            RData::SOA { mname, rname, serial, refresh, retry, expire, minimum } => RDataModel::SOA {
                mname: mname@,
                rname: rname@,
                serial,
                refresh,
                retry,
                expire,
                minimum,
            },
            RData::NS(target) => RDataModel::NS(target@),
        }
    }
}

impl View for Record {
    type V = RecordModel;

    open spec fn view(&self) -> RecordModel {
        RecordModel { name: self.name@, ttl: self.ttl, data: self.data@ }
    }
}

/// The records of a list, each as the contracts see it.
pub open spec fn models(records: Seq<Record>) -> Seq<RecordModel> {
    records.map_values(|r: Record| r@)
}

/// The records of an optional list, each as the contracts see it.
pub open spec fn option_models(records: Option<Vec<Record>>) -> Option<Seq<RecordModel>> {
    match records {
        Some(list) => Some(models(list@)),
        None => None,
    }
}

/// The records of a lookup that went through, each as the contracts see
/// it, or the failure.
pub open spec fn result_models<E>(outcome: Result<Vec<Record>, E>) -> Result<Seq<RecordModel>, E> {
    match outcome {
        Ok(list) => Ok(models(list@)),
        Err(e) => Err(e),
    }
}

/// The type that goes with the data.
pub open spec fn type_of(data: RDataModel) -> RecordType {
    match data {
        RDataModel::A(_) => RecordType::A,
        RDataModel::AAAA(_) => RecordType::AAAA,
        RDataModel::PTR(_) => RecordType::PTR,
        RDataModel::SRV { .. } => RecordType::SRV,
        RDataModel::TXT(_) => RecordType::TXT,
        RDataModel::SOA { .. } => RecordType::SOA,
        RDataModel::NS(_) => RecordType::NS,
    }
}

/// The names that stand in the data of a record.
pub open spec fn names_in_data(data: RDataModel) -> Seq<NameModel> {
    match data {
        RDataModel::PTR(target) => seq![target],
        RDataModel::SRV { target, .. } => seq![target],
        RDataModel::NS(target) => seq![target],
        RDataModel::SOA { mname, rname, .. } => seq![mname, rname],
        _ => Seq::empty(),
    }
}

/// The names that stand in a record: its owner, then those in its data.
pub open spec fn names_in_record(record: RecordModel) -> Seq<NameModel> {
    seq![record.name] + names_in_data(record.data)
}

/// A copy of a list of texts.
pub fn clone_texts(texts: &Vec<String>) -> (r: Vec<String>)
    ensures
        texts_model(r@) == texts_model(texts@),
{
    let mut r: Vec<String> = Vec::new();
    let mut i: usize = 0;
    while i < texts.len()
        invariant
            i <= texts.len(),
            r@.len() == i,
            forall|k: int| 0 <= k < i ==> (#[trigger] r@[k])@ == texts@[k]@,
        decreases texts.len() - i,
    {
        r.push(texts[i].clone());
        i += 1;
    }
    assert(texts_model(r@) =~= texts_model(texts@));
    r
}

impl Clone for RData {
    fn clone(&self) -> (r: RData)
        ensures
            r@ == self@,
    {
        match self {
            RData::A(addr) => RData::A(*addr),
            RData::AAAA(addr) => RData::AAAA(*addr),
            RData::PTR(target) => RData::PTR(target.clone()),
            RData::SRV { priority, weight, port, target } => RData::SRV {
                priority: *priority,
                weight: *weight,
                port: *port,
                target: target.clone(),
            },
            RData::TXT(texts) => RData::TXT(clone_texts(texts)),
            RData::SOA { mname, rname, serial, refresh, retry, expire, minimum } => RData::SOA {
                mname: mname.clone(),
                rname: rname.clone(),
                serial: *serial,
                refresh: *refresh,
                retry: *retry,
                expire: *expire,
                minimum: *minimum,
            },
            RData::NS(target) => RData::NS(target.clone()),
        }
    }
}

impl RData {
    /// The type that goes with the data.
    pub fn record_type(&self) -> (t: RecordType)
        ensures
            t == type_of(self@),
    {
        match self {
            RData::A(_) => RecordType::A,
            RData::AAAA(_) => RecordType::AAAA,
            RData::PTR(_) => RecordType::PTR,
            RData::SRV { .. } => RecordType::SRV,
            RData::TXT(_) => RecordType::TXT,
            RData::SOA { .. } => RecordType::SOA,
            RData::NS(_) => RecordType::NS,
        }
    }
}

impl Clone for Record {
    fn clone(&self) -> (r: Record)
        ensures
            r@ == self@,
    {
        Record { name: self.name.clone(), ttl: self.ttl, data: self.data.clone() }
    }
}

impl Record {
    /// The record with the given owner, time to live and data.
    pub fn from_rdata(name: Name, ttl: u32, data: RData) -> (r: Record)
        ensures
            r@ == (RecordModel { name: name@, ttl, data: data@ }),
    {
        Record { name, ttl, data }
    }

    /// The owner name.
    pub fn name(&self) -> (n: &Name)
        ensures
            n@ == self@.name,
    {
        &self.name
    }

    /// The time to live, in seconds.
    pub fn ttl(&self) -> (t: u32)
        ensures
            t == self@.ttl,
    {
        self.ttl
    }

    /// The data.
    pub fn data(&self) -> (d: &RData)
        ensures
            d@ == self@.data,
    {
        &self.data
    }

    /// The type of the record.
    pub fn record_type(&self) -> (t: RecordType)
        ensures
            t == type_of(self@.data),
    {
        self.data.record_type()
    }

    /// Sets the time to live.
    pub fn set_ttl(&mut self, ttl: u32)
        ensures
            final(self)@ == (RecordModel { ttl, ..old(self)@ }),
    {
        self.ttl = ttl;
    }
}

/// A copy of a list of records.
pub fn clone_records(records: &Vec<Record>) -> (r: Vec<Record>)
    ensures
        models(r@) == models(records@),
{
    let mut r: Vec<Record> = Vec::new();
    let mut i: usize = 0;
    while i < records.len()
        invariant
            i <= records.len(),
            r@.len() == i,
            forall|k: int| 0 <= k < i ==> (#[trigger] r@[k])@ == records@[k]@,
        decreases records.len() - i,
    {
        r.push(records[i].clone());
        i += 1;
    }
    assert(models(r@) =~= models(records@));
    r
}

} // verus!
