//! The host list of a session, read from the XML report of an nmap scan:
//! the addresses that the report hints at.
//!
//! The document is cut into events by `quick_xml`; which of them count is
//! decided here.

use quick_xml::events::Event::{Empty, End, Eof, Start};
use crate::addr::{distinct_addrs, HostAddr};
use crate::distinct::{
    first_occurrences, lemma_first_occurrences, lemma_with_all_new_in_turn, with_all_new, with_new,
};
use crate::text::{decimal, push_decimal};
use quick_xml::Reader;
use vstd::prelude::*;
use vstd::string::StringExecFns;
use vstd::string::StringSliceAdditionalSpecFns;

verus! {

/// An attribute of an element: its key and its raw value.
#[derive(Clone, Debug)]
pub struct XmlAttr {
    pub key: Vec<u8>,
    pub value: Vec<u8>,
}

/// What the scan reads of one event of the document.
#[derive(Clone, Debug)]
pub enum XmlEvent {
    /// A start tag, with its name.
    Start(Vec<u8>),
    /// An end tag, with its name.
    End(Vec<u8>),
    /// An empty element, with its name and its attributes in order, `None`
    /// standing for an attribute that is not well formed.
    Empty(Vec<u8>, Vec<Option<XmlAttr>>),
    /// The end of the document.
    Eof,
    /// Text, a comment, a declaration or the like.
    Other,
    /// The document is not well formed: where the reader stood, and why.
    Failed(u64, String),
}

/// Why a report could not be read: the byte position at which the reader
/// stopped, and the reader's message.
#[derive(Clone, Debug)]
pub struct XmlFailure {
    pub position: u64,
    pub message: String,
}

/// An attribute as mathematical values.
pub struct AttrModel {
    pub key: Seq<u8>,
    pub value: Seq<u8>,
}

/// An event as mathematical values.
pub enum EventModel {
    Start(Seq<u8>),
    End(Seq<u8>),
    Empty(Seq<u8>, Seq<Option<AttrModel>>),
    Eof,
    Other,
    Failed(u64, Seq<char>),
}

/// A failure as mathematical values.
pub struct FailureModel {
    pub position: u64,
    pub message: Seq<char>,
}

impl View for XmlAttr {
    type V = AttrModel;

    open spec fn view(&self) -> AttrModel {
        AttrModel { key: self.key@, value: self.value@ }
    }
}

/// The attributes as mathematical values.
pub open spec fn attr_views(attrs: Seq<Option<XmlAttr>>) -> Seq<Option<AttrModel>> {
    attrs.map_values(
        |a: Option<XmlAttr>|
            match a {
                Some(attr) => Some(attr@),
                None => None,
            },
    )
}

impl View for XmlEvent {
    type V = EventModel;

    open spec fn view(&self) -> EventModel {
        match self {
            XmlEvent::Start(name) => EventModel::Start(name@),
            XmlEvent::End(name) => EventModel::End(name@),
            XmlEvent::Empty(name, attrs) => EventModel::Empty(name@, attr_views(attrs@)),
            XmlEvent::Eof => EventModel::Eof,
            XmlEvent::Other => EventModel::Other,
            XmlEvent::Failed(position, message) => EventModel::Failed(*position, message@),
        }
    }
}

impl View for XmlFailure {
    type V = FailureModel;

    open spec fn view(&self) -> FailureModel {
        FailureModel { position: self.position, message: self.message@ }
    }
}

/// `quick_xml::Reader`, of which the proofs see nothing but what `pending`
/// says.
#[verifier::external_type_specification]
#[verifier::external_body]
#[verifier::reject_recursive_types(R)]
pub struct ExReader<R>(Reader<R>);

/// The events that reading the document from its start gives, up to and
/// with the first that ends the reading: the end of the document, or a
/// failure. With `trim`, the white space around text is dropped.
pub uninterp spec fn xml_events(content: Seq<char>, trim: bool) -> Seq<EventModel>;

/// The events that the reader has yet to give, up to and with the first
/// that ends the reading. Of a reader that has given such an event nothing
/// is said: after the end of the document there is nothing more to read,
/// and after a failure the reader may or may not go on.
pub uninterp spec fn pending(reader: Reader<&[u8]>) -> Seq<EventModel>;

/// Whether the event ends the reading.
pub open spec fn is_last(event: EventModel) -> bool {
    event is Eof || event is Failed
}

/// Whether the events are those of one reading: the last of them ends it,
/// and none before.
pub open spec fn is_reading(events: Seq<EventModel>) -> bool {
    &&& events.len() > 0
    &&& is_last(events.last())
    &&& forall|i: int| 0 <= i < events.len() - 1 ==> !is_last(#[trigger] events[i])
}

/// `Reader::from_str` makes a reader at the start of the document, and
/// `Config::trim_text` says whether it drops the white space around text.
/// Reading a string to its end takes finitely many events.
#[verifier::external_body]
fn open_reader(content: &str, trim: bool) -> (reader: Reader<&[u8]>)
    ensures
        pending(reader) == xml_events(content@, trim),
        is_reading(pending(reader)),
{
    let mut reader = Reader::from_str(content);
    reader.config_mut().trim_text(trim);
    reader
}

/// `Reader::read_event_into` gives the next event of the document, with
/// `buf` as its working space; a failure is handed on as an event, with
/// `Reader::buffer_position` and the error's text. Of an element's
/// attributes, `BytesStart::attributes` gives each in order, or an error in
/// its place. What the reader has yet to give is stated only after an event
/// that does not end the reading.
#[verifier::external_body]
fn next_event(reader: &mut Reader<&[u8]>, buf: &mut Vec<u8>) -> (event: XmlEvent)
    ensures
        pending(*old(reader)).len() > 0 ==> event@ == pending(*old(reader)).first(),
        pending(*old(reader)).len() > 0 && !is_last(event@) ==> pending(*final(reader))
            == pending(*old(reader)).drop_first(),
{
    match reader.read_event_into(buf) {
        Ok(Start(e)) => XmlEvent::Start(e.name().as_ref().to_vec()),
        Ok(End(e)) => XmlEvent::End(e.name().as_ref().to_vec()),
        Ok(Empty(e)) => XmlEvent::Empty(
            e.name().as_ref().to_vec(),
            e.attributes().map(|a| a.ok().map(|a| XmlAttr { key: a.key.as_ref().to_vec(), value: a.value.to_vec() })).collect(),
        ),
        Ok(Eof) => XmlEvent::Eof,
        Ok(_) => XmlEvent::Other,
        Err(e) => XmlEvent::Failed(reader.buffer_position(), e.to_string()),
    }
}

/// The name of the element that holds the hints at a host.
pub open spec fn hint_name() -> Seq<u8> {
    "hosthint".spec_bytes()
}

/// The name of the element that holds an address.
pub open spec fn address_name() -> Seq<u8> {
    "address".spec_bytes()
}

/// The key of the attribute that holds the address itself.
pub open spec fn addr_key() -> Seq<u8> {
    "addr".spec_bytes()
}

/// The values of the attributes with the key `addr`, in order.
pub open spec fn addr_values(attrs: Seq<Option<AttrModel>>) -> Seq<Seq<u8>>
    decreases attrs.len(),
{
    if attrs.len() == 0 {
        Seq::empty()
    } else {
        let front = addr_values(attrs.drop_last());
        match attrs.last() {
            Some(attr) => if attr.key == addr_key() {
                front.push(attr.value)
            } else {
                front
            },
            None => front,
        }
    }
}

/// How far a scan has come: whether it stands inside a host hint, and the
/// addresses found so far, each once.
pub struct Scan {
    pub in_hosthint: bool,
    pub found: Seq<Seq<u8>>,
}

impl Scan {
    /// The scan at the start of the document.
    pub open spec fn start() -> Scan {
        Scan { in_hosthint: false, found: Seq::empty() }
    }

    /// The scan after one more event: a host hint opens and closes with its
    /// tags, and an empty address element inside one adds the values of its
    /// `addr` attributes that were not found before.
    pub open spec fn after(self, event: EventModel) -> Scan {
        match event {
            EventModel::Start(name) => if name == hint_name() {
                Scan { in_hosthint: true, ..self }
            } else {
                self
            },
            EventModel::End(name) => if name == hint_name() {
                Scan { in_hosthint: false, ..self }
            } else {
                self
            },
            EventModel::Empty(name, attrs) => if name == address_name() && self.in_hosthint {
                Scan { found: with_all_new(self.found, addr_values(attrs)), ..self }
            } else {
                self
            },
            _ => self,
        }
    }

    /// The scan after a run of events.
    pub open spec fn after_all(self, events: Seq<EventModel>) -> Scan
        decreases events.len(),
    {
        if events.len() == 0 {
            self
        } else {
            self.after_all(events.drop_last()).after(events.last())
        }
    }
}

/// The views of the addresses found.
pub open spec fn texts(found: Seq<Vec<u8>>) -> Seq<Seq<u8>> {
    found.map_values(|v: Vec<u8>| v@)
}

/// What a reading gives: the addresses found before the end of the
/// document, or the failure that ended the reading.
pub open spec fn scanned(events: Seq<EventModel>) -> Result<Seq<Seq<u8>>, FailureModel>
    recommends
        is_reading(events),
{
    match events.last() {
        EventModel::Failed(position, message) => Err(FailureModel { position, message }),
        _ => Ok(Scan::start().after_all(events.drop_last()).found),
    }
}

/// Every value that the events hint at, with its repeats, in the order of
/// the document: the values of the `addr` attributes of the empty address
/// elements inside host hints.
pub open spec fn hinted(events: Seq<EventModel>) -> Seq<Seq<u8>>
    decreases events.len(),
{
    if events.len() == 0 {
        Seq::empty()
    } else {
        let front = events.drop_last();
        match events.last() {
            EventModel::Empty(name, attrs) => if name == address_name() && Scan::start().after_all(
                front,
            ).in_hosthint {
                hinted(front) + addr_values(attrs)
            } else {
                hinted(front)
            },
            _ => hinted(front),
        }
    }
}

/// A scan finds the values that the events hint at, each once, at the
/// place where it first occurs.
pub proof fn lemma_scan_finds_first_occurrences(events: Seq<EventModel>)
    ensures
        Scan::start().after_all(events).found == first_occurrences(hinted(events)),
        Scan::start().after_all(events).found.no_duplicates(),
        forall|v: Seq<u8>| #[trigger]
            Scan::start().after_all(events).found.contains(v) <==> hinted(events).contains(v),
    decreases events.len(),
{
    if events.len() > 0 {
        let front = events.drop_last();
        lemma_scan_finds_first_occurrences(front);
        match events.last() {
            EventModel::Empty(name, attrs) => {
                lemma_with_all_new_in_turn(Seq::empty(), hinted(front), addr_values(attrs));
            },
            _ => {},
        }
    }
    lemma_first_occurrences(hinted(events));
}

/// Whether the bytes are those of `word`.
fn is_word(bytes: &Vec<u8>, word: &str) -> (same: bool)
    ensures
        same == (bytes@ == word.spec_bytes()),
{
    let other = word.as_bytes();
    if bytes.len() != other.len() {
        return false;
    }
    let mut i: usize = 0;
    while i < bytes.len()
        invariant
            i <= bytes@.len(),
            bytes@.len() == other@.len(),
            other@ == word.spec_bytes(),
            forall|k: int| 0 <= k < i ==> bytes@[k] == other@[k],
        decreases bytes@.len() - i,
    {
        if bytes[i] != other[i] {
            return false;
        }
        i = i + 1;
    }
    assert(bytes@ =~= other@);
    true
}

/// Whether the two values hold the same bytes.
fn same_bytes(a: &Vec<u8>, b: &Vec<u8>) -> (same: bool)
    ensures
        same == (a@ == b@),
{
    if a.len() != b.len() {
        return false;
    }
    let mut i: usize = 0;
    while i < a.len()
        invariant
            i <= a@.len(),
            a@.len() == b@.len(),
            forall|k: int| 0 <= k < i ==> a@[k] == b@[k],
        decreases a@.len() - i,
    {
        if a[i] != b[i] {
            return false;
        }
        i = i + 1;
    }
    assert(a@ =~= b@);
    true
}

/// Whether `value` is among the values found.
fn has_value(found: &Vec<Vec<u8>>, value: &Vec<u8>) -> (has: bool)
    ensures
        has == texts(found@).contains(value@),
{
    let mut i: usize = 0;
    while i < found.len()
        invariant
            i <= found@.len(),
            forall|k: int| 0 <= k < i ==> texts(found@)[k] != value@,
        decreases found@.len() - i,
    {
        if same_bytes(&found[i], value) {
            assert(texts(found@)[i as int] == value@);
            return true;
        }
        i = i + 1;
    }
    false
}

/// Appends the values of the attributes with the key `addr` to `found`,
/// but for those that are in it already.
fn collect_addrs(attrs: &Vec<Option<XmlAttr>>, found: &mut Vec<Vec<u8>>)
    ensures
        texts(final(found)@) == with_all_new(
            texts(old(found)@),
            addr_values(attr_views(attrs@)),
        ),
{
    let ghost views = attr_views(attrs@);
    let mut i: usize = 0;
    assert(views.subrange(0, 0) =~= Seq::<Option<AttrModel>>::empty());
    while i < attrs.len()
        invariant
            i <= attrs@.len(),
            views == attr_views(attrs@),
            texts(found@) == with_all_new(
                texts(old(found)@),
                addr_values(views.subrange(0, i as int)),
            ),
        decreases attrs@.len() - i,
    {
        let ghost before = found@;
        let ghost values = addr_values(views.subrange(0, i as int));
        proof {
            let upto = views.subrange(0, i + 1);
            assert(upto.drop_last() =~= views.subrange(0, i as int));
            assert(upto.last() == views[i as int]);
        }
        match &attrs[i] {
            Some(attr) => {
                if is_word(&attr.key, "addr") {
                    if !has_value(found, &attr.value) {
                        found.push(attr.value.clone());
                        assert(texts(found@) =~= texts(before).push(attr.value@));
                    }
                    proof {
                        let next = values.push(attr.value@);
                        assert(next.drop_last() =~= values);
                        assert(texts(found@) == with_new(texts(before), attr.value@));
                    }
                }
            },
            None => {},
        }
        i = i + 1;
    }
    assert(views.subrange(0, i as int) =~= views);
}

/// A scan of a report under way.
#[derive(Clone, Debug)]
pub struct HintScan {
    in_hosthint: bool,
    found: Vec<Vec<u8>>,
}

impl View for HintScan {
    type V = Scan;

    closed spec fn view(&self) -> Scan {
        Scan { in_hosthint: self.in_hosthint, found: texts(self.found@) }
    }
}

impl HintScan {
    /// The scan at the start of the document.
    pub fn new() -> (scan: HintScan)
        ensures
            scan@ == Scan::start(),
    {
        let scan = HintScan { in_hosthint: false, found: Vec::new() };
        assert(texts(scan.found@) =~= Seq::<Seq<u8>>::empty());
        scan
    }

    /// Takes in the next event of the document.
    pub fn feed(&mut self, event: &XmlEvent)
        ensures
            final(self)@ == old(self)@.after(event@),
    {
        match event {
            XmlEvent::Start(name) => {
                if is_word(name, "hosthint") {
                    self.in_hosthint = true;
                }
            },
            XmlEvent::End(name) => {
                if is_word(name, "hosthint") {
                    self.in_hosthint = false;
                }
            },
            XmlEvent::Empty(name, attrs) => {
                if is_word(name, "address") && self.in_hosthint {
                    collect_addrs(attrs, &mut self.found);
                }
            },
            _ => {},
        }
    }

    /// The addresses found so far, each once, in the order in which the
    /// document first gives them.
    pub fn into_found(self) -> (found: Vec<Vec<u8>>)
        ensures
            texts(found@) == self@.found,
    {
        self.found
    }
}

/// Reads the addresses of the hinted hosts out of the XML report of an nmap
/// scan: the value of each `addr` attribute of each empty `address` element
/// inside a `hosthint` element, each value once, in the order in which the
/// document first gives it. A document that is not well formed gives the
/// failure and no address.
pub fn parse_nmap_xml(content: &str) -> (result: Result<Vec<Vec<u8>>, XmlFailure>)
    ensures
        match result {
            Ok(found) => {
                &&& scanned(xml_events(content@, true)) == Ok::<Seq<Seq<u8>>, FailureModel>(
                    texts(found@),
                )
                &&& texts(found@) == first_occurrences(
                    hinted(xml_events(content@, true).drop_last()),
                )
                &&& texts(found@).no_duplicates()
            },
            Err(failure) => scanned(xml_events(content@, true)) == Err::<
                Seq<Seq<u8>>,
                FailureModel,
            >(failure@),
        },
{
    let mut reader = open_reader(content, true);
    let mut buf: Vec<u8> = Vec::new();
    let mut scan = HintScan::new();
    let ghost all = xml_events(content@, true);
    let ghost mut read: int = 0;
    assert(all.subrange(0, 0) =~= Seq::<EventModel>::empty());
    loop
        invariant
            is_reading(all),
            all == xml_events(content@, true),
            0 <= read < all.len(),
            pending(reader) == all.subrange(read, all.len() as int),
            Scan::start().after_all(all.subrange(0, read)) == scan@,
        decreases all.len() - read,
    {
        let event = next_event(&mut reader, &mut buf);
        proof {
            let upto = all.subrange(0, read + 1);
            assert(upto.drop_last() =~= all.subrange(0, read));
            assert(event@ == all[read]);
            if !is_last(event@) {
                assert(pending(reader) =~= all.subrange(read + 1, all.len() as int));
            } else {
                assert(all.drop_last() =~= all.subrange(0, read));
            }
        }
        match event {
            XmlEvent::Eof => {
                proof {
                    lemma_scan_finds_first_occurrences(all.drop_last());
                }
                return Ok(scan.into_found());
            },
            XmlEvent::Failed(position, message) => {
                return Err(XmlFailure { position, message });
            },
            other => {
                scan.feed(&other);
            },
        }
        buf.clear();
        proof {
            read = read + 1;
        }
    }
}

/// What is wrong with a report that hints at no host: none of the values
/// found in it is an address.
#[derive(Clone, Copy, Debug, PartialEq, Eq, Structural)]
pub struct NoAddress;

/// The addresses among the values found, in order: a value that is no
/// address stands as `None` and is left out.
pub open spec fn present(found: Seq<Option<HostAddr>>) -> Seq<HostAddr>
    decreases found.len(),
{
    if found.len() == 0 {
        Seq::empty()
    } else {
        match found.last() {
            Some(ip) => present(found.drop_last()).push(ip),
            None => present(found.drop_last()),
        }
    }
}

/// The message of a report that is not well formed.
pub open spec fn failure_text(failure: FailureModel) -> Seq<char> {
    "XML parse error at position "@ + decimal(failure.position as nat) + ": "@ + failure.message
}

/// The message of a report that hints at no host.
pub open spec fn no_address_text() -> Seq<char> {
    "No IP addresses found in XML file"@
}

impl XmlFailure {
    /// The message of the failure: where the reader stood, and why.
    pub fn to_text(&self) -> (text: String)
        ensures
            text@ == failure_text(self@),
    {
        let mut text = "XML parse error at position ".to_owned();
        push_decimal(&mut text, self.position as u128);
        text.append(": ");
        text.append(self.message.as_str());
        text
    }
}

impl NoAddress {
    /// The message of the failure.
    pub fn to_text(&self) -> (text: String)
        ensures
            text@ == no_address_text(),
    {
        "No IP addresses found in XML file".to_owned()
    }
}

/// The hosts of a session out of the values found in a report, each
/// converted to an address or not: every address once, at the place where
/// it first occurs. A report without any address is a failure.
pub fn hosts_from(found: &Vec<Option<HostAddr>>) -> (result: Result<Vec<HostAddr>, NoAddress>)
    ensures
        match result {
            Ok(ips) => {
                &&& ips@ == first_occurrences(present(found@))
                &&& ips@.len() > 0
                &&& ips@.no_duplicates()
            },
            Err(_) => present(found@).len() == 0,
        },
{
    let mut ips: Vec<HostAddr> = Vec::new();
    let mut i: usize = 0;
    assert(found@.subrange(0, 0) =~= Seq::<Option<HostAddr>>::empty());
    while i < found.len()
        invariant
            i <= found@.len(),
            ips@ == present(found@.subrange(0, i as int)),
        decreases found@.len() - i,
    {
        proof {
            let upto = found@.subrange(0, i + 1);
            assert(upto.drop_last() =~= found@.subrange(0, i as int));
            assert(upto.last() == found@[i as int]);
        }
        match found[i] {
            Some(ip) => {
                ips.push(ip);
            },
            None => {},
        }
        i = i + 1;
    }
    assert(found@.subrange(0, i as int) =~= found@);
    if ips.len() == 0 {
        return Err(NoAddress);
    }
    let once = distinct_addrs(&ips);
    proof {
        lemma_first_occurrences(ips@);
        assert(ips@.contains(ips@[0]));
        assert(once@.contains(ips@[0]));
    }
    Ok(once)
}

} // verus!
