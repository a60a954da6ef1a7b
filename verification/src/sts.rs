//! Talking to AWS STS: the client settings, the caller identity that STS
//! reports, the status check on its reply, and reading the identity out of
//! the `GetCallerIdentity` XML reply.

use quick_xml::events::Event;
use quick_xml::reader::Reader;
use vstd::prelude::*;
use vstd::utf8::{decode_utf8, encode_utf8, encode_utf8_decode_utf8, encode_utf8_valid_utf8, is_char_boundary};

use crate::config::{endpoint_for, endpoint_of, AwsConfig};
use crate::text::{decimal, push_decimal, same_text};

verus! {

/// The identity that STS reports for a set of credentials.
#[derive(Debug, Clone)]
pub struct CallerIdentity {
    pub account: String,
    pub arn: String,
    pub user_id: String,
}

/// Where and how to reach STS: the endpoint, the region to sign for and the
/// HTTP timeout in seconds.
pub struct StsClient {
    endpoint: String,
    region: String,
    timeout_secs: u64,
}

impl StsClient {
    /// The endpoint the client talks to.
    pub closed spec fn endpoint_text(&self) -> Seq<char> {
        self.endpoint@
    }

    /// The region the client signs for.
    pub closed spec fn region_text(&self) -> Seq<char> {
        self.region@
    }

    /// The HTTP timeout, in seconds.
    pub closed spec fn timeout(&self) -> u64 {
        self.timeout_secs
    }

    /// A client for the given AWS settings: the endpoint is the configured
    /// override or the regional endpoint, and region and timeout are taken
    /// over.
    pub fn new(config: &AwsConfig) -> (client: StsClient)
        ensures
            client.endpoint_text() == endpoint_for(*config),
            client.region_text() == config.region@,
            client.timeout() == config.timeout_secs,
    {
        StsClient {
            endpoint: endpoint_of(config),
            region: config.region.clone(),
            timeout_secs: config.timeout_secs,
        }
    }

    /// The endpoint the client talks to.
    pub fn endpoint(&self) -> (r: &str)
        ensures
            r@ == self.endpoint_text(),
    {
        self.endpoint.as_str()
    }

    /// The region the client signs for.
    pub fn region(&self) -> (r: &str)
        ensures
            r@ == self.region_text(),
    {
        self.region.as_str()
    }

    /// The HTTP timeout, in seconds.
    pub fn timeout_secs(&self) -> (r: u64)
        ensures
            r == self.timeout(),
    {
        self.timeout_secs
    }
}

/// The body of a `GetCallerIdentity` request.
pub open spec fn get_caller_identity_body() -> Seq<char> {
    "Action=GetCallerIdentity&Version=2011-06-15"@
}

/// Returns the body of a `GetCallerIdentity` request.
pub fn caller_identity_request_body() -> (r: &'static str)
    ensures
        r@ == get_caller_identity_body(),
{
    "Action=GetCallerIdentity&Version=2011-06-15"
}

/// The first `max_len` bytes of a text when it is longer, else the whole
/// text, as UTF-8 bytes.
pub open spec fn truncated_bytes(bytes: Seq<u8>, max_len: nat) -> Seq<u8> {
    if bytes.len() <= max_len {
        bytes
    } else {
        bytes.subrange(0, max_len as int)
    }
}

/// Cuts `s` down to its first `max_len` bytes. A longer text must have a
/// character boundary there (slicing `str` elsewhere would panic).
pub fn truncate(s: &str, max_len: usize) -> (r: &str)
    requires
        encode_utf8(s@).len() <= usize::MAX,
        encode_utf8(s@).len() > max_len ==> is_char_boundary(encode_utf8(s@), max_len as int),
    ensures
        encode_utf8(r@) == truncated_bytes(encode_utf8(s@), max_len as nat),
        r@ == decode_utf8(truncated_bytes(encode_utf8(s@), max_len as nat)),
{
    proof {
        encode_utf8_decode_utf8(s@);
        encode_utf8_valid_utf8(s@);
    }
    if s.len() <= max_len {
        s
    } else {
        let (head, _) = s.split_at(max_len);
        proof {
            encode_utf8_decode_utf8(head@);
        }
        head
    }
}

/// How many bytes of an error reply are quoted in the message.
pub open spec fn quoted_reply_len() -> nat {
    200
}

/// The outcome of an STS reply with the given HTTP status and body: the
/// body when the status is 200, else a message with the status and the
/// body's first 200 bytes.
pub open spec fn reply_outcome(status: u16, body: Seq<char>) -> Result<Seq<char>, Seq<char>> {
    if status == 200 {
        Ok(body)
    } else {
        Err(
            "STS HTTP "@ + decimal(status as nat) + ": "@ + decode_utf8(
                truncated_bytes(encode_utf8(body), quoted_reply_len()),
            ),
        )
    }
}

/// Accepts the body of an STS reply with status 200; any other status
/// becomes an error quoting the status and the start of the body. A body
/// longer than 200 bytes must have a character boundary at byte 200.
pub fn check_reply_status(status: u16, body: String) -> (r: Result<String, String>)
    requires
        encode_utf8(body@).len() <= usize::MAX,
        status != 200 && encode_utf8(body@).len() > 200 ==> is_char_boundary(
            encode_utf8(body@),
            200,
        ),
    ensures
        crate::validation::string_result_view(r) == reply_outcome(status, body@),
{
    if status != 200 {
        let mut m = "STS HTTP ".to_owned();
        push_decimal(&mut m, status as u128);
        m.append(": ");
        m.append(truncate(body.as_str(), 200));
        return Err(m);
    }
    Ok(body)
}

/// An XML reader event as plain values: a start tag with its name, a text
/// node unescaped (or the unescaping error), the end of input, a read
/// error, or anything else.
pub enum XmlItem {
    Start(Seq<char>),
    Text(Result<Seq<char>, Seq<char>>),
    Eof,
    Failed(Seq<char>),
    Other,
}

/// An XML reader event, as the library reads it from quick-xml.
#[derive(Debug)]
pub enum XmlEvent {
    Start(String),
    Text(Result<String, String>),
    Eof,
    Failed(String),
    Other,
}

impl View for XmlEvent {
    type V = XmlItem;

    open spec fn view(&self) -> XmlItem {
        match self {
            XmlEvent::Start(name) => XmlItem::Start(name@),
            XmlEvent::Text(Ok(t)) => XmlItem::Text(Ok(t@)),
            XmlEvent::Text(Err(e)) => XmlItem::Text(Err(e@)),
            XmlEvent::Eof => XmlItem::Eof,
            XmlEvent::Failed(e) => XmlItem::Failed(e@),
            XmlEvent::Other => XmlItem::Other,
        }
    }
}

/// Whether reading stops at this event: the end of input or an error.
pub open spec fn ends_reading(item: XmlItem) -> bool {
    item is Eof || item is Failed
}

/// Declares quick-xml's `Reader`, opaque here.
#[verifier::external_type_specification]
#[verifier::external_body]
#[verifier::reject_recursive_types(R)]
pub struct ExXmlReader<R>(Reader<R>);

/// Names the events that a quick-xml `Reader` made by `Reader::from_str`
/// over `text`, with `trim_text(true)`, returns from successive
/// `read_event` calls, up to and including the first `Eof` or error; each
/// as `XmlItem` (start-tag names decoded lossily as UTF-8, text nodes
/// unescaped, errors by their `Display` text).
pub uninterp spec fn xml_events(text: Seq<char>) -> Seq<XmlItem>;

/// Names the events a reader has still to return, up to and including the
/// first `Eof` or error.
pub uninterp spec fn xml_pending(reader: Reader<&[u8]>) -> Seq<XmlItem>;

/// Makes a quick-xml reader over `xml` that trims whitespace around text
/// (`Reader::from_str`, then `config_mut().trim_text(true)`). Trusted: the
/// events it will return are `xml_events` of the text; there is at least
/// one, the last ends reading and no earlier one does. (quick-xml consumes
/// input at least every second event and returns `Eof` at the end of the
/// input, so reading ends after finitely many events.)
#[verifier::external_body]
fn xml_reader(xml: &str) -> (r: Reader<&[u8]>)
    ensures
        xml_pending(r) == xml_events(xml@),
        xml_pending(r).len() > 0,
        ends_reading(xml_pending(r).last()),
        forall|i: int| 0 <= i < xml_pending(r).len() - 1 ==> !ends_reading(#[trigger] xml_pending(r)[i]),
{
    let mut reader = Reader::from_str(xml);
    reader.config_mut().trim_text(true);
    reader
}

/// Reads the next event (quick-xml's `read_event`), as plain values: a
/// start tag's name decoded lossily, a text node unescaped, errors by
/// their `Display` text, and every other kind of event as `Other`.
/// Trusted: it is the first pending event, and the rest stay pending.
#[verifier::external_body]
fn next_xml_event(reader: &mut Reader<&[u8]>) -> (r: XmlEvent)
    requires
        xml_pending(*old(reader)).len() > 0,
    ensures
        r@ == xml_pending(*old(reader))[0],
        xml_pending(*final(reader)) == xml_pending(*old(reader)).drop_first(),
{
    match reader.read_event() {
        Ok(Event::Start(e)) => XmlEvent::Start(String::from_utf8_lossy(e.name().as_ref()).to_string()),
        Ok(Event::Text(e)) => match e.unescape() {
            Ok(t) => XmlEvent::Text(Ok(t.to_string())),
            Err(x) => XmlEvent::Text(Err(x.to_string())),
        },
        Ok(Event::Eof) => XmlEvent::Eof,
        Ok(_) => XmlEvent::Other,
        Err(e) => XmlEvent::Failed(e.to_string()),
    }
}

/// The three fields an identity reply may carry, as far as they were seen.
pub struct IdentityFields {
    pub account: Option<Seq<char>>,
    pub arn: Option<Seq<char>>,
    pub user_id: Option<Seq<char>>,
}

/// The fields after a text node under the element `current`: the text of an
/// `Account`, `Arn` or `UserId` element replaces what was seen before.
pub open spec fn note_text(fields: IdentityFields, current: Seq<char>, text: Seq<char>) -> IdentityFields {
    if current == "Account"@ {
        IdentityFields { account: Some(text), ..fields }
    } else if current == "Arn"@ {
        IdentityFields { arn: Some(text), ..fields }
    } else if current == "UserId"@ {
        IdentityFields { user_id: Some(text), ..fields }
    } else {
        fields
    }
}

/// Reads the events in order, remembering the name of the last start tag;
/// stops with the fields at the end of input, or with an error at a read
/// error or a text node that cannot be unescaped.
pub open spec fn scan_events(events: Seq<XmlItem>, current: Seq<char>, fields: IdentityFields) -> Result<
    IdentityFields,
    Seq<char>,
>
    decreases events.len(),
{
    if events.len() == 0 {
        Ok(fields)
    } else {
        match events[0] {
            XmlItem::Start(name) => scan_events(events.drop_first(), name, fields),
            XmlItem::Text(Err(e)) => Err("XML decode error: "@ + e),
            XmlItem::Text(Ok(t)) => scan_events(events.drop_first(), current, note_text(fields, current, t)),
            XmlItem::Eof => Ok(fields),
            XmlItem::Failed(e) => Err("XML parse error: "@ + e),
            XmlItem::Other => scan_events(events.drop_first(), current, fields),
        }
    }
}

/// The identity in a reply, read from its events, or why there is none:
/// an XML error, or a missing `Account`, `Arn` or `UserId` (in that order).
pub open spec fn identity_from_items(events: Seq<XmlItem>) -> Result<(Seq<char>, Seq<char>, Seq<char>), Seq<char>> {
    match scan_events(events, Seq::<char>::empty(), IdentityFields { account: None, arn: None, user_id: None }) {
        Err(e) => Err(e),
        Ok(f) => {
            if f.account is None {
                Err("missing Account in STS response"@)
            } else if f.arn is None {
                Err("missing Arn in STS response"@)
            } else if f.user_id is None {
                Err("missing UserId in STS response"@)
            } else {
                Ok((f.account->Some_0, f.arn->Some_0, f.user_id->Some_0))
            }
        },
    }
}

/// An identity result with every string taken as characters.
pub open spec fn identity_result_view(r: Result<CallerIdentity, String>) -> Result<(Seq<char>, Seq<char>, Seq<char>), Seq<char>> {
    match r {
        Ok(id) => Ok((id.account@, id.arn@, id.user_id@)),
        Err(e) => Err(e@),
    }
}

/// Reads the identity out of the events of a `GetCallerIdentity` reply
/// (see `identity_from_items`).
pub fn identity_from_events(events: &Vec<XmlEvent>) -> (r: Result<CallerIdentity, String>)
    ensures
        identity_result_view(r) == identity_from_items(events@.map_values(|e: XmlEvent| e@)),
{
    let ghost items = events@.map_values(|e: XmlEvent| e@);
    let mut current = "".to_owned();
    let mut account: Option<String> = None;
    let mut arn: Option<String> = None;
    let mut user_id: Option<String> = None;
    let mut i: usize = 0;
    let ghost start = IdentityFields { account: None, arn: None, user_id: None };
    proof {
        reveal_strlit("");
        assert(current@ =~= Seq::<char>::empty());
        assert(items.skip(0) =~= items);
    }
    while i < events.len()
        invariant
            items == events@.map_values(|e: XmlEvent| e@),
            start == (IdentityFields { account: None, arn: None, user_id: None }),
            i <= events.len(),
            scan_events(items, Seq::<char>::empty(), start) == scan_events(
                items.skip(i as int),
                current@,
                IdentityFields {
                    account: crate::credentials::opt_text(account),
                    arn: crate::credentials::opt_text(arn),
                    user_id: crate::credentials::opt_text(user_id),
                },
            ),
        decreases events.len() - i,
    {
        let ghost rest = items.skip(i as int);
        assert(rest[0] == events@[i as int]@);
        assert(rest.drop_first() =~= items.skip(i + 1));
        match &events[i] {
            XmlEvent::Start(name) => {
                current = name.clone();
            },
            XmlEvent::Text(Err(e)) => {
                let mut m = "XML decode error: ".to_owned();
                m.append(e.as_str());
                assert(rest.len() > 0);
                assert(scan_events(items, Seq::<char>::empty(), start) == Err::<IdentityFields, Seq<char>>(m@));
                return Err(m);
            },
            XmlEvent::Text(Ok(t)) => {
                if same_text(current.as_str(), "Account") {
                    account = Some(t.clone());
                } else if same_text(current.as_str(), "Arn") {
                    arn = Some(t.clone());
                } else if same_text(current.as_str(), "UserId") {
                    user_id = Some(t.clone());
                }
            },
            XmlEvent::Eof => {
                i = events.len();
                continue;
            },
            XmlEvent::Failed(e) => {
                let mut m = "XML parse error: ".to_owned();
                m.append(e.as_str());
                assert(rest.len() > 0);
                assert(scan_events(items, Seq::<char>::empty(), start) == Err::<IdentityFields, Seq<char>>(m@));
                return Err(m);
            },
            XmlEvent::Other => {},
        }
        i += 1;
    }
    let account = match account {
        Some(a) => a,
        None => return Err("missing Account in STS response".to_owned()),
    };
    let arn = match arn {
        Some(a) => a,
        None => return Err("missing Arn in STS response".to_owned()),
    };
    let user_id = match user_id {
        Some(u) => u,
        None => return Err("missing UserId in STS response".to_owned()),
    };
    Ok(CallerIdentity { account, arn, user_id })
}

/// Reads the identity out of a `GetCallerIdentity` XML reply: the events
/// that quick-xml reads from it are taken in order (see
/// `identity_from_items`).
pub fn parse_get_caller_identity_response(xml: &str) -> (r: Result<CallerIdentity, String>)
    ensures
        identity_result_view(r) == identity_from_items(xml_events(xml@)),
{
    let mut reader = xml_reader(xml);
    let ghost all = xml_events(xml@);
    let mut events: Vec<XmlEvent> = Vec::new();
    loop
        invariant_except_break
            events@.len() < all.len(),
            xml_pending(reader) == all.skip(events@.len() as int),
        invariant
            all.len() > 0,
            ends_reading(all.last()),
            forall|i: int| 0 <= i < all.len() - 1 ==> !ends_reading(#[trigger] all[i]),
            events@.map_values(|e: XmlEvent| e@) == all.take(events@.len() as int),
        ensures
            events@.map_values(|e: XmlEvent| e@) == all,
        decreases all.len() - events@.len(),
    {
        let ev = next_xml_event(&mut reader);
        let stop = match &ev {
            XmlEvent::Eof => true,
            XmlEvent::Failed(_) => true,
            _ => false,
        };
        events.push(ev);
        assert(events@.map_values(|e: XmlEvent| e@) =~= all.take(events@.len() as int));
        if stop {
            proof {
                let k = events@.len() - 1;
                assert(events@.map_values(|e: XmlEvent| e@)[k] == all[k]);
                assert(ends_reading(all[k]));
                assert(k == all.len() - 1);
                assert(all.take(events@.len() as int) =~= all);
            }
            break;
        }
        assert(all.skip(events@.len() - 1).drop_first() =~= all.skip(events@.len() as int));
    }
    let r = identity_from_events(&events);
    r
}

/// Whether an HTTP reply's body can be quoted in a status error: its UTF-8
/// length fits a `usize`, and a longer body of a failed reply has a
/// character boundary where the quote is cut.
pub open spec fn reply_quotable(status: u16, body: Seq<char>) -> bool {
    &&& encode_utf8(body).len() <= usize::MAX
    &&& (status != 200 && encode_utf8(body).len() > 200 ==> is_char_boundary(encode_utf8(body), 200))
}

/// What STS's answer says of the identity: a transport failure passes
/// through; a reply with another status than 200 is an error; a reply with
/// status 200 is read as a `GetCallerIdentity` XML reply.
pub open spec fn reply_identity(reply: Result<(u16, Seq<char>), Seq<char>>) -> Result<
    (Seq<char>, Seq<char>, Seq<char>),
    Seq<char>,
> {
    match reply {
        Err(e) => Err(e),
        Ok(r) => match reply_outcome(r.0, r.1) {
            Err(e) => Err(e),
            Ok(body) => identity_from_items(xml_events(body)),
        },
    }
}

/// An HTTP reply (status and body) or a transport failure, as characters.
pub open spec fn reply_view(reply: Result<(u16, String), String>) -> Result<(u16, Seq<char>), Seq<char>> {
    match reply {
        Ok(r) => Ok((r.0, r.1@)),
        Err(e) => Err(e@),
    }
}

/// Reads the caller identity out of STS's answer to a `GetCallerIdentity`
/// request (see `reply_identity`).
pub fn identity_from_reply(reply: Result<(u16, String), String>) -> (r: Result<CallerIdentity, String>)
    requires
        reply matches Ok(p) ==> reply_quotable(p.0, p.1@),
    ensures
        identity_result_view(r) == reply_identity(reply_view(reply)),
{
    match reply {
        Err(e) => Err(e),
        Ok((status, body)) => {
            let body = check_reply_status(status, body)?;
            parse_get_caller_identity_response(body.as_str())
        },
    }
}

} // verus!
