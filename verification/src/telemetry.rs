//! The records that the client keeps for its observer.

use vstd::prelude::*;

use crate::ambient::utc_time_text;

verus! {

/// `serde_json::Value`.
#[verifier::external_type_specification]
#[verifier::external_body]
pub struct ExJsonValue(serde_json::Value);

/// `serde_json::Map`.
#[verifier::external_type_specification]
#[verifier::external_body]
#[verifier::reject_recursive_types(K)]
#[verifier::reject_recursive_types(V)]
pub struct ExJsonMap<K, V>(serde_json::Map<K, V>);

/// A JSON document, as far as the records need one.
pub enum Json {
    Null,
    Text(Seq<char>),
    Object(Map<Seq<char>, Json>),
    /// Anything else, by its text.
    Other(Seq<char>),
}

/// An object without members.
pub open spec fn no_members() -> Map<Seq<char>, Json> {
    Map::empty()
}

/// The document that a `serde_json::Value` holds.
pub uninterp spec fn json_content(v: serde_json::Value) -> Json;

/// The members that a `serde_json::Map` holds.
pub uninterp spec fn json_members(m: serde_json::Map<String, serde_json::Value>) -> Map<
    Seq<char>,
    Json,
>;

/// The text that the `Display` of a `serde_json::Value` writes of a document.
pub uninterp spec fn json_text(doc: Json) -> Seq<char>;

/// `serde_json::Value::Null`: the null document.
#[verifier::external_body]
fn json_null() -> (v: serde_json::Value)
    ensures
        json_content(v) == Json::Null,
{
    serde_json::Value::Null
}

/// `serde_json::Value::String`: the document that is one text.
#[verifier::external_body]
fn json_string(s: &str) -> (v: serde_json::Value)
    ensures
        json_content(v) == Json::Text(s@),
{
    serde_json::Value::String(s.to_string())
}

/// `serde_json::Value::Object`: the document with the members of `m`.
#[verifier::external_body]
fn json_object(m: serde_json::Map<String, serde_json::Value>) -> (v: serde_json::Value)
    ensures
        json_content(v) == Json::Object(json_members(m)),
{
    serde_json::Value::Object(m)
}

/// `serde_json::Map::new`: no members.
#[verifier::external_body]
fn json_map() -> (m: serde_json::Map<String, serde_json::Value>)
    ensures
        json_members(m) == no_members(),
{
    serde_json::Map::new()
}

/// `serde_json::Map::insert`: the member `key` is `v` from now on, and the
/// others are as they were.
#[verifier::external_body]
fn json_insert(m: &mut serde_json::Map<String, serde_json::Value>, key: &str, v: serde_json::Value)
    ensures
        json_members(*final(m)) == json_members(*old(m)).insert(key@, json_content(v)),
{
    m.insert(key.to_string(), v);
}

/// The `Display` of `serde_json::Value`: the text of the document. The members
/// of an object are kept in the order of their keys, so that the text depends
/// on the document alone; which text it is, is left to the name.
#[verifier::external_body]
fn json_to_string(v: &serde_json::Value) -> (s: String)
    ensures
        s@ == json_text(json_content(*v)),
{
    v.to_string()
}

/// One record: what happened, in which call, with what attributes.
#[derive(Debug, PartialEq, Eq)]
pub struct TelemetryRecord {
    pub severity: String,
    pub event: String,
    pub message: String,
    pub call_id: String,
    pub attributes: Vec<(String, String)>,
}

/// What a record holds.
#[verifier::ext_equal]
pub struct RecordView {
    pub severity: Seq<char>,
    pub event: Seq<char>,
    pub message: Seq<char>,
    pub call_id: Seq<char>,
    pub attributes: Seq<(Seq<char>, Seq<char>)>,
}

/// The texts of pairs of strings.
pub open spec fn pair_texts(pairs: Seq<(String, String)>) -> Seq<(Seq<char>, Seq<char>)> {
    Seq::new(pairs.len(), |i: int| (pairs[i].0@, pairs[i].1@))
}

impl View for TelemetryRecord {
    type V = RecordView;

    open spec fn view(&self) -> RecordView {
        RecordView {
            severity: self.severity@,
            event: self.event@,
            message: self.message@,
            call_id: self.call_id@,
            attributes: pair_texts(self.attributes@),
        }
    }
}

/// The object with the given members, of which the later ones win.
pub open spec fn object_of(pairs: Seq<(Seq<char>, Seq<char>)>) -> Map<Seq<char>, Json>
    decreases pairs.len(),
{
    if pairs.len() == 0 {
        no_members()
    } else {
        object_of(pairs.drop_last()).insert(pairs.last().0, Json::Text(pairs.last().1))
    }
}

/// The service that reports from the operating system `os`.
pub open spec fn service_name_of(os: Seq<char>) -> Seq<char> {
    if os == "android"@ || os == "ios"@ {
        "mobile-uac"@
    } else {
        "desktop-uac"@
    }
}

/// Who reports.
pub open spec fn resource_of(os: Seq<char>) -> Json {
    Json::Object(
        no_members()
            .insert("service.name"@, Json::Text(service_name_of(os)))
            .insert("service.version"@, Json::Text("1.0.0"@))
            .insert("service.env"@, Json::Text("production"@))
            .insert("host.name"@, Json::Text(os + "-device"@)),
    )
}

/// The document of a record that was made at the time `ts` on the operating
/// system `os`. A record of no call has no trace.
pub open spec fn document_of(record: RecordView, os: Seq<char>, ts: Seq<char>) -> Json {
    Json::Object(
        no_members()
            .insert("schema_v"@, Json::Text("1.0.0"@))
            .insert("ts"@, Json::Text(ts))
            .insert("severity"@, Json::Text(record.severity))
            .insert("tenant_id"@, Json::Text("sentiric_demo"@))
            .insert("resource"@, resource_of(os))
            .insert(
                "trace_id"@,
                if record.call_id.len() == 0 {
                    Json::Null
                } else {
                    Json::Text(record.call_id)
                },
            )
            .insert("span_id"@, Json::Null)
            .insert("event"@, Json::Text(record.event))
            .insert("message"@, Json::Text(record.message))
            .insert("attributes"@, Json::Object(object_of(record.attributes))),
    )
}

fn attributes_object(pairs: &Vec<(String, String)>) -> (v: serde_json::Value)
    ensures
        json_content(v) == Json::Object(object_of(pair_texts(pairs@))),
{
    let mut m = json_map();
    let mut i: usize = 0;
    while i < pairs.len()
        invariant
            i <= pairs.len(),
            json_members(m) == object_of(pair_texts(pairs@).take(i as int)),
        decreases pairs.len() - i,
    {
        json_insert(&mut m, pairs[i].0.as_str(), json_string(pairs[i].1.as_str()));
        proof {
            let seen = pair_texts(pairs@).take(i + 1);
            assert(seen.drop_last() =~= pair_texts(pairs@).take(i as int));
        }
        i += 1;
    }
    assert(pair_texts(pairs@).take(pairs@.len() as int) =~= pair_texts(pairs@));
    json_object(m)
}

/// The service that reports from the operating system `os`.
pub fn service_name(os: &str) -> (r: &'static str)
    ensures
        r@ == service_name_of(os@),
{
    let os = os.to_string();
    if os == "android".to_string() || os == "ios".to_string() {
        "mobile-uac"
    } else {
        "desktop-uac"
    }
}

impl TelemetryRecord {
    /// The text of the record as it is sent from the operating system `os`,
    /// made now.
    pub fn payload(&self, os: &str) -> (out: String)
        ensures
            exists|ts: Seq<char>| out@ == json_text(#[trigger] document_of(self@, os@, ts)),
    {
        let ts = utc_time_text();
        self.payload_at(os, ts.as_str())
    }

    /// The text of the record as it is sent from the operating system `os`,
    /// made at the time `ts`.
    pub fn payload_at(&self, os: &str, ts: &str) -> (out: String)
        ensures
            out@ == json_text(document_of(self@, os@, ts@)),
    {
        let mut host_name = os.to_string();
        host_name.append("-device");
        let mut resource = json_map();
        json_insert(&mut resource, "service.name", json_string(service_name(os)));
        json_insert(&mut resource, "service.version", json_string("1.0.0"));
        json_insert(&mut resource, "service.env", json_string("production"));
        json_insert(&mut resource, "host.name", json_string(host_name.as_str()));

        let mut doc = json_map();
        json_insert(&mut doc, "schema_v", json_string("1.0.0"));
        json_insert(&mut doc, "ts", json_string(ts));
        json_insert(&mut doc, "severity", json_string(self.severity.as_str()));
        json_insert(&mut doc, "tenant_id", json_string("sentiric_demo"));
        json_insert(&mut doc, "resource", json_object(resource));
        let trace = if self.call_id.as_str().is_empty() {
            json_null()
        } else {
            json_string(self.call_id.as_str())
        };
        json_insert(&mut doc, "trace_id", trace);
        json_insert(&mut doc, "span_id", json_null());
        json_insert(&mut doc, "event", json_string(self.event.as_str()));
        json_insert(&mut doc, "message", json_string(self.message.as_str()));
        json_insert(&mut doc, "attributes", attributes_object(&self.attributes));
        json_to_string(&json_object(doc))
    }
}

/// A record is written with all that it says, under the names that the observer
/// knows: when and how severe, who reports, in which call where there is one,
/// what happened, and its attributes.
pub proof fn a_record_is_written_with_all_it_says(
    record: &TelemetryRecord,
    os: &str,
    ts: &str,
    out: String,
)
    requires
        call_ensures(TelemetryRecord::payload_at, (record, os, ts), out),
    ensures
        out@ == json_text(
            Json::Object(
                map![
                    "schema_v"@ => Json::Text("1.0.0"@),
                    "ts"@ => Json::Text(ts@),
                    "severity"@ => Json::Text(record.severity@),
                    "tenant_id"@ => Json::Text("sentiric_demo"@),
                    "resource"@ => Json::Object(map![
                        "service.name"@ => Json::Text(
                            if os@ == "ios"@ || os@ == "android"@ {
                                "mobile-uac"@
                            } else {
                                "desktop-uac"@
                            },
                        ),
                        "service.version"@ => Json::Text("1.0.0"@),
                        "service.env"@ => Json::Text("production"@),
                        "host.name"@ => Json::Text(os@ + "-device"@),
                    ]),
                    "trace_id"@ => if record.call_id@ == Seq::<char>::empty() {
                        Json::Null
                    } else {
                        Json::Text(record.call_id@)
                    },
                    "span_id"@ => Json::Null,
                    "event"@ => Json::Text(record.event@),
                    "message"@ => Json::Text(record.message@),
                    "attributes"@ => Json::Object(object_of(pair_texts(record.attributes@))),
                ],
            ),
        ),
{
    assert(record.call_id@.len() == 0 ==> record.call_id@ =~= Seq::<char>::empty());
}

/// Every attribute is written under its name with its value; one behind it takes
/// its place where it has the same name, and leaves it alone elsewhere.
pub proof fn attributes_are_written_under_their_names(
    pairs: Seq<(Seq<char>, Seq<char>)>,
    name: Seq<char>,
    value: Seq<char>,
    other: Seq<char>,
)
    ensures
        object_of(seq![]).dom().len() == 0,
        ({
            let before = object_of(pairs);
            let after = object_of(pairs.push((name, value)));
            &&& after.dom().contains(name)
            &&& after[name] == Json::Text(value)
            &&& other != name ==> after.dom().contains(other) == before.dom().contains(other)
            &&& other != name && before.dom().contains(other) ==> after[other] == before[other]
        }),
{
    assert(pairs.push((name, value)).drop_last() =~= pairs);
    assert(object_of(seq![]).dom() =~= Set::empty());
}

} // verus!
