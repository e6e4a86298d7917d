//! Scanning of JSON and XML documents for encoded values.

use crate::encoding::detect::{detect_encoding, detection};
use crate::encoding::{decoding, Decoder, DetectionConfidence, EncodingType};
use crate::error::{DecodeckError, Failure};
use crate::text::{
    chars_of, decimal, hex_lower, push_chars, push_decimal, push_hex_lower, push_str, text_of,
    trim, trimmed, utf8_len, utf8_length, utf8_text,
};
use quick_xml::events::Event;
use vstd::prelude::*;
use vstd::utf8::{decode_utf8, valid_utf8};

verus! {

/// A JSON document, as far as the scanner looks at it: the text of strings
/// and the shape of arrays and objects. Numbers keep no value.
#[derive(Debug)]
pub enum JsonValue {
    Null,
    Bool(bool),
    Number,
    String(String),
    Array(Vec<JsonValue>),
    /// The members in the order in which the scanner visits them.
    Object(Vec<JsonMember>),
}

/// A member of a JSON object.
#[derive(Debug)]
pub struct JsonMember {
    pub key: String,
    pub value: JsonValue,
}

/// Mathematical value of a [`JsonMember`].
pub ghost struct JsonEntry {
    pub key: Seq<char>,
    pub value: JsonTree,
}

/// Mathematical value of a [`JsonValue`].
pub ghost enum JsonTree {
    Null,
    Bool(bool),
    Number,
    Text(Seq<char>),
    Array(Seq<JsonTree>),
    Object(Seq<JsonEntry>),
}

impl View for JsonValue {
    type V = JsonTree;

    open spec fn view(&self) -> JsonTree
        decreases self,
    {
        match self {
            JsonValue::Null => JsonTree::Null,
            JsonValue::Bool(b) => JsonTree::Bool(*b),
            JsonValue::Number => JsonTree::Number,
            JsonValue::String(s) => JsonTree::Text(s@),
            JsonValue::Array(items) => JsonTree::Array(
                Seq::new(
                    items.len() as nat,
                    |i: int|
                        if 0 <= i < items.len() {
                            items[i].view()
                        } else {
                            JsonTree::Null
                        },
                ),
            ),
            JsonValue::Object(members) => JsonTree::Object(
                Seq::new(
                    members.len() as nat,
                    |i: int|
                        if 0 <= i < members.len() {
                            JsonEntry { key: members[i].key@, value: members[i].value.view() }
                        } else {
                            JsonEntry { key: Seq::empty(), value: JsonTree::Null }
                        },
                ),
            ),
        }
    }
}

/// `serde_json::Value`, a parsed JSON document.
#[verifier::external_type_specification]
#[verifier::external_body]
pub struct ExSerdeJsonValue(serde_json::Value);

/// The document that a parsed `serde_json::Value` holds, the members of an
/// object in the order in which the value hands them out.
pub uninterp spec fn json_tree(value: serde_json::Value) -> JsonTree;

/// What `serde_json` makes of `text`: the document it holds, or the parser's
/// description of what is wrong with it.
pub uninterp spec fn json_document(text: Seq<char>) -> Result<JsonTree, Seq<char>>;

/// `serde_json::from_str` for a `serde_json::Value`. The result depends on
/// the text alone; a fault is handed on as the text that the parser's error
/// displays.
#[verifier::external_body]
pub(crate) fn parse_json(input: &str) -> (r: Result<serde_json::Value, String>)
    ensures
        match r {
            Ok(value) => json_document(input@) == Ok::<JsonTree, Seq<char>>(json_tree(value)),
            Err(reason) => json_document(input@) == Err::<JsonTree, Seq<char>>(reason@),
        },
{
    serde_json::from_str::<serde_json::Value>(input).map_err(|e| e.to_string())
}

/// Copies a `serde_json::Value` into the library's own type, variant by
/// variant: the text of strings, the items of arrays, and the members of
/// objects in the order of the value's own iteration.
#[verifier::external_body]
pub(crate) fn json_value_of(value: &serde_json::Value) -> (out: JsonValue)
    ensures
        out@ == json_tree(*value),
{
    match value {
        serde_json::Value::Null => JsonValue::Null,
        serde_json::Value::Bool(b) => JsonValue::Bool(*b),
        serde_json::Value::Number(_) => JsonValue::Number,
        serde_json::Value::String(s) => JsonValue::String(s.clone()),
        serde_json::Value::Array(items) => JsonValue::Array(items.iter().map(json_value_of).collect()),
        serde_json::Value::Object(members) => JsonValue::Object(
            members.iter().map(|(k, v)| JsonMember { key: k.clone(), value: json_value_of(v) }).collect(),
        ),
    }
}

/// `quick_xml::Reader`, which hands out the events of an XML document.
#[verifier::external_type_specification]
#[verifier::external_body]
#[verifier::reject_recursive_types(R)]
pub struct ExXmlReader<R>(quick_xml::Reader<R>);

/// What the scanner reads from an XML document, one step at a time.
#[derive(Debug)]
pub enum XmlEvent {
    /// A start tag, with its attributes in the order of the tag. The tag of
    /// an empty element counts as a start tag with an end tag right after it.
    Start { name: String, attributes: Vec<XmlAttribute> },
    /// Character data between tags, unescaped.
    Text(String),
    /// An end tag.
    End,
    /// The end of the document.
    Eof,
    /// Anything else: comments, character data sections, declarations,
    /// processing instructions and the like.
    Other,
    /// The document is no XML; the parser's description of the fault.
    Malformed(String),
}

/// An attribute of a start tag.
#[derive(Debug)]
pub struct XmlAttribute {
    pub name: String,
    pub value: String,
}

/// Mathematical value of an [`XmlAttribute`].
pub ghost struct XmlPair {
    pub name: Seq<char>,
    pub value: Seq<char>,
}

/// Mathematical value of an [`XmlEvent`].
pub ghost enum XmlItem {
    Start { name: Seq<char>, attributes: Seq<XmlPair> },
    Text(Seq<char>),
    End,
    Eof,
    Other,
    Malformed(Seq<char>),
}

impl View for XmlAttribute {
    type V = XmlPair;

    open spec fn view(&self) -> XmlPair {
        XmlPair { name: self.name@, value: self.value@ }
    }
}

impl View for XmlEvent {
    type V = XmlItem;

    open spec fn view(&self) -> XmlItem {
        match self {
            XmlEvent::Start { name, attributes } => XmlItem::Start {
                name: name@,
                attributes: Seq::new(attributes.len() as nat, |i: int| attributes[i]@),
            },
            XmlEvent::Text(text) => XmlItem::Text(text@),
            XmlEvent::End => XmlItem::End,
            XmlEvent::Eof => XmlItem::Eof,
            XmlEvent::Other => XmlItem::Other,
            XmlEvent::Malformed(reason) => XmlItem::Malformed(reason@),
        }
    }
}

/// The events that `quick-xml` reads from `text`, up to and including the
/// end of the document or the first fault. Text is trimmed, and the tag of an
/// empty element such as `<a b="c"/>` is read as a start tag with its
/// attributes, followed by an end tag.
pub uninterp spec fn xml_events(text: Seq<char>) -> Seq<XmlItem>;

/// The events that `reader` has yet to hand out, up to and including the
/// end of the document or the first fault.
pub uninterp spec fn pending_events(reader: quick_xml::Reader<&[u8]>) -> Seq<XmlItem>;

/// Whether an event is the last that a reader hands out.
pub open spec fn is_last_event(item: XmlItem) -> bool {
    item is Eof || item is Malformed
}

/// A run of events that ends, and ends only, with the end of the document
/// or a fault.
pub open spec fn is_event_stream(events: Seq<XmlItem>) -> bool {
    &&& events.len() > 0
    &&& is_last_event(events.last())
    &&& forall|i: int| 0 <= i < events.len() - 1 ==> !is_last_event(#[trigger] events[i])
}

/// `quick_xml::Reader::from_str`, set to trim the text it reads and to hand
/// out the tag of an empty element as a start tag followed by an end tag
/// (`trim_text` and `expand_empty_elements` of its configuration). What
/// the reader will hand out depends on the text alone, and it comes to the
/// end of the document or to a fault after finitely many events.
#[verifier::external_body]
pub(crate) fn open_reader<'a>(input: &'a str) -> (reader: quick_xml::Reader<&'a [u8]>)
    ensures
        pending_events(reader) == xml_events(input@),
        is_event_stream(pending_events(reader)),
{
    let mut reader = quick_xml::Reader::from_str(input);
    reader.config_mut().trim_text(true);
    reader.config_mut().expand_empty_elements = true;
    reader
}

/// What reading one event does to a reader with `before` to hand out: the
/// event it hands out is the first of `before`, and unless that was the
/// last event, the rest of `before` is what it has yet to hand out.
pub open spec fn hands_out(before: Seq<XmlItem>, event: XmlItem, after: Seq<XmlItem>) -> bool {
    before.len() > 0 ==> {
        &&& event == before.first()
        &&& !is_last_event(event) ==> after == before.drop_first()
    }
}

/// `quick_xml::Reader::read_event`, with the event copied into the library's
/// own type: names and attributes as text, invalid UTF-8 replaced, character
/// data unescaped, and empty where it cannot be. The reader hands out
/// the first of its pending events and keeps the rest.
#[verifier::external_body]
pub(crate) fn read_event(reader: &mut quick_xml::Reader<&[u8]>) -> (event: XmlEvent)
    ensures
        hands_out(pending_events(*old(reader)), event@, pending_events(*final(reader))),
{
    let text = |bytes: &[u8]| String::from_utf8_lossy(bytes).to_string();
    match reader.read_event() {
        Ok(Event::Start(e)) => XmlEvent::Start {
            name: text(e.name().as_ref()),
            attributes: e.attributes().flatten().map(
                |a| XmlAttribute { name: text(a.key.as_ref()), value: text(&a.value) },
            ).collect(),
        },
        Ok(Event::Text(e)) => XmlEvent::Text(e.unescape().unwrap_or_default().to_string()),
        Ok(Event::End(_)) => XmlEvent::End,
        Ok(Event::Eof) => XmlEvent::Eof,
        Ok(_) => XmlEvent::Other,
        Err(e) => XmlEvent::Malformed(e.to_string()),
    }
}

/// An encoded value found in a document.
#[derive(Debug, Clone)]
pub struct Finding {
    /// Where the value stands: a JSON path or an XPath.
    pub path: String,
    /// The value without surrounding whitespace.
    pub original: String,
    /// The decoded text, or `(binary: ..)` with the bytes in hexadecimal.
    pub decoded: String,
    /// The encoding that was detected.
    pub encoding: EncodingType,
    /// How sure the detection was.
    pub confidence: DetectionConfidence,
    /// Whether the decoded bytes are UTF-8 text.
    pub is_text: bool,
}

/// Mathematical value of a [`Finding`].
pub ghost struct FindingView {
    pub path: Seq<char>,
    pub original: Seq<char>,
    pub decoded: Seq<char>,
    pub encoding: EncodingType,
    pub confidence: DetectionConfidence,
    pub is_text: bool,
}

impl View for Finding {
    type V = FindingView;

    open spec fn view(&self) -> FindingView {
        FindingView {
            path: self.path@,
            original: self.original@,
            decoded: self.decoded@,
            encoding: self.encoding,
            confidence: self.confidence,
            is_text: self.is_text,
        }
    }
}

/// What scanning a document gave.
#[derive(Debug, Clone)]
pub struct ScanResult {
    /// The encoded values, in the order of the document.
    pub findings: Vec<Finding>,
    /// Number of values that were looked at.
    pub values_scanned: usize,
    /// `json` or `xml`.
    pub format: String,
}

/// Mathematical value of a [`ScanResult`].
pub ghost struct ScanView {
    pub findings: Seq<FindingView>,
    pub values_scanned: nat,
    pub format: Seq<char>,
}

/// The mathematical values of a list of findings.
pub open spec fn finding_views(findings: Seq<Finding>) -> Seq<FindingView> {
    Seq::new(findings.len(), |i: int| findings[i]@)
}

impl View for ScanResult {
    type V = ScanView;

    open spec fn view(&self) -> ScanView {
        ScanView {
            findings: finding_views(self.findings@),
            values_scanned: self.values_scanned as nat,
            format: self.format@,
        }
    }
}

/// How decoded bytes are shown: as the text they encode in UTF-8, or, where
/// they are no UTF-8, as `(binary: ..)` with the bytes in lowercase hexadecimal.
pub open spec fn shown(bytes: Seq<u8>) -> Seq<char> {
    if valid_utf8(bytes) {
        decode_utf8(bytes)
    } else {
        "(binary: "@ + hex_lower(bytes) + ")"@
    }
}

/// The finding that a value at `path` gives, if any. The value is looked
/// at without surrounding whitespace. There is none if it has fewer than
/// four bytes, if its encoding is detected with low confidence only, or if
/// it cannot be decoded.
pub open spec fn finding_in(value: Seq<char>, path: Seq<char>) -> Option<FindingView> {
    let t = trimmed(value);
    let info = detection(t);
    if utf8_len(t) < 4 {
        None
    } else if info.confidence == DetectionConfidence::Low {
        None
    } else {
        match decoding(info.encoding_type, t) {
            Ok(bytes) => Some(
                FindingView {
                    path,
                    original: t,
                    decoded: shown(bytes),
                    encoding: info.encoding_type,
                    confidence: info.confidence,
                    is_text: valid_utf8(bytes),
                },
            ),
            Err(_) => None,
        }
    }
}

/// The findings of one value, as a list of none or one.
pub open spec fn findings_of(value: Seq<char>, path: Seq<char>) -> Seq<FindingView> {
    match finding_in(value, path) {
        Some(finding) => seq![finding],
        None => Seq::empty(),
    }
}

/// A count that stops at the largest `usize`.
pub open spec fn capped(count: int) -> nat {
    if count <= usize::MAX {
        count as nat
    } else {
        usize::MAX as nat
    }
}

/// The path of the item at `index` of the array at `path`.
pub open spec fn index_path(path: Seq<char>, index: nat) -> Seq<char> {
    path + seq!['['] + decimal(index) + seq![']']
}

/// The path of the member `key` of the object at `path`.
pub open spec fn member_path(path: Seq<char>, key: Seq<char>) -> Seq<char> {
    path + seq!['.'] + key
}

/// The findings in `tree`, which stands at `path`: those of a string, or of
/// the items of an array and the members of an object, in their order.
pub open spec fn json_findings(tree: JsonTree, path: Seq<char>) -> Seq<FindingView>
    decreases tree, 0nat,
{
    match tree {
        JsonTree::Text(s) => findings_of(s, path),
        JsonTree::Array(items) => array_findings(items, path, items.len()),
        JsonTree::Object(members) => object_findings(members, path, members.len()),
        _ => Seq::empty(),
    }
}

/// The findings in the first `count` items of an array at `path`.
pub open spec fn array_findings(items: Seq<JsonTree>, path: Seq<char>, count: nat) -> Seq<FindingView>
    decreases items, count,
{
    if count == 0 || count > items.len() {
        Seq::empty()
    } else {
        array_findings(items, path, (count - 1) as nat) + json_findings(
            items[count - 1],
            index_path(path, (count - 1) as nat),
        )
    }
}

/// The findings in the first `count` members of an object at `path`.
pub open spec fn object_findings(
    members: Seq<JsonEntry>,
    path: Seq<char>,
    count: nat,
) -> Seq<FindingView>
    decreases members, count,
{
    if count == 0 || count > members.len() {
        Seq::empty()
    } else {
        object_findings(members, path, (count - 1) as nat) + json_findings(
            members[count - 1].value,
            member_path(path, members[count - 1].key),
        )
    }
}

/// Number of strings in `tree`.
pub open spec fn json_strings(tree: JsonTree) -> nat
    decreases tree, 0nat,
{
    match tree {
        JsonTree::Text(_) => 1,
        JsonTree::Array(items) => array_strings(items, items.len()),
        JsonTree::Object(members) => object_strings(members, members.len()),
        _ => 0,
    }
}

/// Number of strings in the first `count` items of an array.
pub open spec fn array_strings(items: Seq<JsonTree>, count: nat) -> nat
    decreases items, count,
{
    if count == 0 || count > items.len() {
        0
    } else {
        array_strings(items, (count - 1) as nat) + json_strings(items[count - 1])
    }
}

/// Number of strings in the first `count` members of an object.
pub open spec fn object_strings(members: Seq<JsonEntry>, count: nat) -> nat
    decreases members, count,
{
    if count == 0 || count > members.len() {
        0
    } else {
        object_strings(members, (count - 1) as nat) + json_strings(members[count - 1].value)
    }
}

/// What scanning the JSON document `tree` gives: its findings from the root
/// path `$` on, and the number of its strings.
pub open spec fn json_scan(tree: JsonTree) -> ScanView {
    ScanView {
        findings: json_findings(tree, seq!['$']),
        values_scanned: capped(json_strings(tree) as int),
        format: "json"@,
    }
}

/// The value of an array holds the values of its items.
pub proof fn lemma_array_view(items: Vec<JsonValue>)
    ensures
        JsonValue::Array(items)@ is Array,
        JsonValue::Array(items)@->Array_0.len() == items.len(),
        forall|j: int|
            0 <= j < items.len() ==> JsonValue::Array(items)@->Array_0[j] == #[trigger] items[j]@,
{
}

/// The value of an object holds the keys and values of its members.
pub proof fn lemma_object_view(members: Vec<JsonMember>)
    ensures
        JsonValue::Object(members)@ is Object,
        JsonValue::Object(members)@->Object_0.len() == members.len(),
        forall|j: int|
            0 <= j < members.len() ==> JsonValue::Object(members)@->Object_0[j] == (JsonEntry {
                key: (#[trigger] members[j]).key@,
                value: members[j].value@,
            }),
{
}

/// Shows decoded bytes as text, and tells whether they are text.
pub fn show_bytes(bytes: &Vec<u8>) -> (r: (String, bool))
    ensures
        r.0@ == shown(bytes@),
        r.1 == valid_utf8(bytes@),
{
    match utf8_text(bytes.as_slice()) {
        Ok(text) => (text, true),
        Err(_) => {
            let mut marker = chars_of("(binary: ");
            push_hex_lower(&mut marker, bytes);
            push_str(&mut marker, ")");
            (text_of(&marker), false)
        },
    }
}

/// Looks at one value of a document and reports what it decodes to.
pub fn try_decode_value(value: &str, path: &str) -> (found: Option<Finding>)
    ensures
        match found {
            Some(finding) => finding_in(value@, path@) == Some(finding@),
            None => finding_in(value@, path@) is None,
        },
{
    let chars = chars_of(value);
    let t = trim(&chars);
    if utf8_length(&t) < 4 {
        return None;
    }
    let original = text_of(&t);
    let info = detect_encoding(original.as_str());
    if info.confidence == DetectionConfidence::Low {
        return None;
    }
    match info.encoding_type.decoder().decode(original.as_str()) {
        Ok(bytes) => {
            let (decoded, is_text) = show_bytes(&bytes);
            Some(
                Finding {
                    path: String::from_str(path),
                    original,
                    decoded,
                    encoding: info.encoding_type,
                    confidence: info.confidence,
                    is_text,
                },
            )
        },
        Err(_) => None,
    }
}

/// Adds to `findings` what the value at `path` gives, and counts the value.
pub fn scan_value(value: &str, path: &Vec<char>, findings: &mut Vec<Finding>, scanned: &mut usize)
    ensures
        finding_views(final(findings)@) == finding_views(old(findings)@) + findings_of(
            value@,
            path@,
        ),
        *final(scanned) == capped(*old(scanned) + 1),
{
    if *scanned < usize::MAX {
        *scanned = *scanned + 1;
    }
    let place = text_of(path);
    match try_decode_value(value, place.as_str()) {
        Some(finding) => {
            findings.push(finding);
            assert(finding_views(findings@) =~= finding_views(old(findings)@) + findings_of(
                value@,
                path@,
            ));
        },
        None => {
            assert(finding_views(findings@) =~= finding_views(old(findings)@) + findings_of(
                value@,
                path@,
            ));
        },
    }
}

/// Adds to `findings` what `value`, which stands at `path`, holds, and
/// counts its strings.
pub fn scan_json_value(
    value: &JsonValue,
    path: &Vec<char>,
    findings: &mut Vec<Finding>,
    scanned: &mut usize,
)
    ensures
        finding_views(final(findings)@) == finding_views(old(findings)@) + json_findings(
            value@,
            path@,
        ),
        *final(scanned) == capped(*old(scanned) + json_strings(value@)),
    decreases value,
{
    match value {
        JsonValue::String(s) => {
            scan_value(s.as_str(), path, findings, scanned);
        },
        JsonValue::Array(items) => {
            let ghost views = value@->Array_0;
            let mut i: usize = 0;
            proof {
                lemma_array_view(*items);
            }
            assert(finding_views(findings@) =~= finding_views(old(findings)@) + array_findings(
                views,
                path@,
                0,
            ));
            while i < items.len()
                invariant
                    i <= items.len(),
                    value == JsonValue::Array(*items),
                    views == value@->Array_0,
                    views.len() == items.len(),
                    forall|j: int| 0 <= j < items.len() ==> views[j] == #[trigger] items[j]@,
                    finding_views(findings@) == finding_views(old(findings)@) + array_findings(
                        views,
                        path@,
                        i as nat,
                    ),
                    *scanned == capped(*old(scanned) + array_strings(views, i as nat)),
                decreases items.len() - i,
            {
                let mut item_path = path.clone();
                item_path.push('[');
                push_decimal(&mut item_path, i);
                item_path.push(']');
                assert(item_path@ =~= index_path(path@, i as nat));
                scan_json_value(&items[i], &item_path, findings, scanned);
                assert(finding_views(findings@) =~= finding_views(old(findings)@) + array_findings(
                    views,
                    path@,
                    (i + 1) as nat,
                ));
                i += 1;
            }
        },
        JsonValue::Object(members) => {
            let ghost views = value@->Object_0;
            let mut i: usize = 0;
            proof {
                lemma_object_view(*members);
            }
            assert(finding_views(findings@) =~= finding_views(old(findings)@) + object_findings(
                views,
                path@,
                0,
            ));
            while i < members.len()
                invariant
                    i <= members.len(),
                    value == JsonValue::Object(*members),
                    views == value@->Object_0,
                    views.len() == members.len(),
                    forall|j: int|
                        0 <= j < members.len() ==> views[j] == (JsonEntry {
                            key: (#[trigger] members[j]).key@,
                            value: members[j].value@,
                        }),
                    finding_views(findings@) == finding_views(old(findings)@) + object_findings(
                        views,
                        path@,
                        i as nat,
                    ),
                    *scanned == capped(*old(scanned) + object_strings(views, i as nat)),
                decreases members.len() - i,
            {
                let mut key_path = path.clone();
                key_path.push('.');
                push_str(&mut key_path, members[i].key.as_str());
                assert(key_path@ =~= member_path(path@, members[i as int].key@));
                scan_json_value(&members[i].value, &key_path, findings, scanned);
                assert(finding_views(findings@) =~= finding_views(old(findings)@)
                    + object_findings(views, path@, (i + 1) as nat));
                i += 1;
            }
        },
        _ => {
            assert(finding_views(findings@) =~= finding_views(old(findings)@) + json_findings(
                value@,
                path@,
            ));
        },
    }
}

/// Scans a JSON document for encoded values.
pub fn scan_document(document: &JsonValue) -> (found: ScanResult)
    ensures
        found@ == json_scan(document@),
{
    let mut findings: Vec<Finding> = Vec::new();
    let mut values_scanned: usize = 0;
    let mut root: Vec<char> = Vec::new();
    root.push('$');
    assert(root@ =~= seq!['$']);
    scan_json_value(document, &root, &mut findings, &mut values_scanned);
    assert(finding_views(findings@) =~= json_findings(document@, seq!['$']));
    ScanResult { findings, values_scanned, format: String::from_str("json") }
}

/// What scanning `input` as JSON gives: the scan of the document that the
/// parser reads from it, or `DecodeFailed` with the parser's description.
pub open spec fn json_scan_of(input: Seq<char>) -> Result<ScanView, Failure> {
    match json_document(input) {
        Ok(tree) => Ok(json_scan(tree)),
        Err(reason) => Err(Failure::DecodeFailed { message: "Invalid JSON: "@ + reason }),
    }
}

/// The names of `stack` joined into a path: `/a/b` for `a`, `b`.
pub open spec fn joined(stack: Seq<Seq<char>>) -> Seq<char>
    decreases stack.len(),
{
    if stack.len() == 0 {
        Seq::empty()
    } else {
        joined(stack.drop_last()) + seq!['/'] + stack.last()
    }
}

/// The path of the element whose ancestors and own name are `stack`; `/`
/// outside of any element.
pub open spec fn element_path(stack: Seq<Seq<char>>) -> Seq<char> {
    if stack.len() == 0 {
        seq!['/']
    } else {
        joined(stack)
    }
}

/// The path of the attribute `name` of the element at `path`.
pub open spec fn attribute_path(path: Seq<char>, name: Seq<char>) -> Seq<char> {
    path + seq!['/', '@'] + name
}

/// Where an XML scan stands: the open elements, what was found so far,
/// and how many values were looked at, a count that stops at the largest
/// `usize`.
pub ghost struct XmlProgress {
    pub stack: Seq<Seq<char>>,
    pub findings: Seq<FindingView>,
    pub scanned: nat,
}

/// The findings in the first `count` attributes of the element at `path`.
pub open spec fn attribute_findings(attributes: Seq<XmlPair>, path: Seq<char>, count: nat) -> Seq<
    FindingView,
>
    decreases count,
{
    if count == 0 || count > attributes.len() {
        Seq::empty()
    } else {
        attribute_findings(attributes, path, (count - 1) as nat) + findings_of(
            attributes[count - 1].value,
            attribute_path(path, attributes[count - 1].name),
        )
    }
}

/// The scan after one more event. A start tag opens its element and has
/// every attribute looked at, at the path of the element followed by `/@`
/// and the attribute's name. Character data that is not blank is looked at,
/// at the path of the element it stands in. An end tag closes the
/// innermost open element. Nothing else changes the scan. An empty element
/// comes as a start tag and an end tag, so that its attributes are looked
/// at and what follows it stands where it stood.
pub open spec fn after_event(progress: XmlProgress, item: XmlItem) -> XmlProgress {
    match item {
        XmlItem::Start { name, attributes } => {
            let stack = progress.stack.push(name);
            XmlProgress {
                stack,
                findings: progress.findings + attribute_findings(
                    attributes,
                    element_path(stack),
                    attributes.len(),
                ),
                scanned: capped((progress.scanned + attributes.len()) as int),
            }
        },
        XmlItem::Text(text) => {
            if trimmed(text).len() == 0 {
                progress
            } else {
                XmlProgress {
                    stack: progress.stack,
                    findings: progress.findings + findings_of(text, element_path(progress.stack)),
                    scanned: capped((progress.scanned + 1) as int),
                }
            }
        },
        XmlItem::End => XmlProgress {
            stack: if progress.stack.len() == 0 {
                progress.stack
            } else {
                progress.stack.drop_last()
            },
            findings: progress.findings,
            scanned: progress.scanned,
        },
        _ => progress,
    }
}

/// What a scan that stands at `progress` gives once `events` are read: the
/// findings and the count at the end of the document, or `DecodeFailed` at a fault.
pub open spec fn xml_scan_from(events: Seq<XmlItem>, progress: XmlProgress) -> Result<
    ScanView,
    Failure,
>
    decreases events.len(),
{
    if events.len() == 0 {
        Ok(xml_result(progress))
    } else {
        match events.first() {
            XmlItem::Eof => Ok(xml_result(progress)),
            XmlItem::Malformed(reason) => Err(
                Failure::DecodeFailed { message: "Invalid XML: "@ + reason },
            ),
            item => xml_scan_from(events.drop_first(), after_event(progress, item)),
        }
    }
}

/// The result of a scan that has come to the end of its document.
pub open spec fn xml_result(progress: XmlProgress) -> ScanView {
    ScanView { findings: progress.findings, values_scanned: progress.scanned, format: "xml"@ }
}

/// An XML scan before its first event.
pub open spec fn xml_start() -> XmlProgress {
    XmlProgress { stack: Seq::empty(), findings: Seq::empty(), scanned: 0 }
}

/// What scanning `input` as XML gives.
pub open spec fn xml_scan_of(input: Seq<char>) -> Result<ScanView, Failure> {
    xml_scan_from(xml_events(input), xml_start())
}

/// The mathematical value of what a scan returns.
pub open spec fn scan_outcome(r: Result<ScanResult, DecodeckError>) -> Result<ScanView, Failure> {
    match r {
        Ok(found) => Ok(found@),
        Err(e) => Err(e@),
    }
}

/// Scans JSON text for encoded values. Only text that is no JSON fails;
/// a value that cannot be decoded is passed over.
pub fn scan_json(input: &str) -> (r: Result<ScanResult, DecodeckError>)
    ensures
        scan_outcome(r) == json_scan_of(input@),
{
    match parse_json(input) {
        Ok(value) => {
            let document = json_value_of(&value);
            Ok(scan_document(&document))
        },
        Err(reason) => {
            let message = String::from_str("Invalid JSON: ").concat(reason.as_str());
            Err(DecodeckError::DecodeFailed { message })
        },
    }
}

/// The names of a stack of open elements.
pub open spec fn stack_view(stack: Seq<Vec<char>>) -> Seq<Seq<char>> {
    Seq::new(stack.len(), |i: int| stack[i]@)
}

/// The path of the element whose ancestors and own name are `stack`.
pub fn path_of(stack: &Vec<Vec<char>>) -> (path: Vec<char>)
    ensures
        path@ == element_path(stack_view(stack@)),
{
    let mut path: Vec<char> = Vec::new();
    if stack.len() == 0 {
        path.push('/');
        assert(path@ =~= seq!['/']);
        return path;
    }
    let ghost names = stack_view(stack@);
    let mut i: usize = 0;
    assert(names.take(0) =~= Seq::<Seq<char>>::empty());
    while i < stack.len()
        invariant
            i <= stack.len(),
            names == stack_view(stack@),
            path@ == joined(names.take(i as int)),
        decreases stack.len() - i,
    {
        path.push('/');
        push_chars(&mut path, &stack[i]);
        proof {
            assert(names.take(i + 1).drop_last() =~= names.take(i as int));
            assert(names.take(i + 1).last() == stack@[i as int]@);
        }
        i += 1;
    }
    assert(names.take(stack.len() as int) =~= names);
    path
}

/// Looks at the attributes of a start tag that stands at `path`.
pub fn scan_attributes(
    attributes: &Vec<XmlAttribute>,
    path: &Vec<char>,
    findings: &mut Vec<Finding>,
    scanned: &mut usize,
)
    ensures
        finding_views(final(findings)@) == finding_views(old(findings)@) + attribute_findings(
            Seq::new(attributes.len() as nat, |i: int| attributes[i]@),
            path@,
            attributes.len() as nat,
        ),
        *final(scanned) == capped(*old(scanned) + attributes.len()),
{
    let ghost pairs = Seq::new(attributes.len() as nat, |i: int| attributes[i]@);
    let mut i: usize = 0;
    assert(finding_views(findings@) =~= finding_views(old(findings)@) + attribute_findings(
        pairs,
        path@,
        0,
    ));
    while i < attributes.len()
        invariant
            i <= attributes.len(),
            pairs == Seq::new(attributes.len() as nat, |i: int| attributes[i]@),
            finding_views(findings@) == finding_views(old(findings)@) + attribute_findings(
                pairs,
                path@,
                i as nat,
            ),
            *scanned == capped(*old(scanned) + i),
        decreases attributes.len() - i,
    {
        let mut place = path.clone();
        place.push('/');
        place.push('@');
        push_str(&mut place, attributes[i].name.as_str());
        assert(place@ =~= attribute_path(path@, attributes[i as int].name@));
        scan_value(attributes[i].value.as_str(), &place, findings, scanned);
        assert(finding_views(findings@) =~= finding_views(old(findings)@) + attribute_findings(
            pairs,
            path@,
            (i + 1) as nat,
        ));
        i += 1;
    }
}

/// An XML scan in progress: it takes the events of a document one by one.
pub struct XmlScan {
    /// The names of the open elements, outermost first.
    pub stack: Vec<Vec<char>>,
    /// The path of the innermost open element.
    pub path: Vec<char>,
    /// What was found so far.
    pub findings: Vec<Finding>,
    /// Number of values looked at so far.
    pub values_scanned: usize,
}

impl View for XmlScan {
    type V = XmlProgress;

    open spec fn view(&self) -> XmlProgress {
        XmlProgress {
            stack: stack_view(self.stack@),
            findings: finding_views(self.findings@),
            scanned: self.values_scanned as nat,
        }
    }
}

impl XmlScan {
    /// The path on record is the path of the innermost open element.
    pub open spec fn is_consistent(&self) -> bool {
        self.path@ == element_path(stack_view(self.stack@))
    }

    /// A scan before its first event.
    pub fn new() -> (scan: Self)
        ensures
            scan.is_consistent(),
            scan@ == xml_start(),
    {
        let mut path: Vec<char> = Vec::new();
        path.push('/');
        let scan = XmlScan { stack: Vec::new(), path, findings: Vec::new(), values_scanned: 0 };
        assert(stack_view(scan.stack@) =~= Seq::<Seq<char>>::empty());
        assert(finding_views(scan.findings@) =~= Seq::<FindingView>::empty());
        assert(scan.path@ =~= seq!['/']);
        scan
    }

    /// Takes the next event of the document.
    pub fn feed(&mut self, event: &XmlEvent)
        requires
            old(self).is_consistent(),
        ensures
            final(self).is_consistent(),
            final(self)@ == after_event(old(self)@, event@),
    {
        match event {
            XmlEvent::Start { name, attributes } => {
                self.stack.push(chars_of(name.as_str()));
                self.path = path_of(&self.stack);
                assert(stack_view(self.stack@) =~= old(self)@.stack.push(name@));
                scan_attributes(attributes, &self.path, &mut self.findings, &mut self.values_scanned);
            },
            XmlEvent::Text(text) => {
                let chars = chars_of(text.as_str());
                if trim(&chars).len() != 0 {
                    scan_value(text.as_str(), &self.path, &mut self.findings, &mut self.values_scanned);
                }
            },
            XmlEvent::End => {
                self.stack.pop();
                self.path = path_of(&self.stack);
                assert(stack_view(self.stack@) =~= after_event(old(self)@, event@).stack);
            },
            _ => {},
        }
    }

    /// The result of the scan once the document has ended.
    pub fn finish(self) -> (found: ScanResult)
        ensures
            found@ == xml_result(self@),
    {
        ScanResult {
            findings: self.findings,
            values_scanned: self.values_scanned,
            format: String::from_str("xml"),
        }
    }
}

/// A run of events that ends with its last event has more than one event
/// if its first is not the last, and what follows the first is such a run.
pub proof fn lemma_rest_of_events(events: Seq<XmlItem>)
    requires
        is_event_stream(events),
        !is_last_event(events.first()),
    ensures
        is_event_stream(events.drop_first()),
{
    let rest = events.drop_first();
    assert(events.len() > 1);
    assert(rest.last() == events.last());
    assert forall|i: int| 0 <= i < rest.len() - 1 implies !is_last_event(#[trigger] rest[i]) by {
        assert(rest[i] == events[i + 1]);
    }
}

/// Scans XML text for encoded values. Only text that is no XML fails; a
/// value that cannot be decoded is passed over.
pub fn scan_xml(input: &str) -> (r: Result<ScanResult, DecodeckError>)
    ensures
        scan_outcome(r) == xml_scan_of(input@),
{
    let mut reader = open_reader(input);
    let mut scan = XmlScan::new();
    loop
        invariant
            is_event_stream(pending_events(reader)),
            scan.is_consistent(),
            xml_scan_of(input@) == xml_scan_from(pending_events(reader), scan@),
        decreases pending_events(reader).len(),
    {
        let ghost pending = pending_events(reader);
        let event = read_event(&mut reader);
        match event {
            XmlEvent::Eof => {
                return Ok(scan.finish());
            },
            XmlEvent::Malformed(reason) => {
                let message = String::from_str("Invalid XML: ").concat(reason.as_str());
                return Err(DecodeckError::DecodeFailed { message });
            },
            _ => {
                proof {
                    lemma_rest_of_events(pending);
                }
                scan.feed(&event);
            },
        }
    }
}

/// What scanning `input` gives when the format is to be found out. With
/// `t` the input without surrounding whitespace: where `t` begins with `{`
/// or `[` and the input scans as JSON, that scan; else, where `t` begins
/// with `<` and the input scans as XML, that scan; else what scanning the
/// input as JSON gives.
pub open spec fn auto_scan_of(input: Seq<char>) -> Result<ScanView, Failure> {
    let t = trimmed(input);
    if t.len() > 0 && (t.first() == '{' || t.first() == '[') && json_scan_of(input) is Ok {
        json_scan_of(input)
    } else if t.len() > 0 && t.first() == '<' && xml_scan_of(input) is Ok {
        xml_scan_of(input)
    } else {
        json_scan_of(input)
    }
}

/// What does not begin like XML is scanned as JSON: unless the input
/// without surrounding whitespace begins with `<`, finding out the format
/// gives what scanning as JSON gives. What begins like XML and scans as XML
/// is scanned as XML.
pub proof fn lemma_auto_scan_by_first_character(input: Seq<char>)
    ensures
        !(trimmed(input).len() > 0 && trimmed(input).first() == '<') ==> auto_scan_of(input)
            == json_scan_of(input),
        trimmed(input).len() > 0 && trimmed(input).first() == '<' && xml_scan_of(input) is Ok
            ==> auto_scan_of(input) == xml_scan_of(input),
{
}

/// Scans a document whose format is found out from its first character.
pub fn scan_auto(input: &str) -> (r: Result<ScanResult, DecodeckError>)
    ensures
        scan_outcome(r) == auto_scan_of(input@),
{
    let chars = chars_of(input);
    let t = trim(&chars);
    if t.len() > 0 && (t[0] == '{' || t[0] == '[') {
        match scan_json(input) {
            Ok(found) => {
                return Ok(found);
            },
            Err(_) => {},
        }
    }
    if t.len() > 0 && t[0] == '<' {
        match scan_xml(input) {
            Ok(found) => {
                return Ok(found);
            },
            Err(_) => {},
        }
    }
    scan_json(input)
}

} // verus!
