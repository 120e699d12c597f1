//! Names, values, methods and header maps of HTTP, as `ntex-http` and
//! `ntex-bytes` have them.
//!
//! The functions of this file that call these crates are trusted: what their
//! contracts say is not proved here.
use ntex_http::HeaderMap;
use vstd::prelude::*;

verus! {

/// A header value and whether it is to be kept out of compression state.
#[derive(Debug, Clone)]
pub struct HeaderValue {
    pub bytes: Vec<u8>,
    pub sensitive: bool,
}

// ===== Characters =====

/// The bytes of a text: its UTF-8 encoding.
pub open spec fn text_bytes(s: Seq<char>) -> Seq<u8> {
    vstd::utf8::encode_utf8(s)
}

/// A letter or a digit.
pub open spec fn is_alphanumeric(b: u8) -> bool {
    0x30 <= b <= 0x39 || 0x41 <= b <= 0x5a || 0x61 <= b <= 0x7a
}

/// A byte of a method name: `!#$%&'*+-.^_`, a backquote, `|~`, a letter or a digit.
pub open spec fn is_method_byte(b: u8) -> bool {
    ||| is_alphanumeric(b)
    ||| b == 0x21
    ||| 0x23 <= b <= 0x27
    ||| b == 0x2a
    ||| b == 0x2b
    ||| b == 0x2d
    ||| b == 0x2e
    ||| b == 0x5e
    ||| b == 0x5f
    ||| b == 0x60
    ||| b == 0x7c
    ||| b == 0x7e
}

/// A byte of a lower-case header name: a byte of a method name that is no
/// upper-case letter, or a double quote.
pub open spec fn is_name_byte(b: u8) -> bool {
    (is_method_byte(b) && !(0x41 <= b <= 0x5a)) || b == 0x22
}

/// A byte of a header value: not a control character, but for the tab.
pub open spec fn is_value_byte(b: u8) -> bool {
    (b >= 0x20 && b != 0x7f) || b == 0x09
}

pub open spec fn valid_method(s: Seq<u8>) -> bool {
    s.len() > 0 && forall|i: int| 0 <= i < s.len() ==> is_method_byte(#[trigger] s[i])
}

pub open spec fn valid_name(s: Seq<u8>) -> bool {
    0 < s.len() <= 0xffff && forall|i: int| 0 <= i < s.len() ==> is_name_byte(#[trigger] s[i])
}

pub open spec fn valid_value(s: Seq<u8>) -> bool {
    forall|i: int| 0 <= i < s.len() ==> is_value_byte(#[trigger] s[i])
}

/// The status that three digits stand for.
pub open spec fn status_of(s: Seq<u8>) -> Option<u16> {
    if s.len() == 3 && 0x31 <= s[0] <= 0x39 && 0x30 <= s[1] <= 0x39 && 0x30 <= s[2] <= 0x39 {
        Some(((s[0] - 0x30) * 100 + (s[1] - 0x30) * 10 + (s[2] - 0x30)) as u16)
    } else {
        None
    }
}

/// The digits of a status.
pub open spec fn status_bytes(status: u16) -> Seq<u8> {
    seq![
        (0x30 + status / 100) as u8,
        (0x30 + status / 10 % 10) as u8,
        (0x30 + status % 10) as u8,
    ]
}

/// A status is recovered from its digits.
pub proof fn status_inverse(status: u16)
    requires
        100 <= status <= 999,
    ensures
        status_of(status_bytes(status)) == Some(status),
{
}

// ===== Outside calls =====

/// `ntex_bytes::ByteString::try_from`: a text is made of bytes exactly if they are
/// valid UTF-8, and it then consists of these bytes.
#[verifier::external_body]
pub(crate) fn text_from_bytes(bytes: &[u8]) -> (r: Option<String>)
    ensures
        r is Some <==> vstd::utf8::valid_utf8(bytes@),
        r matches Some(s) ==> text_bytes(s@) == bytes@,
{
    ntex_bytes::ByteString::try_from(bytes).ok().map(|s| s.as_str().to_string())
}

/// `ntex_http::Method::from_bytes`: a method is made of bytes exactly if there is
/// at least one and all of them may stand in a method, and its name then consists
/// of these bytes.
#[verifier::external_body]
pub(crate) fn method_from_bytes(bytes: &[u8]) -> (r: Option<String>)
    ensures
        r is Some <==> valid_method(bytes@),
        r matches Some(s) ==> text_bytes(s@) == bytes@,
{
    ntex_http::Method::from_bytes(bytes).ok().map(|m| m.as_str().to_string())
}

/// `ntex_http::StatusCode::from_bytes`: three digits of which the first is not
/// zero are the number that they make up, and nothing else is a status.
#[verifier::external_body]
pub(crate) fn status_from_bytes(bytes: &[u8]) -> (r: Option<u16>)
    ensures
        r == status_of(bytes@),
{
    ntex_http::StatusCode::from_bytes(bytes).ok().map(|s| s.as_u16())
}

/// `ntex_http::HeaderName::from_lowercase`: accepts the names of 1 to 65,535
/// bytes that hold nothing but lower-case name bytes, and leaves them as they are.
#[verifier::external_body]
pub(crate) fn name_from_lowercase(bytes: &[u8]) -> (r: Option<Vec<u8>>)
    ensures
        r is Some <==> valid_name(bytes@),
        r matches Some(name) ==> name@ == bytes@,
{
    ntex_http::HeaderName::from_lowercase(bytes).ok().map(|n| n.as_str().as_bytes().to_vec())
}

/// `ntex_http::HeaderValue::from_shared`: accepts the bytes that hold no control
/// character but the tab, leaves them as they are and does not mark them sensitive.
#[verifier::external_body]
pub(crate) fn value_from_shared(bytes: Vec<u8>) -> (r: Option<HeaderValue>)
    ensures
        r is Some <==> valid_value(bytes@),
        r matches Some(value) ==> value.bytes@ == bytes@ && !value.sensitive,
{
    let value = ntex_http::HeaderValue::from_shared(ntex_bytes::Bytes::from(bytes)).ok()?;
    Some(HeaderValue { bytes: value.as_bytes().to_vec(), sensitive: value.is_sensitive() })
}

// ===== Header maps =====

/// `ntex_http::HeaderMap`, a map from header names to one or more values.
#[verifier::external_type_specification]
#[verifier::external_body]
pub struct ExHeaderMap(ntex_http::HeaderMap);

/// What a header map holds: for each name its values, first to last, each with
/// its mark of sensitivity.
pub uninterp spec fn header_fields(map: HeaderMap) -> Map<Seq<u8>, Seq<(Seq<u8>, bool)>>;

/// A map without fields.
pub open spec fn no_fields() -> Map<Seq<u8>, Seq<(Seq<u8>, bool)>> {
    Map::empty()
}

/// The values of one name in a list of fields, first to last.
pub open spec fn values_of(
    entries: Seq<(Seq<u8>, Seq<u8>, bool)>,
    name: Seq<u8>,
) -> Seq<(Seq<u8>, bool)>
    decreases entries.len(),
{
    if entries.len() == 0 {
        Seq::empty()
    } else {
        let rest = values_of(entries.drop_last(), name);
        let last = entries.last();
        if last.0 == name {
            rest.push((last.1, last.2))
        } else {
            rest
        }
    }
}

/// The values of one name in a map.
pub open spec fn map_values(
    map: Map<Seq<u8>, Seq<(Seq<u8>, bool)>>,
    name: Seq<u8>,
) -> Seq<(Seq<u8>, bool)> {
    if map.dom().contains(name) {
        map[name]
    } else {
        Seq::empty()
    }
}

/// A map with one more value of a name, behind those that the name has.
pub open spec fn appended(
    map: Map<Seq<u8>, Seq<(Seq<u8>, bool)>>,
    name: Seq<u8>,
    value: Seq<u8>,
    sensitive: bool,
) -> Map<Seq<u8>, Seq<(Seq<u8>, bool)>> {
    map.insert(name, map_values(map, name).push((value, sensitive)))
}

/// Every name of a map has a value.
pub open spec fn valued(map: Map<Seq<u8>, Seq<(Seq<u8>, bool)>>) -> bool {
    forall|name: Seq<u8>| #[trigger] map.dom().contains(name) ==> map[name].len() > 0
}

/// The fields of a map as a list, in one of the orders that keep the values of
/// each name in sequence. A name without values is not listed.
pub open spec fn lists(
    map: Map<Seq<u8>, Seq<(Seq<u8>, bool)>>,
    entries: Seq<(Seq<u8>, Seq<u8>, bool)>,
) -> bool {
    forall|name: Seq<u8>| #[trigger] values_of(entries, name) == map_values(map, name)
}

/// A field as it stands in a list.
pub open spec fn entry_view(entry: (Vec<u8>, HeaderValue)) -> (Seq<u8>, Seq<u8>, bool) {
    (entry.0@, entry.1.bytes@, entry.1.sensitive)
}

/// A list of fields by what they hold.
pub open spec fn entries_view(entries: Seq<(Vec<u8>, HeaderValue)>) -> Seq<
    (Seq<u8>, Seq<u8>, bool),
> {
    entries.map_values(|e: (Vec<u8>, HeaderValue)| entry_view(e))
}

/// `ntex_http::HeaderMap::new`: a map without fields.
pub assume_specification[ ntex_http::HeaderMap::new ]() -> (r: ntex_http::HeaderMap)
    ensures
        header_fields(r) == no_fields(),
;

/// `ntex_http::HeaderMap::is_empty`: whether the map has no field.
pub assume_specification[ ntex_http::HeaderMap::is_empty ](map: &ntex_http::HeaderMap) -> (r: bool)
    ensures
        r == (header_fields(*map) == no_fields()),
;

/// `ntex_http::HeaderMap::append`: adds a value behind those that the name has.
/// The name and the value must be valid, as only such ones can be had.
#[verifier::external_body]
pub(crate) fn map_append(map: &mut HeaderMap, name: &[u8], value: &HeaderValue)
    requires
        valid_name(name@),
        valid_value(value.bytes@),
    ensures
        header_fields(*final(map)) == appended(
            header_fields(*old(map)),
            name@,
            value.bytes@,
            value.sensitive,
        ),
{
    let name = ntex_http::HeaderName::from_lowercase(name).unwrap();
    let mut val = ntex_http::HeaderValue::from_bytes(&value.bytes).unwrap();
    val.set_sensitive(value.sensitive);
    map.append(name, val);
}

/// `ntex_http::HeaderMap::get` with a name that `HeaderName::from_lowercase` accepts:
/// the first value of that name. Every name of the map must have a value.
#[verifier::external_body]
pub(crate) fn map_get(map: &HeaderMap, name: &str) -> (r: Option<Vec<u8>>)
    requires
        valid_name(text_bytes(name@)),
        valued(header_fields(*map)),
    ensures
        r is Some <==> header_fields(*map).dom().contains(text_bytes(name@)),
        r matches Some(v) ==> v@ == header_fields(*map)[text_bytes(name@)][0].0,
{
    let name = ntex_http::HeaderName::from_lowercase(name.as_bytes()).unwrap();
    map.get(&name).map(|v| v.as_bytes().to_vec())
}

/// `ntex_http::HeaderMap::iter`: the fields of a map. The values of one name come
/// in their sequence; the order of the names is not defined, and a name without
/// values does not come. Names are in lower case, and names and values are valid.
#[verifier::external_body]
pub(crate) fn map_entries(map: &HeaderMap) -> (r: Vec<(Vec<u8>, HeaderValue)>)
    ensures
        lists(header_fields(*map), entries_view(r@)),
        forall|i: int|
            0 <= i < r@.len() ==> valid_name((#[trigger] r@[i]).0@) && valid_value(r@[i].1.bytes@),
{
    map.iter()
        .map(|(n, v)| (
            n.as_str().as_bytes().to_vec(),
            HeaderValue { bytes: v.as_bytes().to_vec(), sensitive: v.is_sensitive() },
        ))
        .collect()
}

/// Names are in lower case, and have no blanks, no colons and no control characters.
/// Whatever consists of small letters, digits and hyphens is one.
pub proof fn names_are_plain(s: Seq<u8>)
    ensures
        valid_name(s) ==> s.len() > 0 && forall|i: int|
            0 <= i < s.len() ==> 0x20 < (#[trigger] s[i]) < 0x7f && s[i] != 0x3a && !(0x41 <= s[i]
                <= 0x5a),
        0 < s.len() <= 0xffff && (forall|i: int|
            0 <= i < s.len() ==> 0x61 <= (#[trigger] s[i]) <= 0x7a || 0x30 <= s[i] <= 0x39 || s[i]
                == 0x2d) ==> valid_name(s),
{
}

/// Values have no line breaks and no other control characters than tabs, and everything
/// else is allowed in them.
pub proof fn values_are_lines(s: Seq<u8>)
    ensures
        valid_value(s) <==> forall|i: int|
            0 <= i < s.len() ==> ((#[trigger] s[i]) == 9 || s[i] >= 0x20) && s[i] != 0x7f,
{
    assert forall|i: int| 0 <= i < s.len() && valid_value(s) implies ((#[trigger] s[i]) == 9 || s[i]
        >= 0x20) && s[i] != 0x7f by {
        assert(is_value_byte(s[i]));
    }
}

/// A status is the number that its three digits stand for.
pub proof fn status_is_its_digits(a: u8, b: u8, c: u8)
    requires
        1 <= a <= 9,
        b <= 9,
        c <= 9,
    ensures
        status_of(seq![(0x30 + a) as u8, (0x30 + b) as u8, (0x30 + c) as u8]) == Some(
            (a * 100 + b * 10 + c) as u16,
        ),
        status_bytes((a * 100 + b * 10 + c) as u16) == seq![
            (0x30 + a) as u8,
            (0x30 + b) as u8,
            (0x30 + c) as u8,
        ],
{
    let n = a * 100 + b * 10 + c;
    assert(n / 100 == a && n / 10 % 10 == b && n % 10 == c);
}

/// A field that is added comes behind the values of its name, and leaves other names as
/// they are.
pub proof fn fields_are_added(
    map: Map<Seq<u8>, Seq<(Seq<u8>, bool)>>,
    name: Seq<u8>,
    value: Seq<u8>,
    sensitive: bool,
    other: Seq<u8>,
)
    ensures
        ({
            let next = appended(map, name, value, sensitive);
            &&& next.dom().contains(name)
            &&& next[name].last() == (value, sensitive)
            &&& map.dom().contains(name) ==> next[name].drop_last() == map[name]
            &&& !map.dom().contains(name) ==> next[name].len() == 1
            &&& other != name ==> next.dom().contains(other) == map.dom().contains(other)
            &&& other != name && map.dom().contains(other) ==> next[other] == map[other]
        }),
{
    if map.dom().contains(name) {
        assert(map[name].push((value, sensitive)).drop_last() =~= map[name]);
    }
}

} // verus!
