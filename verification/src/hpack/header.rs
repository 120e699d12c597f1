use vstd::prelude::*;

use crate::frame::util;
use crate::hpack::{DecoderError, NeedMore};
use crate::http;
use crate::http::HeaderValue;

verus! {

/// Name of a header field, in lower case.
pub type HeaderName = Vec<u8>;

/// Header field represented for HPACK encoding or decoding.
#[derive(Debug, Clone)]
pub enum Header<T = HeaderName> {
    /// Regular header field.
    Field { name: T, value: HeaderValue },
    /// `:authority` pseudo-header.
    Authority(String),
    /// `:method` pseudo-header.
    Method(String),
    /// `:scheme` pseudo-header.
    Scheme(String),
    /// `:path` pseudo-header.
    Path(String),
    /// `:protocol` pseudo-header.
    Protocol(String),
    /// `:status` pseudo-header.
    Status(u16),
}

/// What a header says; the name of a field is an `N`.
#[verifier::ext_equal]
pub enum HeaderView<N> {
    Field { name: N, value: Seq<u8>, sensitive: bool },
    Authority(Seq<char>),
    Method(Seq<char>),
    Scheme(Seq<char>),
    Path(Seq<char>),
    Protocol(Seq<char>),
    Status(u16),
}

/// Header or pseudo-header name.
#[derive(Debug, Clone)]
pub enum Name<'a> {
    /// Regular header name.
    Field(&'a HeaderName),
    /// `:authority`.
    Authority,
    /// `:method`.
    Method,
    /// `:scheme`.
    Scheme,
    /// `:path`.
    Path,
    /// `:protocol`.
    Protocol,
    /// `:status`.
    Status,
}

/// A name and a value as they go over the wire.
pub type Raw = (Seq<u8>, Seq<u8>);

impl View for Header<HeaderName> {
    type V = HeaderView<Seq<u8>>;

    open spec fn view(&self) -> HeaderView<Seq<u8>> {
        match self {
            Header::Field { name, value } => HeaderView::Field {
                name: name@,
                value: value.bytes@,
                sensitive: value.sensitive,
            },
            Header::Authority(v) => HeaderView::Authority(v@),
            Header::Method(v) => HeaderView::Method(v@),
            Header::Scheme(v) => HeaderView::Scheme(v@),
            Header::Path(v) => HeaderView::Path(v@),
            Header::Protocol(v) => HeaderView::Protocol(v@),
            Header::Status(v) => HeaderView::Status(*v),
        }
    }
}

impl View for Header<Option<HeaderName>> {
    type V = HeaderView<Option<Seq<u8>>>;

    open spec fn view(&self) -> HeaderView<Option<Seq<u8>>> {
        match self {
            Header::Field { name, value } => HeaderView::Field {
                name: match name {
                    Some(n) => Some(n@),
                    None => None,
                },
                value: value.bytes@,
                sensitive: value.sensitive,
            },
            Header::Authority(v) => HeaderView::Authority(v@),
            Header::Method(v) => HeaderView::Method(v@),
            Header::Scheme(v) => HeaderView::Scheme(v@),
            Header::Path(v) => HeaderView::Path(v@),
            Header::Protocol(v) => HeaderView::Protocol(v@),
            Header::Status(v) => HeaderView::Status(*v),
        }
    }
}

impl HeaderView<Seq<u8>> {
    /// The name on the wire.
    pub open spec fn name(self) -> Seq<u8> {
        match self {
            HeaderView::Field { name, .. } => name,
            HeaderView::Authority(_) => http::text_bytes(":authority"@),
            HeaderView::Method(_) => http::text_bytes(":method"@),
            HeaderView::Scheme(_) => http::text_bytes(":scheme"@),
            HeaderView::Path(_) => http::text_bytes(":path"@),
            HeaderView::Protocol(_) => http::text_bytes(":protocol"@),
            HeaderView::Status(_) => http::text_bytes(":status"@),
        }
    }

    /// The value on the wire.
    pub open spec fn value(self) -> Seq<u8> {
        match self {
            HeaderView::Field { value, .. } => value,
            HeaderView::Authority(v) => http::text_bytes(v),
            HeaderView::Method(v) => http::text_bytes(v),
            HeaderView::Scheme(v) => http::text_bytes(v),
            HeaderView::Path(v) => http::text_bytes(v),
            HeaderView::Protocol(v) => http::text_bytes(v),
            HeaderView::Status(v) => http::status_bytes(v),
        }
    }

    pub open spec fn raw(self) -> Raw {
        (self.name(), self.value())
    }

    pub open spec fn sensitive(self) -> bool {
        match self {
            HeaderView::Field { sensitive, .. } => sensitive,
            _ => false,
        }
    }

    /// The header without its mark of sensitivity, which does not go over the wire.
    pub open spec fn plain(self) -> HeaderView<Seq<u8>> {
        match self {
            HeaderView::Field { name, value, .. } => HeaderView::Field {
                name,
                value,
                sensitive: false,
            },
            _ => self,
        }
    }

    /// A header that can come off the wire.
    pub open spec fn wf(self) -> bool {
        match self {
            HeaderView::Field { name, value, .. } => http::valid_name(name) && http::valid_value(
                value,
            ),
            HeaderView::Method(v) => http::valid_method(http::text_bytes(v)),
            HeaderView::Status(v) => 100 <= v <= 999,
            _ => true,
        }
    }

    /// The header that a name and a value stand for.
    pub open spec fn parsed(name: Seq<u8>, value: Seq<u8>) -> Result<
        HeaderView<Seq<u8>>,
        DecoderError,
    > {
        if name.len() == 0 {
            Err(DecoderError::NeedMore(NeedMore::UnexpectedEndOfStream))
        } else if name[0] == 0x3a {
            if name == http::text_bytes(":authority"@) {
                match text_of(value) {
                    Ok(v) => Ok(HeaderView::Authority(v)),
                    Err(e) => Err(e),
                }
            } else if name == http::text_bytes(":method"@) {
                if http::valid_method(value) {
                    Ok(HeaderView::Method(vstd::utf8::decode_utf8(value)))
                } else {
                    Err(DecoderError::InvalidUtf8)
                }
            } else if name == http::text_bytes(":scheme"@) {
                match text_of(value) {
                    Ok(v) => Ok(HeaderView::Scheme(v)),
                    Err(e) => Err(e),
                }
            } else if name == http::text_bytes(":path"@) {
                match text_of(value) {
                    Ok(v) => Ok(HeaderView::Path(v)),
                    Err(e) => Err(e),
                }
            } else if name == http::text_bytes(":protocol"@) {
                match text_of(value) {
                    Ok(v) => Ok(HeaderView::Protocol(v)),
                    Err(e) => Err(e),
                }
            } else if name == http::text_bytes(":status"@) {
                match http::status_of(value) {
                    Some(v) => Ok(HeaderView::Status(v)),
                    None => Err(DecoderError::InvalidStatusCode),
                }
            } else {
                Err(DecoderError::InvalidPseudoheader)
            }
        } else if !http::valid_name(name) || !http::valid_value(value) {
            Err(DecoderError::InvalidUtf8)
        } else {
            Ok(HeaderView::Field { name, value, sensitive: false })
        }
    }
}

/// The text that bytes stand for.
pub open spec fn text_of(value: Seq<u8>) -> Result<Seq<char>, DecoderError> {
    if vstd::utf8::valid_utf8(value) {
        Ok(vstd::utf8::decode_utf8(value))
    } else {
        Err(DecoderError::InvalidUtf8)
    }
}

/// Size of a table entry: what it holds, and an allowance for the bookkeeping.
pub open spec fn entry_size(raw: Raw) -> nat {
    32 + raw.0.len() + raw.1.len()
}

/// The bytes of a text.
pub fn bytes_of(s: &str) -> (r: Vec<u8>)
    ensures
        r@ == http::text_bytes(s@),
{
    util::copy(s.as_bytes())
}

/// Whether two byte strings are the same.
pub fn same_bytes(a: &[u8], b: &[u8]) -> (r: bool)
    ensures
        r == (a@ == b@),
{
    if a.len() != b.len() {
        return false;
    }
    let mut i: usize = 0;
    while i < a.len()
        invariant
            i <= a@.len() == b@.len(),
            a@.take(i as int) =~= b@.take(i as int),
        decreases a@.len() - i,
    {
        if a[i] != b[i] {
            return false;
        }
        i += 1;
    }
    assert(a@.take(i as int) =~= a@);
    assert(b@.take(i as int) =~= b@);
    true
}

/// A text off the wire.
fn read_text(value: &[u8]) -> (r: Result<String, DecoderError>)
    ensures
        match text_of(value@) {
            Ok(v) => r is Ok && r->Ok_0@ == v,
            Err(e) => r == Err::<String, DecoderError>(e),
        },
{
    match http::text_from_bytes(value) {
        Some(s) => {
            proof {
                vstd::utf8::encode_utf8_decode_utf8(s@);
            }
            Ok(s)
        },
        None => Err(DecoderError::InvalidUtf8),
    }
}

/// A method off the wire.
fn read_method(value: &[u8]) -> (r: Result<String, DecoderError>)
    ensures
        if http::valid_method(value@) {
            r is Ok && r->Ok_0@ == vstd::utf8::decode_utf8(value@)
        } else {
            r == Err::<String, DecoderError>(DecoderError::InvalidUtf8)
        },
{
    match http::method_from_bytes(value) {
        Some(s) => {
            proof {
                vstd::utf8::encode_utf8_decode_utf8(s@);
            }
            Ok(s)
        },
        None => Err(DecoderError::InvalidUtf8),
    }
}

impl Header<Option<HeaderName>> {
    /// Resolves an optional repeated name into a complete header.
    pub fn reify(self) -> (r: Result<Header, HeaderValue>)
        ensures
            match self@ {
                HeaderView::Field { name: None, value, sensitive } => r is Err
                    && r->Err_0.bytes@ == value && r->Err_0.sensitive == sensitive,
                HeaderView::Field { name: Some(name), value, sensitive } => r is Ok
                    && r->Ok_0@ == (HeaderView::Field { name, value, sensitive }),
                HeaderView::Authority(v) => r is Ok && r->Ok_0@ == HeaderView::<
                    Seq<u8>,
                >::Authority(v),
                HeaderView::Method(v) => r is Ok && r->Ok_0@ == HeaderView::<Seq<u8>>::Method(v),
                HeaderView::Scheme(v) => r is Ok && r->Ok_0@ == HeaderView::<Seq<u8>>::Scheme(v),
                HeaderView::Path(v) => r is Ok && r->Ok_0@ == HeaderView::<Seq<u8>>::Path(v),
                HeaderView::Protocol(v) => r is Ok && r->Ok_0@ == HeaderView::<Seq<u8>>::Protocol(
                    v,
                ),
                HeaderView::Status(v) => r is Ok && r->Ok_0@ == HeaderView::<Seq<u8>>::Status(v),
            },
    {
        Ok(
            match self {
                Header::Field { name: Some(n), value } => Header::Field { name: n, value },
                Header::Field { name: None, value } => return Err(value),
                Header::Authority(v) => Header::Authority(v),
                Header::Method(v) => Header::Method(v),
                Header::Scheme(v) => Header::Scheme(v),
                Header::Path(v) => Header::Path(v),
                Header::Protocol(v) => Header::Protocol(v),
                Header::Status(v) => Header::Status(v),
            },
        )
    }
}

impl Header<HeaderName> {
    /// Parses a header name and value.
    pub fn new(name: &[u8], value: Vec<u8>) -> (r: Result<Header, DecoderError>)
        ensures
            util::viewed(r) == HeaderView::parsed(name@, value@),
    {
        if name.len() == 0 {
            return Err(DecoderError::NeedMore(NeedMore::UnexpectedEndOfStream));
        }
        if name[0] == 0x3a {
            if same_bytes(name, ":authority".as_bytes()) {
                match read_text(value.as_slice()) {
                    Ok(v) => Ok(Header::Authority(v)),
                    Err(e) => Err(e),
                }
            } else if same_bytes(name, ":method".as_bytes()) {
                match read_method(value.as_slice()) {
                    Ok(v) => Ok(Header::Method(v)),
                    Err(e) => Err(e),
                }
            } else if same_bytes(name, ":scheme".as_bytes()) {
                match read_text(value.as_slice()) {
                    Ok(v) => Ok(Header::Scheme(v)),
                    Err(e) => Err(e),
                }
            } else if same_bytes(name, ":path".as_bytes()) {
                match read_text(value.as_slice()) {
                    Ok(v) => Ok(Header::Path(v)),
                    Err(e) => Err(e),
                }
            } else if same_bytes(name, ":protocol".as_bytes()) {
                match read_text(value.as_slice()) {
                    Ok(v) => Ok(Header::Protocol(v)),
                    Err(e) => Err(e),
                }
            } else if same_bytes(name, ":status".as_bytes()) {
                match http::status_from_bytes(value.as_slice()) {
                    Some(v) => Ok(Header::Status(v)),
                    None => Err(DecoderError::InvalidStatusCode),
                }
            } else {
                Err(DecoderError::InvalidPseudoheader)
            }
        } else {
            // HTTP/2 requires lower case header names
            match http::name_from_lowercase(name) {
                None => Err(DecoderError::InvalidUtf8),
                Some(name) => match http::value_from_shared(value) {
                    None => Err(DecoderError::InvalidUtf8),
                    Some(value) => Ok(Header::Field { name, value }),
                },
            }
        }
    }

    /// Returns the HPACK table size of this header.
    #[allow(clippy::len_without_is_empty)]
    pub fn len(&self) -> (r: usize)
        requires
            entry_size(self@.raw()) <= usize::MAX,
        ensures
            r == entry_size(self@.raw()),
    {
        proof {
            pseudo_names();
        }
        match self {
            Header::Field { name, value } => 32 + name.len() + value.bytes.len(),
            Header::Authority(v) => 32 + 10 + text_len(v),
            Header::Method(v) => 32 + 7 + text_len(v),
            Header::Scheme(v) => 32 + 7 + text_len(v),
            Header::Path(v) => 32 + 5 + text_len(v),
            Header::Protocol(v) => 32 + 9 + text_len(v),
            Header::Status(_) => 32 + 7 + 3,
        }
    }

    /// Returns the header name.
    pub fn name(&self) -> (r: Name<'_>)
        ensures
            r@ == self@.name(),
    {
        match self {
            Header::Field { name, .. } => Name::Field(name),
            Header::Authority(_) => Name::Authority,
            Header::Method(_) => Name::Method,
            Header::Scheme(_) => Name::Scheme,
            Header::Path(_) => Name::Path,
            Header::Protocol(_) => Name::Protocol,
            Header::Status(_) => Name::Status,
        }
    }

    /// Returns the encoded header value.
    pub fn value_slice(&self) -> (r: Vec<u8>)
        requires
            self@ matches HeaderView::Status(v) ==> v <= 999,
        ensures
            r@ == self@.value(),
    {
        match self {
            Header::Field { value, .. } => util::copy(value.bytes.as_slice()),
            Header::Authority(v) => bytes_of(v.as_str()),
            Header::Method(v) => bytes_of(v.as_str()),
            Header::Scheme(v) => bytes_of(v.as_str()),
            Header::Path(v) => bytes_of(v.as_str()),
            Header::Protocol(v) => bytes_of(v.as_str()),
            Header::Status(v) => {
                let status: u16 = *v;
                let r: Vec<u8> = vec![
                    (0x30 + status / 100) as u8,
                    (0x30 + status / 10 % 10) as u8,
                    (0x30 + status % 10) as u8,
                ];
                assert(r@ =~= http::status_bytes(status));
                r
            },
        }
    }

    /// Returns whether both headers have the same kind and value.
    pub fn value_eq(&self, other: &Header) -> (r: bool)
        ensures
            r == match (self@, other@) {
                (
                    HeaderView::Field { value: a, .. },
                    HeaderView::Field { value: b, .. },
                ) => a == b,
                (HeaderView::Authority(a), HeaderView::Authority(b)) => a == b,
                (HeaderView::Method(a), HeaderView::Method(b)) => a == b,
                (HeaderView::Scheme(a), HeaderView::Scheme(b)) => a == b,
                (HeaderView::Path(a), HeaderView::Path(b)) => a == b,
                (HeaderView::Protocol(a), HeaderView::Protocol(b)) => a == b,
                (HeaderView::Status(a), HeaderView::Status(b)) => a == b,
                _ => false,
            },
    {
        match (self, other) {
            (Header::Field { value: a, .. }, Header::Field { value: b, .. }) => same_bytes(
                a.bytes.as_slice(),
                b.bytes.as_slice(),
            ),
            (Header::Authority(a), Header::Authority(b)) => *a == *b,
            (Header::Method(a), Header::Method(b)) => *a == *b,
            (Header::Scheme(a), Header::Scheme(b)) => *a == *b,
            (Header::Path(a), Header::Path(b)) => *a == *b,
            (Header::Protocol(a), Header::Protocol(b)) => *a == *b,
            (Header::Status(a), Header::Status(b)) => *a == *b,
            _ => false,
        }
    }

    /// Returns whether the header value is marked sensitive.
    pub fn is_sensitive(&self) -> (r: bool)
        ensures
            r == self@.sensitive(),
    {
        match self {
            Header::Field { value, .. } => value.sensitive,
            _ => false,
        }
    }
}

/// The names of fields whose values change too often to be worth a table entry.
pub open spec fn is_volatile(name: Seq<u8>) -> bool {
    ||| name == http::text_bytes("age"@)
    ||| name == http::text_bytes("authorization"@)
    ||| name == http::text_bytes("content-length"@)
    ||| name == http::text_bytes("etag"@)
    ||| name == http::text_bytes("if-modified-since"@)
    ||| name == http::text_bytes("if-none-match"@)
    ||| name == http::text_bytes("location"@)
    ||| name == http::text_bytes("cookie"@)
    ||| name == http::text_bytes("set-cookie"@)
}

impl HeaderView<Seq<u8>> {
    /// The value is to stay out of the dynamic table.
    pub open spec fn skips_index(self) -> bool {
        match self {
            HeaderView::Field { name, .. } => is_volatile(name),
            HeaderView::Path(_) => true,
            _ => false,
        }
    }
}

impl Header<HeaderName> {
    /// Returns whether the value should be omitted from the dynamic table.
    pub fn skip_value_index(&self) -> (r: bool)
        ensures
            r == self@.skips_index(),
    {
        match self {
            Header::Field { name, .. } => {
                let name = name.as_slice();
                same_bytes(name, "age".as_bytes()) || same_bytes(name, "authorization".as_bytes())
                    || same_bytes(name, "content-length".as_bytes()) || same_bytes(
                    name,
                    "etag".as_bytes(),
                ) || same_bytes(name, "if-modified-since".as_bytes()) || same_bytes(
                    name,
                    "if-none-match".as_bytes(),
                ) || same_bytes(name, "location".as_bytes()) || same_bytes(
                    name,
                    "cookie".as_bytes(),
                ) || same_bytes(name, "set-cookie".as_bytes())
            },
            Header::Path(_) => true,
            _ => false,
        }
    }
}

/// A header whose name is always given.
pub open spec fn named(header: HeaderView<Seq<u8>>) -> HeaderView<Option<Seq<u8>>> {
    match header {
        HeaderView::Field { name, value, sensitive } => HeaderView::Field {
            name: Some(name),
            value,
            sensitive,
        },
        HeaderView::Authority(v) => HeaderView::Authority(v),
        HeaderView::Method(v) => HeaderView::Method(v),
        HeaderView::Scheme(v) => HeaderView::Scheme(v),
        HeaderView::Path(v) => HeaderView::Path(v),
        HeaderView::Protocol(v) => HeaderView::Protocol(v),
        HeaderView::Status(v) => HeaderView::Status(v),
    }
}

impl Header<HeaderName> {
    /// The header with a name that could be left out.
    pub fn into_named(self) -> (r: Header<Option<HeaderName>>)
        ensures
            r@ == named(self@),
    {
        match self {
            Header::Field { name, value } => Header::Field { value, name: Some(name) },
            Header::Authority(v) => Header::Authority(v),
            Header::Method(v) => Header::Method(v),
            Header::Scheme(v) => Header::Scheme(v),
            Header::Path(v) => Header::Path(v),
            Header::Protocol(v) => Header::Protocol(v),
            Header::Status(v) => Header::Status(v),
        }
    }
}

impl<'a> Name<'a> {
    /// Combines this name with a decoded value.
    pub fn into_entry(self, value: Vec<u8>) -> (r: Result<Header, DecoderError>)
        requires
            self matches Name::Field(name) ==> http::valid_name(name@),
        ensures
            util::viewed(r) == HeaderView::parsed(self@, value@),
    {
        proof {
            pseudo_names();
        }
        match self {
            Name::Field(name) => match http::value_from_shared(value) {
                Some(value) => {
                    assert(is_name_byte_not_colon(name@[0]));
                    Ok(Header::Field { name: util::copy(name.as_slice()), value })
                },
                None => {
                    assert(is_name_byte_not_colon(name@[0]));
                    Err(DecoderError::InvalidUtf8)
                },
            },
            Name::Authority => match read_text(value.as_slice()) {
                Ok(v) => Ok(Header::Authority(v)),
                Err(e) => Err(e),
            },
            Name::Method => match read_method(value.as_slice()) {
                Ok(v) => Ok(Header::Method(v)),
                Err(e) => Err(e),
            },
            Name::Scheme => match read_text(value.as_slice()) {
                Ok(v) => Ok(Header::Scheme(v)),
                Err(e) => Err(e),
            },
            Name::Path => match read_text(value.as_slice()) {
                Ok(v) => Ok(Header::Path(v)),
                Err(e) => Err(e),
            },
            Name::Protocol => match read_text(value.as_slice()) {
                Ok(v) => Ok(Header::Protocol(v)),
                Err(e) => Err(e),
            },
            Name::Status => match http::status_from_bytes(value.as_slice()) {
                Some(v) => Ok(Header::Status(v)),
                None => Err(DecoderError::InvalidStatusCode),
            },
        }
    }

    /// Returns the encoded header name.
    pub fn as_slice(&self) -> (r: &[u8])
        ensures
            r@ == self@,
    {
        match self {
            Name::Field(name) => name.as_slice(),
            Name::Authority => ":authority".as_bytes(),
            Name::Method => ":method".as_bytes(),
            Name::Scheme => ":scheme".as_bytes(),
            Name::Path => ":path".as_bytes(),
            Name::Protocol => ":protocol".as_bytes(),
            Name::Status => ":status".as_bytes(),
        }
    }
}

/// A byte that may stand in a name is no colon.
spec fn is_name_byte_not_colon(b: u8) -> bool {
    http::is_name_byte(b) && b != 0x3a
}

/// The length of a text, in bytes.
fn text_len(s: &String) -> (r: usize)
    ensures
        r == http::text_bytes(s@).len(),
{
    s.as_str().as_bytes().len()
}

/// The names of the pseudo-headers start with a colon and differ.
pub proof fn pseudo_names()
    ensures
        http::text_bytes(":authority"@).len() == 10,
        http::text_bytes(":method"@).len() == 7,
        http::text_bytes(":scheme"@).len() == 7,
        http::text_bytes(":path"@).len() == 5,
        http::text_bytes(":protocol"@).len() == 9,
        http::text_bytes(":status"@).len() == 7,
        http::text_bytes(":authority"@)[0] == 0x3a,
        http::text_bytes(":method"@)[0] == 0x3a,
        http::text_bytes(":scheme"@)[0] == 0x3a,
        http::text_bytes(":path"@)[0] == 0x3a,
        http::text_bytes(":protocol"@)[0] == 0x3a,
        http::text_bytes(":status"@)[0] == 0x3a,
        http::text_bytes(":method"@) != http::text_bytes(":scheme"@),
        http::text_bytes(":method"@) != http::text_bytes(":status"@),
        http::text_bytes(":scheme"@) != http::text_bytes(":status"@),
{
    reveal_strlit(":authority");
    reveal_strlit(":method");
    reveal_strlit(":scheme");
    reveal_strlit(":path");
    reveal_strlit(":protocol");
    reveal_strlit(":status");
    vstd::utf8::is_ascii_chars_encode_utf8(":authority"@);
    vstd::utf8::is_ascii_chars_encode_utf8(":method"@);
    vstd::utf8::is_ascii_chars_encode_utf8(":scheme"@);
    vstd::utf8::is_ascii_chars_encode_utf8(":path"@);
    vstd::utf8::is_ascii_chars_encode_utf8(":protocol"@);
    vstd::utf8::is_ascii_chars_encode_utf8(":status"@);
    assert(http::text_bytes(":method"@)[1] == 0x6d);
    assert(http::text_bytes(":scheme"@)[1] == 0x73);
    assert(http::text_bytes(":status"@)[1] == 0x73);
    assert(http::text_bytes(":scheme"@)[2] == 0x63);
    assert(http::text_bytes(":status"@)[2] == 0x74);
}

/// What comes off the wire is valid.
pub proof fn parsed_wf(name: Seq<u8>, value: Seq<u8>)
    ensures
        HeaderView::parsed(name, value) matches Ok(h) ==> h.wf() && !h.sensitive(),
{
    if HeaderView::parsed(name, value) is Ok {
        let h = HeaderView::parsed(name, value)->Ok_0;
        match h {
            HeaderView::Method(_) => method_utf8(value),
            _ => {},
        }
    }
}

/// The bytes of a method are its text.
proof fn method_utf8(value: Seq<u8>)
    requires
        http::valid_method(value),
    ensures
        http::text_bytes(vstd::utf8::decode_utf8(value)) == value,
{
    assert(vstd::utf8::valid_utf8(value)) by {
        ascii_utf8(value);
    }
    vstd::utf8::decode_utf8_encode_utf8(value);
}

/// Bytes below 128 are valid UTF-8.
pub proof fn ascii_utf8(value: Seq<u8>)
    requires
        forall|i: int| 0 <= i < value.len() ==> #[trigger] value[i] < 128,
    ensures
        vstd::utf8::valid_utf8(value),
    decreases value.len(),
{
    if value.len() > 0 {
        let b = value[0];
        assert(b < 128 ==> b & 0x80 == 0) by (bit_vector);
        let rest = vstd::utf8::pop_first_scalar(value);
        assert(vstd::utf8::is_leading_byte_width_1(b));
        assert(rest =~= value.skip(1));
        ascii_utf8(value.skip(1));
    }
}

/// A header is recovered from its name and value, but for its mark of sensitivity.
pub proof fn header_inverse(header: HeaderView<Seq<u8>>)
    requires
        header.wf(),
    ensures
        HeaderView::parsed(header.name(), header.value()) == Ok::<
            HeaderView<Seq<u8>>,
            DecoderError,
        >(header.plain()),
{
    pseudo_names();
    match header {
        HeaderView::Field { name, .. } => assert(is_name_byte_not_colon(name[0])),
        HeaderView::Authority(v) => {
            vstd::utf8::encode_utf8_valid_utf8(v);
            vstd::utf8::encode_utf8_decode_utf8(v);
        },
        HeaderView::Method(v) => vstd::utf8::encode_utf8_decode_utf8(v),
        HeaderView::Scheme(v) => {
            vstd::utf8::encode_utf8_valid_utf8(v);
            vstd::utf8::encode_utf8_decode_utf8(v);
        },
        HeaderView::Path(v) => {
            vstd::utf8::encode_utf8_valid_utf8(v);
            vstd::utf8::encode_utf8_decode_utf8(v);
        },
        HeaderView::Protocol(v) => {
            vstd::utf8::encode_utf8_valid_utf8(v);
            vstd::utf8::encode_utf8_decode_utf8(v);
        },
        HeaderView::Status(v) => http::status_inverse(v),
    }
}

impl<'a> View for Name<'a> {
    type V = Seq<u8>;

    /// The name on the wire.
    open spec fn view(&self) -> Seq<u8> {
        match self {
            Name::Field(name) => name@,
            Name::Authority => http::text_bytes(":authority"@),
            Name::Method => http::text_bytes(":method"@),
            Name::Scheme => http::text_bytes(":scheme"@),
            Name::Path => http::text_bytes(":path"@),
            Name::Protocol => http::text_bytes(":protocol"@),
            Name::Status => http::text_bytes(":status"@),
        }
    }
}

} // verus!
