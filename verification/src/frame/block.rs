//! What a list of headers makes of a header block.
use vstd::prelude::*;

use crate::frame::headers::{BlockView, LoadState};
use crate::frame::pseudo::PseudoView;
use crate::hpack::header::HeaderView;
use crate::http;

verus! {

/// A field that belongs to one hop and has no place in a header block.
pub open spec fn hop_field(h: HeaderView<Seq<u8>>) -> bool {
    h matches HeaderView::Field { name, value, .. } && (name == http::text_bytes("connection"@)
        || name == http::text_bytes("keep-alive"@) || name == http::text_bytes(
        "proxy-connection"@,
    ) || name == http::text_bytes("transfer-encoding"@) || name == http::text_bytes("upgrade"@)
        || (name == http::text_bytes("te"@) && value != http::text_bytes("trailers"@)))
}

/// Two pseudo-headers of one name.
pub open spec fn same_pseudo(a: HeaderView<Seq<u8>>, b: HeaderView<Seq<u8>>) -> bool {
    ||| a is Authority && b is Authority
    ||| a is Method && b is Method
    ||| a is Scheme && b is Scheme
    ||| a is Path && b is Path
    ||| a is Protocol && b is Protocol
    ||| a is Status && b is Status
}

/// A field that is taken in stands before a place.
pub open spec fn field_before(headers: Seq<HeaderView<Seq<u8>>>, i: int) -> bool {
    exists|j: int| 0 <= j < i && (#[trigger] headers[j]) is Field && !hop_field(headers[j])
}

/// A pseudo-header of the same name stands before a place.
pub open spec fn pseudo_before(headers: Seq<HeaderView<Seq<u8>>>, i: int) -> bool {
    exists|j: int| 0 <= j < i && same_pseudo(#[trigger] headers[j], headers[i])
}

/// A header that must not stand where it does.
pub open spec fn misplaced(headers: Seq<HeaderView<Seq<u8>>>, i: int) -> bool {
    if headers[i] is Field {
        hop_field(headers[i])
    } else {
        field_before(headers, i) || pseudo_before(headers, i)
    }
}

/// The values of a name, in their order.
pub open spec fn taken_values(headers: Seq<HeaderView<Seq<u8>>>, name: Seq<u8>) -> Seq<
    (Seq<u8>, bool),
>
    decreases headers.len(),
{
    if headers.len() == 0 {
        Seq::empty()
    } else {
        let rest = taken_values(headers.drop_last(), name);
        match headers.last() {
            HeaderView::Field { name: n, value, sensitive } => if n == name && !hop_field(
                headers.last(),
            ) {
                rest.push((value, sensitive))
            } else {
                rest
            },
            _ => rest,
        }
    }
}

/// Nothing has been taken in yet.
pub open spec fn no_headers() -> LoadState {
    LoadState::start(
        BlockView {
            pseudo: PseudoView {
                method: None,
                scheme: None,
                authority: None,
                path: None,
                protocol: None,
                status: None,
            },
            fields: Map::empty(),
        },
    )
}

/// Whether a list has a pseudo-header of each name.
spec fn some_before(headers: Seq<HeaderView<Seq<u8>>>, p: PseudoView) -> bool {
    &&& (p.authority is Some ==> exists|j: int|
        0 <= j < headers.len() && #[trigger] headers[j] == HeaderView::<Seq<u8>>::Authority(
            p.authority->0,
        ))
    &&& (p.method is Some ==> exists|j: int|
        0 <= j < headers.len() && #[trigger] headers[j] == HeaderView::<Seq<u8>>::Method(
            p.method->0,
        ))
    &&& (p.scheme is Some ==> exists|j: int|
        0 <= j < headers.len() && #[trigger] headers[j] == HeaderView::<Seq<u8>>::Scheme(
            p.scheme->0,
        ))
    &&& (p.path is Some ==> exists|j: int|
        0 <= j < headers.len() && #[trigger] headers[j] == HeaderView::<Seq<u8>>::Path(p.path->0))
    &&& (p.protocol is Some ==> exists|j: int|
        0 <= j < headers.len() && #[trigger] headers[j] == HeaderView::<Seq<u8>>::Protocol(
            p.protocol->0,
        ))
    &&& (p.status is Some ==> exists|j: int|
        0 <= j < headers.len() && #[trigger] headers[j] == HeaderView::<Seq<u8>>::Status(
            p.status->0,
        ))
}

/// Whether each pseudo-header of a list is known, as long as the list is in order.
spec fn all_known(headers: Seq<HeaderView<Seq<u8>>>, p: PseudoView) -> bool {
    forall|j: int|
        0 <= j < headers.len() ==> match #[trigger] headers[j] {
            HeaderView::Field { .. } => true,
            HeaderView::Authority(v) => p.authority == Some(v),
            HeaderView::Method(v) => p.method == Some(v),
            HeaderView::Scheme(v) => p.scheme == Some(v),
            HeaderView::Path(v) => p.path == Some(v),
            HeaderView::Protocol(v) => p.protocol == Some(v),
            HeaderView::Status(v) => p.status == Some(v),
        }
}

proof fn taken_so_far(headers: Seq<HeaderView<Seq<u8>>>)
    ensures
        ({
            let st = no_headers().all(headers);
            let p = st.block.pseudo;
            &&& st.regular == field_before(headers, headers.len() as int)
            &&& some_before(headers, p)
            &&& st.malformed == exists|i: int|
                0 <= i < headers.len() && #[trigger] misplaced(headers, i)
            &&& !st.malformed ==> all_known(headers, p)
            &&& forall|name: Seq<u8>| #[trigger]
                http::map_values(st.block.fields, name) == taken_values(headers, name)
            &&& http::valued(st.block.fields)
        }),
    decreases headers.len(),
{
    let st = no_headers().all(headers);
    let p = st.block.pseudo;
    let n = headers.len() as int;
    if n > 0 {
        let init = headers.drop_last();
        let last = headers.last();
        taken_so_far(init);
        let before = no_headers().all(init);
        assert forall|i: int| 0 <= i < n - 1 implies #[trigger] headers[i] == init[i] by {}
        assert forall|i: int| 0 <= i < n - 1 implies #[trigger] misplaced(headers, i) == misplaced(
            init,
            i,
        ) by {
            before_is_local(headers, init, i, i);
        }
        before_is_local(headers, init, n - 1, n - 1);
        // whether the last header stands where it may
        if !(last is Field) {
            if pseudo_before(headers, n - 1) && !before.malformed {
                let j = choose|j: int| 0 <= j < n - 1 && same_pseudo(#[trigger] headers[j], last);
                assert(init[j] == headers[j]);
            }
            if before.one(last).malformed && !before.malformed && !before.regular {
                let j = choose|j: int|
                    0 <= j < init.len() && same_pseudo(#[trigger] init[j], last);
                assert(headers[j] == init[j]);
                assert(pseudo_before(headers, n - 1));
            }
        }
        assert(st == before.one(last));
        assert(misplaced(headers, n - 1) ==> st.malformed);
        assert(st.malformed ==> before.malformed || misplaced(headers, n - 1));
        if before.malformed {
            let i = choose|i: int| 0 <= i < init.len() && #[trigger] misplaced(init, i);
            assert(misplaced(headers, i));
        }
        // the fields that have been taken in
        if field_before(init, n - 1) {
            let j = choose|j: int|
                0 <= j < n - 1 && (#[trigger] init[j]) is Field && !hop_field(init[j]);
            assert(headers[j] is Field);
        }
        if last is Field && !hop_field(last) {
            assert(headers[n - 1] is Field);
        }
        assert(st.regular == field_before(headers, n));
        assert forall|name: Seq<u8>| #[trigger]
            http::map_values(st.block.fields, name) == taken_values(headers, name) by {
            assert(http::map_values(before.block.fields, name) == taken_values(init, name));
        }
        known_stays(headers, init, before.block.pseudo, p);
    } else {
        assert(no_headers().block.fields =~= http::no_fields());
    }
}

proof fn before_is_local(
    headers: Seq<HeaderView<Seq<u8>>>,
    init: Seq<HeaderView<Seq<u8>>>,
    i: int,
    n: int,
)
    requires
        init == headers.drop_last(),
        0 <= i <= n <= init.len(),
        headers.len() > 0,
    ensures
        field_before(headers, i) == field_before(init, i),
        i < init.len() ==> pseudo_before(headers, i) == pseudo_before(init, i),
{
    if field_before(headers, i) {
        let j = choose|j: int|
            0 <= j < i && (#[trigger] headers[j]) is Field && !hop_field(headers[j]);
        assert(init[j] is Field);
    }
    if field_before(init, i) {
        let j = choose|j: int| 0 <= j < i && (#[trigger] init[j]) is Field && !hop_field(init[j]);
        assert(headers[j] is Field);
    }
    if i < init.len() {
        if pseudo_before(headers, i) {
            let j = choose|j: int| 0 <= j < i && same_pseudo(#[trigger] headers[j], headers[i]);
            assert(same_pseudo(init[j], init[i]));
        }
        if pseudo_before(init, i) {
            let j = choose|j: int| 0 <= j < i && same_pseudo(#[trigger] init[j], init[i]);
            assert(same_pseudo(headers[j], headers[i]));
        }
    }
}

proof fn known_stays(
    headers: Seq<HeaderView<Seq<u8>>>,
    init: Seq<HeaderView<Seq<u8>>>,
    before: PseudoView,
    p: PseudoView,
)
    requires
        headers.len() > 0,
        init == headers.drop_last(),
        some_before(init, before),
        match headers.last() {
            HeaderView::Field { .. } => p == before,
            HeaderView::Authority(v) => p == before || (p == (PseudoView {
                authority: Some(v),
                ..before
            })),
            HeaderView::Method(v) => p == before || (p == (PseudoView {
                method: Some(v),
                ..before
            })),
            HeaderView::Scheme(v) => p == before || (p == (PseudoView {
                scheme: Some(v),
                ..before
            })),
            HeaderView::Path(v) => p == before || (p == (PseudoView { path: Some(v), ..before })),
            HeaderView::Protocol(v) => p == before || (p == (PseudoView {
                protocol: Some(v),
                ..before
            })),
            HeaderView::Status(v) => p == before || (p == (PseudoView {
                status: Some(v),
                ..before
            })),
        },
    ensures
        some_before(headers, p),
{
    let n = headers.len() - 1;
    assert(headers[n] == headers.last());
    assert forall|j: int| 0 <= j < n implies #[trigger] init[j] == headers[j] by {}
    if p.authority is Some && p.authority == before.authority {
        let j = choose|j: int|
            0 <= j < init.len() && #[trigger] init[j] == HeaderView::<Seq<u8>>::Authority(
                p.authority->0,
            );
        assert(headers[j] == init[j]);
    }
    if p.method is Some && p.method == before.method {
        let j = choose|j: int|
            0 <= j < init.len() && #[trigger] init[j] == HeaderView::<Seq<u8>>::Method(
                p.method->0,
            );
        assert(headers[j] == init[j]);
    }
    if p.scheme is Some && p.scheme == before.scheme {
        let j = choose|j: int|
            0 <= j < init.len() && #[trigger] init[j] == HeaderView::<Seq<u8>>::Scheme(
                p.scheme->0,
            );
        assert(headers[j] == init[j]);
    }
    if p.path is Some && p.path == before.path {
        let j = choose|j: int|
            0 <= j < init.len() && #[trigger] init[j] == HeaderView::<Seq<u8>>::Path(p.path->0);
        assert(headers[j] == init[j]);
    }
    if p.protocol is Some && p.protocol == before.protocol {
        let j = choose|j: int|
            0 <= j < init.len() && #[trigger] init[j] == HeaderView::<Seq<u8>>::Protocol(
                p.protocol->0,
            );
        assert(headers[j] == init[j]);
    }
    if p.status is Some && p.status == before.status {
        let j = choose|j: int|
            0 <= j < init.len() && #[trigger] init[j] == HeaderView::<Seq<u8>>::Status(
                p.status->0,
            );
        assert(headers[j] == init[j]);
    }
}

/// A header block is malformed exactly where a header stands in it that must not: a field
/// that belongs to one hop, a pseudo-header behind a field, or one that has been there
/// before.
pub proof fn malformed_blocks(headers: Seq<HeaderView<Seq<u8>>>)
    ensures
        no_headers().all(headers).malformed <==> exists|i: int|
            0 <= i < headers.len() && #[trigger] misplaced(headers, i),
{
    taken_so_far(headers);
}

/// A header block has all the values of a field, in the order in which they came, and no
/// others.
pub proof fn fields_in_order(headers: Seq<HeaderView<Seq<u8>>>, name: Seq<u8>)
    ensures
        ({
            let fields = no_headers().all(headers).block.fields;
            let values = taken_values(headers, name);
            &&& (fields.dom().contains(name) <==> values.len() > 0)
            &&& values.len() > 0 ==> fields[name] == values
        }),
{
    taken_so_far(headers);
    let fields = no_headers().all(headers).block.fields;
    assert(http::map_values(fields, name) == taken_values(headers, name));
    if fields.dom().contains(name) {
        assert(fields[name].len() > 0);
    }
}

/// A header block that is not malformed has each pseudo-header that came with its value,
/// and no other.
pub proof fn pseudo_headers_kept(headers: Seq<HeaderView<Seq<u8>>>, i: int)
    requires
        !no_headers().all(headers).malformed,
        0 <= i < headers.len(),
    ensures
        ({
            let p = no_headers().all(headers).block.pseudo;
            &&& headers[i] matches HeaderView::Authority(v) ==> p.authority == Some(v)
            &&& headers[i] matches HeaderView::Method(v) ==> p.method == Some(v)
            &&& headers[i] matches HeaderView::Scheme(v) ==> p.scheme == Some(v)
            &&& headers[i] matches HeaderView::Path(v) ==> p.path == Some(v)
            &&& headers[i] matches HeaderView::Protocol(v) ==> p.protocol == Some(v)
            &&& headers[i] matches HeaderView::Status(v) ==> p.status == Some(v)
            &&& p.authority is Some ==> headers.contains(HeaderView::Authority(p.authority->0))
            &&& p.method is Some ==> headers.contains(HeaderView::Method(p.method->0))
            &&& p.scheme is Some ==> headers.contains(HeaderView::Scheme(p.scheme->0))
            &&& p.path is Some ==> headers.contains(HeaderView::Path(p.path->0))
            &&& p.protocol is Some ==> headers.contains(HeaderView::Protocol(p.protocol->0))
            &&& p.status is Some ==> headers.contains(HeaderView::Status(p.status->0))
        }),
{
    taken_so_far(headers);
    assert(headers[i] == headers[i]);
}

} // verus!
