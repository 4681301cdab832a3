//! Reading requests from, and writing decisions to, the header maps of the
//! `http` crate.

use super::headers::{
    all_valid, distinct_names, lemma_lookup_absent, lemma_lookup_first, lemma_lookup_none,
    lemma_lookup_some, lookup, valid_field, Field, HeaderSet,
};
use super::lists::{lemma_lowered_same, lowered};
use super::request::{
    bytes_of, Request, RequestView, ACCESS_CONTROL_REQUEST_HEADERS, ACCESS_CONTROL_REQUEST_METHOD,
    ORIGIN,
};
use super::text::{lemma_same_ignoring_case, same_ignoring_case, text, to_vec};
use http::header::{HeaderMap, HeaderName, HeaderValue};
use vstd::prelude::*;

verus! {

/// `http::header::HeaderValue`, carried through as it is: the value of a
/// header field. Nothing is claimed of what is inside.
#[verifier::external_type_specification]
#[verifier::external_body]
pub struct ExHeaderValue(HeaderValue);

/// `http::header::HeaderMap`, carried through as it is: the header fields
/// of a request or a response. What it holds is told by
/// [`header_map_fields`].
#[verifier::external_type_specification]
#[verifier::external_body]
#[verifier::reject_recursive_types(T)]
pub struct ExHeaderMap<T>(HeaderMap<T>);

/// What a header map holds: under each header name that occurs in it, the
/// values of that header in their order. Names are the bytes that the map
/// keeps, which are in lower case.
pub uninterp spec fn header_map_fields(headers: HeaderMap<HeaderValue>) -> Map<Seq<u8>, Seq<Seq<u8>>>;

/// What a header map without headers holds.
pub open spec fn no_fields() -> Map<Seq<u8>, Seq<Seq<u8>>> {
    Map::empty()
}

/// The first value of the header `name` in what a map holds.
pub open spec fn first_value(fields: Map<Seq<u8>, Seq<Seq<u8>>>, name: Seq<u8>) -> Option<
    Seq<u8>,
> {
    if fields.contains_key(lowered(name)) && fields[lowered(name)].len() > 0 {
        Some(fields[lowered(name)][0])
    } else {
        None
    }
}

/// `HeaderMap::new`: a map that holds nothing.
#[verifier::external_body]
fn map_new() -> (fresh: HeaderMap<HeaderValue>)
    ensures
        header_map_fields(fresh) == no_fields(),
{
    HeaderMap::new()
}

/// `HeaderMap::get` with a name given as text: the first value of the
/// header of that name, whatever the case of the letters in `name`, or
/// `None` where the map has no such header.
#[verifier::external_body]
fn map_get(headers: &HeaderMap<HeaderValue>, name: &str) -> (value: Option<Vec<u8>>)
    ensures
        bytes_of(value) == first_value(header_map_fields(*headers), text(name)),
{
    headers.get(name).map(|value| value.as_bytes().to_vec())
}

/// The number of header names below which the `http` crate takes a
/// further name into a map, whatever the state of the map.
pub const ROOM: usize = 6554;

/// The map has room for `extra` more header names.
pub open spec fn has_room(fields: Map<Seq<u8>, Seq<Seq<u8>>>, extra: nat) -> bool {
    fields.dom().finite() && fields.dom().len() + extra <= ROOM
}

/// What a map holds after a field was added to it: the header of that
/// name, taken in lower case, has the values that it had and then the
/// field's value. Every other header is as before.
pub open spec fn append_one(fields: Map<Seq<u8>, Seq<Seq<u8>>>, field: Field) -> Map<
    Seq<u8>,
    Seq<Seq<u8>>,
> {
    let key = lowered(field.name);
    if fields.contains_key(key) {
        fields.insert(key, fields[key].push(field.value))
    } else {
        fields.insert(key, seq![field.value])
    }
}

/// What a map holds after each of `fields` was added to it, in order.
pub open spec fn appended(base: Map<Seq<u8>, Seq<Seq<u8>>>, fields: Seq<Field>) -> Map<
    Seq<u8>,
    Seq<Seq<u8>>,
>
    decreases fields.len(),
{
    if fields.len() == 0 {
        base
    } else {
        append_one(appended(base, fields.drop_last()), fields.last())
    }
}

/// The values of the header `name` in what a map holds, none where the
/// map has no such header.
pub open spec fn values_of(fields: Map<Seq<u8>, Seq<Seq<u8>>>, name: Seq<u8>) -> Seq<Seq<u8>> {
    if fields.contains_key(lowered(name)) {
        fields[lowered(name)]
    } else {
        Seq::empty()
    }
}

/// The values of the fields called `name`, in their order.
pub open spec fn named_values(fields: Seq<Field>, name: Seq<u8>) -> Seq<Seq<u8>>
    decreases fields.len(),
{
    if fields.len() == 0 {
        Seq::empty()
    } else if same_ignoring_case(fields.last().name, name) {
        named_values(fields.drop_last(), name).push(fields.last().value)
    } else {
        named_values(fields.drop_last(), name)
    }
}

/// The map holds `count` header names, and so finitely many.
pub open spec fn holds_names(fields: Map<Seq<u8>, Seq<Seq<u8>>>, count: nat) -> bool {
    fields.dom().finite() && fields.dom().len() == count
}

/// The field can be added for certain: it has a header name and a header
/// value, and the map has room for one more name.
pub open spec fn is_taken(fields: Map<Seq<u8>, Seq<Seq<u8>>>, field: Field) -> bool {
    valid_field(field) && has_room(fields, 1)
}

/// The field at `k` is not one that is added for certain, once the fields
/// before it are added.
pub open spec fn refused_at(base: Map<Seq<u8>, Seq<Seq<u8>>>, fields: Seq<Field>, k: int) -> bool {
    !is_taken(appended(base, fields.subrange(0, k)), fields[k])
}

/// `HeaderMap::keys_len`: the number of header names in the map, which is
/// finite.
#[verifier::external_body]
fn map_keys_len(headers: &HeaderMap<HeaderValue>) -> (n: usize)
    ensures
        holds_names(header_map_fields(*headers), n as nat),
{
    headers.keys_len()
}

/// `HeaderMap::try_append` with a name made by `HeaderName::from_bytes` and
/// a value made by `HeaderValue::from_bytes`. It returns `true` where the
/// value was added: after the values that the header of that name had, or
/// as the first value of a new header. It returns `false`, and the map
/// holds what it held, where the `http` crate refuses the name, the value
/// or one more entry. The crate takes every header name and header value,
/// and takes one more entry into a map of fewer than `ROOM` names.
#[verifier::external_body]
fn map_try_append(headers: &mut HeaderMap<HeaderValue>, name: &[u8], value: &[u8]) -> (stored:
    bool)
    ensures
        stored ==> header_map_fields(*final(headers)) == append_one(
            header_map_fields(*old(headers)),
            (Field { name: name@, value: value@ }),
        ),
        !stored ==> header_map_fields(*final(headers)) == header_map_fields(*old(headers)),
        stored ==> valid_field((Field { name: name@, value: value@ })),
        is_taken(header_map_fields(*old(headers)), (Field { name: name@, value: value@ }))
            ==> stored,
{
    match (HeaderName::from_bytes(name), HeaderValue::from_bytes(value)) {
        (Ok(name), Ok(value)) => headers.try_append(name, value).is_ok(),
        _ => false,
    }
}

/// Adding a field adds at most one header name.
pub proof fn lemma_append_room(fields: Map<Seq<u8>, Seq<Seq<u8>>>, field: Field, extra: nat)
    requires
        has_room(fields, extra + 1),
    ensures
        has_room(append_one(fields, field), extra),
{
    let key = lowered(field.name);
    assert(append_one(fields, field).dom() =~= fields.dom().insert(key));
}

/// Adding fields takes no value away: each header has the values that it
/// had, in their order, and after them the values of the fields of its
/// name, in their order.
pub proof fn lemma_appended_values(
    base: Map<Seq<u8>, Seq<Seq<u8>>>,
    fields: Seq<Field>,
    name: Seq<u8>,
)
    ensures
        values_of(appended(base, fields), name) == values_of(base, name) + named_values(
            fields,
            name,
        ),
        base.contains_key(lowered(name)) ==> appended(base, fields).contains_key(lowered(name)),
    decreases fields.len(),
{
    if fields.len() == 0 {
        assert(values_of(base, name) + named_values(fields, name) =~= values_of(base, name));
    } else {
        let head = fields.drop_last();
        let last = fields.last();
        lemma_appended_values(base, head, name);
        lemma_lowered_same(last.name, name);
        let before = appended(base, head);
        if same_ignoring_case(last.name, name) {
            assert(values_of(append_one(before, last), name) =~= values_of(before, name).push(
                last.value,
            ));
            assert(values_of(base, name) + named_values(fields, name) =~= (values_of(base, name)
                + named_values(head, name)).push(last.value));
        }
    }
}

/// Among fields with different names, the values of a name are the one
/// value that the lookup finds, or none.
pub proof fn lemma_named_values(fields: Seq<Field>, name: Seq<u8>)
    requires
        distinct_names(fields),
    ensures
        named_values(fields, name) == match lookup(fields, name) {
            Some(value) => seq![value],
            None => Seq::<Seq<u8>>::empty(),
        },
    decreases fields.len(),
{
    if fields.len() > 0 {
        let head = fields.drop_last();
        let last = fields.last();
        assert forall|a: int, b: int| 0 <= a < b < head.len() implies !same_ignoring_case(
            #[trigger] head[a].name,
            #[trigger] head[b].name,
        ) by {
            assert(head[a] == fields[a]);
            assert(head[b] == fields[b]);
        }
        lemma_named_values(head, name);
        if same_ignoring_case(last.name, name) {
            assert forall|k: int| 0 <= k < head.len() implies !same_ignoring_case(
                #[trigger] head[k].name,
                name,
            ) by {
                assert(head[k] == fields[k]);
                assert(!same_ignoring_case(fields[k].name, fields[fields.len() - 1].name));
                lemma_same_ignoring_case(last.name, name, last.name);
                lemma_same_ignoring_case(fields[k].name, name, last.name);
            }
            lemma_lookup_absent(head, name);
            assert forall|k: int| 0 <= k < fields.len() - 1 implies !same_ignoring_case(
                #[trigger] fields[k].name,
                name,
            ) by {
                assert(head[k] == fields[k]);
            }
            lemma_lookup_first(fields, fields.len() - 1, name);
            assert(named_values(fields, name) =~= seq![last.value]);
        } else {
            if lookup(head, name) is Some {
                let i = lemma_lookup_some(head, name);
                assert(head[i] == fields[i]);
                assert forall|k: int| 0 <= k < i implies !same_ignoring_case(
                    #[trigger] fields[k].name,
                    name,
                ) by {
                    assert(!same_ignoring_case(fields[k].name, fields[i].name));
                    lemma_same_ignoring_case(fields[i].name, name, fields[i].name);
                    lemma_same_ignoring_case(fields[k].name, name, fields[i].name);
                }
                lemma_lookup_first(fields, i, name);
            } else {
                lemma_lookup_none(head, name);
                assert forall|k: int| 0 <= k < fields.len() implies !same_ignoring_case(
                    #[trigger] fields[k].name,
                    name,
                ) by {
                    if k < head.len() {
                        assert(head[k] == fields[k]);
                    }
                }
                lemma_lookup_absent(fields, name);
            }
        }
    }
}

/// The request that a method and a header map stand for.
pub open spec fn request_of(method: Seq<u8>, fields: Map<Seq<u8>, Seq<Seq<u8>>>) -> Request {
    Request {
        method,
        origin: first_value(fields, text(ORIGIN)),
        requested_method: first_value(fields, text(ACCESS_CONTROL_REQUEST_METHOD)),
        requested_headers: first_value(fields, text(ACCESS_CONTROL_REQUEST_HEADERS)),
    }
}

/// Reads what a decision depends on from a request's method and headers.
/// Of a header that occurs more than once the first value counts.
pub fn read_request(method: &[u8], headers: &HeaderMap<HeaderValue>) -> (r: RequestView)
    ensures
        r@ == request_of(method@, header_map_fields(*headers)),
{
    RequestView {
        method: to_vec(method),
        origin: map_get(headers, ORIGIN),
        requested_method: map_get(headers, ACCESS_CONTROL_REQUEST_METHOD),
        requested_headers: map_get(headers, ACCESS_CONTROL_REQUEST_HEADERS),
    }
}

/// Whether the map has room for `extra` more header names.
pub fn room_for(headers: &HeaderMap<HeaderValue>, extra: usize) -> (r: bool)
    ensures
        r == has_room(header_map_fields(*headers), extra as nat),
{
    let held = map_keys_len(headers);
    held <= ROOM && extra <= ROOM - held
}

/// Adds each field of `fields` to `target`, in order; no value that
/// `target` holds is taken away. Returns `true` where every field was
/// added. Returns `false` at the first field that the `http` crate
/// refuses: the fields before it are added then, and no other. No field is
/// refused while the fields have header names and header values and the
/// map has room for them.
pub fn write_fields(target: &mut HeaderMap<HeaderValue>, fields: &HeaderSet) -> (done: bool)
    ensures
        done ==> header_map_fields(*final(target)) == appended(
            header_map_fields(*old(target)),
            fields@,
        ),
        !done ==> exists|k: int|
            0 <= k < fields@.len() && #[trigger] refused_at(
                header_map_fields(*old(target)),
                fields@,
                k,
            ) && header_map_fields(*final(target)) == appended(
                header_map_fields(*old(target)),
                fields@.subrange(0, k),
            ),
        all_valid(fields@) && has_room(header_map_fields(*old(target)), fields@.len()) ==> done,
{
    let mut i: usize = 0;
    let ghost start = header_map_fields(*target);
    assert(fields@.subrange(0, 0) =~= Seq::<Field>::empty());
    while i < fields.len()
        invariant
            i <= fields@.len(),
            start == header_map_fields(*old(target)),
            header_map_fields(*target) == appended(start, fields@.subrange(0, i as int)),
            has_room(start, fields@.len()) ==> has_room(
                header_map_fields(*target),
                (fields@.len() - i) as nat,
            ),
        decreases fields@.len() - i,
    {
        let ghost before = header_map_fields(*target);
        proof {
            let next = fields@.subrange(0, i + 1);
            assert(next.drop_last() =~= fields@.subrange(0, i as int));
            assert(next.last() == fields@[i as int]);
            if has_room(start, fields@.len()) {
                lemma_append_room(before, fields@[i as int], (fields@.len() - i - 1) as nat);
            }
        }
        let (name, value) = fields.field_at(i);
        if !map_try_append(target, name, value) {
            assert(refused_at(start, fields@, i as int));
            return false;
        }
        i += 1;
    }
    assert(fields@.subrange(0, i as int) =~= fields@);
    true
}

/// A header map that holds the fields, or `None` where the `http` crate
/// refuses one of them. It refuses none while the fields have header names
/// and header values and are no more than `ROOM`.
pub fn to_header_map(fields: &HeaderSet) -> (r: Option<HeaderMap<HeaderValue>>)
    ensures
        r matches Some(headers) ==> header_map_fields(headers) == appended(no_fields(), fields@),
        r is None ==> !all_valid(fields@) || fields@.len() > ROOM,
{
    let mut headers = map_new();
    assert(no_fields().dom() =~= Set::<Seq<u8>>::empty());
    if write_fields(&mut headers, fields) {
        Some(headers)
    } else {
        None
    }
}

} // verus!
