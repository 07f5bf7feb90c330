use crate::coding::ascii_bytes;
use vstd::prelude::*;

verus! {

#[verifier::external_type_specification]
#[verifier::external_body]
#[verifier::reject_recursive_types(T)]
pub struct ExHeaderMap<T>(http::HeaderMap<T>);

#[verifier::external_type_specification]
#[verifier::external_body]
pub struct ExHeaderValue(http::HeaderValue);

#[verifier::external_type_specification]
#[verifier::external_body]
pub struct ExInvalidHeaderValue(http::header::InvalidHeaderValue);

#[verifier::external_type_specification]
#[verifier::external_body]
pub struct ExMaxSizeReached(http::header::MaxSizeReached);

/// The bytes a header value holds.
pub uninterp spec fn value_bytes(v: http::HeaderValue) -> Seq<u8>;

/// What a header map holds: for each (lower-case) header name, its values in
/// the order they were added.
pub uninterp spec fn header_fields(m: http::HeaderMap<http::HeaderValue>) -> Map<
    Seq<char>,
    Seq<Seq<u8>>,
>;

/// A byte `HeaderValue::to_str` accepts: visible ASCII or a tab.
pub open spec fn is_visible_ascii(b: u8) -> bool {
    (32 <= b && b < 127) || b == 9
}

/// A byte a header value may hold at all.
pub open spec fn is_valid_value_byte(b: u8) -> bool {
    (32 <= b && b != 127) || b == 9
}

pub open spec fn all_visible_ascii(s: Seq<u8>) -> bool {
    forall|i: int| 0 <= i < s.len() ==> is_visible_ascii(#[trigger] s[i])
}

pub open spec fn all_valid_value_bytes(s: Seq<u8>) -> bool {
    forall|i: int| 0 <= i < s.len() ==> is_valid_value_byte(#[trigger] s[i])
}

/// A header name as `HeaderName::from_static` accepts it: non-empty, made of
/// lower-case letters, digits and `-`, and at most 65535 of them.
pub open spec fn is_static_name(n: Seq<char>) -> bool {
    &&& n.len() > 0
    &&& n.len() <= 65535
    &&& forall|i: int|
        0 <= i < n.len() ==> {
            let c = #[trigger] n[i];
            ('a' <= c && c <= 'z') || ('0' <= c && c <= '9') || c == '-'
        }
}

/// The values held under a name, in order; none where it is absent.
pub open spec fn field_values(fields: Map<Seq<char>, Seq<Seq<u8>>>, name: Seq<char>) -> Seq<
    Seq<u8>,
> {
    if fields.contains_key(name) {
        fields[name]
    } else {
        Seq::empty()
    }
}

/// Few enough distinct names that the map can always take one more: it
/// fails to grow only when its table is at the largest size and one name in
/// five of it is used, that is from 6554 names on.
pub open spec fn can_grow(m: http::HeaderMap<http::HeaderValue>) -> bool {
    header_fields(m).dom().finite() && header_fields(m).dom().len() < 6554
}

/// The bytes `", "` that join the values of a list header.
pub open spec fn separator() -> Seq<u8> {
    seq![44u8, 32u8]
}

/// Values joined by `", "`, as one list header.
pub open spec fn join(vals: Seq<Seq<u8>>) -> Seq<u8>
    decreases vals.len(),
{
    if vals.len() == 0 {
        Seq::empty()
    } else if vals.len() == 1 {
        vals[0]
    } else {
        join(vals.drop_last()) + separator() + vals.last()
    }
}

/// The views of byte vectors.
pub open spec fn byte_views(vs: Seq<Vec<u8>>) -> Seq<Seq<u8>> {
    Seq::new(vs.len(), |i: int| vs[i]@)
}

fn extend_bytes(dst: &mut Vec<u8>, src: &Vec<u8>)
    ensures
        final(dst)@ == old(dst)@ + src@,
{
    let mut i: usize = 0;
    while i < src.len()
        invariant
            i <= src@.len(),
            dst@ == old(dst)@ + src@.subrange(0, i as int),
        decreases src@.len() - i,
    {
        dst.push(src[i]);
        i = i + 1;
        assert(src@.subrange(0, i as int) == src@.subrange(0, i - 1).push(src@[i - 1]));
    }
    assert(src@.subrange(0, src@.len() as int) == src@);
}

/// Joins values by `", "`.
pub fn join_values(values: &Vec<Vec<u8>>) -> (r: Vec<u8>)
    ensures
        r@ == join(byte_views(values@)),
{
    let ghost views = byte_views(values@);
    let mut r: Vec<u8> = Vec::new();
    let mut k: usize = 0;
    assert(views.subrange(0, 0) =~= Seq::<Seq<u8>>::empty());
    while k < values.len()
        invariant
            k <= values@.len(),
            views == byte_views(values@),
            r@ == join(views.subrange(0, k as int)),
        decreases values@.len() - k,
    {
        if k > 0 {
            r.push(44u8);
            r.push(32u8);
        }
        extend_bytes(&mut r, &values[k]);
        let ghost next = views.subrange(0, k + 1);
        assert(next.drop_last() =~= views.subrange(0, k as int));
        assert(r@ =~= join(next));
        k = k + 1;
    }
    assert(views.subrange(0, values@.len() as int) =~= views);
    r
}

pub proof fn lemma_concat_visible(a: Seq<u8>, b: Seq<u8>)
    requires
        all_visible_ascii(a),
        all_visible_ascii(b),
    ensures
        all_visible_ascii(a + b),
{
    assert forall|i: int| 0 <= i < (a + b).len() implies is_visible_ascii(#[trigger] (a + b)[i]) by {
        if i >= a.len() {
            assert((a + b)[i] == b[i - a.len()]);
        }
    }
}

/// Joined text values are text.
pub proof fn lemma_join_visible(vals: Seq<Seq<u8>>)
    requires
        forall|i: int| 0 <= i < vals.len() ==> all_visible_ascii(#[trigger] vals[i]),
    ensures
        all_visible_ascii(join(vals)),
    decreases vals.len(),
{
    if vals.len() > 1 {
        lemma_join_visible(vals.drop_last());
        assert(all_visible_ascii(separator()));
        lemma_concat_visible(join(vals.drop_last()), separator());
        lemma_concat_visible(join(vals.drop_last()) + separator(), vals.last());
    }
}

/// Relies on `HeaderMap::remove`: drops every value of the name and returns
/// the first one, or `None` where the name is absent.
#[verifier::external_body]
pub(crate) fn remove_header(m: &mut http::HeaderMap<http::HeaderValue>, name: &'static str) -> (r:
    Option<http::HeaderValue>)
    requires
        is_static_name(name@),
    ensures
        header_fields(*final(m)) == header_fields(*old(m)).remove(name@),
        r is Some <==> header_fields(*old(m)).contains_key(name@),
        r matches Some(v) ==> header_fields(*old(m))[name@].len() > 0 && value_bytes(v)
            == header_fields(*old(m))[name@][0],
{
    m.remove(name)
}

/// Relies on `HeaderMap::try_insert`: on success the name holds the one
/// value, every earlier value of it gone; when the map cannot grow it reports
/// `MaxSizeReached` before it changes anything, which cannot happen with
/// fewer than 6554 names (`try_reserve_one` and `try_grow`).
#[verifier::external_body]
pub(crate) fn insert_header(
    m: &mut http::HeaderMap<http::HeaderValue>,
    name: &'static str,
    v: http::HeaderValue,
) -> (r: Result<Option<http::HeaderValue>, http::header::MaxSizeReached>)
    requires
        is_static_name(name@),
    ensures
        can_grow(*old(m)) ==> r is Ok,
        r is Ok ==> header_fields(*final(m)) == header_fields(*old(m)).insert(
            name@,
            seq![value_bytes(v)],
        ),
        r is Err ==> header_fields(*final(m)) == header_fields(*old(m)),
{
    m.try_insert(name, v)
}

/// Relies on `HeaderMap::get_all`: every value of the name, in order, cloned.
#[verifier::external_body]
pub(crate) fn header_values(m: &http::HeaderMap<http::HeaderValue>, name: &'static str) -> (r: Vec<
    http::HeaderValue,
>)
    requires
        is_static_name(name@),
    ensures
        r@.len() == field_values(header_fields(*m), name@).len(),
        forall|i: int|
            0 <= i < r@.len() ==> value_bytes(#[trigger] r@[i]) == field_values(
                header_fields(*m),
                name@,
            )[i],
{
    m.get_all(name).iter().cloned().collect()
}

/// Relies on `HeaderValue::to_str`: succeeds exactly when every byte is
/// visible ASCII or a tab, and then holds the value's bytes.
#[verifier::external_body]
pub(crate) fn value_text(v: &http::HeaderValue) -> (r: Option<Vec<u8>>)
    ensures
        r is Some <==> all_visible_ascii(value_bytes(*v)),
        r matches Some(t) ==> t@ == value_bytes(*v),
{
    v.to_str().ok().map(|s| s.as_bytes().to_vec())
}

/// Relies on `HeaderValue::from_bytes`: succeeds exactly when every byte may
/// stand in a header value, and then holds those bytes.
#[verifier::external_body]
pub(crate) fn value_from_bytes(b: &[u8]) -> (r: Result<
    http::HeaderValue,
    http::header::InvalidHeaderValue,
>)
    ensures
        r is Ok <==> all_valid_value_bytes(b@),
        r matches Ok(v) ==> value_bytes(v) == b@,
{
    http::HeaderValue::from_bytes(b)
}

/// Relies on `HeaderValue::from_static`: the value holds the text's bytes; it
/// panics unless every byte is visible ASCII or a tab.
#[verifier::external_body]
pub(crate) fn value_from_static(s: &'static str) -> (r: http::HeaderValue)
    requires
        forall|i: int| 0 <= i < s@.len() ==> (s@[i] as u32) < 128,
        all_visible_ascii(ascii_bytes(s@)),
    ensures
        value_bytes(r) == ascii_bytes(s@),
{
    http::HeaderValue::from_static(s)
}

} // verus!
