use crate::coding::{ascii_bytes, Coding};
use crate::header_map::{
    all_valid_value_bytes, all_visible_ascii, can_grow, field_values, header_fields, header_values,
    insert_header, join, join_values, byte_views, lemma_concat_visible, lemma_join_visible,
    remove_header, separator, value_bytes, value_from_bytes, value_from_static, value_text,
};
use vstd::prelude::*;

verus! {

pub open spec fn content_encoding_name() -> Seq<char> {
    seq!['c', 'o', 'n', 't', 'e', 'n', 't', '-', 'e', 'n', 'c', 'o', 'd', 'i', 'n', 'g']
}

pub open spec fn content_length_name() -> Seq<char> {
    seq!['c', 'o', 'n', 't', 'e', 'n', 't', '-', 'l', 'e', 'n', 'g', 't', 'h']
}

/// Every value is text.
pub open spec fn all_text(vals: Seq<Seq<u8>>) -> bool {
    forall|i: int| 0 <= i < vals.len() ==> all_visible_ascii(#[trigger] vals[i])
}

/// The merged `Content-Encoding` value: the new token, then `", "`, then all
/// existing values joined by `", "`, where there are existing values and
/// each is text; the token alone otherwise.
pub open spec fn merged_encoding(existing: Seq<Seq<u8>>, token: Seq<u8>) -> Seq<u8> {
    if existing.len() > 0 && all_text(existing) {
        token + separator() + join(existing)
    } else {
        token
    }
}

/// The header fields after a coding is applied: `Content-Encoding` holds the
/// one merged value and `Content-Length` is gone.
pub open spec fn encoded_fields(fields: Map<Seq<char>, Seq<Seq<u8>>>, coding: Coding) -> Map<
    Seq<char>,
    Seq<Seq<u8>>,
> {
    fields.insert(
        content_encoding_name(),
        seq![merged_encoding(field_values(fields, content_encoding_name()), coding.token_bytes())],
    ).remove(content_length_name())
}

/// The bytes of header values.
pub open spec fn values_bytes(vs: Seq<http::HeaderValue>) -> Seq<Seq<u8>> {
    Seq::new(vs.len(), |i: int| value_bytes(vs[i]))
}

proof fn lemma_token_visible(c: Coding)
    ensures
        all_visible_ascii(c.token_bytes()),
        c.token_bytes().len() > 0,
{
}

/// Builds the `Content-Encoding` value for `coding` on top of the existing
/// values, oldest last.
pub fn create_encoding_header(existing: &Vec<http::HeaderValue>, coding: Coding) -> (r:
    http::HeaderValue)
    ensures
        value_bytes(r) == merged_encoding(values_bytes(existing@), coding.token_bytes()),
{
    let token = coding.token();
    let ghost olds = values_bytes(existing@);
    proof {
        lemma_token_visible(coding);
        assert(ascii_bytes(token@) == coding.token_bytes());
    }
    let mut texts: Vec<Vec<u8>> = Vec::new();
    let mut i: usize = 0;
    while i < existing.len()
        invariant
            i <= existing@.len(),
            olds == values_bytes(existing@),
            token@ == coding.token_spec(),
            byte_views(texts@) =~= olds.subrange(0, i as int),
            forall|j: int| 0 <= j < i ==> all_visible_ascii(#[trigger] olds[j]),
        decreases existing@.len() - i,
    {
        match value_text(&existing[i]) {
            Some(t) => {
                let ghost prev = texts@;
                texts.push(t);
                assert(byte_views(texts@) =~= byte_views(prev).push(olds[i as int]));
                assert(olds.subrange(0, i + 1) =~= olds.subrange(0, i as int).push(olds[i as int]));
            },
            None => {
                assert(!all_visible_ascii(olds[i as int]));
                return value_from_static(token);
            },
        }
        i = i + 1;
    }
    if texts.len() == 0 {
        return value_from_static(token);
    }
    assert(olds.subrange(0, i as int) =~= olds);
    let joined = join_values(&texts);
    let mut combined = coding.token_vec();
    combined.push(44u8);
    combined.push(32u8);
    let mut k: usize = 0;
    while k < joined.len()
        invariant
            k <= joined@.len(),
            combined@ == coding.token_bytes() + separator() + joined@.subrange(0, k as int),
        decreases joined@.len() - k,
    {
        combined.push(joined[k]);
        k = k + 1;
        assert(joined@.subrange(0, k as int) == joined@.subrange(0, k - 1).push(joined@[k - 1]));
    }
    assert(joined@.subrange(0, joined@.len() as int) == joined@);
    proof {
        lemma_join_visible(olds);
        assert(all_visible_ascii(separator()));
        lemma_concat_visible(coding.token_bytes(), separator());
        lemma_concat_visible(coding.token_bytes() + separator(), join(olds));
        assert(all_valid_value_bytes(combined@)) by {
            assert forall|j: int| 0 <= j < combined@.len() implies #[trigger] combined@[j] >= 32
                || combined@[j] == 9 by {
                assert(all_visible_ascii(combined@));
            }
        }
    }
    match value_from_bytes(combined.as_slice()) {
        Ok(v) => v,
        Err(_) => value_from_static(token),
    }
}

/// Rewrites the headers of a response whose body is to be encoded with
/// `coding`: `coding`'s token is merged in front of `Content-Encoding` and
/// `Content-Length` is removed. Every other header is left as it was. Only
/// where the map has reached its largest size and cannot take the new value
/// is it left unchanged, and `false` comes back.
pub fn apply_encoding_headers(headers: &mut http::HeaderMap<http::HeaderValue>, coding: Coding) -> (ok:
    bool)
    ensures
        can_grow(*old(headers)) ==> ok,
        ok ==> header_fields(*final(headers)) == encoded_fields(header_fields(*old(headers)), coding),
        !ok ==> header_fields(*final(headers)) == header_fields(*old(headers)),
        ok ==> !header_fields(*final(headers)).contains_key(content_length_name()),
        ok ==> header_fields(*final(headers))[content_encoding_name()].len() == 1,
        ok ==> header_fields(*final(headers))[content_encoding_name()][0].subrange(
            0,
            coding.token_bytes().len() as int,
        ) == coding.token_bytes(),
{
    let ghost before = header_fields(*headers);
    let encoding_name: &'static str = "content-encoding";
    let length_name: &'static str = "content-length";
    proof {
        reveal_strlit("content-encoding");
        reveal_strlit("content-length");
        assert(encoding_name@ =~= content_encoding_name());
        assert(length_name@ =~= content_length_name());
    }
    let existing = header_values(headers, encoding_name);
    assert(values_bytes(existing@) =~= field_values(before, content_encoding_name()));
    let value = create_encoding_header(&existing, coding);
    match insert_header(headers, encoding_name, value) {
        Ok(_) => {
            remove_header(headers, length_name);
            let ghost token = coding.token_bytes();
            let ghost merged = merged_encoding(field_values(before, content_encoding_name()), token);
            assert(merged.subrange(0, token.len() as int) =~= token);
            assert(header_fields(*headers) =~= encoded_fields(before, coding));
            true
        },
        Err(_) => false,
    }
}

/// Codings merge in the order they are applied: onto a response without
/// `Content-Encoding`, applying `a` leaves just `a`'s token, and applying `b`
/// after it leaves `"b, a"`.
pub proof fn lemma_merge_order(fields: Map<Seq<char>, Seq<Seq<u8>>>, a: Coding, b: Coding)
    requires
        !fields.contains_key(content_encoding_name()),
    ensures
        encoded_fields(fields, a)[content_encoding_name()] == seq![a.token_bytes()],
        encoded_fields(encoded_fields(fields, a), b)[content_encoding_name()] == seq![
            b.token_bytes() + separator() + a.token_bytes(),
        ],
{
    lemma_token_visible(a);
    let once = encoded_fields(fields, a);
    assert(field_values(once, content_encoding_name()) == seq![a.token_bytes()]);
    assert(all_text(seq![a.token_bytes()]));
}

} // verus!
