//! Handing header fields to the HTTP stack: filling an `http::HeaderMap`.

use vstd::prelude::*;
use vstd::utf8::encode_utf8;
use crate::header::{
    canonical_fields, canonical_name, canonicalize_fields, first_error, has_name, is_header_name,
    is_header_value, is_valid_field, lemma_filter_nothing, lemma_first_error, named, values_of,
    Field, HeaderError,
};

verus! {

/// The header multimap of the `http` crate. Opaque here: what it holds is
/// spoken of through [`header_map_values`].
#[verifier::external_type_specification]
#[verifier::external_body]
#[verifier::reject_recursive_types(T)]
pub struct ExHeaderMap<T>(http::HeaderMap<T>);

/// A header value of the `http` crate. Opaque here.
#[verifier::external_type_specification]
#[verifier::external_body]
pub struct ExHeaderValue(http::HeaderValue);

/// Header values by name: under each name, in lower case, the bytes of its
/// values, in order.
pub type HeaderValues = Map<Seq<char>, Seq<Seq<u8>>>;

/// What a header map holds: under each name the values that were put in
/// under it, oldest first.
pub uninterp spec fn header_map_values(map: http::HeaderMap<http::HeaderValue>) -> HeaderValues;

/// The content of a header map after one more value is put in under a name:
/// the value comes after those that the name had, and no other name changes.
pub open spec fn appended(held: HeaderValues, name: Seq<char>, value: Seq<u8>) -> HeaderValues {
    if held.dom().contains(name) {
        held.insert(name, held[name].push(value))
    } else {
        held.insert(name, seq![value])
    }
}

/// Makes an empty map with `http::HeaderMap::new`.
///
/// Trusted: the new map holds nothing.
#[verifier::external_body]
fn header_map_new() -> (res: http::HeaderMap<http::HeaderValue>)
    ensures
        header_map_values(res) == HeaderValues::empty(),
{
    http::HeaderMap::new()
}

/// Puts one field into a map with `http::HeaderMap::try_append`, the name
/// read by `HeaderName::from_bytes` and the value by `HeaderValue::from_str`.
/// Hands back whether the map took the field; it refuses when it is full.
///
/// Trusted: a field that was taken stands after the values that its name
/// had in the map, as the bytes of its text, and nothing else has changed.
/// Nothing is claimed of a map that refused.
#[verifier::external_body]
fn header_map_append(
    map: &mut http::HeaderMap<http::HeaderValue>,
    name: &str,
    value: &str,
) -> (res: bool)
    requires
        is_header_name(name@),
        is_header_value(value@),
    ensures
        res ==> header_map_values(*final(map)) == appended(
            header_map_values(*old(map)),
            canonical_name(name@),
            encode_utf8(value@),
        ),
{
    let name = http::header::HeaderName::from_bytes(name.as_bytes()).unwrap();
    let value = http::header::HeaderValue::from_str(value).unwrap();
    map.try_append(name, value).is_ok()
}

/// Why header fields could not be handed over.
#[derive(Clone, Copy, Debug, PartialEq, Eq, Structural)]
pub enum WireError {
    /// A field is not valid.
    Field(HeaderError),
    /// The map took no more fields.
    Full,
}

/// What a map holds once the fields of a list were put in, front to back.
pub open spec fn grouped(fields: Seq<Field>) -> HeaderValues
    decreases fields.len(),
{
    if fields.len() == 0 {
        HeaderValues::empty()
    } else {
        appended(grouped(fields.drop_last()), fields.last().0, encode_utf8(fields.last().1))
    }
}

/// Fills a header map with the fields of a list, names in canonical form.
/// A list with a field that cannot be sent gives the error of its first
/// such field, and no other list gives it. Whether the map takes every
/// field of a list that can be sent is for the map to say; an empty list
/// always fills.
pub fn to_header_map(fields: &Vec<(String, String)>) -> (res: Result<
    http::HeaderMap<http::HeaderValue>,
    WireError,
>)
    ensures
        res matches Ok(map) ==> first_error(fields.deep_view()) is None && header_map_values(map)
            == grouped(canonical_fields(fields.deep_view())),
        res matches Err(WireError::Field(e)) ==> first_error(fields.deep_view()) == Some(e),
        res matches Err(WireError::Full) ==> first_error(fields.deep_view()) is None,
        fields.len() == 0 ==> res is Ok,
{
    let ghost view = fields.deep_view();
    let ghost canonical = canonical_fields(view);
    if let Err(e) = canonicalize_fields(fields) {
        return Err(WireError::Field(e));
    }
    proof {
        lemma_first_error(view);
    }
    let mut map = header_map_new();
    let mut i: usize = 0;
    assert(canonical.take(0) =~= Seq::<Field>::empty());
    while i < fields.len()
        invariant
            i <= fields.len(),
            view == fields.deep_view(),
            canonical == canonical_fields(view),
            first_error(view) is None,
            forall|j: int| 0 <= j < view.len() ==> is_valid_field(#[trigger] view[j]),
            header_map_values(map) == grouped(canonical.take(i as int)),
        decreases fields.len() - i,
    {
        let field = &fields[i];
        proof {
            assert(view[i as int] == (field.0@, field.1@));
            assert(is_valid_field(view[i as int]));
            assert(canonical.take(i + 1).drop_last() =~= canonical.take(i as int));
            assert(canonical.take(i + 1).last() == canonical[i as int]);
        }
        if !header_map_append(&mut map, field.0.as_str(), field.1.as_str()) {
            return Err(WireError::Full);
        }
        i += 1;
    }
    assert(canonical.take(fields.len() as int) =~= canonical);
    Ok(map)
}

/// A filled map holds a name exactly when the list has a field of that
/// name, and then it holds the values of those fields, in the order of the
/// list.
pub proof fn lemma_grouped_values(fields: Seq<Field>, name: Seq<char>)
    ensures
        grouped(fields).dom().contains(name) <==> has_name(fields, name),
        has_name(fields, name) ==> grouped(fields)[name] == values_of(fields, name).map_values(
            |text: Seq<char>| encode_utf8(text),
        ),
    decreases fields.len(),
{
    let bytes = |text: Seq<char>| encode_utf8(text);
    if fields.len() == 0 {
        assert(!has_name(fields, name));
    } else {
        let front = fields.drop_last();
        let last = fields.last();
        lemma_grouped_values(front, name);
        assert(fields[fields.len() - 1] == last);
        if has_name(front, name) {
            let i = choose|i: int| 0 <= i < front.len() && (#[trigger] front[i]).0 == name;
            assert(fields[i] == front[i]);
        }
        if has_name(fields, name) && last.0 != name {
            let i = choose|i: int| 0 <= i < fields.len() && (#[trigger] fields[i]).0 == name;
            assert(front[i] == fields[i]);
        }
        assert(front.push(last) =~= fields);
        front.lemma_filter_push(last, named(name));
        if last.0 == name {
            if has_name(front, name) {
                assert(values_of(fields, name).map_values(bytes) =~= values_of(
                    front,
                    name,
                ).map_values(bytes).push(encode_utf8(last.1)));
            } else {
                lemma_filter_nothing(front, named(name));
                assert(values_of(fields, name).map_values(bytes) =~= seq![encode_utf8(last.1)]);
            }
        }
    }
}

} // verus!
