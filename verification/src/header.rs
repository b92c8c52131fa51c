//! Header fields: the grammar of names and values, and how the fields of a
//! request are laid over the defaults of a client.

use vstd::prelude::*;

verus! {

/// A header field as text: its name, then its value.
pub type Field = (Seq<char>, Seq<char>);

/// The longest header name, in bytes, that can be sent.
pub const MAX_HEADER_NAME_LEN: usize = 65535;

/// A character that may stand in a header name: a letter, a digit or one of
/// the punctuation marks that HTTP allows in a token.
pub open spec fn is_token_char(c: char) -> bool {
    ('a' <= c && c <= 'z') || ('A' <= c && c <= 'Z') || ('0' <= c && c <= '9') || c == '!' || c
        == '#' || c == '$' || c == '%' || c == '&' || c == '\'' || c == '*' || c == '+' || c == '-'
        || c == '.' || c == '^' || c == '_' || c == '`' || c == '|' || c == '~'
}

/// A header name is a non-empty token of bounded length.
pub open spec fn is_header_name(name: Seq<char>) -> bool {
    &&& 1 <= name.len() <= MAX_HEADER_NAME_LEN
    &&& forall|i: int| 0 <= i < name.len() ==> is_token_char(#[trigger] name[i])
}

/// The lower-case form of an ASCII letter; any other character is unchanged.
pub open spec fn lower_char(c: char) -> char {
    if 'A' <= c && c <= 'Z' {
        ((c as u8) + 32) as char
    } else {
        c
    }
}

/// A name with its upper-case ASCII letters made lower case. Names that
/// differ only in case have the same canonical form.
pub open spec fn canonical_name(name: Seq<char>) -> Seq<char> {
    Seq::new(name.len(), |i: int| lower_char(name[i]))
}

/// A character that may stand in a header value: anything but a control
/// character, with the horizontal tab allowed.
pub open spec fn is_value_char(c: char) -> bool {
    (c as u32 >= 32 && c as u32 != 127) || c == '\t'
}

/// A header value holds no control character other than tabs.
pub open spec fn is_header_value(value: Seq<char>) -> bool {
    forall|i: int| 0 <= i < value.len() ==> is_value_char(#[trigger] value[i])
}

/// Reads a header name with `http::header::HeaderName::from_bytes` and hands
/// back its text as `HeaderName::as_str` gives it.
///
/// Trusted: the name is accepted exactly when it is a token of 1 to 65535
/// bytes, and the text of an accepted name is the name in lower case.
#[verifier::external_body]
fn parse_header_name(name: &str) -> (res: Option<String>)
    ensures
        res is Some <==> is_header_name(name@),
        res matches Some(n) ==> n@ == canonical_name(name@),
{
    match http::header::HeaderName::from_bytes(name.as_bytes()) {
        Ok(parsed) => Some(parsed.as_str().to_owned()),
        Err(_) => None,
    }
}

/// Checks a header value with `http::header::HeaderValue::from_str`.
///
/// Trusted: the value is accepted exactly when none of its bytes is a
/// control character other than the tab; bytes above 127 are accepted.
#[verifier::external_body]
fn check_header_value(value: &str) -> (res: bool)
    ensures
        res == is_header_value(value@),
{
    http::header::HeaderValue::from_str(value).is_ok()
}

/// Why a header field cannot be sent.
#[derive(Clone, Copy, Debug, PartialEq, Eq, Structural)]
pub enum HeaderError {
    /// The name is not a token.
    InvalidHeaderName,
    /// The value holds a control character.
    InvalidHeaderValue,
}

/// Whether a field can be sent as it stands.
pub open spec fn is_valid_field(f: Field) -> bool {
    is_header_name(f.0) && is_header_value(f.1)
}

/// What is wrong with a field that cannot be sent. The name is looked at
/// before the value.
pub open spec fn field_error(f: Field) -> HeaderError {
    if !is_header_name(f.0) {
        HeaderError::InvalidHeaderName
    } else {
        HeaderError::InvalidHeaderValue
    }
}

/// A field with its name in canonical form.
pub open spec fn canonical_field(f: Field) -> Field {
    (canonical_name(f.0), f.1)
}

/// Every field of the list can be sent.
pub open spec fn all_valid(fields: Seq<Field>) -> bool {
    forall|i: int| 0 <= i < fields.len() ==> is_valid_field(#[trigger] fields[i])
}

/// `i` is the place of the first field of the list that cannot be sent.
pub open spec fn is_first_invalid(fields: Seq<Field>, i: int) -> bool {
    &&& 0 <= i < fields.len()
    &&& !is_valid_field(fields[i])
    &&& forall|j: int| 0 <= j < i ==> is_valid_field(#[trigger] fields[j])
}

/// The list with every name in canonical form, order and values kept.
pub open spec fn canonical_fields(fields: Seq<Field>) -> Seq<Field> {
    Seq::new(fields.len(), |i: int| canonical_field(fields[i]))
}

/// Checks one field and puts its name in canonical form.
pub fn canonicalize_field(name: &str, value: &str) -> (res: Result<(String, String), HeaderError>)
    ensures
        res is Ok <==> is_valid_field((name@, value@)),
        res matches Ok(f) ==> f.deep_view() == canonical_field((name@, value@)),
        res matches Err(e) ==> e == field_error((name@, value@)),
{
    match parse_header_name(name) {
        None => Err(HeaderError::InvalidHeaderName),
        Some(canonical) => {
            if check_header_value(value) {
                Ok((canonical, String::from_str(value)))
            } else {
                Err(HeaderError::InvalidHeaderValue)
            }
        },
    }
}

/// What is wrong with the first field of the list that cannot be sent, if
/// there is such a field.
pub open spec fn first_error(fields: Seq<Field>) -> Option<HeaderError>
    decreases fields.len(),
{
    if fields.len() == 0 {
        None
    } else if !is_valid_field(fields.first()) {
        Some(field_error(fields.first()))
    } else {
        first_error(fields.drop_first())
    }
}

/// Checks every field of a list, front to back, and puts the names in
/// canonical form. The first field that cannot be sent decides the error.
pub fn canonicalize_fields(fields: &Vec<(String, String)>) -> (res: Result<
    Vec<(String, String)>,
    HeaderError,
>)
    ensures
        res matches Ok(out) ==> first_error(fields.deep_view()) is None && out.deep_view()
            == canonical_fields(fields.deep_view()),
        res matches Err(e) ==> first_error(fields.deep_view()) == Some(e),
{
    let ghost view = fields.deep_view();
    let mut out: Vec<(String, String)> = Vec::new();
    let mut i: usize = 0;
    assert(view.skip(0) =~= view);
    while i < fields.len()
        invariant
            i <= fields.len(),
            view == fields.deep_view(),
            out.len() == i,
            first_error(view) == first_error(view.skip(i as int)),
            forall|j: int|
                0 <= j < i ==> (#[trigger] out@[j]).deep_view() == canonical_field(view[j]),
        decreases fields.len() - i,
    {
        let field = &fields[i];
        proof {
            assert(view[i as int] == (field.0@, field.1@));
            assert(view.skip(i as int).first() == view[i as int]);
            assert(view.skip(i as int).drop_first() =~= view.skip(i + 1));
        }
        match canonicalize_field(field.0.as_str(), field.1.as_str()) {
            Ok(canonical) => {
                out.push(canonical);
            },
            Err(e) => {
                return Err(e);
            },
        }
        i += 1;
    }
    assert(out.deep_view() =~= canonical_fields(view));
    Ok(out)
}

/// The first error of a list, said with quantifiers: there is none exactly
/// when every field can be sent, and otherwise it is the error of the field
/// before which every field can be sent.
pub proof fn lemma_first_error(fields: Seq<Field>)
    ensures
        first_error(fields) is None <==> all_valid(fields),
        first_error(fields) matches Some(e) ==> exists|i: int|
            is_first_invalid(fields, i) && e == field_error(#[trigger] fields[i]),
    decreases fields.len(),
{
    if fields.len() > 0 {
        let rest = fields.drop_first();
        lemma_first_error(rest);
        if is_valid_field(fields.first()) {
            assert forall|j: int| 0 <= j < rest.len() implies fields[j + 1]
                == #[trigger] rest[j] by {}
            if all_valid(rest) {
                assert forall|j: int| 0 <= j < fields.len() implies is_valid_field(
                    #[trigger] fields[j],
                ) by {
                    if j > 0 {
                        assert(fields[j] == rest[j - 1]);
                    }
                }
            } else {
                let i = choose|i: int|
                    is_first_invalid(rest, i) && first_error(rest) == Some(
                        field_error(#[trigger] rest[i]),
                    );
                assert(fields[i + 1] == rest[i]);
                assert forall|j: int| 0 <= j < i + 1 implies is_valid_field(
                    #[trigger] fields[j],
                ) by {
                    if j > 0 {
                        assert(fields[j] == rest[j - 1]);
                    }
                }
                assert(is_first_invalid(fields, i + 1));
                if all_valid(fields) {
                    assert(is_valid_field(fields[i + 1]));
                }
            }
        } else {
            assert(fields.first() == fields[0]);
            assert(is_first_invalid(fields, 0));
        }
    }
}

/// Whether some field of the list has exactly this name.
pub open spec fn has_name(fields: Seq<Field>, name: Seq<char>) -> bool {
    exists|i: int| 0 <= i < fields.len() && (#[trigger] fields[i]).0 == name
}

/// The test "this field is not overridden by a field of `own`".
pub open spec fn kept_beside(own: Seq<Field>) -> spec_fn(Field) -> bool {
    |f: Field| !has_name(own, f.0)
}

/// The test "this field has the name `name`".
pub open spec fn named(name: Seq<char>) -> spec_fn(Field) -> bool {
    |f: Field| f.0 == name
}

/// The header set of a request: the defaults whose name the request does not
/// use, then the request's own fields. A name that the request uses takes all
/// its values from the request; a name that repeats keeps all its values, in
/// order. Both lists hold canonical names.
pub open spec fn merged(defaults: Seq<Field>, own: Seq<Field>) -> Seq<Field> {
    defaults.filter(kept_beside(own)) + own
}

/// The values that a list gives to a name, in order.
pub open spec fn values_of(fields: Seq<Field>, name: Seq<char>) -> Seq<Seq<char>> {
    fields.filter(named(name)).map_values(|f: Field| f.1)
}

/// Whether some field of the list has this name.
pub fn contains_name(fields: &Vec<(String, String)>, name: &String) -> (res: bool)
    ensures
        res == has_name(fields.deep_view(), name@),
{
    let ghost view = fields.deep_view();
    let mut i: usize = 0;
    while i < fields.len()
        invariant
            i <= fields.len(),
            view == fields.deep_view(),
            forall|j: int| 0 <= j < i ==> (#[trigger] view[j]).0 != name@,
        decreases fields.len() - i,
    {
        assert(view[i as int].0 == fields@[i as int].0@);
        if fields[i].0 == *name {
            return true;
        }
        i += 1;
    }
    false
}

/// Lays the fields of a request over the defaults of a client.
pub fn merge_fields(defaults: &Vec<(String, String)>, own: &Vec<(String, String)>) -> (res: Vec<
    (String, String),
>)
    ensures
        res.deep_view() == merged(defaults.deep_view(), own.deep_view()),
{
    let ghost d = defaults.deep_view();
    let ghost o = own.deep_view();
    let mut out: Vec<(String, String)> = Vec::new();
    let mut i: usize = 0;
    proof {
        reveal(Seq::filter);
        assert(d.take(0).filter(kept_beside(o)) =~= Seq::<Field>::empty());
        assert(out.deep_view() =~= Seq::<Field>::empty());
    }
    while i < defaults.len()
        invariant
            i <= defaults.len(),
            d == defaults.deep_view(),
            o == own.deep_view(),
            out.deep_view() == d.take(i as int).filter(kept_beside(o)),
        decreases defaults.len() - i,
    {
        let field = &defaults[i];
        let ghost before = out.deep_view();
        proof {
            assert(d[i as int] == (field.0@, field.1@));
            assert(d.take(i + 1) =~= d.take(i as int).push(d[i as int]));
            d.take(i as int).lemma_filter_push(d[i as int], kept_beside(o));
        }
        if !contains_name(own, &field.0) {
            out.push((field.0.clone(), field.1.clone()));
            assert(out.deep_view() =~= before.push(d[i as int]));
        }
        i += 1;
    }
    assert(d.take(defaults.len() as int) =~= d);
    let mut k: usize = 0;
    let ghost kept = out.deep_view();
    while k < own.len()
        invariant
            k <= own.len(),
            o == own.deep_view(),
            out.deep_view() == kept + o.take(k as int),
        decreases own.len() - k,
    {
        let field = &own[k];
        let ghost before = out.deep_view();
        out.push((field.0.clone(), field.1.clone()));
        proof {
            assert(o[k as int] == (field.0@, field.1@));
            assert(out.deep_view() =~= before.push(o[k as int]));
            assert(o.take(k + 1) =~= o.take(k as int).push(o[k as int]));
        }
        k += 1;
    }
    assert(o.take(own.len() as int) =~= o);
    out
}

/// The values that a list gives to a name, in order.
pub fn field_values(fields: &Vec<(String, String)>, name: &String) -> (res: Vec<String>)
    ensures
        res.deep_view() == values_of(fields.deep_view(), name@),
{
    let ghost view = fields.deep_view();
    let mut out: Vec<String> = Vec::new();
    let mut i: usize = 0;
    proof {
        reveal(Seq::filter);
        assert(view.take(0).filter(named(name@)) =~= Seq::<Field>::empty());
        assert(out.deep_view() =~= values_of(view.take(0), name@));
    }
    while i < fields.len()
        invariant
            i <= fields.len(),
            view == fields.deep_view(),
            out.deep_view() == values_of(view.take(i as int), name@),
        decreases fields.len() - i,
    {
        let field = &fields[i];
        let ghost before = out.deep_view();
        proof {
            assert(view[i as int] == (field.0@, field.1@));
            assert(view.take(i + 1) =~= view.take(i as int).push(view[i as int]));
            view.take(i as int).lemma_filter_push(view[i as int], named(name@));
        }
        if field.0 == *name {
            out.push(field.1.clone());
            assert(out.deep_view() =~= before.push(view[i as int].1));
            assert(values_of(view.take(i + 1), name@) =~= before.push(view[i as int].1));
        }
        i += 1;
    }
    assert(view.take(fields.len() as int) =~= view);
    out
}

/// A list in which no field passes a test has nothing left after the test.
pub proof fn lemma_filter_nothing(s: Seq<Field>, pred: spec_fn(Field) -> bool)
    requires
        forall|i: int| 0 <= i < s.len() ==> !pred(#[trigger] s[i]),
    ensures
        s.filter(pred) == Seq::<Field>::empty(),
    decreases s.len(),
{
    reveal(Seq::filter);
    if s.len() > 0 {
        lemma_filter_nothing(s.drop_last(), pred);
    }
}

/// Where a second test lets through only what a first one does, applying
/// both is applying the second.
proof fn lemma_filter_twice(
    s: Seq<Field>,
    first: spec_fn(Field) -> bool,
    second: spec_fn(Field) -> bool,
)
    requires
        forall|i: int| 0 <= i < s.len() && second(#[trigger] s[i]) ==> first(s[i]),
    ensures
        s.filter(first).filter(second) == s.filter(second),
    decreases s.len(),
{
    reveal(Seq::filter);
    if s.len() > 0 {
        lemma_filter_twice(s.drop_last(), first, second);
        if first(s.last()) {
            s.drop_last().filter(first).lemma_filter_push(s.last(), second);
        }
    }
}

/// Precedence of the request over the client: in the merged header set a
/// name that the request uses has exactly the request's values, and any other
/// name has exactly the default values.
pub proof fn lemma_merged_values(defaults: Seq<Field>, own: Seq<Field>, name: Seq<char>)
    ensures
        values_of(merged(defaults, own), name) == if has_name(own, name) {
            values_of(own, name)
        } else {
            values_of(defaults, name)
        },
{
    let kept = defaults.filter(kept_beside(own));
    Seq::filter_distributes_over_add(kept, own, named(name));
    if has_name(own, name) {
        assert forall|i: int| 0 <= i < kept.len() implies !named(name)(#[trigger] kept[i]) by {
            defaults.lemma_filter_pred(kept_beside(own), i);
        }
        lemma_filter_nothing(kept, named(name));
        assert(kept.filter(named(name)) + own.filter(named(name)) =~= own.filter(named(name)));
    } else {
        lemma_filter_nothing(own, named(name));
        lemma_filter_twice(defaults, kept_beside(own), named(name));
        assert(kept.filter(named(name)) + own.filter(named(name)) =~= defaults.filter(
            named(name),
        ));
    }
}

/// Whether some field of the list has this name, the case of ASCII letters
/// set aside.
pub open spec fn names_ignoring_case(fields: Seq<Field>, name: Seq<char>) -> bool {
    exists|i: int|
        0 <= i < fields.len() && canonical_name((#[trigger] fields[i]).0) == canonical_name(name)
}

/// A canonical name is its own canonical form.
pub proof fn lemma_canonical_name_twice(name: Seq<char>)
    ensures
        canonical_name(canonical_name(name)) == canonical_name(name),
{
    assert(canonical_name(canonical_name(name)) =~= canonical_name(name));
}

/// Names are matched without regard to case: a list in canonical form has
/// the canonical form of a name exactly where the list as written has the
/// name in some casing.
pub proof fn lemma_canonical_has_name(fields: Seq<Field>, name: Seq<char>)
    ensures
        has_name(canonical_fields(fields), canonical_name(name)) <==> names_ignoring_case(
            fields,
            name,
        ),
{
    let canonical = canonical_fields(fields);
    if has_name(canonical, canonical_name(name)) {
        let i = choose|i: int|
            0 <= i < canonical.len() && (#[trigger] canonical[i]).0 == canonical_name(name);
        assert(canonical_name(fields[i].0) == canonical_name(name));
    }
    if names_ignoring_case(fields, name) {
        let i = choose|i: int|
            0 <= i < fields.len() && canonical_name((#[trigger] fields[i]).0) == canonical_name(
                name,
            );
        assert(canonical[i].0 == canonical_name(name));
    }
}

/// The canonical form of a field that can be sent can be sent, and is its
/// own canonical form.
pub proof fn lemma_canonical_field_valid(f: Field)
    requires
        is_valid_field(f),
    ensures
        is_valid_field(canonical_field(f)),
        canonical_field(canonical_field(f)) == canonical_field(f),
{
    let name = canonical_name(f.0);
    assert forall|i: int| 0 <= i < name.len() implies is_token_char(#[trigger] name[i]) by {
        assert(is_token_char(f.0[i]));
    }
    lemma_canonical_name_twice(f.0);
}

/// Laying lists of sendable fields with canonical names over each other
/// gives such a list again.
pub proof fn lemma_merged_valid(defaults: Seq<Field>, own: Seq<Field>)
    requires
        all_valid(defaults),
        all_valid(own),
        canonical_fields(defaults) == defaults,
        canonical_fields(own) == own,
    ensures
        all_valid(merged(defaults, own)),
        canonical_fields(merged(defaults, own)) == merged(defaults, own),
{
    let kept = defaults.filter(kept_beside(own));
    let all = merged(defaults, own);
    assert forall|i: int| 0 <= i < all.len() implies is_valid_field(#[trigger] all[i])
        && canonical_field(all[i]) == all[i] by {
        if i < kept.len() {
            lemma_filter_source(defaults, kept_beside(own), i);
            let j = choose|j: int| 0 <= j < defaults.len() && #[trigger] defaults[j] == kept[i];
            assert(canonical_fields(defaults)[j] == canonical_field(defaults[j]));
        } else {
            let j = i - kept.len();
            assert(all[i] == own[j]);
            assert(canonical_fields(own)[j] == canonical_field(own[j]));
        }
    }
    assert(canonical_fields(all) =~= all);
}

/// What passes a test was in the list.
proof fn lemma_filter_source(s: Seq<Field>, pred: spec_fn(Field) -> bool, k: int)
    requires
        0 <= k < s.filter(pred).len(),
    ensures
        exists|j: int| 0 <= j < s.len() && #[trigger] s[j] == s.filter(pred)[k],
    decreases s.len(),
{
    reveal(Seq::filter);
    if s.len() > 0 {
        let front = s.drop_last();
        if pred(s.last()) && k == front.filter(pred).len() {
            assert(s[s.len() - 1] == s.filter(pred)[k]);
        } else {
            lemma_filter_source(front, pred, k);
            let j = choose|j: int| 0 <= j < front.len() && #[trigger] front[j] == front.filter(
                pred,
            )[k];
            assert(s[j] == front[j]);
        }
    }
}

} // verus!
