//! Describing a request and building the request that is sent.

use vstd::prelude::*;
use crate::constants::{USER_AGENT, USER_AGENT_HEADER};
use crate::header::{
    canonical_field, canonical_fields, canonical_name, canonicalize_fields, first_error,
    is_header_name, is_header_value, is_valid_field, lemma_canonical_field_valid,
    lemma_canonical_has_name, lemma_first_error, lemma_merged_valid, lemma_merged_values,
    merge_fields, merged, named, names_ignoring_case, values_of, Field, HeaderError,
};
use crate::method::Method;
use crate::query::{distinct_keys, lemma_settled_of_distinct, settle, settled};
use crate::url::{
    count_of, final_query, is_absolute_url, lemma_query_holds_each_pair, parts_of, split_url,
    target_query, target_text, url_query, with_pairs, write_url,
};

verus! {

/// What a caller wants sent. Nothing in it has been checked yet.
#[derive(Debug)]
pub struct RequestSpec {
    /// The request method.
    pub method: Method,
    /// The address, as the caller wrote it.
    pub url: String,
    /// Query parameters, added to the address in this order. They are read
    /// as a mapping: where a key repeats, its last value wins.
    pub query: Vec<(String, String)>,
    /// Header fields. A name may repeat; names are matched without regard
    /// to case.
    pub headers: Vec<(String, String)>,
    /// The payload, sent as it is.
    pub body: Vec<u8>,
}

/// A request description as plain text and bytes.
pub struct RequestSpecView {
    pub method: Method,
    pub url: Seq<char>,
    pub query: Seq<Field>,
    pub headers: Seq<Field>,
    pub body: Seq<u8>,
}

impl View for RequestSpec {
    type V = RequestSpecView;

    open spec fn view(&self) -> RequestSpecView {
        RequestSpecView {
            method: self.method,
            url: self.url@,
            query: self.query.deep_view(),
            headers: self.headers.deep_view(),
            body: self.body@,
        }
    }
}

/// What every request of a client starts from. Building reads it and never
/// changes it.
#[derive(Debug)]
pub struct ClientConfig {
    /// Header fields sent with every request that does not override them.
    pub default_headers: Vec<(String, String)>,
}

impl View for ClientConfig {
    type V = Seq<Field>;

    open spec fn view(&self) -> Seq<Field> {
        self.default_headers.deep_view()
    }
}

/// The defaults of a fresh client: the `User-Agent` of the application.
pub open spec fn standard_defaults() -> Seq<Field> {
    seq![(USER_AGENT_HEADER@, USER_AGENT@)]
}

impl ClientConfig {
    /// The configuration of a fresh client.
    pub fn new() -> (res: ClientConfig)
        ensures
            res@ == standard_defaults(),
    {
        let mut default_headers: Vec<(String, String)> = Vec::new();
        default_headers.push((String::from_str(USER_AGENT_HEADER), String::from_str(USER_AGENT)));
        let res = ClientConfig { default_headers };
        assert(res@ =~= standard_defaults());
        res
    }
}

/// Why a request could not be built.
#[derive(Clone, Copy, Debug, PartialEq, Eq, Structural)]
pub enum BuildError {
    /// The address is not an absolute URL.
    InvalidUrl,
    /// A header name is not a token.
    InvalidHeaderName,
    /// A header value holds a control character.
    InvalidHeaderValue,
}

impl BuildError {
    /// The error in words.
    pub open spec fn text(self) -> Seq<char> {
        match self {
            BuildError::InvalidUrl => "invalid URL"@,
            BuildError::InvalidHeaderName => "invalid header name"@,
            BuildError::InvalidHeaderValue => "invalid header value"@,
        }
    }

    /// The error in words.
    pub fn message(self) -> (res: &'static str)
        ensures
            res@ == self.text(),
    {
        match self {
            BuildError::InvalidUrl => "invalid URL",
            BuildError::InvalidHeaderName => "invalid header name",
            BuildError::InvalidHeaderValue => "invalid header value",
        }
    }
}

/// A header error as a build error.
pub open spec fn from_header_error(e: HeaderError) -> BuildError {
    match e {
        HeaderError::InvalidHeaderName => BuildError::InvalidHeaderName,
        HeaderError::InvalidHeaderValue => BuildError::InvalidHeaderValue,
    }
}

/// A request that is ready to be sent.
#[derive(Debug)]
pub struct BuiltRequest {
    /// The request method.
    pub method: Method,
    /// The address with its query, as it goes on the wire.
    pub url: String,
    /// The query that stands in the address, without its `?`; none where
    /// the address has no query.
    pub query: Option<String>,
    /// The header set: names in canonical form, one entry per value.
    pub headers: Vec<(String, String)>,
    /// The payload.
    pub body: Vec<u8>,
}

/// A built request as plain text and bytes.
pub struct BuiltRequestView {
    pub method: Method,
    pub url: Seq<char>,
    pub query: Option<Seq<char>>,
    pub headers: Seq<Field>,
    pub body: Seq<u8>,
}

impl View for BuiltRequest {
    type V = BuiltRequestView;

    open spec fn view(&self) -> BuiltRequestView {
        BuiltRequestView {
            method: self.method,
            url: self.url@,
            query: self.query.deep_view(),
            headers: self.headers.deep_view(),
            body: self.body@,
        }
    }
}

/// Why a request cannot be built, if it cannot. The address is checked
/// first, then the client's default fields, then the request's own, each
/// list front to back.
pub open spec fn build_error(defaults: Seq<Field>, spec: RequestSpecView) -> Option<BuildError> {
    if !is_absolute_url(spec.url) {
        Some(BuildError::InvalidUrl)
    } else if first_error(defaults) is Some {
        Some(from_header_error(first_error(defaults)->0))
    } else if first_error(spec.headers) is Some {
        Some(from_header_error(first_error(spec.headers)->0))
    } else {
        None
    }
}

/// The request that a description stands for: the method and the payload as
/// given, the address with the parameters, read as a mapping, in its query,
/// and the request's header fields laid over the client's defaults.
pub open spec fn built(defaults: Seq<Field>, spec: RequestSpecView) -> BuiltRequestView {
    BuiltRequestView {
        method: spec.method,
        url: target_text(parts_of(spec.url), settled(spec.query)),
        query: final_query(url_query(spec.url), settled(spec.query)),
        headers: merged(canonical_fields(defaults), canonical_fields(spec.headers)),
        body: spec.body,
    }
}

/// What building a request gives: the request, or the reason why there is
/// none.
pub open spec fn build_outcome(defaults: Seq<Field>, spec: RequestSpecView) -> Result<
    BuiltRequestView,
    BuildError,
> {
    match build_error(defaults, spec) {
        Some(e) => Err(e),
        None => Ok(built(defaults, spec)),
    }
}

/// Whether a description builds, for this client, to this request.
pub open spec fn builds_to(
    defaults: Seq<Field>,
    spec: RequestSpecView,
    request: BuiltRequestView,
) -> bool {
    build_outcome(defaults, spec) matches Ok(b) && b == request
}

/// Whether a result is what building gives for this client and description.
pub open spec fn is_build_of(
    defaults: Seq<Field>,
    spec: RequestSpecView,
    res: Result<BuiltRequest, BuildError>,
) -> bool {
    match res {
        Ok(request) => build_outcome(defaults, spec) matches Ok(b) && b == request@,
        Err(e) => build_outcome(defaults, spec) matches Err(f) && f == e,
    }
}

fn header_error(e: HeaderError) -> (res: BuildError)
    ensures
        res == from_header_error(e),
{
    match e {
        HeaderError::InvalidHeaderName => BuildError::InvalidHeaderName,
        HeaderError::InvalidHeaderValue => BuildError::InvalidHeaderValue,
    }
}

fn copy_bytes(bytes: &Vec<u8>) -> (res: Vec<u8>)
    ensures
        res@ == bytes@,
{
    let mut out: Vec<u8> = Vec::new();
    let mut i: usize = 0;
    while i < bytes.len()
        invariant
            i <= bytes.len(),
            out@ == bytes@.take(i as int),
        decreases bytes.len() - i,
    {
        out.push(bytes[i]);
        assert(bytes@.take(i + 1) =~= bytes@.take(i as int).push(bytes@[i as int]));
        i += 1;
    }
    assert(bytes@.take(bytes.len() as int) =~= bytes@);
    out
}

/// Builds the request that a description stands for. Nothing is sent, and
/// neither the client's configuration nor the description is changed.
pub fn build_request(config: &ClientConfig, spec: &RequestSpec) -> (res: Result<
    BuiltRequest,
    BuildError,
>)
    ensures
        res matches Ok(request) ==> build_outcome(config@, spec@) matches Ok(b) && b == request@,
        res matches Err(e) ==> build_outcome(config@, spec@) matches Err(f) && f == e,
{
    let parts = match split_url(spec.url.as_str()) {
        Some(parts) => parts,
        None => {
            return Err(BuildError::InvalidUrl);
        },
    };
    let defaults = match canonicalize_fields(&config.default_headers) {
        Ok(fields) => fields,
        Err(e) => {
            return Err(header_error(e));
        },
    };
    let own = match canonicalize_fields(&spec.headers) {
        Ok(fields) => fields,
        Err(e) => {
            return Err(header_error(e));
        },
    };
    let pairs = settle(&spec.query);
    let query = target_query(&parts, &pairs);
    let url = write_url(parts.head.as_str(), &query, &parts.fragment);
    let headers = merge_fields(&defaults, &own);
    let body = copy_bytes(&spec.body);
    Ok(BuiltRequest { method: spec.method, url, query, headers, body })
}

/// Building is repeatable: two results of building from the same client and
/// the same description agree, in the method, the address with its query,
/// the header set and the payload where they are requests, and in the error
/// where they are not.
pub proof fn lemma_build_repeatable(
    defaults: Seq<Field>,
    spec: RequestSpecView,
    first: Result<BuiltRequest, BuildError>,
    second: Result<BuiltRequest, BuildError>,
)
    requires
        is_build_of(defaults, spec, first),
        is_build_of(defaults, spec, second),
    ensures
        first is Ok <==> second is Ok,
        first is Ok ==> first->Ok_0@ == second->Ok_0@,
        first is Err ==> first->Err_0 == second->Err_0,
{
}

/// The defaults of a fresh client can be sent, and are in canonical form:
/// with them, a request fails to build only for its own address or fields.
pub proof fn lemma_standard_defaults()
    ensures
        first_error(standard_defaults()) is None,
        canonical_fields(standard_defaults()) == standard_defaults(),
{
    reveal_strlit("user-agent");
    reveal_strlit("crabapi v0.1.0");
    let name = USER_AGENT_HEADER@;
    let value = USER_AGENT@;
    assert(is_header_name(name));
    assert(is_header_value(value));
    assert(canonical_name(name) =~= name);
    let fields = standard_defaults();
    assert(fields.first() == (name, value));
    assert(is_valid_field(fields.first()));
    assert(fields.drop_first() =~= Seq::<Field>::empty());
    assert(first_error(fields) is None) by {
        reveal_with_fuel(first_error, 2);
    }
    assert(canonical_fields(fields) =~= fields);
}

/// The `User-Agent` of a request built for a fresh client: where the
/// request names the header, in any casing, exactly the values that the
/// request gives it, in order; where it does not, the default of the
/// application and nothing else.
pub proof fn lemma_user_agent_precedence(spec: RequestSpecView)
    requires
        build_error(standard_defaults(), spec) is None,
    ensures
        values_of(built(standard_defaults(), spec).headers, USER_AGENT_HEADER@)
            == if names_ignoring_case(spec.headers, USER_AGENT_HEADER@) {
            values_of(canonical_fields(spec.headers), USER_AGENT_HEADER@)
        } else {
            seq![USER_AGENT@]
        },
{
    lemma_standard_defaults();
    reveal_strlit("user-agent");
    let name = USER_AGENT_HEADER@;
    assert(canonical_name(name) =~= name);
    lemma_canonical_has_name(spec.headers, name);
    lemma_merged_values(standard_defaults(), canonical_fields(spec.headers), name);
    let fields = standard_defaults();
    assert(fields.drop_last() =~= Seq::<Field>::empty());
    assert(fields.last() == (name, USER_AGENT@));
    assert(fields.filter(named(name)) =~= fields) by {
        reveal_with_fuel(Seq::filter, 2);
    }
    assert(values_of(fields, name) =~= seq![USER_AGENT@]);
}

/// The address of a built request whose parameters have distinct keys: the
/// URL as parsed, with each of the parameters, percent-encoded and in order,
/// at the end of its query.
pub proof fn lemma_target_of_distinct(defaults: Seq<Field>, spec: RequestSpecView)
    requires
        build_error(defaults, spec) is None,
        distinct_keys(spec.query),
    ensures
        built(defaults, spec).url == target_text(parts_of(spec.url), spec.query),
        built(defaults, spec).query == final_query(url_query(spec.url), spec.query),
{
    lemma_settled_of_distinct(spec.query);
}

/// The query of a built request whose URL brought none and whose parameters
/// have distinct keys holds exactly those parameters, percent-encoded and in
/// order: there is no query where there are no parameters, and else one `=`
/// for each parameter and one `&` between each two.
pub proof fn lemma_query_of_built(defaults: Seq<Field>, spec: RequestSpecView)
    requires
        build_error(defaults, spec) is None,
        distinct_keys(spec.query),
        url_query(spec.url) is None,
    ensures
        spec.query.len() == 0 ==> built(defaults, spec).query is None,
        spec.query.len() > 0 ==> built(defaults, spec).query == Some(
            with_pairs(Seq::<char>::empty(), spec.query),
        ),
        spec.query.len() > 0 ==> count_of(built(defaults, spec).query->0, '=')
            == spec.query.len(),
        spec.query.len() > 0 ==> count_of(built(defaults, spec).query->0, '&')
            == spec.query.len() - 1,
{
    lemma_settled_of_distinct(spec.query);
    lemma_query_holds_each_pair(spec.query);
}

/// The header set of a built request can be sent as it stands: every field
/// is valid, and every name is in canonical form.
pub proof fn lemma_built_headers_valid(defaults: Seq<Field>, spec: RequestSpecView)
    requires
        build_error(defaults, spec) is None,
    ensures
        first_error(built(defaults, spec).headers) is None,
        canonical_fields(built(defaults, spec).headers) == built(defaults, spec).headers,
{
    lemma_first_error(defaults);
    lemma_first_error(spec.headers);
    let d = canonical_fields(defaults);
    let o = canonical_fields(spec.headers);
    assert forall|i: int| 0 <= i < d.len() implies is_valid_field(#[trigger] d[i])
        && canonical_field(d[i]) == d[i] by {
        lemma_canonical_field_valid(defaults[i]);
    }
    assert forall|i: int| 0 <= i < o.len() implies is_valid_field(#[trigger] o[i])
        && canonical_field(o[i]) == o[i] by {
        lemma_canonical_field_valid(spec.headers[i]);
    }
    assert(canonical_fields(d) =~= d);
    assert(canonical_fields(o) =~= o);
    lemma_merged_valid(d, o);
    lemma_first_error(built(defaults, spec).headers);
}

} // verus!
