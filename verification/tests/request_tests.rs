use crabapi::constants::{APP_NAME, APP_VERSION, USER_AGENT, USER_AGENT_HEADER};
use crabapi::header::field_values;
use crabapi::method::Method;
use crabapi::request::{build_request, BuildError, BuiltRequest, ClientConfig, RequestSpec};

fn field(name: &str, value: &str) -> (String, String) {
    (name.to_string(), value.to_string())
}

fn spec(method: Method, url: &str) -> RequestSpec {
    RequestSpec { method, url: url.to_string(), query: vec![], headers: vec![], body: vec![] }
}

fn build(spec: &RequestSpec) -> Result<BuiltRequest, BuildError> {
    build_request(&ClientConfig::new(), spec)
}

fn error_of(spec: &RequestSpec) -> BuildError {
    match build(spec) {
        Ok(request) => panic!("built {:?}", request),
        Err(e) => e,
    }
}

#[test]
fn the_user_agent_names_the_application_and_its_version() {
    assert_eq!(USER_AGENT, format!("{} v{}", APP_NAME, APP_VERSION));
    assert_eq!(USER_AGENT, "crabapi v0.1.0");
    assert_eq!(USER_AGENT_HEADER, "user-agent");
}

#[test]
fn a_fresh_client_sends_only_its_user_agent() {
    let config = ClientConfig::new();
    assert_eq!(config.default_headers, vec![field("user-agent", "crabapi v0.1.0")]);
}

#[test]
fn a_post_to_a_local_server_is_built_as_described() {
    let mut spec = spec(Method::Post, "http://localhost:7878");
    spec.headers = vec![field("key", "3")];
    spec.body = "POST Request".as_bytes().to_vec();
    let request = build(&spec).unwrap();
    assert_eq!(request.method, Method::Post);
    assert_eq!(request.url, "http://localhost:7878/");
    assert_eq!(request.headers, vec![field("user-agent", "crabapi v0.1.0"), field("key", "3")]);
    assert_eq!(request.body, "POST Request".as_bytes().to_vec());
}

#[test]
fn query_pairs_are_encoded_and_headers_laid_over_the_default() {
    let mut spec = spec(Method::Get, "https://example.com/search");
    spec.query = vec![field("q", "rust lang"), field("page", "2"), field("tag", "a&b=c")];
    spec.headers = vec![field("Accept", "text/html"), field("X-Trace", "1"), field("accept", "text/plain")];
    let request = build(&spec).unwrap();
    assert_eq!(request.url, "https://example.com/search?q=rust+lang&page=2&tag=a%26b%3Dc");
    assert_eq!(request.query, Some("q=rust+lang&page=2&tag=a%26b%3Dc".to_string()));
    assert_eq!(
        request.headers,
        vec![
            field("user-agent", "crabapi v0.1.0"),
            field("accept", "text/html"),
            field("x-trace", "1"),
            field("accept", "text/plain"),
        ]
    );
    assert_eq!(
        field_values(&request.headers, &"accept".to_string()),
        vec!["text/html".to_string(), "text/plain".to_string()]
    );
}

#[test]
fn a_user_agent_of_the_request_replaces_the_default_in_any_casing() {
    for name in ["user-agent", "User-Agent", "USER-AGENT", "uSeR-aGeNt"] {
        let mut spec = spec(Method::Get, "http://h/");
        spec.headers = vec![field(name, "mine/1.0")];
        let request = build(&spec).unwrap();
        assert_eq!(request.headers, vec![field("user-agent", "mine/1.0")], "{:?}", name);
    }
}

#[test]
fn a_repeated_user_agent_keeps_all_values_of_the_request() {
    let mut spec = spec(Method::Get, "http://h/");
    spec.headers = vec![field("User-Agent", "one"), field("x", "y"), field("user-agent", "two")];
    let request = build(&spec).unwrap();
    assert_eq!(
        field_values(&request.headers, &"user-agent".to_string()),
        vec!["one".to_string(), "two".to_string()]
    );
}

#[test]
fn without_a_user_agent_of_its_own_a_request_has_the_default() {
    let mut spec = spec(Method::Get, "http://h/");
    spec.headers = vec![field("user-agent-x", "no"), field("agent", "no")];
    let request = build(&spec).unwrap();
    assert_eq!(
        field_values(&request.headers, &"user-agent".to_string()),
        vec!["crabapi v0.1.0".to_string()]
    );
}

#[test]
fn the_last_value_of_a_repeated_query_key_wins() {
    let mut spec = spec(Method::Get, "http://h/");
    spec.query = vec![field("a", "1"), field("b", "2"), field("a", "3"), field("A", "4")];
    let request = build(&spec).unwrap();
    assert_eq!(request.url, "http://h/?a=3&b=2&A=4");
}

#[test]
fn an_empty_query_mapping_yields_no_query_string() {
    let request = build(&spec(Method::Get, "http://h/path")).unwrap();
    assert_eq!(request.url, "http://h/path");
    assert_eq!(request.query, None);
    let request = build(&spec(Method::Get, "http://h/path?")).unwrap();
    assert_eq!(request.url, "http://h/path");
    assert_eq!(request.query, None);
}

#[test]
fn the_body_is_attached_verbatim_with_no_content_type() {
    let mut spec = spec(Method::Put, "http://h/");
    spec.body = vec![0, 255, 10, 13, 123, 34, 125];
    let request = build(&spec).unwrap();
    assert_eq!(request.body, vec![0, 255, 10, 13, 123, 34, 125]);
    assert_eq!(field_values(&request.headers, &"content-type".to_string()), Vec::<String>::new());
    assert_eq!(request.headers.len(), 1);
}

#[test]
fn every_method_is_carried_over() {
    for method in crabapi::method::METHODS {
        assert_eq!(build(&spec(method, "http://h/")).unwrap().method, method);
    }
}

#[test]
fn building_twice_gives_the_same_request() {
    let mut spec = spec(Method::Patch, "https://Example.com:443/a b?x=1#top");
    spec.query = vec![field("k", "v w"), field("k", "z")];
    spec.headers = vec![field("Accept", "a"), field("User-Agent", "u"), field("accept", "b")];
    spec.body = vec![1, 2, 3];
    let config = ClientConfig::new();
    let first = build_request(&config, &spec).unwrap();
    let second = build_request(&config, &spec).unwrap();
    assert_eq!(first.method, second.method);
    assert_eq!(first.url, second.url);
    assert_eq!(first.query, second.query);
    assert_eq!(first.headers, second.headers);
    assert_eq!(first.body, second.body);
    assert_eq!(first.url, "https://example.com/a%20b?x=1&k=z#top");
}

#[test]
fn building_leaves_description_and_configuration_as_they_were() {
    let mut spec = spec(Method::Get, "http://h");
    spec.query = vec![field("a", "1"), field("a", "2")];
    spec.headers = vec![field("User-Agent", "u")];
    let config = ClientConfig::new();
    let _ = build_request(&config, &spec).unwrap();
    assert_eq!(spec.url, "http://h");
    assert_eq!(spec.query, vec![field("a", "1"), field("a", "2")]);
    assert_eq!(spec.headers, vec![field("User-Agent", "u")]);
    assert_eq!(config.default_headers, vec![field("user-agent", "crabapi v0.1.0")]);
}

#[test]
fn building_the_same_bad_description_twice_gives_the_same_error() {
    let mut spec = spec(Method::Get, "http://h/");
    spec.headers = vec![field("ok", "fine"), field("not ok", "x")];
    assert_eq!(error_of(&spec), BuildError::InvalidHeaderName);
    assert_eq!(error_of(&spec), BuildError::InvalidHeaderName);
}

#[test]
fn an_address_that_is_no_absolute_url_is_refused() {
    for url in ["", "localhost:7878/x y", "/just/a/path", "http//missing.colon", "mailto:a@b.c"] {
        assert_eq!(error_of(&spec(Method::Get, url)), BuildError::InvalidUrl, "{:?}", url);
    }
}

#[test]
fn a_bad_header_name_is_refused() {
    let mut spec = spec(Method::Get, "http://h/");
    spec.headers = vec![field("Bad Name", "x")];
    assert_eq!(error_of(&spec), BuildError::InvalidHeaderName);
    spec.headers = vec![field("", "x")];
    assert_eq!(error_of(&spec), BuildError::InvalidHeaderName);
}

#[test]
fn a_header_value_with_a_line_break_is_refused() {
    let mut spec = spec(Method::Get, "http://h/");
    spec.headers = vec![field("x", "a\r\nInjected: yes")];
    assert_eq!(error_of(&spec), BuildError::InvalidHeaderValue);
}

#[test]
fn the_address_is_checked_before_the_headers() {
    let mut spec = spec(Method::Get, "nowhere");
    spec.headers = vec![field("Bad Name", "a\nb")];
    assert_eq!(error_of(&spec), BuildError::InvalidUrl);
}

#[test]
fn defaults_of_the_client_are_checked_before_the_request() {
    let config = ClientConfig { default_headers: vec![field("x", "bad\n")] };
    let mut spec = spec(Method::Get, "http://h/");
    spec.headers = vec![field("Bad Name", "v")];
    assert_eq!(build_request(&config, &spec).err(), Some(BuildError::InvalidHeaderValue));
}

#[test]
fn defaults_of_a_client_are_put_in_canonical_form_too() {
    let config = ClientConfig { default_headers: vec![field("Accept", "*/*"), field("X-Env", "test")] };
    let mut spec = spec(Method::Get, "http://h/");
    spec.headers = vec![field("ACCEPT", "text/html")];
    let request = build_request(&config, &spec).unwrap();
    assert_eq!(request.headers, vec![field("x-env", "test"), field("accept", "text/html")]);
}

#[test]
fn build_errors_have_messages() {
    assert_eq!(BuildError::InvalidUrl.message(), "invalid URL");
    assert_eq!(BuildError::InvalidHeaderName.message(), "invalid header name");
    assert_eq!(BuildError::InvalidHeaderValue.message(), "invalid header value");
}

#[test]
fn a_built_request_is_what_the_client_library_builds() {
    let mut spec = spec(Method::Post, "http://localhost:7878?old=1");
    spec.query = vec![field("q", "a b"), field("r", "\u{e9}")];
    spec.headers = vec![field("Key", "3"), field("User-Agent", "mine")];
    spec.body = "POST Request".as_bytes().to_vec();
    let ours = build(&spec).unwrap();

    let mut defaults = http::HeaderMap::new();
    defaults.insert("User-Agent", USER_AGENT.parse().unwrap());
    let mut own = http::HeaderMap::new();
    own.append("key", "3".parse().unwrap());
    own.append("user-agent", "mine".parse().unwrap());
    let request = reqwest::Request::new(
        reqwest::Method::POST,
        reqwest::Url::parse("http://localhost:7878?old=1").unwrap(),
    );
    let theirs = reqwest::RequestBuilder::from_parts(reqwest::Client::new(), request)
        .query(&spec.query)
        .headers(defaults)
        .headers(own)
        .body("POST Request")
        .build()
        .unwrap();

    assert_eq!(ours.method.as_str(), theirs.method().as_str());
    assert_eq!(ours.url, theirs.url().as_str());
    assert_eq!(ours.body.as_slice(), theirs.body().unwrap().as_bytes().unwrap());
    assert_eq!(ours.headers.len(), theirs.headers().len());
    for name in ["user-agent", "key"] {
        let from_map: Vec<String> =
            theirs.headers().get_all(name).iter().map(|v| v.to_str().unwrap().to_string()).collect();
        assert_eq!(field_values(&ours.headers, &name.to_string()), from_map);
    }
}

#[test]
fn the_query_of_the_address_comes_before_the_parameters() {
    let mut spec = spec(Method::Get, "http://h/?lang=fr#nav");
    spec.query = vec![field("foo", "bar")];
    let request = build(&spec).unwrap();
    assert_eq!(request.query, Some("lang=fr&foo=bar".to_string()));
    assert_eq!(request.url, "http://h/?lang=fr&foo=bar#nav");
}

#[test]
fn a_query_holds_exactly_the_parameters_of_the_request() {
    let mut spec = spec(Method::Get, "http://h/");
    spec.query = vec![field("a=1", "&"), field("b", "="), field("c d", "")];
    let query = build(&spec).unwrap().query.unwrap();
    assert_eq!(query, "a%3D1=%26&b=%3D&c+d=");
    let pairs: Vec<(String, String)> =
        url::form_urlencoded::parse(query.as_bytes()).into_owned().collect();
    assert_eq!(pairs, spec.query);
}
