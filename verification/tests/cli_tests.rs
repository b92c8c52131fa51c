use crabapi::cli::{collect_headers, collect_query, request_from_args, split_pair, CliArgs};
use crabapi::text::trim;
use crabapi::method::{InvalidMethod, Method};
use crabapi::request::{build_request, BuildError, ClientConfig};

fn pair(name: &str, value: &str) -> (String, String) {
    (name.to_string(), value.to_string())
}

fn texts(items: &[&str]) -> Vec<String> {
    items.iter().map(|s| s.to_string()).collect()
}

#[test]
fn an_argument_is_cut_at_its_first_colon_and_space() {
    assert_eq!(split_pair("key: value"), Some(pair("key", "value")));
    assert_eq!(split_pair("a: b: c"), Some(pair("a", "b: c")));
    assert_eq!(split_pair("a:b: c"), Some(pair("a:b", "c")));
    assert_eq!(split_pair(": "), Some(pair("", "")));
    assert_eq!(split_pair("k: "), Some(pair("k", "")));
    assert_eq!(split_pair(": v"), Some(pair("", "v")));
    assert_eq!(split_pair("k:  v"), Some(pair("k", " v")));
    assert_eq!(split_pair("caf\u{e9}: cr\u{e8}me"), Some(pair("caf\u{e9}", "cr\u{e8}me")));
}

#[test]
fn an_argument_without_the_separator_is_no_pair() {
    for text in ["", "k", ":", " ", "key:value", "key :value", "key=value", "k:\tv", "k:"] {
        assert_eq!(split_pair(text), None, "{:?}", text);
    }
}

#[test]
fn cutting_agrees_with_the_standard_library() {
    for text in ["a: b", "::  ", "x: y: z", "no", "\u{e9}: \u{e9}", " : : "] {
        let expected = text.split_once(": ").map(|(k, v)| pair(k, v));
        assert_eq!(split_pair(text), expected, "{:?}", text);
    }
}

#[test]
fn trimming_takes_white_space_off_both_ends_only() {
    assert_eq!(trim("  a b \n"), "a b");
    assert_eq!(trim("\t\r\n x"), "x");
    assert_eq!(trim("x"), "x");
    assert_eq!(trim(""), "");
    assert_eq!(trim(" \t\n"), "");
    assert_eq!(trim("\u{a0}\u{3000}wide\u{2003}"), "wide");
    assert_eq!(trim("a  b"), "a  b");
}

#[test]
fn trimming_agrees_with_the_standard_library() {
    for text in ["", " ", "  x  ", "\u{85}y\u{85}", "\u{200b}z", "\u{feff}bom", " \u{e9} "] {
        assert_eq!(trim(text), text.trim(), "{:?}", text);
    }
}

#[test]
fn the_last_value_of_a_query_key_wins() {
    let args = texts(&["a: 1", "b: 2", "a: 3"]);
    assert_eq!(collect_query(&args), vec![pair("a", "3"), pair("b", "2")]);
}

#[test]
fn query_arguments_are_not_trimmed_and_bad_ones_are_passed_over() {
    let args = texts(&[" a :  1 ", "broken", "b: ", "c=d"]);
    assert_eq!(collect_query(&args), vec![pair(" a ", " 1 "), pair("b", "")]);
    assert_eq!(collect_query(&vec![]), vec![]);
}

#[test]
fn header_arguments_are_trimmed_and_keep_repeats() {
    let args = texts(&[" X-A :  v ", "Accept: a", "nothing", "Accept: b", "empty: "]);
    assert_eq!(
        collect_headers(&args),
        vec![pair("X-A", "v"), pair("Accept", "a"), pair("Accept", "b"), pair("empty", "")]
    );
    assert_eq!(collect_headers(&vec![]), vec![]);
}

#[test]
fn arguments_become_a_request_description() {
    let args = CliArgs {
        url: "http://localhost:7878".to_string(),
        method: "POST".to_string(),
        query: texts(&["q: rust", "q: verus"]),
        headers: texts(&["Key: 3"]),
        body: Some("POST Request".to_string()),
    };
    let spec = request_from_args(&args).unwrap();
    assert_eq!(spec.method, Method::Post);
    assert_eq!(spec.url, "http://localhost:7878");
    assert_eq!(spec.query, vec![pair("q", "verus")]);
    assert_eq!(spec.headers, vec![pair("Key", "3")]);
    assert_eq!(spec.body, "POST Request".as_bytes().to_vec());
    let request = build_request(&ClientConfig::new(), &spec).unwrap();
    assert_eq!(request.url, "http://localhost:7878/?q=verus");
    assert_eq!(request.headers, vec![pair("user-agent", "crabapi v0.1.0"), pair("key", "3")]);
}

#[test]
fn without_a_body_argument_the_body_is_empty() {
    let args = CliArgs {
        url: "http://h/".to_string(),
        method: "GET".to_string(),
        query: vec![],
        headers: vec![],
        body: None,
    };
    let spec = request_from_args(&args).unwrap();
    assert_eq!(spec.body, Vec::<u8>::new());
    assert_eq!(spec.method, Method::Get);
}

#[test]
fn the_body_is_the_text_in_utf8() {
    let args = CliArgs {
        url: "http://h/".to_string(),
        method: "PUT".to_string(),
        query: vec![],
        headers: vec![],
        body: Some("\u{e9}".to_string()),
    };
    assert_eq!(request_from_args(&args).unwrap().body, vec![0xc3, 0xa9]);
}

#[test]
fn an_unknown_method_is_an_error() {
    for method in ["", "get", "FETCH", "POST "] {
        let args = CliArgs {
            url: "http://h/".to_string(),
            method: method.to_string(),
            query: vec![],
            headers: vec![],
            body: None,
        };
        assert_eq!(request_from_args(&args).err(), Some(InvalidMethod), "{:?}", method);
    }
}

#[test]
fn a_bad_address_is_found_when_the_request_is_built() {
    let args = CliArgs {
        url: "not a url".to_string(),
        method: "GET".to_string(),
        query: vec![],
        headers: texts(&["Bad Name: x"]),
        body: None,
    };
    let spec = request_from_args(&args).unwrap();
    assert_eq!(build_request(&ClientConfig::new(), &spec).err(), Some(BuildError::InvalidUrl));
}
