use crabapi::header::{
    canonicalize_field, canonicalize_fields, contains_name, field_values, merge_fields,
    HeaderError,
};

fn field(name: &str, value: &str) -> (String, String) {
    (name.to_string(), value.to_string())
}

#[test]
fn names_are_made_lower_case_and_values_kept() {
    assert_eq!(
        canonicalize_field("Content-Type", "Text/Plain; Charset=UTF-8"),
        Ok(field("content-type", "Text/Plain; Charset=UTF-8"))
    );
    assert_eq!(canonicalize_field("X-CUSTOM_1", "v"), Ok(field("x-custom_1", "v")));
    assert_eq!(canonicalize_field("key", "3"), Ok(field("key", "3")));
}

#[test]
fn every_token_character_is_a_name_character() {
    let name = "!#$%&'*+-.^_`|~09azAZ";
    assert_eq!(canonicalize_field(name, ""), Ok(field("!#$%&'*+-.^_`|~09azaz", "")));
}

#[test]
fn names_that_are_no_tokens_are_refused() {
    for name in ["", "bad name", "a:b", "a\tb", "x(y)", "h\u{e9}", "a\"b", "a/b", "a@b", "a\u{7f}"] {
        assert_eq!(canonicalize_field(name, "v"), Err(HeaderError::InvalidHeaderName), "{:?}", name);
    }
}

#[test]
fn name_length_is_bounded() {
    let longest = "a".repeat(65535);
    assert_eq!(canonicalize_field(&longest, "v"), Ok((longest.clone(), "v".to_string())));
    let too_long = "a".repeat(65536);
    assert_eq!(canonicalize_field(&too_long, "v"), Err(HeaderError::InvalidHeaderName));
    let capitals = "A".repeat(65);
    assert_eq!(canonicalize_field(&capitals, "v"), Ok(("a".repeat(65), "v".to_string())));
}

#[test]
fn values_with_control_characters_are_refused() {
    for value in ["a\nb", "a\rb", "a\r\nb", "\u{0}", "a\u{7f}", "\u{1f}"] {
        assert_eq!(canonicalize_field("x", value), Err(HeaderError::InvalidHeaderValue), "{:?}", value);
    }
}

#[test]
fn values_may_hold_tabs_spaces_and_text_beyond_ascii() {
    for value in ["", "a\tb", "  padded  ", "caf\u{e9}", "\u{65e5}\u{672c}", "~"] {
        assert_eq!(canonicalize_field("x", value), Ok(field("x", value)), "{:?}", value);
    }
}

#[test]
fn the_name_is_looked_at_before_the_value() {
    assert_eq!(canonicalize_field("bad name", "a\nb"), Err(HeaderError::InvalidHeaderName));
}

#[test]
fn the_first_bad_field_decides() {
    let fields = vec![field("A", "1"), field("b", "bad\n"), field("", "3")];
    assert_eq!(canonicalize_fields(&fields), Err(HeaderError::InvalidHeaderValue));
    let fields = vec![field("A", "1"), field("", "3"), field("b", "bad\n")];
    assert_eq!(canonicalize_fields(&fields), Err(HeaderError::InvalidHeaderName));
}

#[test]
fn a_list_keeps_its_order_and_its_repeats() {
    let fields = vec![field("Accept", "a"), field("X", "1"), field("ACCEPT", "b")];
    assert_eq!(
        canonicalize_fields(&fields),
        Ok(vec![field("accept", "a"), field("x", "1"), field("accept", "b")])
    );
    assert_eq!(canonicalize_fields(&vec![]), Ok(vec![]));
}

#[test]
fn own_fields_override_defaults_of_the_same_name() {
    let defaults = vec![field("user-agent", "default"), field("accept", "*/*")];
    let own = vec![field("user-agent", "mine")];
    assert_eq!(
        merge_fields(&defaults, &own),
        vec![field("accept", "*/*"), field("user-agent", "mine")]
    );
}

#[test]
fn repeated_names_keep_all_their_values() {
    let defaults = vec![field("a", "d1"), field("b", "d2"), field("a", "d3")];
    let own = vec![field("b", "o1"), field("c", "o2"), field("b", "o3")];
    let merged = merge_fields(&defaults, &own);
    assert_eq!(
        merged,
        vec![field("a", "d1"), field("a", "d3"), field("b", "o1"), field("c", "o2"), field("b", "o3")]
    );
    assert_eq!(field_values(&merged, &"a".to_string()), vec!["d1".to_string(), "d3".to_string()]);
    assert_eq!(field_values(&merged, &"b".to_string()), vec!["o1".to_string(), "o3".to_string()]);
    assert_eq!(field_values(&merged, &"c".to_string()), vec!["o2".to_string()]);
    assert_eq!(field_values(&merged, &"d".to_string()), Vec::<String>::new());
}

#[test]
fn merging_with_nothing_changes_nothing() {
    let defaults = vec![field("a", "1")];
    assert_eq!(merge_fields(&defaults, &vec![]), defaults);
    assert_eq!(merge_fields(&vec![], &defaults), defaults);
    assert_eq!(merge_fields(&vec![], &vec![]), vec![]);
}

#[test]
fn contains_name_matches_whole_names() {
    let fields = vec![field("accept", "a"), field("x", "1")];
    assert!(contains_name(&fields, &"x".to_string()));
    assert!(!contains_name(&fields, &"X".to_string()));
    assert!(!contains_name(&fields, &"acc".to_string()));
    assert!(!contains_name(&vec![], &"x".to_string()));
}

#[test]
fn merged_agrees_with_a_header_map_filled_the_same_way() {
    let defaults = vec![field("user-agent", "default"), field("accept", "*/*")];
    let own = vec![field("accept", "text/html"), field("accept", "text/plain"), field("key", "3")];
    let merged = merge_fields(&defaults, &own);
    let mut map = http::HeaderMap::new();
    for (name, value) in &merged {
        map.append(
            http::header::HeaderName::from_bytes(name.as_bytes()).unwrap(),
            http::header::HeaderValue::from_str(value).unwrap(),
        );
    }
    for name in ["user-agent", "accept", "key"] {
        let from_map: Vec<String> =
            map.get_all(name).iter().map(|v| v.to_str().unwrap().to_string()).collect();
        assert_eq!(field_values(&merged, &name.to_string()), from_map);
    }
    assert_eq!(map.len(), merged.len());
}
