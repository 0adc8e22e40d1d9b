use squads_cli::token::{AccessToken, TokenStore, REFRESH_TOKEN_KEY};
use squads_cli::token_file::{decode_tokens, encode_tokens};

fn token(value: &str, expires: u64) -> AccessToken {
    AccessToken { value: value.to_string(), expires }
}

#[test]
fn empty_store_encodes_to_empty_map() {
    let text = encode_tokens(&TokenStore::new());
    assert_eq!(text, "{\"tokens\":{}}");
    let back = decode_tokens(&text).unwrap();
    assert!(back.is_empty());
}

#[test]
fn single_token_exact_text() {
    let mut store = TokenStore::new();
    store.insert("graph".to_string(), token("abc", 42));
    assert_eq!(
        encode_tokens(&store),
        "{\"tokens\":{\"graph\":{\"value\":\"abc\",\"expires\":42}}}"
    );
}

#[test]
fn save_then_load_is_field_equal() {
    let mut store = TokenStore::new();
    store.insert(REFRESH_TOKEN_KEY.to_string(), token("r\"e\\f", u64::MAX));
    store.insert("https://graph.microsoft.com/.default".to_string(), token("eyJ0.x-y_z", 0));
    store.insert("skype_token".to_string(), token("", 1_700_000_000));
    let text = encode_tokens(&store);
    let back = decode_tokens(&text).unwrap();
    assert_eq!(back.to_pairs().len(), 3);
    for (name, t) in store.to_pairs() {
        let got = back.get(&name).unwrap();
        assert_eq!(got.value, t.value);
        assert_eq!(got.expires, t.expires);
    }
}

#[test]
fn reads_pretty_printed_file() {
    let text = "{\n  \"tokens\": {\n    \"refresh_token\": {\n      \"value\": \"a\\/b\\n\",\n      \"expires\": 17\n    },\n    \"graph\": {\n      \"value\": \"g\",\n      \"expires\": 5\n    }\n  }\n}\n";
    let store = decode_tokens(text).unwrap();
    assert_eq!(store.refresh_token().unwrap().value, "a/b\n");
    assert_eq!(store.refresh_token().unwrap().expires, 17);
    assert_eq!(store.get("graph").unwrap().expires, 5);
}

#[test]
fn rejects_malformed_files() {
    assert!(decode_tokens("").is_none());
    assert!(decode_tokens("{}").is_none());
    assert!(decode_tokens("{\"tokens\":{}").is_none());
    assert!(decode_tokens("{\"tokens\":{}} x").is_none());
    assert!(decode_tokens("{\"tokens\":{\"a\":{\"value\":\"v\",\"expires\":-1}}}").is_none());
    assert!(decode_tokens("{\"tokens\":{\"a\":{\"value\":\"v\",\"expires\":18446744073709551616}}}").is_none());
    assert!(decode_tokens("{\"tokens\":{\"a\":{\"value\":\"v\\q\",\"expires\":1}}}").is_none());
    assert!(decode_tokens("{\"tokens\":{\"a\":{\"expires\":1,\"value\":\"v\"}}}").is_none());
}

#[test]
fn later_duplicate_name_wins() {
    let text = "{\"tokens\":{\"a\":{\"value\":\"1\",\"expires\":1},\"a\":{\"value\":\"2\",\"expires\":2}}}";
    let store = decode_tokens(text).unwrap();
    assert_eq!(store.get("a").unwrap().value, "2");
    assert_eq!(store.to_pairs().len(), 1);
}
