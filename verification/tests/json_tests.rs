use traceline::json::JSON;
use traceline::locate::ErrDetails;

fn place() -> ErrDetails {
    ErrDetails::new("args.rs".to_string(), 5, "json_io::new".to_string())
}

fn doc(raw: &str) -> JSON {
    JSON::new(raw.to_string(), place()).unwrap_or_else(|f| panic!("{}", f.show()))
}

#[test]
fn plain_text_parses() {
    let j = doc("{\"a\":1}");
    let r: traceline::Attempt<u64> = j.get(&["a"], &place());
    assert_eq!(r.ok(), Some(1));
}

#[test]
fn base64_blob_decodes_then_parses() {
    // the standard-alphabet encoding of {"a":1}; reading the key proves
    // the blob was decoded rather than taken as it stands
    let j = doc("eyJhIjoxfQ==");
    let r: traceline::Attempt<u64> = j.get(&["a"], &place());
    assert_eq!(r.ok(), Some(1));
}

#[test]
fn unparsable_text_fails_naming_the_input() {
    let r = JSON::new("not json".to_string(), place());
    match r {
        Err(f) => {
            assert_eq!(f.places_len(), 1);
            assert!(f.message().contains("Input: not json"));
        },
        Ok(_) => panic!("malformed text parsed"),
    }
}

#[test]
fn nested_keys_resolve_typed_values() {
    let j = doc("{\"net\":{\"ip\":\"10.0.0.1\",\"port\":5000,\"timeout\":500}}");
    let ip: traceline::Attempt<String> = j.get(&["net", "ip"], &place());
    assert_eq!(ip.ok(), Some("10.0.0.1".to_string()));
    let port: traceline::Attempt<u16> = j.get(&["net", "port"], &place());
    assert_eq!(port.ok(), Some(5000));
    let timeout: traceline::Attempt<u64> = j.get(&["net", "timeout"], &place());
    assert_eq!(timeout.ok(), Some(500));
}

#[test]
fn missing_key_names_the_keys_still_to_walk() {
    let j = doc("{\"a\":1}");
    let r: traceline::Attempt<u64> = j.get(&["b"], &place());
    match r {
        Err(f) => assert_eq!(f.message(), "JSON::get - Key not found: [\"b\"]"),
        Ok(_) => panic!("missing key found"),
    }
    let r2: traceline::Attempt<u64> = j.get(&["a", "b"], &place());
    match r2 {
        Err(f) => assert_eq!(f.message(), "JSON::get - Key not found: [\"b\"]"),
        Ok(_) => panic!("missing nested key found"),
    }
}

#[test]
fn wrong_shape_fails_with_the_conversion_message() {
    let j = doc("{\"a\":\"text\"}");
    let r: traceline::Attempt<u64> = j.get(&["a"], &place());
    match r {
        Err(f) => {
            assert_eq!(f.message(), "json_io::Convert - Value is not a u64: String(\"text\")");
            assert_eq!(f.place_at(0).file, "args.rs");
        },
        Ok(_) => panic!("a string converted to a number"),
    }
}

#[test]
fn get_or_takes_the_default_on_any_failure() {
    let j = doc("{\"net\":{\"port\":5000}}");
    assert_eq!(j.get_or(&["net", "port"], 1u16), 5000);
    assert_eq!(j.get_or(&["net", "missing"], 9u16), 9);
    assert_eq!(j.get_or(&["net"], 9u64), 9);
    assert_eq!(
        j.get_or(&["net", "port"], "none".to_string()),
        "none".to_string()
    );
}

#[test]
fn oversized_number_truncates_to_u16() {
    let j = doc("{\"p\":70000}");
    let r: traceline::Attempt<u16> = j.get(&["p"], &place());
    assert_eq!(r.ok(), Some(4464));
}
