use trackmania_api::base64::b64url_decode;
use trackmania_api::client::decode_access_token_claims;
use trackmania_api::json::{json_string_field, json_u64_field};
use trackmania_api::{Error, ServerConfig};

#[test]
fn server_config_serializes_to_exact_camel_case_json() {
    let config = ServerConfig {
        title_id: "TM_Stadium",
        script_file_name: "TimeAttack.Script.txt",
        port: 2350,
        player_count_max: 32,
        player_count: 7,
        server_name: "My Server",
        is_private: true,
        ip: "203.0.113.9",
        game_mode_custom_data: "",
        game_mode: "TimeAttack",
    };
    assert_eq!(
        config.to_json(),
        "{\"titleId\":\"TM_Stadium\",\"scriptFileName\":\"TimeAttack.Script.txt\",\
         \"port\":2350,\"playerCountMax\":32,\"playerCount\":7,\
         \"serverName\":\"My Server\",\"isPrivate\":true,\"ip\":\"203.0.113.9\",\
         \"gameModeCustomData\":\"\",\"gameMode\":\"TimeAttack\"}"
    );
}

#[test]
fn server_config_json_round_trips_through_a_json_parser() {
    let config = ServerConfig {
        title_id: "T\"itle\\",
        script_file_name: "Script\nFile",
        port: 65535,
        player_count_max: 255,
        player_count: 0,
        server_name: "name with \"quotes\"",
        is_private: false,
        ip: "192.0.2.1",
        game_mode_custom_data: "<xml/>",
        game_mode: "Rounds",
    };
    let value: serde_json::Value = serde_json::from_str(&config.to_json()).unwrap();
    assert_eq!(value.get("titleId").unwrap().as_str(), Some("T\"itle\\"));
    assert_eq!(value.get("scriptFileName").unwrap().as_str(), Some("Script\nFile"));
    assert_eq!(value.get("port").unwrap().as_u64(), Some(65535));
    assert_eq!(value.get("playerCountMax").unwrap().as_u64(), Some(255));
    assert_eq!(value.get("playerCount").unwrap().as_u64(), Some(0));
    assert_eq!(value.get("serverName").unwrap().as_str(), Some("name with \"quotes\""));
    assert_eq!(value.get("isPrivate").unwrap().as_bool(), Some(false));
    assert_eq!(value.get("ip").unwrap().as_str(), Some("192.0.2.1"));
    assert_eq!(value.get("gameModeCustomData").unwrap().as_str(), Some("<xml/>"));
    assert_eq!(value.get("gameMode").unwrap().as_str(), Some("Rounds"));
    assert_eq!(value.as_object().unwrap().len(), 10);
}

#[test]
fn title_id_reads_back_through_the_library_scanner() {
    let config = ServerConfig {
        title_id: "TM_Stadium",
        script_file_name: "s",
        port: 1,
        player_count_max: 1,
        player_count: 1,
        server_name: "n",
        is_private: false,
        ip: "i",
        game_mode_custom_data: "d",
        game_mode: "m",
    };
    assert_eq!(json_string_field(&config.to_json(), "titleId"), Some("TM_Stadium".to_string()));
}

#[test]
fn claims_decode_reads_sub_and_exp() {
    // Payload: {"sub":"A","exp":1234}
    let claims = decode_access_token_claims("h.eyJzdWIiOiJBIiwiZXhwIjoxMjM0fQ.s").unwrap();
    assert_eq!(claims.sub, "A");
    assert_eq!(claims.exp, Some(1234));
}

#[test]
fn claims_decode_accepts_spaced_payload_and_missing_exp() {
    // Payload: { "sub" : "Spaced" , "exp" : 99 }
    let spaced =
        decode_access_token_claims("h.eyAic3ViIiA6ICJTcGFjZWQiICwgImV4cCIgOiA5OSB9.s").unwrap();
    assert_eq!(spaced.sub, "Spaced");
    assert_eq!(spaced.exp, Some(99));
    // Payload: {"sub":"ACC1"}: no exp claim at all.
    let bare = decode_access_token_claims("abc.eyJzdWIiOiJBQ0MxIn0.sig").unwrap();
    assert_eq!(bare.sub, "ACC1");
    assert_eq!(bare.exp, None);
}

#[test]
fn claims_decode_reads_utf8_payloads() {
    // Payload: {"sub":"Müller"}
    let claims = decode_access_token_claims("h.eyJzdWIiOiJNw7xsbGVyIn0.s").unwrap();
    assert_eq!(claims.sub, "Müller");
    // Bytes that are not valid UTF-8 ("__4" decodes to 0xff 0xfe).
    assert_eq!(decode_access_token_claims("h.__4.s"), Err(Error::Decode));
}

#[test]
fn claims_decode_rejects_malformed_tokens() {
    // No sub claim (payload {"exp":5}).
    assert_eq!(decode_access_token_claims("h.eyJleHAiOjV9.s"), Err(Error::Decode));
    // Wrong number of segments.
    assert_eq!(decode_access_token_claims("nodots"), Err(Error::Decode));
    assert_eq!(decode_access_token_claims("one.dot"), Err(Error::Decode));
    assert_eq!(decode_access_token_claims("a.b.c.d"), Err(Error::Decode));
    // Payload that is not base64url.
    assert_eq!(decode_access_token_claims("h.?!.s"), Err(Error::Decode));
}

#[test]
fn claims_decode_unescapes_the_sub_value() {
    // Payload: {"sub":"Quo\"te"}
    let claims = decode_access_token_claims("h.eyJzdWIiOiJRdW9cInRlIn0.s").unwrap();
    assert_eq!(claims.sub, "Quo\"te");
}

#[test]
fn base64url_decodes_all_tail_lengths() {
    assert_eq!(b64url_decode("TWFu").unwrap(), b"Man".to_vec());
    assert_eq!(b64url_decode("TWE").unwrap(), b"Ma".to_vec());
    assert_eq!(b64url_decode("TQ").unwrap(), b"M".to_vec());
    assert_eq!(b64url_decode("").unwrap(), Vec::<u8>::new());
    assert_eq!(b64url_decode("e30").unwrap(), b"{}".to_vec());
    assert_eq!(b64url_decode("T"), None);
    assert_eq!(b64url_decode("TQ=="), None);
    assert_eq!(b64url_decode("-_-_").unwrap().len(), 3);
}

#[test]
fn string_fields_are_read_at_the_first_key_occurrence() {
    assert_eq!(json_string_field("{\"a\":\"x\",\"b\":\"y\"}", "b"), Some("y".to_string()));
    assert_eq!(json_string_field("{ \"a\" : \"x y\" }", "a"), Some("x y".to_string()));
    assert_eq!(json_string_field("{\"a\":\"first\",\"a\":\"second\"}", "a"), Some("first".to_string()));
    assert_eq!(json_string_field("{\"a\":1}", "a"), None);
    assert_eq!(json_string_field("{\"a\":\"unterminated", "a"), None);
    assert_eq!(json_string_field("{}", "a"), None);
}

#[test]
fn key_text_inside_a_string_value_is_not_a_key() {
    // The value of "v" spells out an accessToken field, escaped; the real key
    // comes after it and is the one read.
    let body = "{\"v\":\"x\\\",\\\"accessToken\\\":\\\"evil\",\"accessToken\":\"real\"}";
    assert_eq!(json_string_field(body, "accessToken"), Some("real".to_string()));
    // A key-shaped text with nothing before it is no field either.
    assert_eq!(json_string_field("\"a\":\"x\"", "a"), None);
}

#[test]
fn string_fields_are_unescaped_on_read() {
    assert_eq!(json_string_field("{\"a\":\"es\\\"cape\"}", "a"), Some("es\"cape".to_string()));
    assert_eq!(
        json_string_field("{\"a\":\"tab\\there\\nand\\\\slash\\/\"}", "a"),
        Some("tab\there\nand\\slash/".to_string())
    );
    // Unicode escapes are not read: no value, never a wrong one.
    assert_eq!(json_string_field("{\"a\":\"oops\\u0041\"}", "a"), None);
    // A raw control character inside a string literal is rejected.
    assert_eq!(json_string_field("{\"a\":\"bad\nnews\"}", "a"), None);
}

#[test]
fn u64_fields_fit_nineteen_digits() {
    assert_eq!(json_u64_field("{\"n\":0}", "n"), Some(0));
    assert_eq!(json_u64_field("{\"n\" : 42 }", "n"), Some(42));
    assert_eq!(json_u64_field("{\"n\":9999999999999999999}", "n"), Some(9999999999999999999));
    assert_eq!(json_u64_field("{\"n\":99999999999999999999}", "n"), None);
    assert_eq!(json_u64_field("{\"n\":\"7\"}", "n"), None);
    assert_eq!(json_u64_field("{\"n\":}", "n"), None);
}
