use percent_encoding::{utf8_percent_encode, AsciiSet, NON_ALPHANUMERIC};
use remo_client_rs::{encode_params, percent_encode, Params};

const UNRESERVED_KEPT: &AsciiSet = &NON_ALPHANUMERIC
    .remove(b'*')
    .remove(b'.')
    .remove(b'-')
    .remove(b'_');

fn params_of(pairs: &[(&str, &str)]) -> Params {
    let mut params = Params::new();
    for (key, value) in pairs {
        params.insert(key, value);
    }
    params
}

#[test]
fn empty_mapping_encodes_to_empty_text() {
    assert_eq!(encode_params(&Params::new()), "");
}

#[test]
fn one_parameter_has_no_ampersand() {
    assert_eq!(encode_params(&params_of(&[("a", "1")])), "a=1");
}

#[test]
fn keys_come_out_in_lexicographic_order() {
    assert_eq!(encode_params(&params_of(&[("b", "2"), ("a", "1")])), "a=1&b=2");
}

#[test]
fn encoding_twice_gives_the_same_text() {
    let params = params_of(&[("nickname", "living room"), ("device", "d-1"), ("image", "ico_ac")]);
    let first = encode_params(&params);
    let second = encode_params(&params);
    assert_eq!(first, second);
    assert_eq!(first, "device=d-1&image=ico_ac&nickname=living%20room");
}

#[test]
fn order_of_insertion_does_not_show() {
    let forward = params_of(&[("a", "1"), ("b", "2"), ("c", "3")]);
    let backward = params_of(&[("c", "3"), ("b", "2"), ("a", "1")]);
    let mixed = params_of(&[("b", "2"), ("c", "3"), ("a", "1")]);
    assert_eq!(encode_params(&forward), "a=1&b=2&c=3");
    assert_eq!(encode_params(&backward), "a=1&b=2&c=3");
    assert_eq!(encode_params(&mixed), "a=1&b=2&c=3");
}

#[test]
fn keys_are_encoded_like_values() {
    assert_eq!(encode_params(&params_of(&[("a b", "c&d"), ("x=y", "")])), "a%20b=c%26d&x%3Dy=");
}

#[test]
fn separators_are_the_only_reserved_characters_in_a_body() {
    let body = encode_params(&params_of(&[("k&1", "v=1"), ("k 2", "v&2"), ("k=3", " ")]));
    assert_eq!(body, "k%202=v%262&k%261=v%3D1&k%3D3=%20");
    assert_eq!(body.matches('=').count(), 3);
    assert_eq!(body.matches('&').count(), 2);
    assert_eq!(body.matches(' ').count(), 0);
}

#[test]
fn unreserved_characters_pass_unchanged() {
    assert_eq!(percent_encode("My-Remo_3.0*"), "My-Remo_3.0*");
    let all = "ABCDEFGHIJKLMNOPQRSTUVWXYZabcdefghijklmnopqrstuvwxyz0123456789*.-_";
    assert_eq!(percent_encode(all), all);
}

#[test]
fn reserved_characters_are_escaped() {
    let encoded = percent_encode("a b&c");
    assert_eq!(encoded, "a%20b%26c");
    assert!(encoded.contains("%20"));
    assert!(encoded.contains("%26"));
    assert!(!encoded.contains(' '));
    assert!(!encoded.contains('&'));
}

#[test]
fn empty_string_encodes_to_itself() {
    assert_eq!(percent_encode(""), "");
}

#[test]
fn escapes_use_upper_case_digits() {
    assert_eq!(percent_encode("/"), "%2F");
    assert_eq!(percent_encode(":"), "%3A");
    assert_eq!(percent_encode("~"), "%7E");
    assert_eq!(percent_encode("\n"), "%0A");
    assert_eq!(percent_encode("\u{0}"), "%00");
    assert_eq!(percent_encode("\u{7f}"), "%7F");
}

#[test]
fn neighbours_of_the_unreserved_ranges_are_escaped() {
    assert_eq!(percent_encode("/0"), "%2F0");
    assert_eq!(percent_encode("9:"), "9%3A");
    assert_eq!(percent_encode("@A"), "%40A");
    assert_eq!(percent_encode("Z["), "Z%5B");
    assert_eq!(percent_encode("`a"), "%60a");
    assert_eq!(percent_encode("z{"), "z%7B");
    assert_eq!(percent_encode(")*+"), "%29*%2B");
    assert_eq!(percent_encode(",-./"), "%2C-.%2F");
    assert_eq!(percent_encode("^_`"), "%5E_%60");
}

#[test]
fn percent_sign_is_escaped() {
    assert_eq!(percent_encode("100%"), "100%25");
    assert_eq!(percent_encode("%20"), "%2520");
}

#[test]
fn every_byte_of_a_wide_character_is_escaped() {
    assert_eq!(percent_encode("é"), "%C3%A9");
    assert_eq!(percent_encode("リビング"), "%E3%83%AA%E3%83%93%E3%83%B3%E3%82%B0");
    assert_eq!(percent_encode("a😀b"), "a%F0%9F%98%80b");
    assert_eq!(percent_encode("\u{80}"), "%C2%80");
    assert_eq!(percent_encode("\u{10ffff}"), "%F4%8F%BF%BF");
}

#[test]
fn json_text_is_escaped_whole() {
    assert_eq!(
        percent_encode("{\"freq\":38,\"data\":[1,2],\"format\":\"us\"}"),
        "%7B%22freq%22%3A38%2C%22data%22%3A%5B1%2C2%5D%2C%22format%22%3A%22us%22%7D"
    );
}

#[test]
fn agrees_with_the_percent_encoding_crate_on_every_ascii_character() {
    for code in 0u8..128 {
        let text = (code as char).to_string();
        assert_eq!(percent_encode(&text), utf8_percent_encode(&text, UNRESERVED_KEPT).to_string());
    }
}

#[test]
fn agrees_with_the_percent_encoding_crate_on_mixed_text() {
    let texts =
        ["", "plain", "a b&c=d", "My-Remo_3.0*", "  Remo 3       ", "エアコン 26℃", "x\u{0}y\u{7f}z"];
    for text in texts {
        assert_eq!(percent_encode(text), utf8_percent_encode(text, UNRESERVED_KEPT).to_string());
    }
}

#[test]
fn encoded_text_holds_only_unreserved_characters_and_percent() {
    for text in ["a b&c=d", "エアコン", "%&= \t\r\n", "ok-._*"] {
        let encoded = percent_encode(text);
        assert!(encoded
            .chars()
            .all(|c| c.is_ascii_alphanumeric() || "*.-_%".contains(c)));
    }
}
