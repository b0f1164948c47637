use remo_client_rs::order::{compare_keys, KeyOrder};
use remo_client_rs::Params;

fn entries(params: &Params) -> Vec<(String, String)> {
    let mut out = Vec::new();
    for i in 0..params.len() {
        out.push((params.key(i).to_string(), params.value(i).to_string()));
    }
    out
}

fn pair(key: &str, value: &str) -> (String, String) {
    (key.to_string(), value.to_string())
}

#[test]
fn new_params_are_empty() {
    let params = Params::new();
    assert_eq!(params.len(), 0);
    assert!(params.is_empty());
}

#[test]
fn insert_adds_an_entry() {
    let mut params = Params::new();
    params.insert("mode", "cool");
    assert_eq!(params.len(), 1);
    assert!(!params.is_empty());
    assert_eq!(params.key(0), "mode");
    assert_eq!(params.value(0), "cool");
}

#[test]
fn entries_are_kept_in_key_order() {
    let mut params = Params::new();
    params.insert("nickname", "n");
    params.insert("device", "d");
    params.insert("image", "i");
    params.insert("model_type", "t");
    params.insert("model", "m");
    assert_eq!(
        entries(&params),
        vec![
            pair("device", "d"),
            pair("image", "i"),
            pair("model", "m"),
            pair("model_type", "t"),
            pair("nickname", "n"),
        ]
    );
}

#[test]
fn insert_at_the_front_the_middle_and_the_end() {
    let mut params = Params::new();
    params.insert("m", "1");
    params.insert("a", "2");
    params.insert("z", "3");
    params.insert("f", "4");
    params.insert("s", "5");
    assert_eq!(
        entries(&params),
        vec![pair("a", "2"), pair("f", "4"), pair("m", "1"), pair("s", "5"), pair("z", "3")]
    );
}

#[test]
fn insert_under_a_present_key_replaces_the_value() {
    let mut params = Params::new();
    params.insert("a", "1");
    params.insert("b", "2");
    params.insert("c", "3");
    params.insert("b", "two");
    assert_eq!(params.len(), 3);
    assert_eq!(entries(&params), vec![pair("a", "1"), pair("b", "two"), pair("c", "3")]);
    params.insert("a", "one");
    params.insert("c", "three");
    assert_eq!(entries(&params), vec![pair("a", "one"), pair("b", "two"), pair("c", "three")]);
}

#[test]
fn empty_key_and_empty_value_are_kept() {
    let mut params = Params::new();
    params.insert("a", "");
    params.insert("", "x");
    assert_eq!(entries(&params), vec![pair("", "x"), pair("a", "")]);
}

#[test]
fn keys_are_ordered_by_their_bytes() {
    let mut params = Params::new();
    params.insert("b", "");
    params.insert("B", "");
    params.insert("é", "");
    params.insert("z", "");
    params.insert("_", "");
    params.insert("10", "");
    params.insert("9", "");
    let keys: Vec<String> = entries(&params).into_iter().map(|e| e.0).collect();
    assert_eq!(keys, vec!["10", "9", "B", "_", "b", "z", "é"]);
}

#[test]
fn the_order_is_that_of_a_btree_map() {
    let keys = [
        "temperature",
        "operation_mode",
        "air_volume",
        "air_direction",
        "button",
        "",
        "a",
        "ab",
        "aB",
        "日本",
        "\u{7f}",
    ];
    let mut params = Params::new();
    let mut reference = std::collections::BTreeMap::new();
    for (i, key) in keys.iter().enumerate() {
        params.insert(key, &i.to_string());
        reference.insert(key.to_string(), i.to_string());
    }
    let expected: Vec<(String, String)> = reference.into_iter().collect();
    assert_eq!(entries(&params), expected);
}

#[test]
fn compare_keys_orders_by_first_difference() {
    assert_eq!(compare_keys("air_direction", "air_volume"), KeyOrder::Before);
    assert_eq!(compare_keys("air_volume", "air_direction"), KeyOrder::After);
    assert_eq!(compare_keys("button", "button"), KeyOrder::Same);
}

#[test]
fn compare_keys_puts_a_prefix_first() {
    assert_eq!(compare_keys("model", "model_type"), KeyOrder::Before);
    assert_eq!(compare_keys("model_type", "model"), KeyOrder::After);
    assert_eq!(compare_keys("", "a"), KeyOrder::Before);
    assert_eq!(compare_keys("a", ""), KeyOrder::After);
    assert_eq!(compare_keys("", ""), KeyOrder::Same);
}

#[test]
fn compare_keys_agrees_with_str_order() {
    let keys = ["", "a", "A", "ab", "b", "é", "e", "日本", "z", "~", "10", "9"];
    for a in keys {
        for b in keys {
            let expected = match a.cmp(b) {
                std::cmp::Ordering::Less => KeyOrder::Before,
                std::cmp::Ordering::Equal => KeyOrder::Same,
                std::cmp::Ordering::Greater => KeyOrder::After,
            };
            assert_eq!(compare_keys(a, b), expected);
        }
    }
}
